//! The realtime connection: what it is opened with, the audio it buffers while it cannot send,
//! and how failures read to the user.
//!
//! Points in time are nanoseconds on one monotonic clock.

use std::collections::VecDeque;

use vstd::prelude::*;

use crate::text;

verus! {

/// What a connection is opened with.
pub struct WsConfig {
    pub api_key: String,
    pub language: String,
    pub bias_terms: Vec<String>,
}

/// A command to the connection.
pub enum WsCmd {
    Configure(WsConfig),
    BeginUtterance,
    Audio(Vec<u8>),
    Finalize,
    Reconnect,
}

/// A [`WsConfig`] by its contents.
#[verifier::ext_equal]
pub struct Config {
    pub api_key: Seq<char>,
    pub language: Seq<char>,
    pub bias_terms: Seq<Seq<char>>,
}

/// A [`WsCmd`] by its contents.
pub enum Command {
    Configure(Config),
    BeginUtterance,
    Audio(Seq<u8>),
    Finalize,
    Reconnect,
}

impl View for WsConfig {
    type V = Config;

    open spec fn view(&self) -> Config {
        Config {
            api_key: self.api_key@,
            language: self.language@,
            bias_terms: text::texts(self.bias_terms@),
        }
    }
}

impl View for WsCmd {
    type V = Command;

    open spec fn view(&self) -> Command {
        match self {
            WsCmd::Configure(config) => Command::Configure(config@),
            WsCmd::BeginUtterance => Command::BeginUtterance,
            WsCmd::Audio(chunk) => Command::Audio(chunk@),
            WsCmd::Finalize => Command::Finalize,
            WsCmd::Reconnect => Command::Reconnect,
        }
    }
}

/// About 10 s of audio buffered while (re)connecting.
pub const MAX_PENDING_BYTES: usize = 320_000;

/// A connection is pinged this often.
pub const HEARTBEAT_INTERVAL: u64 = 20_000_000_000;

/// A connection that has been silent for this long is given up.
pub const HEARTBEAT_TIMEOUT: u64 = 45_000_000_000;

/// A connection over which no audio went for this long is replaced.
pub const IDLE_REFRESH_AFTER: u64 = 120_000_000_000;

/// A connection older than this is replaced before the next utterance.
pub const MAX_CONNECTION_AGE: u64 = 480_000_000_000;

// ---- Buffered audio ----

/// What outlives a single connection.
pub struct Session {
    pub config: Option<WsConfig>,
    pub pending: VecDeque<Vec<u8>>,
    pub pending_bytes: usize,
    pub finalize_pending: bool,
}

/// The bytes of each chunk.
pub open spec fn chunk_views(chunks: Seq<Vec<u8>>) -> Seq<Seq<u8>> {
    Seq::new(chunks.len(), |i: int| chunks[i]@)
}

/// The number of bytes in `chunks`.
pub open spec fn total(chunks: Seq<Seq<u8>>) -> nat
    decreases chunks.len(),
{
    if chunks.len() == 0 {
        0
    } else {
        total(chunks.drop_last()) + chunks.last().len()
    }
}

/// The newest of `chunks`: as few as possible of the oldest are dropped, so that at most
/// [`MAX_PENDING_BYTES`] are left.
pub open spec fn newest(chunks: Seq<Seq<u8>>) -> Seq<Seq<u8>>
    decreases chunks.len(),
{
    if total(chunks) <= MAX_PENDING_BYTES || chunks.len() == 0 {
        chunks
    } else {
        newest(chunks.drop_first())
    }
}

pub proof fn lemma_total_first(chunks: Seq<Seq<u8>>)
    requires
        chunks.len() > 0,
    ensures
        total(chunks) == chunks[0].len() + total(chunks.drop_first()),
    decreases chunks.len(),
{
    if chunks.len() > 1 {
        lemma_total_first(chunks.drop_last());
        assert(chunks.drop_last().drop_first() == chunks.drop_first().drop_last());
    } else {
        assert(chunks.drop_last() == Seq::<Seq<u8>>::empty());
        assert(chunks.drop_first() == Seq::<Seq<u8>>::empty());
    }
}

/// A chunk that is too long by itself pushes out everything, itself included.
proof fn lemma_newest_oversized(chunks: Seq<Seq<u8>>)
    requires
        chunks.len() > 0,
        chunks.last().len() > MAX_PENDING_BYTES,
    ensures
        newest(chunks).len() == 0,
    decreases chunks.len(),
{
    if chunks.len() > 1 {
        assert(chunks.drop_first().last() == chunks.last());
        lemma_newest_oversized(chunks.drop_first());
    } else {
        assert(chunks.drop_first() == Seq::<Seq<u8>>::empty());
        reveal_with_fuel(newest, 2);
    }
}

impl Session {
    /// The byte count is that of the buffered chunks and within the limit.
    pub open spec fn wf(&self) -> bool {
        &&& self.pending_bytes == total(self.chunks())
        &&& self.pending_bytes <= MAX_PENDING_BYTES
    }

    /// The buffered chunks, oldest first.
    pub open spec fn chunks(&self) -> Seq<Seq<u8>> {
        chunk_views(self.pending@)
    }

    /// Nothing configured, nothing buffered.
    pub fn new() -> (r: Self)
        ensures
            r.wf(),
            r.config is None,
            r.chunks() == Seq::<Seq<u8>>::empty(),
            !r.finalize_pending,
    {
        let r = Session {
            config: None,
            pending: VecDeque::new(),
            pending_bytes: 0,
            finalize_pending: false,
        };
        assert(r.chunks() =~= Seq::<Seq<u8>>::empty());
        r
    }

    /// Buffers a chunk; the oldest chunks give way.
    pub fn buffer_audio(&mut self, chunk: Vec<u8>)
        requires
            old(self).wf(),
        ensures
            final(self).wf(),
            final(self).chunks() == newest(old(self).chunks().push(chunk@)),
            final(self).config == old(self).config,
            final(self).finalize_pending == old(self).finalize_pending,
    {
        let ghost all = self.chunks().push(chunk@);
        assert(all.drop_last() == self.chunks());
        if chunk.len() > MAX_PENDING_BYTES {
            proof {
                lemma_newest_oversized(all);
            }
            self.pending.clear();
            self.pending_bytes = 0;
            assert(self.chunks() =~= newest(all));
            return ;
        }
        self.pending_bytes = self.pending_bytes + chunk.len();
        self.pending.push_back(chunk);
        assert(self.chunks() =~= all);
        while self.pending_bytes > MAX_PENDING_BYTES
            invariant
                self.pending_bytes == total(self.chunks()),
                newest(self.chunks()) == newest(all),
                self.config == old(self).config,
                self.finalize_pending == old(self).finalize_pending,
            decreases self.pending@.len(),
        {
            self.take_oldest();
        }
    }

    /// Removes and hands out the oldest buffered chunk.
    pub fn take_oldest(&mut self) -> (r: Option<Vec<u8>>)
        requires
            old(self).pending_bytes == total(old(self).chunks()),
        ensures
            match r {
                Some(chunk) => {
                    &&& old(self).chunks().len() > 0
                    &&& chunk@ == old(self).chunks()[0]
                    &&& final(self).chunks() == old(self).chunks().drop_first()
                    &&& final(self).pending_bytes == total(final(self).chunks())
                    &&& final(self).pending_bytes == old(self).pending_bytes - chunk@.len()
                },
                None => {
                    &&& old(self).chunks().len() == 0
                    &&& final(self).chunks() == old(self).chunks()
                    &&& final(self).pending_bytes == old(self).pending_bytes
                },
            },
            final(self).config == old(self).config,
            final(self).finalize_pending == old(self).finalize_pending,
    {
        let ghost before = self.chunks();
        match self.pending.pop_front() {
            Some(chunk) => {
                proof {
                    lemma_total_first(before);
                }
                assert(chunk@ == before[0]);
                self.pending_bytes = self.pending_bytes - chunk.len();
                assert(self.chunks() =~= before.drop_first());
                Some(chunk)
            },
            None => {
                assert(self.chunks() =~= before);
                None
            },
        }
    }
}

/// Time from `earlier` to `now`, zero if `earlier` is later.
pub open spec fn elapsed(earlier: u64, now: u64) -> int {
    if now >= earlier {
        now - earlier
    } else {
        0
    }
}

/// Time from `earlier` to `now`, zero if `earlier` is later.
pub fn since(earlier: u64, now: u64) -> (r: u64)
    ensures
        r == elapsed(earlier, now),
{
    if now >= earlier {
        now - earlier
    } else {
        0
    }
}

/// A connection is replaced before an utterance if it is old or no audio went over it lately.
pub open spec fn needs_refresh(connected_at: u64, last_audio_at: u64, now: u64) -> bool {
    elapsed(connected_at, now) >= MAX_CONNECTION_AGE || elapsed(last_audio_at, now)
        >= IDLE_REFRESH_AFTER
}

/// Whether a connection is to be replaced before the next utterance.
pub fn connection_needs_refresh(connected_at: u64, last_audio_at: u64, now: u64) -> (r: bool)
    ensures
        r == needs_refresh(connected_at, last_audio_at, now),
{
    since(connected_at, now) >= MAX_CONNECTION_AGE || since(last_audio_at, now)
        >= IDLE_REFRESH_AFTER
}

// ---- Opening a connection ----

/// An uppercase hexadecimal digit.
pub open spec fn hex_digit(n: u8) -> char {
    if n < 10 {
        (48 + n) as u8 as char
    } else {
        (55 + n) as u8 as char
    }
}

/// A byte that percent-encoding keeps: an ASCII letter or digit.
pub open spec fn is_kept(b: u8) -> bool {
    48 <= b <= 57 || 65 <= b <= 90 || 97 <= b <= 122
}

/// One byte, percent-encoded.
pub open spec fn percent_byte(b: u8) -> Seq<char> {
    if is_kept(b) {
        seq![b as char]
    } else {
        seq!['%', hex_digit(b / 16), hex_digit(b % 16)]
    }
}

/// `bytes`, percent-encoded one after the other.
pub open spec fn percent_encoded(bytes: Seq<u8>) -> Seq<char>
    decreases bytes.len(),
{
    if bytes.len() == 0 {
        Seq::empty()
    } else {
        percent_encoded(bytes.drop_last()) + percent_byte(bytes.last())
    }
}

/// Trusted: `percent_encoding::utf8_percent_encode` with the set `NON_ALPHANUMERIC`, displayed,
/// keeps the ASCII letters and digits of the UTF-8 form of `s` and writes every other byte as
/// `%` and two uppercase hexadecimal digits.
#[verifier::external_body]
fn percent_encode(s: &str) -> (r: String)
    ensures
        r@ == percent_encoded(vstd::utf8::encode_utf8(s@)),
{
    percent_encoding::utf8_percent_encode(s, percent_encoding::NON_ALPHANUMERIC).to_string()
}

/// A query parameter: `name` and the percent-encoded `value`.
pub open spec fn parameter(name: Seq<char>, value: Seq<char>) -> Seq<char> {
    name + percent_encoded(vstd::utf8::encode_utf8(value))
}

/// The `keyterm` parameters for `terms`.
pub open spec fn keyterms(terms: Seq<Seq<char>>) -> Seq<char>
    decreases terms.len(),
{
    if terms.len() == 0 {
        Seq::empty()
    } else {
        keyterms(terms.drop_last()) + parameter("&keyterm="@, terms.last())
    }
}

/// The address without the parameters that depend on the configuration.
pub const BASE_URL: &'static str = "wss://api.x.ai/v1/stt?sample_rate=16000&encoding=pcm&interim_results=true&filler_words=false&endpointing=5000&vad_threshold=0.03";

/// The most bias terms the address carries.
pub const MAX_KEYTERMS: usize = 100;

/// The first [`MAX_KEYTERMS`] of `terms`.
pub open spec fn sent_terms(terms: Seq<Seq<char>>) -> Seq<Seq<char>> {
    if terms.len() <= MAX_KEYTERMS {
        terms
    } else {
        terms.take(MAX_KEYTERMS as int)
    }
}

/// The address a connection with this configuration is opened to: the trimmed language, unless
/// it is blank, and the first [`MAX_KEYTERMS`] bias terms are parameters.
pub open spec fn url_of(config: Config) -> Seq<char> {
    let language = text::trim(config.language);
    let head = if language.len() > 0 {
        BASE_URL@ + parameter("&language="@, language)
    } else {
        BASE_URL@
    };
    head + keyterms(sent_terms(config.bias_terms))
}

/// The address to connect to.
pub fn request_url(config: &WsConfig) -> (r: String)
    ensures
        r@ == url_of(config@),
{
    let mut url = BASE_URL.to_owned();
    let language = text::trimmed(&text::chars_of(config.language.as_str()));
    if language.len() > 0 {
        url.append("&language=");
        url.append(percent_encode(text::string_of(&language).as_str()).as_str());
        assert(url@ == BASE_URL@ + parameter("&language="@, language@));
    }
    let ghost head = url@;
    let ghost all = text::texts(config.bias_terms@);
    let mut i: usize = 0;
    assert(all.take(0) == Seq::<Seq<char>>::empty());
    while i < config.bias_terms.len() && i < MAX_KEYTERMS
        invariant
            i <= config.bias_terms@.len(),
            i <= MAX_KEYTERMS,
            all == text::texts(config.bias_terms@),
            url@ == head + keyterms(all.take(i as int)),
        decreases config.bias_terms@.len() - i,
    {
        let ghost before = url@;
        url.append("&keyterm=");
        url.append(percent_encode(config.bias_terms[i].as_str()).as_str());
        assert(all.take(i + 1).drop_last() == all.take(i as int));
        assert(all.take(i + 1).last() == config.bias_terms@[i as int]@);
        assert(url@ == before + parameter("&keyterm="@, config.bias_terms@[i as int]@));
        i = i + 1;
        assert(url@ == head + keyterms(all.take(i as int)));
    }
    assert(all.take(i as int) == sent_terms(all));
    url
}

/// The value of the `Authorization` header.
pub fn authorization(config: &WsConfig) -> (r: String)
    ensures
        r@ == "Bearer "@ + config.api_key@,
{
    let mut value = "Bearer ".to_owned();
    value.append(config.api_key.as_str());
    value
}

/// A byte that can stand in the value of a header: a tab, or any but a control character.
pub open spec fn is_header_byte(b: u8) -> bool {
    b == 9 || (b >= 32 && b != 127)
}

/// A text that can stand in a header.
pub open spec fn is_header_text(s: Seq<char>) -> bool {
    forall|i: int|
        0 <= i < vstd::utf8::encode_utf8(s).len() ==> is_header_byte(
            #[trigger] vstd::utf8::encode_utf8(s)[i],
        )
}

/// Trusted: `http::HeaderValue::from_str`, as `tokio_tungstenite` hands it on, succeeds exactly
/// where every byte of the UTF-8 form of `s` is a tab or no ASCII control character.
#[verifier::external_body]
fn fits_header(s: &str) -> (r: bool)
    ensures
        r == is_header_text(s@),
{
    tokio_tungstenite::tungstenite::http::HeaderValue::from_str(s).is_ok()
}

/// The value of the `Authorization` header, or that the key cannot stand in one.
pub fn bearer(config: &WsConfig) -> (r: Result<String, ConnectError>)
    ensures
        match r {
            Ok(value) => value@ == "Bearer "@ + config.api_key@ && is_header_text(value@),
            Err(error) => error is BadKey && !is_header_text("Bearer "@ + config.api_key@),
        },
{
    let value = authorization(config);
    if fits_header(value.as_str()) {
        Ok(value)
    } else {
        Err(ConnectError::BadKey)
    }
}

/// Why a connection could not be opened.
pub enum ConnectError {
    /// The address is not a valid request.
    BadRequest(String),
    /// The API key cannot stand in a header.
    BadKey,
    /// There was no answer in time.
    TimedOut,
    /// Anything else, in the words of whoever failed.
    Failed(String),
}

impl ConnectError {
    /// What the error reads.
    pub open spec fn reads(self) -> Seq<char> {
        match self {
            ConnectError::BadRequest(error) => "bad request: "@ + error@,
            ConnectError::BadKey => "bad API key format"@,
            ConnectError::TimedOut => "timed out"@,
            ConnectError::Failed(error) => error@,
        }
    }

    /// What the error reads.
    pub fn message(&self) -> (r: String)
        ensures
            r@ == self.reads(),
    {
        match self {
            ConnectError::BadRequest(error) => {
                let mut out = "bad request: ".to_owned();
                out.append(error.as_str());
                out
            },
            ConnectError::BadKey => "bad API key format".to_owned(),
            ConnectError::TimedOut => "timed out".to_owned(),
            ConnectError::Failed(error) => error.clone(),
        }
    }
}

// ---- Failures in words ----

/// How a failure is reported, given its text and the lowercase form of it.
pub open spec fn friendly_of(error: Seq<char>, lower: Seq<char>) -> Seq<char> {
    if text::contains(lower, "401"@) || text::contains(lower, "unauthorized"@) {
        "The xAI API key was rejected. Re-import it from the menu bar."@
    } else if text::contains(lower, "timed out"@) || text::contains(lower, "timeout"@) {
        "xAI took too long to respond."@
    } else if text::contains(lower, "dns"@) || text::contains(lower, "lookup"@) || text::contains(
        lower,
        "connection refused"@,
    ) || text::contains(lower, "network"@) {
        "No connection to xAI. Check your internet."@
    } else {
        "xAI connection issue: "@ + error
    }
}

/// How a failure is reported, given its text and the lowercase form of it.
pub fn friendly_from(error: &str, lower: &str) -> (r: String)
    ensures
        r@ == friendly_of(error@, lower@),
{
    let l = text::chars_of(lower);
    if text::has(&l, "401") || text::has(&l, "unauthorized") {
        "The xAI API key was rejected. Re-import it from the menu bar.".to_owned()
    } else if text::has(&l, "timed out") || text::has(&l, "timeout") {
        "xAI took too long to respond.".to_owned()
    } else if text::has(&l, "dns") || text::has(&l, "lookup") || text::has(&l, "connection refused")
        || text::has(&l, "network") {
        "No connection to xAI. Check your internet.".to_owned()
    } else {
        let mut out = "xAI connection issue: ".to_owned();
        out.append(error);
        out
    }
}

/// How a failure is reported to the user.
pub fn friendly(error: &str) -> (r: String)
    ensures
        r@ == friendly_of(error@, text::lowercase(error@)),
{
    friendly_from(error, error.to_lowercase().as_str())
}

// ---- Laws ----

/// The buffer never exceeds its limit, what it holds is the newest audio in order, and nothing
/// is dropped without need.
pub proof fn law_buffer_keeps_the_newest_audio(chunks: Seq<Seq<u8>>)
    ensures
        newest(chunks).len() <= chunks.len(),
        newest(chunks) == chunks.skip(chunks.len() - newest(chunks).len()),
        total(newest(chunks)) <= MAX_PENDING_BYTES,
        newest(chunks).len() < chunks.len() ==> total(
            chunks.skip(chunks.len() - newest(chunks).len() - 1),
        ) > MAX_PENDING_BYTES,
    decreases chunks.len(),
{
    if total(chunks) <= MAX_PENDING_BYTES || chunks.len() == 0 {
        assert(chunks.skip(0) == chunks);
    } else {
        let rest = chunks.drop_first();
        law_buffer_keeps_the_newest_audio(rest);
        let n = newest(chunks).len();
        assert(rest.skip(rest.len() - n) == chunks.skip(chunks.len() - n));
        if n < rest.len() {
            assert(rest.skip(rest.len() - n - 1) == chunks.skip(chunks.len() - n - 1));
        } else {
            assert(chunks.skip(0) == chunks);
        }
    }
}

/// A value cannot break out of its query parameter: encoded text holds only ASCII letters,
/// digits and `%`.
pub proof fn law_encoded_text_is_url_safe(bytes: Seq<u8>)
    ensures
        forall|i: int|
            0 <= i < percent_encoded(bytes).len() ==> {
                let c = #[trigger] percent_encoded(bytes)[i];
                c == '%' || '0' <= c <= '9' || 'A' <= c <= 'Z' || 'a' <= c <= 'z'
            },
    decreases bytes.len(),
{
    if bytes.len() > 0 {
        law_encoded_text_is_url_safe(bytes.drop_last());
        let front = percent_encoded(bytes.drop_last());
        let b = bytes.last();
        assert forall|i: int| 0 <= i < percent_encoded(bytes).len() implies {
            let c = #[trigger] percent_encoded(bytes)[i];
            c == '%' || '0' <= c <= '9' || 'A' <= c <= 'Z' || 'a' <= c <= 'z'
        } by {
            if i < front.len() {
                assert(percent_encoded(bytes)[i] == front[i]);
            } else {
                assert(percent_encoded(bytes)[i] == percent_byte(b)[i - front.len()]);
            }
        }
    }
}

/// The size of the buffer is that of its chunks together.
pub proof fn law_the_size_of_the_buffer_counts_every_byte(chunks: Seq<Seq<u8>>, chunk: Seq<u8>)
    ensures
        total(Seq::empty()) == 0,
        total(chunks.push(chunk)) == total(chunks) + chunk.len(),
{
    assert(chunks.push(chunk).drop_last() == chunks);
}

/// Encoding keeps ASCII letters and digits, and writes any other byte as `%` and the two digits
/// of its value in base 16; byte after byte.
pub proof fn law_bytes_are_encoded_one_by_one(bytes: Seq<u8>, b: u8)
    ensures
        percent_encoded(Seq::empty()).len() == 0,
        ({
            let piece = percent_encoded(bytes.push(b)).skip(percent_encoded(bytes).len() as int);
            let value = |c: char|
                if '0' <= c <= '9' {
                    c as int - '0' as int
                } else {
                    c as int - 'A' as int + 10
                };
            let kept = ('0' as int <= b <= '9' as int) || ('A' as int <= b <= 'Z' as int) || (
            'a' as int <= b <= 'z' as int);
            &&& percent_encoded(bytes.push(b)) == percent_encoded(bytes) + piece
            &&& kept ==> piece == seq![b as char]
            &&& !kept ==> piece.len() == 3 && piece[0] == '%' && value(piece[1]) * 16 + value(
                piece[2],
            ) == b && (forall|i: int|
                1 <= i < 3 ==> '0' <= #[trigger] piece[i] <= '9' || 'A' <= piece[i] <= 'F')
        }),
{
    assert(bytes.push(b).drop_last() == bytes);
    let piece = percent_encoded(bytes.push(b)).skip(percent_encoded(bytes).len() as int);
    assert(piece =~= percent_byte(b));
    assert(b / 16 < 16 && b % 16 < 16);
    assert((b / 16) * 16 + b % 16 == b);
}

/// Every bias term up to the hundredth is one more parameter of the address, in order; more are
/// not sent. The language is a parameter unless it is blank, without the whitespace around it.
pub proof fn law_the_address_carries_language_and_terms(config: Config, term: Seq<char>)
    ensures
        ({
            let none = Seq::<Seq<char>>::empty();
            let longer = Config { bias_terms: config.bias_terms.push(term), ..config };
            let bare = Config { bias_terms: none, ..config };
            let encoded = |s: Seq<char>| percent_encoded(vstd::utf8::encode_utf8(s));
            &&& config.bias_terms.len() < 100 ==> url_of(longer) == url_of(config) + "&keyterm="@
                + encoded(term)
            &&& config.bias_terms.len() >= 100 ==> url_of(longer) == url_of(config)
            &&& text::all_white(config.language) ==> url_of(bare) == BASE_URL@
            &&& !text::all_white(config.language) ==> url_of(bare) == BASE_URL@ + "&language="@
                + encoded(text::trim(config.language))
        }),
{
    let none = Seq::<Seq<char>>::empty();
    let longer = Config { bias_terms: config.bias_terms.push(term), ..config };
    let bare = Config { bias_terms: none, ..config };
    let language = text::trim(config.language);
    assert(config.bias_terms.push(term).drop_last() == config.bias_terms);
    if config.bias_terms.len() >= 100 {
        assert(sent_terms(longer.bias_terms) =~= sent_terms(config.bias_terms));
    } else {
        let piece = "&keyterm="@ + percent_encoded(vstd::utf8::encode_utf8(term));
        assert(url_of(longer) =~= url_of(config) + piece);
        assert(url_of(config) + piece =~= url_of(config) + "&keyterm="@ + percent_encoded(
            vstd::utf8::encode_utf8(term),
        ));
    }
    assert(keyterms(none) =~= Seq::<char>::empty());
    text::lemma_trim_empty(config.language);
    if language.len() > 0 {
        assert(url_of(bare) =~= BASE_URL@ + "&language="@ + percent_encoded(
            vstd::utf8::encode_utf8(language),
        ));
    } else {
        assert(url_of(bare) =~= BASE_URL@);
    }
}

/// A failure that mentions a rejected key says so, else one that mentions time running out, else
/// one that mentions the network; any other is reported in its own words.
pub proof fn law_failures_are_told_apart_by_what_they_mention(
    error: Seq<char>,
    lower: Seq<char>,
)
    ensures
        ({
            let mentions = |p: Seq<char>|
                exists|a: Seq<char>, b: Seq<char>| lower == #[trigger] (a + p + b);
            let key = mentions("401"@) || mentions("unauthorized"@);
            let time = mentions("timed out"@) || mentions("timeout"@);
            let net = mentions("dns"@) || mentions("lookup"@) || mentions("connection refused"@)
                || mentions("network"@);
            let told = friendly_of(error, lower);
            &&& key ==> told == "The xAI API key was rejected. Re-import it from the menu bar."@
            &&& (!key && time) ==> told == "xAI took too long to respond."@
            &&& (!key && !time && net) ==> told == "No connection to xAI. Check your internet."@
            &&& (!key && !time && !net) ==> told == "xAI connection issue: "@ + error
        }),
{
    lemma_mentions(lower, "401"@);
    lemma_mentions(lower, "unauthorized"@);
    lemma_mentions(lower, "timed out"@);
    lemma_mentions(lower, "timeout"@);
    lemma_mentions(lower, "dns"@);
    lemma_mentions(lower, "lookup"@);
    lemma_mentions(lower, "connection refused"@);
    lemma_mentions(lower, "network"@);
}

proof fn lemma_mentions(s: Seq<char>, p: Seq<char>)
    ensures
        text::contains(s, p) == (exists|a: Seq<char>, b: Seq<char>| s == #[trigger] (a + p + b)),
{
    text::law_a_text_contains_its_pieces(s, s, p, s);
    if exists|a: Seq<char>, b: Seq<char>| s == #[trigger] (a + p + b) {
        let (a, b) = choose|a: Seq<char>, b: Seq<char>| s == #[trigger] (a + p + b);
        text::law_a_text_contains_its_pieces(s, a, p, b);
    }
}

/// A connection is replaced before an utterance exactly if it has been open for eight minutes or
/// no audio has gone over it for two. A clock that steps back ages nothing.
pub proof fn law_only_an_old_or_idle_connection_is_replaced(opened: u64, used: u64, now: u64)
    ensures
        needs_refresh(opened, used, now) == (now - opened >= 480_000_000_000 || now
            - used >= 120_000_000_000),
{
}

/// A header takes any text but one with a control character in it; a tab is none.
pub proof fn law_headers_take_any_text_without_control_characters(b: u8, s: Seq<char>)
    ensures
        is_header_byte(b) == (b == 9 || !(b < 32 || b == 127)),
        is_header_text(s) == (forall|i: int|
            0 <= i < vstd::utf8::encode_utf8(s).len() ==> {
                let c = #[trigger] vstd::utf8::encode_utf8(s)[i];
                c == 9 || !(c < 32 || c == 127)
            }),
{
}

/// A connection that cannot be opened is reported with the reason.
pub proof fn law_failed_connections_are_reported_with_the_reason(error: String)
    ensures
        ConnectError::BadRequest(error).reads() == "bad request: "@ + error@,
        ConnectError::Failed(error).reads() == error@,
{
}

} // verus!
