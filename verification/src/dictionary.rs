//! Personal dictionary: recognition bias, exact casing and spoken replacements.
//!
//! File format (one entry per line):
//!   xAI                       -> bias recognition + enforce this exact casing
//!   gee pee you -> GPU        -> bias "gee pee you", replace it with "GPU"
//!   # lines starting with # are comments

use vstd::prelude::*;
use crate::text;

verus! {

/// One dictionary line: the spoken form to look for and what to write instead.
pub struct Entry {
    pub matcher: String,
    pub output: String,
}

/// The entries of a dictionary file, in file order.
pub struct Dictionary {
    pub entries: Vec<Entry>,
}

/// What reading the dictionary file leads to.
pub struct LoadedDictionary {
    pub dictionary: Dictionary,
    /// The file could not be read: write [`DEFAULT_DICTIONARY`] in its place.
    pub write_default: bool,
}

/// The dictionary a new user starts with.
pub const DEFAULT_DICTIONARY: &'static str = "\
# FnType dictionary - one entry per line.
# `Word` biases recognition toward the word and enforces its exact casing.
# `spoken form -> Written Form` also replaces the spoken form in the output.
xAI
Grok
FnType
gee pee you -> GPU
open whisper -> OpenWispr
";

/// The most bias terms a connection takes.
pub const MAX_TERMS: usize = 100;

/// The longest bias term, in characters.
pub const MAX_TERM_CHARS: usize = 50;

impl View for Entry {
    type V = (Seq<char>, Seq<char>);

    open spec fn view(&self) -> (Seq<char>, Seq<char>) {
        (self.matcher@, self.output@)
    }
}

impl View for Dictionary {
    type V = Seq<(Seq<char>, Seq<char>)>;

    open spec fn view(&self) -> Seq<(Seq<char>, Seq<char>)> {
        entry_views(self.entries@)
    }
}

/// The matcher and output of each entry.
pub open spec fn entry_views(entries: Seq<Entry>) -> Seq<(Seq<char>, Seq<char>)> {
    Seq::new(entries.len(), |i: int| entries[i]@)
}

// ---- Parsing ----

/// The parts of `s` around the first occurrence of `sep`.
pub open spec fn split_once(s: Seq<char>, sep: Seq<char>) -> Option<(Seq<char>, Seq<char>)> {
    if text::contains(s, sep) {
        let i = choose|i: int| text::first_occurrence(s, sep, i);
        Some((s.take(i), s.skip(i + sep.len())))
    } else {
        None
    }
}

/// The entry that one line of a dictionary file holds. Blank lines, comments and lines with
/// an empty side hold none.
pub open spec fn parse_line(line: Seq<char>) -> Option<(Seq<char>, Seq<char>)> {
    let t = text::trim(line);
    if t.len() == 0 || t[0] == '#' {
        None
    } else {
        let (m, o) = match split_once(t, "->"@) {
            Some((m, o)) => (text::trim(m), text::trim(o)),
            None => (t, t),
        };
        if m.len() == 0 || o.len() == 0 {
            None
        } else {
            Some((m, o))
        }
    }
}

/// The entries that a sequence of lines holds, in order.
pub open spec fn parse_lines(ls: Seq<Seq<char>>) -> Seq<(Seq<char>, Seq<char>)>
    decreases ls.len(),
{
    if ls.len() == 0 {
        Seq::empty()
    } else {
        match parse_line(ls.last()) {
            Some(entry) => parse_lines(ls.drop_last()).push(entry),
            None => parse_lines(ls.drop_last()),
        }
    }
}

/// The entry that one line holds, if any.
fn entry_of(line: &[char]) -> (r: Option<Entry>)
    ensures
        match r {
            Some(e) => parse_line(line@) == Some(e@),
            None => parse_line(line@) is None,
        },
{
    let t = text::trimmed(line);
    if t.len() == 0 || t[0] == '#' {
        return None;
    }
    let sep = text::chars_of("->");
    assert(sep@.len() == 2) by {
        reveal_strlit("->");
    }
    let (m, o) = match text::find(&t, &sep) {
        Some(i) => {
            assert(text::occurs_at(t@, i as int, sep@));
            proof {
                let c = choose|c: int| text::first_occurrence(t@, sep@, c);
                assert(text::first_occurrence(t@, sep@, i as int));
                assert(c == i);
            }
            assert(t@.subrange(0, i as int) == t@.take(i as int));
            assert(t@.subrange(i + 2, t@.len() as int) == t@.skip(i + 2));
            (
                text::trimmed(vstd::slice::slice_subrange(&t, 0, i)),
                text::trimmed(vstd::slice::slice_subrange(&t, i + 2, t.len())),
            )
        },
        None => (t.clone(), t.clone()),
    };
    if m.len() == 0 || o.len() == 0 {
        return None;
    }
    Some(Entry { matcher: text::string_of(&m), output: text::string_of(&o) })
}

impl Dictionary {
    /// The entries of a dictionary file with the given contents.
    pub fn parse(text: &str) -> (r: Self)
        ensures
            r@ == parse_lines(text::lines(text@)),
    {
        let chars = text::chars_of(text);
        let ls = text::split_lines(&chars);
        let mut entries: Vec<Entry> = Vec::new();
        let mut i: usize = 0;
        while i < ls.len()
            invariant
                i <= ls@.len(),
                ls@.len() == text::lines(text@).len(),
                forall|k: int| 0 <= k < ls@.len() ==> #[trigger] ls@[k]@ == text::lines(text@)[k],
                entry_views(entries@) == parse_lines(text::lines(text@).take(i as int)),
            decreases ls@.len() - i,
        {
            let ghost all = text::lines(text@);
            let ghost before = entries@;
            assert(all.take(i + 1).drop_last() == all.take(i as int));
            assert(ls@[i as int]@ == all.take(i + 1).last());
            match entry_of(&ls[i]) {
                Some(e) => {
                    entries.push(e);
                    assert(entry_views(entries@) == entry_views(before).push(e@));
                },
                None => {},
            }
            i = i + 1;
        }
        assert(text::lines(text@).take(i as int) == text::lines(text@));
        Dictionary { entries }
    }

    /// The dictionary for what was read from the file; `None` when it could not be read.
    pub fn load(contents: Option<&str>) -> (r: LoadedDictionary)
        ensures
            match contents {
                Some(text) => !r.write_default && r.dictionary@ == parse_lines(text::lines(text@)),
                None => r.write_default && r.dictionary@ == parse_lines(
                    text::lines(DEFAULT_DICTIONARY@),
                ),
            },
    {
        match contents {
            Some(text) => LoadedDictionary {
                dictionary: Dictionary::parse(text),
                write_default: false,
            },
            None => LoadedDictionary {
                dictionary: Dictionary::parse(DEFAULT_DICTIONARY),
                write_default: true,
            },
        }
    }
}

// ---- Recognition bias ----

/// A term the recogniser accepts: not empty and at most [`MAX_TERM_CHARS`] characters
/// long.
pub open spec fn is_term(t: Seq<char>) -> bool {
    0 < t.len() <= MAX_TERM_CHARS
}

/// The positions of the terms to send: in order, those that are terms and whose key no term
/// chosen before has, until there are [`MAX_TERMS`].
pub open spec fn picked(terms: Seq<Seq<char>>, keys: Seq<Seq<char>>) -> Seq<int>
    decreases terms.len(),
{
    if terms.len() == 0 {
        Seq::empty()
    } else {
        let before = picked(terms.drop_last(), keys.drop_last());
        let i = terms.len() - 1;
        if is_term(terms[i]) && before.len() < MAX_TERMS && forall|j: int|
            0 <= j < before.len() ==> keys[#[trigger] before[j]] != keys[i] {
            before.push(i)
        } else {
            before
        }
    }
}

/// The terms at the positions [`picked`].
pub open spec fn picked_terms(terms: Seq<Seq<char>>, keys: Seq<Seq<char>>) -> Seq<Seq<char>> {
    picked(terms, keys).map_values(|i: int| terms[i])
}

/// Both sides of every entry, trimmed, matcher before output.
pub open spec fn candidate_terms(entries: Seq<(Seq<char>, Seq<char>)>) -> Seq<Seq<char>> {
    Seq::new(
        2 * entries.len(),
        |i: int|
            if i % 2 == 0 {
                text::trim(entries[i / 2].0)
            } else {
                text::trim(entries[i / 2].1)
            },
    )
}

/// The bias terms of a dictionary: terms that differ only in case are sent once.
pub open spec fn bias_terms_of(entries: Seq<(Seq<char>, Seq<char>)>) -> Seq<Seq<char>> {
    let terms = candidate_terms(entries);
    picked_terms(terms, terms.map_values(|t: Seq<char>| text::lowercase(t)))
}

/// The positions that [`picked`] chooses are positions of `terms`.
proof fn lemma_picked_in_range(terms: Seq<Seq<char>>, keys: Seq<Seq<char>>)
    ensures
        picked(terms, keys).len() <= terms.len(),
        forall|j: int|
            0 <= j < picked(terms, keys).len() ==> 0 <= #[trigger] picked(terms, keys)[j]
                < terms.len(),
    decreases terms.len(),
{
    if terms.len() > 0 {
        lemma_picked_in_range(terms.drop_last(), keys.drop_last());
    }
}

/// The first [`MAX_TERMS`] of `terms` that the recogniser accepts and whose `keys` differ.
pub fn select_terms(terms: &[String], keys: &[String]) -> (r: Vec<String>)
    requires
        terms@.len() == keys@.len(),
    ensures
        text::texts(r@) == picked_terms(text::texts(terms@), text::texts(keys@)),
{
    let mut out: Vec<String> = Vec::new();
    let mut seen: Vec<usize> = Vec::new();
    let ghost ts = text::texts(terms@);
    let ghost ks = text::texts(keys@);
    let mut i: usize = 0;
    while i < terms.len()
        invariant
            i <= terms@.len(),
            terms@.len() == keys@.len(),
            ts == text::texts(terms@),
            ks == text::texts(keys@),
            seen@.len() == picked(ts.take(i as int), ks.take(i as int)).len(),
            forall|j: int|
                0 <= j < seen@.len() ==> #[trigger] seen@[j] == picked(
                    ts.take(i as int),
                    ks.take(i as int),
                )[j],
            forall|j: int| 0 <= j < seen@.len() ==> #[trigger] seen@[j] < i,
            out@.len() == seen@.len(),
            forall|j: int| 0 <= j < out@.len() ==> #[trigger] out@[j]@ == ts[seen@[j] as int],
        decreases terms@.len() - i,
    {
        let ghost before = picked(ts.take(i as int), ks.take(i as int));
        let ghost now = ts.take(i + 1);
        proof {
            assert(now.drop_last() == ts.take(i as int));
            assert(ks.take(i + 1).drop_last() == ks.take(i as int));
            lemma_picked_in_range(ts.take(i as int), ks.take(i as int));
        }
        let length = text::chars_of(terms[i].as_str()).len();
        let fits = 0 < length && length <= MAX_TERM_CHARS;
        let mut fresh = true;
        let mut j: usize = 0;
        while j < seen.len()
            invariant
                j <= seen@.len(),
                i < keys@.len(),
                ks == text::texts(keys@),
                before.len() == seen@.len(),
                forall|m: int| 0 <= m < seen@.len() ==> #[trigger] seen@[m] < i,
                forall|m: int| 0 <= m < seen@.len() ==> #[trigger] seen@[m] == before[m],
                fresh == (forall|m: int| 0 <= m < j ==> ks[#[trigger] before[m]] != ks[i as int]),
            decreases seen@.len() - j,
        {
            let k = seen[j];
            assert(before[j as int] == k);
            if keys[k] == keys[i] {
                fresh = false;
            }
            j = j + 1;
        }
        assert(fresh == (forall|m: int|
            0 <= m < before.len() ==> ks.take(i + 1)[#[trigger] before[m]] != ks.take(
                i + 1,
            )[i as int])) by {
            assert forall|m: int| 0 <= m < before.len() implies ks.take(i + 1)[#[trigger] before[m]]
                == ks[before[m]] by {
                assert(seen@[m] < i);
            }
        }
        if fits && seen.len() < MAX_TERMS && fresh {
            out.push(terms[i].clone());
            seen.push(i);
        }
        i = i + 1;
    }
    assert(ts.take(i as int) == ts);
    assert(ks.take(i as int) == ks);
    assert(text::texts(out@) == picked_terms(ts, ks));
    out
}

impl Dictionary {
    /// Terms sent as `keyterm` bias parameters (max 100, each <= 50 chars).
    pub fn bias_terms(&self) -> (r: Vec<String>)
        ensures
            text::texts(r@) == bias_terms_of(self@),
    {
        let mut terms: Vec<String> = Vec::new();
        let mut keys: Vec<String> = Vec::new();
        let ghost cands = candidate_terms(self@);
        let ghost lows = cands.map_values(|t: Seq<char>| text::lowercase(t));
        let mut i: usize = 0;
        while i < self.entries.len()
            invariant
                i <= self.entries@.len(),
                cands == candidate_terms(self@),
                lows == cands.map_values(|t: Seq<char>| text::lowercase(t)),
                terms@.len() == 2 * i,
                keys@.len() == 2 * i,
                forall|j: int| 0 <= j < 2 * i ==> #[trigger] terms@[j]@ == cands[j],
                forall|j: int| 0 <= j < 2 * i ==> #[trigger] keys@[j]@ == lows[j],
            decreases self.entries@.len() - i,
        {
            let m = text::string_of(&text::trimmed(&text::chars_of(self.entries[i].matcher.as_str())));
            let o = text::string_of(&text::trimmed(&text::chars_of(self.entries[i].output.as_str())));
            assert(self@[i as int] == self.entries@[i as int]@);
            assert((2 * i) / 2 == i && (2 * i) % 2 == 0 && (2 * i + 1) / 2 == i && (2 * i + 1) % 2
                == 1);
            assert(m@ == cands[2 * i]);
            assert(o@ == cands[2 * i + 1]);
            keys.push(m.as_str().to_lowercase());
            keys.push(o.as_str().to_lowercase());
            terms.push(m);
            terms.push(o);
            i = i + 1;
        }
        assert(text::texts(terms@) == cands);
        assert(text::texts(keys@) == lows);
        select_terms(&terms, &keys)
    }
}

// ---- Replacement ----

/// `word` stands in `folded` at `i` as a whole word: the characters on both sides of it, if
/// any, are not letters or digits (`alnum`).
pub open spec fn word_at(folded: Seq<char>, alnum: Seq<bool>, word: Seq<char>, i: int) -> bool {
    &&& text::occurs_at(folded, i, word)
    &&& i > 0 ==> !alnum[i - 1]
    &&& i + word.len() < folded.len() ==> !alnum[i + word.len()]
}

/// `hay` from position `i` on with every whole word `word` replaced, scanning left to right.
/// Words are looked for in `folded`, everything else is kept from `hay`.
pub open spec fn replaced_from(
    hay: Seq<char>,
    folded: Seq<char>,
    alnum: Seq<bool>,
    word: Seq<char>,
    replacement: Seq<char>,
    i: int,
) -> Seq<char>
    decreases (if i < hay.len() { hay.len() - i } else { 0 }),
{
    if i < 0 || i >= hay.len() || word.len() == 0 {
        Seq::empty()
    } else if word_at(folded, alnum, word, i) {
        replacement + replaced_from(hay, folded, alnum, word, replacement, i + word.len())
    } else {
        seq![hay[i]] + replaced_from(hay, folded, alnum, word, replacement, i + 1)
    }
}

/// Which characters are letters or digits.
pub open spec fn word_chars(s: Seq<char>) -> Seq<bool> {
    s.map_values(|c: char| text::is_word_char(c))
}

/// `hay` with every occurrence of `needle` as a whole word, in any case, replaced. A text or
/// needle that cannot be matched position by position is left as it is.
pub open spec fn replace_word_in(
    hay: Seq<char>,
    needle: Seq<char>,
    replacement: Seq<char>,
) -> Seq<char> {
    let word = text::lowercase(needle);
    let folded = text::lowercase(hay);
    if word.len() == 0 || hay.len() < word.len() || folded.len() != hay.len() {
        hay
    } else {
        replaced_from(hay, folded, word_chars(hay), word, replacement, 0)
    }
}

/// `text` after each entry in turn has been replaced in it.
pub open spec fn apply_entries(
    text: Seq<char>,
    entries: Seq<(Seq<char>, Seq<char>)>,
) -> Seq<char>
    decreases entries.len(),
{
    if entries.len() == 0 {
        text
    } else {
        replace_word_in(
            apply_entries(text, entries.drop_last()),
            entries.last().0,
            entries.last().1,
        )
    }
}

/// Replaces the whole words of `hay` that read `word` in `folded`, its case-folded form.
/// `alnum` says which characters of `hay` are letters or digits.
pub fn replace_matches(
    hay: &[char],
    folded: &[char],
    alnum: &[bool],
    word: &[char],
    replacement: &str,
) -> (r: String)
    requires
        folded@.len() == hay@.len(),
        alnum@.len() == hay@.len(),
        word@.len() > 0,
    ensures
        r@ == replaced_from(hay@, folded@, alnum@, word@, replacement@, 0),
{
    let mut out = String::new();
    let n = hay.len();
    let mut i: usize = 0;
    let ghost whole = replaced_from(hay@, folded@, alnum@, word@, replacement@, 0);
    assert(out@ + whole == whole);
    while i < n
        invariant
            i <= n,
            n == hay@.len(),
            folded@.len() == n,
            alnum@.len() == n,
            word@.len() > 0,
            whole == out@ + replaced_from(
                hay@,
                folded@,
                alnum@,
                word@,
                replacement@,
                i as int,
            ),
        decreases n - i,
    {
        let ghost so_far = out@;
        let matches = text::matches_at(folded, i, word) && (i == 0 || !alnum[i - 1]) && (word.len()
            == n - i || !alnum[i + word.len()]);
        assert(matches == word_at(folded@, alnum@, word@, i as int));
        if matches {
            out.append(replacement);
            let ghost rest = replaced_from(
                hay@,
                folded@,
                alnum@,
                word@,
                replacement@,
                i + word@.len(),
            );
            assert(so_far + (replacement@ + rest) == out@ + rest);
            i = i + word.len();
        } else {
            out.push(hay[i]);
            let ghost rest = replaced_from(hay@, folded@, alnum@, word@, replacement@, i + 1);
            assert(so_far + (seq![hay@[i as int]] + rest) == out@ + rest);
            i = i + 1;
        }
    }
    assert(out@ == whole);
    out
}

/// Case-insensitive replacement of `needle` where it stands as a whole word.
pub fn replace_word(haystack: &str, needle: &str, replacement: &str) -> (r: String)
    ensures
        r@ == replace_word_in(haystack@, needle@, replacement@),
{
    let hay = text::chars_of(haystack);
    let word = text::chars_of(needle.to_lowercase().as_str());
    if word.len() == 0 || hay.len() < word.len() {
        return haystack.to_owned();
    }
    let folded = text::chars_of(haystack.to_lowercase().as_str());
    // Lowercasing can change the length of a text; positions would no longer correspond.
    if folded.len() != hay.len() {
        return haystack.to_owned();
    }
    let mut alnum: Vec<bool> = Vec::new();
    let mut i: usize = 0;
    while i < hay.len()
        invariant
            i <= hay@.len(),
            alnum@ == word_chars(hay@.take(i as int)),
        decreases hay@.len() - i,
    {
        alnum.push(hay[i].is_alphanumeric());
        i = i + 1;
        assert(word_chars(hay@.take(i as int)) == word_chars(hay@.take(i - 1)).push(
            text::is_word_char(hay@[i - 1]),
        ));
    }
    assert(hay@.take(i as int) == hay@);
    replace_matches(&hay, &folded, &alnum, &word, replacement)
}

impl Dictionary {
    /// Case-insensitive, word-boundary replacement of every entry in `text`.
    pub fn apply(&self, text: &str) -> (r: String)
        ensures
            r@ == apply_entries(text@, self@),
    {
        let mut result = text.to_owned();
        let mut i: usize = 0;
        while i < self.entries.len()
            invariant
                i <= self.entries@.len(),
                result@ == apply_entries(text@, self@.take(i as int)),
            decreases self.entries@.len() - i,
        {
            assert(self@.take(i + 1).drop_last() == self@.take(i as int));
            assert(self@.take(i + 1).last() == self.entries@[i as int]@);
            result =
            replace_word(
                result.as_str(),
                self.entries[i].matcher.as_str(),
                self.entries[i].output.as_str(),
            );
            i = i + 1;
        }
        assert(self@.take(i as int) == self@);
        result
    }
}

// ---- Laws ----

/// The entries of two runs of lines are the entries of the first, then those of the second.
proof fn lemma_parse_lines_append(a: Seq<Seq<char>>, b: Seq<Seq<char>>)
    ensures
        parse_lines(a + b) == parse_lines(a) + parse_lines(b),
    decreases b.len(),
{
    if b.len() == 0 {
        assert(a + b == a);
    } else {
        assert((a + b).drop_last() == a + b.drop_last());
        lemma_parse_lines_append(a, b.drop_last());
        assert(parse_lines(a + b) == parse_lines(a) + parse_lines(b));
    }
}

/// Comments and blank lines are ignored: a dictionary file holds the same entries with and
/// without such a line.
pub proof fn law_comments_and_blank_lines_are_ignored(
    before: Seq<char>,
    line: Seq<char>,
    after: Seq<char>,
)
    requires
        !line.contains('\n'),
        text::trim(line).len() == 0 || text::trim(line)[0] == '#',
    ensures
        parse_lines(text::lines(before.push('\n') + line.push('\n') + after)) == parse_lines(
            text::lines(before.push('\n') + after),
        ),
{
    assert forall|i: int| 0 <= i < line.len() implies #[trigger] line[i] != '\n' by {
        assert(line.contains(line[i]));
    }
    text::lemma_whole_line(line);
    let tail = line.push('\n') + after;
    assert(before.push('\n') + line.push('\n') + after == before.push('\n') + tail);
    text::lemma_lines_split(before, tail);
    text::lemma_lines_split(line, after);
    text::lemma_lines_single(line);
    text::lemma_lines_split(before, after);
    let c = text::strip_cr(line);
    if c != line {
        assert(line == c.push('\r'));
        text::lemma_trim_push(c, '\r');
    }
    assert(parse_line(c) is None);
    let one = seq![c];
    assert(one.drop_last() == Seq::<Seq<char>>::empty());
    assert(parse_lines(one) == Seq::<(Seq<char>, Seq<char>)>::empty()) by {
        reveal_with_fuel(parse_lines, 2);
    }
    lemma_parse_lines_append(one, text::lines(after));
    lemma_parse_lines_append(text::lines(before.push('\n')), one + text::lines(after));
    lemma_parse_lines_append(text::lines(before.push('\n')), text::lines(after));
    assert(parse_lines(one) + parse_lines(text::lines(after)) == parse_lines(text::lines(after)));
}

/// No entry of a parsed dictionary has an empty side.
pub proof fn law_entries_are_not_empty(ls: Seq<Seq<char>>)
    ensures
        forall|i: int|
            0 <= i < parse_lines(ls).len() ==> (#[trigger] parse_lines(ls)[i]).0.len() > 0
                && parse_lines(ls)[i].1.len() > 0,
    decreases ls.len(),
{
    if ls.len() > 0 {
        law_entries_are_not_empty(ls.drop_last());
        let before = parse_lines(ls.drop_last());
        if let Some(entry) = parse_line(ls.last()) {
            assert(parse_lines(ls) == before.push(entry));
            assert(entry.0.len() > 0 && entry.1.len() > 0);
        }
    }
}

/// What [`picked`] chooses, in terms of positions: in increasing order, at most [`MAX_TERMS`],
/// only terms, no key twice; and unless the limit is reached every term's key is among them.
proof fn lemma_picked(terms: Seq<Seq<char>>, keys: Seq<Seq<char>>)
    requires
        terms.len() == keys.len(),
    ensures
        picked(terms, keys).len() <= MAX_TERMS,
        forall|a: int|
            0 <= a < picked(terms, keys).len() ==> 0 <= #[trigger] picked(terms, keys)[a]
                < terms.len() && is_term(terms[picked(terms, keys)[a]]),
        forall|a: int, b: int|
            0 <= a < b < picked(terms, keys).len() ==> #[trigger] picked(terms, keys)[a]
                < #[trigger] picked(terms, keys)[b] && keys[picked(terms, keys)[a]]
                != keys[picked(terms, keys)[b]],
        picked(terms, keys).len() < MAX_TERMS ==> forall|i: int|
            0 <= i < terms.len() && is_term(#[trigger] terms[i]) ==> exists|a: int|
                0 <= a < picked(terms, keys).len() && keys[#[trigger] picked(terms, keys)[a]]
                    == keys[i],
    decreases terms.len(),
{
    if terms.len() > 0 {
        let ts = terms.drop_last();
        let ks = keys.drop_last();
        let n = terms.len() - 1;
        let old_p = picked(ts, ks);
        let p = picked(terms, keys);
        lemma_picked(ts, ks);
        assert forall|a: int| 0 <= a < old_p.len() implies keys[#[trigger] old_p[a]]
            == ks[old_p[a]] && terms[old_p[a]] == ts[old_p[a]] by {}
        if p.len() < MAX_TERMS {
            assert forall|i: int| 0 <= i < terms.len() && is_term(#[trigger] terms[i]) implies exists|
                a: int,
            |
                0 <= a < p.len() && keys[#[trigger] p[a]] == keys[i] by {
                if i < n {
                    assert(is_term(ts[i]));
                    let a = choose|a: int|
                        0 <= a < old_p.len() && ks[#[trigger] old_p[a]] == ks[i];
                    assert(p[a] == old_p[a]);
                    assert(keys[p[a]] == keys[i]);
                } else if p.len() > old_p.len() {
                    assert(p[p.len() - 1] == n);
                } else {
                    let a = choose|a: int|
                        0 <= a < old_p.len() && keys[#[trigger] old_p[a]] == keys[n];
                    assert(p[a] == old_p[a]);
                }
            }
        }
    }
}

/// At most 100 unique terms are sent, none empty and none longer than 50 characters.
pub proof fn law_bias_terms_are_few_short_and_unique(entries: Seq<(Seq<char>, Seq<char>)>)
    ensures
        bias_terms_of(entries).len() <= 100,
        forall|a: int|
            0 <= a < bias_terms_of(entries).len() ==> 0 < (#[trigger] bias_terms_of(
                entries,
            )[a]).len() <= 50 && is_term(bias_terms_of(entries)[a]),
        forall|a: int, b: int|
            0 <= a < b < bias_terms_of(entries).len() ==> text::lowercase(
                #[trigger] bias_terms_of(entries)[a],
            ) != text::lowercase(#[trigger] bias_terms_of(entries)[b]),
{
    let terms = candidate_terms(entries);
    let keys = terms.map_values(|t: Seq<char>| text::lowercase(t));
    let p = picked(terms, keys);
    let sent = bias_terms_of(entries);
    lemma_picked(terms, keys);
    assert forall|a: int| 0 <= a < sent.len() implies 0 < (#[trigger] sent[a]).len() <= 50
        && is_term(sent[a]) by {
        assert(sent[a] == terms[p[a]]);
    }
    assert forall|a: int, b: int| 0 <= a < b < sent.len() implies text::lowercase(
        #[trigger] sent[a],
    ) != text::lowercase(#[trigger] sent[b]) by {
        assert(sent[a] == terms[p[a]] && sent[b] == terms[p[b]]);
        assert(p[a] < p[b]);
    }
}

/// Unless the limit is reached, both sides of every entry are sent, up to case, whenever they
/// have 1 to 50 characters.
pub proof fn law_bias_terms_cover_the_dictionary(
    entries: Seq<(Seq<char>, Seq<char>)>,
    i: int,
)
    requires
        bias_terms_of(entries).len() < 100,
        0 <= i < entries.len(),
    ensures
        0 < text::trim(entries[i].0).len() <= 50 ==> exists|a: int|
            0 <= a < bias_terms_of(entries).len() && text::lowercase(
                #[trigger] bias_terms_of(entries)[a],
            ) == text::lowercase(text::trim(entries[i].0)),
        0 < text::trim(entries[i].1).len() <= 50 ==> exists|a: int|
            0 <= a < bias_terms_of(entries).len() && text::lowercase(
                #[trigger] bias_terms_of(entries)[a],
            ) == text::lowercase(text::trim(entries[i].1)),
{
    let terms = candidate_terms(entries);
    let keys = terms.map_values(|t: Seq<char>| text::lowercase(t));
    let p = picked(terms, keys);
    let sent = bias_terms_of(entries);
    lemma_picked(terms, keys);
    assert((2 * i) / 2 == i && (2 * i) % 2 == 0 && (2 * i + 1) / 2 == i && (2 * i + 1) % 2 == 1);
    assert(terms[2 * i] == text::trim(entries[i].0));
    assert(terms[2 * i + 1] == text::trim(entries[i].1));
    if is_term(terms[2 * i]) {
        let a = choose|a: int| 0 <= a < p.len() && keys[#[trigger] p[a]] == keys[2 * i];
        assert(sent[a] == terms[p[a]]);
    }
    if is_term(terms[2 * i + 1]) {
        let a = choose|a: int| 0 <= a < p.len() && keys[#[trigger] p[a]] == keys[2 * i + 1];
        assert(sent[a] == terms[p[a]]);
    }
}

/// Where no whole word matches from position `i` on, the rest of the text is unchanged.
pub proof fn law_text_without_the_word_is_unchanged(
    hay: Seq<char>,
    folded: Seq<char>,
    alnum: Seq<bool>,
    word: Seq<char>,
    replacement: Seq<char>,
    i: int,
)
    requires
        word.len() > 0,
        0 <= i <= hay.len(),
        forall|j: int| i <= j < hay.len() ==> !word_at(folded, alnum, word, j),
    ensures
        replaced_from(hay, folded, alnum, word, replacement, i) == hay.skip(i),
    decreases hay.len() - i,
{
    if i < hay.len() {
        law_text_without_the_word_is_unchanged(hay, folded, alnum, word, replacement, i + 1);
        assert(seq![hay[i]] + hay.skip(i + 1) == hay.skip(i));
    }
}

/// A text in which no entry's spoken form occurs as a whole word, in any case, is unchanged.
pub proof fn law_text_without_entries_is_unchanged(
    text: Seq<char>,
    entries: Seq<(Seq<char>, Seq<char>)>,
)
    requires
        forall|e: int, i: int|
            0 <= e < entries.len() && 0 <= i < text.len() ==> !(#[trigger] word_at(
                text::lowercase(text),
                word_chars(text),
                text::lowercase(entries[e].0),
                i,
            )),
    ensures
        apply_entries(text, entries) == text,
    decreases entries.len(),
{
    if entries.len() > 0 {
        let front = entries.drop_last();
        assert forall|e: int, i: int| 0 <= e < front.len() && 0 <= i < text.len() implies !(
        #[trigger] word_at(
            text::lowercase(text),
            word_chars(text),
            text::lowercase(front[e].0),
            i,
        )) by {
            assert(front[e] == entries[e]);
        }
        law_text_without_entries_is_unchanged(text, front);
        let word = text::lowercase(entries.last().0);
        let folded = text::lowercase(text);
        if word.len() > 0 && folded.len() == text.len() {
            law_text_without_the_word_is_unchanged(
                text,
                folded,
                word_chars(text),
                word,
                entries.last().1,
                0,
            );
            assert(text.skip(0) == text);
        }
    }
}

/// Word boundaries are respected: scanning from `from`, the first whole word, at `at`, is
/// replaced, the text before it is kept, and scanning goes on behind it.
pub proof fn law_first_whole_word_is_replaced(
    hay: Seq<char>,
    folded: Seq<char>,
    alnum: Seq<bool>,
    word: Seq<char>,
    replacement: Seq<char>,
    from: int,
    at: int,
)
    requires
        word.len() > 0,
        folded.len() == hay.len(),
        0 <= from <= at < hay.len(),
        word_at(folded, alnum, word, at),
        forall|j: int| from <= j < at ==> !word_at(folded, alnum, word, j),
    ensures
        replaced_from(hay, folded, alnum, word, replacement, from) == hay.subrange(from, at)
            + replacement + replaced_from(
            hay,
            folded,
            alnum,
            word,
            replacement,
            at + word.len(),
        ),
    decreases at - from,
{
    let rest = replaced_from(hay, folded, alnum, word, replacement, at + word.len());
    if from < at {
        law_first_whole_word_is_replaced(hay, folded, alnum, word, replacement, from + 1, at);
        assert(seq![hay[from]] + (hay.subrange(from + 1, at) + replacement + rest) == hay.subrange(
            from,
            at,
        ) + replacement + rest);
    } else {
        assert(hay.subrange(from, at) + replacement + rest == replacement + rest);
    }
}

/// Bias terms are sides of entries, and they keep their order: what comes later in the
/// dictionary is sent behind what comes earlier and changes nothing of it.
pub proof fn law_bias_terms_keep_the_order_of_the_dictionary(
    entries: Seq<(Seq<char>, Seq<char>)>,
    more: (Seq<char>, Seq<char>),
    a: int,
)
    requires
        0 <= a < bias_terms_of(entries).len(),
    ensures
        exists|i: int|
            0 <= i < entries.len() && (bias_terms_of(entries)[a] == text::trim(
                (#[trigger] entries[i]).0,
            ) || bias_terms_of(entries)[a] == text::trim(entries[i].1)),
        bias_terms_of(entries).len() <= bias_terms_of(entries.push(more)).len(),
        bias_terms_of(entries.push(more))[a] == bias_terms_of(entries)[a],
{
    let terms = candidate_terms(entries);
    let keys = terms.map_values(|t: Seq<char>| text::lowercase(t));
    let p = picked(terms, keys);
    lemma_picked(terms, keys);
    assert(bias_terms_of(entries)[a] == terms[p[a]]);
    let i = p[a] / 2;
    assert(0 <= i < entries.len());
    assert(terms[p[a]] == text::trim(entries[i].0) || terms[p[a]] == text::trim(entries[i].1));
    let longer = candidate_terms(entries.push(more));
    let longer_keys = longer.map_values(|t: Seq<char>| text::lowercase(t));
    let n = terms.len() as int;
    assert(longer.len() == n + 2);
    let one = longer.drop_last();
    let one_keys = longer_keys.drop_last();
    assert(one.drop_last() =~= terms) by {
        assert forall|k: int| 0 <= k < n implies one.drop_last()[k] == #[trigger] terms[k] by {
            assert(entries.push(more)[k / 2] == entries[k / 2]);
        }
    }
    assert(one_keys.drop_last() =~= keys);
    lemma_picked_in_range(terms, keys);
    let q = picked(longer, longer_keys);
    let r = picked(one, one_keys);
    assert(r == p || r == p.push(n));
    assert(q == r || q == r.push(n + 1));
    assert(q[a] == p[a]);
    assert(longer[p[a]] == terms[p[a]]);
}

/// The terms of `terms` to send, each known by its lowercase form.
spec fn sent_of(terms: Seq<Seq<char>>) -> Seq<Seq<char>> {
    picked_terms(terms, terms.map_values(|t: Seq<char>| text::lowercase(t)))
}

/// One more candidate is sent if it is short enough, there is room, and it is new.
proof fn lemma_one_more_term(terms: Seq<Seq<char>>, t: Seq<char>)
    ensures
        sent_of(terms.push(t)) == if 0 < t.len() <= 50 && sent_of(terms).len() < 100 && forall|
            k: int,
        |
            0 <= k < sent_of(terms).len() ==> text::lowercase(#[trigger] sent_of(terms)[k])
                != text::lowercase(t) {
            sent_of(terms).push(t)
        } else {
            sent_of(terms)
        },
{
    let all = terms.push(t);
    let keys = terms.map_values(|t: Seq<char>| text::lowercase(t));
    let all_keys = all.map_values(|t: Seq<char>| text::lowercase(t));
    let n = terms.len() as int;
    let p = picked(terms, keys);
    let q = picked(all, all_keys);
    let sent = sent_of(terms);
    assert(all.drop_last() =~= terms);
    assert(all_keys.drop_last() =~= keys);
    lemma_picked_in_range(terms, keys);
    assert forall|k: int| 0 <= k < p.len() implies all_keys[#[trigger] p[k]] == text::lowercase(
        sent[k],
    ) && all[p[k]] == sent[k] by {}
    let fresh = 0 < t.len() <= 50 && sent.len() < 100 && forall|k: int|
        0 <= k < sent.len() ==> text::lowercase(#[trigger] sent[k]) != text::lowercase(t);
    if fresh {
        assert forall|j: int| 0 <= j < p.len() implies all_keys[#[trigger] p[j]] != all_keys[n] by {
            assert(text::lowercase(sent[j]) != text::lowercase(t));
        }
        assert(q == p.push(n));
        assert(sent_of(all) =~= sent.push(t));
    } else {
        if 0 < t.len() <= 50 && sent.len() < 100 {
            let k = choose|k: int|
                0 <= k < sent.len() && text::lowercase(#[trigger] sent[k]) == text::lowercase(t);
            assert(all_keys[p[k]] == all_keys[n]);
        }
        assert(q == p);
        assert(sent_of(all) =~= sent);
    }
}

/// Each entry adds its two sides, the spoken form first: a side is sent unless it is empty or
/// longer than 50 characters, 100 terms are sent already, or one of them is the same up to case.
pub proof fn law_each_entry_adds_its_sides(
    entries: Seq<(Seq<char>, Seq<char>)>,
    spoken: Seq<char>,
    written: Seq<char>,
)
    ensures
        bias_terms_of(Seq::empty()).len() == 0,
        ({
            let with = |sent: Seq<Seq<char>>, t: Seq<char>|
                if 0 < t.len() <= 50 && sent.len() < 100 && forall|k: int|
                    0 <= k < sent.len() ==> text::lowercase(#[trigger] sent[k]) != text::lowercase(
                        t,
                    ) {
                    sent.push(t)
                } else {
                    sent
                };
            bias_terms_of(entries.push((spoken, written))) == with(
                with(bias_terms_of(entries), text::trim(spoken)),
                text::trim(written),
            )
        }),
{
    let terms = candidate_terms(entries);
    let longer = candidate_terms(entries.push((spoken, written)));
    let n = 2 * entries.len();
    assert(n / 2 == entries.len() && n % 2 == 0 && (n + 1) / 2 == entries.len() && (n + 1) % 2
        == 1);
    assert(longer =~= terms.push(text::trim(spoken)).push(text::trim(written))) by {
        assert forall|k: int| 0 <= k < n implies longer[k] == #[trigger] terms[k] by {
            assert(entries.push((spoken, written))[k / 2] == entries[k / 2]);
        }
    }
    assert(bias_terms_of(entries) == sent_of(terms));
    lemma_one_more_term(terms, text::trim(spoken));
    lemma_one_more_term(terms.push(text::trim(spoken)), text::trim(written));
    assert(candidate_terms(Seq::empty()) =~= Seq::<Seq<char>>::empty());
}

/// A spoken form is replaced wherever it stands as a whole word, in any case: scanning from
/// `from`, the first place `i` where the lowercase of the text reads as the lowercase of the
/// spoken form, with no letter or digit of the text directly before or behind it. The text up to
/// there is kept, the output put in, and the scan goes on behind it.
pub proof fn law_whole_words_are_replaced_from_left_to_right(
    text: Seq<char>,
    spoken: Seq<char>,
    output: Seq<char>,
    from: int,
    i: int,
)
    requires
        text::lowercase(text).len() == text.len(),
        text::lowercase(spoken).len() > 0,
        0 <= from <= i,
        i + text::lowercase(spoken).len() <= text.len(),
        text::lowercase(text).subrange(i, i + text::lowercase(spoken).len()) == text::lowercase(
            spoken,
        ),
        i > 0 ==> !text::is_word_char(text[i - 1]),
        i + text::lowercase(spoken).len() < text.len() ==> !text::is_word_char(
            text[i + text::lowercase(spoken).len()],
        ),
        forall|j: int|
            #![trigger text[j]]
            from <= j < i ==> !({
                let n = text::lowercase(spoken).len() as int;
                &&& j + n <= text.len()
                &&& text::lowercase(text).subrange(j, j + n) == text::lowercase(spoken)
                &&& j > 0 ==> !text::is_word_char(text[j - 1])
                &&& j + n < text.len() ==> !text::is_word_char(text[j + n])
            }),
    ensures
        ({
            let folded = text::lowercase(text);
            let word = text::lowercase(spoken);
            let alnum = Seq::new(text.len(), |k: int| text::is_word_char(text[k]));
            &&& replaced_from(text, folded, alnum, word, output, from) == text.subrange(from, i)
                + output + replaced_from(text, folded, alnum, word, output, i + word.len())
            &&& replace_word_in(text, spoken, output) == replaced_from(
                text,
                folded,
                alnum,
                word,
                output,
                0,
            )
        }),
{
    let folded = text::lowercase(text);
    let word = text::lowercase(spoken);
    let alnum = Seq::new(text.len(), |k: int| text::is_word_char(text[k]));
    assert(word_chars(text) =~= alnum);
    assert(word_at(folded, alnum, word, i));
    assert forall|j: int| from <= j < i implies !word_at(folded, alnum, word, j) by {
        let n = word.len() as int;
        let here = text[j];
        if word_at(folded, alnum, word, j) {
            assert(folded.subrange(j, j + n) == word);
        }
    }
    law_first_whole_word_is_replaced(text, folded, alnum, word, output, from, i);
}

/// Where the spoken form stands nowhere as a whole word from `from` on, the rest of the text is
/// kept; a text whose lowercase has another length is kept as a whole.
pub proof fn law_everything_but_whole_words_is_kept(
    text: Seq<char>,
    spoken: Seq<char>,
    output: Seq<char>,
    from: int,
)
    requires
        0 <= from <= text.len(),
        forall|j: int|
            #![trigger text[j]]
            from <= j < text.len() ==> !({
                let n = text::lowercase(spoken).len() as int;
                &&& j + n <= text.len()
                &&& text::lowercase(text).subrange(j, j + n) == text::lowercase(spoken)
                &&& j > 0 ==> !text::is_word_char(text[j - 1])
                &&& j + n < text.len() ==> !text::is_word_char(text[j + n])
            }),
    ensures
        ({
            let folded = text::lowercase(text);
            let word = text::lowercase(spoken);
            let alnum = Seq::new(text.len(), |k: int| text::is_word_char(text[k]));
            &&& (folded.len() == text.len() && word.len() > 0) ==> replaced_from(
                text,
                folded,
                alnum,
                word,
                output,
                from,
            ) == text.skip(from)
            &&& folded.len() != text.len() ==> replace_word_in(text, spoken, output) == text
            &&& from == 0 ==> replace_word_in(text, spoken, output) == text
        }),
{
    let folded = text::lowercase(text);
    let word = text::lowercase(spoken);
    let alnum = Seq::new(text.len(), |k: int| text::is_word_char(text[k]));
    assert(word_chars(text) =~= alnum);
    if folded.len() == text.len() && word.len() > 0 {
        assert forall|j: int| from <= j < text.len() implies !word_at(folded, alnum, word, j) by {
            let n = word.len() as int;
            let here = text[j];
            if word_at(folded, alnum, word, j) {
                assert(folded.subrange(j, j + n) == word);
            }
        }
        law_text_without_the_word_is_unchanged(text, folded, alnum, word, output, from);
        assert(text.skip(0) == text);
    }
}

/// The entries are applied one after the other, in the order of the dictionary.
pub proof fn law_entries_apply_in_order(
    text: Seq<char>,
    first: Seq<(Seq<char>, Seq<char>)>,
    then_entries: Seq<(Seq<char>, Seq<char>)>,
    entry: (Seq<char>, Seq<char>),
)
    ensures
        apply_entries(text, Seq::empty()) == text,
        apply_entries(text, seq![entry]) == replace_word_in(text, entry.0, entry.1),
        apply_entries(text, first + then_entries) == apply_entries(
            apply_entries(text, first),
            then_entries,
        ),
    decreases then_entries.len(),
{
    let one = seq![entry];
    assert(one.drop_last() == Seq::<(Seq<char>, Seq<char>)>::empty());
    assert(apply_entries(text, one.drop_last()) == text);
    if then_entries.len() == 0 {
        assert(first + then_entries == first);
    } else {
        assert((first + then_entries).drop_last() == first + then_entries.drop_last());
        law_entries_apply_in_order(text, first, then_entries.drop_last(), entry);
    }
}

/// A line holds one entry: the text around the first arrow, or the same text twice, each without
/// the whitespace around it. With nothing behind the arrow there is no entry.
pub proof fn law_a_line_holds_one_entry(
    indent: Seq<char>,
    spoken: Seq<char>,
    before_arrow: Seq<char>,
    behind_arrow: Seq<char>,
    written: Seq<char>,
    end: Seq<char>,
)
    requires
        text::all_white(indent),
        text::all_white(before_arrow),
        text::all_white(behind_arrow),
        text::all_white(end),
        spoken.len() > 0 && !text::is_white(spoken[0]) && !text::is_white(spoken.last()),
        written.len() > 0 && !text::is_white(written[0]) && !text::is_white(written.last()),
        spoken[0] != '#',
        forall|j: int|
            0 <= j < spoken.len() - 1 ==> !(#[trigger] spoken[j] == '-' && spoken[j + 1] == '>'),
    ensures
        parse_line(
            indent + (spoken + before_arrow + seq!['-', '>'] + behind_arrow + written) + end,
        ) == Some((spoken, written)),
        parse_line(indent + spoken + end) == Some((spoken, spoken)),
        parse_line(indent + (spoken + before_arrow + seq!['-', '>']) + end) is None,
{
    let arrow = seq!['-', '>'];
    let left = spoken + before_arrow;
    let right = behind_arrow + written;
    let none = Seq::<char>::empty();
    let core = spoken + before_arrow + arrow + behind_arrow + written;
    let open = left + arrow;
    assert(core =~= left + arrow + right);
    assert(core[0] == spoken[0] && core.last() == written.last());
    assert(open =~= left + arrow + none);
    assert(open[0] == spoken[0] && open.last() == '>');
    lemma_no_arrow(spoken, before_arrow);
    lemma_split_at_arrow(left, right);
    lemma_split_at_arrow(left, none);
    lemma_unsplit(spoken);
    text::law_trimming_takes_the_whitespace_off_both_ends(indent, core, end);
    text::law_trimming_takes_the_whitespace_off_both_ends(indent, open, end);
    text::law_trimming_takes_the_whitespace_off_both_ends(indent, spoken, end);
    assert(text::trim(left) == spoken) by {
        assert(left =~= none + spoken + before_arrow);
        text::law_trimming_takes_the_whitespace_off_both_ends(none, spoken, before_arrow);
    }
    assert(text::trim(right) == written) by {
        assert(right =~= behind_arrow + written + none);
        text::law_trimming_takes_the_whitespace_off_both_ends(behind_arrow, written, none);
    }
    assert(text::trim(none).len() == 0);
}

/// `s` holds no arrow.
spec fn arrowless(s: Seq<char>) -> bool {
    forall|j: int| 0 <= j < s.len() - 1 ==> !(#[trigger] s[j] == '-' && s[j + 1] == '>')
}

/// Whitespace behind a text adds no arrow.
proof fn lemma_no_arrow(spoken: Seq<char>, white: Seq<char>)
    requires
        arrowless(spoken),
        text::all_white(white),
    ensures
        arrowless(spoken + white),
{
    let s = spoken + white;
    assert forall|j: int| 0 <= j < s.len() - 1 implies !(#[trigger] s[j] == '-' && s[j + 1]
        == '>') by {
        if j < spoken.len() - 1 {
            assert(s[j] == spoken[j] && s[j + 1] == spoken[j + 1]);
        } else {
            assert(s[j + 1] == white[j + 1 - spoken.len()]);
        }
    }
}

/// A text without an arrow is not split.
proof fn lemma_unsplit(s: Seq<char>)
    requires
        arrowless(s),
    ensures
        split_once(s, "->"@) is None,
{
    reveal_strlit("->");
    let arrow = "->"@;
    if text::contains(s, arrow) {
        let j = choose|j: int| text::occurs_at(s, j, arrow);
        let piece = s.subrange(j, j + 2);
        assert(piece[0] == '-' && piece[1] == '>');
        assert(s[j] == piece[0] && s[j + 1] == piece[1]);
    }
}

/// A text is split at its first arrow.
proof fn lemma_split_at_arrow(left: Seq<char>, right: Seq<char>)
    requires
        arrowless(left),
    ensures
        split_once(left + seq!['-', '>'] + right, "->"@) == Some((left, right)),
{
    reveal_strlit("->");
    let arrow = "->"@;
    assert(arrow =~= seq!['-', '>']);
    let s = left + arrow + right;
    let k = left.len() as int;
    assert(s.subrange(k, k + 2) =~= arrow);
    assert(text::occurs_at(s, k, arrow));
    assert forall|j: int| 0 <= j < k implies !text::occurs_at(s, j, arrow) by {
        if text::occurs_at(s, j, arrow) {
            let piece = s.subrange(j, j + 2);
            assert(piece[0] == '-' && piece[1] == '>');
            assert(s[j] == piece[0] && s[j + 1] == piece[1]);
            assert(s[j] == left[j]);
            if j < k - 1 {
                assert(s[j + 1] == left[j + 1]);
            }
        }
    }
    assert(text::first_occurrence(s, arrow, k));
    let c = choose|c: int| text::first_occurrence(s, arrow, c);
    assert(text::first_occurrence(s, arrow, c));
    assert(c == k) by {
        if c < k {
            assert(!text::occurs_at(s, c, arrow));
        } else if k < c {
            assert(!text::occurs_at(s, k, arrow));
        }
    }
    assert(s.take(k) =~= left);
    assert(s.skip(k + 2) =~= right);
}

/// Blank lines, comments and lines that begin with an arrow hold no entry, every line is read by
/// itself, and entries keep the order of the lines.
pub proof fn law_lines_are_read_one_by_one(
    before: Seq<Seq<char>>,
    line: Seq<char>,
    indent: Seq<char>,
    rest: Seq<char>,
)
    requires
        text::all_white(indent),
    ensures
        parse_line(indent) is None,
        parse_line(indent + seq!['#'] + rest) is None,
        parse_line(indent + seq!['-', '>'] + rest) is None,
        parse_lines(Seq::empty()).len() == 0,
        parse_lines(before.push(line)) == match parse_line(line) {
            Some(entry) => parse_lines(before).push(entry),
            None => parse_lines(before),
        },
{
    text::law_trimming_takes_the_whitespace_off_both_ends(indent, Seq::empty(), Seq::empty());
    assert(indent + Seq::<char>::empty() + Seq::<char>::empty() =~= indent);
    assert(before.push(line).drop_last() == before);
    lemma_comment(indent, rest);
    lemma_arrow_first(indent, rest);
}

/// A line that begins with an arrow has nothing before it.
proof fn lemma_arrow_first(indent: Seq<char>, rest: Seq<char>)
    requires
        text::all_white(indent),
    ensures
        parse_line(indent + seq!['-', '>'] + rest) is None,
    decreases rest.len(),
{
    let arrow = seq!['-', '>'];
    let line = indent + arrow + rest;
    if rest.len() > 0 && text::is_white(rest.last()) {
        let shorter = rest.drop_last();
        lemma_arrow_first(indent, shorter);
        assert(line =~= (indent + arrow + shorter).push(rest.last()));
        text::lemma_trim_push(indent + arrow + shorter, rest.last());
    } else {
        let core = arrow + rest;
        assert(line =~= indent + core + Seq::<char>::empty());
        assert(core.last() == if rest.len() > 0 {
            rest.last()
        } else {
            '>'
        });
        text::law_trimming_takes_the_whitespace_off_both_ends(indent, core, Seq::empty());
        assert(core =~= Seq::<char>::empty() + arrow + rest);
        lemma_split_at_arrow(Seq::empty(), rest);
        assert(text::trim(Seq::<char>::empty()).len() == 0);
    }
}

/// Trimming a comment leaves its mark in front.
proof fn lemma_comment(indent: Seq<char>, rest: Seq<char>)
    requires
        text::all_white(indent),
    ensures
        parse_line(indent + seq!['#'] + rest) is None,
    decreases rest.len(),
{
    let line = indent + seq!['#'] + rest;
    if rest.len() > 0 && text::is_white(rest.last()) {
        let shorter = rest.drop_last();
        lemma_comment(indent, shorter);
        assert(line =~= (indent + seq!['#'] + shorter).push(rest.last()));
        text::lemma_trim_push(indent + seq!['#'] + shorter, rest.last());
    } else {
        let core = seq!['#'] + rest;
        assert(line =~= indent + core + Seq::<char>::empty());
        assert(core.last() == if rest.len() > 0 {
            rest.last()
        } else {
            '#'
        });
        text::law_trimming_takes_the_whitespace_off_both_ends(indent, core, Seq::empty());
    }
}

} // verus!
