//! Character-level text operations shared by the other modules.
//!
//! Strings are modelled by their sequence of `char`s.

use vstd::prelude::*;

verus! {

// ---- Trusted items: parts of std that the verifier has no contract for ----

/// Trusted: `char::is_whitespace` holds exactly for the characters with the Unicode
/// `White_Space` property, listed in [`is_white`].
pub assume_specification[ char::is_whitespace ](c: char) -> (r: bool)
    ensures
        r == is_white(c),
;

/// Trusted: `String::push` appends the character to the end of the string.
pub assume_specification[ String::push ](s: &mut String, c: char)
    ensures
        final(s)@ == old(s)@.push(c),
;

/// Names the result of `str::to_lowercase`: the Unicode lowercase mapping of a whole string.
pub uninterp spec fn lowercase(s: Seq<char>) -> Seq<char>;

/// Trusted: `str::to_lowercase` is a function of the characters of the string alone.
/// Which characters it maps to which is not stated.
pub assume_specification[ str::to_lowercase ](s: &str) -> (r: String)
    ensures
        r@ == lowercase(s@),
;

/// Names the result of `char::is_alphanumeric`: Unicode letters and numbers.
pub uninterp spec fn is_word_char(c: char) -> bool;

/// Trusted: `char::is_alphanumeric` is a function of the character alone.
/// Which characters have the property is not stated.
pub assume_specification[ char::is_alphanumeric ](c: char) -> (r: bool)
    ensures
        r == is_word_char(c),
;

/// The characters with the Unicode `White_Space` property.
pub open spec fn is_white(c: char) -> bool {
    let n = c as u32;
    ||| 0x9 <= n <= 0xD
    ||| n == 0x20
    ||| n == 0x85
    ||| n == 0xA0
    ||| n == 0x1680
    ||| 0x2000 <= n <= 0x200A
    ||| n == 0x2028
    ||| n == 0x2029
    ||| n == 0x202F
    ||| n == 0x205F
    ||| n == 0x3000
}

// ---- Conversions between strings and character vectors ----

/// The characters of `s`, in order.
pub fn chars_of(s: &str) -> (r: Vec<char>)
    ensures
        r@ == s@,
{
    let mut out: Vec<char> = Vec::new();
    for c in it: s.chars()
        invariant
            it.seq() == s@,
            out@ == s@.take(it.index()),
    {
        out.push(c);
    }
    out
}

/// The string made of `chars`.
pub fn string_of(chars: &[char]) -> (r: String)
    ensures
        r@ == chars@,
{
    let mut out = String::new();
    let mut i: usize = 0;
    while i < chars.len()
        invariant
            i <= chars@.len(),
            out@ == chars@.take(i as int),
        decreases chars@.len() - i,
    {
        out.push(chars[i]);
        i = i + 1;
        assert(chars@.take(i as int) == chars@.take(i - 1).push(chars@[i - 1]));
    }
    assert(chars@.take(chars@.len() as int) == chars@);
    out
}

/// The characters of each string, in order.
pub open spec fn texts(v: Seq<String>) -> Seq<Seq<char>> {
    Seq::new(v.len(), |i: int| v[i]@)
}

/// The characters of an optional string.
pub open spec fn optional(s: Option<String>) -> Option<Seq<char>> {
    match s {
        Some(t) => Some(t@),
        None => None,
    }
}

/// Whether two strings hold the same characters.
pub fn same(a: &str, b: &str) -> (r: bool)
    ensures
        r == (a@ == b@),
{
    let x = chars_of(a);
    let y = chars_of(b);
    if x.len() != y.len() {
        return false;
    }
    let r = matches_at(&x, 0, &y);
    assert(x@.subrange(0, x@.len() as int) == x@);
    r
}

/// Whether two lists of strings hold the same characters.
pub fn same_all(a: &[String], b: &[String]) -> (r: bool)
    ensures
        r == (texts(a@) == texts(b@)),
{
    if a.len() != b.len() {
        assert(texts(a@).len() != texts(b@).len());
        return false;
    }
    let mut i: usize = 0;
    while i < a.len()
        invariant
            i <= a@.len(),
            a@.len() == b@.len(),
            forall|k: int| 0 <= k < i ==> (#[trigger] a@[k])@ == b@[k]@,
        decreases a@.len() - i,
    {
        if !same(a[i].as_str(), b[i].as_str()) {
            assert(texts(a@)[i as int] != texts(b@)[i as int]);
            return false;
        }
        i = i + 1;
    }
    assert(texts(a@) =~= texts(b@));
    true
}

/// A copy of a list of strings.
pub fn copy_all(a: &[String]) -> (r: Vec<String>)
    ensures
        r@ == a@,
{
    let mut out: Vec<String> = Vec::new();
    let mut i: usize = 0;
    while i < a.len()
        invariant
            i <= a@.len(),
            out@ == a@.take(i as int),
        decreases a@.len() - i,
    {
        out.push(a[i].clone());
        i = i + 1;
        assert(a@.take(i as int) == a@.take(i - 1).push(a@[i - 1]));
    }
    assert(a@.take(i as int) == a@);
    out
}

// ---- Substrings ----

/// `p` occurs in `s` at position `i`.
pub open spec fn occurs_at(s: Seq<char>, i: int, p: Seq<char>) -> bool {
    0 <= i && i + p.len() <= s.len() && s.subrange(i, i + p.len()) == p
}

/// `p` occurs somewhere in `s`.
pub open spec fn contains(s: Seq<char>, p: Seq<char>) -> bool {
    exists|i: int| occurs_at(s, i, p)
}

/// `p` is a prefix of `s`.
pub open spec fn starts_with(s: Seq<char>, p: Seq<char>) -> bool {
    occurs_at(s, 0, p)
}

/// `p` is a suffix of `s`.
pub open spec fn ends_with(s: Seq<char>, p: Seq<char>) -> bool {
    occurs_at(s, s.len() - p.len(), p)
}

/// `i` is the first position at which `p` occurs in `s`.
pub open spec fn first_occurrence(s: Seq<char>, p: Seq<char>, i: int) -> bool {
    occurs_at(s, i, p) && forall|j: int| 0 <= j < i ==> !occurs_at(s, j, p)
}

/// Whether `p` occurs in `s` at position `i`.
pub fn matches_at(s: &[char], i: usize, p: &[char]) -> (r: bool)
    ensures
        r == occurs_at(s@, i as int, p@),
{
    let n = s.len();
    if i > n || p.len() > n - i {
        return false;
    }
    let mut k: usize = 0;
    while k < p.len()
        invariant
            k <= p@.len(),
            n == s@.len(),
            i + p@.len() <= n,
            forall|j: int| 0 <= j < k ==> s@[i + j] == p@[j],
        decreases p@.len() - k,
    {
        if s[i + k] != p[k] {
            assert(s@.subrange(i as int, i + p@.len())[k as int] != p@[k as int]);
            return false;
        }
        k = k + 1;
    }
    assert(s@.subrange(i as int, i + p@.len()) == p@);
    true
}

/// The first position at which `p` occurs in `s`.
pub fn find(s: &[char], p: &[char]) -> (r: Option<usize>)
    ensures
        match r {
            Some(i) => first_occurrence(s@, p@, i as int),
            None => !contains(s@, p@),
        },
{
    let mut i: usize = 0;
    while i < s.len()
        invariant
            i <= s@.len(),
            forall|j: int| 0 <= j < i ==> !occurs_at(s@, j, p@),
        decreases s@.len() - i,
    {
        if matches_at(s, i, p) {
            return Some(i);
        }
        i = i + 1;
    }
    if matches_at(s, i, p) {
        return Some(i);
    }
    None
}

/// Whether the text `p` occurs somewhere in `s`.
pub fn has(s: &[char], p: &str) -> (r: bool)
    ensures
        r == contains(s@, p@),
{
    let p = chars_of(p);
    find(s, &p).is_some()
}

/// Whether the text `p` is a prefix of `s`.
pub fn begins(s: &[char], p: &str) -> (r: bool)
    ensures
        r == starts_with(s@, p@),
{
    let p = chars_of(p);
    matches_at(s, 0, &p)
}

/// Whether the text `p` is a suffix of `s`.
pub fn finishes(s: &[char], p: &str) -> (r: bool)
    ensures
        r == ends_with(s@, p@),
{
    let p = chars_of(p);
    if p.len() > s.len() {
        return false;
    }
    matches_at(s, s.len() - p.len(), &p)
}

// ---- Whitespace ----

/// `s` without its leading whitespace.
pub open spec fn trim_start(s: Seq<char>) -> Seq<char>
    decreases s.len(),
{
    if s.len() > 0 && is_white(s[0]) {
        trim_start(s.drop_first())
    } else {
        s
    }
}

/// `s` without its trailing whitespace.
pub open spec fn trim_end(s: Seq<char>) -> Seq<char>
    decreases s.len(),
{
    if s.len() > 0 && is_white(s.last()) {
        trim_end(s.drop_last())
    } else {
        s
    }
}

/// `s` without leading and trailing whitespace.
pub open spec fn trim(s: Seq<char>) -> Seq<char> {
    trim_end(trim_start(s))
}

/// `s` without leading and trailing whitespace.
pub fn trimmed(s: &[char]) -> (r: Vec<char>)
    ensures
        r@ == trim(s@),
{
    let mut a: usize = 0;
    let mut b: usize = s.len();
    assert(s@.subrange(0, b as int) == s@);
    while a < b && s[a].is_whitespace()
        invariant
            a <= b,
            b == s@.len(),
            trim_start(s@) == trim_start(s@.subrange(a as int, b as int)),
        decreases b - a,
    {
        assert(s@.subrange(a as int, b as int).drop_first() == s@.subrange(a + 1, b as int));
        a = a + 1;
    }
    assert(a < b ==> s@.subrange(a as int, b as int)[0] == s@[a as int]);
    assert(trim_start(s@) == s@.subrange(a as int, b as int));
    while a < b && s[b - 1].is_whitespace()
        invariant
            a <= b <= s@.len(),
            trim(s@) == trim_end(s@.subrange(a as int, b as int)),
        decreases b - a,
    {
        assert(s@.subrange(a as int, b as int).drop_last() == s@.subrange(a as int, b - 1));
        b = b - 1;
    }
    assert(a < b ==> s@.subrange(a as int, b as int).last() == s@[b - 1]);
    vstd::slice::slice_to_vec(vstd::slice::slice_subrange(s, a, b))
}

/// The number of leading characters of `s` that are not whitespace.
pub open spec fn word_len(s: Seq<char>) -> nat
    decreases s.len(),
{
    if s.len() > 0 && !is_white(s[0]) {
        1 + word_len(s.drop_first())
    } else {
        0
    }
}

pub proof fn lemma_trim_start_len(s: Seq<char>)
    ensures
        trim_start(s).len() <= s.len(),
        trim_start(s).len() > 0 ==> !is_white(trim_start(s)[0]),
    decreases s.len(),
{
    if s.len() > 0 && is_white(s[0]) {
        lemma_trim_start_len(s.drop_first());
    }
}

pub proof fn lemma_word_len(s: Seq<char>)
    ensures
        word_len(s) <= s.len(),
        s.len() > 0 && !is_white(s[0]) ==> word_len(s) > 0,
        forall|i: int| 0 <= i < word_len(s) ==> !is_white(#[trigger] s[i]),
        word_len(s) < s.len() ==> is_white(s[word_len(s) as int]),
    decreases s.len(),
{
    if s.len() > 0 && !is_white(s[0]) {
        let t = s.drop_first();
        lemma_word_len(t);
        assert forall|i: int| 0 <= i < word_len(s) implies !is_white(#[trigger] s[i]) by {
            if i > 0 {
                assert(t[i - 1] == s[i]);
            }
        }
    }
}

/// The maximal runs of non-whitespace characters of `s`, in order.
pub open spec fn words(s: Seq<char>) -> Seq<Seq<char>>
    decreases s.len(),
{
    proof {
        lemma_trim_start_len(s);
        lemma_word_len(trim_start(s));
    }
    let t = trim_start(s);
    if t.len() == 0 {
        Seq::empty()
    } else {
        seq![t.take(word_len(t) as int)] + words(t.skip(word_len(t) as int))
    }
}

/// The parts of `parts` one after the other with `sep` between neighbours.
pub open spec fn join(parts: Seq<Seq<char>>, sep: Seq<char>) -> Seq<char>
    decreases parts.len(),
{
    if parts.len() == 0 {
        Seq::empty()
    } else if parts.len() == 1 {
        parts[0]
    } else {
        parts[0] + sep + join(parts.drop_first(), sep)
    }
}

/// Joining one more part appends the separator and the part.
pub proof fn lemma_join_push(parts: Seq<Seq<char>>, last: Seq<char>, sep: Seq<char>)
    ensures
        join(parts.push(last), sep) == if parts.len() == 0 {
            last
        } else {
            join(parts, sep) + sep + last
        },
    decreases parts.len(),
{
    let all = parts.push(last);
    if parts.len() == 0 {
    } else {
        assert(all.drop_first() == parts.drop_first().push(last));
        lemma_join_push(parts.drop_first(), last, sep);
        if parts.len() == 1 {
            assert(join(all.drop_first(), sep) == last);
        } else {
            assert(join(all, sep) == parts[0] + sep + (join(parts.drop_first(), sep) + sep + last));
            assert(join(all, sep) == (parts[0] + sep + join(parts.drop_first(), sep)) + sep + last);
        }
    }
}

/// The whitespace-separated words of `s`.
pub fn split_words(s: &[char]) -> (r: Vec<String>)
    ensures
        texts(r@) == words(s@),
{
    let mut out: Vec<String> = Vec::new();
    let n = s.len();
    let mut i: usize = 0;
    assert(s@.skip(0) == s@);
    assert(texts(out@) + words(s@) == words(s@));
    while i < n
        invariant
            i <= n,
            n == s@.len(),
            texts(out@) + words(s@.skip(i as int)) == words(s@),
        decreases n - i,
    {
        let ghost rest = s@.skip(i as int);
        if s[i].is_whitespace() {
            assert(rest.drop_first() == s@.skip(i + 1));
            i = i + 1;
        } else {
            let start = i;
            let ghost before = out@;
            assert(rest.skip(0) == rest);
            while i < n && !s[i].is_whitespace()
                invariant
                    start <= i <= n,
                    n == s@.len(),
                    rest == s@.skip(start as int),
                    word_len(rest) == (i - start) + word_len(s@.skip(i as int)),
                decreases n - i,
            {
                assert(s@.skip(i as int).drop_first() == s@.skip(i + 1));
                i = i + 1;
            }
            assert(word_len(s@.skip(i as int)) == 0);
            assert(trim_start(rest) == rest);
            assert(i > start) by {
                lemma_word_len(rest);
            }
            let word = string_of(vstd::slice::slice_subrange(s, start, i));
            assert(word@ == rest.take(i - start));
            assert(rest.skip(i - start) == s@.skip(i as int));
            out.push(word);
            assert(texts(out@) == texts(before).push(word@));
            assert(words(rest) == seq![word@] + words(s@.skip(i as int)));
            assert(texts(before) + words(rest) == texts(out@) + words(s@.skip(i as int)));
        }
    }
    assert(words(s@.skip(n as int)) == Seq::<Seq<char>>::empty());
    out
}

/// `parts` joined with `sep` between neighbours.
pub fn join_with(parts: &[String], sep: &str) -> (r: String)
    ensures
        r@ == join(texts(parts@), sep@),
{
    let mut out = String::new();
    let mut i: usize = 0;
    while i < parts.len()
        invariant
            i <= parts@.len(),
            out@ == join(texts(parts@.take(i as int)), sep@),
        decreases parts@.len() - i,
    {
        proof {
            lemma_join_push(texts(parts@.take(i as int)), parts@[i as int]@, sep@);
            assert(texts(parts@.take(i + 1)) == texts(parts@.take(i as int)).push(
                parts@[i as int]@,
            ));
        }
        if i > 0 {
            out.append(sep);
        }
        out.append(parts[i].as_str());
        i = i + 1;
    }
    assert(parts@.take(parts@.len() as int) == parts@);
    out
}

/// `s` with each run of whitespace between words replaced by one space and none around them.
pub open spec fn cleaned(s: Seq<char>) -> Seq<char> {
    join(words(s), seq![' '])
}

/// A space separates the words before it from the words after it.
pub proof fn lemma_words_split(a: Seq<char>, b: Seq<char>)
    ensures
        words(a.push(' ') + b) == words(a) + words(b),
{
    lemma_words_split_at(a, ' ', b);
}

proof fn lemma_word_len_append(a: Seq<char>, b: Seq<char>)
    ensures
        word_len(a.push(' ') + b) == word_len(a),
    decreases a.len(),
{
    if a.len() > 0 && !is_white(a[0]) {
        assert((a.push(' ') + b).drop_first() == a.drop_first().push(' ') + b);
        lemma_word_len_append(a.drop_first(), b);
    }
}

/// A non-empty run of non-whitespace characters.
pub open spec fn is_word(w: Seq<char>) -> bool {
    w.len() > 0 && forall|i: int| 0 <= i < w.len() ==> !is_white(#[trigger] w[i])
}

/// The words of a text are words.
pub proof fn lemma_words_are_words(s: Seq<char>)
    ensures
        forall|k: int| 0 <= k < words(s).len() ==> is_word(#[trigger] words(s)[k]),
    decreases s.len(),
{
    lemma_trim_start_len(s);
    let t = trim_start(s);
    if t.len() > 0 {
        lemma_word_len(t);
        let n = word_len(t) as int;
        lemma_words_are_words(t.skip(n));
        assert(is_word(t.take(n)));
        let rest = words(t.skip(n));
        assert forall|k: int| 0 <= k < words(s).len() implies is_word(#[trigger] words(s)[k]) by {
            if k > 0 {
                assert(words(s)[k] == rest[k - 1]);
            }
        }
    }
}

proof fn lemma_word_len_full(w: Seq<char>)
    requires
        forall|i: int| 0 <= i < w.len() ==> !is_white(#[trigger] w[i]),
    ensures
        word_len(w) == w.len(),
    decreases w.len(),
{
    if w.len() > 0 {
        assert(!is_white(w[0]));
        lemma_word_len_full(w.drop_first());
    }
}

/// Splitting joined words gives the words back.
pub proof fn lemma_words_of_join(ws: Seq<Seq<char>>)
    requires
        forall|k: int| 0 <= k < ws.len() ==> is_word(#[trigger] ws[k]),
    ensures
        words(join(ws, seq![' '])) == ws,
    decreases ws.len(),
{
    if ws.len() == 0 {
        assert(words(Seq::<char>::empty()) == Seq::<Seq<char>>::empty());
    } else {
        let w = ws[0];
        assert(is_word(w));
        lemma_word_len_full(w);
        assert(w.take(w.len() as int) == w);
        assert(w.skip(w.len() as int) == Seq::<char>::empty());
        assert(words(Seq::<char>::empty()) == Seq::<Seq<char>>::empty());
        assert(words(w) == seq![w]);
        if ws.len() == 1 {
            assert(ws == seq![w]);
        } else {
            let rest = ws.drop_first();
            lemma_words_of_join(rest);
            let tail = join(rest, seq![' ']);
            assert(join(ws, seq![' ']) == w.push(' ') + tail);
            lemma_words_split(w, tail);
            assert(seq![w] + rest == ws);
        }
    }
}

/// Joining two runs of parts puts one separator between them.
pub proof fn lemma_join_append(a: Seq<Seq<char>>, b: Seq<Seq<char>>, sep: Seq<char>)
    requires
        a.len() > 0,
        b.len() > 0,
    ensures
        join(a + b, sep) == join(a, sep) + sep + join(b, sep),
    decreases a.len(),
{
    let all = a + b;
    assert(all.drop_first() == a.drop_first() + b);
    if a.len() == 1 {
        assert(a.drop_first() + b == b);
    } else {
        lemma_join_append(a.drop_first(), b, sep);
        assert(a[0] + sep + (join(a.drop_first(), sep) + sep + join(b, sep)) == (a[0] + sep + join(
            a.drop_first(),
            sep,
        )) + sep + join(b, sep));
    }
}

/// Cleaning a text twice is cleaning it once, and it keeps the words of the text.
pub proof fn law_cleaning_is_idempotent(s: Seq<char>)
    ensures
        cleaned(cleaned(s)) == cleaned(s),
        words(cleaned(s)) == words(s),
{
    lemma_words_are_words(s);
    lemma_words_of_join(words(s));
}

/// A cleaned text is empty exactly when the text is all whitespace.
pub proof fn law_cleaning_leaves_nothing_of_whitespace(s: Seq<char>)
    ensures
        cleaned(s).len() == 0 <==> forall|i: int| 0 <= i < s.len() ==> is_white(#[trigger] s[i]),
    decreases s.len(),
{
    lemma_trim_start_len(s);
    let t = trim_start(s);
    if s.len() > 0 && is_white(s[0]) {
        law_cleaning_leaves_nothing_of_whitespace(s.drop_first());
        assert(words(s) == words(s.drop_first()));
        assert forall|i: int| 0 <= i < s.drop_first().len() implies #[trigger] s.drop_first()[i] == s[i + 1] by {}
        if forall|i: int| 0 <= i < s.drop_first().len() ==> is_white(#[trigger] s.drop_first()[i]) {
            assert forall|i: int| 0 <= i < s.len() implies is_white(#[trigger] s[i]) by {
                if i > 0 {
                    assert(is_white(s.drop_first()[i - 1]));
                }
            }
        }
    } else if s.len() > 0 {
        lemma_words_are_words(s);
        assert(words(s).len() > 0);
        assert(is_word(words(s)[0]));
    }
}

/// A cleaned text: no whitespace but single spaces between words.
pub open spec fn is_clean(s: Seq<char>) -> bool {
    cleaned(s) == s
}

/// Non-empty cleaned texts joined by one space form a cleaned text.
pub proof fn lemma_clean_pair(a: Seq<char>, b: Seq<char>)
    requires
        is_clean(a),
        is_clean(b),
        a.len() > 0,
        b.len() > 0,
    ensures
        is_clean(a + seq![' '] + b),
{
    lemma_words_split(a, b);
    assert(a.push(' ') + b == a + seq![' '] + b);
    assert(words(a).len() > 0);
    assert(words(b).len() > 0);
    lemma_join_append(words(a), words(b), seq![' ']);
}

/// Non-empty cleaned texts joined by single spaces form a cleaned text.
pub proof fn lemma_clean_join(parts: Seq<Seq<char>>)
    requires
        forall|k: int| 0 <= k < parts.len() ==> is_clean(#[trigger] parts[k]) && parts[k].len() > 0,
    ensures
        is_clean(join(parts, seq![' '])),
        parts.len() > 0 ==> join(parts, seq![' ']).len() > 0,
    decreases parts.len(),
{
    if parts.len() == 0 {
        assert(words(Seq::<char>::empty()) == Seq::<Seq<char>>::empty());
    } else {
        assert(is_clean(parts[0]));
        if parts.len() > 1 {
            lemma_clean_join(parts.drop_first());
            lemma_clean_pair(parts[0], join(parts.drop_first(), seq![' ']));
        }
    }
}

// ---- Lines ----

/// The number of characters of `s` before its first line feed, all of them if it has none.
pub open spec fn line_len(s: Seq<char>) -> nat
    decreases s.len(),
{
    if s.len() > 0 && s[0] != '\n' {
        1 + line_len(s.drop_first())
    } else {
        0
    }
}

pub proof fn lemma_line_len(s: Seq<char>)
    ensures
        line_len(s) <= s.len(),
    decreases s.len(),
{
    if s.len() > 0 && s[0] != '\n' {
        lemma_line_len(s.drop_first());
    }
}

/// `s` without one trailing carriage return.
pub open spec fn strip_cr(s: Seq<char>) -> Seq<char> {
    if s.len() > 0 && s.last() == '\r' {
        s.drop_last()
    } else {
        s
    }
}

/// The lines of `s`: each ends at a line feed, which may follow a carriage return and is not
/// part of the line; the last line needs no line feed.
pub open spec fn lines(s: Seq<char>) -> Seq<Seq<char>>
    decreases s.len(),
{
    proof {
        lemma_line_len(s);
    }
    let n = line_len(s);
    if s.len() == 0 {
        Seq::empty()
    } else if n == s.len() {
        seq![s]
    } else {
        seq![strip_cr(s.take(n as int))] + lines(s.skip(n as int + 1))
    }
}

/// The lines of `s`.
pub fn split_lines(s: &[char]) -> (r: Vec<Vec<char>>)
    ensures
        r@.len() == lines(s@).len(),
        forall|i: int| 0 <= i < r@.len() ==> #[trigger] r@[i]@ == lines(s@)[i],
{
    let mut out: Vec<Vec<char>> = Vec::new();
    let n = s.len();
    let mut i: usize = 0;
    let ghost mut done: Seq<Seq<char>> = Seq::empty();
    assert(s@.skip(0) == s@);
    assert(done + lines(s@) == lines(s@));
    while i < n
        invariant
            i <= n,
            n == s@.len(),
            done + lines(s@.skip(i as int)) == lines(s@),
            out@.len() == done.len(),
            forall|k: int| 0 <= k < out@.len() ==> #[trigger] out@[k]@ == done[k],
        decreases n - i,
    {
        let ghost rest = s@.skip(i as int);
        let start = i;
        assert(rest.skip(0) == rest);
        while i < n && s[i] != '\n'
            invariant
                start <= i <= n,
                n == s@.len(),
                rest == s@.skip(start as int),
                line_len(rest) == (i - start) + line_len(s@.skip(i as int)),
            decreases n - i,
        {
            assert(s@.skip(i as int).drop_first() == s@.skip(i + 1));
            i = i + 1;
        }
        assert(line_len(s@.skip(i as int)) == 0);
        let ghost line = s@.subrange(start as int, i as int);
        assert(line == rest.take(i - start));
        if i == n {
            assert(line == rest);
            out.push(vstd::slice::slice_to_vec(vstd::slice::slice_subrange(s, start, i)));
            proof {
                done = done.push(line);
            }
            assert(lines(s@.skip(i as int)) == Seq::<Seq<char>>::empty());
        } else {
            let end = if i > start && s[i - 1] == '\r' { i - 1 } else { i };
            assert(i > start ==> line.last() == s@[i - 1]);
            assert(s@.subrange(start as int, end as int) == strip_cr(line));
            out.push(vstd::slice::slice_to_vec(vstd::slice::slice_subrange(s, start, end)));
            assert(rest.skip(i - start + 1) == s@.skip(i + 1));
            proof {
                done = done.push(strip_cr(line));
            }
            i = i + 1;
        }
    }
    assert(lines(s@.skip(n as int)) == Seq::<Seq<char>>::empty());
    assert(done == lines(s@));
    out
}

/// The first line of a text that goes on, by that of its beginning.
pub proof fn lemma_line_len_prefix(a: Seq<char>, b: Seq<char>)
    ensures
        line_len(a) < a.len() ==> line_len(a + b) == line_len(a) && a[line_len(a) as int] == '\n',
        line_len(a) == a.len() ==> line_len(a + b) == a.len() + line_len(b),
    decreases a.len(),
{
    lemma_line_len(a);
    if a.len() == 0 {
        assert(a + b == b);
    } else if a[0] != '\n' {
        assert((a + b).drop_first() == a.drop_first() + b);
        lemma_line_len(a.drop_first());
        lemma_line_len_prefix(a.drop_first(), b);
    }
}

/// A line feed separates the lines before it from the lines after it.
pub proof fn lemma_lines_split(a: Seq<char>, b: Seq<char>)
    ensures
        lines(a.push('\n') + b) == lines(a.push('\n')) + lines(b),
    decreases a.len(),
{
    let head = a.push('\n');
    let s = head + b;
    let n = line_len(a) as int;
    lemma_line_len(a);
    let nl: Seq<char> = seq!['\n'];
    assert(head == a + nl);
    assert(s == a + (nl + b));
    lemma_line_len_prefix(a, nl + b);
    lemma_line_len_prefix(a, nl);
    assert(line_len(s) == n && line_len(head) == n);
    assert(s.take(n) == head.take(n));
    if n == a.len() {
        assert(head.skip(n + 1) == Seq::<char>::empty());
        assert(s.skip(n + 1) == b);
        assert(lines(head.skip(n + 1)) == Seq::<Seq<char>>::empty());
        assert(lines(s) == lines(head) + lines(b));
    } else {
        let rest = a.skip(n + 1);
        assert(head.skip(n + 1) == rest.push('\n'));
        assert(s.skip(n + 1) == rest.push('\n') + b);
        lemma_lines_split(rest, b);
        assert(lines(s) == lines(head) + lines(b));
    }
}

/// A text without a line feed, ended by one, is one line.
pub proof fn lemma_lines_single(c: Seq<char>)
    requires
        line_len(c) == c.len(),
    ensures
        lines(c.push('\n')) == seq![strip_cr(c)],
{
    let nl: Seq<char> = seq!['\n'];
    lemma_line_len_prefix(c, nl);
    assert(c.push('\n') == c + nl);
    assert(c.push('\n').take(c.len() as int) == c);
    assert(c.push('\n').skip(c.len() as int + 1) == Seq::<char>::empty());
    assert(lines(c.push('\n').skip(c.len() as int + 1)) == Seq::<Seq<char>>::empty());
}

/// Trimming twice is trimming once.
pub proof fn lemma_trim_idempotent(s: Seq<char>)
    ensures
        trim(trim(s)) == trim(s),
{
    lemma_trim_start_len(s);
    let t = trim_start(s);
    lemma_trim_end(t);
    let u = trim_end(t);
    if u.len() > 0 {
        assert(u[0] == t[0]);
    }
    assert(trim_start(u) == u);
    assert(trim_end(u) == u);
}

/// What trimming leaves at the end of a text.
proof fn lemma_trim_end(s: Seq<char>)
    ensures
        trim_end(s).len() <= s.len(),
        trim_end(s) == s.take(trim_end(s).len() as int),
        trim_end(s).len() > 0 ==> !is_white(trim_end(s).last()),
    decreases s.len(),
{
    if s.len() > 0 && is_white(s.last()) {
        let t = s.drop_last();
        lemma_trim_end(t);
        let n = trim_end(t).len() as int;
        assert(t.take(n) == s.take(n));
    } else {
        assert(s.take(s.len() as int) == s);
    }
}

/// Whitespace at the end of a text does not change what is left after trimming.
pub proof fn lemma_trim_push(s: Seq<char>, w: char)
    requires
        is_white(w),
    ensures
        trim(s.push(w)) == trim(s),
        trim_start(s.push(w)) == if trim_start(s).len() == 0 {
            Seq::empty()
        } else {
            trim_start(s).push(w)
        },
    decreases s.len(),
{
    let t = s.push(w);
    if s.len() == 0 {
        assert(t.drop_first() == s);
        assert(trim_start(t) == trim_start(s));
    } else if is_white(s[0]) {
        assert(t.drop_first() == s.drop_first().push(w));
        lemma_trim_push(s.drop_first(), w);
    } else {
        assert(t.drop_last() == s);
    }
    if trim_start(s).len() > 0 {
        assert(trim_start(s).push(w).drop_last() == trim_start(s));
    }
}

// ---- Case ----

/// The ASCII lowercase form of one character.
pub open spec fn ascii_lower_char(c: char) -> char {
    if 'A' <= c <= 'Z' {
        (c as u8 + 32) as char
    } else {
        c
    }
}

/// `s` with the letters `A` to `Z` replaced by `a` to `z` and nothing else changed.
pub open spec fn ascii_lower(s: Seq<char>) -> Seq<char> {
    s.map_values(|c: char| ascii_lower_char(c))
}

/// `s` with the letters `A` to `Z` replaced by `a` to `z` and nothing else changed.
pub fn to_ascii_lower(s: &str) -> (r: Vec<char>)
    ensures
        r@ == ascii_lower(s@),
{
    let chars = chars_of(s);
    let mut out: Vec<char> = Vec::new();
    let mut i: usize = 0;
    while i < chars.len()
        invariant
            i <= chars@.len(),
            chars@ == s@,
            out@ == ascii_lower(s@.take(i as int)),
        decreases chars@.len() - i,
    {
        let c = chars[i];
        let low = if 'A' <= c && c <= 'Z' {
            (c as u8 + 32) as char
        } else {
            c
        };
        out.push(low);
        i = i + 1;
        assert(ascii_lower(s@.take(i as int)) == ascii_lower(s@.take(i - 1)).push(
            ascii_lower_char(s@[i - 1]),
        ));
    }
    assert(s@.take(i as int) == s@);
    out
}

// ---- Laws ----

/// Every character of `s` is whitespace.
pub open spec fn all_white(s: Seq<char>) -> bool {
    forall|i: int| 0 <= i < s.len() ==> is_white(#[trigger] s[i])
}

/// A text contains, begins with and ends with exactly its pieces, beginnings and ends.
pub proof fn law_a_text_contains_its_pieces(s: Seq<char>, a: Seq<char>, p: Seq<char>, b: Seq<char>)
    ensures
        contains(a + p + b, p),
        starts_with(p + b, p),
        ends_with(a + p, p),
        contains(s, p) ==> exists|x: Seq<char>, y: Seq<char>| s == #[trigger] (x + p + y),
        starts_with(s, p) ==> exists|y: Seq<char>| s == #[trigger] (p + y),
        ends_with(s, p) ==> exists|x: Seq<char>| s == #[trigger] (x + p),
{
    let n = p.len() as int;
    assert((a + p + b).subrange(a.len() as int, a.len() + n) == p);
    assert(occurs_at(a + p + b, a.len() as int, p));
    assert((p + b).subrange(0, n) == p);
    assert((a + p).subrange(a.len() as int, a.len() + n) == p);
    if contains(s, p) {
        let i = choose|i: int| occurs_at(s, i, p);
        assert(s == s.take(i) + p + s.skip(i + n));
    }
    if starts_with(s, p) {
        assert(s == p + s.skip(n));
    }
    if ends_with(s, p) {
        assert(s == s.take(s.len() - n) + p);
    }
}

/// Trimming takes all whitespace off both ends of a text and nothing else.
pub proof fn law_trimming_takes_the_whitespace_off_both_ends(
    a: Seq<char>,
    core: Seq<char>,
    b: Seq<char>,
)
    requires
        all_white(a),
        all_white(b),
        core.len() > 0 ==> !is_white(core[0]) && !is_white(core.last()),
    ensures
        trim(a + core + b) == core,
    decreases a.len() + b.len(),
{
    let s = a + core + b;
    if a.len() > 0 {
        let t = a.drop_first();
        assert(is_white(a[0]));
        assert(s.drop_first() == t + core + b);
        assert forall|i: int| 0 <= i < t.len() implies is_white(#[trigger] t[i]) by {
            assert(is_white(a[i + 1]));
        }
        law_trimming_takes_the_whitespace_off_both_ends(t, core, b);
    } else if b.len() > 0 {
        let t = b.drop_last();
        assert(is_white(b[b.len() - 1]));
        assert(s == (a + core + t).push(b.last()));
        assert forall|i: int| 0 <= i < t.len() implies is_white(#[trigger] t[i]) by {
            assert(is_white(b[i]));
        }
        law_trimming_takes_the_whitespace_off_both_ends(a, core, t);
        lemma_trim_push(a + core + t, b.last());
    } else {
        assert(s == core);
    }
}

/// Nothing is left of a text by trimming exactly if it is all whitespace.
pub proof fn lemma_trim_empty(s: Seq<char>)
    ensures
        trim(s).len() == 0 <==> all_white(s),
    decreases s.len(),
{
    if s.len() == 0 {
    } else if is_white(s[0]) {
        let t = s.drop_first();
        lemma_trim_empty(t);
        if all_white(t) {
            assert forall|i: int| 0 <= i < s.len() implies is_white(#[trigger] s[i]) by {
                if i > 0 {
                    assert(is_white(t[i - 1]));
                }
            }
        }
        if all_white(s) {
            assert forall|i: int| 0 <= i < t.len() implies is_white(#[trigger] t[i]) by {
                assert(is_white(s[i + 1]));
            }
        }
    } else {
        lemma_trim_end_keeps(s);
    }
}

/// A text that does not begin with whitespace does not vanish at its end.
proof fn lemma_trim_end_keeps(s: Seq<char>)
    requires
        s.len() > 0,
        !is_white(s[0]),
    ensures
        trim_end(s).len() > 0,
    decreases s.len(),
{
    if is_white(s.last()) {
        lemma_trim_end_keeps(s.drop_last());
    }
}

/// Any whitespace character separates the words before it from the words after it.
proof fn lemma_words_split_at(a: Seq<char>, w: char, b: Seq<char>)
    requires
        is_white(w),
    ensures
        words(a.push(w) + b) == words(a) + words(b),
    decreases a.len(),
{
    let s = a.push(w) + b;
    if a.len() == 0 {
        assert(s.drop_first() == b);
        assert(trim_start(s) == trim_start(b));
        assert(words(a) == Seq::<Seq<char>>::empty());
        assert(words(s) == words(b));
        assert(words(a) + words(b) == words(b));
    } else if is_white(a[0]) {
        assert(s.drop_first() == a.drop_first().push(w) + b);
        lemma_words_split_at(a.drop_first(), w, b);
        assert(trim_start(s) == trim_start(s.drop_first()));
        assert(trim_start(a) == trim_start(a.drop_first()));
        assert(words(s) == words(s.drop_first()));
        assert(words(a) == words(a.drop_first()));
    } else {
        lemma_word_len(a);
        lemma_word_len(s);
        let n = word_len(a) as int;
        assert(word_len(s) == n) by {
            let m = word_len(s) as int;
            if m < n {
                assert(is_white(s[m]));
                assert(s[m] == a[m]);
            } else if m > n {
                assert(!is_white(s[n]));
                if n < a.len() {
                    assert(s[n] == a[n]);
                } else {
                    assert(s[n] == w);
                }
            }
        }
        let rest = a.skip(n);
        assert(s.take(n) == a.take(n));
        assert(s.skip(n) == rest.push(w) + b);
        lemma_words_split_at(rest, w, b);
        assert(words(s) == seq![a.take(n)] + (words(rest) + words(b)));
        assert(words(a) == seq![a.take(n)] + words(rest));
        assert(words(s) == words(a) + words(b));
    }
}

/// Cleaning keeps words as they are and turns whitespace between them into one space: a text
/// without whitespace is clean, and around any whitespace character each side is cleaned by
/// itself and what is left of them is joined by a single space.
pub proof fn law_cleaning_joins_the_words_by_single_spaces(
    word: Seq<char>,
    a: Seq<char>,
    w: char,
    b: Seq<char>,
)
    requires
        forall|i: int| 0 <= i < word.len() ==> !is_white(#[trigger] word[i]),
        is_white(w),
    ensures
        cleaned(word) == word,
        cleaned(a.push(w) + b) == if cleaned(a).len() == 0 {
            cleaned(b)
        } else if cleaned(b).len() == 0 {
            cleaned(a)
        } else {
            cleaned(a) + seq![' '] + cleaned(b)
        },
{
    assert(words(Seq::<char>::empty()) == Seq::<Seq<char>>::empty());
    if word.len() > 0 {
        assert(!is_white(word[0]));
        lemma_word_len_full(word);
        assert(word.take(word.len() as int) == word);
        assert(word.skip(word.len() as int) == Seq::<char>::empty());
        assert(words(word) == seq![word]);
    } else {
        assert(word == Seq::<char>::empty());
    }
    lemma_words_split_at(a, w, b);
    lemma_words_are_words(a);
    lemma_words_are_words(b);
    if words(a).len() == 0 {
        assert(words(a) + words(b) == words(b));
        assert(cleaned(a).len() == 0);
    } else {
        assert(is_word(words(a)[0]));
        assert(cleaned(a).len() > 0);
        if words(b).len() == 0 {
            assert(words(a) + words(b) == words(a));
        } else {
            assert(is_word(words(b)[0]));
            assert(cleaned(b).len() > 0);
            lemma_join_append(words(a), words(b), seq![' ']);
        }
    }
}

/// A text is cut into lines at its line feeds and nowhere else; a carriage return before one
/// belongs to the line's end.
pub proof fn law_lines_end_at_line_feeds(line: Seq<char>, rest: Seq<char>)
    requires
        forall|i: int| 0 <= i < line.len() ==> #[trigger] line[i] != '\n',
    ensures
        line.len() > 0 ==> lines(line) == seq![line],
        lines(Seq::empty()).len() == 0,
        lines(line.push('\n') + rest) == seq![
            if line.len() > 0 && line.last() == '\r' {
                line.drop_last()
            } else {
                line
            },
        ] + lines(rest),
{
    lemma_whole_line(line);
    lemma_lines_split(line, rest);
    lemma_lines_single(line);
}

/// A text without a line feed is all in its first line.
pub proof fn lemma_whole_line(line: Seq<char>)
    requires
        forall|i: int| 0 <= i < line.len() ==> #[trigger] line[i] != '\n',
    ensures
        line_len(line) == line.len(),
    decreases line.len(),
{
    if line.len() > 0 {
        assert(line[0] != '\n');
        let t = line.drop_first();
        assert forall|i: int| 0 <= i < t.len() implies #[trigger] t[i] != '\n' by {
            assert(line[i + 1] != '\n');
        }
        lemma_whole_line(t);
    }
}

/// Lowercasing in ASCII changes the letters `A` to `Z` into `a` to `z`, character by character,
/// and nothing else.
pub proof fn law_ascii_lowercase_changes_capital_letters_only(s: Seq<char>, i: int)
    requires
        0 <= i < s.len(),
    ensures
        ascii_lower(s).len() == s.len(),
        'A' <= s[i] <= 'Z' ==> ascii_lower(s)[i] as u32 == s[i] as u32 + 32,
        !('A' <= s[i] <= 'Z') ==> ascii_lower(s)[i] == s[i],
{
}

} // verus!
