//! Text as sequences of characters: searching, trimming, splitting, letter case, numbers.
//!
//! A string is modelled by its view, a `Seq<char>`; positions count characters.
use vstd::prelude::*;
use vstd::slice::{slice_subrange, slice_to_vec};

verus! {

/// `String::push` appends one character to the end of the string.
pub assume_specification[ String::push ](s: &mut String, c: char)
    ensures
        final(s)@ == old(s)@.push(c),
;

/// The result of `str::to_lowercase` on a given text: the lowercase mapping of the Unicode
/// character database, which may turn one character into several.
pub uninterp spec fn lowercase(s: Seq<char>) -> Seq<char>;

/// `str::to_lowercase`. The result is a function of the text alone; on a text of ASCII characters
/// the capital letters `A` to `Z` are replaced by `a` to `z` and nothing else changes.
#[verifier::external_body]
pub(crate) fn to_lowercase(s: &str) -> (r: String)
    ensures
        r@ == lowercase(s@),
        is_ascii_text(s@) ==> r@ == ascii_lower(s@),
{
    s.to_lowercase()
}

// ---------------------------------------------------------------------------------------------
// Characters
// ---------------------------------------------------------------------------------------------

/// The characters with the Unicode property `White_Space`.
pub open spec fn is_white(c: char) -> bool {
    ||| '\u{9}' <= c <= '\u{d}'
    ||| c == ' '
    ||| c == '\u{85}'
    ||| c == '\u{a0}'
    ||| c == '\u{1680}'
    ||| '\u{2000}' <= c <= '\u{200a}'
    ||| c == '\u{2028}'
    ||| c == '\u{2029}'
    ||| c == '\u{202f}'
    ||| c == '\u{205f}'
    ||| c == '\u{3000}'
}

/// Whether `c` is white space.
pub fn white(c: char) -> (r: bool)
    ensures
        r == is_white(c),
{
    ('\u{9}' <= c && c <= '\u{d}') || c == ' ' || c == '\u{85}' || c == '\u{a0}' || c == '\u{1680}'
        || ('\u{2000}' <= c && c <= '\u{200a}') || c == '\u{2028}' || c == '\u{2029}' || c
        == '\u{202f}' || c == '\u{205f}' || c == '\u{3000}'
}

/// Whether every character is ASCII.
pub open spec fn is_ascii_text(s: Seq<char>) -> bool {
    forall|i: int| 0 <= i < s.len() ==> (#[trigger] s[i]) <= '\u{7f}'
}

/// The lowercase letter of an ASCII capital; every other character is its own.
pub open spec fn ascii_lower_char(c: char) -> char {
    if 'A' <= c <= 'Z' {
        ((c as u32 + 32) as u32) as char
    } else {
        c
    }
}

/// `ascii_lower_char` on every character.
pub open spec fn ascii_lower(s: Seq<char>) -> Seq<char> {
    s.map_values(|c: char| ascii_lower_char(c))
}

/// The ASCII letter that `c` has as its lowercase form, if it has one; otherwise `c`.
///
/// Besides the ASCII capitals only the Kelvin sign has an ASCII letter as its lowercase form.
pub open spec fn fold_char(c: char) -> char {
    if c == '\u{212a}' {
        'k'
    } else {
        ascii_lower_char(c)
    }
}

/// `fold_char` on every character.
///
/// A text has an ASCII word as its lowercase form exactly if folding it gives that word.
pub open spec fn fold(s: Seq<char>) -> Seq<char> {
    s.map_values(|c: char| fold_char(c))
}

/// `ascii_lower_char`, computed.
pub fn lower_ascii_char(c: char) -> (r: char)
    ensures
        r == ascii_lower_char(c),
{
    if 'A' <= c && c <= 'Z' {
        let n: u8 = c as u8;
        (n + 32) as char
    } else {
        c
    }
}

/// `fold_char`, computed.
pub fn folded_char(c: char) -> (r: char)
    ensures
        r == fold_char(c),
{
    if c == '\u{212a}' {
        'k'
    } else {
        lower_ascii_char(c)
    }
}

// ---------------------------------------------------------------------------------------------
// Strings and their characters
// ---------------------------------------------------------------------------------------------

/// The characters of `s`.
pub fn to_chars(s: &str) -> (r: Vec<char>)
    ensures
        r@ == s@,
{
    let mut out: Vec<char> = Vec::new();
    for c in it: s.chars()
        invariant
            out@ == s@.take(it.index() as int),
            it.seq() == s@,
    {
        out.push(c);
    }
    out
}

/// The string of the characters `v`.
pub fn from_chars(v: &[char]) -> (r: String)
    ensures
        r@ == v@,
{
    let mut out = String::new();
    let mut i: usize = 0;
    while i < v.len()
        invariant
            i <= v@.len(),
            out@ == v@.take(i as int),
        decreases v@.len() - i,
    {
        out.push(v[i]);
        i += 1;
    }
    out
}

/// Whether two texts are equal.
pub fn same(a: &[char], b: &[char]) -> (r: bool)
    ensures
        r == (a@ == b@),
{
    if a.len() != b.len() {
        return false;
    }
    let mut i: usize = 0;
    while i < a.len()
        invariant
            i <= a@.len(),
            a@.len() == b@.len(),
            forall|j: int| 0 <= j < i ==> a@[j] == b@[j],
        decreases a@.len() - i,
    {
        if a[i] != b[i] {
            return false;
        }
        i += 1;
    }
    assert(a@ =~= b@);
    true
}

/// Whether two strings are equal.
pub fn same_str(a: &str, b: &str) -> (r: bool)
    ensures
        r == (a@ == b@),
{
    let x = to_chars(a);
    let y = to_chars(b);
    same(&x, &y)
}

/// The concatenation of two strings.
pub fn join2(a: &str, b: &str) -> (r: String)
    ensures
        r@ == a@ + b@,
{
    let mut r = a.to_owned();
    r.append(b);
    r
}

/// The concatenation of three strings.
pub fn join3(a: &str, b: &str, c: &str) -> (r: String)
    ensures
        r@ == a@ + b@ + c@,
{
    let mut r = a.to_owned();
    r.append(b);
    r.append(c);
    r
}

/// The views of a list of strings.
pub open spec fn views(v: Seq<String>) -> Seq<Seq<char>> {
    v.map_values(|s: String| s@)
}

/// The list of strings with `sep` between neighbours.
pub open spec fn joined(v: Seq<Seq<char>>, sep: Seq<char>) -> Seq<char>
    decreases v.len(),
{
    if v.len() == 0 {
        Seq::empty()
    } else if v.len() == 1 {
        v[0]
    } else {
        joined(v.drop_last(), sep) + sep + v.last()
    }
}

/// `joined`, computed.
pub fn join(v: &Vec<String>, sep: &str) -> (r: String)
    ensures
        r@ == joined(views(v@), sep@),
{
    let mut out = String::new();
    let mut i: usize = 0;
    while i < v.len()
        invariant
            i <= v@.len(),
            out@ == joined(views(v@.take(i as int)), sep@),
        decreases v@.len() - i,
    {
        if i > 0 {
            out.append(sep);
        }
        out.append(v[i].as_str());
        proof {
            let now = views(v@.take(i + 1));
            assert(now.drop_last() =~= views(v@.take(i as int)));
            assert(now.last() == v@[i as int]@);
        }
        i += 1;
    }
    proof {
        assert(v@.take(i as int) =~= v@);
    }
    out
}

// ---------------------------------------------------------------------------------------------
// Searching
// ---------------------------------------------------------------------------------------------

/// The position of the first `c`.
pub open spec fn first_index(s: Seq<char>, c: char) -> Option<int>
    decreases s.len(),
{
    if s.len() == 0 {
        None
    } else if s[0] == c {
        Some(0)
    } else {
        match first_index(s.drop_first(), c) {
            Some(i) => Some(i + 1),
            None => None,
        }
    }
}

/// The position of the last `c`.
pub open spec fn last_index(s: Seq<char>, c: char) -> Option<int>
    decreases s.len(),
{
    if s.len() == 0 {
        None
    } else if s.last() == c {
        Some(s.len() - 1)
    } else {
        last_index(s.drop_last(), c)
    }
}

/// What the position of the first `c` is.
pub proof fn lemma_first_index(s: Seq<char>, c: char)
    ensures
        match first_index(s, c) {
            Some(i) => 0 <= i < s.len() && s[i] == c && forall|j: int| 0 <= j < i ==> s[j] != c,
            None => forall|j: int| 0 <= j < s.len() ==> s[j] != c,
        },
    decreases s.len(),
{
    if s.len() > 0 && s[0] != c {
        let t = s.drop_first();
        lemma_first_index(t, c);
        assert forall|j: int| 1 <= j < s.len() implies s[j] == t[j - 1] by {}
        match first_index(t, c) {
            Some(i) => {
                assert forall|j: int| 0 <= j < i + 1 implies s[j] != c by {
                    if j > 0 {
                        assert(t[j - 1] != c);
                    }
                }
            },
            None => {
                assert forall|j: int| 0 <= j < s.len() implies s[j] != c by {
                    if j > 0 {
                        assert(t[j - 1] != c);
                    }
                }
            },
        }
    }
}

/// What the position of the last `c` is.
pub proof fn lemma_last_index(s: Seq<char>, c: char)
    ensures
        match last_index(s, c) {
            Some(i) => 0 <= i < s.len() && s[i] == c && forall|j: int|
                i < j < s.len() ==> s[j] != c,
            None => forall|j: int| 0 <= j < s.len() ==> s[j] != c,
        },
    decreases s.len(),
{
    if s.len() > 0 && s.last() != c {
        let t = s.drop_last();
        lemma_last_index(t, c);
        assert forall|j: int| 0 <= j < t.len() implies s[j] == t[j] by {}
    }
}

/// `first_index`, computed.
pub fn find_char(v: &[char], c: char) -> (r: Option<usize>)
    ensures
        match r {
            Some(i) => first_index(v@, c) == Some(i as int),
            None => first_index(v@, c) is None,
        },
        r matches Some(i) ==> i < v@.len(),
{
    proof {
        lemma_first_index(v@, c);
    }
    let mut i: usize = 0;
    while i < v.len()
        invariant
            i <= v@.len(),
            forall|j: int| 0 <= j < i ==> v@[j] != c,
            match first_index(v@, c) {
                Some(k) => 0 <= k < v@.len() && v@[k] == c && forall|j: int|
                    0 <= j < k ==> v@[j] != c,
                None => forall|j: int| 0 <= j < v@.len() ==> v@[j] != c,
            },
        decreases v@.len() - i,
    {
        if v[i] == c {
            return Some(i);
        }
        i += 1;
    }
    None
}

/// `last_index`, computed.
pub fn rfind_char(v: &[char], c: char) -> (r: Option<usize>)
    ensures
        match r {
            Some(i) => last_index(v@, c) == Some(i as int),
            None => last_index(v@, c) is None,
        },
        r matches Some(i) ==> i < v@.len(),
{
    proof {
        lemma_last_index(v@, c);
    }
    let mut i: usize = v.len();
    while i > 0
        invariant
            i <= v@.len(),
            forall|j: int| i <= j < v@.len() ==> v@[j] != c,
            match last_index(v@, c) {
                Some(k) => 0 <= k < v@.len() && v@[k] == c && forall|j: int|
                    k < j < v@.len() ==> v@[j] != c,
                None => forall|j: int| 0 <= j < v@.len() ==> v@[j] != c,
            },
        decreases i,
    {
        i -= 1;
        if v[i] == c {
            return Some(i);
        }
    }
    None
}

/// Whether `s` begins with `p`.
pub open spec fn begins_with(s: Seq<char>, p: Seq<char>) -> bool {
    p.len() <= s.len() && s.take(p.len() as int) == p
}

/// `begins_with`, computed.
pub fn starts_with(v: &[char], p: &[char]) -> (r: bool)
    ensures
        r == begins_with(v@, p@),
{
    if v.len() < p.len() {
        return false;
    }
    let head = slice_subrange(v, 0, p.len());
    assert(head@ =~= v@.take(p@.len() as int));
    same(head, p)
}

/// Whether the word `w` stands in `s` at position `i`.
pub open spec fn word_at(s: Seq<char>, w: Seq<char>, i: int) -> bool {
    0 <= i && i + w.len() <= s.len() && s.subrange(i, i + w.len()) == w
}

/// Whether the word `w` stands somewhere in `s`.
pub open spec fn has_word(s: Seq<char>, w: Seq<char>) -> bool {
    exists|i: int| #[trigger] word_at(s, w, i)
}

/// `has_word`, computed.
pub fn contains_word(v: &[char], w: &[char]) -> (r: bool)
    ensures
        r == has_word(v@, w@),
{
    let n: usize = w.len();
    let total: usize = v.len();
    if total < n {
        return false;
    }
    let last: usize = total - n;
    let mut i: usize = 0;
    loop
        invariant
            n == w@.len(),
            n <= total,
            total == v@.len(),
            last == total - n,
            i <= last,
            forall|j: int| 0 <= j < i ==> !#[trigger] word_at(v@, w@, j),
        decreases last - i,
    {
        let part = slice_subrange(v, i, i + n);
        if same(part, w) {
            assert(word_at(v@, w@, i as int));
            return true;
        }
        assert(!word_at(v@, w@, i as int));
        if i == last {
            return false;
        }
        i += 1;
    }
}

/// Folds every character.
pub fn folded(v: &[char]) -> (r: Vec<char>)
    ensures
        r@ == fold(v@),
{
    let mut out: Vec<char> = Vec::new();
    let mut i: usize = 0;
    while i < v.len()
        invariant
            i <= v@.len(),
            out@ == fold(v@.take(i as int)),
        decreases v@.len() - i,
    {
        out.push(folded_char(v[i]));
        i += 1;
        assert(out@ =~= fold(v@.take(i as int)));
    }
    assert(v@.take(i as int) =~= v@);
    out
}

/// Whether the lowercase form of a text is the ASCII word `w`.
pub fn folds_to(v: &[char], w: &str) -> (r: bool)
    ensures
        r == (fold(v@) == w@),
{
    let f = folded(v);
    let w = to_chars(w);
    same(&f, &w)
}

/// Whether the lowercase form of a text holds the ASCII word `w`.
pub fn fold_has(v: &[char], w: &str) -> (r: bool)
    ensures
        r == has_word(fold(v@), w@),
{
    let f = folded(v);
    let w = to_chars(w);
    contains_word(&f, &w)
}

/// Whether the lowercase form of a text begins with the ASCII word `w`.
pub fn fold_starts(v: &[char], w: &str) -> (r: bool)
    ensures
        r == begins_with(fold(v@), w@),
{
    let f = folded(v);
    let w = to_chars(w);
    starts_with(&f, &w)
}

/// Whether two texts differ at most in the case of their ASCII letters.
pub fn same_ignoring_case(a: &[char], b: &[char]) -> (r: bool)
    ensures
        r == (ascii_lower(a@) == ascii_lower(b@)),
{
    if a.len() != b.len() {
        assert(ascii_lower(a@).len() != ascii_lower(b@).len());
        return false;
    }
    let mut i: usize = 0;
    while i < a.len()
        invariant
            i <= a@.len(),
            a@.len() == b@.len(),
            forall|j: int|
                0 <= j < i ==> ascii_lower_char(#[trigger] a@[j]) == ascii_lower_char(b@[j]),
        decreases a@.len() - i,
    {
        if lower_ascii_char(a[i]) != lower_ascii_char(b[i]) {
            assert(ascii_lower(a@)[i as int] != ascii_lower(b@)[i as int]);
            return false;
        }
        i += 1;
    }
    assert(ascii_lower(a@) =~= ascii_lower(b@));
    true
}

// ---------------------------------------------------------------------------------------------
// Trimming
// ---------------------------------------------------------------------------------------------

/// Which characters are taken off the ends of a text.
#[derive(Clone, Copy)]
pub enum Strip {
    /// White space.
    White,
    /// One given character.
    Only(char),
}

/// Whether `c` is taken off.
pub open spec fn strips(k: Strip, c: char) -> bool {
    match k {
        Strip::White => is_white(c),
        Strip::Only(d) => c == d,
    }
}

/// The text without the characters at its front that `k` takes off.
pub open spec fn trim_front(k: Strip, s: Seq<char>) -> Seq<char>
    decreases s.len(),
{
    if s.len() > 0 && strips(k, s[0]) {
        trim_front(k, s.drop_first())
    } else {
        s
    }
}

/// The text without the characters at its back that `k` takes off.
pub open spec fn trim_back(k: Strip, s: Seq<char>) -> Seq<char>
    decreases s.len(),
{
    if s.len() > 0 && strips(k, s.last()) {
        trim_back(k, s.drop_last())
    } else {
        s
    }
}

/// The text without the characters at both ends that `k` takes off.
pub open spec fn trim_both(k: Strip, s: Seq<char>) -> Seq<char> {
    trim_back(k, trim_front(k, s))
}

/// The text without white space at its ends.
pub open spec fn trim(s: Seq<char>) -> Seq<char> {
    trim_both(Strip::White, s)
}

/// The text without quotation marks at its ends.
pub open spec fn unquoted(s: Seq<char>) -> Seq<char> {
    trim_both(Strip::Only('"'), s)
}

fn strip(k: Strip, c: char) -> (r: bool)
    ensures
        r == strips(k, c),
{
    match k {
        Strip::White => white(c),
        Strip::Only(d) => c == d,
    }
}

/// `trim_front`, computed.
pub fn trimmed_front(k: Strip, v: &[char]) -> (r: &[char])
    ensures
        r@ == trim_front(k, v@),
{
    let mut i: usize = 0;
    assert(v@.skip(0) =~= v@);
    while i < v.len() && strip(k, v[i])
        invariant
            i <= v@.len(),
            trim_front(k, v@) == trim_front(k, v@.skip(i as int)),
        decreases v@.len() - i,
    {
        assert(v@.skip(i as int).drop_first() =~= v@.skip(i + 1));
        i += 1;
    }
    let r = slice_subrange(v, i, v.len());
    assert(r@ =~= v@.skip(i as int));
    r
}

/// `trim_back`, computed.
pub fn trimmed_back(k: Strip, v: &[char]) -> (r: &[char])
    ensures
        r@ == trim_back(k, v@),
{
    let mut i: usize = v.len();
    assert(v@.take(i as int) =~= v@);
    while i > 0 && strip(k, v[i - 1])
        invariant
            i <= v@.len(),
            trim_back(k, v@) == trim_back(k, v@.take(i as int)),
        decreases i,
    {
        assert(v@.take(i as int).drop_last() =~= v@.take(i - 1));
        i -= 1;
    }
    let r = slice_subrange(v, 0, i);
    assert(r@ =~= v@.take(i as int));
    r
}

/// `trim_both`, computed.
pub fn trimmed_both(k: Strip, v: &[char]) -> (r: &[char])
    ensures
        r@ == trim_both(k, v@),
{
    let f = trimmed_front(k, v);
    trimmed_back(k, f)
}

/// `trim`, computed.
pub fn trimmed(v: &[char]) -> (r: &[char])
    ensures
        r@ == trim(v@),
{
    trimmed_both(Strip::White, v)
}

/// `trim` on a string.
pub fn trim_str(s: &str) -> (r: String)
    ensures
        r@ == trim(s@),
{
    let v = to_chars(s);
    from_chars(trimmed(&v))
}

/// No white space stands at the ends of a text.
pub open spec fn ends_clean(s: Seq<char>) -> bool {
    s.len() > 0 ==> !is_white(s[0]) && !is_white(s.last())
}

proof fn lemma_trim_front(k: Strip, s: Seq<char>)
    ensures
        trim_front(k, s).len() <= s.len(),
        trim_front(k, s) == s.skip(s.len() - trim_front(k, s).len()),
        trim_front(k, s).len() > 0 ==> !strips(k, trim_front(k, s)[0]),
    decreases s.len(),
{
    if s.len() > 0 && strips(k, s[0]) {
        let t = s.drop_first();
        lemma_trim_front(k, t);
        assert(t.skip(t.len() - trim_front(k, t).len()) =~= s.skip(
            s.len() - trim_front(k, t).len(),
        ));
    } else {
        assert(s.skip(0) =~= s);
    }
}

proof fn lemma_trim_back(k: Strip, s: Seq<char>)
    ensures
        trim_back(k, s).len() <= s.len(),
        trim_back(k, s) == s.take(trim_back(k, s).len() as int),
        trim_back(k, s).len() > 0 ==> !strips(k, trim_back(k, s).last()),
    decreases s.len(),
{
    if s.len() > 0 && strips(k, s.last()) {
        let t = s.drop_last();
        lemma_trim_back(k, t);
        assert(t.take(trim_back(k, t).len() as int) =~= s.take(trim_back(k, t).len() as int));
    } else {
        assert(s.take(s.len() as int) =~= s);
    }
}

/// A trimmed text is a stretch of the text, with no white space at its ends.
pub proof fn lemma_trim(s: Seq<char>)
    ensures
        ends_clean(trim(s)),
        forall|i: int|
            0 <= i < trim(s).len() ==> exists|j: int|
                0 <= j < s.len() && #[trigger] trim(s)[i] == s[j],
{
    let f = trim_front(Strip::White, s);
    lemma_trim_front(Strip::White, s);
    lemma_trim_back(Strip::White, f);
    let d = s.len() - f.len();
    assert forall|i: int| 0 <= i < trim(s).len() implies exists|j: int|
        0 <= j < s.len() && #[trigger] trim(s)[i] == s[j] by {
        assert(trim(s)[i] == f[i]);
        assert(f[i] == s[i + d]);
    }
}

/// A text with no white space at its ends stays as it is.
pub proof fn lemma_trim_fixed(s: Seq<char>)
    requires
        ends_clean(s),
    ensures
        trim(s) == s,
{
}

// ---------------------------------------------------------------------------------------------
// Splitting
// ---------------------------------------------------------------------------------------------

/// The pieces of a text between the separators `sep`; there is one more piece than separators.
pub open spec fn split(s: Seq<char>, sep: char) -> Seq<Seq<char>>
    decreases s.len(),
{
    if s.len() == 0 {
        seq![Seq::empty()]
    } else {
        let p = split(s.drop_last(), sep);
        if s.last() == sep {
            p.push(Seq::empty())
        } else {
            p.drop_last().push(p.last().push(s.last()))
        }
    }
}

/// A text without the carriage return at its end, if it has one there.
pub open spec fn strip_cr(s: Seq<char>) -> Seq<char> {
    if s.len() > 0 && s.last() == '\r' {
        s.drop_last()
    } else {
        s
    }
}

/// The lines of a text. A line ends with a line feed, or with a carriage return and a line feed;
/// the last line need not end.
pub open spec fn lines(s: Seq<char>) -> Seq<Seq<char>> {
    let p = split(s, '\n');
    let ended = p.drop_last().map_values(|l: Seq<char>| strip_cr(l));
    if p.last().len() == 0 {
        ended
    } else {
        ended.push(p.last())
    }
}

/// There is always a piece.
pub proof fn lemma_split_some(s: Seq<char>, sep: char)
    ensures
        split(s, sep).len() > 0,
    decreases s.len(),
{
    if s.len() > 0 {
        lemma_split_some(s.drop_last(), sep);
    }
}

/// The views of a list of texts.
pub open spec fn char_views(v: Seq<Vec<char>>) -> Seq<Seq<char>> {
    v.map_values(|s: Vec<char>| s@)
}

/// `split`, computed.
pub fn split_at(v: &[char], sep: char) -> (r: Vec<Vec<char>>)
    ensures
        char_views(r@) == split(v@, sep),
        r@.len() > 0,
{
    let mut out: Vec<Vec<char>> = Vec::new();
    let mut cur: Vec<char> = Vec::new();
    let mut i: usize = 0;
    assert(char_views(out@).push(cur@) =~= split(v@.take(0), sep));
    while i < v.len()
        invariant
            i <= v@.len(),
            char_views(out@).push(cur@) == split(v@.take(i as int), sep),
        decreases v@.len() - i,
    {
        let ghost before = char_views(out@).push(cur@);
        let ghost out0 = out@;
        let ghost cur0 = cur@;
        proof {
            assert(v@.take(i + 1).drop_last() =~= v@.take(i as int));
            assert(before.drop_last() =~= char_views(out0));
            assert(before.last() == cur0);
        }
        if v[i] == sep {
            out.push(cur);
            cur = Vec::new();
            assert(char_views(out@) =~= char_views(out0).push(cur0));
            assert(cur@ =~= Seq::<char>::empty());
        } else {
            cur.push(v[i]);
        }
        i += 1;
    }
    let ghost out0 = out@;
    let ghost cur0 = cur@;
    out.push(cur);
    proof {
        assert(v@.take(i as int) =~= v@);
        assert(char_views(out@) =~= char_views(out0).push(cur0));
    }
    out
}

/// `lines`, computed.
pub fn lines_of(v: &[char]) -> (r: Vec<Vec<char>>)
    ensures
        char_views(r@) == lines(v@),
{
    let pieces = split_at(v, '\n');
    let n: usize = pieces.len() - 1;
    let mut out: Vec<Vec<char>> = Vec::new();
    let mut i: usize = 0;
    let ghost p = split(v@, '\n');
    let ghost ended = p.drop_last().map_values(|l: Seq<char>| strip_cr(l));
    while i < n
        invariant
            i <= n,
            n == pieces@.len() - 1,
            p == char_views(pieces@),
            ended == p.drop_last().map_values(|l: Seq<char>| strip_cr(l)),
            char_views(out@) == ended.take(i as int),
        decreases n - i,
    {
        let piece: &Vec<char> = &pieces[i];
        let m: usize = piece.len();
        let ghost out0 = out@;
        assert(p[i as int] == piece@);
        let keep: usize = if m > 0 && piece[m - 1] == '\r' { m - 1 } else { m };
        let line = slice_to_vec(slice_subrange(piece.as_slice(), 0, keep));
        assert(line@ =~= strip_cr(piece@));
        out.push(line);
        assert(char_views(out@) =~= char_views(out0).push(line@));
        i += 1;
        assert(char_views(out@) =~= ended.take(i as int));
    }
    assert(ended.take(n as int) =~= ended);
    if pieces[n].len() > 0 {
        let ghost out0 = out@;
        out.push(pieces[n].clone());
        assert(out@.last()@ =~= pieces@[n as int]@);
        assert(char_views(out@) =~= char_views(out0).push(pieces@[n as int]@));
    }
    out
}

// ---------------------------------------------------------------------------------------------
// Numbers
// ---------------------------------------------------------------------------------------------

/// The digit of a number below ten.
pub open spec fn digit(d: nat) -> char {
    ((48 + d) as u32) as char
}

/// A number in decimal digits, without leading zeros.
pub open spec fn decimal(n: nat) -> Seq<char>
    decreases n,
{
    if n < 10 {
        seq![digit(n)]
    } else {
        decimal(n / 10).push(digit(n % 10))
    }
}

/// A number in decimal digits, with a minus sign if it is negative.
pub open spec fn signed_decimal(n: int) -> Seq<char> {
    if n < 0 {
        seq!['-'] + decimal((-n) as nat)
    } else {
        decimal(n as nat)
    }
}

proof fn lemma_decimal(n: nat)
    ensures
        forall|i: int| 0 <= i < decimal(n).len() ==> '0' <= #[trigger] decimal(n)[i] <= '9',
    decreases n,
{
    if n >= 10 {
        lemma_decimal(n / 10);
        let t = decimal(n / 10);
        assert forall|i: int| 0 <= i < decimal(n).len() implies '0' <= #[trigger] decimal(n)[i]
            <= '9' by {
            if i < t.len() {
                assert(decimal(n)[i] == t[i]);
            }
        }
    }
}

/// A number in decimal digits holds nothing but digits and perhaps a minus sign.
pub proof fn lemma_signed_decimal(n: int)
    ensures
        forall|i: int|
            0 <= i < signed_decimal(n).len() ==> '0' <= #[trigger] signed_decimal(n)[i] <= '9'
                || signed_decimal(n)[i] == '-',
{
    if n < 0 {
        lemma_decimal((-n) as nat);
        assert forall|i: int| 0 <= i < signed_decimal(n).len() implies '0'
            <= #[trigger] signed_decimal(n)[i] <= '9' || signed_decimal(n)[i] == '-' by {
            if i > 0 {
                assert(signed_decimal(n)[i] == decimal((-n) as nat)[i - 1]);
            }
        }
    } else {
        lemma_decimal(n as nat);
    }
}

/// `decimal`, computed.
pub fn u64_to_string(n: u64) -> (r: String)
    ensures
        r@ == decimal(n as nat),
    decreases n,
{
    let mut s = String::new();
    if n >= 10 {
        s = u64_to_string(n / 10);
    }
    let d: u8 = (n % 10) as u8;
    s.push((48 + d) as char);
    assert(s@ =~= decimal(n as nat));
    s
}

/// `signed_decimal`, computed.
pub fn i64_to_string(n: i64) -> (r: String)
    ensures
        r@ == signed_decimal(n as int),
{
    if n < 0 {
        let m: u64 = (-(n + 1)) as u64 + 1;
        let mut s = String::new();
        s.push('-');
        let t = u64_to_string(m);
        s.append(t.as_str());
        assert(s@ =~= signed_decimal(n as int));
        s
    } else {
        u64_to_string(n as u64)
    }
}

} // verus!
