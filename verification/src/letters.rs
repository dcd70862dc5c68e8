//! Letters and characters: white space, capitals, the alphabets of base64, the order of texts and the ends of
//! lines.
use vstd::prelude::*;

use crate::contact_files::lemma_no_sep;
use crate::encoding::symbol;
use crate::order::not_after;
use crate::text::{
    ascii_lower_char, ends_clean, is_white, lines, split, strip_cr, trim, trim_back, trim_front,
    Strip,
};
use crate::utf7::{
    base64_digit, bytes_as_chars, decode, octets, run_len, sextet, sextets, shifted, units,
    utf16_text,
};

verus! {

/// The characters that count as white space.
pub open spec fn white_characters() -> Seq<char> {
    seq![
        '\u{9}', '\u{a}', '\u{b}', '\u{c}', '\u{d}', ' ', '\u{85}', '\u{a0}', '\u{1680}',
        '\u{2000}', '\u{2001}', '\u{2002}', '\u{2003}', '\u{2004}', '\u{2005}', '\u{2006}',
        '\u{2007}', '\u{2008}', '\u{2009}', '\u{200a}', '\u{2028}', '\u{2029}', '\u{202f}',
        '\u{205f}', '\u{3000}',
    ]
}

/// A character is white space exactly if it is one of these.
pub proof fn law_white(c: char)
    ensures
        is_white(c) <==> white_characters().contains(c),
{
    let l = white_characters();
    assert(l.len() == 25);
    assert(l[0] == '\u{9}');
    assert(l[1] == '\u{a}');
    assert(l[2] == '\u{b}');
    assert(l[3] == '\u{c}');
    assert(l[4] == '\u{d}');
    assert(l[5] == ' ');
    assert(l[6] == '\u{85}');
    assert(l[7] == '\u{a0}');
    assert(l[8] == '\u{1680}');
    assert(l[9] == '\u{2000}');
    assert(l[10] == '\u{2001}');
    assert(l[11] == '\u{2002}');
    assert(l[12] == '\u{2003}');
    assert(l[13] == '\u{2004}');
    assert(l[14] == '\u{2005}');
    assert(l[15] == '\u{2006}');
    assert(l[16] == '\u{2007}');
    assert(l[17] == '\u{2008}');
    assert(l[18] == '\u{2009}');
    assert(l[19] == '\u{200a}');
    assert(l[20] == '\u{2028}');
    assert(l[21] == '\u{2029}');
    assert(l[22] == '\u{202f}');
    assert(l[23] == '\u{205f}');
    assert(l[24] == '\u{3000}');
    if is_white(c) {
        assert(exists|i: int| 0 <= i < l.len() && l[i] == c) by {
            if '\u{9}' <= c <= '\u{d}' {
                assert(l[c as int - 9] == c);
            } else if '\u{2000}' <= c <= '\u{200a}' {
                assert(l[c as int - 0x2000 + 9] == c);
            }
        }
    }
    if l.contains(c) {
        let i = choose|i: int| 0 <= i < l.len() && l[i] == c;
        assert(i == 0 || i == 1 || i == 2 || i == 3 || i == 4 || i == 5 || i == 6 || i == 7 || i == 8 || i == 9
            || i == 10 || i == 11 || i == 12 || i == 13 || i == 14 || i == 15 || i == 16 || i == 17 || i == 18
            || i == 19 || i == 20 || i == 21 || i == 22 || i == 23 || i == 24);
    }
}

/// White space is taken off the ends of a text, and nothing else is.
pub proof fn law_trim(before: Seq<char>, s: Seq<char>, after: Seq<char>)
    requires
        forall|i: int| 0 <= i < before.len() ==> is_white(#[trigger] before[i]),
        forall|i: int| 0 <= i < after.len() ==> is_white(#[trigger] after[i]),
        ends_clean(s),
    ensures
        trim(before + s + after) == s,
{
    lemma_front(before, s + after);
    assert(before + s + after =~= before + (s + after));
    if s.len() == 0 {
        assert(s + after =~= after);
        lemma_front(after, s);
        assert(after + s =~= after);
        assert(trim_front(Strip::White, s) == s);
        assert(trim_front(Strip::White, after) == s);
        assert(trim_back(Strip::White, s) == s);
    } else {
        assert((s + after)[0] == s[0]);
        assert(trim_front(Strip::White, s + after) == s + after);
        lemma_back(s, after);
    }
}

proof fn lemma_front(before: Seq<char>, s: Seq<char>)
    requires
        forall|i: int| 0 <= i < before.len() ==> is_white(#[trigger] before[i]),
    ensures
        trim_front(Strip::White, before + s) == trim_front(Strip::White, s),
    decreases before.len(),
{
    if before.len() == 0 {
        assert(before + s =~= s);
    } else {
        let b = before.drop_first();
        assert(is_white(before[0]));
        assert forall|i: int| 0 <= i < b.len() implies is_white(#[trigger] b[i]) by {
            assert(is_white(before[i + 1]));
        }
        lemma_front(b, s);
        assert((before + s).drop_first() =~= b + s);
    }
}

proof fn lemma_back(s: Seq<char>, after: Seq<char>)
    requires
        forall|i: int| 0 <= i < after.len() ==> is_white(#[trigger] after[i]),
        s.len() > 0,
        !is_white(s.last()),
    ensures
        trim_back(Strip::White, s + after) == s,
    decreases after.len(),
{
    if after.len() == 0 {
        assert(s + after =~= s);
    } else {
        let a = after.drop_last();
        assert(is_white(after[after.len() - 1]));
        assert forall|i: int| 0 <= i < a.len() implies is_white(#[trigger] a[i]) by {
            assert(is_white(after[i]));
        }
        lemma_back(s, a);
        assert((s + after).drop_last() =~= s + a);
    }
}

/// The small letter of each capital of ASCII stands in the same place of the alphabet, and every other
/// character is its own.
pub proof fn law_small_letters(v: int, c: char)
    requires
        0 <= v < 26,
    ensures
        ascii_lower_char("ABCDEFGHIJKLMNOPQRSTUVWXYZ"@[v]) == "abcdefghijklmnopqrstuvwxyz"@[v],
        !"ABCDEFGHIJKLMNOPQRSTUVWXYZ"@.contains(c) ==> ascii_lower_char(c) == c,
{
    reveal_strlit("ABCDEFGHIJKLMNOPQRSTUVWXYZ");
    reveal_strlit("abcdefghijklmnopqrstuvwxyz");
    let l = "ABCDEFGHIJKLMNOPQRSTUVWXYZ"@;
    assert(v == 0 || v == 1 || v == 2 || v == 3 || v == 4 || v == 5 || v == 6 || v == 7 || v == 8 || v == 9
        || v == 10 || v == 11 || v == 12 || v == 13 || v == 14 || v == 15 || v == 16 || v == 17 || v == 18
        || v == 19 || v == 20 || v == 21 || v == 22 || v == 23 || v == 24 || v == 25);
    if 'A' <= c <= 'Z' {
        let k = c as int - 65;
        assert(k == 0 || k == 1 || k == 2 || k == 3 || k == 4 || k == 5 || k == 6 || k == 7 || k == 8 || k == 9
            || k == 10 || k == 11 || k == 12 || k == 13 || k == 14 || k == 15 || k == 16 || k == 17 || k == 18
            || k == 19 || k == 20 || k == 21 || k == 22 || k == 23 || k == 24 || k == 25);
        assert(l[k] == c);
        assert(l.contains(c));
    }
}

/// The alphabet of base64, and that of names of mailboxes, which has a comma in the place of the slash; a
/// name is read with either.
pub proof fn law_alphabets(v: int)
    requires
        0 <= v < 64,
    ensures
        symbol(v) == "ABCDEFGHIJKLMNOPQRSTUVWXYZabcdefghijklmnopqrstuvwxyz0123456789+/"@[v],
        base64_digit(v as nat) == "ABCDEFGHIJKLMNOPQRSTUVWXYZabcdefghijklmnopqrstuvwxyz0123456789+,"@[v],
        sextet("ABCDEFGHIJKLMNOPQRSTUVWXYZabcdefghijklmnopqrstuvwxyz0123456789+/"@[v]) == Some(v as nat),
        sextet("ABCDEFGHIJKLMNOPQRSTUVWXYZabcdefghijklmnopqrstuvwxyz0123456789+,"@[v]) == Some(v as nat),
{
    reveal_strlit("ABCDEFGHIJKLMNOPQRSTUVWXYZabcdefghijklmnopqrstuvwxyz0123456789+/");
    reveal_strlit("ABCDEFGHIJKLMNOPQRSTUVWXYZabcdefghijklmnopqrstuvwxyz0123456789+,");
    if v < 16 {
        assert(v == 0 || v == 1 || v == 2 || v == 3 || v == 4 || v == 5 || v == 6 || v == 7
            || v == 8 || v == 9 || v == 10 || v == 11 || v == 12 || v == 13 || v == 14
            || v == 15);
    } else if v < 32 {
        assert(v == 16 || v == 17 || v == 18 || v == 19 || v == 20 || v == 21 || v == 22
            || v == 23 || v == 24 || v == 25 || v == 26 || v == 27 || v == 28 || v == 29
            || v == 30 || v == 31);
    } else if v < 48 {
        assert(v == 32 || v == 33 || v == 34 || v == 35 || v == 36 || v == 37 || v == 38
            || v == 39 || v == 40 || v == 41 || v == 42 || v == 43 || v == 44 || v == 45
            || v == 46 || v == 47);
    } else {
        assert(v == 48 || v == 49 || v == 50 || v == 51 || v == 52 || v == 53 || v == 54
            || v == 55 || v == 56 || v == 57 || v == 58 || v == 59 || v == 60 || v == 61
            || v == 62 || v == 63);
    }
}

/// Of two texts that begin alike, the one with the smaller character after that comes first, and a text
/// comes before those that it begins.
pub proof fn law_alphabetical(p: Seq<char>, x: char, y: char, s: Seq<char>, t: Seq<char>)
    ensures
        x != y ==> (not_after(p + seq![x] + s, p + seq![y] + t) <==> x < y),
        not_after(p, p + s),
        s.len() > 0 ==> !not_after(p + s, p),
    decreases p.len(),
{
    let a = p + seq![x] + s;
    let b = p + seq![y] + t;
    if p.len() == 0 {
        assert(a[0] == x && b[0] == y);
    } else {
        let q = p.drop_first();
        law_alphabetical(q, x, y, s, t);
        assert(a.drop_first() =~= q + seq![x] + s);
        assert(b.drop_first() =~= q + seq![y] + t);
        assert(a[0] == p[0] && b[0] == p[0]);
        assert((p + s).drop_first() =~= q + s);
        assert((p + s)[0] == p[0]);
    }
}

/// A line may also end with a carriage return and a line feed, and the last one need not end.
pub proof fn law_line_ends(line: Seq<char>)
    requires
        !line.contains('\n'),
        line.len() > 0,
        line.last() != '\r',
    ensures
        lines(line + seq!['\n']) == seq![line],
        lines(line + seq!['\r', '\n']) == seq![line],
        lines(line) == seq![line],
{
    let none = Seq::<char>::empty();
    lemma_no_sep(line, '\n');
    let a = line.push('\n');
    assert(a.drop_last() =~= line);
    assert(line + seq!['\n'] =~= a);
    assert(split(a, '\n') =~= seq![line, none]);
    assert(seq![line, none].drop_last() =~= seq![line]);
    assert(lines(a) =~= seq![line]);
    let c = line.push('\r');
    assert(!c.contains('\n')) by {
        if c.contains('\n') {
            let i = choose|i: int| 0 <= i < c.len() && c[i] == '\n';
            assert(line[i] == '\n');
        }
    }
    lemma_no_sep(c, '\n');
    let b = c.push('\n');
    assert(b.drop_last() =~= c);
    assert(line + seq!['\r', '\n'] =~= b);
    assert(split(b, '\n') =~= seq![c, none]);
    assert(seq![c, none].drop_last() =~= seq![c]);
    assert(c.drop_last() =~= line);
    assert(strip_cr(c) == line);
    assert(lines(b) =~= seq![line]);
    assert(seq![line].drop_last() =~= Seq::<Seq<char>>::empty());
    assert(lines(line) =~= seq![line]);
}

/// A name of a mailbox is decoded piece by piece: what has no `&` stands for itself, `&-` for an ampersand, and
/// what is no text between `&` and `-` stays as it is.
pub proof fn law_decode_pieces(a: Seq<char>, run: Seq<char>, rest: Seq<char>)
    requires
        !a.contains('&'),
        run.len() > 0,
        !run.contains('-'),
    ensures
        decode(a + rest) == decode(a) + decode(rest),
        decode(seq!['&', '-'] + rest) == seq!['&'] + decode(rest),
        utf16_text(units(octets(sextets(run)))) is None ==> decode(seq!['&'] + run + seq!['-'] + rest)
            == seq!['&'] + run + seq!['-'] + decode(rest),
        utf16_text(units(octets(sextets(run)))) matches Some(t) ==> decode(
            seq!['&'] + run + seq!['-'] + rest,
        ) == t + decode(rest) && decode(seq!['&'] + run) == t,
    decreases a.len(),
{
    let none = Seq::<char>::empty();
    let amp = seq!['&', '-'] + rest;
    assert(amp.skip(2) =~= rest);
    let s = seq!['&'] + run + seq!['-'] + rest;
    assert(run[0] != '-') by {
        if run[0] == '-' {
            assert(run.contains('-'));
        }
    }
    let body = s.drop_first();
    assert(body =~= run + seq!['-'] + rest);
    lemma_run(run, seq!['-'] + rest);
    assert(body =~= run + (seq!['-'] + rest));
    assert(body.take(run.len() as int) =~= run);
    assert(body.skip(run.len() as int + 1) =~= rest);
    assert(s[1] == run[0]);
    let u = seq!['&'] + run;
    assert(u.drop_first() =~= run);
    lemma_run(run, none);
    assert(run + none =~= run);
    assert(run.take(run.len() as int) =~= run);
    assert(u[1] == run[0]);
    assert(decode(none) =~= none);
    assert(shifted(run) + none =~= shifted(run));
    if a.len() == 0 {
        assert(a + rest =~= rest);
        assert(decode(a) + decode(rest) =~= decode(rest));
    } else {
        let b = a.drop_first();
        assert(a[0] != '&') by {
            if a[0] == '&' {
                assert(a.contains('&'));
            }
        }
        if b.contains('&') {
            let i = choose|i: int| 0 <= i < b.len() && b[i] == '&';
            assert(a[i + 1] == '&');
        }
        law_decode_pieces(b, run, rest);
        assert((a + rest).drop_first() =~= b + rest);
        assert(decode(a + rest) =~= decode(a) + decode(rest));
    }
}

proof fn lemma_run(run: Seq<char>, after: Seq<char>)
    requires
        !run.contains('-'),
        after.len() == 0 || after[0] == '-',
    ensures
        run_len(run + after) == run.len(),
    decreases run.len(),
{
    if run.len() == 0 {
        assert(run + after =~= after);
    } else {
        let t = run.drop_first();
        assert(run[0] != '-') by {
            if run[0] == '-' {
                assert(run.contains('-'));
            }
        }
        if t.contains('-') {
            let i = choose|i: int| 0 <= i < t.len() && t[i] == '-';
            assert(run[i + 1] == '-');
        }
        lemma_run(t, after);
        assert((run + after).drop_first() =~= t + after);
    }
}

/// A character within ASCII is read as itself, and another as the bytes of its UTF-8 form.
pub proof fn law_bytes(c: char)
    ensures
        c <= '\u{7f}' ==> bytes_as_chars(c) == seq![c],
        c > '\u{7f}' ==> 2 <= bytes_as_chars(c).len() <= 4 && forall|i: int|
            0 <= i < bytes_as_chars(c).len() ==> 0x80 <= (#[trigger] bytes_as_chars(c)[i]) as int <= 0xff,
        '\u{7f}' < c <= '\u{7ff}' ==> (bytes_as_chars(c)[0] as int - 0xc0) * 64 + (bytes_as_chars(
            c,
        )[1] as int - 0x80) == c as int,
{
}

} // verus!
