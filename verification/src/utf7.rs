//! Mailbox names on the wire: the modified UTF-7 of IMAP.
use vstd::prelude::*;
use vstd::slice::slice_subrange;

use crate::text::{from_chars, to_chars};

verus! {

/// `char::from_u32` gives the character with a number, if the number is a Unicode scalar value.
pub assume_specification[ char::from_u32 ](i: u32) -> (r: Option<char>)
    ensures
        r is Some <==> (i < 0xd800 || 0xe000 <= i <= 0x10ffff),
        r matches Some(c) ==> c as u32 == i,
;

// ---------------------------------------------------------------------------------------------
// Decoding
// ---------------------------------------------------------------------------------------------

/// The value of a base64 digit. The name of a mailbox uses `,` where base64 has `/`; both are read.
pub open spec fn sextet(c: char) -> Option<nat> {
    if 'A' <= c <= 'Z' {
        Some((c as nat - 65) as nat)
    } else if 'a' <= c <= 'z' {
        Some((c as nat - 71) as nat)
    } else if '0' <= c <= '9' {
        Some((c as nat + 4) as nat)
    } else if c == '+' {
        Some(62)
    } else if c == '/' || c == ',' {
        Some(63)
    } else {
        None
    }
}

/// The values of the base64 digits in a text; other characters are passed over.
pub open spec fn sextets(s: Seq<char>) -> Seq<nat>
    decreases s.len(),
{
    if s.len() == 0 {
        Seq::empty()
    } else {
        match sextet(s[0]) {
            Some(v) => seq![v] + sextets(s.drop_first()),
            None => sextets(s.drop_first()),
        }
    }
}

/// The whole bytes in a row of six-bit values.
pub open spec fn octets(v: Seq<nat>) -> Seq<nat>
    decreases v.len(),
{
    if v.len() < 2 {
        Seq::empty()
    } else {
        let a = v[0] * 4 + v[1] / 16;
        if v.len() == 2 {
            seq![a]
        } else {
            let b = (v[1] % 16) * 16 + v[2] / 4;
            if v.len() == 3 {
                seq![a, b]
            } else {
                seq![a, b, (v[2] % 4) * 64 + v[3]] + octets(v.skip(4))
            }
        }
    }
}

/// The whole 16-bit units in a row of bytes, high byte first.
pub open spec fn units(b: Seq<nat>) -> Seq<nat>
    decreases b.len(),
{
    if b.len() < 2 {
        Seq::empty()
    } else {
        seq![b[0] * 256 + b[1]] + units(b.skip(2))
    }
}

/// The text that a row of UTF-16 units stands for, if every surrogate is paired.
pub open spec fn utf16_text(u: Seq<nat>) -> Option<Seq<char>>
    decreases u.len(),
{
    if u.len() == 0 {
        Some(Seq::empty())
    } else if u[0] < 0xd800 || u[0] >= 0xe000 {
        match utf16_text(u.drop_first()) {
            Some(t) => Some(seq![u[0] as char] + t),
            None => None,
        }
    } else if u[0] < 0xdc00 && u.len() > 1 && 0xdc00 <= u[1] < 0xe000 {
        match utf16_text(u.skip(2)) {
            Some(t) => Some(seq![surrogate_pair(u[0], u[1]) as char] + t),
            None => None,
        }
    } else {
        None
    }
}

/// The number of the character that two surrogates stand for.
pub open spec fn surrogate_pair(hi: nat, lo: nat) -> nat {
    (0x10000 + (hi - 0xd800) * 0x400 + (lo - 0xdc00)) as nat
}

/// What stands between `&` and `-`, decoded; if it is no UTF-16 it stays as it is.
pub open spec fn shifted(run: Seq<char>) -> Seq<char> {
    match utf16_text(units(octets(sextets(run)))) {
        Some(t) => t,
        None => seq!['&'] + run + seq!['-'],
    }
}

/// The bytes of a character in UTF-8, each taken as the character with that number.
pub open spec fn bytes_as_chars(c: char) -> Seq<char> {
    let n = c as nat;
    if n < 0x80 {
        seq![c]
    } else if n < 0x800 {
        seq![(0xc0 + n / 64) as char, (0x80 + n % 64) as char]
    } else if n < 0x10000 {
        seq![
            (0xe0 + n / 4096) as char,
            (0x80 + (n / 64) % 64) as char,
            (0x80 + n % 64) as char,
        ]
    } else {
        seq![
            (0xf0 + n / 262144) as char,
            (0x80 + (n / 4096) % 64) as char,
            (0x80 + (n / 64) % 64) as char,
            (0x80 + n % 64) as char,
        ]
    }
}

/// How many characters stand before the first `-`.
pub open spec fn run_len(s: Seq<char>) -> nat
    decreases s.len(),
{
    if s.len() == 0 || s[0] == '-' {
        0
    } else {
        1 + run_len(s.drop_first())
    }
}

/// What follows a run of `k` characters and the `-` that ends it.
pub open spec fn after_run(s: Seq<char>, k: nat) -> Seq<char> {
    if k < s.len() {
        s.skip(k as int + 1)
    } else {
        Seq::empty()
    }
}

/// The mailbox name that a text in modified UTF-7 stands for.
///
/// `&-` is an ampersand, `&` to `-` is base64 of UTF-16, and all else stands for itself. The
/// encoding is ASCII; of a character outside ASCII each byte is read as a character.
pub open spec fn decode(s: Seq<char>) -> Seq<char>
    decreases s.len(),
{
    if s.len() == 0 {
        Seq::empty()
    } else if s[0] != '&' {
        bytes_as_chars(s[0]) + decode(s.drop_first())
    } else if s.len() > 1 && s[1] == '-' {
        seq!['&'] + decode(s.skip(2))
    } else {
        let body = s.drop_first();
        let k = run_len(body);
        shifted(body.take(k as int)) + decode(after_run(body, k))
    }
}

proof fn lemma_run_len(s: Seq<char>)
    ensures
        run_len(s) <= s.len(),
        forall|j: int| 0 <= j < run_len(s) ==> s[j] != '-',
        run_len(s) < s.len() ==> s[run_len(s) as int] == '-',
    decreases s.len(),
{
    if s.len() > 0 && s[0] != '-' {
        let t = s.drop_first();
        lemma_run_len(t);
        assert forall|j: int| 0 <= j < run_len(s) implies s[j] != '-' by {
            if j > 0 {
                assert(s[j] == t[j - 1]);
            }
        }
        if run_len(s) < s.len() {
            assert(s[run_len(s) as int] == t[run_len(t) as int]);
        }
    }
}

proof fn lemma_run_len_is(s: Seq<char>, k: nat)
    requires
        k <= s.len(),
        forall|j: int| 0 <= j < k ==> s[j] != '-',
        k < s.len() ==> s[k as int] == '-',
    ensures
        run_len(s) == k,
    decreases s.len(),
{
    if k > 0 {
        let t = s.drop_first();
        assert(s[0] != '-');
        assert forall|j: int| 0 <= j < k - 1 implies t[j] != '-' by {
            assert(t[j] == s[j + 1]);
        }
        lemma_run_len_is(t, (k - 1) as nat);
    }
}

spec fn nats8(b: Seq<u8>) -> Seq<nat> {
    b.map_values(|x: u8| x as nat)
}

spec fn nats16(b: Seq<u16>) -> Seq<nat> {
    b.map_values(|x: u16| x as nat)
}

fn sextet_of(c: char) -> (r: Option<u8>)
    ensures
        match r {
            Some(v) => sextet(c) == Some(v as nat) && v < 64,
            None => sextet(c) is None,
        },
{
    if 'A' <= c && c <= 'Z' {
        Some(c as u8 - 65)
    } else if 'a' <= c && c <= 'z' {
        Some(c as u8 - 71)
    } else if '0' <= c && c <= '9' {
        Some(c as u8 + 4)
    } else if c == '+' {
        Some(62)
    } else if c == '/' || c == ',' {
        Some(63)
    } else {
        None
    }
}

fn sextets_of(v: &[char]) -> (r: Vec<u8>)
    ensures
        nats8(r@) == sextets(v@),
        forall|j: int| 0 <= j < r@.len() ==> r@[j] < 64,
{
    let mut out: Vec<u8> = Vec::new();
    let mut i: usize = 0;
    assert(v@.skip(0) =~= v@);
    assert(nats8(out@) + sextets(v@) =~= sextets(v@));
    while i < v.len()
        invariant
            i <= v@.len(),
            nats8(out@) + sextets(v@.skip(i as int)) == sextets(v@),
            forall|j: int| 0 <= j < out@.len() ==> out@[j] < 64,
        decreases v@.len() - i,
    {
        let ghost out0 = out@;
        assert(v@.skip(i as int).drop_first() =~= v@.skip(i + 1));
        if let Some(x) = sextet_of(v[i]) {
            out.push(x);
            assert(nats8(out@) =~= nats8(out0).push(x as nat));
            assert(nats8(out0) + (seq![x as nat] + sextets(v@.skip(i + 1))) =~= nats8(out@)
                + sextets(v@.skip(i + 1)));
        }
        i += 1;
    }
    assert(v@.skip(i as int) =~= Seq::<char>::empty());
    assert(nats8(out@) + sextets(v@.skip(i as int)) =~= nats8(out@));
    out
}

fn octets_of(v: &[u8]) -> (r: Vec<u8>)
    requires
        forall|j: int| 0 <= j < v@.len() ==> v@[j] < 64,
    ensures
        nats8(r@) == octets(nats8(v@)),
{
    let mut out: Vec<u8> = Vec::new();
    let mut i: usize = 0;
    let n: usize = v.len();
    let ghost w = nats8(v@);
    assert(w.skip(0) =~= w);
    assert(nats8(out@) + octets(w) =~= octets(w));
    while n - i >= 4
        invariant
            n == v@.len(),
            i <= n,
            w == nats8(v@),
            forall|j: int| 0 <= j < v@.len() ==> v@[j] < 64,
            nats8(out@) + octets(w.skip(i as int)) == octets(w),
        decreases n - i,
    {
        let ghost out0 = out@;
        let ghost rest = w.skip(i as int);
        let a: u8 = v[i] * 4 + v[i + 1] / 16;
        let b: u8 = (v[i + 1] % 16) * 16 + v[i + 2] / 4;
        let c: u8 = (v[i + 2] % 4) * 64 + v[i + 3];
        out.push(a);
        out.push(b);
        out.push(c);
        proof {
            assert(rest.skip(4) =~= w.skip(i + 4));
            assert(octets(rest) == seq![a as nat, b as nat, c as nat] + octets(rest.skip(4)));
            assert(nats8(out@) =~= nats8(out0) + seq![a as nat, b as nat, c as nat]);
            assert(nats8(out0) + (seq![a as nat, b as nat, c as nat] + octets(w.skip(i + 4)))
                =~= nats8(out@) + octets(w.skip(i + 4)));
        }
        i += 4;
    }
    let ghost rest = w.skip(i as int);
    let ghost out0 = out@;
    if n - i >= 2 {
        let a: u8 = v[i] * 4 + v[i + 1] / 16;
        out.push(a);
        if n - i == 3 {
            let b: u8 = (v[i + 1] % 16) * 16 + v[i + 2] / 4;
            out.push(b);
            assert(octets(rest) =~= seq![a as nat, b as nat]);
            assert(nats8(out@) =~= nats8(out0) + seq![a as nat, b as nat]);
        } else {
            assert(octets(rest) =~= seq![a as nat]);
            assert(nats8(out@) =~= nats8(out0) + seq![a as nat]);
        }
    } else {
        assert(octets(rest) =~= Seq::<nat>::empty());
        assert(nats8(out@) =~= nats8(out0) + octets(rest));
    }
    out
}

fn units_of(b: &[u8]) -> (r: Vec<u16>)
    ensures
        nats16(r@) == units(nats8(b@)),
{
    let mut out: Vec<u16> = Vec::new();
    let mut i: usize = 0;
    let n: usize = b.len();
    let ghost w = nats8(b@);
    assert(w.skip(0) =~= w);
    assert(nats16(out@) + units(w) =~= units(w));
    while n - i >= 2
        invariant
            n == b@.len(),
            i <= n,
            w == nats8(b@),
            nats16(out@) + units(w.skip(i as int)) == units(w),
        decreases n - i,
    {
        let ghost out0 = out@;
        let ghost rest = w.skip(i as int);
        let u: u16 = b[i] as u16 * 256 + b[i + 1] as u16;
        out.push(u);
        proof {
            assert(rest.skip(2) =~= w.skip(i + 2));
            assert(nats16(out@) =~= nats16(out0) + seq![u as nat]);
            assert(nats16(out0) + (seq![u as nat] + units(w.skip(i + 2))) =~= nats16(out@)
                + units(w.skip(i + 2)));
        }
        i += 2;
    }
    assert(units(w.skip(i as int)) =~= Seq::<nat>::empty());
    assert(nats16(out@) + units(w.skip(i as int)) =~= nats16(out@));
    out
}

fn utf16_text_of(u: &[u16]) -> (r: Option<Vec<char>>)
    ensures
        match r {
            Some(t) => utf16_text(nats16(u@)) == Some(t@),
            None => utf16_text(nats16(u@)) is None,
        },
{
    let mut out: Vec<char> = Vec::new();
    let mut i: usize = 0;
    let n: usize = u.len();
    let ghost w = nats16(u@);
    assert(w.skip(0) =~= w);
    proof {
        if let Some(t) = utf16_text(w) {
            assert(out@ + t =~= t);
        }
    }
    while i < n
        invariant
            n == u@.len(),
            i <= n,
            w == nats16(u@),
            match utf16_text(w.skip(i as int)) {
                Some(t) => utf16_text(w) == Some(out@ + t),
                None => utf16_text(w) is None,
            },
        decreases n - i,
    {
        let ghost out0 = out@;
        let ghost rest = w.skip(i as int);
        let x: u32 = u[i] as u32;
        assert(rest[0] == x as nat);
        let mut step: usize = 1;
        let mut code: u32 = x;
        if 0xd800 <= x && x < 0xe000 {
            if x >= 0xdc00 || i + 1 >= n {
                return None;
            }
            let y: u32 = u[i + 1] as u32;
            assert(rest[1] == y as nat);
            if y < 0xdc00 || y >= 0xe000 {
                return None;
            }
            code = 0x10000 + (x - 0xd800) * 0x400 + (y - 0xdc00);
            step = 2;
            assert(rest.skip(2) =~= w.skip(i + 2));
            assert(code as nat == surrogate_pair(rest[0], rest[1]));
        } else {
            assert(rest.drop_first() =~= w.skip(i + 1));
        }
        match char::from_u32(code) {
            Some(c) => {
                out.push(c);
                proof {
                    vstd::utf8::char_u32_cast(c, code);
                    if let Some(t) = utf16_text(w.skip(i + step)) {
                        assert(out0 + (seq![c] + t) =~= out@ + t);
                    }
                }
            },
            None => {
                assert(false);
            },
        }
        i += step;
    }
    assert(w.skip(i as int) =~= Seq::<nat>::empty());
    assert(out@ + Seq::<char>::empty() =~= out@);
    Some(out)
}

/// `shifted`, computed.
fn shifted_of(run: &[char]) -> (r: Vec<char>)
    ensures
        r@ == shifted(run@),
{
    let six = sextets_of(run);
    let eight = octets_of(&six);
    let sixteen = units_of(&eight);
    match utf16_text_of(&sixteen) {
        Some(t) => t,
        None => {
            let mut out: Vec<char> = Vec::new();
            out.push('&');
            push_all(&mut out, run);
            out.push('-');
            assert(out@ =~= seq!['&'] + run@ + seq!['-']);
            out
        },
    }
}

fn push_all(out: &mut Vec<char>, v: &[char])
    ensures
        final(out)@ == old(out)@ + v@,
{
    let mut i: usize = 0;
    let ghost start = out@;
    assert(start + v@.take(0) =~= start);
    while i < v.len()
        invariant
            i <= v@.len(),
            out@ == start + v@.take(i as int),
        decreases v@.len() - i,
    {
        out.push(v[i]);
        i += 1;
        assert(out@ =~= start + v@.take(i as int));
    }
    assert(v@.take(i as int) =~= v@);
}

fn push_bytes_of(out: &mut Vec<char>, c: char)
    ensures
        final(out)@ == old(out)@ + bytes_as_chars(c),
{
    let n: u32 = c as u32;
    let ghost start = out@;
    if n < 0x80 {
        out.push(c);
    } else if n < 0x800 {
        out.push((0xc0 + n / 64) as u8 as char);
        out.push((0x80 + n % 64) as u8 as char);
    } else if n < 0x10000 {
        out.push((0xe0 + n / 4096) as u8 as char);
        out.push((0x80 + (n / 64) % 64) as u8 as char);
        out.push((0x80 + n % 64) as u8 as char);
    } else {
        out.push((0xf0 + n / 262144) as u8 as char);
        out.push((0x80 + (n / 4096) % 64) as u8 as char);
        out.push((0x80 + (n / 64) % 64) as u8 as char);
        out.push((0x80 + n % 64) as u8 as char);
    }
    assert(out@ =~= start + bytes_as_chars(c));
}

/// Decodes the name of a mailbox from modified UTF-7.
pub fn decode_imap_utf7(input: &str) -> (r: String)
    ensures
        r@ == decode(input@),
{
    let v = to_chars(input);
    let n: usize = v.len();
    let mut out: Vec<char> = Vec::new();
    let mut i: usize = 0;
    let ghost s = input@;
    assert(s.skip(0) =~= s);
    assert(out@ + decode(s) =~= decode(s));
    while i < n
        invariant
            n == v@.len(),
            v@ == s,
            i <= n,
            out@ + decode(s.skip(i as int)) == decode(s),
        decreases n - i,
    {
        let ghost out0 = out@;
        let ghost rest = s.skip(i as int);
        if v[i] != '&' {
            push_bytes_of(&mut out, v[i]);
            i += 1;
            proof {
                assert(rest.drop_first() =~= s.skip(i as int));
                assert(out0 + (bytes_as_chars(rest[0]) + decode(s.skip(i as int))) =~= out@
                    + decode(s.skip(i as int)));
            }
        } else if i + 1 < n && v[i + 1] == '-' {
            out.push('&');
            i += 2;
            proof {
                assert(rest.skip(2) =~= s.skip(i as int));
                assert(out0 + (seq!['&'] + decode(s.skip(i as int))) =~= out@ + decode(
                    s.skip(i as int),
                ));
            }
        } else {
            let start: usize = i + 1;
            let mut end: usize = start;
            while end < n && v[end] != '-'
                invariant
                    start <= end <= n,
                    n == v@.len(),
                    forall|j: int| start <= j < end ==> v@[j] != '-',
                decreases n - end,
            {
                end += 1;
            }
            let run = slice_subrange(v.as_slice(), start, end);
            let ghost body = rest.drop_first();
            let ghost k = (end - start) as nat;
            proof {
                assert forall|j: int| 0 <= j < k implies body[j] != '-' by {
                    assert(body[j] == v@[start + j]);
                }
                if k < body.len() {
                    assert(body[k as int] == v@[end as int]);
                }
                lemma_run_len_is(body, k);
                assert(run@ =~= body.take(k as int));
            }
            let text = shifted_of(run);
            push_all(&mut out, &text);
            i = if end < n { end + 1 } else { end };
            proof {
                assert(after_run(body, k) =~= s.skip(i as int));
                assert(out0 + (shifted(body.take(k as int)) + decode(s.skip(i as int))) =~= out@
                    + decode(s.skip(i as int)));
            }
        }
    }
    assert(s.skip(i as int) =~= Seq::<char>::empty());
    assert(out@ + decode(s.skip(i as int)) =~= out@);
    from_chars(&out)
}

// ---------------------------------------------------------------------------------------------
// Encoding, and what decoding gives back
// ---------------------------------------------------------------------------------------------

/// The base64 digit of a six-bit value, with `,` in the place of `/`.
pub open spec fn base64_digit(v: nat) -> char {
    if v < 26 {
        (v + 65) as char
    } else if v < 52 {
        (v + 71) as char
    } else if v < 62 {
        (v - 4) as char
    } else if v == 62 {
        '+'
    } else {
        ','
    }
}

/// The six-bit values of a row of bytes, the last one filled up with zero bits.
pub open spec fn six_bits(b: Seq<nat>) -> Seq<nat>
    decreases b.len(),
{
    if b.len() == 0 {
        Seq::empty()
    } else if b.len() == 1 {
        seq![b[0] / 4, (b[0] % 4) * 16]
    } else if b.len() == 2 {
        seq![b[0] / 4, (b[0] % 4) * 16 + b[1] / 16, (b[1] % 16) * 4]
    } else {
        seq![b[0] / 4, (b[0] % 4) * 16 + b[1] / 16, (b[1] % 16) * 4 + b[2] / 64, b[2] % 64]
            + six_bits(b.skip(3))
    }
}

/// The bytes of a row of 16-bit units, high byte first.
pub open spec fn unit_bytes(u: Seq<nat>) -> Seq<nat>
    decreases u.len(),
{
    if u.len() == 0 {
        Seq::empty()
    } else {
        seq![u[0] / 256, u[0] % 256] + unit_bytes(u.drop_first())
    }
}

/// The UTF-16 units of a text.
pub open spec fn utf16_units(t: Seq<char>) -> Seq<nat>
    decreases t.len(),
{
    if t.len() == 0 {
        Seq::empty()
    } else {
        let n = t[0] as nat;
        let head = if n < 0x10000 {
            seq![n]
        } else {
            let m = (n - 0x10000) as nat;
            seq![0xd800 + m / 0x400, 0xdc00 + m % 0x400]
        };
        head + utf16_units(t.drop_first())
    }
}

/// A character that stands for itself in modified UTF-7.
pub open spec fn is_direct(c: char) -> bool {
    ' ' <= c <= '~' && c != '&'
}

/// How many characters at the front have to be encoded.
pub open spec fn shift_len(s: Seq<char>) -> nat
    decreases s.len(),
{
    if s.len() == 0 || is_direct(s[0]) || s[0] == '&' {
        0
    } else {
        1 + shift_len(s.drop_first())
    }
}

/// The base64 digits of a text in UTF-16.
pub open spec fn base64_utf16(t: Seq<char>) -> Seq<char> {
    six_bits(unit_bytes(utf16_units(t))).map_values(|v: nat| base64_digit(v))
}

/// The modified UTF-7 of a mailbox name (RFC 3501).
pub open spec fn encode(s: Seq<char>) -> Seq<char>
    decreases s.len(),
{
    if s.len() == 0 {
        Seq::empty()
    } else if is_direct(s[0]) {
        seq![s[0]] + encode(s.drop_first())
    } else if s[0] == '&' {
        seq!['&', '-'] + encode(s.drop_first())
    } else {
        let k = shift_len(s);
        proof {
            lemma_shift_len(s);
        }
        seq!['&'] + base64_utf16(s.take(k as int)) + seq!['-'] + encode(s.skip(k as int))
    }
}

/// The characters to encode are characters of the text.
pub proof fn lemma_shift_len(s: Seq<char>)
    ensures
        shift_len(s) <= s.len(),
    decreases s.len(),
{
    if s.len() > 0 {
        lemma_shift_len(s.drop_first());
    }
}

proof fn lemma_digits_back(v: Seq<nat>)
    requires
        forall|i: int| 0 <= i < v.len() ==> v[i] < 64,
    ensures
        sextets(v.map_values(|x: nat| base64_digit(x))) == v,
    decreases v.len(),
{
    let d = v.map_values(|x: nat| base64_digit(x));
    if v.len() > 0 {
        let t = v.drop_first();
        lemma_digits_back(t);
        assert(d.drop_first() =~= t.map_values(|x: nat| base64_digit(x)));
        assert(v[0] < 64);
        assert(sextet(base64_digit(v[0])) == Some(v[0]));
        assert(seq![v[0]] + t =~= v);
    } else {
        assert(d =~= Seq::<char>::empty());
        assert(v =~= Seq::<nat>::empty());
    }
}

proof fn lemma_six_bits(b: Seq<nat>)
    requires
        forall|i: int| 0 <= i < b.len() ==> b[i] < 256,
    ensures
        octets(six_bits(b)) == b,
        forall|i: int| 0 <= i < six_bits(b).len() ==> six_bits(b)[i] < 64,
    decreases b.len(),
{
    let v = six_bits(b);
    if b.len() == 0 {
        assert(octets(v) =~= b);
    } else if b.len() == 1 {
        assert(octets(v) =~= b);
    } else if b.len() == 2 {
        assert(octets(v) =~= b);
    } else {
        let t = b.skip(3);
        assert forall|i: int| 0 <= i < t.len() implies t[i] < 256 by {
            assert(t[i] == b[i + 3]);
        }
        lemma_six_bits(t);
        assert(b[0] < 256 && b[1] < 256 && b[2] < 256);
        assert(v.skip(4) =~= six_bits(t));
        assert(octets(v) =~= seq![b[0], b[1], b[2]] + octets(v.skip(4)));
        assert(seq![b[0], b[1], b[2]] + t =~= b);
        assert forall|i: int| 0 <= i < v.len() implies v[i] < 64 by {
            if i >= 4 {
                assert(v[i] == six_bits(t)[i - 4]);
            }
        }
    }
}

proof fn lemma_unit_bytes(u: Seq<nat>)
    requires
        forall|i: int| 0 <= i < u.len() ==> u[i] < 65536,
    ensures
        units(unit_bytes(u)) == u,
        forall|i: int| 0 <= i < unit_bytes(u).len() ==> unit_bytes(u)[i] < 256,
    decreases u.len(),
{
    let b = unit_bytes(u);
    if u.len() == 0 {
        assert(units(b) =~= u);
    } else {
        let t = u.drop_first();
        assert forall|i: int| 0 <= i < t.len() implies t[i] < 65536 by {
            assert(t[i] == u[i + 1]);
        }
        lemma_unit_bytes(t);
        assert(u[0] < 65536);
        assert(b.skip(2) =~= unit_bytes(t));
        assert(seq![u[0]] + t =~= u);
        assert forall|i: int| 0 <= i < b.len() implies b[i] < 256 by {
            if i >= 2 {
                assert(b[i] == unit_bytes(t)[i - 2]);
            }
        }
    }
}

proof fn lemma_utf16_units(t: Seq<char>)
    ensures
        utf16_text(utf16_units(t)) == Some(t),
        forall|i: int| 0 <= i < utf16_units(t).len() ==> utf16_units(t)[i] < 65536,
    decreases t.len(),
{
    let u = utf16_units(t);
    if t.len() == 0 {
        assert(t =~= Seq::<char>::empty());
    } else {
        let rest = t.drop_first();
        lemma_utf16_units(rest);
        let n = t[0] as nat;
        assert(seq![t[0]] + rest =~= t);
        let c: char = t[0];
        vstd::utf8::char_is_scalar(c);
        vstd::utf8::char_u32_cast(c, c as u32);
        if n < 0x10000 {
            assert(u.drop_first() =~= utf16_units(rest));
            assert(u[0] as char == t[0]);
        } else {
            assert(u.skip(2) =~= utf16_units(rest));
            let m = (n - 0x10000) as nat;
            assert(surrogate_pair(u[0], u[1]) == n) by {
                assert(u[0] == 0xd800 + m / 0x400);
                assert(u[1] == 0xdc00 + m % 0x400);
                assert((m / 0x400) * 0x400 + m % 0x400 == m);
            }
            assert(surrogate_pair(u[0], u[1]) as char == t[0]);
        }
        let skip: int = if n < 0x10000 { 1 } else { 2 };
        assert forall|i: int| 0 <= i < u.len() implies u[i] < 65536 by {
            if i >= skip {
                assert(u[i] == utf16_units(rest)[i - skip]);
            }
        }
    }
}

proof fn lemma_base64_utf16(t: Seq<char>)
    ensures
        shifted(base64_utf16(t)) == t,
        forall|i: int|
            0 <= i < base64_utf16(t).len() ==> #[trigger] base64_utf16(t)[i] != '-',
        t.len() > 0 ==> base64_utf16(t).len() > 0,
{
    let u = utf16_units(t);
    let b = unit_bytes(u);
    let v = six_bits(b);
    lemma_utf16_units(t);
    lemma_unit_bytes(u);
    lemma_six_bits(b);
    lemma_digits_back(v);
    assert forall|i: int| 0 <= i < base64_utf16(t).len() implies #[trigger] base64_utf16(t)[i]
        != '-' by {
        assert(base64_utf16(t)[i] == base64_digit(v[i]));
        assert(v[i] < 64);
    }
}

/// Decoding gives back every mailbox name that was encoded.
pub proof fn law_decode_encode(s: Seq<char>)
    ensures
        decode(encode(s)) == s,
    decreases s.len(),
{
    let e = encode(s);
    if s.len() == 0 {
        assert(s =~= Seq::<char>::empty());
    } else if is_direct(s[0]) {
        let t = s.drop_first();
        law_decode_encode(t);
        assert(e.drop_first() =~= encode(t));
        assert(seq![s[0]] + t =~= s);
    } else if s[0] == '&' {
        let t = s.drop_first();
        law_decode_encode(t);
        assert(e.skip(2) =~= encode(t));
        assert(seq!['&'] + t =~= s);
    } else {
        lemma_shift_len(s);
        let k = shift_len(s);
        let head = s.take(k as int);
        let rest = s.skip(k as int);
        let run = base64_utf16(head);
        lemma_base64_utf16(head);
        law_decode_encode(rest);
        let body = e.drop_first();
        assert(body =~= run + seq!['-'] + encode(rest));
        assert forall|j: int| 0 <= j < run.len() implies body[j] != '-' by {
            assert(body[j] == run[j]);
        }
        lemma_run_len_is(body, run.len());
        assert(body.take(run.len() as int) =~= run);
        assert(after_run(body, run.len()) =~= encode(rest));
        assert(e[1] == run[0]);
        assert(head + rest =~= s);
    }
}

proof fn lemma_ascii_byte(c: char)
    requires
        c <= '\u{7f}',
    ensures
        bytes_as_chars(c) == seq![c],
{
}

/// A name of ASCII characters without `&` stands for itself.
pub proof fn law_plain_name(s: Seq<char>)
    requires
        forall|i: int| 0 <= i < s.len() ==> s[i] <= '\u{7f}' && s[i] != '&',
    ensures
        decode(s) == s,
    decreases s.len(),
{
    if s.len() > 0 {
        let t = s.drop_first();
        assert forall|i: int| 0 <= i < t.len() implies t[i] <= '\u{7f}' && t[i] != '&' by {
            assert(t[i] == s[i + 1]);
        }
        law_plain_name(t);
        lemma_ascii_byte(s[0]);
        assert(seq![s[0]] + t =~= s);
    } else {
        assert(s =~= Seq::<char>::empty());
    }
}

} // verus!
