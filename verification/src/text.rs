//! Text building: characters, case folding, and numbers written in
//! hexadecimal and decimal the way the console shows them.

use vstd::prelude::*;
use vstd::string::StringExecFns;

verus! {

/// `String::push` of the standard library: appends one character, and the
/// characters already there stay in place.
#[verifier::external_body]
pub(crate) fn push_char(s: &mut String, c: char)
    ensures
        final(s)@ == old(s)@.push(c),
{
    s.push(c);
}

/// The characters of `s`, in order.
pub fn chars_of(s: &str) -> (r: Vec<char>)
    ensures
        r@ == s@,
{
    let mut out: Vec<char> = Vec::new();
    for c in it: s.chars()
        invariant
            out@ == it.seq().take(it.index() as int),
    {
        out.push(c);
    }
    out
}

/// Appends `chars[from..to]` to `s`.
pub fn push_chars(s: &mut String, chars: &Vec<char>, from: usize, to: usize)
    requires
        from <= to <= chars.len(),
    ensures
        final(s)@ == old(s)@ + chars@.subrange(from as int, to as int),
{
    let mut i: usize = from;
    while i < to
        invariant
            from <= i <= to <= chars.len(),
            s@ == old(s)@ + chars@.subrange(from as int, i as int),
        decreases to - i,
    {
        push_char(s, chars[i]);
        i = i + 1;
    }
}

/// The string made of `chars[from..to]`.
pub fn string_of(chars: &Vec<char>, from: usize, to: usize) -> (r: String)
    requires
        from <= to <= chars.len(),
    ensures
        r@ == chars@.subrange(from as int, to as int),
{
    let mut s = String::new();
    push_chars(&mut s, chars, from, to);
    s
}

/// Appends `t` to `s`.
pub fn push_str(s: &mut String, t: &str)
    ensures
        final(s)@ == old(s)@ + t@,
{
    s.append(t);
}

/// `c` with the letters `A`..`Z` mapped to `a`..`z`.
pub open spec fn lower_char(c: char) -> char {
    if 'A' <= c && c <= 'Z' {
        ((c as u32 + 32) as char)
    } else {
        c
    }
}

/// `s` with every ASCII capital folded to its small letter.
pub open spec fn lower_seq(s: Seq<char>) -> Seq<char> {
    Seq::new(s.len(), |i: int| lower_char(s[i]))
}

/// `c` as a small letter, if it is an ASCII capital.
pub fn ascii_lower(c: char) -> (r: char)
    ensures
        r == lower_char(c),
{
    if c >= 'A' && c <= 'Z' {
        let v: u32 = c as u32 + 32;
        let b: u8 = v as u8;
        b as char
    } else {
        c
    }
}

/// The lower-case form of `s` (ASCII letters only; other characters stay).
pub fn to_lower(s: &str) -> (r: Vec<char>)
    ensures
        r@ == lower_seq(s@),
{
    let src = chars_of(s);
    let mut out: Vec<char> = Vec::new();
    let mut i: usize = 0;
    while i < src.len()
        invariant
            i <= src.len(),
            src@ == s@,
            out@ == lower_seq(s@).take(i as int),
        decreases src.len() - i,
    {
        out.push(ascii_lower(src[i]));
        assert(out@ =~= lower_seq(s@).take(i + 1));
        i = i + 1;
    }
    assert(out@ =~= lower_seq(s@));
    out
}

/// Whether two character sequences are the same.
pub fn chars_equal(x: &Vec<char>, y: &Vec<char>) -> (r: bool)
    ensures
        r == (x@ == y@),
{
    if x.len() != y.len() {
        return false;
    }
    let mut i: usize = 0;
    while i < x.len()
        invariant
            i <= x.len(),
            x.len() == y.len(),
            forall|j: int| 0 <= j < i ==> x@[j] == y@[j],
        decreases x.len() - i,
    {
        if x[i] != y[i] {
            return false;
        }
        i = i + 1;
    }
    assert(x@ =~= y@);
    true
}

/// The character of one hexadecimal digit.
pub open spec fn hex_digit(d: int, upper: bool) -> char {
    if d < 10 {
        ((48 + d) as u8) as char
    } else if upper {
        ((55 + d) as u8) as char
    } else {
        ((87 + d) as u8) as char
    }
}

/// `v` in hexadecimal without leading zeros (one `0` for zero).
pub open spec fn hex_digits(v: nat, upper: bool) -> Seq<char>
    decreases v,
{
    if v < 16 {
        seq![hex_digit(v as int, upper)]
    } else {
        hex_digits(v / 16, upper).push(hex_digit((v % 16) as int, upper))
    }
}

/// `v` in decimal without leading zeros.
pub open spec fn dec_digits(v: nat) -> Seq<char>
    decreases v,
{
    if v < 10 {
        seq![((48 + v) as u8) as char]
    } else {
        dec_digits(v / 10).push(((48 + v % 10) as u8) as char)
    }
}

/// `s` filled on the left with `fill` up to `width` characters.
pub open spec fn pad_left(s: Seq<char>, width: nat, fill: char) -> Seq<char> {
    if s.len() >= width {
        s
    } else {
        Seq::new((width - s.len()) as nat, |i: int| fill) + s
    }
}

/// The character of the hexadecimal digit `d`.
fn hex_char(d: u8, upper: bool) -> (c: char)
    requires
        d < 16,
    ensures
        c == hex_digit(d as int, upper),
{
    if d < 10 {
        (48 + d) as char
    } else if upper {
        (55 + d) as char
    } else {
        (87 + d) as char
    }
}

/// The digits of `v` in base 10 or 16, highest first.
fn digits_of(v: u64, base: u64, upper: bool) -> (out: Vec<char>)
    requires
        base == 16 || base == 10,
    ensures
        base == 16 ==> out@ == hex_digits(v as nat, upper),
        base == 10 ==> out@ == dec_digits(v as nat),
{
    let mut out: Vec<char> = Vec::new();
    let mut cur: u64 = v;
    while cur >= base
        invariant
            base == 16 || base == 10,
            base == 16 ==> hex_digits(v as nat, upper) == hex_digits(cur as nat, upper) + out@,
            base == 10 ==> dec_digits(v as nat) == dec_digits(cur as nat) + out@,
        decreases cur,
    {
        let d: u8 = (cur % base) as u8;
        let c: char = if base == 16 {
            hex_char(d, upper)
        } else {
            (48 + d) as char
        };
        let ghost prev = out@;
        out.insert(0, c);
        proof {
            assert(out@ =~= seq![c] + prev);
            if base == 16 {
                assert(hex_digits(cur as nat, upper) + prev =~= hex_digits((cur / 16) as nat, upper)
                    + out@);
            } else {
                assert(dec_digits(cur as nat) + prev =~= dec_digits((cur / 10) as nat) + out@);
            }
        }
        cur = cur / base;
    }
    let d: u8 = cur as u8;
    let c: char = if base == 16 {
        hex_char(d, upper)
    } else {
        (48 + d) as char
    };
    let ghost prev = out@;
    out.insert(0, c);
    proof {
        assert(out@ =~= seq![c] + prev);
    }
    out
}

/// Appends `digits`, filled on the left with `fill` up to `width` characters.
fn push_padded(s: &mut String, digits: &Vec<char>, width: usize, fill: char)
    ensures
        final(s)@ == old(s)@ + pad_left(digits@, width as nat, fill),
{
    let ghost padding = Seq::new((width - digits.len()) as nat, |i: int| fill);
    let mut i: usize = digits.len();
    while i < width
        invariant
            digits.len() <= i <= width || (i == digits.len() && width < i),
            digits.len() < width ==> s@ == old(s)@ + padding.take(i - digits.len()),
            digits.len() >= width ==> s@ == old(s)@,
            padding == Seq::new((width - digits.len()) as nat, |i: int| fill),
        decreases width - i,
    {
        push_char(s, fill);
        assert(s@ =~= old(s)@ + padding.take(i + 1 - digits.len()));
        i = i + 1;
    }
    push_chars(s, digits, 0, digits.len());
    proof {
        assert(digits@.subrange(0, digits.len() as int) =~= digits@);
        if digits.len() < width {
            assert(padding.take(width - digits.len()) =~= padding);
            assert(s@ =~= old(s)@ + (padding + digits@));
        }
    }
}

/// Appends `v` in hexadecimal, zero-filled on the left to `width` digits.
pub fn push_hex(s: &mut String, v: u64, width: usize, upper: bool)
    ensures
        final(s)@ == old(s)@ + pad_left(hex_digits(v as nat, upper), width as nat, '0'),
{
    let digits = digits_of(v, 16, upper);
    push_padded(s, &digits, width, '0');
}

/// Appends `v` in decimal, filled with spaces on the left to `width` characters.
pub fn push_dec(s: &mut String, v: u64, width: usize)
    ensures
        final(s)@ == old(s)@ + pad_left(dec_digits(v as nat), width as nat, ' '),
{
    let digits = digits_of(v, 10, false);
    push_padded(s, &digits, width, ' ');
}

/// The index of the last `c` in `s`, or -1.
pub open spec fn last_index(s: Seq<char>, c: char) -> int
    decreases s.len(),
{
    if s.len() == 0 {
        -1
    } else if s.last() == c {
        s.len() - 1
    } else {
        last_index(s.drop_last(), c)
    }
}

/// The index of the first `c` in `s`, or the length of `s`.
pub open spec fn first_index(s: Seq<char>, c: char, from: int) -> int
    decreases s.len() - from,
{
    if from < 0 || from >= s.len() {
        s.len() as int
    } else if s[from] == c {
        from
    } else {
        first_index(s, c, from + 1)
    }
}

/// The place `k` is that of the last `c` if no `c` follows it.
proof fn lemma_last_index_is(s: Seq<char>, c: char, k: int)
    requires
        -1 <= k < s.len(),
        k >= 0 ==> s[k] == c,
        forall|j: int| k < j < s.len() ==> s[j] != c,
    ensures
        last_index(s, c) == k,
    decreases s.len(),
{
    if s.len() == 0 {
    } else if s.last() == c {
    } else {
        assert forall|j: int| k < j < s.drop_last().len() implies s.drop_last()[j] != c by {
            assert(s.drop_last()[j] == s[j]);
        }
        lemma_last_index_is(s.drop_last(), c, k);
    }
}

/// The place of the last `c` in `chars`.
pub fn find_last(chars: &Vec<char>, c: char) -> (r: Option<usize>)
    ensures
        match r {
            Some(i) => i == last_index(chars@, c) && i < chars.len(),
            None => last_index(chars@, c) == -1,
        },
{
    let mut i: usize = chars.len();
    while i > 0
        invariant
            i <= chars.len(),
            forall|j: int| i <= j < chars.len() ==> chars@[j] != c,
        decreases i,
    {
        i = i - 1;
        if chars[i] == c {
            proof {
                lemma_last_index_is(chars@, c, i as int);
            }
            return Some(i);
        }
    }
    proof {
        lemma_last_index_is(chars@, c, -1);
    }
    None
}

/// The place of the first `c` in `chars` at or after `from`, or the length of `chars`.
pub fn find_first(chars: &Vec<char>, c: char, from: usize) -> (r: usize)
    ensures
        r == first_index(chars@, c, from as int),
        from <= chars.len() ==> from <= r <= chars.len(),
{
    let mut i: usize = from;
    while i < chars.len() && chars[i] != c
        invariant
            from <= i,
            from <= chars.len() ==> i <= chars.len(),
            first_index(chars@, c, from as int) == first_index(chars@, c, i as int),
        decreases chars.len() - i,
    {
        i = i + 1;
    }
    if i >= chars.len() {
        chars.len()
    } else {
        i
    }
}

/// Whether `a[from_a..to_a]` and `b` are the same when ASCII capitals
/// count as their small letters.
pub fn eq_ignore_case(a: &Vec<char>, from_a: usize, to_a: usize, b: &Vec<char>) -> (r: bool)
    requires
        from_a <= to_a <= a.len(),
    ensures
        r == (lower_seq(a@.subrange(from_a as int, to_a as int)) == lower_seq(b@)),
{
    if to_a - from_a != b.len() {
        assert(lower_seq(a@.subrange(from_a as int, to_a as int)).len() != lower_seq(b@).len());
        return false;
    }
    let ghost x = lower_seq(a@.subrange(from_a as int, to_a as int));
    let ghost y = lower_seq(b@);
    let mut i: usize = 0;
    while i < b.len()
        invariant
            i <= b.len(),
            from_a <= to_a <= a.len(),
            to_a - from_a == b.len(),
            x == lower_seq(a@.subrange(from_a as int, to_a as int)),
            y == lower_seq(b@),
            forall|j: int| 0 <= j < i ==> x[j] == y[j],
        decreases b.len() - i,
    {
        if ascii_lower(a[from_a + i]) != ascii_lower(b[i]) {
            assert(x[i as int] != y[i as int]);
            return false;
        }
        i = i + 1;
    }
    assert(x =~= y);
    true
}

/// The character sequences of a list of strings.
pub open spec fn views(v: Seq<String>) -> Seq<Seq<char>> {
    Seq::new(v.len(), |i: int| v[i]@)
}

/// Appending one string to a list appends its characters to the views.
pub proof fn lemma_views_push(v: Seq<String>, s: String)
    ensures
        views(v.push(s)) == views(v).push(s@),
{
    assert(views(v.push(s)) =~= views(v).push(s@));
}

} // verus!
