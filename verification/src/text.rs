//! Characters and strings.
use vstd::prelude::*;

verus! {

/// `String::push` appends the character to the string.
pub assume_specification[ String::push ](s: &mut String, c: char)
    ensures
        final(s)@ == old(s)@.push(c),
;

/// The characters of a string.
pub fn chars_of(s: &str) -> (v: Vec<char>)
    ensures
        v@ == s@,
{
    let mut v: Vec<char> = Vec::new();
    for c in it: s.chars()
        invariant
            v@ == it.seq().take(it.index() as int),
            it.seq() == s@,
    {
        v.push(c);
    }
    v
}

/// The string of some characters.
pub fn string_of(v: &Vec<char>) -> (s: String)
    ensures
        s@ == v@,
{
    let mut s: String = String::new();
    for i in 0..v.len()
        invariant
            s@ == v@.take(i as int),
    {
        s.push(v[i]);
    }
    s
}

/// Whether two strings are the same.
pub fn same(a: &str, b: &str) -> (r: bool)
    ensures
        r == (a@ == b@),
{
    let u: Vec<char> = chars_of(a);
    chars_are(&u, b)
}

/// Whether some characters spell a string.
pub fn chars_are(v: &Vec<char>, s: &str) -> (r: bool)
    ensures
        r == (v@ == s@),
{
    let t: Vec<char> = chars_of(s);
    if v.len() != t.len() {
        return false;
    }
    for i in 0..v.len()
        invariant
            v.len() == t.len(),
            t@ == s@,
            v@.take(i as int) == t@.take(i as int),
    {
        if v[i] != t[i] {
            assert(v@[i as int] != s@[i as int]);
            return false;
        }
        assert(v@.take(i as int + 1) =~= v@.take(i as int).push(v@[i as int]));
        assert(t@.take(i as int + 1) =~= t@.take(i as int).push(t@[i as int]));
    }
    assert(v@.take(v@.len() as int) =~= v@);
    assert(t@.take(t@.len() as int) =~= t@);
    true
}

/// `t` begins with `p`.
pub open spec fn begins_with(t: Seq<char>, p: Seq<char>) -> bool {
    p.len() <= t.len() && t.take(p.len() as int) == p
}

/// `t` ends with `p`.
pub open spec fn ends_with(t: Seq<char>, p: Seq<char>) -> bool {
    p.len() <= t.len() && t.skip(t.len() - p.len()) == p
}

/// Whether `v` has the characters of `s` from position `at` on.
pub fn found_at(v: &Vec<char>, at: usize, s: &str) -> (r: bool)
    requires
        at <= v.len(),
    ensures
        r == begins_with(v@.skip(at as int), s@),
{
    let t: Vec<char> = chars_of(s);
    let ghost rest = v@.skip(at as int);
    if v.len() - at < t.len() {
        return false;
    }
    for i in 0..t.len()
        invariant
            t@ == s@,
            at + t.len() <= v.len(),
            rest == v@.skip(at as int),
            rest.take(i as int) == t@.take(i as int),
    {
        if v[at + i] != t[i] {
            assert(rest.take(t@.len() as int)[i as int] != s@[i as int]);
            return false;
        }
        assert(rest.take(i as int + 1) =~= rest.take(i as int).push(rest[i as int]));
        assert(t@.take(i as int + 1) =~= t@.take(i as int).push(t@[i as int]));
    }
    assert(t@.take(t@.len() as int) =~= t@);
    true
}

/// The characters from `from` up to `to`.
pub fn slice_of(v: &Vec<char>, from: usize, to: usize) -> (r: Vec<char>)
    requires
        from <= to <= v.len(),
    ensures
        r@ == v@.subrange(from as int, to as int),
{
    let mut r: Vec<char> = Vec::new();
    for i in from..to
        invariant
            from <= to <= v.len(),
            r@ == v@.subrange(from as int, i as int),
    {
        r.push(v[i]);
        assert(v@.subrange(from as int, i as int + 1) =~= v@.subrange(from as int, i as int).push(
            v@[i as int],
        ));
    }
    r
}

// ---- case and white space ----

/// An ASCII capital letter made small; any other character itself.
pub open spec fn lower(c: char) -> char {
    if 'A' <= c <= 'Z' {
        ((c as u8) + 32) as u8 as char
    } else {
        c
    }
}

/// An ASCII small letter made capital; any other character itself.
pub open spec fn upper(c: char) -> char {
    if 'a' <= c <= 'z' {
        ((c as u8) - 32) as u8 as char
    } else {
        c
    }
}

pub fn lower_of(c: char) -> (r: char)
    ensures
        r == lower(c),
{
    if 'A' <= c && c <= 'Z' {
        let b: u8 = c as u8;
        (b + 32) as char
    } else {
        c
    }
}

pub fn upper_of(c: char) -> (r: char)
    ensures
        r == upper(c),
{
    if 'a' <= c && c <= 'z' {
        let b: u8 = c as u8;
        (b - 32) as char
    } else {
        c
    }
}

/// Some characters with their ASCII capitals made small.
pub open spec fn lowered(s: Seq<char>) -> Seq<char> {
    s.map_values(|c: char| lower(c))
}

pub fn lowered_of(v: &Vec<char>) -> (r: Vec<char>)
    ensures
        r@ == lowered(v@),
{
    let mut r: Vec<char> = Vec::new();
    for i in 0..v.len()
        invariant
            r@.len() == i,
            forall|j: int| 0 <= j < i ==> r@[j] == lower(#[trigger] v@[j]),
    {
        r.push(lower_of(v[i]));
    }
    assert(r@ =~= lowered(v@));
    r
}

/// Characters with the Unicode property White_Space.
pub open spec fn is_white(c: char) -> bool {
    ||| '\u{9}' <= c <= '\u{d}'
    ||| c == '\u{20}'
    ||| c == '\u{85}'
    ||| c == '\u{a0}'
    ||| c == '\u{1680}'
    ||| '\u{2000}' <= c <= '\u{200a}'
    ||| c == '\u{2028}'
    ||| c == '\u{2029}'
    ||| c == '\u{202f}'
    ||| c == '\u{205f}'
    ||| c == '\u{3000}'
}

pub fn is_white_space(c: char) -> (r: bool)
    ensures
        r == is_white(c),
{
    ('\u{9}' <= c && c <= '\u{d}') || c == '\u{20}' || c == '\u{85}' || c == '\u{a0}' || c
        == '\u{1680}' || ('\u{2000}' <= c && c <= '\u{200a}') || c == '\u{2028}' || c == '\u{2029}'
        || c == '\u{202f}' || c == '\u{205f}' || c == '\u{3000}'
}

/// Some characters without the white space at both ends.
pub open spec fn trimmed(s: Seq<char>) -> Seq<char>
    decreases s.len(),
{
    if s.len() > 0 && is_white(s[0]) {
        trimmed(s.skip(1))
    } else if s.len() > 0 && is_white(s.last()) {
        trimmed(s.drop_last())
    } else {
        s
    }
}

pub fn trimmed_of(v: &Vec<char>) -> (r: Vec<char>)
    ensures
        r@ == trimmed(v@),
{
    let mut from: usize = 0;
    let mut to: usize = v.len();
    assert(v@.subrange(0, v@.len() as int) =~= v@);
    while from < to && is_white_space(v[from])
        invariant
            from <= to == v.len(),
            trimmed(v@) == trimmed(v@.subrange(from as int, to as int)),
        ensures
            from <= to == v.len(),
            trimmed(v@) == trimmed(v@.subrange(from as int, to as int)),
            from == to || !is_white(v@[from as int]),
        decreases to - from,
    {
        assert(v@.subrange(from as int, to as int).skip(1) =~= v@.subrange(
            from as int + 1,
            to as int,
        ));
        from += 1;
    }
    while from < to && is_white_space(v[to - 1])
        invariant
            from <= to <= v.len(),
            trimmed(v@) == trimmed(v@.subrange(from as int, to as int)),
            from == to || !is_white(v@[from as int]),
        ensures
            from <= to <= v.len(),
            trimmed(v@) == trimmed(v@.subrange(from as int, to as int)),
            from == to || (!is_white(v@[from as int]) && !is_white(v@[to - 1])),
        decreases to - from,
    {
        assert(v@.subrange(from as int, to as int).drop_last() =~= v@.subrange(
            from as int,
            to as int - 1,
        ));
        to -= 1;
    }
    slice_of(v, from, to)
}

// ---- decimal numbers ----

/// The decimal digit `d`.
pub open spec fn digit(d: int) -> char {
    (48 + d) as u8 as char
}

/// A number in decimal.
pub open spec fn decimal(n: nat) -> Seq<char>
    decreases n,
{
    if n < 10 {
        seq![digit(n as int)]
    } else {
        decimal(n / 10).push(digit((n % 10) as int))
    }
}

pub fn decimal_of(n: u64) -> (v: Vec<char>)
    ensures
        v@ == decimal(n as nat),
    decreases n,
{
    let d: u8 = (n % 10) as u8;
    let c: char = (48 + d) as char;
    if n < 10 {
        let mut v: Vec<char> = Vec::new();
        v.push(c);
        assert(v@ =~= decimal(n as nat));
        v
    } else {
        let mut v: Vec<char> = decimal_of(n / 10);
        v.push(c);
        v
    }
}

/// A number in decimal, with a minus sign where it is negative.
pub open spec fn signed_decimal(n: int) -> Seq<char> {
    if n < 0 {
        seq!['-'] + decimal((-n) as nat)
    } else {
        decimal(n as nat)
    }
}

/// A number in decimal as ASCII bytes, with a minus sign where it is negative.
pub open spec fn decimal_bytes(n: int) -> Seq<u8> {
    signed_decimal(n).map_values(|c: char| c as u8)
}

/// A number in decimal is digits, at least one.
pub proof fn lemma_digits(n: nat)
    ensures
        decimal(n).len() > 0,
        forall|i: int| 0 <= i < decimal(n).len() ==> '0' <= #[trigger] decimal(n)[i] <= '9',
    decreases n,
{
    if n >= 10 {
        lemma_digits(n / 10);
    }
}

/// Different numbers look different in decimal.
pub proof fn lemma_decimal_distinct(m: nat, n: nat)
    requires
        decimal(m) == decimal(n),
    ensures
        m == n,
    decreases m,
{
    let (a, b) = (decimal(m), decimal(n));
    assert(a.last() == digit((m % 10) as int));
    assert(b.last() == digit((n % 10) as int));
    if m >= 10 {
        lemma_digits(m / 10);
    }
    if n >= 10 {
        lemma_digits(n / 10);
    }
    if m >= 10 && n >= 10 {
        assert(a.drop_last() =~= decimal(m / 10));
        assert(b.drop_last() =~= decimal(n / 10));
        lemma_decimal_distinct(m / 10, n / 10);
    }
}

/// Different numbers look different in decimal with their signs.
pub proof fn lemma_signed_decimal_distinct(m: int, n: int)
    requires
        signed_decimal(m) == signed_decimal(n),
    ensures
        m == n,
{
    let (a, b) = (signed_decimal(m), signed_decimal(n));
    let (x, y) = (
        (if m < 0 {
            -m
        } else {
            m
        }) as nat,
        (if n < 0 {
            -n
        } else {
            n
        }) as nat,
    );
    lemma_digits(x);
    lemma_digits(y);
    if m < 0 {
        assert(a[0] == '-');
        assert(a.skip(1) =~= decimal(x));
    } else {
        assert('0' <= a[0] <= '9');
    }
    if n < 0 {
        assert(b[0] == '-');
        assert(b.skip(1) =~= decimal(y));
    } else {
        assert('0' <= b[0] <= '9');
    }
    lemma_decimal_distinct(x, y);
}

/// Append a number in decimal.
pub fn push_decimal(out: &mut Vec<u8>, n: i64)
    requires
        n > i64::MIN,
    ensures
        final(out)@ == old(out)@ + decimal_bytes(n as int),
{
    let m: u64 = if n < 0 {
        out.push(45);
        (-n) as u64
    } else {
        n as u64
    };
    let v: Vec<char> = decimal_of(m);
    let ghost head = out@;
    let ghost tail = v@.map_values(|c: char| c as u8);
    for i in 0..v.len()
        invariant
            tail == v@.map_values(|c: char| c as u8),
            out@ == head + tail.take(i as int),
    {
        let b: u8 = #[verifier::truncate] (v[i] as u8);
        out.push(b);
        assert(tail.take(i as int + 1) =~= tail.take(i as int).push(v@[i as int] as u8));
        assert(out@ =~= head + tail.take(i as int + 1));
    }
    assert(tail.take(v@.len() as int) =~= tail);
    assert(out@ =~= old(out)@ + decimal_bytes(n as int));
}

} // verus!
