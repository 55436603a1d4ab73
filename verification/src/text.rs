//! Character-level text utilities with specifications over `Seq<char>`.
//!
//! Strings are handled as sequences of Unicode scalar values. The
//! whitespace class is Unicode's `White_Space` property, which is what
//! `char::is_whitespace`, `str::trim` and `str::split_whitespace` use.

use vstd::prelude::*;

verus! {

/// Unicode `White_Space` code points.
pub open spec fn is_ws(c: char) -> bool {
    let x = c as u32;
    (0x9 <= x && x <= 0xd) || x == 0x20 || x == 0x85 || x == 0xa0 || x == 0x1680 || (0x2000 <= x
        && x <= 0x200a) || x == 0x2028 || x == 0x2029 || x == 0x202f || x == 0x205f || x == 0x3000
}

/// Whether `c` is a Unicode whitespace character.
pub fn is_whitespace(c: char) -> (b: bool)
    ensures
        b == is_ws(c),
{
    let x = c as u32;
    (0x9 <= x && x <= 0xd) || x == 0x20 || x == 0x85 || x == 0xa0 || x == 0x1680 || (0x2000 <= x
        && x <= 0x200a) || x == 0x2028 || x == 0x2029 || x == 0x202f || x == 0x205f || x == 0x3000
}

/// `String::push`: claimed to append `c` to the string's characters.
#[verifier::external_body]
pub(crate) fn push_char(s: &mut String, c: char)
    ensures
        final(s)@ == old(s)@.push(c),
{
    s.push(c);
}

/// Copies the characters of a string slice into a vector.
pub fn chars_of(s: &str) -> (v: Vec<char>)
    ensures
        v@ == s@,
{
    let mut v: Vec<char> = Vec::new();
    for c in it: s.chars()
        invariant
            v@ == it.seq().take(it.index() as int),
            it.seq() == s@,
    {
        v.push(c);
    }
    v
}

/// Builds a string from a slice of characters.
pub fn string_from_chars(v: &[char]) -> (s: String)
    ensures
        s@ == v@,
{
    let mut s = String::new();
    let n = v.len();
    let mut i: usize = 0;
    while i < n
        invariant
            n == v@.len(),
            i <= n,
            s@ == v@.take(i as int),
        decreases n - i,
    {
        push_char(&mut s, v[i]);
        assert(v@.take(i as int + 1) =~= v@.take(i as int).push(v@[i as int]));
        i = i + 1;
    }
    assert(v@.take(n as int) =~= v@);
    s
}

/// Builds a string from the characters `v[from..to]`.
pub fn string_from_range(v: &[char], from: usize, to: usize) -> (s: String)
    requires
        from <= to <= v@.len(),
    ensures
        s@ == v@.subrange(from as int, to as int),
{
    let mut s = String::new();
    let mut i: usize = from;
    while i < to
        invariant
            from <= i <= to <= v@.len(),
            s@ == v@.subrange(from as int, i as int),
        decreases to - i,
    {
        push_char(&mut s, v[i]);
        assert(v@.subrange(from as int, i as int + 1) =~= v@.subrange(from as int, i as int).push(
            v@[i as int],
        ));
        i = i + 1;
    }
    s
}

/// Appends the characters of `v` to `s`.
pub fn push_chars(s: &mut String, v: &[char])
    ensures
        final(s)@ == old(s)@ + v@,
{
    let n = v.len();
    let mut i: usize = 0;
    while i < n
        invariant
            n == v@.len(),
            i <= n,
            s@ == old(s)@ + v@.take(i as int),
        decreases n - i,
    {
        push_char(s, v[i]);
        assert(v@.take(i as int + 1) =~= v@.take(i as int).push(v@[i as int]));
        i = i + 1;
    }
    assert(v@.take(n as int) =~= v@);
}

/// Appends a string slice to `s`.
pub fn push_str(s: &mut String, t: &str)
    ensures
        final(s)@ == old(s)@ + t@,
{
    let v = chars_of(t);
    push_chars(s, v.as_slice());
}

/// `s` with its leading whitespace removed.
pub open spec fn trim_start(s: Seq<char>) -> Seq<char>
    decreases s.len(),
{
    if s.len() > 0 && is_ws(s[0]) {
        trim_start(s.drop_first())
    } else {
        s
    }
}

/// `s` with its trailing whitespace removed.
pub open spec fn trim_end(s: Seq<char>) -> Seq<char>
    decreases s.len(),
{
    if s.len() > 0 && is_ws(s.last()) {
        trim_end(s.drop_last())
    } else {
        s
    }
}

/// `s` with leading and trailing whitespace removed (`str::trim`).
pub open spec fn trim(s: Seq<char>) -> Seq<char> {
    trim_end(trim_start(s))
}

/// Bounds `(a, b)` such that `v[a..b]` is `v` trimmed of surrounding whitespace.
pub fn trim_bounds(v: &[char], from: usize, to: usize) -> (r: (usize, usize))
    requires
        from <= to <= v@.len(),
    ensures
        from <= r.0 <= r.1 <= to,
        v@.subrange(r.0 as int, r.1 as int) == trim(v@.subrange(from as int, to as int)),
{
    let ghost s = v@.subrange(from as int, to as int);
    let mut a: usize = from;
    while a < to && is_whitespace(v[a])
        invariant
            from <= a <= to <= v@.len(),
            s == v@.subrange(from as int, to as int),
            trim_start(s) == trim_start(v@.subrange(a as int, to as int)),
        decreases to - a,
    {
        assert(v@.subrange(a as int, to as int).drop_first() =~= v@.subrange(
            a as int + 1,
            to as int,
        ));
        a = a + 1;
    }
    assert(trim_start(v@.subrange(a as int, to as int)) == v@.subrange(a as int, to as int));
    let mut b: usize = to;
    while b > a && is_whitespace(v[b - 1])
        invariant
            from <= a <= b <= to <= v@.len(),
            trim(s) == trim_end(v@.subrange(a as int, b as int)),
        decreases b - a,
    {
        assert(v@.subrange(a as int, b as int).drop_last() =~= v@.subrange(
            a as int,
            b as int - 1,
        ));
        b = b - 1;
    }
    (a, b)
}

/// `s` begins with `p`.
pub open spec fn starts_with(s: Seq<char>, p: Seq<char>) -> bool {
    p.len() <= s.len() && s.take(p.len() as int) == p
}

/// `s` ends with `p`.
pub open spec fn ends_with(s: Seq<char>, p: Seq<char>) -> bool {
    p.len() <= s.len() && s.skip(s.len() - p.len()) == p
}

/// `p` occurs in `s` at position `i`.
pub open spec fn occurs_at(s: Seq<char>, p: Seq<char>, i: int) -> bool {
    0 <= i && i + p.len() <= s.len() && s.subrange(i, i + p.len()) == p
}

/// `p` occurs somewhere in `s`.
pub open spec fn contains(s: Seq<char>, p: Seq<char>) -> bool {
    exists|i: int| occurs_at(s, p, i)
}

/// Whether `v[from..to]` equals `p`.
pub fn range_eq(v: &[char], from: usize, to: usize, p: &[char]) -> (b: bool)
    requires
        from <= to <= v@.len(),
    ensures
        b == (v@.subrange(from as int, to as int) == p@),
{
    if to - from != p.len() {
        return false;
    }
    let mut i: usize = 0;
    while i < p.len()
        invariant
            from <= to <= v@.len(),
            to - from == p@.len(),
            i <= p@.len(),
            forall|k: int| 0 <= k < i ==> v@[from + k] == p@[k],
        decreases p@.len() - i,
    {
        if v[from + i] != p[i] {
            assert(v@.subrange(from as int, to as int)[i as int] != p@[i as int]);
            return false;
        }
        i = i + 1;
    }
    assert(v@.subrange(from as int, to as int) =~= p@);
    true
}

/// Whether `v[from..to]` begins with `p`.
pub fn range_starts_with(v: &[char], from: usize, to: usize, p: &[char]) -> (b: bool)
    requires
        from <= to <= v@.len(),
    ensures
        b == starts_with(v@.subrange(from as int, to as int), p@),
{
    if p.len() > to - from {
        return false;
    }
    let r = range_eq(v, from, from + p.len(), p);
    assert(v@.subrange(from as int, to as int).take(p@.len() as int) =~= v@.subrange(
        from as int,
        from + p@.len(),
    ));
    r
}

/// Whether `v[from..to]` ends with `p`.
pub fn range_ends_with(v: &[char], from: usize, to: usize, p: &[char]) -> (b: bool)
    requires
        from <= to <= v@.len(),
    ensures
        b == ends_with(v@.subrange(from as int, to as int), p@),
{
    if p.len() > to - from {
        return false;
    }
    let r = range_eq(v, to - p.len(), to, p);
    assert(v@.subrange(from as int, to as int).skip((to - from) - p@.len()) =~= v@.subrange(
        to - p@.len(),
        to as int,
    ));
    r
}

/// Whether `p` occurs in `v[from..to]`.
pub fn range_contains(v: &[char], from: usize, to: usize, p: &[char]) -> (b: bool)
    requires
        from <= to <= v@.len(),
    ensures
        b == contains(v@.subrange(from as int, to as int), p@),
{
    let ghost s = v@.subrange(from as int, to as int);
    if p.len() > to - from {
        assert forall|i: int| !occurs_at(s, p@, i) by {}
        return false;
    }
    let last = to - p.len();
    let mut i: usize = from;
    loop
        invariant_except_break
            from <= i <= last,
            last + p@.len() == to <= v@.len(),
            s == v@.subrange(from as int, to as int),
            forall|k: int| 0 <= k < i - from ==> !#[trigger] occurs_at(s, p@, k),
        ensures
            forall|k: int| 0 <= k <= last - from ==> !#[trigger] occurs_at(s, p@, k),
        decreases last - i,
    {
        assert(s.subrange(i - from, i - from + p@.len()) =~= v@.subrange(
            i as int,
            i + p@.len(),
        ));
        if range_eq(v, i, i + p.len(), p) {
            assert(occurs_at(s, p@, i - from));
            return true;
        }
        if i == last {
            break;
        }
        i = i + 1;
    }
    assert forall|k: int| !occurs_at(s, p@, k) by {
        if occurs_at(s, p@, k) {
            assert(0 <= k <= last - from);
        }
    }
    false
}

} // verus!

verus! {

/// Whether two string slices hold the same characters.
pub fn str_eq(a: &str, b: &str) -> (r: bool)
    ensures
        r == (a@ == b@),
{
    let av = chars_of(a);
    let bv = chars_of(b);
    let r = range_eq(av.as_slice(), 0, av.len(), bv.as_slice());
    assert(av@.subrange(0, av@.len() as int) =~= av@);
    r
}

/// A line without its trailing carriage return.
pub open spec fn strip_cr(l: Seq<char>) -> Seq<char> {
    if l.len() > 0 && l.last() == '\r' {
        l.drop_last()
    } else {
        l
    }
}

/// Completed lines and the current partial line after reading `s`.
pub open spec fn lines_state(s: Seq<char>) -> (Seq<Seq<char>>, Seq<char>)
    decreases s.len(),
{
    if s.len() == 0 {
        (Seq::empty(), Seq::empty())
    } else {
        let (done, cur) = lines_state(s.drop_last());
        if s.last() == '\n' {
            (done.push(strip_cr(cur)), Seq::empty())
        } else {
            (done, cur.push(s.last()))
        }
    }
}

/// The lines of `s` (`str::lines`): split at `\n`, a `\r` before the `\n`
/// removed, and no empty line after a final `\n`.
pub open spec fn lines(s: Seq<char>) -> Seq<Seq<char>> {
    let (done, cur) = lines_state(s);
    if cur.len() > 0 {
        done.push(cur)
    } else {
        done
    }
}

/// The decimal digit for `d < 10`.
pub open spec fn digit_char(d: nat) -> char {
    if d == 0 { '0' } else if d == 1 { '1' } else if d == 2 { '2' } else if d == 3 { '3' } else if d
        == 4 { '4' } else if d == 5 { '5' } else if d == 6 { '6' } else if d == 7 { '7' } else if d
        == 8 { '8' } else { '9' }
}

/// Decimal representation of `n` without leading zeros (`u64::to_string`).
pub open spec fn decimal(n: nat) -> Seq<char>
    decreases n,
{
    if n < 10 {
        seq![digit_char(n)]
    } else {
        decimal(n / 10).push(digit_char(n % 10))
    }
}

fn digit(d: u64) -> (c: char)
    requires
        d < 10,
    ensures
        c == digit_char(d as nat),
{
    if d == 0 { '0' } else if d == 1 { '1' } else if d == 2 { '2' } else if d == 3 { '3' } else if d
        == 4 { '4' } else if d == 5 { '5' } else if d == 6 { '6' } else if d == 7 { '7' } else if d
        == 8 { '8' } else { '9' }
}

/// Appends the decimal digits of `n` to `s`.
pub fn push_decimal(s: &mut String, n: u64)
    ensures
        final(s)@ == old(s)@ + decimal(n as nat),
    decreases n,
{
    if n < 10 {
        push_char(s, digit(n));
        assert(old(s)@.push(digit_char(n as nat)) =~= old(s)@ + decimal(n as nat));
    } else {
        push_decimal(s, n / 10);
        push_char(s, digit(n % 10));
        assert((old(s)@ + decimal((n / 10) as nat)).push(digit_char((n % 10) as nat)) =~= old(s)@
            + decimal(n as nat));
    }
}

/// The decimal representation of `n`.
pub fn decimal_string(n: u64) -> (s: String)
    ensures
        s@ == decimal(n as nat),
{
    let mut s = String::new();
    push_decimal(&mut s, n);
    assert(Seq::<char>::empty() + decimal(n as nat) =~= decimal(n as nat));
    s
}

/// A copy of `s` with surrounding whitespace removed (`str::trim`).
pub fn trimmed(s: &str) -> (r: String)
    ensures
        r@ == trim(s@),
{
    let v = chars_of(s);
    let (a, b) = trim_bounds(v.as_slice(), 0, v.len());
    assert(v@.subrange(0, v@.len() as int) =~= v@);
    string_from_range(v.as_slice(), a, b)
}

/// Whether `p` occurs in `s` (`str::contains`).
pub fn str_contains(s: &str, p: &str) -> (b: bool)
    ensures
        b == contains(s@, p@),
{
    let v = chars_of(s);
    let w = chars_of(p);
    assert(v@.subrange(0, v@.len() as int) =~= v@);
    range_contains(v.as_slice(), 0, v.len(), w.as_slice())
}

} // verus!
