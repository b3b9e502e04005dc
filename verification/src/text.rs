//! Verified text utilities: substring search over character sequences.

use vstd::prelude::*;

verus! {

/// `needle` occurs in `hay` starting at position `i`.
pub open spec fn occurs_at(hay: Seq<char>, needle: Seq<char>, i: int) -> bool {
    0 <= i && i + needle.len() <= hay.len() && hay.subrange(i, i + needle.len()) == needle
}

/// `needle` occurs somewhere in `hay`.
pub open spec fn contains_seq(hay: Seq<char>, needle: Seq<char>) -> bool {
    exists|i: int| occurs_at(hay, needle, i)
}

/// Whether `needle` occurs in `hay` at position `i`, decided character by character.
fn occurs_at_exec(hay: &str, needle: &str, i: usize) -> (r: bool)
    requires
        i + needle@.len() <= hay@.len(),
    ensures
        r == occurs_at(hay@, needle@, i as int),
{
    let h = hay.unicode_len();
    let n = needle.unicode_len();
    let mut j: usize = 0;
    while j < n
        invariant
            h == hay@.len(),
            n == needle@.len(),
            0 <= j <= n,
            i + n <= h,
            forall|k: int| 0 <= k < j ==> hay@[i + k] == needle@[k],
        decreases n - j,
    {
        if hay.get_char(i + j) != needle.get_char(j) {
            assert(hay@.subrange(i as int, i + needle@.len())[j as int] != needle@[j as int]);
            return false;
        }
        j += 1;
    }
    assert(hay@.subrange(i as int, i + needle@.len()) =~= needle@);
    true
}

/// Substring search: does `needle` occur anywhere in `hay`?
pub fn contains_str(hay: &str, needle: &str) -> (r: bool)
    ensures
        r == contains_seq(hay@, needle@),
{
    let h = hay.unicode_len();
    let n = needle.unicode_len();
    if n > h {
        assert(forall|i: int| !occurs_at(hay@, needle@, i));
        return false;
    }
    if n == 0 {
        assert(hay@.subrange(0, 0) =~= needle@);
        assert(occurs_at(hay@, needle@, 0));
        return true;
    }
    let mut i: usize = 0;
    while i < h - n + 1
        invariant
            h == hay@.len(),
            n == needle@.len(),
            0 < n <= h,
            0 <= i <= h - n + 1,
            forall|k: int| 0 <= k < i ==> !occurs_at(hay@, needle@, k),
        decreases h - n + 1 - i,
    {
        if occurs_at_exec(hay, needle, i) {
            return true;
        }
        i += 1;
    }
    assert(forall|k: int| occurs_at(hay@, needle@, k) ==> 0 <= k <= h - n);
    false
}

/// Character-by-character string equality.
pub fn str_eq(a: &str, b: &str) -> (r: bool)
    ensures
        r == (a@ == b@),
{
    let la = a.unicode_len();
    let lb = b.unicode_len();
    if la != lb {
        return false;
    }
    let mut i: usize = 0;
    while i < la
        invariant
            la == a@.len(),
            lb == b@.len(),
            la == lb,
            0 <= i <= la,
            forall|k: int| 0 <= k < i ==> a@[k] == b@[k],
        decreases la - i,
    {
        if a.get_char(i) != b.get_char(i) {
            return false;
        }
        i += 1;
    }
    proof {
        assert(a@ =~= b@);
    }
    true
}

/// Appends one character to a string.
///
/// Relies on `String::push` from std: the pushed character becomes the last
/// character of the string and everything before it is unchanged.
#[verifier::external_body]
pub(crate) fn push_char(s: &mut String, c: char)
    ensures
        final(s)@ == old(s)@.push(c),
{
    s.push(c);
}

/// The decimal digit character for `d`.
pub open spec fn dec_digit(d: int) -> char {
    ((48 + d) as u8) as char
}

/// Helper for `dec_of`: prepends the digits of `m` to `acc`.
pub open spec fn dec_rec(m: nat, acc: Seq<char>) -> Seq<char>
    decreases m,
{
    if m == 0 {
        acc
    } else {
        dec_rec(m / 10, seq![dec_digit((m % 10) as int)] + acc)
    }
}

/// The decimal representation of `n`, without sign or leading zeros
/// (`0` is written as the single digit `0`).
pub open spec fn dec_of(n: nat) -> Seq<char> {
    if n == 0 {
        seq!['0']
    } else {
        dec_rec(n, Seq::empty())
    }
}

/// The decimal representation of the integer `v`, with a leading minus sign
/// when `v` is negative.
pub open spec fn dec_of_int(v: int) -> Seq<char> {
    if v >= 0 {
        dec_of(v as nat)
    } else {
        seq!['-'] + dec_of((-v) as nat)
    }
}

fn dec_digit_exec(d: u64) -> (c: char)
    requires
        d < 10,
    ensures
        c == dec_digit(d as int),
{
    (48 + d as u8) as char
}

/// The decimal digits of `n`, most significant first.
fn dec_chars_u64(n: u64) -> (r: Vec<char>)
    ensures
        r@ == dec_of(n as nat),
{
    if n == 0 {
        let mut acc: Vec<char> = Vec::new();
        acc.push('0');
        assert(acc@ =~= dec_of(0));
        return acc;
    }
    let mut m: u64 = n;
    let mut acc: Vec<char> = Vec::new();
    while m > 0
        invariant
            dec_rec(m as nat, acc@) == dec_of(n as nat),
        decreases m,
    {
        let ghost prev = acc@;
        let c = dec_digit_exec(m % 10);
        acc.insert(0, c);
        assert(acc@ =~= seq![dec_digit((m as nat % 10) as int)] + prev);
        m = m / 10;
    }
    acc
}

/// Appends the decimal representation of `n` to `out`.
pub fn append_dec_u64(out: &mut String, n: u64)
    ensures
        final(out)@ == old(out)@ + dec_of(n as nat),
{
    let digits = dec_chars_u64(n);
    let mut i: usize = 0;
    let ghost start = out@;
    while i < digits.len()
        invariant
            0 <= i <= digits@.len(),
            digits@ == dec_of(n as nat),
            out@ == start + digits@.subrange(0, i as int),
        decreases digits@.len() - i,
    {
        push_char(out, digits[i]);
        assert(start + digits@.subrange(0, i as int) + seq![digits@[i as int]] =~= start
            + digits@.subrange(0, i + 1));
        i += 1;
    }
    assert(digits@.subrange(0, digits@.len() as int) =~= digits@);
}

/// Appends the decimal representation of the integer `v` to `out`.
pub fn append_dec_i64(out: &mut String, v: i64)
    ensures
        final(out)@ == old(out)@ + dec_of_int(v as int),
{
    if v >= 0 {
        append_dec_u64(out, v as u64);
    } else {
        push_char(out, '-');
        let mag: u64 = if v == i64::MIN {
            9223372036854775808u64
        } else {
            (-v) as u64
        };
        assert(mag == -(v as int));
        append_dec_u64(out, mag);
        assert(old(out)@ + seq!['-'] + dec_of(mag as nat) =~= old(out)@ + dec_of_int(v as int));
    }
}

/// The decimal representation of `n` as a string.
pub fn dec_string_u64(n: u64) -> (r: String)
    ensures
        r@ == dec_of(n as nat),
{
    let mut s = String::new();
    append_dec_u64(&mut s, n);
    assert(Seq::<char>::empty() + dec_of(n as nat) =~= dec_of(n as nat));
    s
}

} // verus!
