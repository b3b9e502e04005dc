//! Scanning for cloze deletion markers.
//!
//! A deletion marker is written `{{cN::content}}`: two opening braces, the
//! letter `c`, a run of one to eighteen decimal digits giving the 1-based group
//! number, two colons, at least one character of content, and the first
//! following pair of closing braces. The scan walks left to right and resumes
//! after each marker it consumes.
//!
//! A question pattern binds a field to the cloze machinery with a reference
//! of the shape `{{...cloze:Name}}` (no closing brace may precede `cloze:`
//! inside the braces) or `<%cloze:Name%>`. Between `cloze:` and the name,
//! single-character modifier units ending in a colon are skipped, greedily,
//! for as long as a capture still follows.

use vstd::prelude::*;

verus! {

/// A decimal digit.
pub open spec fn is_digit(c: char) -> bool {
    '0' <= c && c <= '9'
}

/// Length of the run of digits in `s` starting at `i`.
pub open spec fn digit_run_len(s: Seq<char>, i: int) -> int
    decreases s.len() - i when i <= s.len()
{
    if i < 0 || i >= s.len() {
        0
    } else if is_digit(s[i]) {
        1 + digit_run_len(s, i + 1)
    } else {
        0
    }
}

/// Numeric value of the digit run `s[i .. i + len)`.
pub open spec fn digits_value(s: Seq<char>, i: int, len: int) -> int
    decreases len,
{
    if len <= 0 {
        0
    } else {
        digits_value(s, i, len - 1) * 10 + (s[i + len - 1] as int - 48)
    }
}

/// The least `e >= from` where a pair of closing braces starts, if any.
pub open spec fn first_close(s: Seq<char>, from: int) -> Option<int>
    decreases s.len() - from when from >= 0
{
    if from < 0 || from + 2 > s.len() {
        Option::None
    } else if s[from] == '}' && s[from + 1] == '}' {
        Option::Some(from)
    } else {
        first_close(s, from + 1)
    }
}

/// The deletion marker starting at `i`, if any: its group number and the
/// position just past the marker.
pub open spec fn marker_at(s: Seq<char>, i: int) -> Option<(int, int)> {
    if !(0 <= i && i + 3 <= s.len() && s[i] == '{' && s[i + 1] == '{' && s[i + 2] == 'c') {
        Option::None
    } else {
        let d = digit_run_len(s, i + 3);
        if d < 1 || d > 18 {
            Option::None
        } else if !(i + 5 + d <= s.len() && s[i + 3 + d] == ':' && s[i + 4 + d] == ':') {
            Option::None
        } else {
            match first_close(s, i + 6 + d) {
                Option::Some(e) => Option::Some((digits_value(s, i + 3, d), e + 2)),
                Option::None => Option::None,
            }
        }
    }
}

/// `first_close` finds a position within the string and at or after `from`.
pub proof fn lemma_first_close_bounds(s: Seq<char>, from: int)
    requires
        from >= 0,
    ensures
        first_close(s, from) matches Some(e) ==> from <= e && e + 2 <= s.len(),
    decreases s.len() - from,
{
    if from + 2 > s.len() {
    } else if s[from] == '}' && s[from + 1] == '}' {
    } else {
        lemma_first_close_bounds(s, from + 1);
    }
}

/// A marker consumes at least one character and ends within the string.
pub proof fn lemma_marker_bounds(s: Seq<char>, i: int)
    ensures
        marker_at(s, i) matches Some(vn) ==> i < vn.1 && vn.1 <= s.len(),
{
    if marker_at(s, i) is Some {
        let d = digit_run_len(s, i + 3);
        lemma_first_close_bounds(s, i + 6 + d);
    }
}

/// The group numbers of all deletion markers at or after `i`.
pub open spec fn cloze_numbers_from(s: Seq<char>, i: int) -> Set<int>
    decreases s.len() - i when 0 <= i via cloze_numbers_from_decreases
{
    if i >= s.len() {
        Set::empty()
    } else {
        match marker_at(s, i) {
            Option::Some(vn) => cloze_numbers_from(s, vn.1).insert(vn.0),
            Option::None => cloze_numbers_from(s, i + 1),
        }
    }
}

#[via_fn]
proof fn cloze_numbers_from_decreases(s: Seq<char>, i: int) {
    lemma_marker_bounds(s, i);
}

/// The group numbers of all deletion markers in `s`.
pub open spec fn cloze_numbers(s: Seq<char>) -> Set<int> {
    cloze_numbers_from(s, 0)
}

/// Ten to the `n`.
pub open spec fn pow10(n: int) -> int
    decreases n,
{
    if n <= 0 {
        1
    } else {
        10 * pow10(n - 1)
    }
}

/// The value of a digit run of length `len` is a `len`-digit number.
proof fn lemma_digits_value_bound(s: Seq<char>, i: int, len: int)
    requires
        len >= 0,
        forall|k: int| i <= k < i + len ==> is_digit(#[trigger] s[k]),
    ensures
        0 <= digits_value(s, i, len) < pow10(len),
    decreases len,
{
    if len > 0 {
        lemma_digits_value_bound(s, i, len - 1);
    }
}

proof fn lemma_pow10_pos(n: int)
    ensures
        pow10(n) >= 1,
    decreases n,
{
    if n > 0 {
        lemma_pow10_pos(n - 1);
    }
}

proof fn lemma_pow10_mono(a: int, b: int)
    requires
        0 <= a <= b,
    ensures
        pow10(a) <= pow10(b),
    decreases b,
{
    if a < b {
        lemma_pow10_mono(a, b - 1);
        lemma_pow10_pos(b - 1);
    }
}

fn digit_run_exec(s: &str, i: usize) -> (d: usize)
    requires
        i <= s@.len(),
    ensures
        d == digit_run_len(s@, i as int),
        i + d <= s@.len(),
        forall|k: int| i <= k < i + d ==> is_digit(#[trigger] s@[k]),
{
    let n = s.unicode_len();
    let mut j: usize = i;
    loop
        invariant
            n == s@.len(),
            i <= j <= n,
            digit_run_len(s@, i as int) == (j - i) + digit_run_len(s@, j as int),
            forall|k: int| i <= k < j ==> is_digit(#[trigger] s@[k]),
        ensures
            i <= j <= n,
            digit_run_len(s@, i as int) == j - i,
            forall|k: int| i <= k < j ==> is_digit(#[trigger] s@[k]),
        decreases n - j,
    {
        if j >= n {
            break ;
        }
        let c = s.get_char(j);
        if !(c >= '0' && c <= '9') {
            break ;
        }
        j += 1;
    }
    j - i
}

fn first_close_exec(s: &str, from: usize) -> (r: Option<usize>)
    requires
        from <= s@.len(),
    ensures
        match r {
            Some(e) => first_close(s@, from as int) == Some(e as int) && from <= e && e + 2
                <= s@.len(),
            None => first_close(s@, from as int) is None,
        },
{
    let n = s.unicode_len();
    let mut e: usize = from;
    loop
        invariant
            n == s@.len(),
            from <= e <= n,
            first_close(s@, from as int) == first_close(s@, e as int),
        decreases n - e,
    {
        if n - e < 2 {
            return None;
        }
        if s.get_char(e) == '}' && s.get_char(e + 1) == '}' {
            return Some(e);
        }
        e += 1;
    }
}

/// Decides `marker_at` at position `i`: the group number (which fits
/// eighteen digits) and the position just past the marker.
fn marker_at_exec(s: &str, i: usize) -> (r: Option<(u64, usize)>)
    requires
        i <= s@.len(),
    ensures
        match r {
            Some(vn) => marker_at(s@, i as int) == Some((vn.0 as int, vn.1 as int)) && i < vn.1
                <= s@.len() && vn.0 < 1000000000000000000,
            None => marker_at(s@, i as int) is None,
        },
{
    let n = s.unicode_len();
    if n - i < 3 {
        return None;
    }
    if !(s.get_char(i) == '{' && s.get_char(i + 1) == '{' && s.get_char(i + 2) == 'c') {
        return None;
    }
    let d = digit_run_exec(s, i + 3);
    if d < 1 || d > 18 {
        return None;
    }
    if n - (i + 3 + d) < 2 {
        return None;
    }
    if !(s.get_char(i + 3 + d) == ':' && s.get_char(i + 4 + d) == ':') {
        return None;
    }
    let mut value: u64 = 0;
    let mut k: usize = 0;
    proof {
        assert(pow10(0) == 1);
        assert(pow10(1) == 10);
        assert(pow10(2) == 100);
        assert(pow10(3) == 1000);
        assert(pow10(4) == 10000);
        assert(pow10(5) == 100000);
        assert(pow10(6) == 1000000);
        assert(pow10(7) == 10000000);
        assert(pow10(8) == 100000000);
        assert(pow10(9) == 1000000000);
        assert(pow10(10) == 10000000000);
        assert(pow10(11) == 100000000000);
        assert(pow10(12) == 1000000000000);
        assert(pow10(13) == 10000000000000);
        assert(pow10(14) == 100000000000000);
        assert(pow10(15) == 1000000000000000);
        assert(pow10(16) == 10000000000000000);
        assert(pow10(17) == 100000000000000000);
        assert(pow10(18) == 1000000000000000000);
    }
    while k < d
        invariant
            n == s@.len(),
            i + 3 + d <= n,
            d <= 18,
            0 <= k <= d,
            forall|t: int| i + 3 <= t < i + 3 + d ==> is_digit(#[trigger] s@[t]),
            value == digits_value(s@, i + 3, k as int),
            0 <= value < pow10(k as int),
            pow10(18) == 1000000000000000000,
        decreases d - k,
    {
        proof {
            lemma_digits_value_bound(s@, i + 3, k + 1);
            lemma_pow10_mono(k + 1, 18);
            assert(is_digit(s@[i + 3 + k as int]));
        }
        let c = s.get_char(i + 3 + k);
        value = value * 10 + (c as u64 - 48);
        k += 1;
    }
    proof {
        lemma_digits_value_bound(s@, i + 3, d as int);
        lemma_pow10_mono(d as int, 18);
    }
    let c0 = i + 5 + d;
    if n - c0 < 1 {
        proof {
            assert(first_close(s@, i + 6 + d) is None);
        }
        return None;
    }
    match first_close_exec(s, c0 + 1) {
        Some(e) => Some((value, e + 2)),
        None => None,
    }
}

/// Does `v` hold `x`?
pub(crate) fn vec_contains_i64(v: &Vec<i64>, x: i64) -> (r: bool)
    ensures
        r == v@.contains(x),
{
    let mut k: usize = 0;
    while k < v.len()
        invariant
            0 <= k <= v@.len(),
            forall|t: int| 0 <= t < k ==> v@[t] != x,
        decreases v@.len() - k,
    {
        if v[k] == x {
            return true;
        }
        k += 1;
    }
    false
}

/// Some element of `r` has the integer value `v`.
pub open spec fn has_val(r: Seq<i64>, v: int) -> bool {
    exists|k: int| 0 <= k < r.len() && r[k] == v
}

pub proof fn lemma_has_val_push(r: Seq<i64>, x: i64)
    ensures
        forall|v: int| has_val(r, v) ==> #[trigger] has_val(r.push(x), v),
        has_val(r.push(x), x as int),
        forall|v: int| #[trigger] has_val(r.push(x), v) ==> (has_val(r, v) || v == x as int),
{
    assert forall|v: int| has_val(r, v) implies #[trigger] has_val(r.push(x), v) by {
        let k0 = choose|k0: int| 0 <= k0 < r.len() && r[k0] == v;
        assert(r.push(x)[k0] == v);
    }
    assert(r.push(x)[r.len() as int] == x);
    assert forall|v: int| #[trigger] has_val(r.push(x), v) implies (has_val(r, v) || v
        == x as int) by {
        let k0 = choose|k0: int| 0 <= k0 < r.push(x).len() && r.push(x)[k0] == v;
        if k0 < r.len() {
            assert(r[k0] == v);
        }
    }
}

pub proof fn lemma_contains_has_val(r: Seq<i64>, x: i64)
    requires
        r.contains(x),
    ensures
        has_val(r, x as int),
{
    let k0 = choose|k0: int| 0 <= k0 < r.len() && r[k0] == x;
    assert(r[k0] == x);
}

/// Collects the distinct deletion-group numbers of `s`, in order of first
/// appearance.
pub(crate) fn scan_cloze_numbers(s: &str) -> (r: Vec<i64>)
    ensures
        forall|k: int| 0 <= k < r@.len() ==> cloze_numbers(s@).contains(#[trigger] r@[k] as int),
        forall|v: int| #[trigger] cloze_numbers(s@).contains(v) ==> has_val(r@, v),
        forall|k1: int, k2: int| 0 <= k1 < k2 < r@.len() ==> r@[k1] != r@[k2],
{
    let n = s.unicode_len();
    let mut r: Vec<i64> = Vec::new();
    let mut i: usize = 0;
    while i < n
        invariant
            n == s@.len(),
            0 <= i <= n,
            forall|v: int|
                #[trigger] cloze_numbers(s@).contains(v) <==> (has_val(r@, v)
                    || cloze_numbers_from(s@, i as int).contains(v)),
            forall|k1: int, k2: int| 0 <= k1 < k2 < r@.len() ==> r@[k1] != r@[k2],
        decreases n - i,
    {
        let ghost prev = r@;
        match marker_at_exec(s, i) {
            Some(vn) => {
                let v = vn.0 as i64;
                proof {
                    assert(cloze_numbers_from(s@, i as int) == cloze_numbers_from(
                        s@,
                        vn.1 as int,
                    ).insert(vn.0 as int));
                }
                if !vec_contains_i64(&r, v) {
                    r.push(v);
                    proof {
                        lemma_has_val_push(prev, v);
                    }
                } else {
                    proof {
                        lemma_contains_has_val(prev, v);
                    }
                }
                proof {
                    assert forall|w: int| #[trigger] cloze_numbers(s@).contains(w) implies (has_val(
                        r@,
                        w,
                    ) || cloze_numbers_from(s@, vn.1 as int).contains(w)) by {
                        if !cloze_numbers_from(s@, vn.1 as int).contains(w) {
                            if has_val(prev, w) {
                                if r@ != prev {
                                    lemma_has_val_push(prev, v);
                                }
                            } else {
                                assert(cloze_numbers_from(s@, i as int).contains(w));
                                assert(w == vn.0 as int);
                            }
                        }
                    }
                    assert forall|w: int|
                        (has_val(r@, w) || cloze_numbers_from(s@, vn.1 as int).contains(
                            w,
                        )) implies #[trigger] cloze_numbers(s@).contains(w) by {
                        if has_val(r@, w) {
                            if r@ != prev {
                                lemma_has_val_push(prev, v);
                                if !has_val(prev, w) {
                                    assert(w == v as int);
                                    assert(cloze_numbers_from(s@, i as int).contains(w));
                                }
                            }
                        } else {
                            assert(cloze_numbers_from(s@, i as int).contains(w));
                        }
                    }
                }
                i = vn.1;
            },
            None => {
                i += 1;
            },
        }
    }
    proof {
        assert(cloze_numbers_from(s@, n as int) =~= Set::<int>::empty());
        assert forall|k: int| 0 <= k < r@.len() implies cloze_numbers(s@).contains(
            #[trigger] r@[k] as int,
        ) by {
            assert(has_val(r@, r@[k] as int));
        }
    }
    r
}

/// The word `cloze:` starts at `k`.
pub open spec fn cloze_key_at(s: Seq<char>, k: int) -> bool {
    &&& k >= 0
    &&& k + 6 <= s.len()
    &&& s[k] == 'c'
    &&& s[k + 1] == 'l'
    &&& s[k + 2] == 'o'
    &&& s[k + 3] == 'z'
    &&& s[k + 4] == 'e'
    &&& s[k + 5] == ':'
}

/// The least `k >= i` where `cloze:` starts, reachable without crossing a
/// closing brace.
pub open spec fn find_cloze_key(s: Seq<char>, i: int) -> Option<int>
    decreases s.len() - i when 0 <= i
{
    if i + 6 > s.len() {
        Option::None
    } else if cloze_key_at(s, i) {
        Option::Some(i)
    } else if s[i] == '}' {
        Option::None
    } else {
        find_cloze_key(s, i + 1)
    }
}

/// The least `e >= from` where `%>` starts, if any.
pub open spec fn first_pct_close(s: Seq<char>, from: int) -> Option<int>
    decreases s.len() - from when from >= 0
{
    if from < 0 || from + 2 > s.len() {
        Option::None
    } else if s[from] == '%' && s[from + 1] == '>' {
        Option::Some(from)
    } else {
        first_pct_close(s, from + 1)
    }
}

/// The length of the modifier unit at `c`: a single non-brace character
/// followed by a colon (preferred), a bare colon, or nothing.
pub open spec fn modifier_unit_len(s: Seq<char>, c: int) -> int {
    if 0 <= c && c + 2 <= s.len() && s[c] != '}' && s[c + 1] == ':' {
        2
    } else if 0 <= c && c + 1 <= s.len() && s[c] == ':' {
        1
    } else {
        0
    }
}

/// The name captured from `c` up to the first pair of closing braces, with
/// at least one character in between.
pub open spec fn capture_here(s: Seq<char>, c: int) -> Option<(Seq<char>, int)> {
    match first_close(s, c + 1) {
        Option::Some(e) => Option::Some((s.subrange(c, e), e + 2)),
        Option::None => Option::None,
    }
}

/// The name a brace-style reference captures after `cloze:`: modifier units
/// are skipped greedily for as long as a capture still follows; where the
/// last unit leaves no capture, the scan falls back to capturing the unit
/// itself.
pub open spec fn brace_capture(s: Seq<char>, c: int) -> Option<(Seq<char>, int)>
    decreases s.len() - c when 0 <= c <= s.len()
{
    let u = modifier_unit_len(s, c);
    if u > 0 {
        match brace_capture(s, c + u) {
            Option::Some(r) => Option::Some(r),
            Option::None => capture_here(s, c),
        }
    } else {
        capture_here(s, c)
    }
}

/// The brace-style field reference starting at `i`, if any: the referenced
/// field name and the position just past the reference.
pub open spec fn brace_ref_at(s: Seq<char>, i: int) -> Option<(Seq<char>, int)> {
    if !(0 <= i && i + 2 <= s.len() && s[i] == '{' && s[i + 1] == '{') {
        Option::None
    } else {
        match find_cloze_key(s, i + 2) {
            Option::Some(k) => brace_capture(s, k + 6),
            Option::None => Option::None,
        }
    }
}

/// The percent-style field reference starting at `i`, if any.
pub open spec fn pct_ref_at(s: Seq<char>, i: int) -> Option<(Seq<char>, int)> {
    if !(0 <= i && i + 8 <= s.len() && s[i] == '<' && s[i + 1] == '%' && cloze_key_at(s, i + 2)) {
        Option::None
    } else {
        match first_pct_close(s, i + 9) {
            Option::Some(e) => Option::Some((s.subrange(i + 8, e), e + 2)),
            Option::None => Option::None,
        }
    }
}

proof fn lemma_find_cloze_key_bounds(s: Seq<char>, i: int)
    requires
        i >= 0,
    ensures
        find_cloze_key(s, i) matches Some(k) ==> i <= k && k + 6 <= s.len(),
    decreases s.len() - i,
{
    if i + 6 > s.len() {
    } else if cloze_key_at(s, i) {
    } else if s[i] == '}' {
    } else {
        lemma_find_cloze_key_bounds(s, i + 1);
    }
}

proof fn lemma_first_pct_close_bounds(s: Seq<char>, from: int)
    requires
        from >= 0,
    ensures
        first_pct_close(s, from) matches Some(e) ==> from <= e && e + 2 <= s.len(),
    decreases s.len() - from,
{
    if from + 2 > s.len() {
    } else if s[from] == '%' && s[from + 1] == '>' {
    } else {
        lemma_first_pct_close_bounds(s, from + 1);
    }
}

proof fn lemma_brace_capture_bounds(s: Seq<char>, c: int)
    requires
        0 <= c <= s.len(),
    ensures
        brace_capture(s, c) matches Some(r) ==> c < r.1 && r.1 <= s.len(),
    decreases s.len() - c,
{
    lemma_first_close_bounds(s, c + 1);
    let u = modifier_unit_len(s, c);
    if u > 0 {
        lemma_brace_capture_bounds(s, c + u);
    }
}

/// A field reference consumes at least one character and ends within the
/// string.
pub proof fn lemma_ref_bounds(s: Seq<char>, i: int)
    ensures
        brace_ref_at(s, i) matches Some(r) ==> i < r.1 && r.1 <= s.len(),
        pct_ref_at(s, i) matches Some(r) ==> i < r.1 && r.1 <= s.len(),
{
    if brace_ref_at(s, i) is Some {
        lemma_find_cloze_key_bounds(s, i + 2);
        let k = find_cloze_key(s, i + 2)->Some_0;
        lemma_brace_capture_bounds(s, k + 6);
    }
    if pct_ref_at(s, i) is Some {
        lemma_first_pct_close_bounds(s, i + 9);
    }
}

/// The field names referenced in brace style at or after `i`.
pub open spec fn brace_refs_from(s: Seq<char>, i: int) -> Set<Seq<char>>
    decreases s.len() - i when 0 <= i via brace_refs_from_decreases
{
    if i >= s.len() {
        Set::empty()
    } else {
        match brace_ref_at(s, i) {
            Option::Some(r) => brace_refs_from(s, r.1).insert(r.0),
            Option::None => brace_refs_from(s, i + 1),
        }
    }
}

#[via_fn]
proof fn brace_refs_from_decreases(s: Seq<char>, i: int) {
    lemma_ref_bounds(s, i);
}

/// The field names referenced in percent style at or after `i`.
pub open spec fn pct_refs_from(s: Seq<char>, i: int) -> Set<Seq<char>>
    decreases s.len() - i when 0 <= i via pct_refs_from_decreases
{
    if i >= s.len() {
        Set::empty()
    } else {
        match pct_ref_at(s, i) {
            Option::Some(r) => pct_refs_from(s, r.1).insert(r.0),
            Option::None => pct_refs_from(s, i + 1),
        }
    }
}

#[via_fn]
proof fn pct_refs_from_decreases(s: Seq<char>, i: int) {
    lemma_ref_bounds(s, i);
}

/// Every field name a question pattern binds to the cloze machinery.
pub open spec fn cloze_refs(s: Seq<char>) -> Set<Seq<char>> {
    brace_refs_from(s, 0).union(pct_refs_from(s, 0))
}

/// Some element of `r` views to `name`.
pub open spec fn has_name(r: Seq<String>, name: Seq<char>) -> bool {
    exists|k: int| 0 <= k < r.len() && r[k]@ == name
}

fn find_cloze_key_exec(s: &str, i: usize) -> (r: Option<usize>)
    requires
        i <= s@.len(),
    ensures
        match r {
            Some(k) => find_cloze_key(s@, i as int) == Some(k as int) && i <= k && k + 6
                <= s@.len(),
            None => find_cloze_key(s@, i as int) is None,
        },
{
    let n = s.unicode_len();
    let mut k: usize = i;
    loop
        invariant
            n == s@.len(),
            i <= k <= n,
            find_cloze_key(s@, i as int) == find_cloze_key(s@, k as int),
        decreases n - k,
    {
        if n - k < 6 {
            return None;
        }
        if s.get_char(k) == 'c' && s.get_char(k + 1) == 'l' && s.get_char(k + 2) == 'o'
            && s.get_char(k + 3) == 'z' && s.get_char(k + 4) == 'e' && s.get_char(k + 5) == ':' {
            return Some(k);
        }
        if s.get_char(k) == '}' {
            return None;
        }
        k += 1;
    }
}

fn first_pct_close_exec(s: &str, from: usize) -> (r: Option<usize>)
    requires
        from <= s@.len(),
    ensures
        match r {
            Some(e) => first_pct_close(s@, from as int) == Some(e as int) && from <= e && e + 2
                <= s@.len(),
            None => first_pct_close(s@, from as int) is None,
        },
{
    let n = s.unicode_len();
    let mut e: usize = from;
    loop
        invariant
            n == s@.len(),
            from <= e <= n,
            first_pct_close(s@, from as int) == first_pct_close(s@, e as int),
        decreases n - e,
    {
        if n - e < 2 {
            return None;
        }
        if s.get_char(e) == '%' && s.get_char(e + 1) == '>' {
            return Some(e);
        }
        e += 1;
    }
}

fn modifier_unit_exec(s: &str, c: usize) -> (u: usize)
    requires
        c <= s@.len(),
    ensures
        u == modifier_unit_len(s@, c as int),
        c + u <= s@.len(),
{
    let n = s.unicode_len();
    if n - c >= 2 && s.get_char(c) != '}' && s.get_char(c + 1) == ':' {
        2
    } else if n - c >= 1 && s.get_char(c) == ':' {
        1
    } else {
        0
    }
}

fn capture_here_exec(s: &str, c: usize) -> (r: Option<(String, usize)>)
    requires
        c <= s@.len(),
    ensures
        match r {
            Some(nm) => capture_here(s@, c as int) == Some((nm.0@, nm.1 as int)) && c < nm.1
                <= s@.len(),
            None => capture_here(s@, c as int) is None,
        },
{
    let n = s.unicode_len();
    if n - c < 1 {
        proof {
            assert(first_close(s@, c + 1) is None);
        }
        return None;
    }
    match first_close_exec(s, c + 1) {
        None => None,
        Some(e) => {
            let name = s.substring_char(c, e).to_owned();
            Some((name, e + 2))
        },
    }
}

fn brace_capture_exec(s: &str, c: usize) -> (r: Option<(String, usize)>)
    requires
        c <= s@.len(),
    ensures
        match r {
            Some(nm) => brace_capture(s@, c as int) == Some((nm.0@, nm.1 as int)) && c < nm.1
                <= s@.len(),
            None => brace_capture(s@, c as int) is None,
        },
    decreases s@.len() - c,
{
    let n = s.unicode_len();
    let u = modifier_unit_exec(s, c);
    if u > 0 {
        assert(c + u <= n);
        match brace_capture_exec(s, c + u) {
            Some(nm) => Some(nm),
            None => capture_here_exec(s, c),
        }
    } else {
        capture_here_exec(s, c)
    }
}

fn brace_ref_at_exec(s: &str, i: usize) -> (r: Option<(String, usize)>)
    requires
        i <= s@.len(),
    ensures
        match r {
            Some(nm) => brace_ref_at(s@, i as int) == Some((nm.0@, nm.1 as int)) && i < nm.1
                <= s@.len(),
            None => brace_ref_at(s@, i as int) is None,
        },
{
    let n = s.unicode_len();
    if n - i < 2 {
        return None;
    }
    if !(s.get_char(i) == '{' && s.get_char(i + 1) == '{') {
        return None;
    }
    match find_cloze_key_exec(s, i + 2) {
        None => None,
        Some(k) => brace_capture_exec(s, k + 6),
    }
}

fn pct_ref_at_exec(s: &str, i: usize) -> (r: Option<(String, usize)>)
    requires
        i <= s@.len(),
    ensures
        match r {
            Some(nm) => pct_ref_at(s@, i as int) == Some((nm.0@, nm.1 as int)) && i < nm.1
                <= s@.len(),
            None => pct_ref_at(s@, i as int) is None,
        },
{
    let n = s.unicode_len();
    if n - i < 8 {
        return None;
    }
    if !(s.get_char(i) == '<' && s.get_char(i + 1) == '%' && s.get_char(i + 2) == 'c' && s.get_char(
        i + 3,
    ) == 'l' && s.get_char(i + 4) == 'o' && s.get_char(i + 5) == 'z' && s.get_char(i + 6) == 'e'
        && s.get_char(i + 7) == ':') {
        return None;
    }
    if n - (i + 8) < 1 {
        proof {
            assert(first_pct_close(s@, i + 9) is None);
        }
        return None;
    }
    match first_pct_close_exec(s, i + 9) {
        None => None,
        Some(e) => {
            let name = s.substring_char(i + 8, e).to_owned();
            Some((name, e + 2))
        },
    }
}

proof fn lemma_has_name_push(r: Seq<String>, x: String)
    ensures
        forall|nm: Seq<char>| has_name(r, nm) ==> #[trigger] has_name(r.push(x), nm),
        has_name(r.push(x), x@),
        forall|nm: Seq<char>| #[trigger] has_name(r.push(x), nm) ==> (has_name(r, nm) || nm == x@),
{
    assert forall|nm: Seq<char>| has_name(r, nm) implies #[trigger] has_name(r.push(x), nm) by {
        let k0 = choose|k0: int| 0 <= k0 < r.len() && r[k0]@ == nm;
        assert(r.push(x)[k0]@ == nm);
    }
    assert(r.push(x)[r.len() as int]@ == x@);
    assert forall|nm: Seq<char>| #[trigger] has_name(r.push(x), nm) implies (has_name(r, nm) || nm
        == x@) by {
        let k0 = choose|k0: int| 0 <= k0 < r.push(x).len() && r.push(x)[k0]@ == nm;
        if k0 < r.len() {
            assert(r[k0]@ == nm);
        }
    }
}

/// Collects the field names referenced in brace style, in order of
/// appearance.
fn scan_brace_refs(s: &str) -> (r: Vec<String>)
    ensures
        forall|nm: Seq<char>| #[trigger] brace_refs_from(s@, 0).contains(nm) ==> has_name(r@, nm),
        forall|k: int| 0 <= k < r@.len() ==> brace_refs_from(s@, 0).contains(#[trigger] r@[k]@),
{
    let n = s.unicode_len();
    let mut r: Vec<String> = Vec::new();
    let mut i: usize = 0;
    while i < n
        invariant
            n == s@.len(),
            0 <= i <= n,
            forall|nm: Seq<char>|
                #[trigger] brace_refs_from(s@, 0).contains(nm) <==> (has_name(r@, nm)
                    || brace_refs_from(s@, i as int).contains(nm)),
        decreases n - i,
    {
        let ghost prev = r@;
        match brace_ref_at_exec(s, i) {
            Some(nm) => {
                proof {
                    assert(brace_refs_from(s@, i as int) == brace_refs_from(
                        s@,
                        nm.1 as int,
                    ).insert(nm.0@));
                    lemma_has_name_push(prev, nm.0);
                }
                let next = nm.1;
                r.push(nm.0);
                proof {
                    assert forall|w: Seq<char>| #[trigger]
                        brace_refs_from(s@, 0).contains(w) implies (has_name(r@, w)
                        || brace_refs_from(s@, next as int).contains(w)) by {
                        if !brace_refs_from(s@, next as int).contains(w) {
                            if !has_name(prev, w) {
                                assert(brace_refs_from(s@, i as int).contains(w));
                            }
                        }
                    }
                    assert forall|w: Seq<char>|
                        (has_name(r@, w) || brace_refs_from(s@, next as int).contains(
                            w,
                        )) implies #[trigger] brace_refs_from(s@, 0).contains(w) by {
                        if has_name(r@, w) {
                            if !has_name(prev, w) {
                                assert(brace_refs_from(s@, i as int).contains(w));
                            }
                        } else {
                            assert(brace_refs_from(s@, i as int).contains(w));
                        }
                    }
                }
                i = next;
            },
            None => {
                i += 1;
            },
        }
    }
    proof {
        assert(brace_refs_from(s@, n as int) =~= Set::<Seq<char>>::empty());
        assert forall|k: int| 0 <= k < r@.len() implies brace_refs_from(s@, 0).contains(
            #[trigger] r@[k]@,
        ) by {
            assert(has_name(r@, r@[k]@));
        }
    }
    r
}

/// Collects the field names referenced in percent style, in order of
/// appearance.
fn scan_pct_refs(s: &str) -> (r: Vec<String>)
    ensures
        forall|nm: Seq<char>| #[trigger] pct_refs_from(s@, 0).contains(nm) ==> has_name(r@, nm),
        forall|k: int| 0 <= k < r@.len() ==> pct_refs_from(s@, 0).contains(#[trigger] r@[k]@),
{
    let n = s.unicode_len();
    let mut r: Vec<String> = Vec::new();
    let mut i: usize = 0;
    while i < n
        invariant
            n == s@.len(),
            0 <= i <= n,
            forall|nm: Seq<char>|
                #[trigger] pct_refs_from(s@, 0).contains(nm) <==> (has_name(r@, nm)
                    || pct_refs_from(s@, i as int).contains(nm)),
        decreases n - i,
    {
        let ghost prev = r@;
        match pct_ref_at_exec(s, i) {
            Some(nm) => {
                proof {
                    assert(pct_refs_from(s@, i as int) == pct_refs_from(s@, nm.1 as int).insert(
                        nm.0@,
                    ));
                    lemma_has_name_push(prev, nm.0);
                }
                let next = nm.1;
                r.push(nm.0);
                proof {
                    assert forall|w: Seq<char>| #[trigger]
                        pct_refs_from(s@, 0).contains(w) implies (has_name(r@, w)
                        || pct_refs_from(s@, next as int).contains(w)) by {
                        if !pct_refs_from(s@, next as int).contains(w) {
                            if !has_name(prev, w) {
                                assert(pct_refs_from(s@, i as int).contains(w));
                            }
                        }
                    }
                    assert forall|w: Seq<char>|
                        (has_name(r@, w) || pct_refs_from(s@, next as int).contains(
                            w,
                        )) implies #[trigger] pct_refs_from(s@, 0).contains(w) by {
                        if has_name(r@, w) {
                            if !has_name(prev, w) {
                                assert(pct_refs_from(s@, i as int).contains(w));
                            }
                        } else {
                            assert(pct_refs_from(s@, i as int).contains(w));
                        }
                    }
                }
                i = next;
            },
            None => {
                i += 1;
            },
        }
    }
    proof {
        assert(pct_refs_from(s@, n as int) =~= Set::<Seq<char>>::empty());
        assert forall|k: int| 0 <= k < r@.len() implies pct_refs_from(s@, 0).contains(
            #[trigger] r@[k]@,
        ) by {
            assert(has_name(r@, r@[k]@));
        }
    }
    r
}

/// Collects every field name the pattern binds to the cloze machinery.
pub(crate) fn scan_cloze_refs(s: &str) -> (r: Vec<String>)
    ensures
        forall|nm: Seq<char>| #[trigger] cloze_refs(s@).contains(nm) ==> has_name(r@, nm),
        forall|k: int| 0 <= k < r@.len() ==> cloze_refs(s@).contains(#[trigger] r@[k]@),
{
    let mut r = scan_brace_refs(s);
    let ghost braces = r@;
    let pct = scan_pct_refs(s);
    let ghost pcts = pct@;
    let mut k: usize = 0;
    while k < pct.len()
        invariant
            pct@ == pcts,
            0 <= k <= pcts.len(),
            r@ == braces + pcts.subrange(0, k as int),
        decreases pcts.len() - k,
    {
        r.push(pct[k].clone());
        proof {
            assert(r@ =~= braces + pcts.subrange(0, k + 1));
        }
        k += 1;
    }
    proof {
        assert(pcts.subrange(0, pcts.len() as int) =~= pcts);
        assert(r@ == braces + pcts);
        assert forall|nm: Seq<char>| #[trigger] cloze_refs(s@).contains(nm) implies has_name(
            r@,
            nm,
        ) by {
            if brace_refs_from(s@, 0).contains(nm) {
                let k0 = choose|k0: int| 0 <= k0 < braces.len() && braces[k0]@ == nm;
                assert(r@[k0]@ == nm);
            } else {
                assert(pct_refs_from(s@, 0).contains(nm));
                let k0 = choose|k0: int| 0 <= k0 < pcts.len() && pcts[k0]@ == nm;
                assert(r@[braces.len() + k0]@ == nm);
            }
        }
        assert forall|k0: int| 0 <= k0 < r@.len() implies cloze_refs(s@).contains(
            #[trigger] r@[k0]@,
        ) by {
            if k0 < braces.len() {
                assert(brace_refs_from(s@, 0).contains(r@[k0]@));
            } else {
                assert(r@[k0] == pcts[k0 - braces.len()]);
                assert(pct_refs_from(s@, 0).contains(r@[k0]@));
            }
        }
    }
    r
}

} // verus!
