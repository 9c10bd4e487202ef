//! Anchored text scanning: prefix matching, digit runs and bounded decimal
//! parsing. The type-declaration parser and the foreign-key clause parser are
//! built on these.

use vstd::prelude::*;

use crate::text::{is_digit, digit_val, seq_to_nat, lemma_seq_to_nat_prefix_le};

verus! {

/// `kw` occurs at the very start of `s`.
pub open spec fn begins_with(s: Seq<char>, kw: Seq<char>) -> bool {
    kw.len() <= s.len() && forall|i: int| 0 <= i < kw.len() ==> s[i] == kw[i]
}

/// A sequence that starts with `kw` begins with `kw`.
pub proof fn lemma_prefix_concat(kw: Seq<char>, rest: Seq<char>)
    ensures
        begins_with(kw + rest, kw),
{
    assert forall|i: int| 0 <= i < kw.len() implies (kw + rest)[i] == kw[i] by {}
}

/// A mismatch at one position refutes the prefix.
pub proof fn lemma_not_prefix_at(s: Seq<char>, kw: Seq<char>, i: int)
    requires
        0 <= i < kw.len(),
        i < s.len(),
        s[i] != kw[i],
    ensures
        !begins_with(s, kw),
{
    if begins_with(s, kw) {
        assert(s[i] == kw[i]);
    }
}

/// End of the run of digit characters that starts at `j`: the first position
/// at or after `j` holding a non-digit, or the end of `s`.
pub open spec fn digit_run_end(s: Seq<char>, j: int) -> int
    recommends
        0 <= j <= s.len(),
    decreases s.len() - j,
    when 0 <= j <= s.len()
{
    if j >= s.len() {
        j
    } else if is_digit(s[j]) {
        digit_run_end(s, j + 1)
    } else {
        j
    }
}

/// The run end is where the digits stop.
pub proof fn lemma_digit_run_end(s: Seq<char>, j: int, k: int)
    requires
        0 <= j <= k <= s.len(),
        forall|i: int| j <= i < k ==> is_digit(#[trigger] s[i]),
        k == s.len() || !is_digit(s[k]),
    ensures
        digit_run_end(s, j) == k,
    decreases k - j,
{
    if j < k {
        lemma_digit_run_end(s, j + 1, k);
    }
}

/// Basic bounds of the run end.
pub proof fn lemma_digit_run_end_bounds(s: Seq<char>, j: int)
    requires
        0 <= j <= s.len(),
    ensures
        j <= digit_run_end(s, j) <= s.len(),
        forall|i: int| j <= i < digit_run_end(s, j) ==> is_digit(#[trigger] s[i]),
        digit_run_end(s, j) == s.len() || !is_digit(s[digit_run_end(s, j)]),
    decreases s.len() - j,
{
    if j < s.len() && is_digit(s[j]) {
        lemma_digit_run_end_bounds(s, j + 1);
    }
}

/// Whether `s` starts with `kw`.
pub fn starts_with_kw(s: &str, kw: &str) -> (r: bool)
    ensures
        r == begins_with(s@, kw@),
{
    let m = kw.unicode_len();
    let n = s.unicode_len();
    if m > n {
        return false;
    }
    let mut i: usize = 0;
    while i < m
        invariant
            m == kw@.len(),
            n == s@.len(),
            m <= n,
            0 <= i <= m,
            forall|j: int| 0 <= j < i ==> s@[j] == kw@[j],
        decreases m - i,
    {
        let a = s.get_char(i);
        let b = kw.get_char(i);
        if a != b {
            proof {
                lemma_not_prefix_at(s@, kw@, i as int);
            }
            return false;
        }
        i = i + 1;
    }
    true
}

fn is_digit_exec(c: char) -> (r: bool)
    ensures
        r == is_digit(c),
{
    match c {
        '0' => true,
        '1' => true,
        '2' => true,
        '3' => true,
        '4' => true,
        '5' => true,
        '6' => true,
        '7' => true,
        '8' => true,
        '9' => true,
        _ => false,
    }
}

fn digit_val_exec(c: char) -> (r: u32)
    ensures
        r == digit_val(c),
{
    match c {
        '1' => 1,
        '2' => 2,
        '3' => 3,
        '4' => 4,
        '5' => 5,
        '6' => 6,
        '7' => 7,
        '8' => 8,
        '9' => 9,
        _ => 0,
    }
}

/// End of the digit run of `s` that starts at `j`.
pub fn digit_end(s: &str, j: usize) -> (k: usize)
    requires
        j <= s@.len(),
    ensures
        k == digit_run_end(s@, j as int),
        j <= k <= s@.len(),
{
    let n = s.unicode_len();
    let mut k = j;
    loop
        invariant
            n == s@.len(),
            j <= k <= n,
            forall|i: int| j <= i < k ==> is_digit(#[trigger] s@[i]),
        ensures
            j <= k <= n,
            forall|i: int| j <= i < k ==> is_digit(#[trigger] s@[i]),
            k == n || !is_digit(s@[k as int]),
        decreases n - k,
    {
        if k >= n {
            break;
        }
        if !is_digit_exec(s.get_char(k)) {
            break;
        }
        k = k + 1;
    }
    proof {
        lemma_digit_run_end(s@, j as int, k as int);
    }
    k
}

/// Value of the digit run `s[j..k]`, refused above `bound`.
pub fn parse_num(s: &str, j: usize, k: usize, bound: u32) -> (r: Option<u32>)
    requires
        j <= k <= s@.len(),
        forall|i: int| j <= i < k ==> is_digit(#[trigger] s@[i]),
    ensures
        match r {
            Some(v) => v <= bound && v as nat == seq_to_nat(s@.subrange(j as int, k as int)),
            None => seq_to_nat(s@.subrange(j as int, k as int)) > bound,
        },
{
    let mut acc: u64 = 0;
    let mut i = j;
    while i < k
        invariant
            j <= i <= k <= s@.len(),
            forall|t: int| j <= t < k ==> is_digit(#[trigger] s@[t]),
            acc <= bound,
            acc as nat == seq_to_nat(s@.subrange(j as int, i as int)),
            bound <= u32::MAX,
        decreases k - i,
    {
        let c = s.get_char(i);
        let d = digit_val_exec(c);
        let next: u64 = acc * 10 + (d as u64);
        proof {
            assert(s@.subrange(j as int, i + 1).drop_last() =~= s@.subrange(j as int, i as int));
            assert(s@.subrange(j as int, i + 1).last() == s@[i as int]);
        }
        if next > bound as u64 {
            proof {
                let full = s@.subrange(j as int, k as int);
                lemma_seq_to_nat_prefix_le(full, i + 1 - j);
                assert(full.take(i + 1 - j) =~= s@.subrange(j as int, i + 1));
            }
            return None;
        }
        acc = next;
        i = i + 1;
    }
    Some(acc as u32)
}

} // verus!
