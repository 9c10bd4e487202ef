//! The foreign-key clause of a table definition: the leftmost occurrence of
//! ``FOREIGN KEY (`<column>`) REFERENCES `<table>` (`<attribute>`)`` in the
//! definition text that a metadata query returns, and the two referenced
//! names it carries.

use vstd::prelude::*;

use crate::scan::begins_with;

verus! {

/// Letters and digits: the characters a referenced name consists of.
pub open spec fn is_alnum(c: char) -> bool {
    (48 <= c as u32 && c as u32 <= 57) || (65 <= c as u32 && c as u32 <= 90) || (97 <= c as u32
        && c as u32 <= 122)
}

/// End of the run of name characters that starts at `j`.
pub open spec fn alnum_run_end(s: Seq<char>, j: int) -> int
    recommends
        0 <= j <= s.len(),
    decreases s.len() - j,
    when 0 <= j <= s.len()
{
    if j >= s.len() {
        j
    } else if is_alnum(s[j]) {
        alnum_run_end(s, j + 1)
    } else {
        j
    }
}

proof fn lemma_alnum_run_end(s: Seq<char>, j: int, k: int)
    requires
        0 <= j <= k <= s.len(),
        forall|i: int| j <= i < k ==> is_alnum(#[trigger] s[i]),
        k == s.len() || !is_alnum(s[k]),
    ensures
        alnum_run_end(s, j) == k,
    decreases k - j,
{
    if j < k {
        lemma_alnum_run_end(s, j + 1, k);
    }
}

/// The opening text of the clause for the named column.
pub open spec fn fk_prefix(name: Seq<char>) -> Seq<char> {
    "FOREIGN KEY (`"@ + name + "`) REFERENCES `"@
}

/// The clause for the named column, matched at position `i` of the
/// definition text: the referenced table and attribute names, if the shape
/// fits there.
pub open spec fn fk_match_at(def: Seq<char>, name: Seq<char>, i: int) -> Option<
    (Seq<char>, Seq<char>),
>
    recommends
        0 <= i <= def.len(),
{
    let opening = fk_prefix(name);
    if begins_with(def.skip(i), opening) {
        let j = i + opening.len();
        let k = alnum_run_end(def, j);
        if k > j && begins_with(def.skip(k), "` (`"@) {
            let m = alnum_run_end(def, k + 4);
            if m > k + 4 && begins_with(def.skip(m), "`)"@) {
                Some((def.subrange(j, k), def.subrange(k + 4, m)))
            } else {
                None
            }
        } else {
            None
        }
    } else {
        None
    }
}

/// The leftmost match of the clause at or after position `i`.
pub open spec fn fk_find_from(def: Seq<char>, name: Seq<char>, i: int) -> Option<
    (Seq<char>, Seq<char>),
>
    recommends
        0 <= i <= def.len(),
    decreases def.len() - i,
    when 0 <= i <= def.len()
{
    if i >= def.len() {
        None
    } else if fk_match_at(def, name, i).is_some() {
        fk_match_at(def, name, i)
    } else {
        fk_find_from(def, name, i + 1)
    }
}

/// The leftmost match of the clause in the whole definition text.
pub open spec fn fk_find(def: Seq<char>, name: Seq<char>) -> Option<(Seq<char>, Seq<char>)> {
    fk_find_from(def, name, 0)
}

/// With no match before `i`, the leftmost match overall is the leftmost
/// match at or after `i`.
proof fn lemma_fk_find_skip(def: Seq<char>, name: Seq<char>, i: int)
    requires
        0 <= i <= def.len(),
        forall|j: int| 0 <= j < i ==> fk_match_at(def, name, j) is None,
    ensures
        fk_find(def, name) == fk_find_from(def, name, i),
    decreases i,
{
    if i > 0 {
        lemma_fk_find_skip(def, name, i - 1);
    }
}

fn is_alnum_exec(c: char) -> (r: bool)
    ensures
        r == is_alnum(c),
{
    let v = c as u32;
    (48 <= v && v <= 57) || (65 <= v && v <= 90) || (97 <= v && v <= 122)
}

fn alnum_end(s: &str, j: usize) -> (k: usize)
    requires
        j <= s@.len(),
    ensures
        k == alnum_run_end(s@, j as int),
        j <= k <= s@.len(),
{
    let n = s.unicode_len();
    let mut k = j;
    loop
        invariant
            n == s@.len(),
            j <= k <= n,
            forall|i: int| j <= i < k ==> is_alnum(#[trigger] s@[i]),
        ensures
            j <= k <= n,
            forall|i: int| j <= i < k ==> is_alnum(#[trigger] s@[i]),
            k == n || !is_alnum(s@[k as int]),
        decreases n - k,
    {
        if k >= n {
            break;
        }
        if !is_alnum_exec(s.get_char(k)) {
            break;
        }
        k = k + 1;
    }
    proof {
        lemma_alnum_run_end(s@, j as int, k as int);
    }
    k
}

/// Whether `kw` occurs in `s` at position `i`.
fn starts_with_at(s: &str, kw: &str, i: usize) -> (r: bool)
    requires
        i <= s@.len(),
    ensures
        r == begins_with(s@.skip(i as int), kw@),
{
    let m = kw.unicode_len();
    let n = s.unicode_len();
    if m > n - i {
        return false;
    }
    let ghost tail = s@.skip(i as int);
    let mut t: usize = 0;
    while t < m
        invariant
            m == kw@.len(),
            n == s@.len(),
            i + m <= n,
            tail == s@.skip(i as int),
            0 <= t <= m,
            forall|j: int| 0 <= j < t ==> tail[j] == kw@[j],
        decreases m - t,
    {
        let a = s.get_char(i + t);
        let b = kw.get_char(t);
        proof {
            assert(tail[t as int] == s@[i + t]);
        }
        if a != b {
            proof {
                crate::scan::lemma_not_prefix_at(tail, kw@, t as int);
            }
            return false;
        }
        t = t + 1;
    }
    true
}

fn try_match_at(def: &str, opening: &str, i: usize, Ghost(name): Ghost<Seq<char>>) -> (r: Option<
    (String, String),
>)
    requires
        i <= def@.len(),
        opening@ == fk_prefix(name),
    ensures
        match r {
            Some(p) => {
                &&& fk_match_at(def@, name, i as int) is Some
                &&& p.0@ == fk_match_at(def@, name, i as int).unwrap().0
                &&& p.1@ == fk_match_at(def@, name, i as int).unwrap().1
            },
            None => fk_match_at(def@, name, i as int) is None,
        },
{
    let nd = def.unicode_len();
    if !starts_with_at(def, opening, i) {
        return None;
    }
    proof {
        assert(def@.skip(i as int).len() == nd - i);
    }
    let j = i + opening.unicode_len();
    let k = alnum_end(def, j);
    if k == j {
        return None;
    }
    if !starts_with_at(def, "` (`", k) {
        return None;
    }
    proof {
        reveal_strlit("` (`");
        assert(def@.skip(k as int).len() == nd - k);
        assert(k + 4 <= nd);
    }
    let m = alnum_end(def, k + 4);
    if m == k + 4 {
        return None;
    }
    if !starts_with_at(def, "`)", m) {
        return None;
    }
    let table = String::from_str(def.substring_char(j, k));
    let attr = String::from_str(def.substring_char(k + 4, m));
    Some((table, attr))
}

/// The referenced table and attribute of the foreign-key clause for the
/// named column, from the leftmost occurrence of the clause in the
/// definition text; `None` when the text holds no such clause.
pub fn find_foreign_key(def: &str, name: &str) -> (r: Option<(String, String)>)
    ensures
        match r {
            Some(p) => {
                &&& fk_find(def@, name@) is Some
                &&& p.0@ == fk_find(def@, name@).unwrap().0
                &&& p.1@ == fk_find(def@, name@).unwrap().1
            },
            None => fk_find(def@, name@) is None,
        },
{
    let opening = String::from_str("FOREIGN KEY (`").concat(name).concat("`) REFERENCES `");
    proof {
        assert(opening@ =~= fk_prefix(name@));
    }
    let n = def.unicode_len();
    let mut i: usize = 0;
    while i < n
        invariant
            n == def@.len(),
            0 <= i <= n,
            opening@ == fk_prefix(name@),
            forall|j: int| 0 <= j < i ==> fk_match_at(def@, name@, j) is None,
        decreases n - i,
    {
        match try_match_at(def, opening.as_str(), i, Ghost(name@)) {
            Some(p) => {
                proof {
                    lemma_fk_find_skip(def@, name@, i as int);
                }
                return Some(p);
            },
            None => {},
        }
        i = i + 1;
    }
    proof {
        lemma_fk_find_skip(def@, name@, n as int);
    }
    None
}

} // verus!
