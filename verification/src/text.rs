use vstd::prelude::*;

verus! {

/// Character-wise string equality.
pub fn str_eq(a: &str, b: &str) -> (r: bool)
    ensures
        r == (a@ == b@),
{
    let na = a.unicode_len();
    let nb = b.unicode_len();
    if na != nb {
        assert(a@.len() != b@.len());
        return false;
    }
    let mut i: usize = 0;
    while i < na
        invariant
            i <= na,
            na == a@.len() == b@.len(),
            forall|j: int| 0 <= j < i ==> a@[j] == b@[j],
        decreases na - i,
    {
        if a.get_char(i) != b.get_char(i) {
            return false;
        }
        i += 1;
    }
    proof {
        assert(a@ =~= b@);
    }
    true
}

/// Clone a vector of strings, keeping the character sequences.
pub fn clone_string_vec(v: &Vec<String>) -> (r: Vec<String>)
    ensures
        r.deep_view() == v.deep_view(),
{
    let mut r: Vec<String> = Vec::new();
    let mut i: usize = 0;
    while i < v.len()
        invariant
            i <= v@.len(),
            r@.len() == i,
            forall|j: int| 0 <= j < i ==> r@[j]@ == v@[j]@,
        decreases v@.len() - i,
    {
        r.push(v[i].clone());
        i += 1;
    }
    proof {
        assert(r.deep_view() =~= v.deep_view());
    }
    r
}

/// Element-wise equality of two string vectors.
pub fn string_vec_eq(a: &Vec<String>, b: &Vec<String>) -> (r: bool)
    ensures
        r == (a.deep_view() == b.deep_view()),
{
    if a.len() != b.len() {
        assert(a.deep_view().len() != b.deep_view().len());
        return false;
    }
    let n = a.len();
    let mut i: usize = 0;
    while i < n
        invariant
            i <= n,
            n == a@.len() == b@.len(),
            forall|j: int| 0 <= j < i ==> a@[j]@ == b@[j]@,
        decreases n - i,
    {
        if !str_eq(a[i].as_str(), b[i].as_str()) {
            assert(a.deep_view()[i as int] != b.deep_view()[i as int]);
            return false;
        }
        i += 1;
    }
    proof {
        assert(a.deep_view() =~= b.deep_view());
    }
    true
}

/// Equality of two optional string vectors: same presence, same contents.
pub fn opt_string_vec_eq(a: &Option<Vec<String>>, b: &Option<Vec<String>>) -> (r: bool)
    ensures
        r == (match (a, b) {
            (Some(av), Some(bv)) => av.deep_view() == bv.deep_view(),
            (None, None) => true,
            _ => false,
        }),
{
    match (a, b) {
        (Some(av), Some(bv)) => string_vec_eq(av, bv),
        (None, None) => true,
        _ => false,
    }
}

/// Clone an optional vector of strings, keeping presence and contents.
pub fn clone_opt_string_vec(v: &Option<Vec<String>>) -> (r: Option<Vec<String>>)
    ensures
        v is Some <==> r is Some,
        r matches Some(rv) ==> v matches Some(vv) && rv.deep_view() == vv.deep_view(),
{
    match v {
        Some(vv) => Some(clone_string_vec(vv)),
        None => None,
    }
}

/// The code point of `c` with an ASCII capital letter folded to lower case.
pub open spec fn lower32(c: char) -> u32 {
    if 65 <= c as u32 && c as u32 <= 90 {
        (c as u32 + 32) as u32
    } else {
        c as u32
    }
}

/// The pattern matches the text at offset `k`, ASCII-case-insensitively.
pub open spec fn ci_match_at(t: Seq<char>, p: Seq<char>, k: int) -> bool {
    forall|j: int| 0 <= j < p.len() ==> lower32(p[j]) == lower32(t[k + j])
}

/// The text contains the pattern as a substring, ASCII-case-insensitively.
pub open spec fn contains_ci(t: Seq<char>, p: Seq<char>) -> bool {
    exists|k: int| 0 <= k && k + p.len() <= t.len() && ci_match_at(t, p, k)
}

/// The folded code point of one character.
fn lower_u32(c: char) -> (r: u32)
    ensures
        r == lower32(c),
{
    let u = c as u32;
    if 65 <= u && u <= 90 {
        u + 32
    } else {
        u
    }
}

/// ASCII-case-insensitive substring test.
pub fn str_contains_ci(t: &str, p: &str) -> (r: bool)
    ensures
        r == contains_ci(t@, p@),
{
    let nt = t.unicode_len();
    let np = p.unicode_len();
    if np > nt {
        return false;
    }
    let mut k: usize = 0;
    while k <= nt - np
        invariant
            np <= nt,
            k <= nt - np + 1,
            nt == t@.len(),
            np == p@.len(),
            forall|k2: int| 0 <= k2 < k ==> !ci_match_at(t@, p@, k2),
        decreases nt - np - k + 1,
    {
        let mut j: usize = 0;
        let mut mismatch = false;
        while j < np && !mismatch
            invariant
                !mismatch ==> forall|j2: int| 0 <= j2 < j ==> lower32(p@[j2]) == lower32(
                    t@[k + j2],
                ),
                mismatch ==> !ci_match_at(t@, p@, k as int),
                j <= np,
                k + np <= nt,
                nt == t@.len(),
                np == p@.len(),
            decreases np - j, (if mismatch { 0int } else { 1int }),
        {
            if lower_u32(p.get_char(j)) != lower_u32(t.get_char(k + j)) {
                mismatch = true;
            } else {
                j += 1;
            }
        }
        if !mismatch {
            assert(ci_match_at(t@, p@, k as int));
            return true;
        }
        k += 1;
    }
    proof {
        assert(forall|k2: int| 0 <= k2 && k2 + p@.len() <= t@.len() ==> !ci_match_at(
            t@,
            p@,
            k2,
        ));
    }
    false
}

} // verus!
