//! Character scanning over lines of text: finding the first occurrence of a
//! marker character, and copying out a slice of a line.

use vstd::prelude::*;

verus! {

/// The index of the first character of `s` that belongs to `cs`, if any.
pub open spec fn find_in(s: Seq<char>, cs: Set<char>) -> Option<int>
    decreases s.len(),
{
    if s.len() == 0 {
        None
    } else if cs.contains(s[0]) {
        Some(0)
    } else {
        match find_in(s.drop_first(), cs) {
            None => None,
            Some(i) => Some(i + 1),
        }
    }
}

/// `find_in` returns exactly the first occurrence: a hit is in bounds, lies in
/// `cs`, and nothing before it does; a miss means no character of `s` is in `cs`.
pub proof fn lemma_find_in_props(s: Seq<char>, cs: Set<char>)
    ensures
        match find_in(s, cs) {
            None => forall|j: int| 0 <= j < s.len() ==> !cs.contains(s[j]),
            Some(i) => 0 <= i < s.len() && cs.contains(s[i]) && (forall|j: int|
                0 <= j < i ==> !cs.contains(s[j])),
        },
    decreases s.len(),
{
    if s.len() == 0 {
    } else if cs.contains(s[0]) {
    } else {
        lemma_find_in_props(s.drop_first(), cs);
        match find_in(s.drop_first(), cs) {
            None => {
                assert forall|j: int| 0 <= j < s.len() implies !cs.contains(s[j]) by {
                    if j > 0 {
                        assert(s[j] == s.drop_first()[j - 1]);
                    }
                }
            },
            Some(i) => {
                assert(s[i + 1] == s.drop_first()[i]);
                assert forall|j: int| 0 <= j < i + 1 implies !cs.contains(s[j]) by {
                    if j > 0 {
                        assert(s[j] == s.drop_first()[j - 1]);
                    }
                }
            },
        }
    }
}

/// If `k` is an occurrence and nothing before it is, then `k` is what
/// `find_in` returns.
pub proof fn lemma_find_in_at(s: Seq<char>, cs: Set<char>, k: int)
    requires
        0 <= k < s.len(),
        cs.contains(s[k]),
        forall|j: int| 0 <= j < k ==> !cs.contains(s[j]),
    ensures
        find_in(s, cs) == Some(k),
{
    lemma_find_in_props(s, cs);
    match find_in(s, cs) {
        None => {
            assert(!cs.contains(s[k]));
        },
        Some(i) => {
            if i < k {
                assert(!cs.contains(s[i]));
            }
            if i > k {
                assert(!cs.contains(s[k]));
            }
        },
    }
}

/// If no character of `s` is in `cs`, `find_in` returns nothing.
pub proof fn lemma_find_in_none(s: Seq<char>, cs: Set<char>)
    requires
        forall|j: int| 0 <= j < s.len() ==> !cs.contains(s[j]),
    ensures
        find_in(s, cs) == None::<int>,
{
    lemma_find_in_props(s, cs);
    match find_in(s, cs) {
        None => {},
        Some(i) => {
            assert(!cs.contains(s[i]));
        },
    }
}

/// Scan `line` from index `from` for the first occurrence of `c1` or `c2`.
pub fn find_from(line: &Vec<char>, from: usize, c1: char, c2: char) -> (r: Option<usize>)
    requires
        from <= line@.len(),
    ensures
        match r {
            Some(i) => from <= i < line@.len() && (line@[i as int] == c1 || line@[i as int] == c2)
                && find_in(line@.skip(from as int), set![c1, c2]) == Some(i - from),
            None => find_in(line@.skip(from as int), set![c1, c2]) == None::<int>,
        },
{
    let ghost suffix = line@.skip(from as int);
    let mut i: usize = from;
    while i < line.len()
        invariant
            from <= i <= line@.len(),
            suffix == line@.skip(from as int),
            forall|j: int| from <= j < i ==> line@[j] != c1 && line@[j] != c2,
        decreases line@.len() - i,
    {
        let ch = line[i];
        if ch == c1 || ch == c2 {
            proof {
                assert(suffix[i - from] == line@[i as int]);
                assert forall|j: int| 0 <= j < i - from implies !set![c1, c2].contains(
                    suffix[j],
                ) by {
                    assert(suffix[j] == line@[from + j]);
                }
                lemma_find_in_at(suffix, set![c1, c2], i - from);
            }
            return Some(i);
        }
        i = i + 1;
    }
    proof {
        assert forall|j: int| 0 <= j < suffix.len() implies !set![c1, c2].contains(suffix[j]) by {
            assert(suffix[j] == line@[from + j]);
        }
        lemma_find_in_none(suffix, set![c1, c2]);
    }
    None
}

/// A fresh copy of `line[start..end]`.
pub fn sub_chars(line: &Vec<char>, start: usize, end: usize) -> (r: Vec<char>)
    requires
        start <= end <= line@.len(),
    ensures
        r@ == line@.subrange(start as int, end as int),
{
    let mut r: Vec<char> = Vec::new();
    let mut i: usize = start;
    while i < end
        invariant
            start <= i <= end <= line@.len(),
            r@ == line@.subrange(start as int, i as int),
        decreases end - i,
    {
        r.push(line[i]);
        proof {
            assert(line@.subrange(start as int, i as int).push(line@[i as int]) =~= line@.subrange(
                start as int,
                i + 1,
            ));
        }
        i = i + 1;
    }
    r
}

} // verus!
