//! Search in the bytes of a text.
use vstd::prelude::*;

verus! {

/// `needle` occurs in `hay` at `i`.
pub open spec fn bytes_at(hay: Seq<u8>, needle: Seq<u8>, i: int) -> bool {
    0 <= i <= hay.len() - needle.len() && hay.subrange(i, i + needle.len()) == needle
}

/// The first place, at or behind `from`, where `needle` occurs in `hay`.
pub open spec fn first_bytes(hay: Seq<u8>, needle: Seq<u8>, from: int) -> Option<int>
    decreases hay.len() - from + 1,
{
    if from < 0 || from > hay.len() - needle.len() {
        None
    } else if bytes_at(hay, needle, from) {
        Some(from)
    } else {
        first_bytes(hay, needle, from + 1)
    }
}

/// `needle` occurs in `hay` between `from` and `to`.
pub open spec fn bytes_between(hay: Seq<u8>, needle: Seq<u8>, from: int, to: int) -> bool {
    exists|i: int| from <= i && i + needle.len() <= to && #[trigger] bytes_at(hay, needle, i)
}

/// A first match lies at or behind the place where the search starts, and is one.
pub proof fn lemma_first_bytes(hay: Seq<u8>, needle: Seq<u8>, from: int)
    ensures
        first_bytes(hay, needle, from) matches Some(i) ==> from <= i && bytes_at(hay, needle, i),
        first_bytes(hay, needle, from) matches Some(i) ==> forall|k: int|
            from <= k < i ==> !#[trigger] bytes_at(hay, needle, k),
        from >= 0 && first_bytes(hay, needle, from) is None ==> forall|k: int|
            from <= k ==> !#[trigger] bytes_at(hay, needle, k),
    decreases hay.len() - from + 1,
{
    if from < 0 || from > hay.len() - needle.len() {
    } else if bytes_at(hay, needle, from) {
    } else {
        lemma_first_bytes(hay, needle, from + 1);
    }
}

/// Whether `needle` occurs in `hay` at `i`.
fn occurs_here(hay: &[u8], needle: &[u8], i: usize) -> (b: bool)
    requires
        i + needle@.len() <= hay@.len(),
    ensures
        b == bytes_at(hay@, needle@, i as int),
{
    let total = hay.len();
    let mut k: usize = 0;
    while k < needle.len()
        invariant
            k <= needle@.len(),
            total == hay@.len(),
            i + needle@.len() <= hay@.len(),
            forall|j: int| 0 <= j < k ==> hay@[i + j] == #[trigger] needle@[j],
        decreases needle@.len() - k,
    {
        if hay[i + k] != needle[k] {
            assert(hay@.subrange(i as int, i + needle@.len())[k as int] != needle@[k as int]);
            return false;
        }
        k = k + 1;
    }
    assert(hay@.subrange(i as int, i + needle@.len()) =~= needle@);
    true
}

/// Finds the first place, at or behind `from`, where `needle` occurs in `hay`.
pub fn find_bytes(hay: &[u8], needle: &[u8], from: usize) -> (r: Option<usize>)
    ensures
        match r {
            Some(i) => first_bytes(hay@, needle@, from as int) == Some(i as int),
            None => first_bytes(hay@, needle@, from as int) is None,
        },
{
    if needle.len() > hay.len() {
        return None;
    }
    let last: usize = hay.len() - needle.len();
    let mut i: usize = from;
    while i <= last
        invariant
            last == hay@.len() - needle@.len(),
            from <= i,
            first_bytes(hay@, needle@, from as int) == first_bytes(hay@, needle@, i as int),
        decreases last + 1 - i,
    {
        if occurs_here(hay, needle, i) {
            return Some(i);
        }
        if i == usize::MAX {
            return None;
        }
        i = i + 1;
    }
    None
}

/// Whether `needle` occurs in `hay` between `from` and `to`.
pub fn finds_between(hay: &[u8], needle: &[u8], from: usize, to: usize) -> (b: bool)
    requires
        to <= hay@.len(),
    ensures
        b == bytes_between(hay@, needle@, from as int, to as int),
{
    proof {
        lemma_first_bytes(hay@, needle@, from as int);
    }
    let total = hay.len();
    match find_bytes(hay, needle, from) {
        Some(i) => {
            let b = i + needle.len() <= to;
            proof {
                if !b {
                    assert forall|k: int| from <= k && k + needle@.len() <= to implies !#[trigger] bytes_at(
                        hay@,
                        needle@,
                        k,
                    ) by {
                        assert(k < i);
                    }
                }
            }
            b
        },
        None => false,
    }
}

} // verus!
