//! The functions of a file, found by name.
use vstd::prelude::*;
use crate::syntax::{Kind, Node};
use crate::text::same;
use crate::walk::nodes;

verus! {

/// The first free function of `list` that is named `name`.
pub open spec fn first_function(list: Seq<Node>, name: Seq<char>) -> Option<Node>
    decreases list.len(),
{
    if list.len() == 0 {
        None
    } else {
        match first_function(list.drop_last(), name) {
            Some(f) => Some(f),
            None => if list.last().kind is Function && list.last().name@ == name {
                Some(list.last())
            } else {
                None
            },
        }
    }
}

/// The last free function of `list` that is named `name`.
pub open spec fn last_function(list: Seq<Node>, name: Seq<char>) -> Option<Node>
    decreases list.len(),
{
    if list.len() == 0 {
        None
    } else if list.last().kind is Function && list.last().name@ == name {
        Some(list.last())
    } else {
        last_function(list.drop_last(), name)
    }
}

/// The first free function of a file, at whatever depth, that is named `name`.
pub open spec fn first_fn_in(file: Node, name: Seq<char>) -> Option<Node> {
    first_function(nodes(file), name)
}

/// Finds the first free function of `list` that is named `name`.
pub fn find_first<'a>(list: &Vec<&'a Node>, name: &str) -> (r: Option<&'a Node>)
    ensures
        r.is_some() == first_function(list@.unref(), name@).is_some(),
        r.is_some() ==> Some(*r.unwrap()) == first_function(list@.unref(), name@),
{
    let ghost all = list@.unref();
    let mut i: usize = 0;
    let mut r: Option<&Node> = None;
    while i < list.len()
        invariant
            i <= list@.len(),
            all == list@.unref(),
            r.is_some() == first_function(all.take(i as int), name@).is_some(),
            r.is_some() ==> Some(*r.unwrap()) == first_function(all.take(i as int), name@),
        decreases list@.len() - i,
    {
        assert(all.take(i as int + 1).drop_last() =~= all.take(i as int));
        assert(all.take(i as int + 1).last() == *list@[i as int]);
        if r.is_none() && matches!(list[i].kind, Kind::Function) && same(
            list[i].name.as_str(),
            name,
        ) {
            r = Some(list[i]);
        }
        i = i + 1;
    }
    assert(all.take(i as int) =~= all);
    r
}

/// Finds the last free function of `list` that is named `name`.
pub fn find_last<'a>(list: &Vec<&'a Node>, name: &str) -> (r: Option<&'a Node>)
    ensures
        r.is_some() == last_function(list@.unref(), name@).is_some(),
        r.is_some() ==> Some(*r.unwrap()) == last_function(list@.unref(), name@),
{
    let ghost all = list@.unref();
    let mut i: usize = 0;
    let mut r: Option<&Node> = None;
    while i < list.len()
        invariant
            i <= list@.len(),
            all == list@.unref(),
            r.is_some() == last_function(all.take(i as int), name@).is_some(),
            r.is_some() ==> Some(*r.unwrap()) == last_function(all.take(i as int), name@),
        decreases list@.len() - i,
    {
        assert(all.take(i as int + 1).drop_last() =~= all.take(i as int));
        assert(all.take(i as int + 1).last() == *list@[i as int]);
        if matches!(list[i].kind, Kind::Function) && same(list[i].name.as_str(), name) {
            r = Some(list[i]);
        }
        i = i + 1;
    }
    assert(all.take(i as int) =~= all);
    r
}

/// The node at `i` is the last free function of its name in `list`.
pub open spec fn last_of_name(list: Seq<Node>, i: int) -> bool {
    &&& 0 <= i < list.len()
    &&& list[i].kind is Function
    &&& forall|j: int|
        i < j < list.len() ==> !((#[trigger] list[j]).kind is Function && list[j].name@
            == list[i].name@)
}

/// Whether the node at `i` is the last free function of its name in `list`.
pub fn is_last_of_name(list: &Vec<&Node>, i: usize) -> (b: bool)
    requires
        i < list@.len(),
    ensures
        b == last_of_name(list@.unref(), i as int),
{
    let ghost all = list@.unref();
    assert(all[i as int] == *list@[i as int]);
    if !matches!(list[i].kind, Kind::Function) {
        return false;
    }
    let name = list[i].name.as_str();
    let total = list.len();
    let mut j: usize = i + 1;
    while j < total
        invariant
            i < j <= total,
            total == list@.len(),
            all == list@.unref(),
            name@ == all[i as int].name@,
            forall|k: int|
                i < k < j ==> !((#[trigger] all[k]).kind is Function && all[k].name@ == name@),
        decreases total - j,
    {
        assert(all[j as int] == *list@[j as int]);
        if matches!(list[j].kind, Kind::Function) && same(list[j].name.as_str(), name) {
            return false;
        }
        j = j + 1;
    }
    true
}

/// What is found first under a name is a free function of the list, and has that name.
pub proof fn lemma_first_function(list: Seq<Node>, name: Seq<char>)
    ensures
        first_function(list, name) matches Some(f) ==> list.contains(f) && f.kind is Function
            && f.name@ == name,
    decreases list.len(),
{
    if list.len() > 0 {
        lemma_first_function(list.drop_last(), name);
        match first_function(list.drop_last(), name) {
            Some(f) => {
                let k = list.drop_last().index_of(f);
                assert(list[k] == f);
            },
            None => {
                assert(list[list.len() - 1] == list.last());
            },
        }
    }
}

/// What is found last under a name is a free function of the list, and has that name.
pub proof fn lemma_last_function(list: Seq<Node>, name: Seq<char>)
    ensures
        last_function(list, name) matches Some(f) ==> list.contains(f) && f.kind is Function
            && f.name@ == name,
    decreases list.len(),
{
    if list.len() > 0 {
        lemma_last_function(list.drop_last(), name);
        match last_function(list.drop_last(), name) {
            Some(f) => {
                let k = list.drop_last().index_of(f);
                assert(list[k] == f);
            },
            None => {},
        }
        assert(list[list.len() - 1] == list.last());
    }
}

/// The one free function of `list` with its name is `h`.
pub open spec fn only_function(list: Seq<Node>, h: Node) -> bool {
    &&& h.kind is Function
    &&& list.contains(h)
    &&& forall|k: int|
        0 <= k < list.len() && (#[trigger] list[k]).kind is Function && list[k].name@ == h.name@
            ==> list[k] == h
}

/// The only function of its name is found by it, from either end.
pub proof fn law_only_function_is_found(list: Seq<Node>, h: Node)
    requires
        only_function(list, h),
    ensures
        first_function(list, h.name@) == Some(h),
        last_function(list, h.name@) == Some(h),
    decreases list.len(),
{
    let front = list.drop_last();
    assert(list[list.len() - 1] == list.last());
    assert forall|k: int|
        0 <= k < front.len() && (#[trigger] front[k]).kind is Function && front[k].name@
            == h.name@ implies front[k] == h by {
        assert(list[k] == front[k]);
    }
    if front.contains(h) {
        law_only_function_is_found(front, h);
    } else {
        let i = list.index_of(h);
        if i < front.len() {
            assert(front[i] == h);
        }
        assert(list.last() == h);
        assert forall|k: int| 0 <= k < front.len() implies !((#[trigger] front[k]).kind is Function
            && front[k].name@ == h.name@) by {
            if front[k].kind is Function && front[k].name@ == h.name@ {
                assert(front[k] == h);
                assert(front.contains(h));
            }
        }
        law_unknown_function_is_not_found(front, h.name@);
    }
}

/// A name that no function of `list` has is found from neither end.
pub proof fn law_unknown_function_is_not_found(list: Seq<Node>, name: Seq<char>)
    requires
        forall|k: int|
            0 <= k < list.len() ==> !((#[trigger] list[k]).kind is Function && list[k].name@ == name),
    ensures
        first_function(list, name) is None,
        last_function(list, name) is None,
    decreases list.len(),
{
    if list.len() > 0 {
        assert(!(list[list.len() - 1].kind is Function && list[list.len() - 1].name@ == name));
        assert forall|k: int| 0 <= k < list.drop_last().len() implies !((
        #[trigger] list.drop_last()[k]).kind is Function && list.drop_last()[k].name@ == name) by {
            assert(list[k] == list.drop_last()[k]);
        }
        law_unknown_function_is_not_found(list.drop_last(), name);
    }
}

} // verus!
