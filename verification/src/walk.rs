//! Depth-first visits of the syntax tree, and questions asked of the nodes met.
use vstd::prelude::*;
use crate::finding::{reports, Finding, Report};
use crate::syntax::{Kind, Node, Role};
use crate::text::{lemma_holds_middle, mentions, texts};

verus! {

/// The nodes that a depth-first visit of `n` meets, in order, when it goes below
/// a node only where `enter` says so.
pub open spec fn walk(n: Node, enter: spec_fn(Node) -> bool) -> Seq<Node>
    decreases n,
{
    if enter(n) { seq![n] + walk_all(n.children@, enter) } else { seq![n] }
}

/// The nodes that the visits of `list` meet, one after the other.
pub open spec fn walk_all(list: Seq<Node>, enter: spec_fn(Node) -> bool) -> Seq<Node>
    decreases list,
{
    if list.len() == 0 {
        Seq::empty()
    } else {
        walk_all(list.drop_last(), enter) + walk(list.last(), enter)
    }
}

/// Go below every node.
pub open spec fn everywhere() -> spec_fn(Node) -> bool {
    |n: Node| true
}

/// Every node of the tree `n`, in depth-first order.
pub open spec fn nodes(n: Node) -> Seq<Node> {
    walk(n, everywhere())
}

/// Every node of the tree `n`, in depth-first order, when macro calls are looked
/// into: in the place of the nodes below one come those of its arguments.
pub open spec fn open_nodes(n: Node) -> Seq<Node>
    decreases n,
{
    if n.kind is Macro {
        match n.args {
            Some(args) => seq![n] + open_nodes_all(args@),
            None => seq![n],
        }
    } else {
        seq![n] + open_nodes_all(n.children@)
    }
}

/// Every node of the trees in `list`, when macro calls are looked into.
pub open spec fn open_nodes_all(list: Seq<Node>) -> Seq<Node>
    decreases list,
{
    if list.len() == 0 {
        Seq::empty()
    } else {
        open_nodes_all(list.drop_last()) + open_nodes(list.last())
    }
}

/// Some node of `list` satisfies `p`.
pub open spec fn some(list: Seq<Node>, p: spec_fn(Node) -> bool) -> bool {
    exists|i: int| 0 <= i < list.len() && #[trigger] p(list[i])
}

/// The nodes of `list` that satisfy `p`, in order.
pub open spec fn kept(list: Seq<Node>, p: spec_fn(Node) -> bool) -> Seq<Node>
    decreases list.len(),
{
    if list.len() == 0 {
        Seq::empty()
    } else if p(list.last()) {
        kept(list.drop_last(), p).push(list.last())
    } else {
        kept(list.drop_last(), p)
    }
}

/// The first node of `list` that satisfies `p`.
pub open spec fn first_node(list: Seq<Node>, p: spec_fn(Node) -> bool) -> Option<Node>
    decreases list.len(),
{
    if list.len() == 0 {
        None
    } else {
        match first_node(list.drop_last(), p) {
            Some(n) => Some(n),
            None => if p(list.last()) { Some(list.last()) } else { None },
        }
    }
}

/// The last node of `list` that satisfies `p`.
pub open spec fn last_node(list: Seq<Node>, p: spec_fn(Node) -> bool) -> Option<Node>
    decreases list.len(),
{
    if list.len() == 0 {
        None
    } else if p(list.last()) {
        Some(list.last())
    } else {
        last_node(list.drop_last(), p)
    }
}

/// What `f` gives on the nodes of `list`, in order.
pub open spec fn names_of(list: Seq<Node>, f: spec_fn(Node) -> Option<Seq<char>>) -> Seq<Seq<char>>
    decreases list.len(),
{
    if list.len() == 0 {
        Seq::empty()
    } else {
        let before = names_of(list.drop_last(), f);
        match f(list.last()) {
            Some(name) => before.push(name),
            None => before,
        }
    }
}

/// The reports that `f` makes on the nodes of `list`, in order.
pub open spec fn reports_of(list: Seq<Node>, f: spec_fn(Node) -> Option<Report>) -> Seq<Report>
    decreases list.len(),
{
    if list.len() == 0 {
        Seq::empty()
    } else {
        let before = reports_of(list.drop_last(), f);
        match f(list.last()) {
            Some(report) => before.push(report),
            None => before,
        }
    }
}

/// The reports that `f` makes on the nodes of `list`, any number on each, in order.
pub open spec fn all_reports(list: Seq<Node>, f: spec_fn(Node) -> Seq<Report>) -> Seq<Report>
    decreases list.len(),
{
    if list.len() == 0 {
        Seq::empty()
    } else {
        all_reports(list.drop_last(), f) + f(list.last())
    }
}

/// Appends the nodes that the visit of `n` meets.
pub(crate) fn push_walk<'a, F: Fn(&Node) -> bool>(
    n: &'a Node,
    enter: &F,
    Ghost(p): Ghost<spec_fn(Node) -> bool>,
    out: &mut Vec<&'a Node>,
)
    requires
        forall|m: &Node| #[trigger] call_requires(*enter, (m,)),
        forall|m: &Node, b: bool| #[trigger] call_ensures(*enter, (m,), b) ==> b == p(*m),
    ensures
        final(out)@.unref() == old(out)@.unref() + walk(*n, p),
    decreases n,
{
    let ghost before = out@;
    out.push(n);
    if (*enter)(n) {
        let mut i: usize = 0;
        while i < n.children.len()
            invariant
                i <= n.children@.len(),
                forall|m: &Node| #[trigger] call_requires(*enter, (m,)),
                forall|m: &Node, b: bool| #[trigger] call_ensures(*enter, (m,), b) ==> b == p(*m),
                out@.unref() == before.unref() + seq![*n] + walk_all(
                    n.children@.take(i as int),
                    p,
                ),
            decreases n.children@.len() - i,
        {
            push_walk(&n.children[i], enter, Ghost(p), out);
            assert(n.children@.take(i as int + 1).drop_last() =~= n.children@.take(i as int));
            i = i + 1;
        }
        assert(n.children@.take(i as int) =~= n.children@);
    }
    assert(out@.unref() =~= before.unref() + walk(*n, p));
}

/// The nodes that the visit of `n` meets.
pub(crate) fn walk_nodes<'a, F: Fn(&Node) -> bool>(
    n: &'a Node,
    enter: F,
    Ghost(p): Ghost<spec_fn(Node) -> bool>,
) -> (r: Vec<&'a Node>)
    requires
        forall|m: &Node| #[trigger] call_requires(enter, (m,)),
        forall|m: &Node, b: bool| #[trigger] call_ensures(enter, (m,), b) ==> b == p(*m),
    ensures
        r@.unref() == walk(*n, p),
{
    let mut r: Vec<&Node> = Vec::new();
    push_walk(n, &enter, Ghost(p), &mut r);
    assert(r@.unref() =~= walk(*n, p));
    r
}

/// Every node of the tree `n`, in depth-first order.
pub fn nodes_in(n: &Node) -> (r: Vec<&Node>)
    ensures
        r@.unref() == nodes(*n),
{
    walk_nodes(
        n,
        |m: &Node| -> (b: bool)
            ensures
                b
        { true },
        Ghost(everywhere()),
    )
}

/// Appends every node of the trees in `list`, when macro calls are looked into.
fn push_open_all<'a>(list: &'a Vec<Node>, out: &mut Vec<&'a Node>)
    ensures
        final(out)@.unref() == old(out)@.unref() + open_nodes_all(list@),
    decreases list,
{
    let ghost before = out@.unref();
    let mut i: usize = 0;
    while i < list.len()
        invariant
            i <= list@.len(),
            out@.unref() == before + open_nodes_all(list@.take(i as int)),
        decreases list@.len() - i,
    {
        assert(list@.take(i as int + 1).drop_last() =~= list@.take(i as int));
        push_open(&list[i], out);
        assert(out@.unref() =~= before + open_nodes_all(list@.take(i as int + 1)));
        i = i + 1;
    }
    assert(list@.take(i as int) =~= list@);
}

/// Appends every node of the tree `n`, when macro calls are looked into.
fn push_open<'a>(n: &'a Node, out: &mut Vec<&'a Node>)
    ensures
        final(out)@.unref() == old(out)@.unref() + open_nodes(*n),
    decreases n,
{
    let ghost before = out@.unref();
    out.push(n);
    assert(out@.unref() =~= before + seq![*n]);
    match n.kind {
        Kind::Macro => match &n.args {
            Some(args) => {
                push_open_all(args, out);
            },
            None => {},
        },
        _ => {
            push_open_all(&n.children, out);
        },
    }
    assert(out@.unref() =~= before + open_nodes(*n));
}

/// Every node of the tree `n`, in depth-first order, when macro calls are looked
/// into.
pub fn open_nodes_in(n: &Node) -> (r: Vec<&Node>)
    ensures
        r@.unref() == open_nodes(*n),
{
    let mut r: Vec<&Node> = Vec::new();
    push_open(n, &mut r);
    assert(r@.unref() =~= open_nodes(*n));
    r
}

/// The nodes of `list` that satisfy `p`, in order.
pub(crate) fn keep_nodes<'a, F: Fn(&Node) -> bool>(
    list: &Vec<&'a Node>,
    test: F,
    Ghost(p): Ghost<spec_fn(Node) -> bool>,
) -> (r: Vec<&'a Node>)
    requires
        forall|n: &Node| #[trigger] call_requires(test, (n,)),
        forall|n: &Node, b: bool| #[trigger] call_ensures(test, (n,), b) ==> b == p(*n),
    ensures
        r@.unref() == kept(list@.unref(), p),
{
    let ghost all = list@.unref();
    let mut r: Vec<&'a Node> = Vec::new();
    let mut i: usize = 0;
    while i < list.len()
        invariant
            i <= list@.len(),
            all == list@.unref(),
            forall|n: &Node| #[trigger] call_requires(test, (n,)),
            forall|n: &Node, b: bool| #[trigger] call_ensures(test, (n,), b) ==> b == p(*n),
            r@.unref() == kept(all.take(i as int), p),
        decreases list@.len() - i,
    {
        assert(all.take(i as int + 1).drop_last() =~= all.take(i as int));
        assert(all.take(i as int + 1).last() == *list@[i as int]);
        if test(list[i]) {
            r.push(list[i]);
        }
        assert(r@.unref() =~= kept(all.take(i as int + 1), p));
        i = i + 1;
    }
    assert(all.take(i as int) =~= all);
    r
}

/// Whether some node of `list` satisfies `p`.
pub(crate) fn any_node<F: Fn(&Node) -> bool>(
    list: &Vec<&Node>,
    test: F,
    Ghost(p): Ghost<spec_fn(Node) -> bool>,
) -> (b: bool)
    requires
        forall|n: &Node| #[trigger] call_requires(test, (n,)),
        forall|n: &Node, r: bool| #[trigger] call_ensures(test, (n,), r) ==> r == p(*n),
    ensures
        b == some(list@.unref(), p),
{
    let mut i: usize = 0;
    while i < list.len()
        invariant
            i <= list@.len(),
            forall|n: &Node| #[trigger] call_requires(test, (n,)),
            forall|n: &Node, r: bool| #[trigger] call_ensures(test, (n,), r) ==> r == p(*n),
            forall|j: int| 0 <= j < i ==> !#[trigger] p(list@.unref()[j]),
        decreases list@.len() - i,
    {
        if test(list[i]) {
            assert(p(list@.unref()[i as int]));
            return true;
        }
        i = i + 1;
    }
    false
}

/// Finds the first node of `list` that satisfies `p`.
pub(crate) fn find_node<'a, F: Fn(&Node) -> bool>(
    list: &Vec<&'a Node>,
    test: F,
    Ghost(p): Ghost<spec_fn(Node) -> bool>,
) -> (r: Option<&'a Node>)
    requires
        forall|n: &Node| #[trigger] call_requires(test, (n,)),
        forall|n: &Node, b: bool| #[trigger] call_ensures(test, (n,), b) ==> b == p(*n),
    ensures
        r.is_some() == first_node(list@.unref(), p).is_some(),
        r.is_some() ==> Some(*r.unwrap()) == first_node(list@.unref(), p),
{
    let ghost all = list@.unref();
    let mut r: Option<&Node> = None;
    let mut i: usize = 0;
    while i < list.len()
        invariant
            i <= list@.len(),
            all == list@.unref(),
            forall|n: &Node| #[trigger] call_requires(test, (n,)),
            forall|n: &Node, b: bool| #[trigger] call_ensures(test, (n,), b) ==> b == p(*n),
            r.is_some() == first_node(all.take(i as int), p).is_some(),
            r.is_some() ==> Some(*r.unwrap()) == first_node(all.take(i as int), p),
        decreases list@.len() - i,
    {
        assert(all.take(i as int + 1).drop_last() =~= all.take(i as int));
        assert(all.take(i as int + 1).last() == *list@[i as int]);
        if r.is_none() && test(list[i]) {
            r = Some(list[i]);
        }
        i = i + 1;
    }
    assert(all.take(i as int) =~= all);
    r
}

/// Finds the last node of `list` that satisfies `p`.
pub(crate) fn find_last_node<'a, F: Fn(&Node) -> bool>(
    list: &Vec<&'a Node>,
    test: F,
    Ghost(p): Ghost<spec_fn(Node) -> bool>,
) -> (r: Option<&'a Node>)
    requires
        forall|n: &Node| #[trigger] call_requires(test, (n,)),
        forall|n: &Node, b: bool| #[trigger] call_ensures(test, (n,), b) ==> b == p(*n),
    ensures
        r.is_some() == last_node(list@.unref(), p).is_some(),
        r.is_some() ==> Some(*r.unwrap()) == last_node(list@.unref(), p),
{
    let ghost all = list@.unref();
    let mut r: Option<&Node> = None;
    let mut i: usize = 0;
    while i < list.len()
        invariant
            i <= list@.len(),
            all == list@.unref(),
            forall|n: &Node| #[trigger] call_requires(test, (n,)),
            forall|n: &Node, b: bool| #[trigger] call_ensures(test, (n,), b) ==> b == p(*n),
            r.is_some() == last_node(all.take(i as int), p).is_some(),
            r.is_some() ==> Some(*r.unwrap()) == last_node(all.take(i as int), p),
        decreases list@.len() - i,
    {
        assert(all.take(i as int + 1).drop_last() =~= all.take(i as int));
        assert(all.take(i as int + 1).last() == *list@[i as int]);
        if test(list[i]) {
            r = Some(list[i]);
        }
        i = i + 1;
    }
    assert(all.take(i as int) =~= all);
    r
}

/// The names that `name` gives on the nodes of `list`, in order.
pub(crate) fn collect_names<F: Fn(&Node) -> Option<String>>(
    list: &Vec<&Node>,
    name: F,
    Ghost(f): Ghost<spec_fn(Node) -> Option<Seq<char>>>,
) -> (r: Vec<String>)
    requires
        forall|n: &Node| #[trigger] call_requires(name, (n,)),
        forall|n: &Node, s: Option<String>| #[trigger]
            call_ensures(name, (n,), s) ==> opt_text(s) == f(*n),
    ensures
        texts(r@) == names_of(list@.unref(), f),
{
    let mut r: Vec<String> = Vec::new();
    let mut i: usize = 0;
    while i < list.len()
        invariant
            i <= list@.len(),
            forall|n: &Node| #[trigger] call_requires(name, (n,)),
            forall|n: &Node, s: Option<String>| #[trigger]
                call_ensures(name, (n,), s) ==> opt_text(s) == f(*n),
            texts(r@) == names_of(list@.unref().take(i as int), f),
        decreases list@.len() - i,
    {
        proof {
            assert(list@.unref().take(i as int + 1).drop_last() =~= list@.unref().take(i as int));
            assert(list@.unref().take(i as int + 1).last() == *list@[i as int]);
        }
        let ghost before = r@;
        match name(list[i]) {
            Some(s) => {
                r.push(s);
                assert(texts(r@) =~= texts(before).push(s@));
            },
            None => {},
        }
        i = i + 1;
    }
    assert(list@.unref().take(i as int) =~= list@.unref());
    r
}

/// The findings that `report` makes on the nodes of `list`, in order.
pub(crate) fn collect_findings<F: Fn(&Node) -> Option<Finding>>(
    list: &Vec<&Node>,
    report: F,
    Ghost(f): Ghost<spec_fn(Node) -> Option<Report>>,
) -> (r: Vec<Finding>)
    requires
        forall|n: &Node| #[trigger] call_requires(report, (n,)),
        forall|n: &Node, s: Option<Finding>| #[trigger]
            call_ensures(report, (n,), s) ==> opt_report(s) == f(*n),
    ensures
        reports(r@) == reports_of(list@.unref(), f),
{
    let mut r: Vec<Finding> = Vec::new();
    let mut i: usize = 0;
    while i < list.len()
        invariant
            i <= list@.len(),
            forall|n: &Node| #[trigger] call_requires(report, (n,)),
            forall|n: &Node, s: Option<Finding>| #[trigger]
                call_ensures(report, (n,), s) ==> opt_report(s) == f(*n),
            reports(r@) == reports_of(list@.unref().take(i as int), f),
        decreases list@.len() - i,
    {
        proof {
            assert(list@.unref().take(i as int + 1).drop_last() =~= list@.unref().take(i as int));
            assert(list@.unref().take(i as int + 1).last() == *list@[i as int]);
        }
        let ghost before = r@;
        match report(list[i]) {
            Some(s) => {
                r.push(s);
                assert(reports(r@) =~= reports(before).push(s@));
            },
            None => {},
        }
        i = i + 1;
    }
    assert(list@.unref().take(i as int) =~= list@.unref());
    r
}

/// The findings that `report` makes on the nodes of `list`, any number on each, in
/// order.
pub(crate) fn collect_all_findings<F: Fn(&Node) -> Vec<Finding>>(
    list: &Vec<&Node>,
    report: F,
    Ghost(f): Ghost<spec_fn(Node) -> Seq<Report>>,
) -> (r: Vec<Finding>)
    requires
        forall|n: &Node| #[trigger] call_requires(report, (n,)),
        forall|n: &Node, s: Vec<Finding>| #[trigger]
            call_ensures(report, (n,), s) ==> reports(s@) == f(*n),
    ensures
        reports(r@) == all_reports(list@.unref(), f),
{
    let mut r: Vec<Finding> = Vec::new();
    let mut i: usize = 0;
    while i < list.len()
        invariant
            i <= list@.len(),
            forall|n: &Node| #[trigger] call_requires(report, (n,)),
            forall|n: &Node, s: Vec<Finding>| #[trigger]
                call_ensures(report, (n,), s) ==> reports(s@) == f(*n),
            reports(r@) == all_reports(list@.unref().take(i as int), f),
        decreases list@.len() - i,
    {
        proof {
            assert(list@.unref().take(i as int + 1).drop_last() =~= list@.unref().take(i as int));
            assert(list@.unref().take(i as int + 1).last() == *list@[i as int]);
        }
        let ghost before = r@;
        let mut more = report(list[i]);
        let ghost added = more@;
        r.append(&mut more);
        assert(reports(r@) =~= reports(before) + reports(added));
        i = i + 1;
    }
    assert(list@.unref().take(i as int) =~= list@.unref());
    r
}

/// The text of an optional string.
pub open spec fn opt_text(s: Option<String>) -> Option<Seq<char>> {
    match s {
        Some(s) => Some(s@),
        None => None,
    }
}

/// The content of an optional finding.
pub open spec fn opt_report(s: Option<Finding>) -> Option<Report> {
    match s {
        Some(s) => Some(s@),
        None => None,
    }
}

/// Every report made on the nodes of `list` comes from one of them.
pub proof fn lemma_reports_from(list: Seq<Node>, f: spec_fn(Node) -> Option<Report>, i: int)
    requires
        0 <= i < reports_of(list, f).len(),
    ensures
        exists|j: int|
            0 <= j < list.len() && #[trigger] f(list[j]) == Some(reports_of(list, f)[i]),
    decreases list.len(),
{
    let before = reports_of(list.drop_last(), f);
    if i < before.len() {
        lemma_reports_from(list.drop_last(), f, i);
        let j = choose|j: int|
            0 <= j < list.drop_last().len() && #[trigger] f(list.drop_last()[j]) == Some(before[i]);
        assert(f(list[j]) == Some(before[i]));
    } else {
        assert(f(list[list.len() - 1]) == Some(reports_of(list, f)[i]));
    }
}

/// Every report made on the nodes of `list`, any number on each, comes from one of
/// them.
pub proof fn lemma_all_reports_from(list: Seq<Node>, f: spec_fn(Node) -> Seq<Report>, i: int)
    requires
        0 <= i < all_reports(list, f).len(),
    ensures
        exists|j: int, k: int|
            0 <= j < list.len() && 0 <= k < f(list[j]).len() && #[trigger] f(list[j])[k]
                == all_reports(list, f)[i],
    decreases list.len(),
{
    let before = all_reports(list.drop_last(), f);
    if i < before.len() {
        lemma_all_reports_from(list.drop_last(), f, i);
        let (j, k) = choose|j: int, k: int|
            0 <= j < list.drop_last().len() && 0 <= k < f(list.drop_last()[j]).len()
                && #[trigger] f(list.drop_last()[j])[k] == before[i];
        assert(f(list[j])[k] == all_reports(list, f)[i]);
    } else {
        let j = list.len() - 1;
        assert(f(list[j])[i - before.len()] == all_reports(list, f)[i]);
    }
}

/// A node that is not gone below and not reported on contributes no report.
pub proof fn lemma_sealed(
    n: Node,
    enter: spec_fn(Node) -> bool,
    f: spec_fn(Node) -> Option<Report>,
)
    requires
        !enter(n),
        f(n) is None,
    ensures
        reports_of(walk(n, enter), f) == Seq::<Report>::empty(),
{
    assert(walk(n, enter).drop_last() =~= Seq::<Node>::empty());
    assert(walk(n, enter).last() == n);
    assert(reports_of(walk(n, enter).drop_last(), f) =~= Seq::<Report>::empty());
}

/// A node that is not gone below and on which no report is made contributes none.
pub proof fn lemma_sealed_all(
    n: Node,
    enter: spec_fn(Node) -> bool,
    f: spec_fn(Node) -> Seq<Report>,
)
    requires
        !enter(n),
        f(n).len() == 0,
    ensures
        all_reports(walk(n, enter), f) == Seq::<Report>::empty(),
{
    assert(walk(n, enter).drop_last() =~= Seq::<Node>::empty());
    assert(walk(n, enter).last() == n);
    assert(all_reports(walk(n, enter).drop_last(), f) =~= Seq::<Report>::empty());
    assert(all_reports(walk(n, enter), f) =~= Seq::<Report>::empty());
}

/// The reports on two stretches of nodes are those on the first, followed by those
/// on the second.
pub proof fn law_reports_distribute(
    left: Seq<Node>,
    right: Seq<Node>,
    f: spec_fn(Node) -> Option<Report>,
)
    ensures
        reports_of(left + right, f) == reports_of(left, f) + reports_of(right, f),
    decreases right.len(),
{
    if right.len() == 0 {
        assert(left + right =~= left);
        assert(reports_of(left, f) + reports_of(right, f) =~= reports_of(left, f));
    } else {
        law_reports_distribute(left, right.drop_last(), f);
        assert((left + right).drop_last() =~= left + right.drop_last());
        assert((left + right).last() == right.last());
        assert(reports_of(left + right, f) =~= reports_of(left, f) + reports_of(right, f));
    }
}

/// At most one report is made on each node.
pub proof fn law_at_most_one_report_each(list: Seq<Node>, f: spec_fn(Node) -> Option<Report>)
    ensures
        reports_of(list, f).len() <= list.len(),
    decreases list.len(),
{
    if list.len() > 0 {
        law_at_most_one_report_each(list.drop_last(), f);
    }
}

/// `m` is a child of a node of `list` that `enter` accepts.
pub open spec fn below_entered(list: Seq<Node>, enter: spec_fn(Node) -> bool, m: Node) -> bool {
    exists|p: int|
        0 <= p < list.len() && enter(#[trigger] list[p]) && list[p].children@.contains(m)
}

/// Whatever a visit meets, but for the node it starts from, hangs directly below a
/// node that it meets too and that it goes below. What lies below a node that is not
/// gone below is never met.
pub proof fn law_met_below_entered(n: Node, enter: spec_fn(Node) -> bool, i: int)
    requires
        0 < i < walk(n, enter).len(),
    ensures
        below_entered(walk(n, enter), enter, walk(n, enter)[i]),
    decreases n, 0nat,
{
    let list = walk(n, enter);
    let inner = walk_all(n.children@, enter);
    assert(list =~= seq![n] + inner);
    lemma_met_in_all(n.children@, enter, i - 1);
    if n.children@.contains(inner[i - 1]) {
        assert(list[0] == n);
    } else {
        let p = choose|p: int|
            0 <= p < inner.len() && enter(#[trigger] inner[p]) && inner[p].children@.contains(
                inner[i - 1],
            );
        assert(list[p + 1] == inner[p]);
    }
}

/// Whatever the visits of `list` meet is in `list`, or hangs directly below a node
/// that they meet and go below.
proof fn lemma_met_in_all(list: Seq<Node>, enter: spec_fn(Node) -> bool, i: int)
    requires
        0 <= i < walk_all(list, enter).len(),
    ensures
        list.contains(walk_all(list, enter)[i]) || below_entered(
            walk_all(list, enter),
            enter,
            walk_all(list, enter)[i],
        ),
    decreases list, 1nat,
{
    let all = walk_all(list, enter);
    let before = walk_all(list.drop_last(), enter);
    let here = walk(list.last(), enter);
    assert(all == before + here);
    if i < before.len() {
        lemma_met_in_all(list.drop_last(), enter, i);
        if list.drop_last().contains(before[i]) {
            let k = list.drop_last().index_of(before[i]);
            assert(list[k] == all[i]);
        } else {
            let p = choose|p: int|
                0 <= p < before.len() && enter(#[trigger] before[p]) && before[p].children@.contains(
                    before[i],
                );
            assert(all[p] == before[p]);
        }
    } else {
        let k = i - before.len();
        if k == 0 {
            assert(here[0] == list.last());
            assert(list[list.len() - 1] == all[i]);
        } else {
            law_met_below_entered(list.last(), enter, k);
            let p = choose|p: int|
                0 <= p < here.len() && enter(#[trigger] here[p]) && here[p].children@.contains(
                    here[k],
                );
            assert(all[before.len() + p] == here[p]);
        }
    }
}

/// `path` leads from its first node down to its last, each time to a child.
pub open spec fn leads(path: Seq<Node>) -> bool {
    &&& path.len() > 0
    &&& forall|i: int|
        0 <= i < path.len() - 1 ==> (#[trigger] path[i]).children@.contains(path[i + 1])
}

/// `path` leads from `from` to `to` without going through a function or a method, or
/// through anything that carries an attribute.
pub open spec fn leads_openly(path: Seq<Node>, from: Node, to: Node) -> bool {
    &&& leads(path)
    &&& path[0] == from
    &&& path.last() == to
    &&& forall|i: int|
        0 <= i < path.len() - 1 ==> !((#[trigger] path[i]).kind is Function)
            && !(path[i].kind is Method) && path[i].parts(Role::Attribute).len() == 0
}

/// Whatever a visit of one of the nodes of `list` meets, the visits of all of them meet.
pub proof fn lemma_met_among(list: Seq<Node>, enter: spec_fn(Node) -> bool, k: int, m: Node)
    requires
        0 <= k < list.len(),
        walk(list[k], enter).contains(m),
    ensures
        walk_all(list, enter).contains(m),
    decreases list.len(),
{
    let before = walk_all(list.drop_last(), enter);
    let here = walk(list.last(), enter);
    if k == list.len() - 1 {
        let i = here.index_of(m);
        assert((before + here)[before.len() + i] == m);
    } else {
        lemma_met_among(list.drop_last(), enter, k, m);
        let i = before.index_of(m);
        assert((before + here)[i] == m);
    }
}

/// A visit meets whatever a path leads to, however deep, if it goes below every node on
/// the way.
pub proof fn law_led_to_is_met(path: Seq<Node>, enter: spec_fn(Node) -> bool)
    requires
        leads(path),
        forall|i: int| 0 <= i < path.len() - 1 ==> enter(#[trigger] path[i]),
    ensures
        walk(path[0], enter).contains(path.last()),
    decreases path.len(),
{
    if path.len() == 1 {
        assert(walk(path[0], enter)[0] == path[0]);
    } else {
        let rest = path.drop_first();
        assert forall|i: int| 0 <= i < rest.len() - 1 implies (#[trigger] rest[i]).children@.contains(
            rest[i + 1],
        ) && enter(rest[i]) by {
            assert(path[i + 1].children@.contains(path[i + 2]));
        }
        law_led_to_is_met(rest, enter);
        assert(path[0].children@.contains(path[1]));
        let k = path[0].children@.index_of(path[1]);
        lemma_met_among(path[0].children@, enter, k, path.last());
        let inner = walk_all(path[0].children@, enter);
        let i = inner.index_of(path.last());
        assert(enter(path[0]));
        assert((seq![path[0]] + inner)[i + 1] == path.last());
    }
}

/// A report that is made on one of the nodes of `list` is among those on all of them.
pub proof fn law_report_is_listed(list: Seq<Node>, f: spec_fn(Node) -> Option<Report>, n: Node)
    requires
        list.contains(n),
        f(n) is Some,
    ensures
        reports_of(list, f).contains(f(n)->0),
    decreases list.len(),
{
    let before = reports_of(list.drop_last(), f);
    if list.last() == n {
        assert(before.push(f(n)->0)[before.len() as int] == f(n)->0);
    } else {
        let k = list.index_of(n);
        assert(list.drop_last()[k] == n);
        law_report_is_listed(list.drop_last(), f, n);
        let i = before.index_of(f(n)->0);
        assert(reports_of(list, f)[i] == f(n)->0);
    }
}

/// The reports that are made on one of the nodes of `list` are among those on all of
/// them.
pub proof fn law_reports_are_listed(
    list: Seq<Node>,
    f: spec_fn(Node) -> Seq<Report>,
    n: Node,
    r: Report,
)
    requires
        list.contains(n),
        f(n).contains(r),
    ensures
        all_reports(list, f).contains(r),
    decreases list.len(),
{
    let before = all_reports(list.drop_last(), f);
    let here = f(list.last());
    if list.last() == n {
        let i = here.index_of(r);
        assert((before + here)[before.len() + i] == r);
    } else {
        let k = list.index_of(n);
        assert(list.drop_last()[k] == n);
        law_reports_are_listed(list.drop_last(), f, n, r);
        let i = before.index_of(r);
        assert((before + here)[i] == r);
    }
}

/// One of `list` stands at the place of `f` and speaks of it by its name.
pub open spec fn speaks_of(list: Seq<Report>, f: Node) -> bool {
    exists|i: int|
        0 <= i < list.len() && (#[trigger] list[i]).line == f.line && list[i].column == f.column
            && mentions(list[i].message, f.name@)
}

/// A function is spoken of if a report is made on it that stands at its place and holds
/// its name, wherever in the file the function stands.
pub proof fn lemma_spoken_of(
    path: Seq<Node>,
    enter: spec_fn(Node) -> bool,
    report: spec_fn(Node) -> Option<Report>,
    head: Seq<char>,
    tail: Seq<char>,
)
    requires
        leads(path),
        forall|i: int| 0 <= i < path.len() - 1 ==> enter(#[trigger] path[i]),
        report(path.last()) matches Some(r) && r.line == path.last().line && r.column
            == path.last().column && r.message == head + path.last().name@ + tail,
    ensures
        speaks_of(reports_of(walk(path[0], enter), report), path.last()),
{
    let f = path.last();
    let r = report(f)->0;
    law_led_to_is_met(path, enter);
    law_report_is_listed(walk(path[0], enter), report, f);
    let list = reports_of(walk(path[0], enter), report);
    let i = list.index_of(r);
    lemma_holds_middle(r.message, head, f.name@, tail);
    assert(list[i] == r);
}

/// What a visit meets is a node of the tree, wherever the visit goes.
pub proof fn law_visits_meet_nodes_only(n: Node, enter: spec_fn(Node) -> bool, m: Node)
    requires
        walk(n, enter).contains(m),
    ensures
        nodes(n).contains(m),
    decreases n,
{
    let i = walk(n, enter).index_of(m);
    if i == 0 {
        assert(nodes(n)[0] == m);
    } else {
        let inner = walk_all(n.children@, enter);
        assert(inner[i - 1] == m);
        lemma_visits_meet_nodes_only(n.children@, enter, m);
        let all = walk_all(n.children@, everywhere());
        let k = all.index_of(m);
        assert((seq![n] + all)[k + 1] == m);
    }
}

/// What the visits of `list` meet are nodes of its trees.
proof fn lemma_visits_meet_nodes_only(list: Seq<Node>, enter: spec_fn(Node) -> bool, m: Node)
    requires
        walk_all(list, enter).contains(m),
    ensures
        walk_all(list, everywhere()).contains(m),
    decreases list,
{
    let before = walk_all(list.drop_last(), enter);
    let here = walk(list.last(), enter);
    let i = (before + here).index_of(m);
    let more = walk_all(list.drop_last(), everywhere());
    let rest = walk(list.last(), everywhere());
    if i < before.len() {
        assert(before[i] == m);
        lemma_visits_meet_nodes_only(list.drop_last(), enter, m);
        let k = more.index_of(m);
        assert((more + rest)[k] == m);
    } else {
        assert(here[i - before.len()] == m);
        law_visits_meet_nodes_only(list.last(), enter, m);
        let k = rest.index_of(m);
        assert((more + rest)[more.len() + k] == m);
    }
}

/// The name that a node gives is among those that all of them give.
pub proof fn lemma_name_is_listed(list: Seq<Node>, f: spec_fn(Node) -> Option<Seq<char>>, k: int)
    requires
        0 <= k < list.len(),
        f(list[k]) is Some,
    ensures
        names_of(list, f).contains(f(list[k])->0),
    decreases list.len(),
{
    let before = names_of(list.drop_last(), f);
    let name = f(list[k])->0;
    if k == list.len() - 1 {
        assert(before.push(name)[before.len() as int] == name);
    } else {
        assert(list.drop_last()[k] == list[k]);
        lemma_name_is_listed(list.drop_last(), f, k);
        let i = before.index_of(name);
        assert(names_of(list, f)[i] == name);
    }
}

/// Every name is given by one of the nodes.
pub proof fn lemma_named_by(
    list: Seq<Node>,
    f: spec_fn(Node) -> Option<Seq<char>>,
    name: Seq<char>,
) -> (k: int)
    requires
        names_of(list, f).contains(name),
    ensures
        0 <= k < list.len(),
        f(list[k]) == Some(name),
    decreases list.len(),
{
    let before = names_of(list.drop_last(), f);
    if f(list.last()) == Some(name) {
        list.len() - 1
    } else {
        let i = names_of(list, f).index_of(name);
        assert(before[i] == name);
        lemma_named_by(list.drop_last(), f, name)
    }
}

/// There are no more names than nodes.
pub proof fn lemma_no_more_names(list: Seq<Node>, f: spec_fn(Node) -> Option<Seq<char>>)
    ensures
        names_of(list, f).len() <= list.len(),
    decreases list.len(),
{
    if list.len() > 0 {
        lemma_no_more_names(list.drop_last(), f);
    }
}

/// The nodes below a node of a tree are nodes of the tree.
pub proof fn law_nodes_below_nodes(n: Node, m: Node, k: Node)
    requires
        nodes(n).contains(m),
        nodes(m).contains(k),
    ensures
        nodes(n).contains(k),
    decreases n,
{
    let i = nodes(n).index_of(m);
    if i > 0 {
        let inner = walk_all(n.children@, everywhere());
        assert(inner[i - 1] == m);
        let c = lemma_met_in_one(n.children@, everywhere(), m);
        law_nodes_below_nodes(n.children@[c], m, k);
        lemma_met_among(n.children@, everywhere(), c, k);
        let p = inner.index_of(k);
        assert((seq![n] + inner)[p + 1] == k);
    }
}

/// What visits meet, the visit of one of the nodes meets.
pub proof fn lemma_met_in_one(list: Seq<Node>, enter: spec_fn(Node) -> bool, m: Node) -> (c: int)
    requires
        walk_all(list, enter).contains(m),
    ensures
        0 <= c < list.len(),
        walk(list[c], enter).contains(m),
    decreases list.len(),
{
    let before = walk_all(list.drop_last(), enter);
    let here = walk(list.last(), enter);
    let i = (before + here).index_of(m);
    if i < before.len() {
        assert(before[i] == m);
        let c = lemma_met_in_one(list.drop_last(), enter, m);
        assert(list.drop_last()[c] == list[c]);
        c
    } else {
        assert(here[i - before.len()] == m);
        list.len() - 1
    }
}

} // verus!
