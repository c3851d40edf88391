//! Which locals of a function hold the account that called it.
use vstd::prelude::*;
use vstd::set_lib::lemma_len_subset;
use crate::syntax::{Kind, lemma_all_parts_smaller, Node, Role};
use crate::text::{any_text, listed, same, some_text, texts};
use crate::tokens::{get_idents, idents};
use crate::walk::{any_node, nodes, nodes_in, some, walk, walk_nodes};

verus! {

/// Go below everything but macro calls.
pub open spec fn outside_macros() -> spec_fn(Node) -> bool {
    |n: Node| !(n.kind is Macro)
}

/// The identifier stands for the caller: it asks for it, or is a local that holds
/// it.
pub open spec fn identity(taint: Set<Seq<char>>, ident: Seq<char>) -> bool {
    ident == "predecessor_account_id"@ || taint.contains(ident)
}

/// The node reads the caller: it asks for it, or names a local that holds it. What a
/// macro call holds is not taken apart.
pub open spec fn names_caller(n: Node, taint: Set<Seq<char>>) -> bool {
    match n.kind {
        Kind::PathExpr => {
            ||| n.last_word() == Some("predecessor_account_id"@)
            ||| n.name@.len() > 0 && taint.contains(n.name@)
        },
        Kind::MethodCall => n.name@ == "predecessor_account_id"@,
        Kind::Macro => some_text(idents(n.tokens@), |w: Seq<char>| identity(taint, w)),
        _ => false,
    }
}

/// The expression reads the caller.
pub open spec fn reads_caller(expr: Node, taint: Set<Seq<char>>) -> bool {
    some(walk(expr, outside_macros()), |n: Node| names_caller(n, taint))
}

/// The names that a pattern binds by itself, inside a tuple, behind a reference or
/// in front of a type.
pub open spec fn pat_idents(p: Node) -> Seq<Seq<char>>
    decreases p, 1nat, 0nat,
{
    match p.kind {
        Kind::PatIdent => seq![p.name@],
        Kind::PatTuple | Kind::PatType | Kind::PatReference => pat_idents_below(
            p,
            p.parts(Role::Pattern).len(),
        ),
        _ => Seq::empty(),
    }
}

/// The names that the first `k` patterns inside `p` bind.
pub open spec fn pat_idents_below(p: Node, k: nat) -> Seq<Seq<char>>
    decreases p, 0nat, k,
{
    if k == 0 || k > p.parts(Role::Pattern).len() {
        Seq::empty()
    } else {
        proof {
            lemma_all_parts_smaller(p, Role::Pattern);
        }
        pat_idents_below(p, (k - 1) as nat) + pat_idents(p.parts(Role::Pattern)[k - 1])
    }
}

/// The names that a `let` binds.
pub open spec fn let_idents(n: Node) -> Seq<Seq<char>> {
    match n.part(Role::Pattern) {
        Some(pat) => if n.kind is Local { pat_idents(pat) } else { Seq::empty() },
        None => Seq::empty(),
    }
}

/// The node is a `let` whose value reads the caller.
pub open spec fn binds_caller(n: Node, taint: Set<Seq<char>>) -> bool {
    n.kind is Local && (n.part(Role::Init) matches Some(init) && reads_caller(init, taint))
}

/// Every `let` in `list` whose value reads the caller binds names of `taint` only.
pub open spec fn closed(list: Seq<Node>, taint: Set<Seq<char>>) -> bool {
    forall|i: int|
        0 <= i < list.len() && binds_caller(#[trigger] list[i], taint) ==> let_idents(
            list[i],
        ).to_set().subset_of(taint)
}

/// The locals that hold the caller: the least set of names that holds whatever a
/// `let` of the block binds to something that reads the caller.
pub open spec fn tainted(block: Node) -> Set<Seq<char>> {
    least(nodes(block))
}

/// The least closed set of names.
pub open spec fn least(list: Seq<Node>) -> Set<Seq<char>> {
    Set::new(
        |x: Seq<char>| forall|s: Set<Seq<char>>| #[trigger] closed(list, s) ==> s.contains(x),
    )
}

/// All names that the `let`s of `list` bind.
pub open spec fn bindable(list: Seq<Node>) -> Seq<Seq<char>>
    decreases list.len(),
{
    if list.len() == 0 {
        Seq::empty()
    } else {
        bindable(list.drop_last()) + let_idents(list.last())
    }
}

/// What reads the caller with fewer locals known still does with more.
pub proof fn law_reads_caller_monotone(expr: Node, few: Set<Seq<char>>, many: Set<Seq<char>>)
    requires
        few.subset_of(many),
        reads_caller(expr, few),
    ensures
        reads_caller(expr, many),
{
    let list = walk(expr, outside_macros());
    let p = |n: Node| names_caller(n, few);
    let q = |n: Node| names_caller(n, many);
    let i = choose|i: int| 0 <= i < list.len() && #[trigger] p(list[i]);
    let n = list[i];
    if n.kind is Macro {
        let f = |w: Seq<char>| identity(few, w);
        let g = |w: Seq<char>| identity(many, w);
        let ids = idents(n.tokens@);
        let k = choose|k: int| 0 <= k < ids.len() && #[trigger] f(ids[k]);
        assert(g(ids[k]));
    }
    assert(q(list[i]));
}

/// The locals that hold the caller are closed under binding: a local bound to
/// something that reads one of them is one of them.
pub proof fn law_taint_is_closed(block: Node)
    ensures
        closed(nodes(block), tainted(block)),
{
    let list = nodes(block);
    let t = tainted(block);
    assert forall|i: int| 0 <= i < list.len() && binds_caller(#[trigger] list[i], t) implies let_idents(
        list[i],
    ).to_set().subset_of(t) by {
        assert forall|x: Seq<char>| let_idents(list[i]).to_set().contains(x) implies t.contains(
            x,
        ) by {
            assert forall|s: Set<Seq<char>>| #[trigger] closed(list, s) implies s.contains(x) by {
                assert(t.subset_of(s));
                law_reads_caller_monotone(list[i].part(Role::Init)->0, t, s);
                assert(binds_caller(list[i], s));
            }
        }
    }
}

/// Each name that a `let` of `list` binds is among all of them.
proof fn lemma_bindable(list: Seq<Node>, i: int)
    requires
        0 <= i < list.len(),
    ensures
        let_idents(list[i]).to_set().subset_of(bindable(list).to_set()),
    decreases list.len(),
{
    let before = bindable(list.drop_last());
    let here = let_idents(list.last());
    assert forall|x: Seq<char>| let_idents(list[i]).to_set().contains(x) implies bindable(
        list,
    ).to_set().contains(x) by {
        if i < list.len() - 1 {
            lemma_bindable(list.drop_last(), i);
            assert(list.drop_last()[i] == list[i]);
            assert(before.to_set().contains(x));
            let k = choose|k: int| 0 <= k < before.len() && before[k] == x;
            assert(bindable(list)[k] == x);
        } else {
            let k = choose|k: int| 0 <= k < here.len() && here[k] == x;
            assert(bindable(list)[before.len() + k] == x);
        }
    }
}

/// Distinct names out of `pool` are no more than `pool` has.
proof fn lemma_distinct_len(names: Seq<Seq<char>>, pool: Seq<Seq<char>>)
    requires
        names.no_duplicates(),
        names.to_set().subset_of(pool.to_set()),
    ensures
        names.len() <= pool.len(),
{
    names.unique_seq_to_set();
    vstd::seq_lib::seq_to_set_is_finite(names);
    vstd::seq_lib::seq_to_set_is_finite(pool);
    lemma_len_subset(names.to_set(), pool.to_set());
    pool.lemma_cardinality_of_set();
}

/// Whether the identifier stands for the caller.
pub fn is_identity_ident(taint: &Vec<String>, ident: &str) -> (b: bool)
    ensures
        b == identity(texts(taint@).to_set(), ident@),
{
    same(ident, "predecessor_account_id") || listed(taint, ident)
}

/// Whether the node reads the caller.
pub(crate) fn is_caller_read(n: &Node, taint: &Vec<String>) -> (b: bool)
    ensures
        b == names_caller(*n, texts(taint@).to_set()),
{
    match n.kind {
        Kind::PathExpr => (match n.get_last_word() {
            Some(w) => same(w, "predecessor_account_id"),
            None => false,
        }) || (!n.name.as_str().is_empty() && listed(taint, n.name.as_str())),
        Kind::MethodCall => same(n.name.as_str(), "predecessor_account_id"),
        Kind::Macro => {
            let words = get_idents(&n.tokens);
            any_text(
                &words,
                |w: &str| -> (r: bool)
                    ensures
                        r == identity(texts(taint@).to_set(), w@)
                { is_identity_ident(taint, w) },
                Ghost(|w: Seq<char>| identity(texts(taint@).to_set(), w)),
            )
        },
        _ => false,
    }
}

/// Whether the expression reads the caller.
pub fn expr_reads_predecessor(expr: &Node, taint: &Vec<String>) -> (b: bool)
    ensures
        b == reads_caller(*expr, texts(taint@).to_set()),
{
    let list = walk_nodes(
        expr,
        |n: &Node| -> (b: bool)
            ensures
                b == outside_macros()(*n)
        { !matches!(n.kind, Kind::Macro) },
        Ghost(outside_macros()),
    );
    any_node(
        &list,
        |n: &Node| -> (r: bool)
            ensures
                r == names_caller(*n, texts(taint@).to_set())
        { is_caller_read(n, taint) },
        Ghost(|n: Node| names_caller(n, texts(taint@).to_set())),
    )
}

/// Appends the names that a pattern binds.
fn push_pat_idents(p: &Node, out: &mut Vec<String>)
    ensures
        texts(final(out)@) == texts(old(out)@) + pat_idents(*p),
    decreases p,
{
    let ghost before = texts(out@);
    match p.kind {
        Kind::PatIdent => {
            out.push(p.name.clone());
        },
        Kind::PatTuple | Kind::PatType | Kind::PatReference => {
            let inner = p.get_parts(Role::Pattern);
            proof {
                lemma_all_parts_smaller(*p, Role::Pattern);
            }
            let mut i: usize = 0;
            while i < inner.len()
                invariant
                    i <= inner@.len(),
                    inner@.unref() == p.parts(Role::Pattern),
                    forall|j: int|
                        0 <= j < p.parts(Role::Pattern).len() ==> decreases_to!(
                            p => #[trigger] p.parts(Role::Pattern)[j]
                        ),
                    texts(out@) == before + pat_idents_below(*p, i as nat),
                decreases inner@.len() - i,
            {
                assert(inner@.unref()[i as int] == *inner@[i as int]);
                assert(decreases_to!(p => p.parts(Role::Pattern)[i as int]));
                push_pat_idents(inner[i], out);
                assert(texts(out@) =~= before + pat_idents_below(*p, (i + 1) as nat));
                i = i + 1;
            }
        },
        _ => {},
    }
    assert(texts(out@) =~= before + pat_idents(*p));
}

/// The names that a pattern binds.
pub fn collect_pat_idents(p: &Node) -> (r: Vec<String>)
    ensures
        texts(r@) == pat_idents(*p),
{
    let mut r: Vec<String> = Vec::new();
    push_pat_idents(p, &mut r);
    assert(texts(r@) =~= pat_idents(*p));
    r
}

/// Adds to `names` what of `more` is not among them yet.
fn add_names(names: &mut Vec<String>, more: &Vec<String>)
    requires
        texts(old(names)@).no_duplicates(),
    ensures
        texts(final(names)@).no_duplicates(),
        texts(final(names)@).to_set() == texts(old(names)@).to_set() + texts(more@).to_set(),
        final(names)@.len() >= old(names)@.len(),
        final(names)@.len() == old(names)@.len() ==> final(names)@ == old(names)@,
{
    let ghost start = names@;
    let mut i: usize = 0;
    assert(texts(more@).take(0).to_set() =~= Set::<Seq<char>>::empty());
    assert(texts(names@).to_set() =~= texts(start).to_set() + texts(more@).take(0).to_set());
    while i < more.len()
        invariant
            i <= more@.len(),
            texts(names@).no_duplicates(),
            texts(names@).to_set() == texts(start).to_set() + texts(more@).take(i as int).to_set(),
            names@.len() >= start.len(),
            names@.len() == start.len() ==> names@ == start,
        decreases more@.len() - i,
    {
        let ghost was = names@;
        let ghost part = texts(more@).take(i as int);
        let ghost next = texts(more@).take(i as int + 1);
        let ghost x = more@[i as int]@;
        proof {
            assert(next =~= part.push(x));
            assert forall|y: Seq<char>| next.to_set().contains(y) == (part.to_set().contains(y)
                || y == x) by {
                if part.contains(y) {
                    let k = choose|k: int| 0 <= k < part.len() && part[k] == y;
                    assert(next[k] == y);
                }
                if y == x {
                    assert(next[part.len() as int] == y);
                }
            }
        }
        if !listed(names, more[i].as_str()) {
            names.push(more[i].clone());
            proof {
                assert(texts(names@) =~= texts(was).push(x));
                assert(texts(names@)[was.len() as int] == x);
                assert forall|y: Seq<char>| texts(names@).to_set().contains(y) == (texts(
                    was,
                ).to_set().contains(y) || y == x) by {
                    if texts(was).contains(y) {
                        let k = choose|k: int| 0 <= k < texts(was).len() && texts(was)[k] == y;
                        assert(texts(names@)[k] == y);
                    }
                    if y == x {
                        assert(texts(names@)[was.len() as int] == y);
                    }
                }
                assert(texts(names@).no_duplicates()) by {
                    assert forall|a: int, b: int|
                        0 <= a < texts(names@).len() && 0 <= b < texts(names@).len() && a
                            != b implies texts(names@)[a] != texts(names@)[b] by {
                        if a == was.len() {
                            assert(texts(was).contains(texts(was)[b]));
                        }
                        if b == was.len() {
                            assert(texts(was).contains(texts(was)[a]));
                        }
                    }
                }
            }
        }
        proof {
            assert(texts(names@).contains(x));
            assert forall|y: Seq<char>| texts(names@).to_set().contains(y) == (texts(
                start,
            ).to_set() + next.to_set()).contains(y) by {
                assert(texts(names@).to_set().contains(y) == (texts(was).to_set().contains(y) || y
                    == x));
            }
            assert(texts(names@).to_set() =~= texts(start).to_set() + next.to_set());
        }
        i = i + 1;
    }
    assert(texts(more@).take(i as int) =~= texts(more@));
}

/// One pass over the `let`s of `list`: what is bound to something that reads the
/// caller is added to `names`.
fn taint_pass(list: &Vec<&Node>, names: &mut Vec<String>)
    requires
        texts(old(names)@).no_duplicates(),
        texts(old(names)@).to_set().subset_of(least(list@.unref())),
        texts(old(names)@).to_set().subset_of(bindable(list@.unref()).to_set()),
    ensures
        texts(final(names)@).no_duplicates(),
        texts(final(names)@).to_set().subset_of(least(list@.unref())),
        texts(final(names)@).to_set().subset_of(bindable(list@.unref()).to_set()),
        final(names)@.len() >= old(names)@.len(),
        final(names)@.len() == old(names)@.len() ==> final(names)@ == old(names)@ && closed(
            list@.unref(),
            texts(old(names)@).to_set(),
        ),
{
    let ghost start = names@;
    let ghost all = list@.unref();
    let mut i: usize = 0;
    while i < list.len()
        invariant
            i <= list@.len(),
            all == list@.unref(),
            texts(names@).no_duplicates(),
            texts(names@).to_set().subset_of(least(all)),
            texts(names@).to_set().subset_of(bindable(all).to_set()),
            names@.len() >= start.len(),
            names@.len() == start.len() ==> names@ == start && forall|j: int|
                0 <= j < i && binds_caller(#[trigger] all[j], texts(start).to_set())
                    ==> let_idents(all[j]).to_set().subset_of(texts(start).to_set()),
        decreases list@.len() - i,
    {
        let n = list[i];
        let ghost was = names@;
        assert(all[i as int] == *n);
        let binding = match n.get_part(Role::Init) {
            Some(init) => matches!(n.kind, Kind::Local) && expr_reads_predecessor(init, names),
            None => false,
        };
        if binding {
            let more = match n.get_part(Role::Pattern) {
                Some(pat) => collect_pat_idents(pat),
                None => Vec::new(),
            };
            assert(texts(more@) =~= let_idents(*n));
            proof {
                lemma_bindable(all, i as int);
                assert forall|x: Seq<char>| texts(more@).to_set().contains(x) implies least(
                    all,
                ).contains(x) by {
                    assert forall|s: Set<Seq<char>>| #[trigger] closed(all, s) implies s.contains(
                        x,
                    ) by {
                        assert(texts(was).to_set().subset_of(s)) by {
                            assert forall|y: Seq<char>| texts(
                                was,
                            ).to_set().contains(y) implies s.contains(y) by {
                                assert(least(all).contains(y));
                            }
                        }
                        law_reads_caller_monotone(
                            n.part(Role::Init)->0,
                            texts(was).to_set(),
                            s,
                        );
                        assert(binds_caller(all[i as int], s));
                    }
                }
            }
            add_names(names, &more);
            proof {
                assert(let_idents(*n).to_set().subset_of(texts(names@).to_set()));
            }
        }
        i = i + 1;
    }
}

/// The locals of a block that hold the caller.
pub fn predecessor_taint(block: &Node) -> (r: Vec<String>)
    ensures
        texts(r@).to_set() == tainted(*block),
{
    let list = nodes_in(block);
    taint_of(&list)
}

/// The least set of names that holds whatever a `let` of `list` binds to something
/// that reads the caller.
fn taint_of(list: &Vec<&Node>) -> (r: Vec<String>)
    ensures
        texts(r@).to_set() == least(list@.unref()),
{
    let ghost all = list@.unref();
    let mut names: Vec<String> = Vec::new();
    assert(texts(names@).to_set() =~= Set::<Seq<char>>::empty());
    loop
        invariant
            all == list@.unref(),
            texts(names@).no_duplicates(),
            texts(names@).to_set().subset_of(least(all)),
            texts(names@).to_set().subset_of(bindable(all).to_set()),
        decreases bindable(all).len() - names@.len(),
    {
        let before = names.len();
        let ghost was = names@;
        taint_pass(list, &mut names);
        proof {
            lemma_distinct_len(texts(names@), bindable(all));
        }
        if names.len() == before {
            proof {
                assert forall|x: Seq<char>| least(all).contains(x) implies texts(
                    names@,
                ).to_set().contains(x) by {
                    assert(closed(all, texts(was).to_set()));
                }
                assert(texts(names@).to_set() =~= least(all));
            }
            return names;
        }
    }
}

} // verus!
