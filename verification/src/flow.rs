//! Where control goes.
use vstd::prelude::*;
use crate::syntax::{
    Kind, lemma_all_parts_smaller, lemma_part_smaller, lemma_playing_member, Node, Role,
};
use crate::text::{begins, is_any, same_as_any, starts_with};
use crate::walk::{everywhere, nodes, some, walk, walk_all};

verus! {

/// The operators that may leave their right operand alone.
pub const LAZY_OPERATORS: [&'static str; 2] = ["&&", "||"];

/// What a construct of this kind evaluates, it evaluates in full.
pub open spec fn strict(kind: Kind) -> bool {
    match kind {
        Kind::ExprStmt { .. }
        | Kind::StmtMacro
        | Kind::Call
        | Kind::MethodCall
        | Kind::MacroExpr
        | Kind::Paren
        | Kind::Group
        | Kind::Reference { .. }
        | Kind::Cast
        | Kind::Unary
        | Kind::Try
        | Kind::Field { .. }
        | Kind::Index
        | Kind::Range { .. }
        | Kind::Assign
        | Kind::Return
        | Kind::StructExpr
        | Kind::FieldValue
        | Kind::Block
        | Kind::Unsafe => true,
        _ => false,
    }
}

/// Control does not get past the node: `exits` accepts it, or something that is
/// evaluated in any case whenever the node is.
pub open spec fn stops(n: Node, exits: spec_fn(Node) -> bool) -> bool
    decreases n,
{
    proof {
        lemma_part_smaller(n, Role::Condition);
        lemma_part_smaller(n, Role::Then);
        lemma_part_smaller(n, Role::Else);
        lemma_part_smaller(n, Role::Operand);
        lemma_part_smaller(n, Role::Left);
        lemma_part_smaller(n, Role::Right);
        lemma_part_smaller(n, Role::Init);
        lemma_part_smaller(n, Role::Body);
        lemma_all_parts_smaller(n, Role::Then);
    }
    ||| exits(n)
    ||| strict(n.kind) && exists|i: int|
        0 <= i < n.children@.len() && stops(#[trigger] n.children@[i], exits)
    ||| match n.kind {
        Kind::If => {
            ||| n.part(Role::Condition) matches Some(c) && stops(c, exits)
            ||| {
                &&& n.part(Role::Then) matches Some(t) && stops(t, exits)
                &&& n.part(Role::Else) matches Some(e) && stops(e, exits)
            }
        },
        Kind::Match => {
            ||| n.part(Role::Operand) matches Some(o) && stops(o, exits)
            ||| {
                &&& n.parts(Role::Then).len() > 0
                &&& forall|i: int|
                    0 <= i < n.parts(Role::Then).len() ==> stops(
                        #[trigger] n.parts(Role::Then)[i],
                        exits,
                    )
            }
        },
        Kind::Binary => {
            ||| n.part(Role::Left) matches Some(l) && stops(l, exits)
            ||| !is_any(n.name@, LAZY_OPERATORS@) && (n.part(Role::Right) matches Some(r) && stops(
                r,
                exits,
            ))
        },
        Kind::Local => n.part(Role::Init) matches Some(init) && stops(init, exits),
        Kind::BlockExpr => !begins(n.text@, "'"@) && (n.part(Role::Body) matches Some(b) && stops(
            b,
            exits,
        )),
        _ => false,
    }
}

/// Whether a construct of this kind evaluates in full what it evaluates.
fn is_strict(kind: Kind) -> (b: bool)
    ensures
        b == strict(kind),
{
    match kind {
        Kind::ExprStmt { .. }
        | Kind::StmtMacro
        | Kind::Call
        | Kind::MethodCall
        | Kind::MacroExpr
        | Kind::Paren
        | Kind::Group
        | Kind::Reference { .. }
        | Kind::Cast
        | Kind::Unary
        | Kind::Try
        | Kind::Field { .. }
        | Kind::Index
        | Kind::Range { .. }
        | Kind::Assign
        | Kind::Return
        | Kind::StructExpr
        | Kind::FieldValue
        | Kind::Block
        | Kind::Unsafe => true,
        _ => false,
    }
}

/// Whether control does not get past an optional part of `n`.
fn part_stops<F: Fn(&Node) -> bool>(
    n: &Node,
    role: Role,
    test: &F,
    Ghost(exits): Ghost<spec_fn(Node) -> bool>,
) -> (b: bool)
    requires
        forall|m: &Node| #[trigger] call_requires(*test, (m,)),
        forall|m: &Node, r: bool| #[trigger] call_ensures(*test, (m,), r) ==> r == exits(*m),
    ensures
        b == (n.part(role) matches Some(c) && stops(c, exits)),
    decreases n, 0int,
{
    proof {
        lemma_part_smaller(*n, role);
    }
    match n.get_part(role) {
        Some(c) => does_stop(c, test, Ghost(exits)),
        None => false,
    }
}

/// Whether control does not get past the node, where `exits` is what `test`
/// answers.
pub(crate) fn does_stop<F: Fn(&Node) -> bool>(
    n: &Node,
    test: &F,
    Ghost(exits): Ghost<spec_fn(Node) -> bool>,
) -> (b: bool)
    requires
        forall|m: &Node| #[trigger] call_requires(*test, (m,)),
        forall|m: &Node, r: bool| #[trigger] call_ensures(*test, (m,), r) ==> r == exits(*m),
    ensures
        b == stops(*n, exits),
    decreases n, 1int,
{
    if test(n) {
        return true;
    }
    if is_strict(n.kind) {
        let mut i: usize = 0;
        while i < n.children.len()
            invariant
                i <= n.children@.len(),
                strict(n.kind),
                forall|m: &Node| #[trigger] call_requires(*test, (m,)),
                forall|m: &Node, r: bool| #[trigger]
                    call_ensures(*test, (m,), r) ==> r == exits(*m),
                forall|j: int| 0 <= j < i ==> !stops(#[trigger] n.children@[j], exits),
            decreases n.children@.len() - i,
        {
            assert(decreases_to!(n => n.children@[i as int]));
            if does_stop(&n.children[i], test, Ghost(exits)) {
                assert(stops(n.children@[i as int], exits));
                return true;
            }
            i = i + 1;
        }
        return false;
    }
    match n.kind {
        Kind::If => part_stops(n, Role::Condition, test, Ghost(exits)) || (part_stops(
            n,
            Role::Then,
            test,
            Ghost(exits),
        ) && part_stops(n, Role::Else, test, Ghost(exits))),
        Kind::Match => part_stops(n, Role::Operand, test, Ghost(exits)) || all_arms_stop(
            n,
            test,
            Ghost(exits),
        ),
        Kind::Binary => part_stops(n, Role::Left, test, Ghost(exits)) || (!same_as_any(
            n.name.as_str(),
            LAZY_OPERATORS.as_slice(),
        ) && part_stops(n, Role::Right, test, Ghost(exits))),
        Kind::Local => part_stops(n, Role::Init, test, Ghost(exits)),
        Kind::BlockExpr => !starts_with(n.text.as_str(), "'") && part_stops(
            n,
            Role::Body,
            test,
            Ghost(exits),
        ),
        _ => false,
    }
}

/// Whether control gets past none of the arms of a `match`, and there is one.
fn all_arms_stop<F: Fn(&Node) -> bool>(
    n: &Node,
    test: &F,
    Ghost(exits): Ghost<spec_fn(Node) -> bool>,
) -> (b: bool)
    requires
        forall|m: &Node| #[trigger] call_requires(*test, (m,)),
        forall|m: &Node, r: bool| #[trigger] call_ensures(*test, (m,), r) ==> r == exits(*m),
    ensures
        b == (n.parts(Role::Then).len() > 0 && forall|i: int|
            0 <= i < n.parts(Role::Then).len() ==> stops(#[trigger] n.parts(Role::Then)[i], exits)),
    decreases n, 0int,
{
    let arms = n.get_parts(Role::Then);
    let ghost all = n.parts(Role::Then);
    let mut i: usize = 0;
    while i < arms.len()
        invariant
            i <= arms@.len(),
            all == n.parts(Role::Then),
            all == arms@.unref(),
            forall|m: &Node| #[trigger] call_requires(*test, (m,)),
            forall|m: &Node, r: bool| #[trigger] call_ensures(*test, (m,), r) ==> r == exits(*m),
            forall|j: int| 0 <= j < i ==> stops(#[trigger] all[j], exits),
        decreases arms@.len() - i,
    {
        proof {
            lemma_all_parts_smaller(*n, Role::Then);
            assert(all[i as int] == *arms@[i as int]);
        }
        if !does_stop(arms[i], test, Ghost(exits)) {
            assert(!stops(all[i as int], exits));
            return false;
        }
        i = i + 1;
    }
    arms.len() > 0
}

/// A node past which control does not get holds one that lets nothing past by
/// itself.
pub proof fn law_stopping_needs_an_exit(n: Node, exits: spec_fn(Node) -> bool)
    requires
        stops(n, exits),
    ensures
        some(nodes(n), exits),
    decreases n,
{
    lemma_all_parts_smaller(n, Role::Then);
    if exits(n) {
        assert(nodes(n)[0] == n);
        assert(exits(nodes(n)[0]));
    } else if strict(n.kind) {
        let i = choose|i: int|
            0 <= i < n.children@.len() && stops(#[trigger] n.children@[i], exits);
        law_stopping_needs_an_exit(n.children@[i], exits);
        lemma_below(n, i, exits);
    } else {
        let role = match n.kind {
            Kind::If => if n.part(Role::Condition) matches Some(c) && stops(c, exits) {
                Role::Condition
            } else {
                Role::Then
            },
            Kind::Match => if n.part(Role::Operand) matches Some(o) && stops(o, exits) {
                Role::Operand
            } else {
                Role::Then
            },
            Kind::Binary => if n.part(Role::Left) matches Some(l) && stops(l, exits) {
                Role::Left
            } else {
                Role::Right
            },
            Kind::Local => Role::Init,
            _ => Role::Body,
        };
        lemma_part_smaller(n, role);
        assert(stops(n.part(role)->0, exits));
        law_stopping_needs_an_exit(n.part(role)->0, exits);
        lemma_playing_member(n.children@, role, 0);
        let i = choose|i: int| 0 <= i < n.children@.len() && n.children@[i] == n.part(role)->0;
        lemma_below(n, i, exits);
    }
}

/// What a child holds, the node holds.
proof fn lemma_below(n: Node, i: int, p: spec_fn(Node) -> bool)
    requires
        0 <= i < n.children@.len(),
        some(nodes(n.children@[i]), p),
    ensures
        some(nodes(n), p),
{
    let inner = walk_all(n.children@, everywhere());
    lemma_among(n.children@, i, p);
    let k = choose|k: int| 0 <= k < inner.len() && #[trigger] p(inner[k]);
    assert(nodes(n) =~= seq![n] + inner);
    assert(nodes(n)[k + 1] == inner[k]);
    assert(p(nodes(n)[k + 1]));
}

/// What one of the trees in `list` holds, `list` holds.
proof fn lemma_among(list: Seq<Node>, i: int, p: spec_fn(Node) -> bool)
    requires
        0 <= i < list.len(),
        some(nodes(list[i]), p),
    ensures
        some(walk_all(list, everywhere()), p),
    decreases list.len(),
{
    let before = walk_all(list.drop_last(), everywhere());
    let here = walk(list.last(), everywhere());
    let all = walk_all(list, everywhere());
    if i < list.len() - 1 {
        lemma_among(list.drop_last(), i, p);
        let k = choose|k: int| 0 <= k < before.len() && #[trigger] p(before[k]);
        assert(all[k] == before[k]);
        assert(p(all[k]));
    } else {
        let k = choose|k: int| 0 <= k < here.len() && #[trigger] p(here[k]);
        assert(all[before.len() + k] == here[k]);
        assert(p(all[before.len() + k]));
    }
}

/// `leaf` stands in a statement of the block, as the whole of it.
pub open spec fn stands_in(block: Node, stmt: Node, leaf: Node) -> bool {
    &&& block.kind is Block
    &&& block.children@.contains(stmt)
    &&& stmt.kind is ExprStmt || stmt.kind is StmtMacro
    &&& stmt.children@.contains(leaf)
}

/// Control does not get past a block that holds an exit as a statement, wherever in it
/// the statement stands.
pub proof fn law_exit_statement_stops(
    block: Node,
    stmt: Node,
    leaf: Node,
    exits: spec_fn(Node) -> bool,
)
    requires
        stands_in(block, stmt, leaf),
        exits(leaf),
    ensures
        stops(block, exits),
{
    assert(stops(leaf, exits));
    let i = stmt.children@.index_of(leaf);
    assert(stops(stmt.children@[i], exits));
    assert(stops(stmt, exits));
    let k = block.children@.index_of(stmt);
    assert(stops(block.children@[k], exits));
}

} // verus!
