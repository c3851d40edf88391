//! Program addresses that are derived with a bump from outside.
use vstd::prelude::*;
use crate::attributes::{carries_test, has_test_attribute, is_cfg_test, outside_functions_and_tests};
use crate::calls::{called_names, callee_name, get_called_names, get_callee_name, is_named, own};
use crate::cfg::{below, test_builds_only};
use crate::context::ScanContext;
use crate::detector::{Detector, Profile, raise, raised, RuleInfo, stamped};
use crate::finding::{Chain, Confidence, Finding, Report, Severity};
use crate::functions::{
    find_last, last_function, law_only_function_is_found, lemma_last_function, only_function,
};
use crate::patterns::{bound, get_bound, let_name};
use crate::syntax::{Kind, lemma_part_smaller, Node, Role};
use crate::text::{
    any_text, contains, is_any, join3, listed, mentions, same, same_as_any, some_text, texts,
};
use crate::walk::{
    any_node, collect_findings, everywhere, kept, leads_openly, lemma_met_in_one,
    lemma_reports_from, lemma_sealed, lemma_spoken_of, nodes, nodes_in, opt_report, reports_of,
    some, speaks_of, walk, walk_all, walk_nodes,
};

verus! {

/// Reports functions that create a program address with a bump that does not come
/// from the state of an account.
pub struct PdaIssuesDetector;

/// The rule's description of itself.
pub open spec fn profile() -> Profile {
    Profile {
        id: "SOL-007"@,
        name: "pda-bump-misuse"@,
        description: "Detects create_program_address with user-provided bump seeds"@,
        severity: Severity::High,
        confidence: Confidence::High,
        chain: Chain::Solana,
    }
}

/// The rule's description of itself.
fn info() -> (r: RuleInfo)
    ensures
        r@ == profile(),
{
    RuleInfo {
        id: "SOL-007",
        name: "pda-bump-misuse",
        description: "Detects create_program_address with user-provided bump seeds",
        severity: Severity::High,
        confidence: Confidence::High,
        chain: Chain::Solana,
    }
}

/// The members of a context that hold account state.
pub const STATE_MEMBERS: [&'static str; 2] = ["accounts", "bumps"];

/// The members that hold a bump.
pub const BUMP_MEMBERS: [&'static str; 2] = ["bump", "bumps"];

/// What is known of the locals of a function.
pub struct Provenance {
    /// The locals that hold account state.
    pub accounts: Set<Seq<char>>,
    /// The locals that hold a bump from account state.
    pub bumps: Set<Seq<char>>,
}

/// The function is a test.
pub open spec fn test_fn(f: Node) -> bool {
    carries_test(f) || test_builds_only(f)
}

/// The node is an access to a named member of a context that holds account state.
pub open spec fn state_member(n: Node) -> bool {
    n.kind == (Kind::Field { named: true }) && is_any(n.name@, STATE_MEMBERS@)
}

/// The identifier that a place starts from, and whether the way to it leads through
/// a member that holds account state.
pub open spec fn place_root(e: Node) -> Option<(Seq<char>, bool)>
    decreases e,
{
    proof {
        lemma_part_smaller(e, Role::Operand);
        lemma_part_smaller(e, Role::Receiver);
    }
    match e.kind {
        Kind::PathExpr => if e.name@.len() > 0 { Some((e.name@, false)) } else { None },
        Kind::Field { .. } => match e.part(Role::Operand) {
            Some(inner) => match place_root(inner) {
                Some((root, seen)) => Some((root, seen || state_member(e))),
                None => None,
            },
            None => None,
        },
        Kind::MethodCall => match e.part(Role::Receiver) {
            Some(inner) => place_root(inner),
            None => None,
        },
        Kind::Unary => if e.name@ == "*"@ {
            match e.part(Role::Operand) {
                Some(inner) => place_root(inner),
                None => None,
            }
        } else {
            None
        },
        Kind::Reference { .. } | Kind::Paren | Kind::Group | Kind::Index | Kind::Try => match e.part(
            Role::Operand,
        ) {
            Some(inner) => place_root(inner),
            None => None,
        },
        _ => None,
    }
}

/// The place holds account state: it lies below a member of the context that does,
/// or below a local that does. `via_self` says that the member itself was seen.
pub open spec fn holds_state(e: Node, via_self: bool, accounts: Set<Seq<char>>) -> bool {
    place_root(e) matches Some((root, via)) && ((root == "ctx"@ && (via || via_self))
        || accounts.contains(root))
}

/// The node is a field access whose base holds account state.
pub open spec fn state_access(n: Node, accounts: Set<Seq<char>>) -> bool {
    n.kind is Field && (n.part(Role::Operand) matches Some(base) && holds_state(
        base,
        state_member(n),
        accounts,
    ))
}

/// The expression draws from account state.
pub open spec fn draws_state(e: Node, accounts: Set<Seq<char>>) -> bool {
    holds_state(e, false, accounts) || some(nodes(e), |n: Node| state_access(n, accounts))
}

/// Where the node reads a bump, whether it is one from account state.
pub open spec fn bump_read(n: Node, accounts: Set<Seq<char>>) -> Option<bool> {
    if n.kind == (Kind::Field { named: true }) && is_any(n.name@, BUMP_MEMBERS@) {
        match n.part(Role::Operand) {
            Some(base) => Some(holds_state(base, n.name@ == "bumps"@, accounts)),
            None => None,
        }
    } else if n.kind is MethodCall && is_any(n.name@, BUMP_MEMBERS@) {
        match n.part(Role::Receiver) {
            Some(base) => Some(holds_state(base, false, accounts)),
            None => None,
        }
    } else {
        None
    }
}

/// The node reads a bump from account state.
pub open spec fn stored_read(n: Node, p: Provenance) -> bool {
    ||| bump_read(n, p.accounts) == Some(true)
    ||| n.kind is PathExpr && n.name@.len() > 0 && p.bumps.contains(n.name@)
}

/// The expression reads a bump from account state, and no other bump.
pub open spec fn stored_bump(e: Node, p: Provenance) -> bool {
    &&& some(nodes(e), |n: Node| stored_read(n, p))
    &&& !some(nodes(e), |n: Node| bump_read(n, p.accounts) == Some(false))
}

/// The node creates a program address.
pub open spec fn creates_address(n: Node) -> bool {
    callee_name(n) == Some("create_program_address"@)
}

/// The `let` statements and the creations of program addresses below `n`, each behind
/// those inside it.
pub open spec fn steps(n: Node) -> Seq<Node>
    decreases n,
{
    if n.kind is Local || creates_address(n) {
        steps_all(n.children@).push(n)
    } else {
        steps_all(n.children@)
    }
}

/// The `let` statements and the creations of program addresses of the trees in `list`.
pub open spec fn steps_all(list: Seq<Node>) -> Seq<Node>
    decreases list,
{
    if list.len() == 0 {
        Seq::empty()
    } else {
        steps_all(list.drop_last()) + steps(list.last())
    }
}

/// `name` is in the set, or is not, as `keep` says.
pub open spec fn noted(set: Set<Seq<char>>, name: Seq<char>, keep: bool) -> Set<Seq<char>> {
    if keep { set.insert(name) } else { set.remove(name) }
}

/// What is known behind a `let` that binds `name` to `init`.
pub open spec fn after_binding(p: Provenance, name: Seq<char>, init: Node) -> Provenance {
    let accounts = noted(p.accounts, name, draws_state(init, p.accounts));
    let seen = Provenance { accounts, bumps: p.bumps };
    Provenance { accounts, bumps: noted(p.bumps, name, stored_bump(init, seen)) }
}

/// What is known behind a `let`. Nothing else changes what is known.
pub open spec fn after_let(p: Provenance, n: Node) -> Provenance {
    match (let_name(n), n.part(Role::Init)) {
        (Some(name), Some(init)) => if n.kind is Local { after_binding(p, name, init) } else { p },
        _ => p,
    }
}

/// What is known behind the steps of `list`.
pub open spec fn provenance(list: Seq<Node>) -> Provenance
    decreases list.len(),
{
    if list.len() == 0 {
        Provenance { accounts: Set::empty(), bumps: Set::empty() }
    } else {
        after_let(provenance(list.drop_last()), list.last())
    }
}

/// The node is an access to a member named `bumps`.
pub open spec fn reads_bumps(n: Node) -> bool {
    n.kind == (Kind::Field { named: true }) && n.name@ == "bumps"@
}

/// The function `name`, other than `own`, finds the canonical bump.
pub open spec fn finds_bump(list: Seq<Node>, own: Seq<char>, name: Seq<char>) -> bool {
    name != own && (last_function(list, name) matches Some(f) && mentions(
        f.body_text(),
        "find_program_address"@,
    ))
}

/// Step `i` creates a program address with a bump that is not known, from the steps in
/// front of it, to come from account state.
pub open spec fn unsafe_at(list: Seq<Node>, i: int) -> bool {
    0 <= i < list.len() && creates_address(list[i]) && !stored_bump(
        list[i],
        provenance(list.take(i)),
    )
}

/// `f` creates a program address with a bump from outside, where `list` holds the
/// functions of the file.
pub open spec fn misuses_bump(list: Seq<Node>, f: Node) -> bool {
    &&& f.kind is Function
    &&& !test_fn(f)
    &&& !mentions(f.body_text(), "find_program_address"@)
    &&& f.part(Role::Body) matches Some(body) && !some(nodes(body), |n: Node| reads_bumps(n))
        && !some_text(called_names(body), |c: Seq<char>| finds_bump(list, f.name@, c)) && exists|i: int|
        #[trigger] unsafe_at(steps(body), i)
}

/// The report on `f`, if there is one, where `list` holds the nodes that it is judged
/// by.
pub open spec fn report_among(ctx: ScanContext, list: Seq<Node>, f: Node) -> Option<Report> {
    if misuses_bump(list, f) {
        Some(
            raised(
                profile(),
                ctx,
                Confidence::High,
                f.line,
                f.column,
                "Function '"@ + f.name@
                    + "' uses create_program_address without find_program_address (user-provided bump)"@,
                "Use find_program_address() which returns the canonical bump, or verify the provided bump against find_program_address result"@,
            ),
        )
    } else {
        None
    }
}

/// The report on `f`, if there is one.
pub open spec fn report_on(ctx: ScanContext, f: Node) -> Option<Report> {
    report_among(ctx, nodes(ctx.ast), f)
}

/// Binding a name anew takes back what was known of it: behind a `let` the name
/// holds account state exactly if the new value draws from it, and a bump from
/// account state exactly if the new value reads one and no other. Nothing changes
/// for other names.
pub proof fn law_rebinding_retracts(p: Provenance, n: Node, name: Seq<char>, init: Node)
    requires
        n.kind is Local,
        let_name(n) == Some(name),
        n.part(Role::Init) == Some(init),
    ensures
        after_let(p, n).accounts.contains(name) == draws_state(init, p.accounts),
        after_let(p, n).bumps.contains(name) == stored_bump(
            init,
            Provenance { accounts: after_let(p, n).accounts, bumps: p.bumps },
        ),
        forall|other: Seq<char>|
            other != name ==> (#[trigger] after_let(p, n).accounts.contains(other))
                == p.accounts.contains(other),
        forall|other: Seq<char>|
            other != name ==> (#[trigger] after_let(p, n).bumps.contains(other))
                == p.bumps.contains(other),
{
}

/// What follows the creation of a program address does not make its bump known: two
/// lists of steps that agree up to `i` are judged alike there.
pub proof fn law_later_steps_do_not_matter(one: Seq<Node>, other: Seq<Node>, i: int)
    requires
        0 <= i < one.len(),
        i < other.len(),
        one.take(i + 1) == other.take(i + 1),
    ensures
        unsafe_at(one, i) == unsafe_at(other, i),
{
    assert(one.take(i + 1).take(i) =~= one.take(i));
    assert(other.take(i + 1).take(i) =~= other.take(i));
    assert(one.take(i + 1)[i] == one[i]);
    assert(other.take(i + 1)[i] == other[i]);
}

/// Without a single read of a bump there is no evidence that a call is safe.
pub proof fn law_safety_needs_evidence(e: Node, p: Provenance)
    requires
        stored_bump(e, p),
    ensures
        exists|i: int| 0 <= i < nodes(e).len() && #[trigger] stored_read(nodes(e)[i], p),
        forall|i: int|
            0 <= i < nodes(e).len() ==> #[trigger] bump_read(nodes(e)[i], p.accounts) != Some(false),
{
    let p1 = |n: Node| stored_read(n, p);
    let i = choose|i: int| 0 <= i < nodes(e).len() && #[trigger] p1(nodes(e)[i]);
    assert(stored_read(nodes(e)[i], p));
    let p2 = |n: Node| bump_read(n, p.accounts) == Some(false);
    assert forall|i: int| 0 <= i < nodes(e).len() implies #[trigger] bump_read(
        nodes(e)[i],
        p.accounts,
    ) != Some(false) by {
        assert(!p2(nodes(e)[i]));
    }
}

/// Whether the node is an access to a named member that holds account state.
fn is_state_member(n: &Node) -> (b: bool)
    ensures
        b == state_member(*n),
{
    matches!(n.kind, Kind::Field { named: true }) && same_as_any(
        n.name.as_str(),
        STATE_MEMBERS.as_slice(),
    )
}

/// The identifier that a place starts from, and whether the way to it leads through
/// a member that holds account state.
pub fn get_place_root(e: &Node) -> (r: Option<(&str, bool)>)
    ensures
        r.is_some() == place_root(*e).is_some(),
        r matches Some((root, via)) ==> place_root(*e) == Some((root@, via)),
    decreases e,
{
    proof {
        lemma_part_smaller(*e, Role::Operand);
        lemma_part_smaller(*e, Role::Receiver);
    }
    match e.kind {
        Kind::PathExpr => if !e.name.as_str().is_empty() {
            Some((e.name.as_str(), false))
        } else {
            None
        },
        Kind::Field { .. } => match e.get_part(Role::Operand) {
            Some(inner) => match get_place_root(inner) {
                Some((root, seen)) => Some((root, seen || is_state_member(e))),
                None => None,
            },
            None => None,
        },
        Kind::MethodCall => match e.get_part(Role::Receiver) {
            Some(inner) => get_place_root(inner),
            None => None,
        },
        Kind::Unary => if same(e.name.as_str(), "*") {
            match e.get_part(Role::Operand) {
                Some(inner) => get_place_root(inner),
                None => None,
            }
        } else {
            None
        },
        Kind::Reference { .. } | Kind::Paren | Kind::Group | Kind::Index | Kind::Try => {
            match e.get_part(Role::Operand) {
                Some(inner) => get_place_root(inner),
                None => None,
            }
        },
        _ => None,
    }
}

/// Whether the place holds account state.
pub fn base_is_account_state(base: &Node, via_self: bool, account_locals: &Vec<String>) -> (b: bool)
    ensures
        b == holds_state(*base, via_self, texts(account_locals@).to_set()),
{
    match get_place_root(base) {
        Some((root, via)) => (same(root, "ctx") && (via || via_self)) || listed(
            account_locals,
            root,
        ),
        None => false,
    }
}

/// Whether the expression draws from account state.
pub fn expr_draws_from_account_state(e: &Node, account_locals: &Vec<String>) -> (b: bool)
    ensures
        b == draws_state(*e, texts(account_locals@).to_set()),
{
    let ghost accounts = texts(account_locals@).to_set();
    let list = nodes_in(e);
    base_is_account_state(e, false, account_locals) || any_node(
        &list,
        |n: &Node| -> (r: bool)
            ensures
                r == state_access(*n, accounts)
        {
            matches!(n.kind, Kind::Field { .. }) && (match n.get_part(Role::Operand) {
                Some(base) => base_is_account_state(base, is_state_member(n), account_locals),
                None => false,
            })
        },
        Ghost(|n: Node| state_access(n, accounts)),
    )
}

/// What is known of the locals of a function.
pub struct BumpProvenance {
    /// The locals that hold account state.
    pub account_locals: Vec<String>,
    /// The locals that hold a bump from account state.
    pub stored_bump_locals: Vec<String>,
}

impl View for BumpProvenance {
    type V = Provenance;

    open spec fn view(&self) -> Provenance {
        Provenance {
            accounts: texts(self.account_locals@).to_set(),
            bumps: texts(self.stored_bump_locals@).to_set(),
        }
    }
}

/// Where the node reads a bump, whether it is one from account state.
fn get_bump_read(n: &Node, account_locals: &Vec<String>) -> (r: Option<bool>)
    ensures
        r == bump_read(*n, texts(account_locals@).to_set()),
{
    if matches!(n.kind, Kind::Field { named: true }) && same_as_any(
        n.name.as_str(),
        BUMP_MEMBERS.as_slice(),
    ) {
        match n.get_part(Role::Operand) {
            Some(base) => Some(
                base_is_account_state(base, same(n.name.as_str(), "bumps"), account_locals),
            ),
            None => None,
        }
    } else if matches!(n.kind, Kind::MethodCall) && same_as_any(
        n.name.as_str(),
        BUMP_MEMBERS.as_slice(),
    ) {
        match n.get_part(Role::Receiver) {
            Some(base) => Some(base_is_account_state(base, false, account_locals)),
            None => None,
        }
    } else {
        None
    }
}

/// Whether the expression reads a bump from account state, and whether it reads
/// another bump.
pub fn classify_bump_reads(e: &Node, prov: &BumpProvenance) -> (r: (bool, bool))
    ensures
        r.0 == some(nodes(*e), |n: Node| stored_read(n, prov@)),
        r.1 == some(nodes(*e), |n: Node| bump_read(n, prov@.accounts) == Some(false)),
{
    let list = nodes_in(e);
    let stored = any_node(
        &list,
        |n: &Node| -> (r: bool)
            ensures
                r == stored_read(*n, prov@)
        {
            matches!(get_bump_read(n, &prov.account_locals), Some(true)) || (matches!(
                n.kind,
                Kind::PathExpr
            ) && !n.name.as_str().is_empty() && listed(
                &prov.stored_bump_locals,
                n.name.as_str(),
            ))
        },
        Ghost(|n: Node| stored_read(n, prov@)),
    );
    let unstored = any_node(
        &list,
        |n: &Node| -> (r: bool)
            ensures
                r == (bump_read(*n, prov@.accounts) == Some(false))
        { matches!(get_bump_read(n, &prov.account_locals), Some(false)) },
        Ghost(|n: Node| bump_read(n, prov@.accounts) == Some(false)),
    );
    (stored, unstored)
}

/// Whether the expression reads a bump from account state, and no other bump.
pub fn call_uses_stored_bump(e: &Node, prov: &BumpProvenance) -> (b: bool)
    ensures
        b == stored_bump(*e, prov@),
{
    let (stored, unstored) = classify_bump_reads(e, prov);
    stored && !unstored
}

/// The name that a pattern binds.
pub fn local_binding_ident(pat: &Node) -> (r: Option<&str>)
    ensures
        r.is_some() == bound(*pat).is_some(),
        r.is_some() ==> Some(r.unwrap()@) == bound(*pat),
{
    get_bound(pat)
}

/// Appends the `let` statements and the creations of program addresses below `n`.
fn push_steps<'a>(n: &'a Node, out: &mut Vec<&'a Node>)
    ensures
        final(out)@.unref() == old(out)@.unref() + steps(*n),
    decreases n,
{
    let ghost before = out@.unref();
    let mut i: usize = 0;
    while i < n.children.len()
        invariant
            i <= n.children@.len(),
            out@.unref() == before + steps_all(n.children@.take(i as int)),
        decreases n.children@.len() - i,
    {
        assert(n.children@.take(i as int + 1).drop_last() =~= n.children@.take(i as int));
        push_steps(&n.children[i], out);
        assert(out@.unref() =~= before + steps_all(n.children@.take(i as int + 1)));
        i = i + 1;
    }
    assert(n.children@.take(i as int) =~= n.children@);
    let ghost below = steps_all(n.children@);
    assert(out@.unref() == before + below);
    if matches!(n.kind, Kind::Local) || is_named(get_callee_name(n), "create_program_address") {
        let ghost was = out@.unref();
        out.push(n);
        assert(out@.unref() =~= was.push(*n));
        assert(was.push(*n) =~= before + below.push(*n));
    }
}

/// Puts `name` into the list, or takes it out, as `keep` says.
fn note_name(list: &mut Vec<String>, name: &str, keep: bool)
    ensures
        texts(final(list)@).to_set() == noted(texts(old(list)@).to_set(), name@, keep),
{
    let ghost before = texts(list@);
    if keep {
        list.push(name.to_owned());
        assert(texts(list@) =~= before.push(name@));
        assert forall|x: Seq<char>| #[trigger]
            texts(list@).to_set().contains(x) == before.to_set().insert(name@).contains(x) by {
            if before.contains(x) {
                let k = before.index_of(x);
                assert(before.push(name@)[k] == x);
            }
            assert(before.push(name@)[before.len() as int] == name@);
        }
        assert(texts(list@).to_set() =~= before.to_set().insert(name@));
    } else {
        let mut kept: Vec<String> = Vec::new();
        let mut i: usize = 0;
        while i < list.len()
            invariant
                i <= list@.len(),
                texts(list@) == before,
                forall|x: Seq<char>| #[trigger]
                    texts(kept@).contains(x) <==> x != name@ && before.take(i as int).contains(x),
            decreases list@.len() - i,
        {
            let ghost was = texts(kept@);
            let ghost item = list@[i as int]@;
            assert(before.take(i as int + 1) =~= before.take(i as int).push(item));
            if !same(list[i].as_str(), name) {
                kept.push(list[i].clone());
                assert(texts(kept@) =~= was.push(item));
            }
            assert forall|x: Seq<char>| #[trigger]
                texts(kept@).contains(x) <==> x != name@ && before.take(i as int + 1).contains(
                    x,
                ) by {
                lemma_pushed(was, item, x);
                lemma_pushed(before.take(i as int), item, x);
                assert(was.contains(x) <==> x != name@ && before.take(i as int).contains(x));
            }
            i = i + 1;
        }
        assert(before.take(i as int) =~= before);
        assert(texts(kept@).to_set() =~= before.to_set().remove(name@));
        *list = kept;
    }
}

/// What a list holds when one more is put behind it.
proof fn lemma_pushed(list: Seq<Seq<char>>, item: Seq<char>, x: Seq<char>)
    ensures
        list.push(item).contains(x) <==> list.contains(x) || x == item,
{
    if list.contains(x) {
        let k = list.index_of(x);
        assert(list.push(item)[k] == x);
    }
    assert(list.push(item)[list.len() as int] == item);
    if list.push(item).contains(x) && x != item {
        let k = list.push(item).index_of(x);
        assert(list[k] == x);
    }
}

/// Notes what is known behind a step.
pub fn collect_bump_provenance(prov: &mut BumpProvenance, n: &Node)
    ensures
        final(prov)@ == after_let(old(prov)@, *n),
{
    match (n.get_part(Role::Pattern), n.get_part(Role::Init)) {
        (Some(pat), Some(init)) => if matches!(n.kind, Kind::Local) {
            match local_binding_ident(pat) {
                Some(name) => {
                    let drawn = expr_draws_from_account_state(init, &prov.account_locals);
                    note_name(&mut prov.account_locals, name, drawn);
                    let stored = call_uses_stored_bump(init, &*prov);
                    note_name(&mut prov.stored_bump_locals, name, stored);
                },
                None => {},
            }
        },
        _ => {},
    }
}

/// Whether the block reads a member named `bumps`.
pub fn body_uses_bumps(block: &Node) -> (b: bool)
    ensures
        b == some(nodes(*block), |n: Node| reads_bumps(n)),
{
    let list = nodes_in(block);
    any_node(
        &list,
        |n: &Node| -> (r: bool)
            ensures
                r == reads_bumps(*n)
        { matches!(n.kind, Kind::Field { named: true }) && same(n.name.as_str(), "bumps") },
        Ghost(|n: Node| reads_bumps(n)),
    )
}

/// Whether the block creates a program address with a bump from outside.
fn has_unsafe_call(block: &Node) -> (b: bool)
    ensures
        b == exists|i: int| #[trigger] unsafe_at(steps(*block), i),
{
    let mut list: Vec<&Node> = Vec::new();
    push_steps(block, &mut list);
    let ghost all = list@.unref();
    assert(all =~= steps(*block));
    let mut prov = BumpProvenance { account_locals: Vec::new(), stored_bump_locals: Vec::new() };
    assert(prov@.accounts =~= Set::<Seq<char>>::empty());
    assert(prov@.bumps =~= Set::<Seq<char>>::empty());
    let mut i: usize = 0;
    while i < list.len()
        invariant
            i <= list@.len(),
            all == list@.unref(),
            all == steps(*block),
            prov@ == provenance(all.take(i as int)),
            forall|k: int| k < i ==> !#[trigger] unsafe_at(all, k),
        decreases list@.len() - i,
    {
        assert(all.take(i as int + 1).drop_last() =~= all.take(i as int));
        assert(all.take(i as int + 1).last() == *list@[i as int]);
        let n = list[i];
        assert(all[i as int] == *n);
        if is_named(get_callee_name(n), "create_program_address") && !call_uses_stored_bump(
            n,
            &prov,
        ) {
            assert(unsafe_at(all, i as int));
            return true;
        }
        assert(!unsafe_at(all, i as int));
        collect_bump_provenance(&mut prov, n);
        i = i + 1;
    }
    false
}

/// The functions of a file.
pub struct PdaVisitor<'a> {
    pub items: Vec<&'a Node>,
}

impl<'a> PdaVisitor<'a> {
    /// Whether a function that is called in `body`, other than `own`, finds the
    /// canonical bump.
    pub fn callee_derives_canonical_bump(&self, own: &str, body: &Node) -> (b: bool)
        ensures
            b == some_text(
                called_names(*body),
                |c: Seq<char>| finds_bump(self.items@.unref(), own@, c),
            ),
    {
        let ghost all = self.items@.unref();
        let names = get_called_names(body);
        any_text(
            &names,
            |c: &str| -> (r: bool)
                ensures
                    r == finds_bump(all, own@, c@)
            {
                !same(c, own) && (match find_last(&self.items, c) {
                    Some(f) => contains(f.get_body_text(), "find_program_address"),
                    None => false,
                })
            },
            Ghost(|c: Seq<char>| finds_bump(all, own@, c)),
        )
    }

    /// Whether `f` creates a program address with a bump from outside.
    pub fn is_misusing(&self, f: &Node) -> (b: bool)
        ensures
            b == misuses_bump(self.items@.unref(), *f),
    {
        match f.kind {
            Kind::Function => {},
            _ => {
                return false;
            },
        }
        if has_test_attribute(f) || is_cfg_test(f) || contains(
            f.get_body_text(),
            "find_program_address",
        ) {
            return false;
        }
        match f.get_part(Role::Body) {
            Some(body) => !body_uses_bumps(body) && !self.callee_derives_canonical_bump(
                f.name.as_str(),
                body,
            ) && has_unsafe_call(body),
            None => false,
        }
    }
}

impl PdaIssuesDetector {
    /// The finding on `f`, if there is one, where `visitor` holds the functions of
    /// the file.
    pub fn check(&self, ctx: &ScanContext, visitor: &PdaVisitor<'_>, f: &Node) -> (r: Option<
        Finding,
    >)
        ensures
            opt_report(r) == report_among(*ctx, visitor.items@.unref(), *f),
    {
        if !visitor.is_misusing(f) {
            return None;
        }
        let text = join3(
            "Function '",
            f.name.as_str(),
            "' uses create_program_address without find_program_address (user-provided bump)",
        );
        Some(
            raise(
                &info(),
                ctx,
                Confidence::High,
                f.line,
                f.column,
                text,
                "Use find_program_address() which returns the canonical bump, or verify the provided bump against find_program_address result",
            ),
        )
    }
}

impl Detector for PdaIssuesDetector {
    open spec fn profile(&self) -> Profile {
        profile()
    }

    open spec fn reports_on(&self, ctx: ScanContext) -> Seq<Report> {
        reports_of(walk(ctx.ast, outside_functions_and_tests()), |f: Node| report_on(ctx, f))
    }

    fn id(&self) -> (r: &'static str) {
        info().id
    }

    fn name(&self) -> (r: &'static str) {
        info().name
    }

    fn description(&self) -> (r: &'static str) {
        info().description
    }

    fn severity(&self) -> (r: Severity) {
        info().severity
    }

    fn confidence(&self) -> (r: Confidence) {
        info().confidence
    }

    fn chain(&self) -> (r: Chain) {
        info().chain
    }

    fn detect(&self, ctx: &ScanContext) -> (r: Vec<Finding>) {
        let visitor = PdaVisitor { items: nodes_in(&ctx.ast) };
        let list = walk_nodes(
            &ctx.ast,
            |n: &Node| -> (b: bool)
                ensures
                    b == outside_functions_and_tests()(*n)
            {
                !matches!(n.kind, Kind::Function)
                    && !(matches!(n.kind, Kind::Module) && is_cfg_test(n))
            },
            Ghost(outside_functions_and_tests()),
        );
        collect_findings(
            &list,
            |f: &Node| -> (s: Option<Finding>)
                ensures
                    opt_report(s) == report_on(*ctx, *f)
            { self.check(ctx, &visitor, f) },
            Ghost(|f: Node| report_on(*ctx, f)),
        )
    }

    proof fn law_findings_are_stamped(&self, ctx: ScanContext) {
        assert forall|i: int| 0 <= i < self.reports_on(ctx).len() implies stamped(
            #[trigger] self.reports_on(ctx)[i],
            self.profile(),
            ctx,
        ) by {
            lemma_reports_from(walk(ctx.ast, outside_functions_and_tests()), |f: Node| report_on(ctx, f), i);
        }
    }
}

/// Every finding has the confidence that the rule states of itself.
pub proof fn law_confidence_is_the_rules_own(ctx: ScanContext)
    ensures
        forall|i: int|
            0 <= i < PdaIssuesDetector.reports_on(ctx).len() ==> (
            #[trigger] PdaIssuesDetector.reports_on(ctx)[i]).confidence == profile().confidence,
{
    assert forall|i: int| 0 <= i < PdaIssuesDetector.reports_on(ctx).len() implies (
        #[trigger] PdaIssuesDetector.reports_on(ctx)[i]).confidence == profile().confidence by {
        lemma_reports_from(walk(ctx.ast, outside_functions_and_tests()), |f: Node| report_on(ctx, f), i);
    }
}

/// Nothing is reported on a test function.
pub proof fn law_test_function_is_silent(ctx: ScanContext, f: Node)
    requires
        test_fn(f),
    ensures
        report_on(ctx, f) is None,
{
}

/// A test module contributes no report, whatever it holds.
pub proof fn law_test_module_is_silent(ctx: ScanContext, m: Node)
    requires
        m.kind is Module,
        test_builds_only(m),
    ensures
        reports_of(walk(m, outside_functions_and_tests()), |f: Node| report_on(ctx, f)) == Seq::<Report>::empty(),
{
    lemma_sealed(m, outside_functions_and_tests(), |f: Node| report_on(ctx, f));
}

/// A helper counts only where the file holds a function of its name whose body finds
/// the canonical bump.
pub proof fn law_helpers_are_resolved(list: Seq<Node>, own: Seq<char>, name: Seq<char>)
    requires
        finds_bump(list, own, name),
    ensures
        exists|i: int|
            0 <= i < list.len() && ({
                let h = #[trigger] list[i];
                h.kind is Function && h.name@ == name && mentions(
                    h.body_text(),
                    "find_program_address"@,
                )
            }),
{
    lemma_last_function(list, name);
    let h = last_function(list, name)->0;
    let i = list.index_of(h);
    assert(list[i] == h);
}

/// What is reported on is spoken of, wherever in the file it stands.
proof fn lemma_reported(ctx: ScanContext, path: Seq<Node>, f: Node)
    requires
        leads_openly(path, ctx.ast, f),
        report_on(ctx, f) is Some,
    ensures
        speaks_of(PdaIssuesDetector.reports_on(ctx), f),
{
    lemma_spoken_of(path, outside_functions_and_tests(), |n: Node| report_on(ctx, n), "Function '"@, "' uses create_program_address without find_program_address (user-provided bump)"@);
}

/// A call that creates an address is among the steps of every tree that holds it.
proof fn lemma_step_is_listed(n: Node, m: Node)
    requires
        nodes(n).contains(m),
        callee_name(m) == Some("create_program_address"@),
    ensures
        steps(n).contains(m),
    decreases n,
{
    let i = nodes(n).index_of(m);
    let inner = steps_all(n.children@);
    if i == 0 {
        assert(inner.push(n)[inner.len() as int] == n);
    } else {
        assert(walk_all(n.children@, everywhere())[i - 1] == m);
        let c = lemma_met_in_one(n.children@, everywhere(), m);
        lemma_step_is_listed(n.children@[c], m);
        lemma_step_among(n.children@, c, m);
        let k = inner.index_of(m);
        assert(inner.push(n)[k] == m);
    }
}

/// A step of one of the trees is a step of all of them.
proof fn lemma_step_among(list: Seq<Node>, c: int, m: Node)
    requires
        0 <= c < list.len(),
        steps(list[c]).contains(m),
    ensures
        steps_all(list).contains(m),
    decreases list.len(),
{
    let before = steps_all(list.drop_last());
    let here = steps(list.last());
    if c == list.len() - 1 {
        let i = here.index_of(m);
        assert((before + here)[before.len() + i] == m);
    } else {
        assert(list.drop_last()[c] == list[c]);
        lemma_step_among(list.drop_last(), c, m);
        let i = before.index_of(m);
        assert((before + here)[i] == m);
    }
}

/// The steps of a tree are nodes of it.
proof fn lemma_step_is_node(n: Node, m: Node)
    requires
        steps(n).contains(m),
    ensures
        nodes(n).contains(m),
    decreases n,
{
    let inner = steps_all(n.children@);
    let i = steps(n).index_of(m);
    if i < inner.len() {
        assert(inner[i] == m);
        lemma_steps_are_nodes(n.children@, m);
        let all = walk_all(n.children@, everywhere());
        let k = all.index_of(m);
        assert((seq![n] + all)[k + 1] == m);
    } else {
        assert(nodes(n)[0] == n);
    }
}

/// The steps of trees are nodes of them.
proof fn lemma_steps_are_nodes(list: Seq<Node>, m: Node)
    requires
        steps_all(list).contains(m),
    ensures
        walk_all(list, everywhere()).contains(m),
    decreases list,
{
    let before = steps_all(list.drop_last());
    let here = steps(list.last());
    let i = (before + here).index_of(m);
    let more = walk_all(list.drop_last(), everywhere());
    let rest = nodes(list.last());
    if i < before.len() {
        assert(before[i] == m);
        lemma_steps_are_nodes(list.drop_last(), m);
        let k = more.index_of(m);
        assert((more + rest)[k] == m);
    } else {
        assert(here[i - before.len()] == m);
        lemma_step_is_node(list.last(), m);
        let k = rest.index_of(m);
        assert((more + rest)[more.len() + k] == m);
    }
}

/// Where nothing is bound, nothing is known of any name.
proof fn lemma_nothing_bound(list: Seq<Node>)
    requires
        forall|k: int| 0 <= k < list.len() ==> !((#[trigger] list[k]).kind is Local),
    ensures
        provenance(list) == (Provenance { accounts: Set::empty(), bumps: Set::empty() }),
    decreases list.len(),
{
    if list.len() > 0 {
        assert(!(list[list.len() - 1].kind is Local));
        assert forall|k: int| 0 <= k < list.drop_last().len() implies !((
        #[trigger] list.drop_last()[k]).kind is Local) by {
            assert(list.drop_last()[k] == list[k]);
        }
        lemma_nothing_bound(list.drop_last());
    }
}

/// A tree without `let` binds nothing in its steps.
proof fn lemma_unbound_steps(body: Node, i: int)
    requires
        0 <= i <= steps(body).len(),
        forall|k: int| 0 <= k < nodes(body).len() ==> !((#[trigger] nodes(body)[k]).kind is Local),
    ensures
        provenance(steps(body).take(i)) == (Provenance { accounts: Set::empty(), bumps: Set::empty() }),
{
    let list = steps(body).take(i);
    assert forall|k: int| 0 <= k < list.len() implies !((#[trigger] list[k]).kind is Local) by {
        assert(steps(body).contains(list[k])) by {
            assert(steps(body)[k] == list[k]);
        }
        lemma_step_is_node(body, list[k]);
        let p = nodes(body).index_of(list[k]);
        assert(!(nodes(body)[p].kind is Local));
    }
    lemma_nothing_bound(list);
}

/// A function that creates an address, by a call or as a method and at whatever depth,
/// is reported, if it reads no bump of an account, binds nothing, and neither finds the
/// address itself nor calls anything of the file.
pub proof fn law_created_address_is_reported(ctx: ScanContext, path: Seq<Node>, f: Node, body: Node, n: Node)
    requires
        leads_openly(path, ctx.ast, f),
        f.kind is Function,
        f.parts(Role::Attribute).len() == 0,
        f.part(Role::Body) == Some(body),
        !mentions(body.text@, "find_program_address"@),
        forall|k: int| 0 <= k < nodes(body).len() ==> !((#[trigger] nodes(body)[k]).kind is Local) && !(nodes(body)[k].kind is Field && nodes(body)[k].name@ == "bumps"@),
        forall|k: int| 0 <= k < called_names(body).len() ==> last_function(nodes(ctx.ast), #[trigger] called_names(body)[k]) is None,
        nodes(body).contains(n),
        callee_name(n) == Some("create_program_address"@),
        forall|k: int| 0 <= k < nodes(n).len() ==> (#[trigger] nodes(n)[k]).name@ != "bump"@ && nodes(n)[k].name@ != "bumps"@,
    ensures
        speaks_of(PdaIssuesDetector.reports_on(ctx), f),
{
    lemma_step_is_listed(body, n);
    let list = steps(body);
    let i = list.index_of(n);
    lemma_unbound_steps(body, i);
    let p = provenance(list.take(i));
    assert forall|k: int| 0 <= k < nodes(n).len() implies !stored_read(#[trigger] nodes(n)[k], p) by {}
    assert(!stored_bump(n, p));
    assert(unsafe_at(list, i));
    let called = called_names(body);
    assert forall|k: int| 0 <= k < called.len() implies !finds_bump(nodes(ctx.ast), f.name@, #[trigger] called[k]) by {}
    assert(misuses_bump(nodes(ctx.ast), f));
    lemma_reported(ctx, path, f);
}

/// A bump that is a field of anything but the context is not trusted, whatever else is
/// read beside it.
pub proof fn law_foreign_bump_is_reported(ctx: ScanContext, path: Seq<Node>, f: Node, body: Node, n: Node, read: Node, base: Node)
    requires
        leads_openly(path, ctx.ast, f),
        f.kind is Function,
        f.parts(Role::Attribute).len() == 0,
        f.part(Role::Body) == Some(body),
        !mentions(body.text@, "find_program_address"@),
        forall|k: int| 0 <= k < nodes(body).len() ==> !((#[trigger] nodes(body)[k]).kind is Local) && !(nodes(body)[k].kind is Field && nodes(body)[k].name@ == "bumps"@),
        forall|k: int| 0 <= k < called_names(body).len() ==> last_function(nodes(ctx.ast), #[trigger] called_names(body)[k]) is None,
        nodes(body).contains(n),
        callee_name(n) == Some("create_program_address"@),
        nodes(n).contains(read),
        read.kind == (Kind::Field { named: true }),
        read.name@ == "bump"@,
        read.part(Role::Operand) == Some(base),
        base.kind is PathExpr,
        base.name@ != "ctx"@,
    ensures
        speaks_of(PdaIssuesDetector.reports_on(ctx), f),
{
    lemma_step_is_listed(body, n);
    let list = steps(body);
    let i = list.index_of(n);
    lemma_unbound_steps(body, i);
    let p = provenance(list.take(i));
    let bad = |m: Node| bump_read(m, p.accounts) == Some(false);
    assert(bump_read(read, p.accounts) == Some(false));
    assert(bad(nodes(n)[nodes(n).index_of(read)]));
    assert(!stored_bump(n, p));
    assert(unsafe_at(list, i));
    let called = called_names(body);
    assert forall|k: int| 0 <= k < called.len() implies !finds_bump(nodes(ctx.ast), f.name@, #[trigger] called[k]) by {}
    assert(misuses_bump(nodes(ctx.ast), f));
    lemma_reported(ctx, path, f);
}

/// A function in which nothing is bound, and every address is created with the bump of
/// an account of the context, is not reported.
pub proof fn law_stored_bump_is_trusted(ctx: ScanContext, f: Node, body: Node)
    requires
        f.part(Role::Body) == Some(body),
        forall|k: int| 0 <= k < nodes(body).len() ==> !((#[trigger] nodes(body)[k]).kind is Local),
        forall|k: int| 0 <= k < nodes(body).len() && callee_name(#[trigger] nodes(body)[k]) == Some("create_program_address"@) ==> exists|read: Node, state: Node, list: Node, root: Node|
            #![trigger nodes(nodes(body)[k]).contains(read), read.part(Role::Operand), state.part(Role::Operand), list.part(Role::Operand), root.kind]
            nodes(nodes(body)[k]).contains(read) && read.kind == (Kind::Field { named: true }) && read.name@ == "bump"@
            && read.part(Role::Operand) == Some(state) && state.kind is Field && state.part(Role::Operand) == Some(list) && list.kind == (Kind::Field { named: true }) && list.name@ == "accounts"@ && list.part(Role::Operand) == Some(root) && root.kind is PathExpr && root.name@ == "ctx"@
            && forall|j: int| 0 <= j < nodes(nodes(body)[k]).len() && ((#[trigger] nodes(nodes(body)[k])[j]).name@ == "bump"@ || nodes(nodes(body)[k])[j].name@ == "bumps"@) ==> nodes(nodes(body)[k])[j] == read,
    ensures
        report_on(ctx, f) is None,
{
    assert forall|i: int| !#[trigger] unsafe_at(steps(body), i) by {
        if unsafe_at(steps(body), i) {
            let n = steps(body)[i];
            assert(steps(body).contains(n));
            lemma_step_is_node(body, n);
            let k = nodes(body).index_of(n);
            assert(callee_name(nodes(body)[k]) == Some("create_program_address"@));
            lemma_unbound_steps(body, i);
            let p = provenance(steps(body).take(i));
            let (read, state, list, root) = choose|read: Node, state: Node, list: Node, root: Node|
                #![trigger nodes(n).contains(read), read.part(Role::Operand), state.part(Role::Operand), list.part(Role::Operand), root.kind]
                nodes(n).contains(read) && read.kind == (Kind::Field { named: true }) && read.name@ == "bump"@
                && read.part(Role::Operand) == Some(state) && state.kind is Field && state.part(Role::Operand) == Some(list) && list.kind == (Kind::Field { named: true }) && list.name@ == "accounts"@ && list.part(Role::Operand) == Some(root) && root.kind is PathExpr && root.name@ == "ctx"@
                && forall|j: int| 0 <= j < nodes(n).len() && ((#[trigger] nodes(n)[j]).name@ == "bump"@ || nodes(n)[j].name@ == "bumps"@) ==> nodes(n)[j] == read;
            reveal_strlit("ctx");
            assert(place_root(root) == Some(("ctx"@, false)));
            assert(place_root(list) == Some(("ctx"@, true)));
            assert(place_root(state) == Some(("ctx"@, true)));
            assert(bump_read(read, p.accounts) == Some(true));
            let good = |m: Node| stored_read(m, p);
            let q = nodes(n).index_of(read);
            assert(good(nodes(n)[q]));
            assert forall|j: int| 0 <= j < nodes(n).len() implies bump_read(#[trigger] nodes(n)[j], p.accounts) != Some(false) by {}
            assert(stored_bump(n, p));
        }
    }
}

/// A function that finds the address itself, or reads the bumps that were found, is not
/// reported.
pub proof fn law_found_bump_is_trusted(ctx: ScanContext, f: Node, body: Node, n: Node)
    requires
        f.part(Role::Body) == Some(body),
        mentions(body.text@, "find_program_address"@) || (nodes(body).contains(n) && n.kind == (Kind::Field { named: true }) && n.name@ == "bumps"@),
    ensures
        report_on(ctx, f) is None,
{
    if nodes(body).contains(n) {
        let p = |m: Node| reads_bumps(m);
        let k = nodes(body).index_of(n);
        assert(p(nodes(body)[k]) == reads_bumps(n));
    }
}

/// What is reported creates an address by a call or as a method.
pub proof fn law_only_created_addresses_are_reported(ctx: ScanContext, f: Node)
    requires
        report_on(ctx, f) is Some,
    ensures
        f.kind is Function,
        f.part(Role::Body) matches Some(body) && exists|k: int| 0 <= k < nodes(body).len() && callee_name(#[trigger] nodes(body)[k]) == Some("create_program_address"@),
{
    let body = f.part(Role::Body)->0;
    let i = choose|i: int| #[trigger] unsafe_at(steps(body), i);
    let n = steps(body)[i];
    assert(steps(body).contains(n));
    lemma_step_is_node(body, n);
    let k = nodes(body).index_of(n);
    assert(callee_name(nodes(body)[k]) == Some("create_program_address"@));
}

/// A function is not reported if it calls another of the file that finds the address.
pub proof fn law_helper_may_find_the_bump(ctx: ScanContext, f: Node, body: Node, h: Node)
    requires
        f.part(Role::Body) == Some(body),
        only_function(nodes(ctx.ast), h),
        called_names(body).contains(h.name@),
        h.name@ != f.name@,
        mentions(h.body_text(), "find_program_address"@),
    ensures
        report_on(ctx, f) is None,
{
    law_only_function_is_found(nodes(ctx.ast), h);
    let called = called_names(body);
    let p = |x: Seq<char>| finds_bump(nodes(ctx.ast), f.name@, x);
    assert(p(called[called.index_of(h.name@)]));
}

/// A function that carries a test attribute of whatever framework is not reported.
pub proof fn law_marked_test_is_silent(ctx: ScanContext, f: Node, k: int)
    requires
        0 <= k < f.parts(Role::Attribute).len(),
        f.parts(Role::Attribute)[k].last_word() == Some("test"@),
    ensures
        report_on(ctx, f) is None,
{
    let p = |a: Node| a.last_word() == Some("test"@);
    assert(p(f.parts(Role::Attribute)[k]));
}

/// A function that is built for tests only is not reported.
pub proof fn law_test_build_is_silent(ctx: ScanContext, f: Node)
    requires
        test_builds_only(f),
    ensures
        report_on(ctx, f) is None,
{
}

/// A local is a stored bump only if it was bound to one.
pub proof fn law_stored_bumps_are_bound(n: Node, p: Provenance)
    requires
        n.kind is PathExpr,
        !p.bumps.contains(n.name@),
        bump_read(n, p.accounts) is None,
    ensures
        !stored_read(n, p),
{
}

} // verus!
