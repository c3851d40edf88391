//! Pending state that a second call may find half set.
use vstd::prelude::*;
use crate::attributes::{carries, carries_any, has_any_attribute, outside_functions};
use crate::context::ScanContext;
use crate::detector::{Detector, Profile, raise, raised, RuleInfo, stamped};
use crate::finding::{Chain, Confidence, Finding, Report, Severity};
use crate::quotes::{blank_literals, outside_literals};
use crate::syntax::{Kind, lemma_part_smaller, Node, Role};
use crate::text::{
    any_text, begins, contains, contains_any, is_any, join3, mentions, mentions_any, same,
    same_as_any, some_text, starts_with, texts,
};
use crate::walk::{
    collect_findings, leads_openly, lemma_reports_from, lemma_spoken_of, nodes, nodes_in,
    opt_report, reports_of, speaks_of, walk, walk_nodes,
};

verus! {

/// Reports functions that set a pending field and then call back into the
/// contract, without a look at whether something is pending already.
pub struct SelfCallbackDetector;

/// The rule's description of itself.
pub open spec fn profile() -> Profile {
    Profile {
        id: "NEAR-007"@,
        name: "self-callback-state"@,
        description: "Detects pending state field writes before ext_self:: calls without guard checks"@,
        severity: Severity::High,
        confidence: Confidence::Medium,
        chain: Chain::Near,
    }
}

/// The rule's description of itself.
fn info() -> (r: RuleInfo)
    ensures
        r@ == profile(),
{
    RuleInfo {
        id: "NEAR-007",
        name: "self-callback-state",
        description: "Detects pending state field writes before ext_self:: calls without guard checks",
        severity: Severity::High,
        confidence: Confidence::Medium,
        chain: Chain::Near,
    }
}

/// The attributes of methods that only the contract itself can call.
pub const INTERNAL_ATTRIBUTES: [&'static str; 2] = ["private", "callback"];

/// Words of a guard.
pub const GUARDS: [&'static str; 6] = [
    "assert !",
    "assert!",
    "require !",
    "require!",
    "if self . pending",
    "if self.pending",
];

/// The operators that compute and assign.
pub const COMPOUND_ASSIGNMENTS: [&'static str; 10] = [
    "+=",
    "-=",
    "*=",
    "/=",
    "%=",
    "^=",
    "&=",
    "|=",
    "<<=",
    ">>=",
];

/// The expression is `self`.
pub open spec fn is_self(e: Node) -> bool {
    e.kind is PathExpr && e.part(Role::Type) is None && e.name@ == "self"@
}

/// The expression is a pending field of `self`, or a part of one.
pub open spec fn pending_field(e: Node) -> bool
    decreases e,
{
    proof {
        lemma_part_smaller(e, Role::Operand);
    }
    match (e.kind, e.part(Role::Operand)) {
        (Kind::Field { named }, Some(base)) => if is_self(base) {
            named && begins(e.name@, "pending"@)
        } else {
            pending_field(base)
        },
        _ => false,
    }
}

/// The node assigns to a pending field of `self`.
pub open spec fn writes_pending(n: Node) -> bool {
    &&& n.kind is Assign || (n.kind is Binary && is_any(n.name@, COMPOUND_ASSIGNMENTS@))
    &&& n.part(Role::Left) matches Some(left) && pending_field(left)
}

/// The node calls the contract itself.
pub open spec fn calls_self(n: Node) -> bool {
    match n.kind {
        Kind::PathExpr => some_text(texts(n.words@), |w: Seq<char>| mentions(w, "ext_self"@)),
        Kind::MethodCall => mentions(n.name@, "ext_self"@),
        Kind::Macro => mentions(outside_literals(n.text@), "ext_self"@),
        _ => false,
    }
}

/// A node at `i` assigns to a pending field of `self`, and one at `j`, behind it, calls
/// the contract itself.
pub open spec fn writes_then_calls(list: Seq<Node>, i: int, j: int) -> bool {
    0 <= i < j < list.len() && writes_pending(list[i]) && calls_self(list[j])
}

/// Some node of `list` assigns to a pending field of `self` before the contract calls
/// itself.
pub open spec fn writes_before_call(list: Seq<Node>) -> bool {
    exists|i: int, j: int| #[trigger] writes_then_calls(list, i, j)
}

/// `f` sets a pending field before a callback, and nothing guards it.
pub open spec fn unguarded(f: Node) -> bool {
    &&& f.kind is Function
    &&& !carries_any(f, INTERNAL_ATTRIBUTES@)
    &&& f.part(Role::Body) matches Some(body) && writes_before_call(nodes(body))
    &&& !mentions_any(f.body_text(), GUARDS@)
}

/// The report on `f`, if there is one.
pub open spec fn report_on(ctx: ScanContext, f: Node) -> Option<Report> {
    if unguarded(f) {
        Some(
            raised(
                profile(),
                ctx,
                Confidence::Medium,
                f.line,
                f.column,
                "Function '"@ + f.name@
                    + "' sets pending state before ext_self callback without guard"@,
                "Add a guard check for pending state (e.g., assert!(!self.pending_withdrawal)) before setting it, and clear it in the callback"@,
            ),
        )
    } else {
        None
    }
}

/// Whether the expression is `self`.
pub fn expr_is_self(e: &Node) -> (b: bool)
    ensures
        b == is_self(*e),
{
    matches!(e.kind, Kind::PathExpr) && e.get_part(Role::Type).is_none() && same(
        e.name.as_str(),
        "self",
    )
}

/// Whether the expression is a pending field of `self`, or a part of one.
pub fn lhs_is_self_pending(e: &Node) -> (b: bool)
    ensures
        b == pending_field(*e),
    decreases e,
{
    proof {
        lemma_part_smaller(*e, Role::Operand);
    }
    match (e.kind, e.get_part(Role::Operand)) {
        (Kind::Field { named }, Some(base)) => if expr_is_self(base) {
            named && starts_with(e.name.as_str(), "pending")
        } else {
            lhs_is_self_pending(base)
        },
        _ => false,
    }
}

/// Whether the node assigns to a pending field of `self`.
fn is_pending_write(n: &Node) -> (b: bool)
    ensures
        b == writes_pending(*n),
{
    (matches!(n.kind, Kind::Assign) || (matches!(n.kind, Kind::Binary) && same_as_any(
        n.name.as_str(),
        COMPOUND_ASSIGNMENTS.as_slice(),
    ))) && (match n.get_part(Role::Left) {
        Some(left) => lhs_is_self_pending(left),
        None => false,
    })
}

/// Whether the node calls the contract itself.
fn is_self_call(n: &Node) -> (b: bool)
    ensures
        b == calls_self(*n),
{
    match n.kind {
        Kind::PathExpr => any_text(
            &n.words,
            |w: &str| -> (r: bool)
                ensures
                    r == mentions(w@, "ext_self"@)
            { contains(w, "ext_self") },
            Ghost(|w: Seq<char>| mentions(w, "ext_self"@)),
        ),
        Kind::MethodCall => contains(n.name.as_str(), "ext_self"),
        Kind::Macro => contains(blank_literals(n.text.as_str()).as_str(), "ext_self"),
        _ => false,
    }
}

/// Whether something in the block assigns to a pending field of `self` before the
/// contract calls itself.
pub fn writes_self_pending_field(block: &Node) -> (b: bool)
    ensures
        b == writes_before_call(nodes(*block)),
{
    let list = nodes_in(block);
    let ghost all = list@.unref();
    let mut written = false;
    let mut k: usize = 0;
    while k < list.len()
        invariant
            k <= list@.len(),
            all == list@.unref(),
            all == nodes(*block),
            written == exists|i: int| 0 <= i < k && #[trigger] writes_pending(all[i]),
            forall|i: int, j: int| j < k ==> !#[trigger] writes_then_calls(all, i, j),
        decreases list@.len() - k,
    {
        assert(all[k as int] == *list@[k as int]);
        if written && is_self_call(list[k]) {
            proof {
                let i = choose|i: int| 0 <= i < k && #[trigger] writes_pending(all[i]);
                assert(writes_then_calls(all, i, k as int));
            }
            return true;
        }
        assert forall|i: int| !#[trigger] writes_then_calls(all, i, k as int) by {
            if writes_then_calls(all, i, k as int) {
                assert(writes_pending(all[i]));
            }
        }
        if is_pending_write(list[k]) {
            assert(writes_pending(all[k as int]));
            written = true;
        }
        k = k + 1;
    }
    false
}

impl SelfCallbackDetector {
    /// The finding on `f`, if there is one.
    pub fn check(&self, ctx: &ScanContext, f: &Node) -> (r: Option<Finding>)
        ensures
            opt_report(r) == report_on(*ctx, *f),
    {
        match f.kind {
            Kind::Function => {},
            _ => {
                return None;
            },
        }
        let text = f.get_body_text();
        if has_any_attribute(f, INTERNAL_ATTRIBUTES.as_slice()) || contains_any(text, GUARDS.as_slice()) {
            return None;
        }
        match f.get_part(Role::Body) {
            Some(body) => {
                if !writes_self_pending_field(body) {
                    return None;
                }
            },
            None => {
                return None;
            },
        }
        let message = join3(
            "Function '",
            f.name.as_str(),
            "' sets pending state before ext_self callback without guard",
        );
        Some(
            raise(
                &info(),
                ctx,
                Confidence::Medium,
                f.line,
                f.column,
                message,
                "Add a guard check for pending state (e.g., assert!(!self.pending_withdrawal)) before setting it, and clear it in the callback",
            ),
        )
    }
}

impl Detector for SelfCallbackDetector {
    open spec fn profile(&self) -> Profile {
        profile()
    }

    open spec fn reports_on(&self, ctx: ScanContext) -> Seq<Report> {
        reports_of(walk(ctx.ast, outside_functions()), |f: Node| report_on(ctx, f))
    }

    fn id(&self) -> (r: &'static str) {
        info().id
    }

    fn name(&self) -> (r: &'static str) {
        info().name
    }

    fn description(&self) -> (r: &'static str) {
        info().description
    }

    fn severity(&self) -> (r: Severity) {
        info().severity
    }

    fn confidence(&self) -> (r: Confidence) {
        info().confidence
    }

    fn chain(&self) -> (r: Chain) {
        info().chain
    }

    fn detect(&self, ctx: &ScanContext) -> (r: Vec<Finding>) {
        let list = walk_nodes(
            &ctx.ast,
            |n: &Node| -> (b: bool)
                ensures
                    b == outside_functions()(*n)
            { !matches!(n.kind, Kind::Function) },
            Ghost(outside_functions()),
        );
        collect_findings(
            &list,
            |f: &Node| -> (s: Option<Finding>)
                ensures
                    opt_report(s) == report_on(*ctx, *f)
            { self.check(ctx, f) },
            Ghost(|f: Node| report_on(*ctx, f)),
        )
    }

    proof fn law_findings_are_stamped(&self, ctx: ScanContext) {
        assert forall|i: int| 0 <= i < self.reports_on(ctx).len() implies stamped(
            #[trigger] self.reports_on(ctx)[i],
            self.profile(),
            ctx,
        ) by {
            lemma_reports_from(walk(ctx.ast, outside_functions()), |f: Node| report_on(ctx, f), i);
        }
    }
}

/// Every finding has the confidence that the rule states of itself.
pub proof fn law_confidence_is_the_rules_own(ctx: ScanContext)
    ensures
        forall|i: int|
            0 <= i < SelfCallbackDetector.reports_on(ctx).len() ==> (
            #[trigger] SelfCallbackDetector.reports_on(ctx)[i]).confidence == profile().confidence,
{
    assert forall|i: int| 0 <= i < SelfCallbackDetector.reports_on(ctx).len() implies (
        #[trigger] SelfCallbackDetector.reports_on(ctx)[i]).confidence == profile().confidence by {
        lemma_reports_from(walk(ctx.ast, outside_functions()), |f: Node| report_on(ctx, f), i);
    }
}

/// What is reported on is spoken of, wherever in the file it stands.
proof fn lemma_reported(ctx: ScanContext, path: Seq<Node>, f: Node)
    requires
        leads_openly(path, ctx.ast, f),
        report_on(ctx, f) is Some,
    ensures
        speaks_of(SelfCallbackDetector.reports_on(ctx), f),
{
    lemma_spoken_of(path, outside_functions(), |n: Node| report_on(ctx, n), "Function '"@, "' sets pending state before ext_self callback without guard"@);
}

/// A function that assigns to a field of `self` whose name begins with `pending`, by
/// `=` or by a compound assignment, is reported, if anything behind it, at any
/// distance, calls the contract itself and nothing guards it.
pub proof fn law_pending_write_before_a_call_is_reported(ctx: ScanContext, path: Seq<Node>, f: Node, body: Node, i: int, j: int, left: Node, base: Node)
    requires
        leads_openly(path, ctx.ast, f),
        f.kind is Function,
        f.parts(Role::Attribute).len() == 0,
        f.part(Role::Body) == Some(body),
        !mentions_any(body.text@, seq!["assert !", "assert!", "require !", "require!", "if self . pending", "if self.pending"]),
        0 <= i < j < nodes(body).len(),
        nodes(body)[i].kind is Assign || (nodes(body)[i].kind is Binary && is_any(nodes(body)[i].name@, seq!["+=", "-=", "*=", "/=", "%=", "^=", "&=", "|=", "<<=", ">>="])),
        nodes(body)[i].part(Role::Left) == Some(left),
        left.kind == (Kind::Field { named: true }),
        begins(left.name@, "pending"@),
        left.part(Role::Operand) == Some(base),
        base.kind is PathExpr,
        base.part(Role::Type) is None,
        base.name@ == "self"@,
        (nodes(body)[j].kind is PathExpr && nodes(body)[j].words@.len() > 0 && mentions(nodes(body)[j].words@[0]@, "ext_self"@)) || (nodes(body)[j].kind is MethodCall && mentions(nodes(body)[j].name@, "ext_self"@)) || (nodes(body)[j].kind is Macro && mentions(outside_literals(nodes(body)[j].text@), "ext_self"@)),
    ensures
        speaks_of(SelfCallbackDetector.reports_on(ctx), f),
{
    let n = nodes(body)[j];
    if n.kind is PathExpr {
        let p = |w: Seq<char>| mentions(w, "ext_self"@);
        assert(p(texts(n.words@)[0]));
    }
    assert(pending_field(left));
    assert(writes_then_calls(nodes(body), i, j));
    assert(!carries_any(f, INTERNAL_ATTRIBUTES@));
    lemma_reported(ctx, path, f);
}

/// What is reported writes something before the contract calls itself, is neither
/// private nor a callback, and shows no guard.
pub proof fn law_reported_write_is_unguarded(ctx: ScanContext, f: Node)
    requires
        report_on(ctx, f) is Some,
    ensures
        f.kind is Function,
        !carries(f, "private"@),
        !carries(f, "callback"@),
        !mentions_any(f.body_text(), seq!["assert !", "assert!", "require !", "require!", "if self . pending", "if self.pending"]),
        f.part(Role::Body) matches Some(body) && exists|i: int, j: int|
            0 <= i < j < nodes(body).len() && ((#[trigger] nodes(body)[i]).kind is Assign || nodes(body)[i].kind is Binary) && ((#[trigger] nodes(body)[j]).kind is PathExpr || nodes(body)[j].kind is MethodCall || nodes(body)[j].kind is Macro),
{
    let list = nodes(f.part(Role::Body)->0);
    let (i, j) = choose|i: int, j: int| #[trigger] writes_then_calls(list, i, j);
    assert(list[i].kind is Assign || list[i].kind is Binary);
    assert(list[j].kind is PathExpr || list[j].kind is MethodCall || list[j].kind is Macro);
    let marks = f.parts(Role::Attribute);
    let p = |a: Node| is_any(a.name@, INTERNAL_ATTRIBUTES@);
    assert forall|k: int| 0 <= k < marks.len() implies (#[trigger] marks[k]).name@ != "private"@ && marks[k].name@ != "callback"@ by {
        assert(!p(marks[k]));
    }
}

/// `self` is the plain word.
pub proof fn law_self_is_a_plain_word(e: Node)
    requires
        is_self(e),
    ensures
        e.kind is PathExpr && e.part(Role::Type) is None && e.name@ == "self"@,
{
}

/// What is written is a field, by an assignment or by one of the compound ones.
pub proof fn law_pending_state_is_written_by_assignments(n: Node)
    requires
        writes_pending(n),
    ensures
        n.kind is Assign || (n.kind is Binary && is_any(n.name@, seq!["+=", "-=", "*=", "/=", "%=", "^=", "&=", "|=", "<<=", ">>="])),
        n.part(Role::Left) matches Some(left) && left.kind is Field,
{
}

/// A field of the contract is pending if and only if its name says so.
pub proof fn law_pending_fields_are_named(e: Node, base: Node)
    requires
        e.kind == (Kind::Field { named: true }),
        e.part(Role::Operand) == Some(base),
        base.kind is PathExpr,
        base.part(Role::Type) is None,
        base.name@ == "self"@,
    ensures
        pending_field(e) == begins(e.name@, "pending"@),
{
}

} // verus!
