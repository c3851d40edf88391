//! Arithmetic on money that loses overflow without a word.
use vstd::prelude::*;
use crate::attributes::{carries_test, has_test_attribute};
use crate::cfg::{cfg_cannot_hold, excludes, meta_of, read_meta, test_builds_only};
use crate::context::ScanContext;
use crate::detector::{Detector, fully_stamped, Profile, raise, raised, RuleInfo};
use crate::finding::{Chain, Confidence, Finding, Report, reports, Severity};
use crate::markers::NEAR_MARKERS;
use crate::syntax::{Kind, Node, Role};
use crate::text::{
    begins, begins_any, contains_any, join2, lemma_holds_middle, mentions_any, starts_with_any,
};
use crate::walk::{
    any_node, everywhere, leads, leads_openly, lemma_met_among, nodes, speaks_of, walk_all,
};

verus! {

/// Reports wrapping and saturating arithmetic on financial values.
pub struct IntegerOverflowDetector;

/// The rule's description of itself.
pub open spec fn profile() -> Profile {
    Profile {
        id: "NEAR-005"@,
        name: "near-wrapping-arithmetic"@,
        description: "Detects wrapping_*/saturating_* on balance/amount variables"@,
        severity: Severity::Critical,
        confidence: Confidence::Medium,
        chain: Chain::Near,
    }
}

/// The rule's description of itself.
fn info() -> (r: RuleInfo)
    ensures
        r@ == profile(),
{
    RuleInfo {
        id: "NEAR-005",
        name: "near-wrapping-arithmetic",
        description: "Detects wrapping_*/saturating_* on balance/amount variables",
        severity: Severity::Critical,
        confidence: Confidence::Medium,
        chain: Chain::Near,
    }
}

/// How the names of methods that lose overflow begin.
pub const LOSSY_PREFIXES: [&'static str; 2] = ["wrapping_", "saturating_"];

/// Words of an expression about money.
pub const FINANCIAL_WORDS: [&'static str; 6] = [
    "balance",
    "amount",
    "deposit",
    "stake",
    "token",
    "reward",
];

/// `n` never reaches the deployed contract.
pub open spec fn test_only(n: Node) -> bool {
    test_builds_only(n) || carries_test(n)
}

/// The method call loses overflow on money.
pub open spec fn loses_money(n: Node) -> bool {
    &&& n.kind is MethodCall
    &&& begins_any(n.name@, LOSSY_PREFIXES@)
    &&& mentions_any(n.text@, FINANCIAL_WORDS@)
}

/// The report on a method call.
pub open spec fn report_on(ctx: ScanContext, n: Node) -> Report {
    raised(
        profile(),
        ctx,
        Confidence::Medium,
        n.line,
        n.column,
        n.name@ + "() used on financial value - may silently lose precision"@,
        "Use checked_* arithmetic and handle overflow explicitly for financial calculations"@,
    )
}

/// What a visit of `n` reports, and whether it ends inside a function, where
/// `inside` says whether it starts inside one. Leaving a function ends outside,
/// wherever the function stands.
pub open spec fn visit(ctx: ScanContext, n: Node, inside: bool) -> (Seq<Report>, bool)
    decreases n,
{
    match n.kind {
        Kind::Module => if test_only(n) {
            (Seq::empty(), inside)
        } else {
            visit_all(ctx, n.children@, inside)
        },
        Kind::Function => if test_only(n) {
            (Seq::empty(), inside)
        } else {
            (visit_all(ctx, n.children@, true).0, false)
        },
        _ => {
            let below = visit_all(ctx, n.children@, inside);
            if inside && loses_money(n) {
                (seq![report_on(ctx, n)] + below.0, below.1)
            } else {
                below
            }
        },
    }
}

/// What visits of the nodes of `list`, one after the other, report.
pub open spec fn visit_all(ctx: ScanContext, list: Seq<Node>, inside: bool) -> (Seq<Report>, bool)
    decreases list,
{
    if list.len() == 0 {
        (Seq::empty(), inside)
    } else {
        let before = visit_all(ctx, list.drop_last(), inside);
        let here = visit(ctx, list.last(), before.1);
        (before.0 + here.0, here.1)
    }
}

/// Whether `n` never reaches the deployed contract.
pub fn is_test_only(n: &Node) -> (b: bool)
    ensures
        b == test_only(*n),
{
    let list = n.get_parts(Role::Attribute);
    let by_cfg = any_node(
        &list,
        |a: &Node| -> (r: bool)
            ensures
                r == excludes(meta_of(a.text@))
        { cfg_cannot_hold(&read_meta(a.text.as_str())) },
        Ghost(|a: Node| excludes(meta_of(a.text@))),
    );
    by_cfg || has_test_attribute(n)
}

/// A visit under way: what it has reported, and whether it stands inside a
/// function.
pub struct OverflowVisitor {
    pub findings: Vec<Finding>,
    pub in_function: bool,
}

impl OverflowVisitor {
    /// Visits the children of `n`.
    fn visit_children(&mut self, ctx: &ScanContext, n: &Node)
        ensures
            reports(final(self).findings@) == reports(old(self).findings@) + visit_all(
                *ctx,
                n.children@,
                old(self).in_function,
            ).0,
            final(self).in_function == visit_all(*ctx, n.children@, old(self).in_function).1,
        decreases n, 0nat,
    {
        let ghost before = reports(self.findings@);
        let ghost start = self.in_function;
        let mut i: usize = 0;
        while i < n.children.len()
            invariant
                i <= n.children@.len(),
                reports(self.findings@) == before + visit_all(
                    *ctx,
                    n.children@.take(i as int),
                    start,
                ).0,
                self.in_function == visit_all(*ctx, n.children@.take(i as int), start).1,
            decreases n.children@.len() - i,
        {
            assert(n.children@.take(i as int + 1).drop_last() =~= n.children@.take(i as int));
            assert(n.children@.take(i as int + 1).last() == n.children@[i as int]);
            self.visit(ctx, &n.children[i]);
            assert(reports(self.findings@) =~= before + visit_all(
                *ctx,
                n.children@.take(i as int + 1),
                start,
            ).0);
            i = i + 1;
        }
        assert(n.children@.take(i as int) =~= n.children@);
    }

    /// Visits `n`.
    pub fn visit(&mut self, ctx: &ScanContext, n: &Node)
        ensures
            reports(final(self).findings@) == reports(old(self).findings@) + visit(
                *ctx,
                *n,
                old(self).in_function,
            ).0,
            final(self).in_function == visit(*ctx, *n, old(self).in_function).1,
        decreases n, 1nat,
    {
        let ghost before = reports(self.findings@);
        match n.kind {
            Kind::Module => {
                if !is_test_only(n) {
                    self.visit_children(ctx, n);
                }
            },
            Kind::Function => {
                if !is_test_only(n) {
                    self.in_function = true;
                    self.visit_children(ctx, n);
                    self.in_function = false;
                }
            },
            _ => {
                if self.in_function && matches!(n.kind, Kind::MethodCall) && starts_with_any(
                    n.name.as_str(),
                    LOSSY_PREFIXES.as_slice(),
                ) && contains_any(n.text.as_str(), FINANCIAL_WORDS.as_slice()) {
                    let text = join2(
                        n.name.as_str(),
                        "() used on financial value - may silently lose precision",
                    );
                    let finding = raise(
                        &info(),
                        ctx,
                        Confidence::Medium,
                        n.line,
                        n.column,
                        text,
                        "Use checked_* arithmetic and handle overflow explicitly for financial calculations",
                    );
                    self.findings.push(finding);
                    assert(reports(self.findings@) =~= before + seq![report_on(*ctx, *n)]);
                }
                self.visit_children(ctx, n);
            },
        }
        assert(reports(self.findings@) =~= before + visit(*ctx, *n, old(self).in_function).0);
    }
}

impl Detector for IntegerOverflowDetector {
    open spec fn profile(&self) -> Profile {
        profile()
    }

    open spec fn reports_on(&self, ctx: ScanContext) -> Seq<Report> {
        if !mentions_any(ctx.source@, NEAR_MARKERS@) {
            Seq::empty()
        } else {
            visit(ctx, ctx.ast, false).0
        }
    }

    fn id(&self) -> (r: &'static str) {
        info().id
    }

    fn name(&self) -> (r: &'static str) {
        info().name
    }

    fn description(&self) -> (r: &'static str) {
        info().description
    }

    fn severity(&self) -> (r: Severity) {
        info().severity
    }

    fn confidence(&self) -> (r: Confidence) {
        info().confidence
    }

    fn chain(&self) -> (r: Chain) {
        info().chain
    }

    fn detect(&self, ctx: &ScanContext) -> (r: Vec<Finding>) {
        if !contains_any(ctx.source.as_str(), NEAR_MARKERS.as_slice()) {
            return Vec::new();
        }
        let mut visitor = OverflowVisitor { findings: Vec::new(), in_function: false };
        visitor.visit(ctx, &ctx.ast);
        assert(reports(visitor.findings@) =~= self.reports_on(*ctx));
        visitor.findings
    }

    proof fn law_findings_are_stamped(&self, ctx: ScanContext) {
        lemma_visit_is_stamped(ctx, ctx.ast, false);
    }
}

/// Every finding has the confidence that the rule states of itself.
pub proof fn law_confidence_is_the_rules_own(ctx: ScanContext)
    ensures
        forall|i: int|
            0 <= i < IntegerOverflowDetector.reports_on(ctx).len() ==> (
            #[trigger] IntegerOverflowDetector.reports_on(ctx)[i]).confidence == profile().confidence,
{
    lemma_visit_is_stamped(ctx, ctx.ast, false);
}

/// Every report of a visit names this rule and the file.
proof fn lemma_visit_is_stamped(ctx: ScanContext, n: Node, inside: bool)
    ensures
        forall|i: int|
            0 <= i < visit(ctx, n, inside).0.len() ==> fully_stamped(
                #[trigger] visit(ctx, n, inside).0[i],
                profile(),
                ctx,
            ),
    decreases n,
{
    lemma_visits_are_stamped(ctx, n.children@, inside);
    lemma_visits_are_stamped(ctx, n.children@, true);
    let below = visit_all(ctx, n.children@, inside).0;
    assert forall|i: int| 0 <= i < visit(ctx, n, inside).0.len() implies fully_stamped(
        #[trigger] visit(ctx, n, inside).0[i],
        profile(),
        ctx,
    ) by {
        if n.kind is Function {
            assert(fully_stamped(visit_all(ctx, n.children@, true).0[i], profile(), ctx));
        } else if !(n.kind is Module) && inside && loses_money(n) {
            assert(visit(ctx, n, inside).0 == seq![report_on(ctx, n)] + below);
            if i > 0 {
                assert(fully_stamped(below[i - 1], profile(), ctx));
            }
        } else {
            assert(fully_stamped(below[i], profile(), ctx));
        }
    }
}

/// Every report of visits one after the other names this rule and the file.
proof fn lemma_visits_are_stamped(ctx: ScanContext, list: Seq<Node>, inside: bool)
    ensures
        forall|i: int|
            0 <= i < visit_all(ctx, list, inside).0.len() ==> fully_stamped(
                #[trigger] visit_all(ctx, list, inside).0[i],
                profile(),
                ctx,
            ),
    decreases list,
{
    if list.len() > 0 {
        let before = visit_all(ctx, list.drop_last(), inside);
        let here = visit(ctx, list.last(), before.1);
        lemma_visits_are_stamped(ctx, list.drop_last(), inside);
        lemma_visit_is_stamped(ctx, list.last(), before.1);
        assert forall|i: int| 0 <= i < visit_all(ctx, list, inside).0.len() implies fully_stamped(
            #[trigger] visit_all(ctx, list, inside).0[i],
            profile(),
            ctx,
        ) by {
            assert(visit_all(ctx, list, inside).0 == before.0 + here.0);
            if i < before.0.len() {
                assert(fully_stamped(before.0[i], profile(), ctx));
            } else {
                assert(fully_stamped(here.0[i - before.0.len()], profile(), ctx));
            }
        }
    }
}

/// Code that never reaches the deployed contract is not reported on, and a visit
/// goes on behind it as if it were not there.
pub proof fn law_test_code_is_silent(ctx: ScanContext, n: Node, inside: bool)
    requires
        n.kind is Module || n.kind is Function,
        test_only(n),
    ensures
        visit(ctx, n, inside) == (Seq::<Report>::empty(), inside),
{
}

/// Nothing is reported on a file that shows no mark of a NEAR contract.
pub proof fn law_out_of_scope_is_silent(ctx: ScanContext)
    requires
        !mentions_any(ctx.source@, NEAR_MARKERS@),
    ensures
        IntegerOverflowDetector.reports_on(ctx).len() == 0,
{
}

/// No function and no module stands in the tree.
pub open spec fn holds_no_items(n: Node) -> bool {
    forall|k: int|
        0 <= k < nodes(n).len() ==> !((#[trigger] nodes(n)[k]).kind is Function) && !(nodes(
            n,
        )[k].kind is Module)
}

/// A tree without functions and modules is made of such trees.
proof fn lemma_holds_no_items_below(n: Node, k: int)
    requires
        holds_no_items(n),
        0 <= k < n.children@.len(),
    ensures
        holds_no_items(n.children@[k]),
{
    let c = n.children@[k];
    assert forall|i: int| 0 <= i < nodes(c).len() implies !((#[trigger] nodes(
        c,
    )[i]).kind is Function) && !(nodes(c)[i].kind is Module) by {
        lemma_met_among(n.children@, everywhere(), k, nodes(c)[i]);
        let inner = walk_all(n.children@, everywhere());
        let p = inner.index_of(nodes(c)[i]);
        assert((seq![n] + inner)[p + 1] == nodes(c)[i]);
        assert(nodes(n)[p + 1] == nodes(c)[i]);
    }
}

/// A visit of a tree without functions ends as it starts.
proof fn lemma_visit_stays(ctx: ScanContext, n: Node, inside: bool)
    requires
        holds_no_items(n) || !inside,
    ensures
        visit(ctx, n, inside).1 == inside,
    decreases n,
{
    if inside {
        assert(nodes(n)[0] == n);
        assert forall|k: int| 0 <= k < n.children@.len() implies holds_no_items(
            #[trigger] n.children@[k],
        ) by {
            lemma_holds_no_items_below(n, k);
        }
    }
    lemma_visits_stay(ctx, n.children@, inside);
}

/// Visits of trees without functions end as they start.
proof fn lemma_visits_stay(ctx: ScanContext, list: Seq<Node>, inside: bool)
    requires
        !inside || forall|k: int| 0 <= k < list.len() ==> holds_no_items(#[trigger] list[k]),
    ensures
        visit_all(ctx, list, inside).1 == inside,
    decreases list,
{
    if list.len() > 0 {
        if inside {
            assert forall|k: int| 0 <= k < list.drop_last().len() implies holds_no_items(
                #[trigger] list.drop_last()[k],
            ) by {
                assert(list.drop_last()[k] == list[k]);
            }
            assert(holds_no_items(list[list.len() - 1]));
        }
        lemma_visits_stay(ctx, list.drop_last(), inside);
        lemma_visit_stays(ctx, list.last(), inside);
    }
}

/// What one of the visits reports, all of them report together.
proof fn lemma_reported_among(ctx: ScanContext, list: Seq<Node>, inside: bool, k: int, r: Report)
    requires
        0 <= k < list.len(),
        visit(ctx, list[k], inside).0.contains(r),
        !inside || forall|m: int| 0 <= m < list.len() ==> holds_no_items(#[trigger] list[m]),
    ensures
        visit_all(ctx, list, inside).0.contains(r),
    decreases list.len(),
{
    let front = list.drop_last();
    let before = visit_all(ctx, front, inside);
    if inside {
        assert forall|m: int| 0 <= m < front.len() implies holds_no_items(#[trigger] front[m]) by {
            assert(front[m] == list[m]);
        }
    }
    lemma_visits_stay(ctx, front, inside);
    let here = visit(ctx, list.last(), inside);
    if k == list.len() - 1 {
        let i = here.0.index_of(r);
        assert((before.0 + here.0)[before.0.len() + i] == r);
    } else {
        assert(front[k] == list[k]);
        lemma_reported_among(ctx, front, inside, k, r);
        let i = before.0.index_of(r);
        assert((before.0 + here.0)[i] == r);
    }
}

/// What is reported at the end of a path is reported at its start.
proof fn lemma_reported_below(ctx: ScanContext, path: Seq<Node>, inside: bool, r: Report)
    requires
        leads(path),
        inside ==> holds_no_items(path[0]),
        !inside ==> forall|i: int|
            0 <= i < path.len() - 1 ==> !((#[trigger] path[i]).kind is Function) && path[i].parts(
                Role::Attribute,
            ).len() == 0,
        visit(ctx, path.last(), inside).0.contains(r),
    ensures
        visit(ctx, path[0], inside).0.contains(r),
    decreases path.len(),
{
    if path.len() > 1 {
        let n = path[0];
        let rest = path.drop_first();
        assert(n.children@.contains(path[1]));
        let k = n.children@.index_of(path[1]);
        if inside {
            assert(nodes(n)[0] == n);
            assert forall|m: int| 0 <= m < n.children@.len() implies holds_no_items(
                #[trigger] n.children@[m],
            ) by {
                lemma_holds_no_items_below(n, m);
            }
        }
        assert forall|i: int| 0 <= i < rest.len() - 1 implies (#[trigger] rest[i]).children@.contains(
            rest[i + 1],
        ) && (!inside ==> !(rest[i].kind is Function) && rest[i].parts(Role::Attribute).len() == 0) by {
            assert(path[i + 1].children@.contains(path[i + 2]));
            assert(!inside ==> !(path[i + 1].kind is Function));
        }
        lemma_reported_below(ctx, rest, inside, r);
        lemma_reported_among(ctx, n.children@, inside, k, r);
        assert(!inside ==> !(path[0].kind is Function));
        let below = visit_all(ctx, n.children@, inside).0;
        let i = below.index_of(r);
        if inside && loses_money(n) {
            assert((seq![report_on(ctx, n)] + below)[i + 1] == r);
        }
    }
}

/// A method whose name begins with `wrapping_` or `saturating_` is reported, at its
/// place and by its name, wherever it is called inside a function, if the call says
/// anything of money.
pub proof fn law_lossy_call_on_money_is_reported(ctx: ScanContext, way: Seq<Node>, f: Node, path: Seq<Node>, n: Node)
    requires
        mentions_any(ctx.source@, seq!["near_sdk", "near_contract_standards", "#[near_bindgen]", "#[near(", "env::predecessor_account_id", "env::signer_account_id", "Promise::new"]),
        leads_openly(way, ctx.ast, f),
        f.kind is Function,
        f.parts(Role::Attribute).len() == 0,
        leads(path),
        f.children@.contains(path[0]),
        path.last() == n,
        forall|k: int| 0 <= k < f.children@.len() ==> holds_no_items(#[trigger] f.children@[k]),
        n.kind is MethodCall,
        begins(n.name@, "wrapping_"@) || begins(n.name@, "saturating_"@),
        mentions_any(n.text@, seq!["balance", "amount", "deposit", "stake", "token", "reward"]),
    ensures
        speaks_of(IntegerOverflowDetector.reports_on(ctx), n),
{
    let r = report_on(ctx, n);
    assert(loses_money(n));
    assert(visit(ctx, n, true).0[0] == r);
    let k = f.children@.index_of(path[0]);
    assert(holds_no_items(f.children@[k]));
    lemma_reported_below(ctx, path, true, r);
    lemma_reported_among(ctx, f.children@, true, k, r);
    assert(!test_only(f));
    lemma_reported_below(ctx, way, false, r);
    let list = IntegerOverflowDetector.reports_on(ctx);
    let i = list.index_of(r);
    assert(list[i] == r);
    assert(r.message =~= Seq::<char>::empty() + n.name@ + "() used on financial value - may silently lose precision"@);
    lemma_holds_middle(r.message, Seq::<char>::empty(), n.name@, "() used on financial value - may silently lose precision"@);
}

/// Any other node is not reported itself: what is reported at it lies below it.
pub proof fn law_other_calls_are_not_reported(ctx: ScanContext, n: Node, inside: bool)
    requires
        !(n.kind is Module) && !(n.kind is Function),
        !(n.kind is MethodCall) || !mentions_any(n.text@, seq!["balance", "amount", "deposit", "stake", "token", "reward"]) || !(begins(n.name@, "wrapping_"@) || begins(n.name@, "saturating_"@)),
    ensures
        visit(ctx, n, inside) == visit_all(ctx, n.children@, inside),
{
}

/// Nothing of a function or a module that carries a test attribute is reported, nor of
/// one that is built for tests only.
pub proof fn law_marked_test_is_silent(ctx: ScanContext, n: Node, k: int, inside: bool)
    requires
        n.kind is Function || n.kind is Module,
        test_builds_only(n) || (0 <= k < n.parts(Role::Attribute).len() && n.parts(Role::Attribute)[k].last_word() == Some("test"@)),
    ensures
        visit(ctx, n, inside) == (Seq::<Report>::empty(), inside),
{
    if !test_builds_only(n) {
        let p = |a: Node| a.last_word() == Some("test"@);
        assert(p(n.parts(Role::Attribute)[k]));
    }
}

} // verus!
