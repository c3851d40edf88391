//! Callbacks that panic where a promise has failed.
use vstd::prelude::*;
use crate::attributes::{carries_test, has_test_attribute, is_cfg_test};
use crate::cfg::test_builds_only;
use crate::context::ScanContext;
use crate::detector::{Detector, Profile, raise, raised, RuleInfo, stamped};
use crate::finding::{Chain, Confidence, Finding, Report, Severity};
use crate::markers::NEAR_MARKERS;
use crate::syntax::{Kind, Node, Role};
use crate::text::{contains_any, mentions, mentions_any, occurs_at, same};
use crate::walk::{
    collect_findings, law_led_to_is_met, law_report_is_listed, leads, lemma_reports_from,
    lemma_sealed, opt_report, reports_of, walk, walk_all, walk_nodes,
};

verus! {

/// Reports `#[callback_unwrap]`, on callbacks and on their parameters.
pub struct UnhandledPromiseDetector;

/// The rule's description of itself.
pub open spec fn profile() -> Profile {
    Profile {
        id: "NEAR-004"@,
        name: "callback-unwrap-usage"@,
        description: "Detects #[callback_unwrap] usage (should use #[callback_result] with Result)"@,
        severity: Severity::High,
        confidence: Confidence::High,
        chain: Chain::Near,
    }
}

/// The rule's description of itself.
fn info() -> (r: RuleInfo)
    ensures
        r@ == profile(),
{
    RuleInfo {
        id: "NEAR-004",
        name: "callback-unwrap-usage",
        description: "Detects #[callback_unwrap] usage (should use #[callback_result] with Result)",
        severity: Severity::High,
        confidence: Confidence::High,
        chain: Chain::Near,
    }
}

/// Sources that define the attribute, in place of using it.
pub const SDK_PATHS: [&'static str; 4] = [
    "/near-sdk-macros/",
    "/near-sdk/src/",
    "proc-macro",
    "derive",
];

/// The function never reaches the deployed contract.
pub open spec fn test_fn(n: Node) -> bool {
    carries_test(n) || test_builds_only(n)
}

/// Go below everything but tests.
pub open spec fn deployed() -> spec_fn(Node) -> bool {
    |n: Node|
        !(n.kind is Module && test_builds_only(n)) && !((n.kind is Function || n.kind is Method)
            && test_fn(n))
}

/// The line of an attribute, counting from one.
pub open spec fn line_of(a: Node) -> usize {
    if a.line > 1 { a.line } else { 1 }
}

/// The report on an attribute, if there is one.
pub open spec fn report_on(ctx: ScanContext, a: Node) -> Option<Report> {
    if a.kind is Attribute && a.name@ == "callback_unwrap"@ {
        Some(
            raised(
                profile(),
                ctx,
                Confidence::High,
                line_of(a),
                1,
                "#[callback_unwrap] will panic on failed promise - use #[callback_result] instead"@,
                "Replace #[callback_unwrap] with #[callback_result] and handle the Result<T, PromiseError> type"@,
            ),
        )
    } else {
        None
    }
}

/// Whether a `cfg` attribute keeps `n` out of every build that is not for tests.
pub fn has_cfg_test(n: &Node) -> (b: bool)
    ensures
        b == test_builds_only(*n),
{
    is_cfg_test(n)
}

/// Whether the function never reaches the deployed contract.
pub fn is_test_fn(n: &Node) -> (b: bool)
    ensures
        b == test_fn(*n),
{
    has_test_attribute(n) || has_cfg_test(n)
}

impl UnhandledPromiseDetector {
    /// The finding on an attribute, if there is one.
    pub fn check(&self, ctx: &ScanContext, a: &Node) -> (r: Option<Finding>)
        ensures
            opt_report(r) == report_on(*ctx, *a),
    {
        if !matches!(a.kind, Kind::Attribute { .. }) || !same(a.name.as_str(), "callback_unwrap") {
            return None;
        }
        let line: usize = if a.line > 1 { a.line } else { 1 };
        let text = "#[callback_unwrap] will panic on failed promise - use #[callback_result] instead".to_owned();
        Some(
            raise(
                &info(),
                ctx,
                Confidence::High,
                line,
                1,
                text,
                "Replace #[callback_unwrap] with #[callback_result] and handle the Result<T, PromiseError> type",
            ),
        )
    }
}

impl Detector for UnhandledPromiseDetector {
    open spec fn profile(&self) -> Profile {
        profile()
    }

    open spec fn reports_on(&self, ctx: ScanContext) -> Seq<Report> {
        if !mentions_any(ctx.source@, NEAR_MARKERS@) || mentions_any(ctx.file_path@, SDK_PATHS@) {
            Seq::empty()
        } else {
            reports_of(walk(ctx.ast, deployed()), |f: Node| report_on(ctx, f))
        }
    }

    fn id(&self) -> (r: &'static str) {
        info().id
    }

    fn name(&self) -> (r: &'static str) {
        info().name
    }

    fn description(&self) -> (r: &'static str) {
        info().description
    }

    fn severity(&self) -> (r: Severity) {
        info().severity
    }

    fn confidence(&self) -> (r: Confidence) {
        info().confidence
    }

    fn chain(&self) -> (r: Chain) {
        info().chain
    }

    fn detect(&self, ctx: &ScanContext) -> (r: Vec<Finding>) {
        if !contains_any(ctx.source.as_str(), NEAR_MARKERS.as_slice())
            || contains_any(ctx.file_path.as_str(), SDK_PATHS.as_slice()) {
            return Vec::new();
        }
        let list = walk_nodes(
            &ctx.ast,
            |n: &Node| -> (b: bool)
                ensures
                    b == deployed()(*n)
            {
                !(matches!(n.kind, Kind::Module) && has_cfg_test(n))
                    && !(matches!(n.kind, Kind::Function | Kind::Method { .. }) && is_test_fn(n))
            },
            Ghost(deployed()),
        );
        collect_findings(
            &list,
            |f: &Node| -> (s: Option<Finding>)
                ensures
                    opt_report(s) == report_on(*ctx, *f)
            { self.check(ctx, f) },
            Ghost(|f: Node| report_on(*ctx, f)),
        )
    }

    proof fn law_findings_are_stamped(&self, ctx: ScanContext) {
        assert forall|i: int| 0 <= i < self.reports_on(ctx).len() implies stamped(
            #[trigger] self.reports_on(ctx)[i],
            self.profile(),
            ctx,
        ) by {
            lemma_reports_from(walk(ctx.ast, deployed()), |f: Node| report_on(ctx, f), i);
        }
    }
}

/// Every finding has the confidence that the rule states of itself.
pub proof fn law_confidence_is_the_rules_own(ctx: ScanContext)
    ensures
        forall|i: int|
            0 <= i < UnhandledPromiseDetector.reports_on(ctx).len() ==> (
            #[trigger] UnhandledPromiseDetector.reports_on(ctx)[i]).confidence == profile().confidence,
{
    assert forall|i: int| 0 <= i < UnhandledPromiseDetector.reports_on(ctx).len() implies (
        #[trigger] UnhandledPromiseDetector.reports_on(ctx)[i]).confidence == profile().confidence by {
        lemma_reports_from(walk(ctx.ast, deployed()), |f: Node| report_on(ctx, f), i);
    }
}

/// Nothing is reported on a file that shows no mark of a NEAR contract, or that belongs to the development kit.
pub proof fn law_out_of_scope_is_silent(ctx: ScanContext)
    requires
        !mentions_any(ctx.source@, NEAR_MARKERS@) || mentions_any(ctx.file_path@, SDK_PATHS@),
    ensures
        UnhandledPromiseDetector.reports_on(ctx).len() == 0,
{
}

/// A test module contributes no report, whatever it holds.
pub proof fn law_test_module_is_silent(ctx: ScanContext, m: Node)
    requires
        m.kind is Module,
        test_builds_only(m),
    ensures
        reports_of(walk(m, deployed()), |f: Node| report_on(ctx, f)) == Seq::<Report>::empty(),
{
    lemma_sealed(m, deployed(), |f: Node| report_on(ctx, f));
}

/// A test function contributes no report, whatever it holds.
pub proof fn law_test_function_is_silent(ctx: ScanContext, f: Node)
    requires
        f.kind is Function || f.kind is Method,
        test_fn(f),
    ensures
        reports_of(walk(f, deployed()), |a: Node| report_on(ctx, a)) == Seq::<Report>::empty(),
{
    lemma_sealed(f, deployed(), |a: Node| report_on(ctx, a));
}

/// Every `callback_unwrap`, on whatever it stands and however deep, is reported at its
/// line, as far as a path leads to it on which nothing else carries an attribute.
pub proof fn law_unwrapped_callback_is_reported(ctx: ScanContext, path: Seq<Node>, a: Node)
    requires
        mentions_any(ctx.source@, seq!["near_sdk", "near_contract_standards", "#[near_bindgen]", "#[near(", "env::predecessor_account_id", "env::signer_account_id", "Promise::new"]),
        !mentions_any(ctx.file_path@, seq!["/near-sdk-macros/", "/near-sdk/src/", "proc-macro", "derive"]),
        leads(path),
        path[0] == ctx.ast,
        path.last() == a,
        forall|i: int| 0 <= i < path.len() - 1 ==> !((#[trigger] path[i]).kind is Module) && !carries_test(path[i]) && !test_builds_only(path[i]),
        a.kind is Attribute,
        a.name@ == "callback_unwrap"@,
    ensures
        exists|i: int| 0 <= i < UnhandledPromiseDetector.reports_on(ctx).len() && ((#[trigger] UnhandledPromiseDetector.reports_on(ctx)[i]).line == a.line || a.line == 0) && mentions(UnhandledPromiseDetector.reports_on(ctx)[i].message, "#[callback_unwrap]"@),
{
    law_led_to_is_met(path, deployed());
    let list = walk(ctx.ast, deployed());
    law_report_is_listed(list, |n: Node| report_on(ctx, n), a);
    let r = report_on(ctx, a)->0;
    reveal_strlit("#[callback_unwrap] will panic on failed promise - use #[callback_result] instead");
    reveal_strlit("#[callback_unwrap]");
    assert(r.message.subrange(0, 18) =~= "#[callback_unwrap]"@);
    assert(occurs_at(r.message, "#[callback_unwrap]"@, 0));
    let k = UnhandledPromiseDetector.reports_on(ctx).index_of(r);
    assert(UnhandledPromiseDetector.reports_on(ctx)[k] == r);
}

/// Nothing but a `callback_unwrap` is reported.
pub proof fn law_only_unwrapped_callbacks_are_reported(ctx: ScanContext, a: Node)
    requires
        report_on(ctx, a) is Some,
    ensures
        a.kind is Attribute,
        a.name@ == "callback_unwrap"@,
        a.line > 0 ==> (report_on(ctx, a)->0).line == a.line,
{
}

/// Below a function that carries a test attribute, or is built for tests only, nothing
/// is looked at.
pub proof fn law_marked_test_is_sealed(n: Node, k: int)
    requires
        n.kind is Function || n.kind is Method,
        test_builds_only(n) || (0 <= k < n.parts(Role::Attribute).len() && n.parts(Role::Attribute)[k].last_word() == Some("test"@)),
    ensures
        walk(n, deployed()) == seq![n],
{
    if !test_builds_only(n) {
        let p = |a: Node| a.last_word() == Some("test"@);
        assert(p(n.parts(Role::Attribute)[k]));
    }
}

/// A module is looked into, unless it is built for tests only.
pub proof fn law_modules_are_entered(m: Node)
    requires
        m.kind is Module,
    ensures
        walk(m, deployed()) == (if test_builds_only(m) { seq![m] } else { seq![m] + walk_all(m.children@, deployed()) }),
{
}

} // verus!
