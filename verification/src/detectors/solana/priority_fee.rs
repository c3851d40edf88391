//! Compute limits that are set without a price.
use vstd::prelude::*;
use crate::attributes::{
    carries_test, cfg_mentions_test, has_cfg_mentioning_test, has_test_attribute,
    outside_functions_and_cfg_tests,
};
use crate::calls::{get_macro_name, get_path_call, is_named, macro_name, path_call};
use crate::context::ScanContext;
use crate::detector::{Detector, Profile, raise, raised, RuleInfo, stamped};
use crate::finding::{Chain, Confidence, Finding, Report, Severity};
use crate::quotes::{blank_literals, outside_literals};
use crate::search::{alone_at, finds_alone, law_whole_identifiers, match_alone};
use crate::syntax::{Kind, Node, Role};
use crate::text::{
    begins, contains, contains_any, ends, ends_with, join3, mentions, mentions_any, starts_with,
};
use crate::walk::{
    any_node, collect_findings, leads_openly, lemma_reports_from, lemma_sealed, lemma_spoken_of,
    nodes, nodes_in, opt_report, reports_of, some, speaks_of, walk, walk_nodes,
};

verus! {

/// Reports functions that set a compute unit limit in a file that never sets a
/// compute unit price.
pub struct PriorityFeeDetector;

/// The rule's description of itself.
pub open spec fn profile() -> Profile {
    Profile {
        id: "SOL-016"@,
        name: "missing-priority-fee"@,
        description: "Detects set_compute_unit_limit without set_compute_unit_price (missing priority fee)"@,
        severity: Severity::Low,
        confidence: Confidence::Low,
        chain: Chain::Solana,
    }
}

/// The rule's description of itself.
fn info() -> (r: RuleInfo)
    ensures
        r@ == profile(),
{
    RuleInfo {
        id: "SOL-016",
        name: "missing-priority-fee",
        description: "Detects set_compute_unit_limit without set_compute_unit_price (missing priority fee)",
        severity: Severity::Low,
        confidence: Confidence::Low,
        chain: Chain::Solana,
    }
}

/// Words of a file that sets a compute budget.
pub const BUDGET_WORDS: [&'static str; 2] = ["set_compute_unit_limit", "ComputeBudgetInstruction"];

/// Words of a file that sets a compute unit price.
pub const PRICE_WORDS: [&'static str; 4] = [
    "set_compute_unit_price",
    "compute_unit_price",
    "SetComputeUnitPrice",
    "with_compute_unit_price",
];

/// Words of a macro call that matches on an instruction.
pub const PATTERN_WORDS: [&'static str; 2] = ["=>", "matches"];

/// The function is a test.
pub open spec fn test_fn(f: Node) -> bool {
    begins(f.name@, "test_"@) || ends(f.name@, "_test"@) || carries_test(f)
}

/// The node is a macro call that builds a compute unit limit, and does not match
/// on one.
pub open spec fn builds_in_macro(n: Node) -> bool {
    &&& n.kind is Macro
    &&& macro_name(n) != Some("matches"@)
    &&& mentions(outside_literals(n.text@), "SetComputeUnitLimit"@)
    &&& !mentions_any(outside_literals(n.text@), PATTERN_WORDS@)
}

/// The node builds a compute unit limit.
pub open spec fn builds_limit(n: Node) -> bool {
    path_call(n) == Some("SetComputeUnitLimit"@) || builds_in_macro(n)
}

/// The function sets a compute unit limit. What a literal says sets none.
pub open spec fn sets_limit(f: Node) -> bool {
    ||| match_alone(outside_literals(f.body_text()), "set_compute_unit_limit"@, 0)
    ||| f.part(Role::Body) matches Some(body) && some(nodes(body), |n: Node| builds_limit(n))
}

/// The report on `f`, if there is one.
pub open spec fn report_on(ctx: ScanContext, f: Node) -> Option<Report> {
    if f.kind is Function && !test_fn(f) && !cfg_mentions_test(f) && sets_limit(f) {
        Some(
            raised(
                profile(),
                ctx,
                Confidence::Low,
                f.line,
                f.column,
                "Function '"@ + f.name@
                    + "' sets compute unit limit without setting compute unit price (priority fee)"@,
                "Add ComputeBudgetInstruction::set_compute_unit_price() alongside compute unit limit to ensure transaction priority"@,
            ),
        )
    } else {
        None
    }
}

/// Whether the function is a test.
pub fn is_test_fn(f: &Node) -> (b: bool)
    ensures
        b == test_fn(*f),
{
    starts_with(f.name.as_str(), "test_") || ends_with(f.name.as_str(), "_test")
        || has_test_attribute(f)
}

/// Whether something in the block builds a compute unit limit.
fn has_limit_construction(body: &Node) -> (b: bool)
    ensures
        b == some(nodes(*body), |n: Node| builds_limit(n)),
{
    let list = nodes_in(body);
    any_node(
        &list,
        |n: &Node| -> (r: bool)
            ensures
                r == builds_limit(*n)
        {
            if is_named(get_path_call(n), "SetComputeUnitLimit") {
                true
            } else if matches!(n.kind, Kind::Macro) && !is_named(get_macro_name(n), "matches") {
                let code = blank_literals(n.text.as_str());
                contains(code.as_str(), "SetComputeUnitLimit") && !contains_any(
                    code.as_str(),
                    PATTERN_WORDS.as_slice(),
                )
            } else {
                false
            }
        },
        Ghost(|n: Node| builds_limit(n)),
    )
}

/// Whether the function sets a compute unit limit.
pub fn body_constructs_cu_limit(f: &Node) -> (b: bool)
    ensures
        b == sets_limit(*f),
{
    finds_alone(
        blank_literals(f.get_body_text()).as_str(),
        "set_compute_unit_limit",
    ) || (match f.get_part(Role::Body) {
        Some(body) => has_limit_construction(body),
        None => false,
    })
}

impl PriorityFeeDetector {
    /// The finding on `f`, if there is one.
    pub fn check(&self, ctx: &ScanContext, f: &Node) -> (r: Option<Finding>)
        ensures
            opt_report(r) == report_on(*ctx, *f),
    {
        match f.kind {
            Kind::Function => {},
            _ => {
                return None;
            },
        }
        if is_test_fn(f) || has_cfg_mentioning_test(f) || !body_constructs_cu_limit(f) {
            return None;
        }
        let text = join3(
            "Function '",
            f.name.as_str(),
            "' sets compute unit limit without setting compute unit price (priority fee)",
        );
        Some(
            raise(
                &info(),
                ctx,
                Confidence::Low,
                f.line,
                f.column,
                text,
                "Add ComputeBudgetInstruction::set_compute_unit_price() alongside compute unit limit to ensure transaction priority",
            ),
        )
    }
}

impl Detector for PriorityFeeDetector {
    open spec fn profile(&self) -> Profile {
        profile()
    }

    open spec fn reports_on(&self, ctx: ScanContext) -> Seq<Report> {
        if !mentions_any(ctx.source@, BUDGET_WORDS@) || mentions_any(ctx.source@, PRICE_WORDS@) {
            Seq::empty()
        } else {
            reports_of(walk(ctx.ast, outside_functions_and_cfg_tests()), |f: Node| report_on(ctx, f))
        }
    }

    fn id(&self) -> (r: &'static str) {
        info().id
    }

    fn name(&self) -> (r: &'static str) {
        info().name
    }

    fn description(&self) -> (r: &'static str) {
        info().description
    }

    fn severity(&self) -> (r: Severity) {
        info().severity
    }

    fn confidence(&self) -> (r: Confidence) {
        info().confidence
    }

    fn chain(&self) -> (r: Chain) {
        info().chain
    }

    fn detect(&self, ctx: &ScanContext) -> (r: Vec<Finding>) {
        if !contains_any(ctx.source.as_str(), BUDGET_WORDS.as_slice())
            || contains_any(ctx.source.as_str(), PRICE_WORDS.as_slice()) {
            return Vec::new();
        }
        let list = walk_nodes(
            &ctx.ast,
            |n: &Node| -> (b: bool)
                ensures
                    b == outside_functions_and_cfg_tests()(*n)
            {
                !matches!(n.kind, Kind::Function)
                    && !(matches!(n.kind, Kind::Module) && has_cfg_mentioning_test(n))
            },
            Ghost(outside_functions_and_cfg_tests()),
        );
        collect_findings(
            &list,
            |f: &Node| -> (s: Option<Finding>)
                ensures
                    opt_report(s) == report_on(*ctx, *f)
            { self.check(ctx, f) },
            Ghost(|f: Node| report_on(*ctx, f)),
        )
    }

    proof fn law_findings_are_stamped(&self, ctx: ScanContext) {
        assert forall|i: int| 0 <= i < self.reports_on(ctx).len() implies stamped(
            #[trigger] self.reports_on(ctx)[i],
            self.profile(),
            ctx,
        ) by {
            lemma_reports_from(walk(ctx.ast, outside_functions_and_cfg_tests()), |f: Node| report_on(ctx, f), i);
        }
    }
}

/// Every finding has the confidence that the rule states of itself.
pub proof fn law_confidence_is_the_rules_own(ctx: ScanContext)
    ensures
        forall|i: int|
            0 <= i < PriorityFeeDetector.reports_on(ctx).len() ==> (
            #[trigger] PriorityFeeDetector.reports_on(ctx)[i]).confidence == profile().confidence,
{
    assert forall|i: int| 0 <= i < PriorityFeeDetector.reports_on(ctx).len() implies (
        #[trigger] PriorityFeeDetector.reports_on(ctx)[i]).confidence == profile().confidence by {
        lemma_reports_from(walk(ctx.ast, outside_functions_and_cfg_tests()), |f: Node| report_on(ctx, f), i);
    }
}

/// Nothing is reported on a file that sets no compute budget, or that sets a compute unit price.
pub proof fn law_out_of_scope_is_silent(ctx: ScanContext)
    requires
        !mentions_any(ctx.source@, BUDGET_WORDS@) || mentions_any(ctx.source@, PRICE_WORDS@),
    ensures
        PriorityFeeDetector.reports_on(ctx).len() == 0,
{
}

/// Nothing is reported on a test function.
pub proof fn law_test_function_is_silent(ctx: ScanContext, f: Node)
    requires
        test_fn(f) || cfg_mentions_test(f),
    ensures
        report_on(ctx, f) is None,
{
}

/// A module with a `cfg` that speaks of tests contributes no report, whatever it holds.
pub proof fn law_test_module_is_silent(ctx: ScanContext, m: Node)
    requires
        m.kind is Module,
        cfg_mentions_test(m),
    ensures
        reports_of(walk(m, outside_functions_and_cfg_tests()), |f: Node| report_on(ctx, f)) == Seq::<Report>::empty(),
{
    lemma_sealed(m, outside_functions_and_cfg_tests(), |f: Node| report_on(ctx, f));
}

/// What is reported on is spoken of, wherever in the file it stands.
proof fn lemma_reported(ctx: ScanContext, path: Seq<Node>, f: Node)
    requires
        leads_openly(path, ctx.ast, f),
        report_on(ctx, f) is Some,
        mentions_any(ctx.source@, seq!["set_compute_unit_limit", "ComputeBudgetInstruction"]),
        !mentions_any(ctx.source@, seq!["set_compute_unit_price", "compute_unit_price", "SetComputeUnitPrice", "with_compute_unit_price"]),
    ensures
        speaks_of(PriorityFeeDetector.reports_on(ctx), f),
{
    lemma_spoken_of(path, outside_functions_and_cfg_tests(), |n: Node| report_on(ctx, n), "Function '"@, "' sets compute unit limit without setting compute unit price (priority fee)"@);
}

/// A function that names `set_compute_unit_limit` as a whole identifier, outside of
/// literals, or builds `SetComputeUnitLimit`, is reported in a file that nowhere sets a
/// price.
pub proof fn law_limit_without_price_is_reported(ctx: ScanContext, path: Seq<Node>, f: Node, body: Node, n: Node, i: int)
    requires
        mentions_any(ctx.source@, seq!["set_compute_unit_limit", "ComputeBudgetInstruction"]),
        !mentions_any(ctx.source@, seq!["set_compute_unit_price", "compute_unit_price", "SetComputeUnitPrice", "with_compute_unit_price"]),
        leads_openly(path, ctx.ast, f),
        f.kind is Function,
        f.parts(Role::Attribute).len() == 0,
        !begins(f.name@, "test_"@),
        !ends(f.name@, "_test"@),
        f.part(Role::Body) == Some(body),
        alone_at(outside_literals(body.text@), "set_compute_unit_limit"@, i) || (nodes(body).contains(n) && path_call(n) == Some("SetComputeUnitLimit"@)) || (nodes(body).contains(n) && n.kind is Macro && n.last_word() != Some("matches"@) && mentions(outside_literals(n.text@), "SetComputeUnitLimit"@) && !mentions_any(outside_literals(n.text@), seq!["=>", "matches"])),
    ensures
        speaks_of(PriorityFeeDetector.reports_on(ctx), f),
{
    let code = outside_literals(body.text@);
    if alone_at(code, "set_compute_unit_limit"@, i) {
        reveal_strlit("set_compute_unit_limit");
        law_whole_identifiers(code, "set_compute_unit_limit"@);
    } else {
        let list = nodes(body);
        let p = |m: Node| builds_limit(m);
        assert(p(list[list.index_of(n)]));
    }
    assert(sets_limit(f));
    lemma_reported(ctx, path, f);
}

/// A file that says anything of a price, or nothing of a compute budget, is not
/// reported on.
pub proof fn law_price_anywhere_is_enough(ctx: ScanContext)
    requires
        mentions_any(ctx.source@, seq!["set_compute_unit_price", "compute_unit_price", "SetComputeUnitPrice", "with_compute_unit_price"]) || !mentions_any(ctx.source@, seq!["set_compute_unit_limit", "ComputeBudgetInstruction"]),
    ensures
        PriorityFeeDetector.reports_on(ctx).len() == 0,
{
}

/// A function that carries a test attribute of whatever framework is not reported.
pub proof fn law_marked_test_is_silent(ctx: ScanContext, f: Node, k: int)
    requires
        0 <= k < f.parts(Role::Attribute).len(),
        f.parts(Role::Attribute)[k].last_word() == Some("test"@),
    ensures
        report_on(ctx, f) is None,
{
    let p = |a: Node| a.last_word() == Some("test"@);
    assert(p(f.parts(Role::Attribute)[k]));
}

/// A function named as a test is not reported.
pub proof fn law_test_by_name_is_silent(ctx: ScanContext, f: Node)
    requires
        begins(f.name@, "test_"@) || ends(f.name@, "_test"@),
    ensures
        report_on(ctx, f) is None,
{
}

/// A macro sets a limit if it names the instruction, and does not match on it.
pub proof fn law_macro_sets_a_limit(n: Node)
    requires
        builds_in_macro(n),
    ensures
        n.kind is Macro,
        macro_name(n) != Some("matches"@),
        mentions(outside_literals(n.text@), "SetComputeUnitLimit"@),
        !mentions_any(outside_literals(n.text@), seq!["=>", "matches"]),
{
}

/// Only a function that names the limit is reported.
pub proof fn law_reported_function_names_the_limit(ctx: ScanContext, f: Node, body: Node)
    requires
        f.part(Role::Body) == Some(body),
        report_on(ctx, f) is Some,
    ensures
        match_alone(outside_literals(f.body_text()), "set_compute_unit_limit"@, 0) || exists|k: int| 0 <= k < nodes(body).len() && (path_call(#[trigger] nodes(body)[k]) == Some("SetComputeUnitLimit"@) || (nodes(body)[k].kind is Macro && mentions(outside_literals(nodes(body)[k].text@), "SetComputeUnitLimit"@))),
{
    if !match_alone(outside_literals(f.body_text()), "set_compute_unit_limit"@, 0) {
        let p = |n: Node| builds_limit(n);
        let k = choose|k: int| 0 <= k < nodes(body).len() && #[trigger] p(nodes(body)[k]);
        assert(builds_limit(nodes(body)[k]));
    }
}

} // verus!
