//! Cross-contract calls that say nothing of gas.
use vstd::prelude::*;
use crate::attributes::{carries_test, has_test_attribute, outside_functions};
use crate::context::ScanContext;
use crate::detector::{Detector, Profile, raise, raised, RuleInfo, stamped};
use crate::finding::{Chain, Confidence, Finding, Report, Severity};
use crate::markers::NEAR_MARKERS;
use crate::syntax::{Kind, Node, Role};
use crate::text::{
    any_text, ascii_gap, ascii_words_of, begins, chars_of, contains, contains_any, ends, ends_with,
    is_screaming_snake, join3, mentions, mentions_any, screaming, screaming_char, some_text, split,
    starts_with,
};
use crate::walk::{
    any_node, collect_findings, leads_openly, lemma_reports_from, lemma_spoken_of, opt_report,
    reports_of, some, speaks_of, walk, walk_nodes,
};

verus! {

/// Reports functions that call another contract without giving gas to the call.
pub struct MissingGasCallbackDetector;

/// The rule's description of itself.
pub open spec fn profile() -> Profile {
    Profile {
        id: "NEAR-012"@,
        name: "missing-gas-for-callbacks"@,
        description: "Detects cross-contract calls without explicit gas specification"@,
        severity: Severity::Medium,
        confidence: Confidence::Medium,
        chain: Chain::Near,
    }
}

/// The rule's description of itself.
fn info() -> (r: RuleInfo)
    ensures
        r@ == profile(),
{
    RuleInfo {
        id: "NEAR-012",
        name: "missing-gas-for-callbacks",
        description: "Detects cross-contract calls without explicit gas specification",
        severity: Severity::Medium,
        confidence: Confidence::Medium,
        chain: Chain::Near,
    }
}

/// How gas is given to a call.
pub const GAS_PATTERNS: [&'static str; 16] = [
    "gas (",
    "Gas (",
    "gas(",
    "Gas(",
    ".with_static_gas(",
    "with_static_gas (",
    ".with_attached_gas(",
    "with_attached_gas (",
    ".with_unused_gas_weight(",
    "with_unused_gas_weight (",
    "GAS_FOR_",
    "CALLBACK_GAS",
    "TGAS",
    "TGas",
    "NearGas",
    "prepaid_gas",
];

/// How a call to another contract is spelled.
pub const CROSS_CONTRACT: [&'static str; 3] = [
    "ext_self ::",
    "ext_contract ::",
    "function_call (",
];

/// The identifier is a constant about gas: it starts with a capital, is spelled like
/// a constant, and mentions gas.
pub open spec fn gas_constant(tok: Seq<char>) -> bool {
    &&& tok.len() > 0
    &&& 'A' <= tok[0] && tok[0] <= 'Z'
    &&& screaming(tok)
    &&& mentions(tok, "GAS"@)
}

/// Some identifier of the printed body is a constant about gas.
pub open spec fn names_gas(body: Seq<char>) -> bool {
    some_text(split(body, |c: char| ascii_gap(c)), |tok: Seq<char>| gas_constant(tok))
}

/// A parameter that holds gas.
pub open spec fn gas_param(p: Node) -> bool {
    p.kind is Param && (p.part(Role::Type) matches Some(ty) && mentions(ty.text@, "Gas"@))
}

/// The function is a test, or a callback, which is given its gas.
pub open spec fn skipped(f: Node) -> bool {
    ||| begins(f.name@, "test_"@)
    ||| ends(f.name@, "_test"@)
    ||| carries_test(f)
    ||| begins(f.name@, "on_"@)
    ||| ends(f.name@, "_callback"@)
}

/// The function gives gas to its calls.
pub open spec fn gives_gas(f: Node) -> bool {
    ||| mentions_any(f.body_text(), GAS_PATTERNS@)
    ||| names_gas(f.body_text())
    ||| some(f.parts(Role::Param), |p: Node| gas_param(p))
}

/// `f` calls another contract and gives no gas to the call.
pub open spec fn gasless(f: Node) -> bool {
    &&& f.kind is Function
    &&& !skipped(f)
    &&& mentions_any(f.body_text(), CROSS_CONTRACT@)
    &&& !gives_gas(f)
}

/// The report on `f`, if there is one.
pub open spec fn report_on(ctx: ScanContext, f: Node) -> Option<Report> {
    if gasless(f) {
        Some(
            raised(
                profile(),
                ctx,
                Confidence::Medium,
                f.line,
                f.column,
                "Function '"@ + f.name@
                    + "' makes cross-contract calls without explicit gas specification"@,
                "Specify gas explicitly with .with_static_gas() or Gas() to prevent callbacks from running out of gas"@,
            ),
        )
    } else {
        None
    }
}

/// Whether the identifier is a constant about gas.
pub fn is_screaming_gas_ident(tok: &str) -> (b: bool)
    ensures
        b == gas_constant(tok@),
{
    let chars = chars_of(tok);
    if chars.len() == 0 || !('A' <= chars[0] && chars[0] <= 'Z') {
        return false;
    }
    is_screaming_snake(tok) && contains(tok, "GAS")
}

/// Whether some identifier of the printed body is a constant about gas.
pub fn has_named_gas_constant(body_src: &str) -> (b: bool)
    ensures
        b == names_gas(body_src@),
{
    let pieces = ascii_words_of(body_src);
    any_text(
        &pieces,
        |tok: &str| -> (r: bool)
            ensures
                r == gas_constant(tok@)
        { is_screaming_gas_ident(tok) },
        Ghost(|tok: Seq<char>| gas_constant(tok)),
    )
}

/// Whether a parameter of `f` holds gas.
pub fn has_typed_gas_param(f: &Node) -> (b: bool)
    ensures
        b == some(f.parts(Role::Param), |p: Node| gas_param(p)),
{
    let list = f.get_parts(Role::Param);
    any_node(
        &list,
        |p: &Node| -> (r: bool)
            ensures
                r == gas_param(*p)
        {
            matches!(p.kind, Kind::Param) && (match p.get_part(Role::Type) {
                Some(ty) => contains(ty.text.as_str(), "Gas"),
                None => false,
            })
        },
        Ghost(|p: Node| gas_param(p)),
    )
}

impl MissingGasCallbackDetector {
    /// The finding on `f`, if there is one.
    pub fn check(&self, ctx: &ScanContext, f: &Node) -> (r: Option<Finding>)
        ensures
            opt_report(r) == report_on(*ctx, *f),
    {
        match f.kind {
            Kind::Function => {},
            _ => {
                return None;
            },
        }
        let name = f.name.as_str();
        let body = f.get_body_text();
        if starts_with(name, "test_") || ends_with(name, "_test") || has_test_attribute(f)
            || starts_with(name, "on_") || ends_with(name, "_callback") || !contains_any(
            body,
            CROSS_CONTRACT.as_slice(),
        ) {
            return None;
        }
        if contains_any(body, GAS_PATTERNS.as_slice()) || has_named_gas_constant(body)
            || has_typed_gas_param(f) {
            return None;
        }
        let text = join3(
            "Function '",
            name,
            "' makes cross-contract calls without explicit gas specification",
        );
        Some(
            raise(
                &info(),
                ctx,
                Confidence::Medium,
                f.line,
                f.column,
                text,
                "Specify gas explicitly with .with_static_gas() or Gas() to prevent callbacks from running out of gas",
            ),
        )
    }
}

impl Detector for MissingGasCallbackDetector {
    open spec fn profile(&self) -> Profile {
        profile()
    }

    open spec fn reports_on(&self, ctx: ScanContext) -> Seq<Report> {
        if !mentions_any(ctx.source@, NEAR_MARKERS@) {
            Seq::empty()
        } else {
            reports_of(walk(ctx.ast, outside_functions()), |f: Node| report_on(ctx, f))
        }
    }

    fn id(&self) -> (r: &'static str) {
        info().id
    }

    fn name(&self) -> (r: &'static str) {
        info().name
    }

    fn description(&self) -> (r: &'static str) {
        info().description
    }

    fn severity(&self) -> (r: Severity) {
        info().severity
    }

    fn confidence(&self) -> (r: Confidence) {
        info().confidence
    }

    fn chain(&self) -> (r: Chain) {
        info().chain
    }

    fn detect(&self, ctx: &ScanContext) -> (r: Vec<Finding>) {
        if !contains_any(ctx.source.as_str(), NEAR_MARKERS.as_slice()) {
            return Vec::new();
        }
        let list = walk_nodes(
            &ctx.ast,
            |n: &Node| -> (b: bool)
                ensures
                    b == outside_functions()(*n)
            { !matches!(n.kind, Kind::Function) },
            Ghost(outside_functions()),
        );
        collect_findings(
            &list,
            |f: &Node| -> (s: Option<Finding>)
                ensures
                    opt_report(s) == report_on(*ctx, *f)
            { self.check(ctx, f) },
            Ghost(|f: Node| report_on(*ctx, f)),
        )
    }

    proof fn law_findings_are_stamped(&self, ctx: ScanContext) {
        assert forall|i: int| 0 <= i < self.reports_on(ctx).len() implies stamped(
            #[trigger] self.reports_on(ctx)[i],
            self.profile(),
            ctx,
        ) by {
            lemma_reports_from(walk(ctx.ast, outside_functions()), |f: Node| report_on(ctx, f), i);
        }
    }
}

/// Every finding has the confidence that the rule states of itself.
pub proof fn law_confidence_is_the_rules_own(ctx: ScanContext)
    ensures
        forall|i: int|
            0 <= i < MissingGasCallbackDetector.reports_on(ctx).len() ==> (
            #[trigger] MissingGasCallbackDetector.reports_on(ctx)[i]).confidence == profile().confidence,
{
    assert forall|i: int| 0 <= i < MissingGasCallbackDetector.reports_on(ctx).len() implies (
        #[trigger] MissingGasCallbackDetector.reports_on(ctx)[i]).confidence == profile().confidence by {
        lemma_reports_from(walk(ctx.ast, outside_functions()), |f: Node| report_on(ctx, f), i);
    }
}

/// Nothing is reported on a file that shows no mark of a NEAR contract.
pub proof fn law_out_of_scope_is_silent(ctx: ScanContext)
    requires
        !mentions_any(ctx.source@, NEAR_MARKERS@),
    ensures
        MissingGasCallbackDetector.reports_on(ctx).len() == 0,
{
}

/// Nothing is reported on a test function.
pub proof fn law_test_function_is_silent(ctx: ScanContext, f: Node)
    requires
        begins(f.name@, "test_"@) || ends(f.name@, "_test"@) || carries_test(f),
    ensures
        report_on(ctx, f) is None,
{
}

/// What is reported on is spoken of, wherever in the file it stands.
proof fn lemma_reported(ctx: ScanContext, path: Seq<Node>, f: Node)
    requires
        leads_openly(path, ctx.ast, f),
        report_on(ctx, f) is Some,
        mentions_any(ctx.source@, seq!["near_sdk", "near_contract_standards", "#[near_bindgen]", "#[near(", "env::predecessor_account_id", "env::signer_account_id", "Promise::new"]),
    ensures
        speaks_of(MissingGasCallbackDetector.reports_on(ctx), f),
{
    lemma_spoken_of(path, outside_functions(), |n: Node| report_on(ctx, n), "Function '"@, "' makes cross-contract calls without explicit gas specification"@);
}

/// A function that calls another contract, through an interface or by `function_call`,
/// is reported, if it neither takes gas nor says anything of it, and is neither a test
/// nor a callback.
pub proof fn law_call_without_gas_is_reported(ctx: ScanContext, path: Seq<Node>, f: Node, pieces: Seq<Seq<char>>)
    requires
        mentions_any(ctx.source@, seq!["near_sdk", "near_contract_standards", "#[near_bindgen]", "#[near(", "env::predecessor_account_id", "env::signer_account_id", "Promise::new"]),
        leads_openly(path, ctx.ast, f),
        f.kind is Function,
        f.parts(Role::Attribute).len() == 0,
        !begins(f.name@, "test_"@),
        !ends(f.name@, "_test"@),
        !begins(f.name@, "on_"@),
        !ends(f.name@, "_callback"@),
        mentions(f.body_text(), "ext_self ::"@) || mentions(f.body_text(), "ext_contract ::"@) || mentions(f.body_text(), "function_call ("@),
        !mentions_any(f.body_text(), seq!["gas (", "Gas (", "gas(", "Gas(", ".with_static_gas(", "with_static_gas (", ".with_attached_gas(", "with_attached_gas (", ".with_unused_gas_weight(", "with_unused_gas_weight (", "GAS_FOR_", "CALLBACK_GAS", "TGAS", "TGas", "NearGas", "prepaid_gas"]),
        pieces == split(f.body_text(), |c: char| ascii_gap(c)),
        forall|k: int| 0 <= k < pieces.len() ==> !mentions(#[trigger] pieces[k], "GAS"@),
        forall|k: int| 0 <= k < f.parts(Role::Param).len() ==> ((#[trigger] f.parts(Role::Param)[k]).part(Role::Type) matches Some(ty) ==> !mentions(ty.text@, "Gas"@)),
    ensures
        speaks_of(MissingGasCallbackDetector.reports_on(ctx), f),
{
    lemma_reported(ctx, path, f);
}

/// What is reported calls another contract and says nothing of gas.
pub proof fn law_reported_call_says_nothing_of_gas(ctx: ScanContext, f: Node)
    requires
        report_on(ctx, f) is Some,
    ensures
        f.kind is Function,
        mentions(f.body_text(), "ext_self ::"@) || mentions(f.body_text(), "ext_contract ::"@) || mentions(f.body_text(), "function_call ("@),
        !mentions_any(f.body_text(), seq!["gas (", "Gas (", "gas(", "Gas(", ".with_static_gas(", "with_static_gas (", ".with_attached_gas(", "with_attached_gas (", ".with_unused_gas_weight(", "with_unused_gas_weight (", "GAS_FOR_", "CALLBACK_GAS", "TGAS", "TGas", "NearGas", "prepaid_gas"]),
        !begins(f.name@, "test_"@),
        !ends(f.name@, "_test"@),
        !begins(f.name@, "on_"@),
        !ends(f.name@, "_callback"@),
{
}

/// A function that takes gas, or names a constant about gas, is not reported.
pub proof fn law_gas_may_be_taken_or_named(ctx: ScanContext, f: Node, k: int, pieces: Seq<Seq<char>>)
    requires
        pieces == split(f.body_text(), |c: char| ascii_gap(c)),
        (0 <= k < f.parts(Role::Param).len() && f.parts(Role::Param)[k].kind is Param && (f.parts(Role::Param)[k].part(Role::Type) matches Some(ty) && mentions(ty.text@, "Gas"@)))
            || (0 <= k < pieces.len() && screaming(pieces[k]) && mentions(pieces[k], "GAS"@) && pieces[k].len() > 0
            && 'A' <= pieces[k][0] && pieces[k][0] <= 'Z'),
    ensures
        report_on(ctx, f) is None,
{
    let p = |p: Node| gas_param(p);
    let q = |tok: Seq<char>| gas_constant(tok);
    if 0 <= k < f.parts(Role::Param).len() {
        let _ = p(f.parts(Role::Param)[k]);
        assert(p(f.parts(Role::Param)[k]) ==> gives_gas(f));
    }
    if 0 <= k < pieces.len() {
        assert(q(pieces[k]) ==> names_gas(f.body_text()));
    }
}

/// A function that carries a test attribute of whatever framework is not reported.
pub proof fn law_marked_test_is_silent(ctx: ScanContext, f: Node, k: int)
    requires
        0 <= k < f.parts(Role::Attribute).len(),
        f.parts(Role::Attribute)[k].last_word() == Some("test"@),
    ensures
        report_on(ctx, f) is None,
{
    let p = |a: Node| a.last_word() == Some("test"@);
    assert(p(f.parts(Role::Attribute)[k]));
}

/// A constant that fixes the gas speaks of gas, in capitals, and begins with a letter.
pub proof fn law_gas_constants_are_capitals(tok: Seq<char>)
    requires
        gas_constant(tok),
    ensures
        tok.len() > 0 && 'A' <= tok[0] && tok[0] <= 'Z',
        mentions(tok, "GAS"@),
        forall|i: int| 0 <= i < tok.len() ==> !('a' <= #[trigger] tok[i] && tok[i] <= 'z'),
{
    assert forall|i: int| 0 <= i < tok.len() implies !('a' <= #[trigger] tok[i] && tok[i] <= 'z') by {
        assert(screaming_char(tok[i]));
    }
}

} // verus!
