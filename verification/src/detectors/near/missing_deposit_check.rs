//! Payable methods that ignore what was paid.
use vstd::prelude::*;
use crate::attributes::{carries, has_attribute, is_cfg_test, outside_methods_and_tests};
use crate::calls::{called_names, get_called_names};
use crate::cfg::test_builds_only;
use crate::context::ScanContext;
use crate::detector::{Detector, Profile, raise, raised, RuleInfo, stamped};
use crate::finding::{Chain, Confidence, Finding, Report, Severity};
use crate::markers::NEAR_MARKERS;
use crate::syntax::{Kind, Node, Role};
use crate::text::{
    any_text, begins, begins_any, contains, contains_any, ends_any, ends_with_any, is_any, join3,
    listed, lower, mentions, mentions_any, same_as_any, some_text, starts_with, starts_with_any,
    texts, to_lowercase,
};
use crate::walk::{
    collect_findings, collect_names, leads_openly, lemma_name_is_listed, lemma_named_by,
    lemma_reports_from, lemma_sealed, lemma_spoken_of, names_of, nodes, nodes_in, opt_report,
    opt_text, reports_of, speaks_of, walk, walk_nodes,
};

verus! {

/// Reports `#[payable]` methods that never look at the attached deposit, neither
/// by themselves nor through what they call.
pub struct MissingDepositCheckDetector;

/// The rule's description of itself.
pub open spec fn profile() -> Profile {
    Profile {
        id: "NEAR-010"@,
        name: "missing-deposit-check"@,
        description: "Detects #[payable] methods that don't check env::attached_deposit()"@,
        severity: Severity::High,
        confidence: Confidence::High,
        chain: Chain::Near,
    }
}

/// The rule's description of itself.
fn info() -> (r: RuleInfo)
    ensures
        r@ == profile(),
{
    RuleInfo {
        id: "NEAR-010",
        name: "missing-deposit-check",
        description: "Detects #[payable] methods that don't check env::attached_deposit()",
        severity: Severity::High,
        confidence: Confidence::High,
        chain: Chain::Near,
    }
}

/// Words of a body that looks at the attached deposit.
pub const DEPOSIT_CHECKS: [&'static str; 4] = [
    "attached_deposit",
    "assert_one_yocto",
    "ONE_YOCTO",
    "1_000_000_000_000_000_000_000_000",
];

/// Standard methods whose deposit the standard implementation handles.
pub const STANDARD_METHODS: [&'static str; 9] = [
    "ft_transfer",
    "ft_transfer_call",
    "nft_transfer",
    "nft_transfer_call",
    "nft_mint",
    "nft_approve",
    "storage_deposit",
    "storage_withdraw",
    "storage_unregister",
];

/// How the names of standard receiver methods begin.
pub const STANDARD_PREFIXES: [&'static str; 2] = ["ft_on_", "nft_on_"];

/// Standard methods that are safe where they delegate to the implementation of
/// the same name.
pub const DELEGATED_METHODS: [&'static str; 3] = [
    "nft_revoke",
    "nft_revoke_all",
    "nft_transfer_payout",
];

/// How the names of owner-only methods begin.
pub const ADMIN_PREFIXES: [&'static str; 13] = [
    "pause",
    "resume",
    "unpause",
    "set_owner",
    "set_admin",
    "change_owner",
    "update_config",
    "add_guardian",
    "remove_guardian",
    "extend_guardians",
    "register_",
    "unregister_",
    "modify_",
];

/// How the names of owner-only methods end.
pub const ADMIN_SUFFIXES: [&'static str; 2] = ["_contract", "_config"];

/// The body looks at the attached deposit.
pub open spec fn checks_deposit(body: Seq<char>) -> bool {
    mentions_any(body, DEPOSIT_CHECKS@)
}

/// The name of a function whose body looks at the attached deposit.
pub open spec fn deposit_checker(n: Node) -> Option<Seq<char>> {
    if (n.kind is Function || n.kind is Method) && checks_deposit(n.body_text()) {
        Some(n.name@)
    } else {
        None
    }
}

/// The names of the functions of a file that look at the attached deposit.
pub open spec fn deposit_checkers(file: Node) -> Seq<Seq<char>> {
    names_of(nodes(file), |n: Node| deposit_checker(n))
}

/// The names that a method calls.
pub open spec fn body_calls(m: Node) -> Seq<Seq<char>> {
    match m.part(Role::Body) {
        Some(body) => called_names(body),
        None => Seq::empty(),
    }
}

/// A name for which no deposit of the caller's choice is expected.
pub open spec fn exempt_name(m: Node) -> bool {
    let low = lower(m.name@);
    ||| begins(m.name@, "test_"@)
    ||| mentions(m.name@, "_test"@)
    ||| is_any(low, STANDARD_METHODS@)
    ||| begins_any(low, STANDARD_PREFIXES@)
    ||| is_any(low, DELEGATED_METHODS@) && body_calls(m).contains(m.name@)
    ||| begins_any(low, ADMIN_PREFIXES@)
    ||| ends_any(low, ADMIN_SUFFIXES@)
}

/// A payable method that ignores what was paid, where `checkers` are the
/// functions of the file that look at the attached deposit.
pub open spec fn ignores_deposit(m: Node, checkers: Seq<Seq<char>>) -> bool {
    &&& m.kind is Method
    &&& carries(m, "payable"@)
    &&& !carries(m, "private"@)
    &&& !checks_deposit(m.body_text())
    &&& !some_text(body_calls(m), |c: Seq<char>| checkers.contains(c))
    &&& !exempt_name(m)
}

/// The report on a method, if there is one, where `checkers` are taken for the
/// functions that look at the attached deposit.
pub open spec fn report_among(ctx: ScanContext, checkers: Seq<Seq<char>>, m: Node) -> Option<Report> {
    if ignores_deposit(m, checkers) {
        Some(
            raised(
                profile(),
                ctx,
                Confidence::High,
                m.line,
                m.column,
                "#[payable] method '"@ + m.name@ + "' does not check env::attached_deposit()"@,
                "Add `let deposit = env::attached_deposit(); assert!(deposit > 0);` or validate deposit amount"@,
            ),
        )
    } else {
        None
    }
}

/// The report on a method, if there is one.
pub open spec fn report_on(ctx: ScanContext, m: Node) -> Option<Report> {
    report_among(ctx, deposit_checkers(ctx.ast), m)
}

/// Whether the body looks at the attached deposit.
pub fn body_has_deposit_check(body_src: &str) -> (b: bool)
    ensures
        b == checks_deposit(body_src@),
{
    contains_any(body_src, DEPOSIT_CHECKS.as_slice())
}

/// The names of the functions of a file that look at the attached deposit.
pub fn collect_deposit_checkers(file: &Node) -> (r: Vec<String>)
    ensures
        texts(r@) == deposit_checkers(*file),
{
    let list = nodes_in(file);
    collect_names(
        &list,
        |n: &Node| -> (s: Option<String>)
            ensures
                opt_text(s) == deposit_checker(*n)
        {
            if matches!(n.kind, Kind::Function | Kind::Method { .. }) && body_has_deposit_check(
                n.get_body_text(),
            ) {
                Some(n.name.clone())
            } else {
                None
            }
        },
        Ghost(|n: Node| deposit_checker(n)),
    )
}

/// The names that a method calls.
fn get_body_calls(m: &Node) -> (r: Vec<String>)
    ensures
        texts(r@) == body_calls(*m),
{
    match m.get_part(Role::Body) {
        Some(body) => get_called_names(body),
        None => {
            let none: Vec<String> = Vec::new();
            assert(texts(none@) =~= Seq::<Seq<char>>::empty());
            none
        },
    }
}

/// Whether no deposit of the caller's choice is expected of a method that calls
/// `called`.
fn has_exempt_name(m: &Node, called: &Vec<String>) -> (b: bool)
    requires
        texts(called@) == body_calls(*m),
    ensures
        b == exempt_name(*m),
{
    let name = m.name.as_str();
    let low = to_lowercase(name);
    let low = low.as_str();
    starts_with(name, "test_") || contains(name, "_test") || same_as_any(
        low,
        STANDARD_METHODS.as_slice(),
    ) || starts_with_any(low, STANDARD_PREFIXES.as_slice()) || (same_as_any(
        low,
        DELEGATED_METHODS.as_slice(),
    ) && listed(called, name)) || starts_with_any(low, ADMIN_PREFIXES.as_slice()) || ends_with_any(
        low,
        ADMIN_SUFFIXES.as_slice(),
    )
}

impl MissingDepositCheckDetector {
    /// The finding on a method, if there is one, where `checkers` are the
    /// functions of the file that look at the attached deposit.
    pub fn check(
        &self,
        ctx: &ScanContext,
        m: &Node,
        checkers: &Vec<String>,
    ) -> (r: Option<Finding>)
        ensures
            opt_report(r) == report_among(*ctx, texts(checkers@), *m),
    {
        match m.kind {
            Kind::Method { .. } => {},
            _ => {
                return None;
            },
        }
        if !has_attribute(m, "payable") || has_attribute(m, "private") || body_has_deposit_check(
            m.get_body_text(),
        ) {
            return None;
        }
        let called = get_body_calls(m);
        let delegates = any_text(
            &called,
            |c: &str| -> (r: bool)
                ensures
                    r == texts(checkers@).contains(c@)
            { listed(checkers, c) },
            Ghost(|c: Seq<char>| texts(checkers@).contains(c)),
        );
        if delegates || has_exempt_name(m, &called) {
            return None;
        }
        let text = join3(
            "#[payable] method '",
            m.name.as_str(),
            "' does not check env::attached_deposit()",
        );
        Some(
            raise(
                &info(),
                ctx,
                Confidence::High,
                m.line,
                m.column,
                text,
                "Add `let deposit = env::attached_deposit(); assert!(deposit > 0);` or validate deposit amount",
            ),
        )
    }
}

impl Detector for MissingDepositCheckDetector {
    open spec fn profile(&self) -> Profile {
        profile()
    }

    open spec fn reports_on(&self, ctx: ScanContext) -> Seq<Report> {
        if !mentions_any(ctx.source@, NEAR_MARKERS@) {
            Seq::empty()
        } else {
            reports_of(walk(ctx.ast, outside_methods_and_tests()), |f: Node| report_on(ctx, f))
        }
    }

    fn id(&self) -> (r: &'static str) {
        info().id
    }

    fn name(&self) -> (r: &'static str) {
        info().name
    }

    fn description(&self) -> (r: &'static str) {
        info().description
    }

    fn severity(&self) -> (r: Severity) {
        info().severity
    }

    fn confidence(&self) -> (r: Confidence) {
        info().confidence
    }

    fn chain(&self) -> (r: Chain) {
        info().chain
    }

    fn detect(&self, ctx: &ScanContext) -> (r: Vec<Finding>) {
        if !contains_any(ctx.source.as_str(), NEAR_MARKERS.as_slice()) {
            return Vec::new();
        }
        let checkers = collect_deposit_checkers(&ctx.ast);
        let list = walk_nodes(
            &ctx.ast,
            |n: &Node| -> (b: bool)
                ensures
                    b == outside_methods_and_tests()(*n)
            {
                !matches!(n.kind, Kind::Method { .. })
                    && !(matches!(n.kind, Kind::Module) && is_cfg_test(n))
            },
            Ghost(outside_methods_and_tests()),
        );
        collect_findings(
            &list,
            |f: &Node| -> (s: Option<Finding>)
                ensures
                    opt_report(s) == report_on(*ctx, *f)
            { self.check(ctx, f, &checkers) },
            Ghost(|f: Node| report_on(*ctx, f)),
        )
    }

    proof fn law_findings_are_stamped(&self, ctx: ScanContext) {
        assert forall|i: int| 0 <= i < self.reports_on(ctx).len() implies stamped(
            #[trigger] self.reports_on(ctx)[i],
            self.profile(),
            ctx,
        ) by {
            lemma_reports_from(walk(ctx.ast, outside_methods_and_tests()), |f: Node| report_on(ctx, f), i);
        }
    }
}

/// Every finding has the confidence that the rule states of itself.
pub proof fn law_confidence_is_the_rules_own(ctx: ScanContext)
    ensures
        forall|i: int|
            0 <= i < MissingDepositCheckDetector.reports_on(ctx).len() ==> (
            #[trigger] MissingDepositCheckDetector.reports_on(ctx)[i]).confidence == profile().confidence,
{
    assert forall|i: int| 0 <= i < MissingDepositCheckDetector.reports_on(ctx).len() implies (
        #[trigger] MissingDepositCheckDetector.reports_on(ctx)[i]).confidence == profile().confidence by {
        lemma_reports_from(walk(ctx.ast, outside_methods_and_tests()), |f: Node| report_on(ctx, f), i);
    }
}

/// Nothing is reported on a file that shows no mark of a NEAR contract.
pub proof fn law_out_of_scope_is_silent(ctx: ScanContext)
    requires
        !mentions_any(ctx.source@, NEAR_MARKERS@),
    ensures
        MissingDepositCheckDetector.reports_on(ctx).len() == 0,
{
}

/// Nothing is reported on a test function.
pub proof fn law_test_function_is_silent(ctx: ScanContext, f: Node)
    requires
        begins(f.name@, "test_"@) || mentions(f.name@, "_test"@),
    ensures
        report_on(ctx, f) is None,
{
}

/// A test module contributes no report, whatever it holds.
pub proof fn law_test_module_is_silent(ctx: ScanContext, m: Node)
    requires
        m.kind is Module,
        test_builds_only(m),
    ensures
        reports_of(walk(m, outside_methods_and_tests()), |f: Node| report_on(ctx, f)) == Seq::<Report>::empty(),
{
    lemma_sealed(m, outside_methods_and_tests(), |f: Node| report_on(ctx, f));
}

/// What is reported on is spoken of, wherever in the file it stands.
proof fn lemma_reported(ctx: ScanContext, path: Seq<Node>, f: Node)
    requires
        leads_openly(path, ctx.ast, f),
        report_on(ctx, f) is Some,
        mentions_any(ctx.source@, seq!["near_sdk", "near_contract_standards", "#[near_bindgen]", "#[near(", "env::predecessor_account_id", "env::signer_account_id", "Promise::new"]),
    ensures
        speaks_of(MissingDepositCheckDetector.reports_on(ctx), f),
{
    lemma_spoken_of(path, outside_methods_and_tests(), |n: Node| report_on(ctx, n), "#[payable] method '"@, "' does not check env::attached_deposit()"@);
}

/// A payable method that is not private is reported, unless it looks at the deposit,
/// calls something of the file, or has a name for which no deposit of the caller's
/// choice is expected.
pub proof fn law_ignored_deposit_is_reported(ctx: ScanContext, path: Seq<Node>, m: Node, body: Node)
    requires
        mentions_any(ctx.source@, seq!["near_sdk", "near_contract_standards", "#[near_bindgen]", "#[near(", "env::predecessor_account_id", "env::signer_account_id", "Promise::new"]),
        leads_openly(path, ctx.ast, m),
        m.kind is Method,
        carries(m, "payable"@),
        !carries(m, "private"@),
        m.part(Role::Body) == Some(body),
        !mentions_any(body.text@, seq!["attached_deposit", "assert_one_yocto", "ONE_YOCTO", "1_000_000_000_000_000_000_000_000"]),
        forall|k: int|
            0 <= k < nodes(ctx.ast).len() && ((#[trigger] nodes(ctx.ast)[k]).kind is Function
                || nodes(ctx.ast)[k].kind is Method) ==> !called_names(body).contains(
                nodes(ctx.ast)[k].name@,
            ),
        !begins(m.name@, "test_"@),
        !mentions(m.name@, "_test"@),
        !is_any(lower(m.name@), seq!["ft_transfer", "ft_transfer_call", "nft_transfer", "nft_transfer_call", "nft_mint", "nft_approve", "storage_deposit", "storage_withdraw", "storage_unregister"]),
        !begins_any(lower(m.name@), seq!["ft_on_", "nft_on_"]),
        !begins_any(lower(m.name@), seq!["pause", "resume", "unpause", "set_owner", "set_admin", "change_owner", "update_config", "add_guardian", "remove_guardian", "extend_guardians", "register_", "unregister_", "modify_"]),
        !ends_any(lower(m.name@), seq!["_contract", "_config"]),
        !is_any(lower(m.name@), seq!["nft_revoke", "nft_revoke_all", "nft_transfer_payout"]) || !called_names(body).contains(m.name@),
    ensures
        speaks_of(MissingDepositCheckDetector.reports_on(ctx), m),
{
    let checkers = deposit_checkers(ctx.ast);
    let called = body_calls(m);
    assert forall|c: int| 0 <= c < called.len() implies !checkers.contains(#[trigger] called[c]) by {
        if checkers.contains(called[c]) {
            let g = |n: Node| deposit_checker(n);
            let k = lemma_named_by(nodes(ctx.ast), g, called[c]);
            assert(g(nodes(ctx.ast)[k]) == Some(called[c]));
            assert(called.contains(called[c]));
        }
    }
    lemma_reported(ctx, path, m);
}

/// What is reported is payable, not private, and looks at no deposit itself.
pub proof fn law_reported_method_looks_at_no_deposit(ctx: ScanContext, m: Node)
    requires
        report_on(ctx, m) is Some,
    ensures
        m.kind is Method,
        carries(m, "payable"@),
        !carries(m, "private"@),
        !mentions_any(m.body_text(), seq!["attached_deposit", "assert_one_yocto", "ONE_YOCTO", "1_000_000_000_000_000_000_000_000"]),
        !begins(m.name@, "test_"@),
        !mentions(m.name@, "_test"@),
        !is_any(lower(m.name@), seq!["ft_transfer", "ft_transfer_call", "nft_transfer", "nft_transfer_call", "nft_mint", "nft_approve", "storage_deposit", "storage_withdraw", "storage_unregister"]),
        !begins_any(lower(m.name@), seq!["ft_on_", "nft_on_"]),
        !begins_any(lower(m.name@), seq!["pause", "resume", "unpause", "set_owner", "set_admin", "change_owner", "update_config", "add_guardian", "remove_guardian", "extend_guardians", "register_", "unregister_", "modify_"]),
        !ends_any(lower(m.name@), seq!["_contract", "_config"]),
{
}

/// A method that calls a function of the file which looks at the deposit is not
/// reported: the check may stand in a helper.
pub proof fn law_helper_may_look_at_the_deposit(ctx: ScanContext, m: Node, body: Node, helper: Node)
    requires
        m.part(Role::Body) == Some(body),
        nodes(ctx.ast).contains(helper),
        helper.kind is Function || helper.kind is Method,
        called_names(body).contains(helper.name@),
        mentions_any(helper.body_text(), seq!["attached_deposit", "assert_one_yocto", "ONE_YOCTO", "1_000_000_000_000_000_000_000_000"]),
    ensures
        report_on(ctx, m) is None,
{
    let g = |n: Node| deposit_checker(n);
    let k = nodes(ctx.ast).index_of(helper);
    assert(g(nodes(ctx.ast)[k]) == Some(helper.name@));
    lemma_name_is_listed(nodes(ctx.ast), g, k);
    let checkers = deposit_checkers(ctx.ast);
    let called = body_calls(m);
    let known = |c: Seq<char>| checkers.contains(c);
    assert(known(called[called.index_of(helper.name@)]));
}

/// A method of the standard that hands the call on to its own kind is not reported.
pub proof fn law_delegation_is_exempt(ctx: ScanContext, m: Node, body: Node)
    requires
        m.part(Role::Body) == Some(body),
        is_any(lower(m.name@), seq!["nft_revoke", "nft_revoke_all", "nft_transfer_payout"]),
        called_names(body).contains(m.name@),
    ensures
        report_on(ctx, m) is None,
{
}

/// A method of the standard, and one that an administrator calls, is not reported.
pub proof fn law_standard_method_is_exempt(ctx: ScanContext, m: Node)
    requires
        is_any(lower(m.name@), seq!["ft_transfer", "ft_transfer_call", "nft_transfer", "nft_transfer_call", "nft_mint", "nft_approve", "storage_deposit", "storage_withdraw", "storage_unregister"]) || begins_any(lower(m.name@), seq!["ft_on_", "nft_on_"]) || begins_any(lower(m.name@), seq!["pause", "resume", "unpause", "set_owner", "set_admin", "change_owner", "update_config", "add_guardian", "remove_guardian", "extend_guardians", "register_", "unregister_", "modify_"]) || ends_any(lower(m.name@), seq!["_contract", "_config"]),
    ensures
        report_on(ctx, m) is None,
{
}

} // verus!
