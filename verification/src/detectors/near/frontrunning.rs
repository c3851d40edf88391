//! Payments that whoever comes first can take.
use vstd::prelude::*;
use crate::attributes::{carries_test, has_test_attribute, is_cfg_test};
use crate::cfg::test_builds_only;
use crate::context::ScanContext;
use crate::detector::{Detector, Profile, raise, raised, RuleInfo, stamped};
use crate::finding::{Chain, Confidence, Finding, Report, Severity};
use crate::markers::NEAR_MARKERS;
use crate::syntax::{Kind, Node, Role};
use crate::text::{contains, contains_any, join3, mentions, mentions_any};
use crate::walk::{
    collect_findings, leads_openly, lemma_reports_from, lemma_sealed, lemma_spoken_of, opt_report,
    reports_of, speaks_of, walk, walk_all, walk_nodes,
};

verus! {

/// Reports methods that transfer tokens as their caller says, where anybody may
/// call and nothing keeps the caller's place in the queue.
pub struct FrontrunningDetector;

/// The rule's description of itself.
pub open spec fn profile() -> Profile {
    Profile {
        id: "NEAR-008"@,
        name: "frontrunning-risk"@,
        description: "Detects Promise::new().transfer() in functions that take user-provided parameters"@,
        severity: Severity::High,
        confidence: Confidence::Low,
        chain: Chain::Near,
    }
}

/// The rule's description of itself.
fn info() -> (r: RuleInfo)
    ensures
        r@ == profile(),
{
    RuleInfo {
        id: "NEAR-008",
        name: "frontrunning-risk",
        description: "Detects Promise::new().transfer() in functions that take user-provided parameters",
        severity: Severity::High,
        confidence: Confidence::Low,
        chain: Chain::Near,
    }
}

/// How a transfer is spelled.
pub const TRANSFERS: [&'static str; 2] = [".transfer(", ". transfer ("];

/// How a promise is spelled.
pub const PROMISES: [&'static str; 2] = ["Promise::new", "Promise :: new"];

/// How a payment back to the caller is spelled.
pub const REFUNDS: [&'static str; 4] = [
    "Promise::new(env::predecessor_account_id",
    "Promise :: new (env :: predecessor_account_id",
    "Promise::new(env::signer_account_id",
    "Promise :: new (env :: signer_account_id",
];

/// Words of a protection against being overtaken.
pub const PROTECTIONS: [&'static str; 5] = [
    "commit",
    "reveal",
    "nonce",
    "deadline",
    "block_timestamp",
];

/// Words of a body that only its owner can reach.
pub const OWNER_CHECKS: [&'static str; 4] = [
    "assert_owner",
    "only_owner",
    "require_owner",
    "assert_one_yocto",
];

/// The function is a method.
pub open spec fn self_receiver(f: Node) -> bool {
    f.parts(Role::Param).len() > 0 && f.parts(Role::Param)[0].kind is Receiver
}

/// The body is reserved to one caller.
pub open spec fn access_controlled(body: Seq<char>) -> bool {
    ||| mentions(body, "predecessor_account_id"@) && mentions(body, "owner"@)
    ||| mentions_any(body, OWNER_CHECKS@)
}

/// `f` transfers tokens as its caller says, and anybody may overtake the caller.
pub open spec fn frontrunnable(f: Node) -> bool {
    let body = f.body_text();
    &&& f.kind is Function
    &&& !carries_test(f)
    &&& mentions_any(body, TRANSFERS@)
    &&& mentions_any(body, PROMISES@)
    &&& self_receiver(f)
    &&& f.parts(Role::Param).len() > 1
    &&& !mentions_any(body, REFUNDS@)
    &&& !mentions_any(body, PROTECTIONS@)
    &&& !access_controlled(body)
}

/// The report on `f`, if there is one.
pub open spec fn report_on(ctx: ScanContext, f: Node) -> Option<Report> {
    if frontrunnable(f) {
        Some(
            raised(
                profile(),
                ctx,
                Confidence::Low,
                f.line,
                f.column,
                "Function '"@ + f.name@
                    + "' transfers tokens based on user parameters without frontrunning protection"@,
                "Consider implementing commit-reveal scheme, deadline parameter, or nonce to prevent frontrunning"@,
            ),
        )
    } else {
        None
    }
}

/// Go below everything but functions and test modules.
pub open spec fn deployed() -> spec_fn(Node) -> bool {
    |n: Node| !(n.kind is Module && test_builds_only(n)) && !(n.kind is Function)
}

/// Whether the function is a method.
pub fn has_self_receiver(f: &Node) -> (b: bool)
    ensures
        b == self_receiver(*f),
{
    let list = f.get_parts(Role::Param);
    if list.len() > 0 {
        assert(f.parts(Role::Param)[0] == *list@[0]);
        matches!(list[0].kind, Kind::Receiver { .. })
    } else {
        false
    }
}

impl FrontrunningDetector {
    /// The finding on `f`, if there is one.
    pub fn check(&self, ctx: &ScanContext, f: &Node) -> (r: Option<Finding>)
        ensures
            opt_report(r) == report_on(*ctx, *f),
    {
        match f.kind {
            Kind::Function => {},
            _ => {
                return None;
            },
        }
        let body = f.get_body_text();
        if has_test_attribute(f) || !contains_any(
            body,
            TRANSFERS.as_slice(),
        ) || !contains_any(body, PROMISES.as_slice()) || !has_self_receiver(f) || f.get_parts(
            Role::Param,
        ).len() < 2 || contains_any(body, REFUNDS.as_slice()) || contains_any(
            body,
            PROTECTIONS.as_slice(),
        ) {
            return None;
        }
        if (contains(body, "predecessor_account_id") && contains(body, "owner")) || contains_any(
            body,
            OWNER_CHECKS.as_slice(),
        ) {
            return None;
        }
        let text = join3(
            "Function '",
            f.name.as_str(),
            "' transfers tokens based on user parameters without frontrunning protection",
        );
        Some(
            raise(
                &info(),
                ctx,
                Confidence::Low,
                f.line,
                f.column,
                text,
                "Consider implementing commit-reveal scheme, deadline parameter, or nonce to prevent frontrunning",
            ),
        )
    }
}

impl Detector for FrontrunningDetector {
    open spec fn profile(&self) -> Profile {
        profile()
    }

    open spec fn reports_on(&self, ctx: ScanContext) -> Seq<Report> {
        if !mentions_any(ctx.source@, NEAR_MARKERS@) {
            Seq::empty()
        } else {
            reports_of(walk(ctx.ast, deployed()), |f: Node| report_on(ctx, f))
        }
    }

    fn id(&self) -> (r: &'static str) {
        info().id
    }

    fn name(&self) -> (r: &'static str) {
        info().name
    }

    fn description(&self) -> (r: &'static str) {
        info().description
    }

    fn severity(&self) -> (r: Severity) {
        info().severity
    }

    fn confidence(&self) -> (r: Confidence) {
        info().confidence
    }

    fn chain(&self) -> (r: Chain) {
        info().chain
    }

    fn detect(&self, ctx: &ScanContext) -> (r: Vec<Finding>) {
        if !contains_any(ctx.source.as_str(), NEAR_MARKERS.as_slice()) {
            return Vec::new();
        }
        let list = walk_nodes(
            &ctx.ast,
            |n: &Node| -> (b: bool)
                ensures
                    b == deployed()(*n)
            {
                !(matches!(n.kind, Kind::Module) && is_cfg_test(n)) && !matches!(n.kind, Kind::Function)
            },
            Ghost(deployed()),
        );
        collect_findings(
            &list,
            |f: &Node| -> (s: Option<Finding>)
                ensures
                    opt_report(s) == report_on(*ctx, *f)
            { self.check(ctx, f) },
            Ghost(|f: Node| report_on(*ctx, f)),
        )
    }

    proof fn law_findings_are_stamped(&self, ctx: ScanContext) {
        assert forall|i: int| 0 <= i < self.reports_on(ctx).len() implies stamped(
            #[trigger] self.reports_on(ctx)[i],
            self.profile(),
            ctx,
        ) by {
            lemma_reports_from(walk(ctx.ast, deployed()), |f: Node| report_on(ctx, f), i);
        }
    }
}

/// Every finding has the confidence that the rule states of itself.
pub proof fn law_confidence_is_the_rules_own(ctx: ScanContext)
    ensures
        forall|i: int|
            0 <= i < FrontrunningDetector.reports_on(ctx).len() ==> (
            #[trigger] FrontrunningDetector.reports_on(ctx)[i]).confidence == profile().confidence,
{
    assert forall|i: int| 0 <= i < FrontrunningDetector.reports_on(ctx).len() implies (
        #[trigger] FrontrunningDetector.reports_on(ctx)[i]).confidence == profile().confidence by {
        lemma_reports_from(walk(ctx.ast, deployed()), |f: Node| report_on(ctx, f), i);
    }
}

/// Nothing is reported on a file that shows no mark of a NEAR contract.
pub proof fn law_out_of_scope_is_silent(ctx: ScanContext)
    requires
        !mentions_any(ctx.source@, NEAR_MARKERS@),
    ensures
        FrontrunningDetector.reports_on(ctx).len() == 0,
{
}

/// Nothing is reported on a test function.
pub proof fn law_test_function_is_silent(ctx: ScanContext, f: Node)
    requires
        carries_test(f),
    ensures
        report_on(ctx, f) is None,
{
}

/// A test module contributes no report, whatever it holds.
pub proof fn law_test_module_is_silent(ctx: ScanContext, m: Node)
    requires
        m.kind is Module,
        test_builds_only(m),
    ensures
        reports_of(walk(m, deployed()), |f: Node| report_on(ctx, f)) == Seq::<Report>::empty(),
{
    lemma_sealed(m, deployed(), |f: Node| report_on(ctx, f));
}

/// What is reported on is spoken of, wherever in the file it stands.
proof fn lemma_reported(ctx: ScanContext, path: Seq<Node>, f: Node)
    requires
        leads_openly(path, ctx.ast, f),
        report_on(ctx, f) is Some,
        mentions_any(ctx.source@, seq!["near_sdk", "near_contract_standards", "#[near_bindgen]", "#[near(", "env::predecessor_account_id", "env::signer_account_id", "Promise::new"]),
    ensures
        speaks_of(FrontrunningDetector.reports_on(ctx), f),
{
    lemma_spoken_of(path, deployed(), |n: Node| report_on(ctx, n), "Function '"@, "' transfers tokens based on user parameters without frontrunning protection"@);
}

/// A method of a NEAR contract that takes something besides `self`, makes a promise and
/// transfers, is reported, unless it pays its caller back, shows one of the
/// protections, or is reserved to its owner.
pub proof fn law_unprotected_transfer_is_reported(ctx: ScanContext, path: Seq<Node>, f: Node)
    requires
        mentions_any(ctx.source@, seq!["near_sdk", "near_contract_standards", "#[near_bindgen]", "#[near(", "env::predecessor_account_id", "env::signer_account_id", "Promise::new"]),
        leads_openly(path, ctx.ast, f),
        f.kind is Function,
        f.parts(Role::Attribute).len() == 0,
        f.parts(Role::Param).len() > 1,
        f.parts(Role::Param)[0].kind is Receiver,
        mentions(f.body_text(), ".transfer("@) || mentions(f.body_text(), ". transfer ("@),
        mentions(f.body_text(), "Promise::new"@) || mentions(f.body_text(), "Promise :: new"@),
        !mentions_any(f.body_text(), seq!["Promise::new(env::predecessor_account_id", "Promise :: new (env :: predecessor_account_id", "Promise::new(env::signer_account_id", "Promise :: new (env :: signer_account_id"]),
        !mentions_any(f.body_text(), seq!["commit", "reveal", "nonce", "deadline", "block_timestamp", "assert_owner", "only_owner", "require_owner", "assert_one_yocto"]),
        !mentions(f.body_text(), "predecessor_account_id"@) || !mentions(f.body_text(), "owner"@),
    ensures
        speaks_of(FrontrunningDetector.reports_on(ctx), f),
{
    let words = seq!["commit", "reveal", "nonce", "deadline", "block_timestamp", "assert_owner", "only_owner", "require_owner", "assert_one_yocto"];
    assert(words[0]@ == "commit"@ && words[1]@ == "reveal"@ && words[2]@ == "nonce"@ && words[3]@ == "deadline"@ && words[4]@ == "block_timestamp"@ && words[5]@ == "assert_owner"@ && words[6]@ == "only_owner"@ && words[7]@ == "require_owner"@ && words[8]@ == "assert_one_yocto"@);
    assert(!mentions_any(f.body_text(), PROTECTIONS@) && !mentions_any(f.body_text(), OWNER_CHECKS@));
    lemma_reported(ctx, path, f);
}

/// What is reported transfers by a promise, takes a parameter, and shows no protection:
/// a commitment, a nonce, a deadline, a check of its owner, or a payment back to the
/// caller is enough to be silent.
pub proof fn law_reported_transfer_is_unprotected(ctx: ScanContext, f: Node)
    requires
        report_on(ctx, f) is Some,
    ensures
        f.kind is Function,
        f.parts(Role::Param).len() > 1,
        f.parts(Role::Param)[0].kind is Receiver,
        mentions(f.body_text(), ".transfer("@) || mentions(f.body_text(), ". transfer ("@),
        mentions(f.body_text(), "Promise::new"@) || mentions(f.body_text(), "Promise :: new"@),
        !mentions_any(f.body_text(), seq!["Promise::new(env::predecessor_account_id", "Promise :: new (env :: predecessor_account_id", "Promise::new(env::signer_account_id", "Promise :: new (env :: signer_account_id"]),
        !mentions_any(f.body_text(), seq!["commit", "reveal", "nonce", "deadline", "block_timestamp"]),
        !mentions_any(f.body_text(), seq!["assert_owner", "only_owner", "require_owner", "assert_one_yocto"]),
        !mentions(f.body_text(), "predecessor_account_id"@) || !mentions(f.body_text(), "owner"@),
{
}

/// A function that carries a test attribute of whatever framework is not reported.
pub proof fn law_marked_test_is_silent(ctx: ScanContext, f: Node, k: int)
    requires
        0 <= k < f.parts(Role::Attribute).len(),
        f.parts(Role::Attribute)[k].last_word() == Some("test"@),
    ensures
        report_on(ctx, f) is None,
{
    let p = |a: Node| a.last_word() == Some("test"@);
    assert(p(f.parts(Role::Attribute)[k]));
}

/// Modules that are built for tests only are not looked into, nor are functions; other
/// modules are.
pub proof fn law_what_is_entered(n: Node)
    requires
        n.kind is Module || n.kind is Function,
    ensures
        walk(n, deployed()) == (if n.kind is Module && !test_builds_only(n) { seq![n] + walk_all(n.children@, deployed()) } else { seq![n] }),
{
}

} // verus!
