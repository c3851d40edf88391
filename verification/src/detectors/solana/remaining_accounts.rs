//! Accounts beyond the declared ones, used as they come.
use vstd::prelude::*;
use crate::attributes::{carries_test, has_test_attribute, is_cfg_test, outside_functions_and_tests};
use crate::cfg::test_builds_only;
use crate::context::ScanContext;
use crate::detector::{Detector, Profile, raise, raised, RuleInfo, stamped};
use crate::finding::{Chain, Confidence, Finding, Report, Severity};
use crate::quotes::{blank_literals, outside_literals};
use crate::search::{
    alone_at, finds_alone, finds_marked, law_whole_identifiers, marked, match_alone,
};
use crate::syntax::{Kind, Node, Role};
use crate::text::{
    begins, contains, contains_any, ends, ends_with, join3, lower, mentions, mentions_any, same,
    starts_with, to_lowercase,
};
use crate::walk::{
    collect_findings, leads_openly, lemma_reports_from, lemma_sealed, lemma_spoken_of, nodes,
    nodes_in, opt_report, reports_of, speaks_of, walk, walk_nodes,
};

verus! {

/// Reports functions that use remaining accounts without validating them.
pub struct RemainingAccountsDetector;

/// The rule's description of itself.
pub open spec fn profile() -> Profile {
    Profile {
        id: "SOL-013"@,
        name: "unsafe-remaining-accounts"@,
        description: "Detects ctx.remaining_accounts usage without owner/type/key validation"@,
        severity: Severity::High,
        confidence: Confidence::Medium,
        chain: Chain::Solana,
    }
}

/// The rule's description of itself.
fn info() -> (r: RuleInfo)
    ensures
        r@ == profile(),
{
    RuleInfo {
        id: "SOL-013",
        name: "unsafe-remaining-accounts",
        description: "Detects ctx.remaining_accounts usage without owner/type/key validation",
        severity: Severity::High,
        confidence: Confidence::Medium,
        chain: Chain::Solana,
    }
}

/// Words of a validation.
pub const SAFE_PATTERNS: [&'static str; 17] = [
    "owner",
    "try_deserialize",
    "Account :: try_from",
    "AccountDeserialize",
    "discriminator",
    "DISCRIMINATOR",
    "key () ==",
    "key () !=",
    "key ==",
    "key !=",
    "require_keys_eq",
    "require !",
    "require_eq",
    "assert_eq !",
    "assert_keys_eq",
    "assert_owner",
    "unwrap_key",
];

/// Words of a body that hands accounts on to another program.
pub const CPI_PASSTHROUGH_PATTERNS: [&'static str; 5] = [
    "invoke",
    "invoke_signed",
    "CpiContext",
    "with_remaining_accounts",
    "AccountMeta",
];

/// Words of a body that reads or writes account data.
pub const DATA_ACCESS_PATTERNS: [&'static str; 8] = [
    "try_borrow_data",
    "try_borrow_mut_data",
    "borrow_data",
    "borrow_mut",
    ". data",
    "lamports",
    "deserialize",
    "unpack",
];

/// How a body goes through accounts.
pub const DANGEROUS_USES: [&'static str; 7] = [
    ". iter",
    ". into_iter",
    "remaining_accounts [",
    ". get (",
    ". first",
    ". last",
    ". split_at",
];

/// Words in the name of a function that validates.
pub const INTENT_WORDS: [&'static str; 5] = ["validate", "verify", "check", "assert", "ensure"];

/// The node is a function or a method.
pub open spec fn is_routine(n: Node) -> bool {
    n.kind is Function || n.kind is Method
}

/// The node at `i` is the first function or method of its name in `list`.
pub open spec fn first_of_name(list: Seq<Node>, i: int) -> bool {
    &&& 0 <= i < list.len()
    &&& is_routine(list[i])
    &&& forall|j: int|
        0 <= j < i ==> !(is_routine(#[trigger] list[j]) && list[j].name@ == list[i].name@)
}

/// `n` validates on behalf of the function `current` with the body `body`.
pub open spec fn validates_for(n: Node, body: Seq<char>, current: Seq<char>) -> bool {
    &&& n.name@ != current
    &&& mentions_any(lower(n.name@), INTENT_WORDS@)
    &&& marked(outside_literals(body), n.name@, '(')
    &&& mentions_any(outside_literals(n.body_text()), SAFE_PATTERNS@)
}

/// The node at `i` stands for its name and validates on behalf of `current`.
pub open spec fn validator_at(
    list: Seq<Node>,
    body: Seq<char>,
    current: Seq<char>,
    i: int,
) -> bool {
    first_of_name(list, i) && validates_for(list[i], body, current)
}

/// A function of the file validates on behalf of `current`.
pub open spec fn delegated(list: Seq<Node>, body: Seq<char>, current: Seq<char>) -> bool {
    exists|i: int| #[trigger] validator_at(list, body, current, i)
}

/// The body reads account data, or goes through accounts.
pub open spec fn dangerous(body: Seq<char>, reads_data: bool) -> bool {
    let code = outside_literals(body);
    reads_data || mentions_any(code, DANGEROUS_USES@) || match_alone(code, "for"@, 0)
}

/// The function is a test.
pub open spec fn test_fn(f: Node) -> bool {
    begins(f.name@, "test_"@) || ends(f.name@, "_test"@) || carries_test(f)
}

/// The body reads or writes account data.
pub open spec fn accesses_data(body: Seq<char>) -> bool {
    mentions_any(body, DATA_ACCESS_PATTERNS@)
}

/// `f` uses remaining accounts that nobody validates, where `list` holds the
/// functions of the file.
pub open spec fn unvalidated(list: Seq<Node>, f: Node) -> bool {
    let body = f.body_text();
    &&& f.kind is Function
    &&& !test_fn(f)
    &&& mentions(body, "remaining_accounts"@)
    &&& !mentions_any(body, SAFE_PATTERNS@)
    &&& !delegated(list, body, f.name@)
    &&& mentions_any(body, CPI_PASSTHROUGH_PATTERNS@) ==> accesses_data(body)
    &&& dangerous(body, accesses_data(body))
}

/// The report on `f`, if there is one, where `list` holds the nodes that it is judged
/// by.
pub open spec fn report_among(ctx: ScanContext, list: Seq<Node>, f: Node) -> Option<Report> {
    if unvalidated(list, f) {
        Some(
            raised(
                profile(),
                ctx,
                Confidence::Medium,
                f.line,
                f.column,
                "Function '"@ + f.name@
                    + "' uses ctx.remaining_accounts without owner/type/key validation"@,
                "Validate remaining_accounts by checking owner, deserializing with try_from/try_deserialize, or verifying keys with require_keys_eq!"@,
            ),
        )
    } else {
        None
    }
}

/// The report on `f`, if there is one.
pub open spec fn report_on(ctx: ScanContext, f: Node) -> Option<Report> {
    report_among(ctx, nodes(ctx.ast), f)
}

/// Whether the node at `i` is the first function or method of its name in `list`.
fn is_first_of_name(list: &Vec<&Node>, i: usize) -> (b: bool)
    requires
        i < list@.len(),
    ensures
        b == first_of_name(list@.unref(), i as int),
{
    let ghost all = list@.unref();
    assert(all[i as int] == *list@[i as int]);
    if !matches!(list[i].kind, Kind::Function | Kind::Method { .. }) {
        return false;
    }
    let name = list[i].name.as_str();
    let mut j: usize = 0;
    while j < i
        invariant
            j <= i < list@.len(),
            all == list@.unref(),
            name@ == all[i as int].name@,
            forall|k: int|
                0 <= k < j ==> !(is_routine(#[trigger] all[k]) && all[k].name@ == name@),
        decreases i - j,
    {
        assert(all[j as int] == *list@[j as int]);
        if matches!(list[j].kind, Kind::Function | Kind::Method { .. }) && same(
            list[j].name.as_str(),
            name,
        ) {
            return false;
        }
        j = j + 1;
    }
    true
}

/// Whether `n` validates on behalf of the function `current_fn`.
fn is_validator_for(n: &Node, body_src: &str, current_fn: &str) -> (b: bool)
    ensures
        b == validates_for(*n, body_src@, current_fn@),
{
    let name = n.name.as_str();
    !same(name, current_fn) && contains_any(
        to_lowercase(name).as_str(),
        INTENT_WORDS.as_slice(),
    ) && finds_marked(blank_literals(body_src).as_str(), name, '(') && contains_any(
        blank_literals(n.get_body_text()).as_str(),
        SAFE_PATTERNS.as_slice(),
    )
}

/// The functions and methods of a file.
pub struct RemainingAccountsVisitor<'a> {
    pub items: Vec<&'a Node>,
}

impl<'a> RemainingAccountsVisitor<'a> {
    /// Whether a function of the file validates on behalf of `current_fn`.
    pub fn delegates_validation(&self, body_src: &str, current_fn: &str) -> (b: bool)
        ensures
            b == delegated(self.items@.unref(), body_src@, current_fn@),
    {
        let ghost all = self.items@.unref();
        let mut i: usize = 0;
        while i < self.items.len()
            invariant
                i <= self.items@.len(),
                all == self.items@.unref(),
                forall|k: int| k < i ==> !#[trigger] validator_at(all, body_src@, current_fn@, k),
            decreases self.items@.len() - i,
        {
            assert(all[i as int] == *self.items@[i as int]);
            if is_first_of_name(&self.items, i) && is_validator_for(
                self.items[i],
                body_src,
                current_fn,
            ) {
                assert(validator_at(all, body_src@, current_fn@, i as int));
                return true;
            }
            i = i + 1;
        }
        assert(forall|k: int| #[trigger] validator_at(all, body_src@, current_fn@, k) ==> k < i);
        false
    }

    /// Whether `f` uses remaining accounts that nobody validates.
    pub fn is_unvalidated(&self, f: &Node) -> (b: bool)
        ensures
            b == unvalidated(self.items@.unref(), *f),
    {
        match f.kind {
            Kind::Function => {},
            _ => {
                return false;
            },
        }
        if is_test_fn(f) {
            return false;
        }
        let body = f.get_body_text();
        if !contains(body, "remaining_accounts") || contains_any(body, SAFE_PATTERNS.as_slice())
            || self.delegates_validation(body, f.name.as_str()) {
            return false;
        }
        let reads_data = contains_any(body, DATA_ACCESS_PATTERNS.as_slice());
        if contains_any(body, CPI_PASSTHROUGH_PATTERNS.as_slice()) && !reads_data {
            return false;
        }
        uses_accounts_dangerously(body, reads_data)
    }
}

/// Whether the body reads account data, or goes through accounts.
pub fn uses_accounts_dangerously(body_src: &str, reads_data: bool) -> (b: bool)
    ensures
        b == dangerous(body_src@, reads_data),
{
    let code = blank_literals(body_src);
    reads_data || contains_any(code.as_str(), DANGEROUS_USES.as_slice()) || finds_alone(
        code.as_str(),
        "for",
    )
}

/// Whether the function is a test.
pub fn is_test_fn(f: &Node) -> (b: bool)
    ensures
        b == test_fn(*f),
{
    starts_with(f.name.as_str(), "test_") || ends_with(f.name.as_str(), "_test")
        || has_test_attribute(f)
}

impl RemainingAccountsDetector {
    /// The finding on `f`, if there is one, where `visitor` holds the functions of
    /// the file.
    pub fn check(
        &self,
        ctx: &ScanContext,
        visitor: &RemainingAccountsVisitor<'_>,
        f: &Node,
    ) -> (r: Option<Finding>)
        ensures
            opt_report(r) == report_among(*ctx, visitor.items@.unref(), *f),
    {
        if !visitor.is_unvalidated(f) {
            return None;
        }
        let text = join3(
            "Function '",
            f.name.as_str(),
            "' uses ctx.remaining_accounts without owner/type/key validation",
        );
        Some(
            raise(
                &info(),
                ctx,
                Confidence::Medium,
                f.line,
                f.column,
                text,
                "Validate remaining_accounts by checking owner, deserializing with try_from/try_deserialize, or verifying keys with require_keys_eq!",
            ),
        )
    }
}

impl Detector for RemainingAccountsDetector {
    open spec fn profile(&self) -> Profile {
        profile()
    }

    open spec fn reports_on(&self, ctx: ScanContext) -> Seq<Report> {
        reports_of(walk(ctx.ast, outside_functions_and_tests()), |f: Node| report_on(ctx, f))
    }

    fn id(&self) -> (r: &'static str) {
        info().id
    }

    fn name(&self) -> (r: &'static str) {
        info().name
    }

    fn description(&self) -> (r: &'static str) {
        info().description
    }

    fn severity(&self) -> (r: Severity) {
        info().severity
    }

    fn confidence(&self) -> (r: Confidence) {
        info().confidence
    }

    fn chain(&self) -> (r: Chain) {
        info().chain
    }

    fn detect(&self, ctx: &ScanContext) -> (r: Vec<Finding>) {
        let visitor = RemainingAccountsVisitor { items: nodes_in(&ctx.ast) };
        let list = walk_nodes(
            &ctx.ast,
            |n: &Node| -> (b: bool)
                ensures
                    b == outside_functions_and_tests()(*n)
            {
                !matches!(n.kind, Kind::Function)
                    && !(matches!(n.kind, Kind::Module) && is_cfg_test(n))
            },
            Ghost(outside_functions_and_tests()),
        );
        collect_findings(
            &list,
            |f: &Node| -> (s: Option<Finding>)
                ensures
                    opt_report(s) == report_on(*ctx, *f)
            { self.check(ctx, &visitor, f) },
            Ghost(|f: Node| report_on(*ctx, f)),
        )
    }

    proof fn law_findings_are_stamped(&self, ctx: ScanContext) {
        assert forall|i: int| 0 <= i < self.reports_on(ctx).len() implies stamped(
            #[trigger] self.reports_on(ctx)[i],
            self.profile(),
            ctx,
        ) by {
            lemma_reports_from(walk(ctx.ast, outside_functions_and_tests()), |f: Node| report_on(ctx, f), i);
        }
    }
}

/// Every finding has the confidence that the rule states of itself.
pub proof fn law_confidence_is_the_rules_own(ctx: ScanContext)
    ensures
        forall|i: int|
            0 <= i < RemainingAccountsDetector.reports_on(ctx).len() ==> (
            #[trigger] RemainingAccountsDetector.reports_on(ctx)[i]).confidence == profile().confidence,
{
    assert forall|i: int| 0 <= i < RemainingAccountsDetector.reports_on(ctx).len() implies (
        #[trigger] RemainingAccountsDetector.reports_on(ctx)[i]).confidence == profile().confidence by {
        lemma_reports_from(walk(ctx.ast, outside_functions_and_tests()), |f: Node| report_on(ctx, f), i);
    }
}

/// Nothing is reported on a test function.
pub proof fn law_test_function_is_silent(ctx: ScanContext, f: Node)
    requires
        test_fn(f),
    ensures
        report_on(ctx, f) is None,
{
}

/// A test module contributes no report, whatever it holds.
pub proof fn law_test_module_is_silent(ctx: ScanContext, m: Node)
    requires
        m.kind is Module,
        test_builds_only(m),
    ensures
        reports_of(walk(m, outside_functions_and_tests()), |f: Node| report_on(ctx, f)) == Seq::<Report>::empty(),
{
    lemma_sealed(m, outside_functions_and_tests(), |f: Node| report_on(ctx, f));
}

/// A helper counts only where the file holds a function or method of its name that is
/// called and whose body validates.
pub proof fn law_helpers_are_resolved(list: Seq<Node>, body: Seq<char>, current: Seq<char>)
    requires
        delegated(list, body, current),
    ensures
        exists|i: int|
            0 <= i < list.len() && ({
                let h = #[trigger] list[i];
                is_routine(h) && h.name@ != current && marked(
                    outside_literals(body),
                    h.name@,
                    '(',
                ) && mentions_any(outside_literals(h.body_text()), SAFE_PATTERNS@)
            }),
{
    let i = choose|i: int| #[trigger] validator_at(list, body, current, i);
    assert(is_routine(list[i]));
}

/// What is reported on is spoken of, wherever in the file it stands.
proof fn lemma_reported(ctx: ScanContext, path: Seq<Node>, f: Node)
    requires
        leads_openly(path, ctx.ast, f),
        report_on(ctx, f) is Some,
    ensures
        speaks_of(RemainingAccountsDetector.reports_on(ctx), f),
{
    lemma_spoken_of(path, outside_functions_and_tests(), |n: Node| report_on(ctx, n), "Function '"@, "' uses ctx.remaining_accounts without owner/type/key validation"@);
}

/// A function that uses the remaining accounts is reported, if it reads their data,
/// takes one of them, or loops over something, without any check, and no function of
/// the file has the name of a validator. Handing them on to a program without reading
/// their data is no use.
pub proof fn law_unvalidated_accounts_are_reported(ctx: ScanContext, path: Seq<Node>, f: Node)
    requires
        leads_openly(path, ctx.ast, f),
        f.kind is Function,
        f.parts(Role::Attribute).len() == 0,
        !begins(f.name@, "test_"@),
        !ends(f.name@, "_test"@),
        mentions(f.body_text(), "remaining_accounts"@),
        !mentions_any(f.body_text(), seq!["owner", "try_deserialize", "Account :: try_from", "AccountDeserialize", "discriminator", "DISCRIMINATOR", "key () ==", "key () !=", "key ==", "key !=", "require_keys_eq", "require !", "require_eq", "assert_eq !", "assert_keys_eq", "assert_owner", "unwrap_key"]),
        mentions_any(f.body_text(), seq!["try_borrow_data", "try_borrow_mut_data", "borrow_data", "borrow_mut", ". data", "lamports", "deserialize", "unpack"]) || (!mentions_any(f.body_text(), seq!["invoke", "invoke_signed", "CpiContext", "with_remaining_accounts", "AccountMeta"]) && (mentions_any(outside_literals(f.body_text()), seq![". iter", ". into_iter", "remaining_accounts [", ". get (", ". first", ". last", ". split_at"]) || alone_at(outside_literals(f.body_text()), "for"@, 0) || match_alone(outside_literals(f.body_text()), "for"@, 0))),
        forall|k: int| 0 <= k < nodes(ctx.ast).len() && ((#[trigger] nodes(ctx.ast)[k]).kind is Function || nodes(ctx.ast)[k].kind is Method) ==> !mentions_any(lower(nodes(ctx.ast)[k].name@), seq!["validate", "verify", "check", "assert", "ensure"]),
    ensures
        speaks_of(RemainingAccountsDetector.reports_on(ctx), f),
{
    let list = nodes(ctx.ast);
    assert forall|i: int| !#[trigger] validator_at(list, f.body_text(), f.name@, i) by {}
    reveal_strlit("for");
    law_whole_identifiers(outside_literals(f.body_text()), "for"@);
    lemma_reported(ctx, path, f);
}

/// What is reported uses the remaining accounts without any check, and does not only
/// hand them on.
pub proof fn law_reported_accounts_are_unvalidated(ctx: ScanContext, f: Node)
    requires
        report_on(ctx, f) is Some,
    ensures
        f.kind is Function,
        !begins(f.name@, "test_"@),
        !ends(f.name@, "_test"@),
        mentions(f.body_text(), "remaining_accounts"@),
        !mentions_any(f.body_text(), seq!["owner", "try_deserialize", "Account :: try_from", "AccountDeserialize", "discriminator", "DISCRIMINATOR", "key () ==", "key () !=", "key ==", "key !=", "require_keys_eq", "require !", "require_eq", "assert_eq !", "assert_keys_eq", "assert_owner", "unwrap_key"]),
        !mentions_any(f.body_text(), seq!["invoke", "invoke_signed", "CpiContext", "with_remaining_accounts", "AccountMeta"]) || mentions_any(f.body_text(), seq!["try_borrow_data", "try_borrow_mut_data", "borrow_data", "borrow_mut", ". data", "lamports", "deserialize", "unpack"]),
        mentions_any(f.body_text(), seq!["try_borrow_data", "try_borrow_mut_data", "borrow_data", "borrow_mut", ". data", "lamports", "deserialize", "unpack"]) || mentions_any(outside_literals(f.body_text()), seq![". iter", ". into_iter", "remaining_accounts [", ". get (", ". first", ". last", ". split_at"]) || match_alone(outside_literals(f.body_text()), "for"@, 0),
{
}

/// A function is not reported if its code calls the only routine of some name that
/// speaks of validation, and that routine checks something.
pub proof fn law_helper_may_validate(ctx: ScanContext, f: Node, h: Node, k: int)
    requires
        0 <= k < nodes(ctx.ast).len(),
        nodes(ctx.ast)[k] == h,
        h.kind is Function || h.kind is Method,
        forall|j: int| 0 <= j < k ==> !(((#[trigger] nodes(ctx.ast)[j]).kind is Function || nodes(ctx.ast)[j].kind is Method) && nodes(ctx.ast)[j].name@ == h.name@),
        h.name@ != f.name@,
        mentions_any(lower(h.name@), seq!["validate", "verify", "check", "assert", "ensure"]),
        marked(outside_literals(f.body_text()), h.name@, '('),
        mentions_any(outside_literals(h.body_text()), seq!["owner", "try_deserialize", "Account :: try_from", "AccountDeserialize", "discriminator", "DISCRIMINATOR", "key () ==", "key () !=", "key ==", "key !=", "require_keys_eq", "require !", "require_eq", "assert_eq !", "assert_keys_eq", "assert_owner", "unwrap_key"]),
    ensures
        report_on(ctx, f) is None,
{
    assert(first_of_name(nodes(ctx.ast), k));
    assert(validator_at(nodes(ctx.ast), f.body_text(), f.name@, k));
}

/// A function that carries a test attribute of whatever framework is not reported.
pub proof fn law_marked_test_is_silent(ctx: ScanContext, f: Node, k: int)
    requires
        0 <= k < f.parts(Role::Attribute).len(),
        f.parts(Role::Attribute)[k].last_word() == Some("test"@),
    ensures
        report_on(ctx, f) is None,
{
    let p = |a: Node| a.last_word() == Some("test"@);
    assert(p(f.parts(Role::Attribute)[k]));
}

/// A function named as a test is not reported.
pub proof fn law_test_by_name_is_silent(ctx: ScanContext, f: Node)
    requires
        begins(f.name@, "test_"@) || ends(f.name@, "_test"@),
    ensures
        report_on(ctx, f) is None,
{
}

/// Of two functions of one name the first counts.
pub proof fn law_first_of_two_counts(list: Seq<Node>, i: int, j: int)
    requires
        0 <= j < i < list.len(),
        is_routine(list[j]),
        list[j].name@ == list[i].name@,
    ensures
        !first_of_name(list, i),
{
}

} // verus!
