//! Accounts that are removed with tokens still in them.
use vstd::prelude::*;
use crate::attributes::{
    carries_test, has_test_attribute, is_cfg_test, is_test_attributed, outside_functions_and_tests,
    test_attributed,
};
use crate::calls::{get_plain_calls, plain_calls};
use crate::cfg::test_builds_only;
use crate::context::{is_in_directory, lies_in, ScanContext};
use crate::detector::{Detector, Profile, raise, raised, RuleInfo, stamped};
use crate::finding::{Chain, Confidence, Finding, Report, Severity};
use crate::functions::{
    find_last, is_last_of_name, last_function, last_of_name, law_only_function_is_found,
    only_function,
};
use crate::search::{find_marked, first_marked};
use crate::syntax::{Kind, Node, Role};
use crate::text::{
    any_text, begins, chars_of, contains, contains_any, ends, ends_with, join3, listed, mentions,
    mentions_any, same, slice_of, some_text, starts_with, text_of, texts,
};
use crate::walk::{
    collect_findings, keep_nodes, kept, leads_openly, lemma_reports_from, lemma_sealed,
    lemma_spoken_of, opt_report, reports_of, speaks_of, walk, walk_all, walk_nodes,
};

verus! {

/// Reports storage unregister handlers that remove an account without a look at
/// its balance.
pub struct UnguardedStorageUnregisterDetector;

/// The rule's description of itself.
pub open spec fn profile() -> Profile {
    Profile {
        id: "NEAR-011"@,
        name: "unguarded-storage-unregister"@,
        description: "Detects storage_unregister without checking non-zero token balances"@,
        severity: Severity::Medium,
        confidence: Confidence::Medium,
        chain: Chain::Near,
    }
}

/// The rule's description of itself.
fn info() -> (r: RuleInfo)
    ensures
        r@ == profile(),
{
    RuleInfo {
        id: "NEAR-011",
        name: "unguarded-storage-unregister",
        description: "Detects storage_unregister without checking non-zero token balances",
        severity: Severity::Medium,
        confidence: Confidence::Medium,
        chain: Chain::Near,
    }
}

/// Words of a look at the balance.
pub const BALANCE_CHECK_PATTERNS: [&'static str; 12] = [
    "balance",
    "amount",
    "is_empty",
    "== 0",
    "!= 0",
    "> 0",
    "is_zero",
    "non_zero",
    "nonzero",
    "has_balance",
    "tokens",
    "force",
];

/// Go below a file and its modules, but not below test modules.
pub open spec fn production() -> spec_fn(Node) -> bool {
    |n: Node| n.kind is File || (n.kind is Module && !test_builds_only(n))
}

/// What of a file is no test.
pub open spec fn production_code(file: Node) -> Seq<Node> {
    kept(walk(file, production()), |n: Node| !test_attributed(n))
}

/// The body looks at the balance.
pub open spec fn checks_balance(body: Seq<char>) -> bool {
    mentions_any(body, BALANCE_CHECK_PATTERNS@)
}

/// The body removes something.
pub open spec fn removes(body: Seq<char>) -> bool {
    mentions(body, "remove"@)
}

/// The function `name` of `list` removes something.
pub open spec fn removes_as(list: Seq<Node>, name: Seq<char>) -> bool {
    last_function(list, name) matches Some(f) && removes(f.body_text())
}

/// The function `name` of `list` looks at the balance.
pub open spec fn checks_as(list: Seq<Node>, name: Seq<char>) -> bool {
    last_function(list, name) matches Some(f) && checks_balance(f.body_text())
}

/// The body, or one of `callees`, removes something.
pub open spec fn removal(list: Seq<Node>, body: Seq<char>, callees: Seq<Seq<char>>) -> bool {
    removes(body) || some_text(callees, |c: Seq<char>| removes_as(list, c))
}

/// One of `callees` looks at the balance.
pub open spec fn callee_checks(list: Seq<Node>, callees: Seq<Seq<char>>) -> bool {
    some_text(callees, |c: Seq<char>| checks_as(list, c))
}

/// The node at `i` is a function of another name that calls `name`.
pub open spec fn caller_at(list: Seq<Node>, name: Seq<char>, i: int) -> bool {
    last_of_name(list, i) && list[i].name@ != name && plain_calls(list[i]).contains(name)
}

/// The body looks at the balance before it calls `name`.
pub open spec fn checks_before(body: Seq<char>, name: Seq<char>) -> bool {
    match first_marked(body, name, '(') {
        Some(i) => checks_balance(body.take(i)),
        None => checks_balance(body),
    }
}

/// Some function calls `name`, and every function that does looks at the balance
/// before.
pub open spec fn callers_check(list: Seq<Node>, name: Seq<char>) -> bool {
    &&& exists|i: int| #[trigger] caller_at(list, name, i)
    &&& forall|i: int| #[trigger]
        caller_at(list, name, i) ==> checks_before(list[i].body_text(), name)
}

/// The function is a test.
pub open spec fn test_fn(f: Node) -> bool {
    begins(f.name@, "test_"@) || ends(f.name@, "_test"@) || carries_test(f)
}

/// `f` removes an account and nobody looks at its balance, where `list` holds the
/// functions of the file.
pub open spec fn unguarded(list: Seq<Node>, f: Node) -> bool {
    &&& f.kind is Function
    &&& mentions(f.name@, "storage_unregister"@)
    &&& !test_fn(f)
    &&& removal(list, f.body_text(), plain_calls(f))
    &&& !checks_balance(f.body_text())
    &&& !callee_checks(list, plain_calls(f))
    &&& !callers_check(list, f.name@)
}

/// The report on `f`, if there is one, where `list` holds the functions that it is
/// judged by.
pub open spec fn report_among(ctx: ScanContext, list: Seq<Node>, f: Node) -> Option<Report> {
    if unguarded(list, f) {
        Some(
            raised(
                profile(),
                ctx,
                Confidence::Medium,
                f.line,
                f.column,
                "Storage unregister handler '"@ + f.name@
                    + "' does not check for non-zero token balances before removing account"@,
                "Check that the account has zero token balance before allowing storage_unregister, or require a 'force' parameter to acknowledge token loss"@,
            ),
        )
    } else {
        None
    }
}

/// The report on `f`, if there is one.
pub open spec fn report_on(ctx: ScanContext, f: Node) -> Option<Report> {
    report_among(ctx, production_code(ctx.ast), f)
}

/// Whether the body looks at the balance.
pub fn body_has_balance_check(body: &str) -> (b: bool)
    ensures
        b == checks_balance(body@),
{
    contains_any(body, BALANCE_CHECK_PATTERNS.as_slice())
}

/// Whether the body looks at the balance before it calls `name`.
fn is_checked_before(body: &str, name: &str) -> (b: bool)
    ensures
        b == checks_before(body@, name@),
{
    let code = chars_of(body);
    let word = chars_of(name);
    match find_marked(&code, &word, '(') {
        Some(i) => {
            let front = slice_of(&code, 0, i);
            assert(front@ =~= code@.take(i as int));
            body_has_balance_check(text_of(&front).as_str())
        },
        None => body_has_balance_check(body),
    }
}

/// Whether the body removes something.
pub fn body_removes(body: &str) -> (b: bool)
    ensures
        b == removes(body@),
{
    contains(body, "remove")
}

/// What of a file is no test.
pub struct StorageUnregisterVisitor<'a> {
    pub prod_fns: Vec<&'a Node>,
}

impl<'a> StorageUnregisterVisitor<'a> {
    /// Whether the body, or one of `callees`, removes something.
    pub fn removes_something(&self, body_src: &str, callees: &Vec<String>) -> (b: bool)
        ensures
            b == removal(self.prod_fns@.unref(), body_src@, texts(callees@)),
    {
        let ghost all = self.prod_fns@.unref();
        body_removes(body_src) || any_text(
            callees,
            |c: &str| -> (r: bool)
                ensures
                    r == removes_as(all, c@)
            {
                match find_last(&self.prod_fns, c) {
                    Some(f) => body_removes(f.get_body_text()),
                    None => false,
                }
            },
            Ghost(|c: Seq<char>| removes_as(all, c)),
        )
    }

    /// Whether one of `callees` looks at the balance.
    pub fn callee_checks_balance(&self, callees: &Vec<String>) -> (b: bool)
        ensures
            b == callee_checks(self.prod_fns@.unref(), texts(callees@)),
    {
        let ghost all = self.prod_fns@.unref();
        any_text(
            callees,
            |c: &str| -> (r: bool)
                ensures
                    r == checks_as(all, c@)
            {
                match find_last(&self.prod_fns, c) {
                    Some(f) => body_has_balance_check(f.get_body_text()),
                    None => false,
                }
            },
            Ghost(|c: Seq<char>| checks_as(all, c)),
        )
    }

    /// Whether some function calls `fn_name`, and every function that does looks at
    /// the balance.
    pub fn all_callers_check_balance(&self, fn_name: &str) -> (b: bool)
        ensures
            b == callers_check(self.prod_fns@.unref(), fn_name@),
    {
        let ghost all = self.prod_fns@.unref();
        let mut had_caller = false;
        let mut i: usize = 0;
        while i < self.prod_fns.len()
            invariant
                i <= self.prod_fns@.len(),
                all == self.prod_fns@.unref(),
                had_caller == exists|k: int| k < i && #[trigger] caller_at(all, fn_name@, k),
                forall|k: int|
                    k < i && #[trigger] caller_at(all, fn_name@, k) ==> checks_before(
                        all[k].body_text(),
                        fn_name@,
                    ),
            decreases self.prod_fns@.len() - i,
        {
            let f = self.prod_fns[i];
            assert(all[i as int] == *f);
            if is_last_of_name(&self.prod_fns, i) && !same(f.name.as_str(), fn_name) && listed(
                &get_plain_calls(f),
                fn_name,
            ) {
                assert(caller_at(all, fn_name@, i as int));
                had_caller = true;
                if !is_checked_before(f.get_body_text(), fn_name) {
                    return false;
                }
            }
            i = i + 1;
        }
        assert(forall|k: int| #[trigger] caller_at(all, fn_name@, k) ==> k < i);
        had_caller
    }

    /// Whether `f` removes an account and nobody looks at its balance.
    pub fn is_unguarded(&self, f: &Node) -> (b: bool)
        ensures
            b == unguarded(self.prod_fns@.unref(), *f),
    {
        match f.kind {
            Kind::Function => {},
            _ => {
                return false;
            },
        }
        let name = f.name.as_str();
        if !contains(name, "storage_unregister") || starts_with(name, "test_") || ends_with(
            name,
            "_test",
        ) || has_test_attribute(f) {
            return false;
        }
        let body = f.get_body_text();
        let callees = get_plain_calls(f);
        self.removes_something(body, &callees) && !body_has_balance_check(body)
            && !self.callee_checks_balance(&callees) && !self.all_callers_check_balance(name)
    }
}

impl UnguardedStorageUnregisterDetector {
    /// The finding on `f`, if there is one, where `visitor` holds the functions of
    /// the file.
    pub fn check(
        &self,
        ctx: &ScanContext,
        visitor: &StorageUnregisterVisitor<'_>,
        f: &Node,
    ) -> (r: Option<Finding>)
        ensures
            opt_report(r) == report_among(*ctx, visitor.prod_fns@.unref(), *f),
    {
        if !visitor.is_unguarded(f) {
            return None;
        }
        let text = join3(
            "Storage unregister handler '",
            f.name.as_str(),
            "' does not check for non-zero token balances before removing account",
        );
        Some(
            raise(
                &info(),
                ctx,
                Confidence::Medium,
                f.line,
                f.column,
                text,
                "Check that the account has zero token balance before allowing storage_unregister, or require a 'force' parameter to acknowledge token loss",
            ),
        )
    }
}

impl Detector for UnguardedStorageUnregisterDetector {
    open spec fn profile(&self) -> Profile {
        profile()
    }

    open spec fn reports_on(&self, ctx: ScanContext) -> Seq<Report> {
        if lies_in(ctx.file_path@, "tests"@) {
            Seq::empty()
        } else {
            reports_of(walk(ctx.ast, outside_functions_and_tests()), |f: Node| report_on(ctx, f))
        }
    }

    fn id(&self) -> (r: &'static str) {
        info().id
    }

    fn name(&self) -> (r: &'static str) {
        info().name
    }

    fn description(&self) -> (r: &'static str) {
        info().description
    }

    fn severity(&self) -> (r: Severity) {
        info().severity
    }

    fn confidence(&self) -> (r: Confidence) {
        info().confidence
    }

    fn chain(&self) -> (r: Chain) {
        info().chain
    }

    fn detect(&self, ctx: &ScanContext) -> (r: Vec<Finding>) {
        if is_in_directory(ctx.file_path.as_str(), "tests") {
            return Vec::new();
        }
        let reached = walk_nodes(
            &ctx.ast,
            |n: &Node| -> (b: bool)
                ensures
                    b == production()(*n)
            { matches!(n.kind, Kind::File) || (matches!(n.kind, Kind::Module) && !is_cfg_test(n)) },
            Ghost(production()),
        );
        let prod_fns = keep_nodes(
            &reached,
            |n: &Node| -> (b: bool)
                ensures
                    b == !test_attributed(*n)
            { !is_test_attributed(n) },
            Ghost(|n: Node| !test_attributed(n)),
        );
        let visitor = StorageUnregisterVisitor { prod_fns };
        let list = walk_nodes(
            &ctx.ast,
            |n: &Node| -> (b: bool)
                ensures
                    b == outside_functions_and_tests()(*n)
            {
                !matches!(n.kind, Kind::Function)
                    && !(matches!(n.kind, Kind::Module) && is_cfg_test(n))
            },
            Ghost(outside_functions_and_tests()),
        );
        collect_findings(
            &list,
            |f: &Node| -> (s: Option<Finding>)
                ensures
                    opt_report(s) == report_on(*ctx, *f)
            { self.check(ctx, &visitor, f) },
            Ghost(|f: Node| report_on(*ctx, f)),
        )
    }

    proof fn law_findings_are_stamped(&self, ctx: ScanContext) {
        assert forall|i: int| 0 <= i < self.reports_on(ctx).len() implies stamped(
            #[trigger] self.reports_on(ctx)[i],
            self.profile(),
            ctx,
        ) by {
            lemma_reports_from(walk(ctx.ast, outside_functions_and_tests()), |f: Node| report_on(ctx, f), i);
        }
    }
}

/// Every finding has the confidence that the rule states of itself.
pub proof fn law_confidence_is_the_rules_own(ctx: ScanContext)
    ensures
        forall|i: int|
            0 <= i < UnguardedStorageUnregisterDetector.reports_on(ctx).len() ==> (
            #[trigger] UnguardedStorageUnregisterDetector.reports_on(ctx)[i]).confidence == profile().confidence,
{
    assert forall|i: int| 0 <= i < UnguardedStorageUnregisterDetector.reports_on(ctx).len() implies (
        #[trigger] UnguardedStorageUnregisterDetector.reports_on(ctx)[i]).confidence == profile().confidence by {
        lemma_reports_from(walk(ctx.ast, outside_functions_and_tests()), |f: Node| report_on(ctx, f), i);
    }
}

/// Nothing is reported on a file that lies in a directory of tests.
pub proof fn law_out_of_scope_is_silent(ctx: ScanContext)
    requires
        lies_in(ctx.file_path@, "tests"@),
    ensures
        UnguardedStorageUnregisterDetector.reports_on(ctx).len() == 0,
{
}

/// Nothing is reported on a test function.
pub proof fn law_test_function_is_silent(ctx: ScanContext, f: Node)
    requires
        test_fn(f),
    ensures
        report_on(ctx, f) is None,
{
}

/// A test module contributes no report, whatever it holds.
pub proof fn law_test_module_is_silent(ctx: ScanContext, m: Node)
    requires
        m.kind is Module,
        test_builds_only(m),
    ensures
        reports_of(walk(m, outside_functions_and_tests()), |f: Node| report_on(ctx, f)) == Seq::<Report>::empty(),
{
    lemma_sealed(m, outside_functions_and_tests(), |f: Node| report_on(ctx, f));
}

/// What is reported on is spoken of, wherever in the file it stands.
proof fn lemma_reported(ctx: ScanContext, path: Seq<Node>, f: Node)
    requires
        leads_openly(path, ctx.ast, f),
        report_on(ctx, f) is Some,
        !lies_in(ctx.file_path@, "tests"@),
    ensures
        speaks_of(UnguardedStorageUnregisterDetector.reports_on(ctx), f),
{
    lemma_spoken_of(path, outside_functions_and_tests(), |n: Node| report_on(ctx, n), "Storage unregister handler '"@, "' does not check for non-zero token balances before removing account"@);
}

/// A handler of unregistrations that removes something is reported, if it looks at no
/// balance, calls nothing, and nothing calls it.
pub proof fn law_unchecked_removal_is_reported(ctx: ScanContext, path: Seq<Node>, f: Node)
    requires
        !lies_in(ctx.file_path@, "tests"@),
        leads_openly(path, ctx.ast, f),
        f.kind is Function,
        f.parts(Role::Attribute).len() == 0,
        mentions(f.name@, "storage_unregister"@),
        !begins(f.name@, "test_"@),
        !ends(f.name@, "_test"@),
        mentions(f.body_text(), "remove"@),
        !mentions_any(f.body_text(), seq!["balance", "amount", "is_empty", "== 0", "!= 0", "> 0", "is_zero", "non_zero", "nonzero", "has_balance", "tokens", "force"]),
        plain_calls(f).len() == 0,
        forall|k: int| 0 <= k < production_code(ctx.ast).len() ==> !plain_calls(#[trigger] production_code(ctx.ast)[k]).contains(f.name@),
    ensures
        speaks_of(UnguardedStorageUnregisterDetector.reports_on(ctx), f),
{
    let list = production_code(ctx.ast);
    assert forall|i: int| !#[trigger] caller_at(list, f.name@, i) by {
        if caller_at(list, f.name@, i) {
            assert(plain_calls(list[i]).contains(f.name@));
        }
    }
    lemma_reported(ctx, path, f);
}

/// What is reported is a handler of unregistrations that says nothing of a balance.
pub proof fn law_reported_removal_is_unchecked(ctx: ScanContext, f: Node)
    requires
        report_on(ctx, f) is Some,
    ensures
        f.kind is Function,
        mentions(f.name@, "storage_unregister"@),
        !begins(f.name@, "test_"@),
        !ends(f.name@, "_test"@),
        !mentions_any(f.body_text(), seq!["balance", "amount", "is_empty", "== 0", "!= 0", "> 0", "is_zero", "non_zero", "nonzero", "has_balance", "tokens", "force"]),
        mentions(f.body_text(), "remove"@) || plain_calls(f).len() > 0,
{
}

/// A handler is not reported if it calls a function of the file that looks at the
/// balance.
pub proof fn law_callee_may_look_at_the_balance(ctx: ScanContext, f: Node, h: Node)
    requires
        only_function(production_code(ctx.ast), h),
        plain_calls(f).contains(h.name@),
        mentions_any(h.body_text(), seq!["balance", "amount", "is_empty", "== 0", "!= 0", "> 0", "is_zero", "non_zero", "nonzero", "has_balance", "tokens", "force"]),
    ensures
        report_on(ctx, f) is None,
{
    law_only_function_is_found(production_code(ctx.ast), h);
    let called = plain_calls(f);
    let p = |x: Seq<char>| checks_as(production_code(ctx.ast), x);
    assert(p(called[called.index_of(h.name@)]));
}

/// A handler is not reported if something calls it, and whatever does looks at the
/// balance in front of the call.
pub proof fn law_caller_may_look_at_the_balance(ctx: ScanContext, f: Node, list: Seq<Node>, i: int)
    requires
        list == production_code(ctx.ast),
        last_of_name(list, i),
        list[i].name@ != f.name@,
        plain_calls(list[i]).contains(f.name@),
        forall|k: int| 0 <= k < list.len() && (#[trigger] list[k]).kind is Function && list[k].name@ != f.name@ && plain_calls(list[k]).contains(f.name@) ==> (first_marked(list[k].body_text(), f.name@, '(') matches Some(p) && mentions_any(list[k].body_text().take(p), seq!["balance", "amount", "is_empty", "== 0", "!= 0", "> 0", "is_zero", "non_zero", "nonzero", "has_balance", "tokens", "force"])),
    ensures
        report_on(ctx, f) is None,
{
    assert(caller_at(list, f.name@, i));
    assert forall|k: int| #[trigger] caller_at(list, f.name@, k) implies checks_before(list[k].body_text(), f.name@) by {
        assert(list[k].kind is Function);
    }
    assert(callers_check(list, f.name@));
}

/// A handler that removes nothing itself is reported if a function of the file that it
/// calls does, and neither looks at a balance.
pub proof fn law_removal_may_stand_in_a_callee(ctx: ScanContext, path: Seq<Node>, f: Node, h: Node)
    requires
        !lies_in(ctx.file_path@, "tests"@),
        leads_openly(path, ctx.ast, f),
        f.kind is Function,
        f.parts(Role::Attribute).len() == 0,
        mentions(f.name@, "storage_unregister"@),
        !begins(f.name@, "test_"@),
        !ends(f.name@, "_test"@),
        only_function(production_code(ctx.ast), h),
        plain_calls(f).contains(h.name@),
        forall|k: int| 0 <= k < plain_calls(f).len() ==> #[trigger] plain_calls(f)[k] == h.name@,
        mentions(h.body_text(), "remove"@),
        !mentions_any(h.body_text(), seq!["balance", "amount", "is_empty", "== 0", "!= 0", "> 0", "is_zero", "non_zero", "nonzero", "has_balance", "tokens", "force"]),
        !mentions_any(f.body_text(), seq!["balance", "amount", "is_empty", "== 0", "!= 0", "> 0", "is_zero", "non_zero", "nonzero", "has_balance", "tokens", "force"]),
        forall|k: int| 0 <= k < production_code(ctx.ast).len() ==> !plain_calls(#[trigger] production_code(ctx.ast)[k]).contains(f.name@),
    ensures
        speaks_of(UnguardedStorageUnregisterDetector.reports_on(ctx), f),
{
    let list = production_code(ctx.ast);
    law_only_function_is_found(list, h);
    let called = plain_calls(f);
    let p = |x: Seq<char>| removes_as(list, x);
    assert(p(called[called.index_of(h.name@)]));
    assert forall|k: int| 0 <= k < called.len() implies !checks_as(list, #[trigger] called[k]) by {}
    assert forall|i: int| !#[trigger] caller_at(list, f.name@, i) by {
        if caller_at(list, f.name@, i) {
            assert(plain_calls(list[i]).contains(f.name@));
        }
    }
    lemma_reported(ctx, path, f);
}

/// A function that carries a test attribute of whatever framework is not reported.
pub proof fn law_marked_test_is_silent(ctx: ScanContext, f: Node, k: int)
    requires
        0 <= k < f.parts(Role::Attribute).len(),
        f.parts(Role::Attribute)[k].last_word() == Some("test"@),
    ensures
        report_on(ctx, f) is None,
{
    let p = |a: Node| a.last_word() == Some("test"@);
    assert(p(f.parts(Role::Attribute)[k]));
}

/// A function named as a test is not reported.
pub proof fn law_test_by_name_is_silent(ctx: ScanContext, f: Node)
    requires
        begins(f.name@, "test_"@) || ends(f.name@, "_test"@),
    ensures
        report_on(ctx, f) is None,
{
}

/// The code that counts stands in the file and in its modules, but for those that are
/// built for tests only.
pub proof fn law_production_code(n: Node)
    requires
        n.kind is Module || n.kind is Function || n.kind is Method,
    ensures
        walk(n, production()) == (if n.kind is Module && !test_builds_only(n) { seq![n] + walk_all(n.children@, production()) } else { seq![n] }),
{
}

} // verus!
