//! Accounts that are created without the rent that keeps them alive.
use vstd::prelude::*;
use crate::attributes::{carries_any, has_any_attribute};
use crate::calls::{called_names, calls, get_called_names};
use crate::context::ScanContext;
use crate::detector::{Detector, Profile, raise, raised, RuleInfo, stamped};
use crate::finding::{Chain, Confidence, Finding, Report, Severity};
use crate::quotes::{blank_literals, outside_literals};
use crate::search::{finds_marked, marked};
use crate::syntax::{Kind, Node, Role};
use crate::text::{
    any_text, begins, compact, compacted, contains, contains_any, is_any, join3, listed, mentions,
    mentions_any, same, same_as_any, some_text, starts_with, texts,
};
use crate::walk::{
    any_node, collect_findings, law_led_to_is_met, leads, leads_openly, lemma_reports_from,
    lemma_sealed, lemma_spoken_of, nodes, nodes_in, opt_report, reports_of, some, speaks_of, walk,
    walk_all, walk_nodes,
};

verus! {

/// Reports functions that create an account and never ask for the rent-exempt
/// minimum.
pub struct MissingRentExemptDetector;

/// The rule's description of itself.
pub open spec fn profile() -> Profile {
    Profile {
        id: "SOL-011"@,
        name: "missing-rent-exempt"@,
        description: "Detects create_account calls without rent-exemption checks"@,
        severity: Severity::Medium,
        confidence: Confidence::Medium,
        chain: Chain::Solana,
    }
}

/// The rule's description of itself.
fn info() -> (r: RuleInfo)
    ensures
        r@ == profile(),
{
    RuleInfo {
        id: "SOL-011",
        name: "missing-rent-exempt",
        description: "Detects create_account calls without rent-exemption checks",
        severity: Severity::Medium,
        confidence: Confidence::Medium,
        chain: Chain::Solana,
    }
}

/// The calls that create an account.
pub const CREATE_CALLS: [&'static str; 2] = ["create_account", "create_account_with_seed"];

/// The calls that execute an instruction.
pub const INVOKE_CALLS: [&'static str; 2] = ["invoke", "invoke_signed"];

/// Words of a body in which rent is taken care of.
pub const RENT_WORDS: [&'static str; 5] = ["Rent", "rent", "minimum_balance", "exempt", "init"];

/// The attributes of test functions.
pub const TEST_MARKS: [&'static str; 4] = ["test", "tokio::test", "ink::test", "async_std::test"];

/// The body computes a rent-exempt minimum: it calls `minimum_balance`.
pub open spec fn computes_rent(body: Seq<char>) -> bool {
    marked(outside_literals(body), "minimum_balance"@, '(')
}

/// Go below everything but patterns: to match on an instruction is not to use it.
pub open spec fn outside_patterns() -> spec_fn(Node) -> bool {
    |n: Node| !(n.kind is Pat || n.kind is PatTupleStruct)
}

/// The node names the instruction that creates an account: in a path, be it that of a
/// value or that of a type, or in the arguments of a macro call. What a literal says
/// names nothing.
pub open spec fn names_creation(n: Node) -> bool {
    match n.kind {
        Kind::Path => some_text(texts(n.words@), |w: Seq<char>| mentions(w, "CreateAccount"@)),
        Kind::Macro => mentions(outside_literals(n.text@), "CreateAccount"@),
        _ => false,
    }
}

/// The body of `f` uses the instruction that creates an account.
pub open spec fn uses_creation(f: Node) -> bool {
    match f.part(Role::Body) {
        Some(body) => some(walk(body, outside_patterns()), |n: Node| names_creation(n)),
        None => false,
    }
}

/// `f` makes a call that creates an account, or uses the instruction that creates one
/// where one is executed.
pub open spec fn creates(f: Node) -> bool {
    ||| some_text(called_names(f), |c: Seq<char>| is_any(c, CREATE_CALLS@))
    ||| uses_creation(f) && (some_text(called_names(f), |c: Seq<char>| is_any(c, INVOKE_CALLS@))
        || mentions(f.body_text(), "CpiContext"@))
}

/// `n` is compiled for tests only.
pub open spec fn only_for_tests(n: Node) -> bool {
    some(
        n.parts(Role::Attribute),
        |a: Node| a.name@ == "cfg"@ && compact(a.text@) == "cfg(test)"@,
    )
}

/// The name of a test function.
pub open spec fn test_name(name: Seq<char>) -> bool {
    begins(name, "test_"@) || mentions(name, "_test"@)
}

/// Go below everything but test modules and functions with the name of a test.
pub open spec fn outside_tests() -> spec_fn(Node) -> bool {
    |n: Node|
        !(n.kind is Module && only_for_tests(n)) && !(n.kind is Function && test_name(n.name@))
}

/// The node is a function named `name` that computes a rent-exempt minimum.
pub open spec fn rent_fn(n: Node, name: Seq<char>) -> bool {
    n.kind is Function && n.name@ == name && computes_rent(n.body_text())
}

/// Some function named `name` in `list` computes a rent-exempt minimum.
pub open spec fn rents(list: Seq<Node>, name: Seq<char>) -> bool {
    some(list, |n: Node| rent_fn(n, name))
}

/// One of `calls` computes a rent-exempt minimum.
pub open spec fn callee_rents(list: Seq<Node>, calls: Seq<Seq<char>>) -> bool {
    some_text(calls, |c: Seq<char>| rents(list, c))
}

/// The node is a function that calls `name`, and one of its name computes a
/// rent-exempt minimum.
pub open spec fn rent_caller(list: Seq<Node>, n: Node, name: Seq<char>) -> bool {
    &&& n.kind is Function
    &&& n.name@ != name
    &&& called_names(n).contains(name)
    &&& rents(list, n.name@)
}

/// A caller of `name` computes a rent-exempt minimum.
pub open spec fn caller_rents(list: Seq<Node>, name: Seq<char>) -> bool {
    some(list, |n: Node| rent_caller(list, n, name))
}

/// `f` creates an account and nobody asks for the rent, where `list` holds the
/// functions of the file.
pub open spec fn unfunded(list: Seq<Node>, f: Node) -> bool {
    &&& f.kind is Function
    &&& !test_name(f.name@)
    &&& !carries_any(f, TEST_MARKS@)
    &&& creates(f)
    &&& !mentions_any(f.body_text(), RENT_WORDS@)
    &&& !callee_rents(list, called_names(f))
    &&& !caller_rents(list, f.name@)
}

/// The report on `f`, if there is one, where `list` holds the nodes that it is judged
/// by.
pub open spec fn report_among(ctx: ScanContext, list: Seq<Node>, f: Node) -> Option<Report> {
    if unfunded(list, f) {
        Some(
            raised(
                profile(),
                ctx,
                Confidence::Medium,
                f.line,
                f.column,
                "Function '"@ + f.name@ + "' creates account without rent-exemption check"@,
                "Use Rent::get()?.minimum_balance(space) to ensure accounts are rent-exempt"@,
            ),
        )
    } else {
        None
    }
}

/// The report on `f`, if there is one.
pub open spec fn report_on(ctx: ScanContext, f: Node) -> Option<Report> {
    report_among(ctx, nodes(ctx.ast), f)
}

/// Whether the body computes a rent-exempt minimum.
pub fn body_computes_rent(body_src: &str) -> (b: bool)
    ensures
        b == computes_rent(body_src@),
{
    finds_marked(blank_literals(body_src).as_str(), "minimum_balance", '(')
}

/// Whether one of `calls` is among `names`.
fn calls_any(calls: &Vec<String>, names: &[&str]) -> (b: bool)
    ensures
        b == some_text(texts(calls@), |c: Seq<char>| is_any(c, names@)),
{
    any_text(
        calls,
        |c: &str| -> (r: bool)
            ensures
                r == is_any(c@, names@)
        { same_as_any(c, names) },
        Ghost(|c: Seq<char>| is_any(c, names@)),
    )
}

/// Whether the node names the instruction that creates an account.
fn is_creation(n: &Node) -> (b: bool)
    ensures
        b == names_creation(*n),
{
    match n.kind {
        Kind::Path => any_text(
            &n.words,
            |w: &str| -> (r: bool)
                ensures
                    r == mentions(w@, "CreateAccount"@)
            { contains(w, "CreateAccount") },
            Ghost(|w: Seq<char>| mentions(w, "CreateAccount"@)),
        ),
        Kind::Macro => contains(blank_literals(n.text.as_str()).as_str(), "CreateAccount"),
        _ => false,
    }
}

/// Whether the body of `f` uses the instruction that creates an account.
fn has_creation(f: &Node) -> (b: bool)
    ensures
        b == uses_creation(*f),
{
    match f.get_part(Role::Body) {
        Some(body) => {
            let list = walk_nodes(
                body,
                |n: &Node| -> (r: bool)
                    ensures
                        r == outside_patterns()(*n)
                { !matches!(n.kind, Kind::Pat | Kind::PatTupleStruct) },
                Ghost(outside_patterns()),
            );
            any_node(
                &list,
                |n: &Node| -> (r: bool)
                    ensures
                        r == names_creation(*n)
                { is_creation(n) },
                Ghost(|n: Node| names_creation(n)),
            )
        },
        None => false,
    }
}

/// Whether `f` creates an account.
pub fn creates_account(f: &Node) -> (b: bool)
    ensures
        b == creates(*f),
{
    let calls = get_called_names(f);
    calls_any(&calls, CREATE_CALLS.as_slice()) || (has_creation(f) && (calls_any(
        &calls,
        INVOKE_CALLS.as_slice(),
    ) || contains(f.get_body_text(), "CpiContext")))
}

/// Whether `n` is compiled for tests only.
pub fn is_cfg_test(n: &Node) -> (b: bool)
    ensures
        b == only_for_tests(*n),
{
    let list = n.get_parts(Role::Attribute);
    any_node(
        &list,
        |a: &Node| -> (r: bool)
            ensures
                r == (a.name@ == "cfg"@ && compact(a.text@) == "cfg(test)"@)
        {
            same(a.name.as_str(), "cfg") && same(
                compacted(a.text.as_str()).as_str(),
                "cfg(test)",
            )
        },
        Ghost(|a: Node| a.name@ == "cfg"@ && compact(a.text@) == "cfg(test)"@),
    )
}

/// Whether the name is that of a test function.
fn is_test_name(name: &str) -> (b: bool)
    ensures
        b == test_name(name@),
{
    starts_with(name, "test_") || contains(name, "_test")
}

/// The functions of a file.
pub struct RentVisitor<'a> {
    pub items: Vec<&'a Node>,
}

impl<'a> RentVisitor<'a> {
    /// Whether some function named `name` computes a rent-exempt minimum.
    fn has_rent(&self, name: &str) -> (b: bool)
        ensures
            b == rents(self.items@.unref(), name@),
    {
        any_node(
            &self.items,
            |n: &Node| -> (r: bool)
                ensures
                    r == rent_fn(*n, name@)
            {
                matches!(n.kind, Kind::Function) && same(n.name.as_str(), name)
                    && body_computes_rent(n.get_body_text())
            },
            Ghost(|n: Node| rent_fn(n, name@)),
        )
    }

    /// Whether one of `calls` computes a rent-exempt minimum.
    pub fn callee_computes_rent(&self, calls: &Vec<String>) -> (b: bool)
        ensures
            b == callee_rents(self.items@.unref(), texts(calls@)),
    {
        let ghost all = self.items@.unref();
        any_text(
            calls,
            |c: &str| -> (r: bool)
                ensures
                    r == rents(all, c@)
            { self.has_rent(c) },
            Ghost(|c: Seq<char>| rents(all, c)),
        )
    }

    /// Whether a caller of `fn_name` computes a rent-exempt minimum.
    pub fn caller_computes_rent(&self, fn_name: &str) -> (b: bool)
        ensures
            b == caller_rents(self.items@.unref(), fn_name@),
    {
        let ghost all = self.items@.unref();
        any_node(
            &self.items,
            |n: &Node| -> (r: bool)
                ensures
                    r == rent_caller(all, *n, fn_name@)
            {
                matches!(n.kind, Kind::Function) && !same(n.name.as_str(), fn_name) && listed(
                    &get_called_names(n),
                    fn_name,
                ) && self.has_rent(n.name.as_str())
            },
            Ghost(|n: Node| rent_caller(all, n, fn_name@)),
        )
    }

    /// Whether `f` creates an account and nobody asks for the rent.
    pub fn is_unfunded(&self, f: &Node) -> (b: bool)
        ensures
            b == unfunded(self.items@.unref(), *f),
    {
        match f.kind {
            Kind::Function => {},
            _ => {
                return false;
            },
        }
        let name = f.name.as_str();
        if is_test_name(name) || has_any_attribute(f, TEST_MARKS.as_slice()) {
            return false;
        }
        let body = f.get_body_text();
        let calls = get_called_names(f);
        creates_account(f) && !contains_any(body, RENT_WORDS.as_slice())
            && !self.callee_computes_rent(&calls) && !self.caller_computes_rent(name)
    }
}

impl MissingRentExemptDetector {
    /// The finding on `f`, if there is one, where `visitor` holds the functions of
    /// the file.
    pub fn check(&self, ctx: &ScanContext, visitor: &RentVisitor<'_>, f: &Node) -> (r: Option<
        Finding,
    >)
        ensures
            opt_report(r) == report_among(*ctx, visitor.items@.unref(), *f),
    {
        if !visitor.is_unfunded(f) {
            return None;
        }
        let text = join3(
            "Function '",
            f.name.as_str(),
            "' creates account without rent-exemption check",
        );
        Some(
            raise(
                &info(),
                ctx,
                Confidence::Medium,
                f.line,
                f.column,
                text,
                "Use Rent::get()?.minimum_balance(space) to ensure accounts are rent-exempt",
            ),
        )
    }
}

impl Detector for MissingRentExemptDetector {
    open spec fn profile(&self) -> Profile {
        profile()
    }

    open spec fn reports_on(&self, ctx: ScanContext) -> Seq<Report> {
        reports_of(walk(ctx.ast, outside_tests()), |f: Node| report_on(ctx, f))
    }

    fn id(&self) -> (r: &'static str) {
        info().id
    }

    fn name(&self) -> (r: &'static str) {
        info().name
    }

    fn description(&self) -> (r: &'static str) {
        info().description
    }

    fn severity(&self) -> (r: Severity) {
        info().severity
    }

    fn confidence(&self) -> (r: Confidence) {
        info().confidence
    }

    fn chain(&self) -> (r: Chain) {
        info().chain
    }

    fn detect(&self, ctx: &ScanContext) -> (r: Vec<Finding>) {
        let visitor = RentVisitor { items: nodes_in(&ctx.ast) };
        let list = walk_nodes(
            &ctx.ast,
            |n: &Node| -> (b: bool)
                ensures
                    b == outside_tests()(*n)
            {
                !(matches!(n.kind, Kind::Module) && is_cfg_test(n))
                    && !(matches!(n.kind, Kind::Function) && is_test_name(n.name.as_str()))
            },
            Ghost(outside_tests()),
        );
        collect_findings(
            &list,
            |f: &Node| -> (s: Option<Finding>)
                ensures
                    opt_report(s) == report_on(*ctx, *f)
            { self.check(ctx, &visitor, f) },
            Ghost(|f: Node| report_on(*ctx, f)),
        )
    }

    proof fn law_findings_are_stamped(&self, ctx: ScanContext) {
        assert forall|i: int| 0 <= i < self.reports_on(ctx).len() implies stamped(
            #[trigger] self.reports_on(ctx)[i],
            self.profile(),
            ctx,
        ) by {
            lemma_reports_from(walk(ctx.ast, outside_tests()), |f: Node| report_on(ctx, f), i);
        }
    }
}

/// Every finding has the confidence that the rule states of itself.
pub proof fn law_confidence_is_the_rules_own(ctx: ScanContext)
    ensures
        forall|i: int|
            0 <= i < MissingRentExemptDetector.reports_on(ctx).len() ==> (
            #[trigger] MissingRentExemptDetector.reports_on(ctx)[i]).confidence == profile().confidence,
{
    assert forall|i: int| 0 <= i < MissingRentExemptDetector.reports_on(ctx).len() implies (
        #[trigger] MissingRentExemptDetector.reports_on(ctx)[i]).confidence == profile().confidence by {
        lemma_reports_from(walk(ctx.ast, outside_tests()), |f: Node| report_on(ctx, f), i);
    }
}

/// Nothing is reported on a test function.
pub proof fn law_test_function_is_silent(ctx: ScanContext, f: Node)
    requires
        test_name(f.name@) || carries_any(f, TEST_MARKS@),
    ensures
        report_on(ctx, f) is None,
{
}

/// A test module contributes no report, whatever it holds.
pub proof fn law_test_module_is_silent(ctx: ScanContext, m: Node)
    requires
        m.kind is Module,
        only_for_tests(m),
    ensures
        reports_of(walk(m, outside_tests()), |f: Node| report_on(ctx, f)) == Seq::<Report>::empty(),
{
    lemma_sealed(m, outside_tests(), |f: Node| report_on(ctx, f));
}

/// What is reported on is spoken of, wherever in the file it stands.
proof fn lemma_reported(ctx: ScanContext, path: Seq<Node>, f: Node)
    requires
        leads_openly(path, ctx.ast, f),
        report_on(ctx, f) is Some,
    ensures
        speaks_of(MissingRentExemptDetector.reports_on(ctx), f),
{
    lemma_spoken_of(path, outside_tests(), |n: Node| report_on(ctx, n), "Function '"@, "' creates account without rent-exemption check"@);
}

/// A function that calls `create_account`, or its variant with a seed, is reported, if
/// its body says nothing of rent and no function of the file computes it.
pub proof fn law_unfunded_creation_is_reported(ctx: ScanContext, path: Seq<Node>, f: Node)
    requires
        leads_openly(path, ctx.ast, f),
        f.kind is Function,
        f.parts(Role::Attribute).len() == 0,
        !begins(f.name@, "test_"@),
        !mentions(f.name@, "_test"@),
        !mentions_any(f.body_text(), seq!["Rent", "rent", "minimum_balance", "exempt", "init"]),
        forall|k: int| 0 <= k < nodes(ctx.ast).len() && (#[trigger] nodes(ctx.ast)[k]).kind is Function ==> !marked(outside_literals(nodes(ctx.ast)[k].body_text()), "minimum_balance"@, '('),
        called_names(f).contains("create_account"@) || called_names(f).contains("create_account_with_seed"@),
    ensures
        speaks_of(MissingRentExemptDetector.reports_on(ctx), f),
{
    let list = nodes(ctx.ast);
    assert forall|name: Seq<char>| !#[trigger] rents(list, name) by {
        assert forall|k: int| 0 <= k < list.len() implies !rent_fn(#[trigger] list[k], name) by {}
    }
    assert(!caller_rents(list, f.name@));
    assert(!callee_rents(list, called_names(f)));
    assert(!carries_any(f, TEST_MARKS@));
    let called = called_names(f);
    let p = |c: Seq<char>| is_any(c, CREATE_CALLS@);
    if called.contains("create_account"@) {
        assert(p(called[called.index_of("create_account"@)]));
    } else {
        assert(p(called[called.index_of("create_account_with_seed"@)]));
    }
    lemma_reported(ctx, path, f);
}

/// So is one that names the instruction which creates an account, outside of patterns,
/// where it invokes a program or builds a call context.
pub proof fn law_unfunded_instruction_is_reported(ctx: ScanContext, path: Seq<Node>, f: Node, body: Node, way: Seq<Node>, w: int)
    requires
        leads_openly(path, ctx.ast, f),
        f.kind is Function,
        f.parts(Role::Attribute).len() == 0,
        !begins(f.name@, "test_"@),
        !mentions(f.name@, "_test"@),
        !mentions_any(f.body_text(), seq!["Rent", "rent", "minimum_balance", "exempt", "init"]),
        forall|k: int| 0 <= k < nodes(ctx.ast).len() && (#[trigger] nodes(ctx.ast)[k]).kind is Function ==> !marked(outside_literals(nodes(ctx.ast)[k].body_text()), "minimum_balance"@, '('),
        f.part(Role::Body) == Some(body),
        leads(way),
        way[0] == body,
        forall|i: int| 0 <= i < way.len() - 1 ==> !((#[trigger] way[i]).kind is Pat) && !(way[i].kind is PatTupleStruct),
        (way.last().kind is Path && 0 <= w < way.last().words@.len() && mentions(way.last().words@[w]@, "CreateAccount"@)) || (way.last().kind is Macro && mentions(outside_literals(way.last().text@), "CreateAccount"@)),
        called_names(f).contains("invoke"@) || called_names(f).contains("invoke_signed"@) || mentions(body.text@, "CpiContext"@),
    ensures
        speaks_of(MissingRentExemptDetector.reports_on(ctx), f),
{
    let list = nodes(ctx.ast);
    assert forall|name: Seq<char>| !#[trigger] rents(list, name) by {
        assert forall|k: int| 0 <= k < list.len() implies !rent_fn(#[trigger] list[k], name) by {}
    }
    assert(!caller_rents(list, f.name@));
    assert(!callee_rents(list, called_names(f)));
    assert(!carries_any(f, TEST_MARKS@));
    let n = way.last();
    if n.kind is Path {
        let q = |v: Seq<char>| mentions(v, "CreateAccount"@);
        assert(q(texts(n.words@)[w]));
    }
    law_led_to_is_met(way, outside_patterns());
    let met = walk(body, outside_patterns());
    let u = |m: Node| names_creation(m);
    assert(u(met[met.index_of(n)]));
    let called = called_names(f);
    let p = |c: Seq<char>| is_any(c, INVOKE_CALLS@);
    if called.contains("invoke"@) {
        assert(p(called[called.index_of("invoke"@)]));
    } else if called.contains("invoke_signed"@) {
        assert(p(called[called.index_of("invoke_signed"@)]));
    }
    assert(creates(f));
    lemma_reported(ctx, path, f);
}

/// What is reported creates an account by a call, or invokes or builds a context, and
/// says nothing of rent.
pub proof fn law_reported_creation_is_unfunded(ctx: ScanContext, f: Node)
    requires
        report_on(ctx, f) is Some,
    ensures
        f.kind is Function,
        !begins(f.name@, "test_"@),
        !mentions(f.name@, "_test"@),
        !mentions_any(f.body_text(), seq!["Rent", "rent", "minimum_balance", "exempt", "init"]),
        called_names(f).contains("create_account"@) || called_names(f).contains("create_account_with_seed"@) || called_names(f).contains("invoke"@) || called_names(f).contains("invoke_signed"@) || mentions(f.body_text(), "CpiContext"@),
{
    let called = called_names(f);
    let p = |c: Seq<char>| is_any(c, CREATE_CALLS@);
    let q = |c: Seq<char>| is_any(c, INVOKE_CALLS@);
    if some_text(called, p) {
        let k = choose|k: int| 0 <= k < called.len() && #[trigger] p(called[k]);
        assert(called.contains(called[k]));
    } else if some_text(called, q) {
        let k = choose|k: int| 0 <= k < called.len() && #[trigger] q(called[k]);
        assert(called.contains(called[k]));
    }
}

/// A function is not reported if one that it calls computes the rent.
pub proof fn law_callee_may_compute_the_rent(ctx: ScanContext, f: Node, helper: Node)
    requires
        nodes(ctx.ast).contains(helper),
        helper.kind is Function,
        called_names(f).contains(helper.name@),
        marked(outside_literals(helper.body_text()), "minimum_balance"@, '('),
    ensures
        report_on(ctx, f) is None,
{
    let list = nodes(ctx.ast);
    let p = |n: Node| rent_fn(n, helper.name@);
    assert(p(list[list.index_of(helper)]));
    let called = called_names(f);
    let q = |c: Seq<char>| rents(list, c);
    assert(q(called[called.index_of(helper.name@)]));
}

/// A function with the attribute of a test, of whichever framework, is not reported.
pub proof fn law_marked_test_is_silent(ctx: ScanContext, f: Node, k: int)
    requires
        0 <= k < f.parts(Role::Attribute).len(),
        is_any(f.parts(Role::Attribute)[k].name@, seq!["test", "tokio::test", "ink::test", "async_std::test"]),
    ensures
        report_on(ctx, f) is None,
{
    let p = |a: Node| is_any(a.name@, TEST_MARKS@);
    assert(p(f.parts(Role::Attribute)[k]));
}

/// The function that computes the rent is the one that is asked for.
pub proof fn law_rent_is_computed_by_name(n: Node, name: Seq<char>)
    requires
        rent_fn(n, name),
    ensures
        n.kind is Function,
        n.name@ == name,
{
}

/// Patterns are not looked into.
pub proof fn law_patterns_are_apart(n: Node)
    requires
        n.kind is Pat || n.kind is PatTupleStruct,
    ensures
        walk(n, outside_patterns()) == seq![n],
{
}

/// A function is looked into, unless its name is that of a test.
pub proof fn law_functions_are_entered(f: Node)
    requires
        f.kind is Function,
    ensures
        walk(f, outside_tests()) == (if begins(f.name@, "test_"@) || mentions(f.name@, "_test"@) { seq![f] } else { seq![f] + walk_all(f.children@, outside_tests()) }),
{
}

} // verus!
