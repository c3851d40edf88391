//! Promise callbacks that anybody can call.
use vstd::prelude::*;
use crate::attributes::{carries, carries_any, has_any_attribute, has_attribute, is_cfg_test};
use crate::calls::{
    callee_name, calls, get_callee_name, get_macro_name, get_path_call, is_self_comparison,
    macro_name, own, path_call, self_comparison,
};
use crate::cfg::test_builds_only;
use crate::context::ScanContext;
use crate::detector::{Detector, Profile, raise, raised, RuleInfo, stamped};
use crate::finding::{Chain, Confidence, Finding, Report, Severity};
use crate::flow::{does_stop, law_exit_statement_stops, LAZY_OPERATORS, stands_in, stops};
use crate::markers::NEAR_MARKERS;
use crate::patterns::{get_let_name, let_name};
use crate::quotes::{blank_literals, outside_literals};
use crate::syntax::{Kind, lemma_part_smaller, Node, Role};
use crate::text::{
    any_text, begins, contains, contains_any, ends, ends_with, is_any, join3, listed, mentions,
    mentions_any, same, same_as_any, some_text, starts_with, texts, words, words_of,
};
use crate::walk::{
    any_node, collect_findings, collect_names, leads, lemma_name_is_listed, lemma_named_by,
    lemma_reports_from, lemma_sealed, lemma_spoken_of, names_of, nodes, nodes_in, opt_report,
    opt_text, reports_of, some, speaks_of, walk, walk_nodes,
};

verus! {

/// Reports public callback methods of a contract that carry no `#[private]` and
/// do not check by hand that the contract calls itself.
pub struct MissingPrivateDetector;

/// The rule's description of itself.
pub open spec fn profile() -> Profile {
    Profile {
        id: "NEAR-006"@,
        name: "missing-private-callback"@,
        description: "Detects public callback methods (on_* / *_callback) without #[private] attribute"@,
        severity: Severity::Critical,
        confidence: Confidence::High,
        chain: Chain::Near,
    }
}

/// The rule's description of itself.
fn info() -> (r: RuleInfo)
    ensures
        r@ == profile(),
{
    RuleInfo {
        id: "NEAR-006",
        name: "missing-private-callback",
        description: "Detects public callback methods (on_* / *_callback) without #[private] attribute",
        severity: Severity::Critical,
        confidence: Confidence::High,
        chain: Chain::Near,
    }
}

/// The attributes that make an `impl` block a contract.
pub const CONTRACT_ATTRIBUTES: [&'static str; 2] = ["near_bindgen", "near"];

/// Words of a body that reads promise results.
pub const PROMISE_READS: [&'static str; 3] = [
    "promise_result",
    "promise_results_count",
    "PromiseResult",
];

/// The attributes of a parameter that holds a promise result.
pub const CALLBACK_ATTRIBUTES: [&'static str; 2] = ["callback_unwrap", "callback_result"];

/// Functions that do not return.
pub const DIVERGING_CALLS: [&'static str; 2] = ["panic_str", "abort"];

/// Macros that do not return.
pub const DIVERGING_MACROS: [&'static str; 3] = ["panic", "unreachable", "env_panic"];

/// Macros whose first argument must hold.
pub const CONDITION_MACROS: [&'static str; 3] = ["require", "assert", "debug_assert"];

/// Macros whose first two arguments must be equal.
pub const EQUALITY_MACROS: [&'static str; 2] = ["assert_eq", "debug_assert_eq"];

/// The comparison operators of a self-call check.
pub const COMPARISONS: [&'static str; 2] = ["==", "!="];

/// The `impl` block is a contract: its methods are entry points.
pub open spec fn contract(n: Node) -> bool {
    some(
        n.parts(Role::Attribute),
        |a: Node| a.last_word() matches Some(w) && is_any(w, CONTRACT_ATTRIBUTES@),
    )
}

/// A parameter that holds a promise result.
pub open spec fn callback_param(p: Node) -> bool {
    p.kind is Param && carries_any(p, CALLBACK_ATTRIBUTES@)
}

/// The method reads a promise result.
pub open spec fn callback_evidence(m: Node) -> bool {
    mentions_any(m.body_text(), PROMISE_READS@) || some(
        m.parts(Role::Param),
        |p: Node| callback_param(p),
    )
}

/// The node compares the caller with the contract itself.
pub open spec fn compares_self(n: Node) -> bool {
    match (n.part(Role::Left), n.part(Role::Right)) {
        (Some(left), Some(right)) => n.kind is Binary && is_any(n.name@, COMPARISONS@)
            && self_comparison(left, right),
        _ => false,
    }
}

/// Something in the expression compares the caller with the contract itself.
pub open spec fn holds_self_comparison(expr: Node) -> bool {
    some(nodes(expr), |n: Node| compares_self(n))
}

/// The node leaves the function.
pub open spec fn leaves(n: Node) -> bool {
    ||| n.kind is Return
    ||| path_call(n) matches Some(name) && is_any(name, DIVERGING_CALLS@)
    ||| macro_name(n) matches Some(name) && is_any(name, DIVERGING_MACROS@)
}

/// Control does not get past the block: it leaves the function in any case.
pub open spec fn diverges(block: Node) -> bool {
    stops(block, |n: Node| leaves(n))
}

/// The value of the expression is that of a self-call comparison, or put together
/// from one by the logical operators.
pub open spec fn direct_comparison(e: Node) -> bool
    decreases e,
{
    proof {
        lemma_part_smaller(e, Role::Operand);
        lemma_part_smaller(e, Role::Left);
        lemma_part_smaller(e, Role::Right);
    }
    ||| compares_self(e)
    ||| match e.kind {
        Kind::Paren | Kind::Group | Kind::Unary => match e.part(Role::Operand) {
            Some(inner) => direct_comparison(inner),
            None => false,
        },
        Kind::Binary => is_any(e.name@, LAZY_OPERATORS@) && {
            ||| match e.part(Role::Left) {
                Some(inner) => direct_comparison(inner),
                None => false,
            }
            ||| match e.part(Role::Right) {
                Some(inner) => direct_comparison(inner),
                None => false,
            }
        },
        _ => false,
    }
}

/// The name that a `let` binds to a self-call comparison.
#[verifier::opaque]
pub open spec fn self_flag(n: Node) -> Option<Seq<char>> {
    match n.part(Role::Init) {
        Some(init) => if n.kind is Local && direct_comparison(init) { let_name(n) } else { None },
        None => None,
    }
}

/// The expression tests the caller: it compares, or it mentions one of `flags`.
pub open spec fn self_condition(expr: Node, flags: Seq<Seq<char>>) -> bool {
    holds_self_comparison(expr) || some_text(
        flags,
        |f: Seq<char>| words(outside_literals(expr.text@)).contains(f),
    )
}

/// The macro call demands that the caller is the contract itself.
pub open spec fn macro_guard(n: Node, flags: Seq<Seq<char>>) -> bool {
    match (macro_name(n), n.args) {
        (Some(name), Some(args)) => {
            ||| is_any(name, CONDITION_MACROS@) && args@.len() > 0 && self_condition(args@[0], flags)
            ||| is_any(name, EQUALITY_MACROS@) && args@.len() >= 2 && self_comparison(
                args@[0],
                args@[1],
            )
        },
        _ => false,
    }
}

/// The block behind `else`, where there is one.
pub open spec fn else_block(n: Node) -> Option<Node> {
    match n.part(Role::Else) {
        Some(e) => if e.kind is BlockExpr { e.part(Role::Body) } else { None },
        None => None,
    }
}

/// The `if` tests the caller, and one of its branches leaves the function.
pub open spec fn if_guard(n: Node, flags: Seq<Seq<char>>) -> bool {
    &&& n.kind is If
    &&& n.part(Role::Condition) matches Some(cond) && self_condition(cond, flags)
    &&& {
        ||| n.part(Role::Then) matches Some(block) && diverges(block)
        ||| else_block(n) matches Some(block) && diverges(block)
    }
}

/// The call reaches a function that demands that the caller is the contract.
pub open spec fn call_guard(n: Node, helpers: Seq<Seq<char>>) -> bool {
    callee_name(n) matches Some(name) && (helpers.contains(name) || name == "assert_self"@)
}

/// The node demands that the caller is the contract itself, where `flags` are
/// bound to a self-call comparison.
#[verifier::opaque]
pub open spec fn guards(n: Node, flags: Seq<Seq<char>>, helpers: Seq<Seq<char>>) -> bool {
    macro_guard(n, flags) || if_guard(n, flags) || call_guard(n, helpers)
}

/// The names bound to a self-call comparison by the first `i` nodes of `list`.
pub open spec fn flags_before(list: Seq<Node>, i: int) -> Seq<Seq<char>> {
    names_of(list.take(i), |n: Node| self_flag(n))
}

/// Some node of `list` demands that the caller is the contract itself, where a
/// comparison bound to a name counts from there on.
pub open spec fn guarded_among(list: Seq<Node>, helpers: Seq<Seq<char>>) -> bool {
    exists|i: int|
        0 <= i < list.len() && guards(#[trigger] list[i], flags_before(list, i), helpers)
}

/// Some node of the block demands that the caller is the contract itself.
pub open spec fn self_guarded(block: Node, helpers: Seq<Seq<char>>) -> bool {
    guarded_among(nodes(block), helpers)
}

/// The name of a function whose body demands, by itself, that the caller is the
/// contract.
pub open spec fn guard_helper(n: Node) -> Option<Seq<char>> {
    match n.part(Role::Body) {
        Some(body) => if (n.kind is Function || n.kind is Method) && self_guarded(
            body,
            Seq::empty(),
        ) {
            Some(n.name@)
        } else {
            None
        },
        None => None,
    }
}

/// The names of the functions of a file that demand that the caller is the
/// contract itself.
pub open spec fn guard_helpers(file: Node) -> Seq<Seq<char>> {
    names_of(nodes(file), |n: Node| guard_helper(n))
}

/// The method is a promise callback: its name says so, or hints at it and the
/// method reads a promise result.
pub open spec fn callback(m: Node) -> bool {
    ||| begins(m.name@, "on_"@)
    ||| ends(m.name@, "_callback"@)
    ||| (begins(m.name@, "handle_"@) || mentions(m.name@, "callback"@)) && callback_evidence(m)
}

/// A callback that anybody can call.
pub open spec fn exposed(m: Node, helpers: Seq<Seq<char>>) -> bool {
    &&& m.kind == (Kind::Method { public: true })
    &&& callback(m)
    &&& !carries(m, "private"@)
    &&& m.part(Role::Body) matches Some(body) ==> !self_guarded(body, helpers)
}

/// The report on a method, if there is one, where `helpers` are taken for the
/// functions that demand that the caller is the contract itself.
pub open spec fn report_among(ctx: ScanContext, helpers: Seq<Seq<char>>, m: Node) -> Option<Report> {
    if exposed(m, helpers) {
        Some(
            raised(
                profile(),
                ctx,
                Confidence::High,
                m.line,
                m.column,
                "Callback method '"@ + m.name@ + "' is public without #[private] attribute"@,
                "Add #[private] attribute to ensure only the contract itself can call this callback"@,
            ),
        )
    } else {
        None
    }
}

/// The report on a method, if there is one.
pub open spec fn report_on(ctx: ScanContext, m: Node) -> Option<Report> {
    report_among(ctx, guard_helpers(ctx.ast), m)
}

/// Go below contracts only, and not below test modules or methods.
pub open spec fn entry_points() -> spec_fn(Node) -> bool {
    |n: Node|
        !(n.kind is Module && test_builds_only(n)) && !(n.kind is Impl && !contract(n)) && !(
        n.kind is Method)
}

/// Whether the `impl` block is a contract.
pub fn impl_is_contract(n: &Node) -> (b: bool)
    ensures
        b == contract(*n),
{
    let list = n.get_parts(Role::Attribute);
    any_node(
        &list,
        |a: &Node| -> (r: bool)
            ensures
                r == (a.last_word() matches Some(w) && is_any(w, CONTRACT_ATTRIBUTES@))
        {
            match a.get_last_word() {
                Some(w) => same_as_any(w, CONTRACT_ATTRIBUTES.as_slice()),
                None => false,
            }
        },
        Ghost(|a: Node| a.last_word() matches Some(w) && is_any(w, CONTRACT_ATTRIBUTES@)),
    )
}

/// Whether the method reads a promise result.
pub fn has_callback_evidence(m: &Node) -> (b: bool)
    ensures
        b == callback_evidence(*m),
{
    let params = m.get_parts(Role::Param);
    contains_any(m.get_body_text(), PROMISE_READS.as_slice()) || any_node(
        &params,
        |p: &Node| -> (r: bool)
            ensures
                r == callback_param(*p)
        { matches!(p.kind, Kind::Param) && has_any_attribute(p, CALLBACK_ATTRIBUTES.as_slice()) },
        Ghost(|p: Node| callback_param(p)),
    )
}

/// Whether something in the expression compares the caller with the contract.
pub fn contains_self_comparison(expr: &Node) -> (b: bool)
    ensures
        b == holds_self_comparison(*expr),
{
    let list = nodes_in(expr);
    any_node(
        &list,
        |n: &Node| -> (r: bool)
            ensures
                r == compares_self(*n)
        { is_comparison(n) },
        Ghost(|n: Node| compares_self(n)),
    )
}

/// Whether control does not get past the block.
pub fn block_diverges(block: &Node) -> (b: bool)
    ensures
        b == diverges(*block),
{
    does_stop(
        block,
        &|n: &Node| -> (r: bool)
            ensures
                r == leaves(*n)
        {
            matches!(n.kind, Kind::Return) || match get_path_call(n) {
                Some(name) => same_as_any(name, DIVERGING_CALLS.as_slice()),
                None => false,
            } || match get_macro_name(n) {
                Some(name) => same_as_any(name, DIVERGING_MACROS.as_slice()),
                None => false,
            }
        },
        Ghost(|n: Node| leaves(n)),
    )
}

/// Whether the node compares the caller with the contract itself.
fn is_comparison(n: &Node) -> (b: bool)
    ensures
        b == compares_self(*n),
{
    match (n.get_part(Role::Left), n.get_part(Role::Right)) {
        (Some(left), Some(right)) => matches!(n.kind, Kind::Binary) && same_as_any(
            n.name.as_str(),
            COMPARISONS.as_slice(),
        ) && is_self_comparison(left, right),
        _ => false,
    }
}

/// Whether the value of the expression is that of a self-call comparison.
fn is_direct_comparison(e: &Node) -> (b: bool)
    ensures
        b == direct_comparison(*e),
    decreases e,
{
    proof {
        lemma_part_smaller(*e, Role::Operand);
        lemma_part_smaller(*e, Role::Left);
        lemma_part_smaller(*e, Role::Right);
    }
    if is_comparison(e) {
        return true;
    }
    match e.kind {
        Kind::Paren | Kind::Group | Kind::Unary => match e.get_part(Role::Operand) {
            Some(inner) => is_direct_comparison(inner),
            None => false,
        },
        Kind::Binary => same_as_any(e.name.as_str(), LAZY_OPERATORS.as_slice()) && ((
        match e.get_part(Role::Left) {
            Some(inner) => is_direct_comparison(inner),
            None => false,
        }) || (match e.get_part(Role::Right) {
            Some(inner) => is_direct_comparison(inner),
            None => false,
        })),
        _ => false,
    }
}

/// The name that a `let` binds to a self-call comparison.
fn get_self_flag(n: &Node) -> (r: Option<String>)
    ensures
        opt_text(r) == self_flag(*n),
{
    reveal(self_flag);
    match n.get_part(Role::Init) {
        Some(init) => if matches!(n.kind, Kind::Local) && is_direct_comparison(init) {
            own(get_let_name(n))
        } else {
            None
        },
        None => None,
    }
}

/// Whether the expression tests the caller.
fn is_self_condition(expr: &Node, flags: &Vec<String>) -> (b: bool)
    ensures
        b == self_condition(*expr, texts(flags@)),
{
    if contains_self_comparison(expr) {
        return true;
    }
    let spelled = words_of(blank_literals(expr.text.as_str()).as_str());
    any_text(
        flags,
        |f: &str| -> (r: bool)
            ensures
                r == words(outside_literals(expr.text@)).contains(f@)
        { listed(&spelled, f) },
        Ghost(|f: Seq<char>| words(outside_literals(expr.text@)).contains(f)),
    )
}

/// Whether the node demands that the caller is the contract itself.
fn is_guard(n: &Node, flags: &Vec<String>, helpers: &Vec<String>) -> (b: bool)
    ensures
        b == guards(*n, texts(flags@), texts(helpers@)),
{
    reveal(guards);
    let by_macro = match (get_macro_name(n), &n.args) {
        (Some(name), Some(args)) => (same_as_any(name, CONDITION_MACROS.as_slice()) && args.len()
            > 0 && is_self_condition(&args[0], flags)) || (same_as_any(
            name,
            EQUALITY_MACROS.as_slice(),
        ) && args.len() >= 2 && is_self_comparison(&args[0], &args[1])),
        _ => false,
    };
    let by_if = matches!(n.kind, Kind::If) && match n.get_part(Role::Condition) {
        Some(cond) => is_self_condition(cond, flags),
        None => false,
    } && (match n.get_part(Role::Then) {
        Some(block) => block_diverges(block),
        None => false,
    } || match n.get_part(Role::Else) {
        Some(e) => matches!(e.kind, Kind::BlockExpr) && match e.get_part(Role::Body) {
            Some(block) => block_diverges(block),
            None => false,
        },
        None => false,
    });
    let by_call = match get_callee_name(n) {
        Some(name) => listed(helpers, name) || same(name, "assert_self"),
        None => false,
    };
    by_macro || by_if || by_call
}

/// Whether some node of `list` demands that the caller is the contract itself.
#[verifier::spinoff_prover]
fn any_guard(list: &Vec<&Node>, helpers: &Vec<String>) -> (b: bool)
    ensures
        b == guarded_among(list@.unref(), texts(helpers@)),
{
    let ghost all = list@.unref();
    let ghost known = texts(helpers@);
    let mut flags: Vec<String> = Vec::new();
    let mut i: usize = 0;
    assert(texts(flags@) =~= flags_before(all, 0));
    while i < list.len()
        invariant
            i <= list@.len(),
            all == list@.unref(),
            known == texts(helpers@),
            texts(flags@) == flags_before(all, i as int),
            forall|j: int| 0 <= j < i ==> !guards(#[trigger] all[j], flags_before(all, j), known),
        decreases list@.len() - i,
    {
        assert(all[i as int] == *list@[i as int]);
        if is_guard(list[i], &flags, helpers) {
            return true;
        }
        let ghost before = texts(flags@);
        let flag = get_self_flag(list[i]);
        proof {
            lemma_flags_step(all, i as int);
        }
        if let Some(flag) = flag {
            flags.push(flag);
            assert(texts(flags@) =~= before.push(flag@));
        }
        i = i + 1;
    }
    false
}

/// One node further, the names bound to a comparison are those before it and the
/// one that it binds.
proof fn lemma_flags_step(list: Seq<Node>, i: int)
    requires
        0 <= i < list.len(),
    ensures
        flags_before(list, i + 1) == match self_flag(list[i]) {
            Some(flag) => flags_before(list, i).push(flag),
            None => flags_before(list, i),
        },
{
    assert(list.take(i + 1).drop_last() =~= list.take(i));
    assert(list.take(i + 1).last() == list[i]);
}

/// Whether some node of the block demands that the caller is the contract itself.
pub fn has_manual_self_guard(block: &Node, guard_helpers: &Vec<String>) -> (b: bool)
    ensures
        b == self_guarded(*block, texts(guard_helpers@)),
{
    any_guard(&nodes_in(block), guard_helpers)
}

/// The names of the functions of a file that demand that the caller is the
/// contract itself.
pub fn collect_guard_helpers(file: &Node) -> (r: Vec<String>)
    ensures
        texts(r@) == guard_helpers(*file),
{
    let list = nodes_in(file);
    let none: Vec<String> = Vec::new();
    assert(texts(none@) =~= Seq::<Seq<char>>::empty());
    collect_names(
        &list,
        |n: &Node| -> (s: Option<String>)
            ensures
                opt_text(s) == guard_helper(*n)
        {
            match n.get_part(Role::Body) {
                Some(body) => if matches!(n.kind, Kind::Function | Kind::Method { .. })
                    && has_manual_self_guard(body, &none) {
                    Some(n.name.clone())
                } else {
                    None
                },
                None => None,
            }
        },
        Ghost(|n: Node| guard_helper(n)),
    )
}

/// Whether the method is a promise callback.
fn is_callback(m: &Node) -> (b: bool)
    ensures
        b == callback(*m),
{
    let name = m.name.as_str();
    starts_with(name, "on_") || ends_with(name, "_callback") || ((starts_with(name, "handle_")
        || contains(name, "callback")) && has_callback_evidence(m))
}

impl MissingPrivateDetector {
    /// The finding on a method, if there is one, where `helpers` are the functions
    /// of the file that demand that the caller is the contract itself.
    pub fn check(&self, ctx: &ScanContext, m: &Node, helpers: &Vec<String>) -> (r: Option<Finding>)
        ensures
            opt_report(r) == report_among(*ctx, texts(helpers@), *m),
    {
        match m.kind {
            Kind::Method { public: true } => {},
            _ => {
                return None;
            },
        }
        if !is_callback(m) || has_attribute(m, "private") {
            return None;
        }
        if let Some(body) = m.get_part(Role::Body) {
            if has_manual_self_guard(body, helpers) {
                return None;
            }
        }
        let text = join3(
            "Callback method '",
            m.name.as_str(),
            "' is public without #[private] attribute",
        );
        Some(
            raise(
                &info(),
                ctx,
                Confidence::High,
                m.line,
                m.column,
                text,
                "Add #[private] attribute to ensure only the contract itself can call this callback",
            ),
        )
    }
}

impl Detector for MissingPrivateDetector {
    open spec fn profile(&self) -> Profile {
        profile()
    }

    open spec fn reports_on(&self, ctx: ScanContext) -> Seq<Report> {
        if !mentions_any(ctx.source@, NEAR_MARKERS@) {
            Seq::empty()
        } else {
            reports_of(walk(ctx.ast, entry_points()), |f: Node| report_on(ctx, f))
        }
    }

    fn id(&self) -> (r: &'static str) {
        info().id
    }

    fn name(&self) -> (r: &'static str) {
        info().name
    }

    fn description(&self) -> (r: &'static str) {
        info().description
    }

    fn severity(&self) -> (r: Severity) {
        info().severity
    }

    fn confidence(&self) -> (r: Confidence) {
        info().confidence
    }

    fn chain(&self) -> (r: Chain) {
        info().chain
    }

    fn detect(&self, ctx: &ScanContext) -> (r: Vec<Finding>) {
        if !contains_any(ctx.source.as_str(), NEAR_MARKERS.as_slice()) {
            return Vec::new();
        }
        let helpers = collect_guard_helpers(&ctx.ast);
        let list = walk_nodes(
            &ctx.ast,
            |n: &Node| -> (b: bool)
                ensures
                    b == entry_points()(*n)
            {
                !(matches!(n.kind, Kind::Module) && is_cfg_test(n))
                    && !(matches!(n.kind, Kind::Impl) && !impl_is_contract(n)) && !matches!(n.kind, Kind::Method { .. })
            },
            Ghost(entry_points()),
        );
        collect_findings(
            &list,
            |f: &Node| -> (s: Option<Finding>)
                ensures
                    opt_report(s) == report_on(*ctx, *f)
            { self.check(ctx, f, &helpers) },
            Ghost(|f: Node| report_on(*ctx, f)),
        )
    }

    proof fn law_findings_are_stamped(&self, ctx: ScanContext) {
        assert forall|i: int| 0 <= i < self.reports_on(ctx).len() implies stamped(
            #[trigger] self.reports_on(ctx)[i],
            self.profile(),
            ctx,
        ) by {
            lemma_reports_from(walk(ctx.ast, entry_points()), |f: Node| report_on(ctx, f), i);
        }
    }
}

/// Every finding has the confidence that the rule states of itself.
pub proof fn law_confidence_is_the_rules_own(ctx: ScanContext)
    ensures
        forall|i: int|
            0 <= i < MissingPrivateDetector.reports_on(ctx).len() ==> (
            #[trigger] MissingPrivateDetector.reports_on(ctx)[i]).confidence == profile().confidence,
{
    assert forall|i: int| 0 <= i < MissingPrivateDetector.reports_on(ctx).len() implies (
        #[trigger] MissingPrivateDetector.reports_on(ctx)[i]).confidence == profile().confidence by {
        lemma_reports_from(walk(ctx.ast, entry_points()), |f: Node| report_on(ctx, f), i);
    }
}

/// Nothing is reported on a file that shows no mark of a NEAR contract.
pub proof fn law_out_of_scope_is_silent(ctx: ScanContext)
    requires
        !mentions_any(ctx.source@, NEAR_MARKERS@),
    ensures
        MissingPrivateDetector.reports_on(ctx).len() == 0,
{
}

/// A test module contributes no report, whatever it holds.
pub proof fn law_test_module_is_silent(ctx: ScanContext, m: Node)
    requires
        m.kind is Module,
        test_builds_only(m),
    ensures
        reports_of(walk(m, entry_points()), |f: Node| report_on(ctx, f)) == Seq::<Report>::empty(),
{
    lemma_sealed(m, entry_points(), |f: Node| report_on(ctx, f));
}

/// A public method of a contract is reported, if its name begins with `on_`, ends with
/// `_callback`, or speaks of a callback while the body reads a promise result, unless
/// it is private, tests something, or calls a function of the file or `assert_self`.
pub proof fn law_open_callback_is_reported(ctx: ScanContext, path: Seq<Node>, m: Node, body: Node, q: int)
    requires
        mentions_any(ctx.source@, seq!["near_sdk", "near_contract_standards", "#[near_bindgen]", "#[near(", "env::predecessor_account_id", "env::signer_account_id", "Promise::new"]),
        leads(path),
        path[0] == ctx.ast,
        path.last() == m,
        forall|i: int|
            0 <= i < path.len() - 1 ==> !((#[trigger] path[i]).kind is Method) && !(path[i].kind is Module) && (path[i].kind is Impl ==> exists|a: int| 0 <= a < path[i].parts(Role::Attribute).len() && ((#[trigger] path[i].parts(Role::Attribute)[a]).last_word() == Some("near_bindgen"@) || path[i].parts(Role::Attribute)[a].last_word() == Some("near"@))),
        m.kind == (Kind::Method { public: true }),
        !carries(m, "private"@),
        begins(m.name@, "on_"@) || ends(m.name@, "_callback"@) || ((begins(m.name@, "handle_"@) || mentions(m.name@, "callback"@)) && (mentions_any(body.text@, seq!["promise_result", "promise_results_count", "PromiseResult"]) || (0 <= q < m.parts(Role::Param).len() && m.parts(Role::Param)[q].kind is Param && (carries(m.parts(Role::Param)[q], "callback_unwrap"@) || carries(m.parts(Role::Param)[q], "callback_result"@))))),
        m.part(Role::Body) == Some(body),
        forall|k: int| 0 <= k < nodes(body).len() ==> !((#[trigger] nodes(body)[k]).kind is Macro) && !(nodes(body)[k].kind is If) && callee_name(nodes(body)[k]) != Some("assert_self"@),
        forall|k: int, j: int|
            0 <= k < nodes(body).len() && 0 <= j < nodes(ctx.ast).len() && (nodes(ctx.ast)[j].kind is Function || nodes(ctx.ast)[j].kind is Method) ==> callee_name(#[trigger] nodes(body)[k]) != Some((#[trigger] nodes(ctx.ast)[j]).name@),
    ensures
        speaks_of(MissingPrivateDetector.reports_on(ctx), m),
{
    reveal(guards);
    let helpers = guard_helpers(ctx.ast);
    let list = nodes(body);
    assert forall|i: int| 0 <= i < list.len() implies !guards(#[trigger] list[i], flags_before(list, i), helpers) by {
        if call_guard(list[i], helpers) {
            let name = callee_name(list[i])->0;
            let g = |n: Node| guard_helper(n);
            let j = lemma_named_by(nodes(ctx.ast), g, name);
            assert(g(nodes(ctx.ast)[j]) == Some(name));
        }
    }
    assert(!self_guarded(body, helpers));
    if 0 <= q < m.parts(Role::Param).len() {
        let p = m.parts(Role::Param)[q];
        let marks = p.parts(Role::Attribute);
        let any = |a: Node| is_any(a.name@, CALLBACK_ATTRIBUTES@);
        if carries(p, "callback_unwrap"@) {
            let one = |a: Node| a.name@ == "callback_unwrap"@;
            let k = choose|k: int| 0 <= k < marks.len() && #[trigger] one(marks[k]);
            assert(any(marks[k]));
        }
        if carries(p, "callback_result"@) {
            let one = |a: Node| a.name@ == "callback_result"@;
            let k = choose|k: int| 0 <= k < marks.len() && #[trigger] one(marks[k]);
            assert(any(marks[k]));
        }
        let held = |k: Node| callback_param(k);
        assert(held(m.parts(Role::Param)[q]) == callback_param(p));
    }
    assert(callback(m));
    assert forall|i: int| 0 <= i < path.len() - 1 implies entry_points()(#[trigger] path[i]) by {
        if path[i].kind is Impl {
            let marks = path[i].parts(Role::Attribute);
            let a = choose|a: int| 0 <= a < marks.len() && ((#[trigger] marks[a]).last_word() == Some("near_bindgen"@) || marks[a].last_word() == Some("near"@));
            let p = |a: Node| a.last_word() matches Some(w) && is_any(w, CONTRACT_ATTRIBUTES@);
            assert(p(marks[a]));
        }
    }
    lemma_spoken_of(path, entry_points(), |n: Node| report_on(ctx, n), "Callback method '"@, "' is public without #[private] attribute"@);
}

/// What is reported is public, is not private in the sense of the contract, and has the
/// name of a callback.
pub proof fn law_reported_callback_is_open(ctx: ScanContext, m: Node)
    requires
        report_on(ctx, m) is Some,
    ensures
        m.kind == (Kind::Method { public: true }),
        !carries(m, "private"@),
        begins(m.name@, "on_"@) || ends(m.name@, "_callback"@) || begins(m.name@, "handle_"@) || mentions(m.name@, "callback"@),
{
}

/// A method that demands, in `require!` or `assert!`, that the caller is the contract
/// itself is not reported.
pub proof fn law_demanding_the_contract_is_enough(ctx: ScanContext, m: Node, body: Node, n: Node, args: Vec<Node>, left: Node, right: Node)
    requires
        m.part(Role::Body) == Some(body),
        nodes(body).contains(n),
        n.kind is Macro,
        n.last_word() == Some("require"@) || n.last_word() == Some("assert"@) || n.last_word() == Some("debug_assert"@),
        n.args == Some(args),
        args@.len() > 0,
        args@[0].kind is Binary,
        args@[0].name@ == "=="@ || args@[0].name@ == "!="@,
        args@[0].part(Role::Left) == Some(left),
        args@[0].part(Role::Right) == Some(right),
        (calls(left, "predecessor_account_id"@) && calls(right, "current_account_id"@)) || (calls(left, "current_account_id"@) && calls(right, "predecessor_account_id"@)),
    ensures
        report_on(ctx, m) is None,
{
    reveal(guards);
    let list = nodes(body);
    let i = list.index_of(n);
    let p = |q: Node| compares_self(q);
    assert(nodes(args@[0])[0] == args@[0]);
    assert(p(nodes(args@[0])[0]));
    assert(guards(list[i], flags_before(list, i), guard_helpers(ctx.ast)));
}

/// A method that calls `assert_self` is not reported.
pub proof fn law_assert_self_is_enough(ctx: ScanContext, m: Node, body: Node, n: Node)
    requires
        m.part(Role::Body) == Some(body),
        nodes(body).contains(n),
        callee_name(n) == Some("assert_self"@),
    ensures
        report_on(ctx, m) is None,
{
    reveal(guards);
    let list = nodes(body);
    let i = list.index_of(n);
    assert(guards(list[i], flags_before(list, i), guard_helpers(ctx.ast)));
}

/// A method that compares the caller with the contract and leaves, by a return, a panic
/// or an abort, in either branch, is not reported.
pub proof fn law_leaving_is_enough(ctx: ScanContext, m: Node, body: Node, n: Node, cond: Node, left: Node, right: Node, block: Node, stmt: Node, leaf: Node)
    requires
        m.part(Role::Body) == Some(body),
        nodes(body).contains(n),
        n.kind is If,
        n.part(Role::Condition) == Some(cond),
        cond.kind is Binary,
        cond.name@ == "=="@ || cond.name@ == "!="@,
        cond.part(Role::Left) == Some(left),
        cond.part(Role::Right) == Some(right),
        (calls(left, "predecessor_account_id"@) && calls(right, "current_account_id"@)) || (calls(left, "current_account_id"@) && calls(right, "predecessor_account_id"@)),
        n.part(Role::Then) == Some(block) || (n.part(Role::Else) matches Some(e) && e.kind is BlockExpr && e.part(Role::Body) == Some(block)),
        stands_in(block, stmt, leaf),
        leaf.kind is Return || (leaf.kind is Macro && (leaf.last_word() matches Some(w) && is_any(w, seq!["panic", "unreachable", "env_panic"]))) || (path_call(leaf) matches Some(w) && is_any(w, seq!["panic_str", "abort"])),
    ensures
        report_on(ctx, m) is None,
{
    reveal(guards);
    let list = nodes(body);
    let i = list.index_of(n);
    law_exit_statement_stops(block, stmt, leaf, |k: Node| leaves(k));
    let p = |q: Node| compares_self(q);
    assert(nodes(cond)[0] == cond);
    assert(p(nodes(cond)[0]));
    assert(guards(list[i], flags_before(list, i), guard_helpers(ctx.ast)));
}

/// A method that asserts the caller and the contract to be equal is not reported.
pub proof fn law_asserting_equality_is_enough(ctx: ScanContext, m: Node, body: Node, n: Node, args: Vec<Node>)
    requires
        m.part(Role::Body) == Some(body),
        nodes(body).contains(n),
        n.kind is Macro,
        n.last_word() == Some("assert_eq"@) || n.last_word() == Some("debug_assert_eq"@),
        n.args == Some(args),
        args@.len() >= 2,
        (calls(args@[0], "predecessor_account_id"@) && calls(args@[1], "current_account_id"@)) || (calls(args@[0], "current_account_id"@) && calls(args@[1], "predecessor_account_id"@)),
    ensures
        report_on(ctx, m) is None,
{
    reveal(guards);
    let list = nodes(body);
    let i = list.index_of(n);
    
    assert(guards(list[i], flags_before(list, i), guard_helpers(ctx.ast)));
}

/// A method that calls a function of the file which demands, in an assertion, that the
/// caller is the contract is not reported.
pub proof fn law_helper_may_demand_the_contract(ctx: ScanContext, m: Node, body: Node, n: Node, h: Node, inner: Node, g: Node, args: Vec<Node>)
    requires
        m.part(Role::Body) == Some(body),
        nodes(body).contains(n),
        callee_name(n) == Some(h.name@),
        nodes(ctx.ast).contains(h),
        h.kind is Function || h.kind is Method,
        h.part(Role::Body) == Some(inner),
        nodes(inner).contains(g),
        g.kind is Macro,
        g.last_word() == Some("assert_eq"@) || g.last_word() == Some("debug_assert_eq"@),
        g.args == Some(args),
        args@.len() >= 2,
        calls(args@[0], "predecessor_account_id"@),
        calls(args@[1], "current_account_id"@),
    ensures
        report_on(ctx, m) is None,
{
    reveal(guards);
    let list = nodes(body);
    let i = list.index_of(n);
    let deep = nodes(inner);
    let j = deep.index_of(g);
    assert(guards(deep[j], flags_before(deep, j), Seq::empty()));
    assert(self_guarded(inner, Seq::empty()));
    let name = |k: Node| guard_helper(k);
    let q = nodes(ctx.ast).index_of(h);
    assert(name(nodes(ctx.ast)[q]) == Some(h.name@));
    lemma_name_is_listed(nodes(ctx.ast), name, q);
    assert(guards(list[i], flags_before(list, i), guard_helpers(ctx.ast)));
}

/// An implementation is a contract's if and only if an attribute says so.
pub proof fn law_contracts_are_marked(n: Node)
    requires
        contract(n),
    ensures
        exists|k: int| 0 <= k < n.parts(Role::Attribute).len() && ((#[trigger] n.parts(Role::Attribute)[k]).last_word() matches Some(w) && is_any(w, CONTRACT_ATTRIBUTES@)),
{
}

/// A macro that tests something else does not guard.
pub proof fn law_other_conditions_do_not_guard(n: Node, args: Vec<Node>, name: Seq<char>, flags: Seq<Seq<char>>)
    requires
        macro_name(n) == Some(name),
        n.args == Some(args),
        flags.len() == 0,
        args@.len() > 0 ==> !holds_self_comparison(args@[0]),
        args@.len() >= 2 ==> !((calls(args@[0], "predecessor_account_id"@) && calls(args@[1], "current_account_id"@)) || (calls(args@[0], "current_account_id"@) && calls(args@[1], "predecessor_account_id"@))),
    ensures
        !macro_guard(n, flags),
{
}

} // verus!
