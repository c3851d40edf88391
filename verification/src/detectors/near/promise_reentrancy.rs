//! State that changes before a promise is made.
use vstd::prelude::*;
use crate::attributes::{carries, has_attribute, outside_functions};
use crate::calls::{called_names, calls, get_called_names, is_self_comparison, self_comparison};
use crate::context::ScanContext;
use crate::detector::{Detector, Profile, raise, raised, RuleInfo, stamped};
use crate::finding::{Chain, Confidence, Finding, Report, Severity};
use crate::quotes::{blank_literals, law_unquoted_is_kept, outside_literals};
use crate::search::matches_at;
use crate::syntax::{Kind, Node, Role};
use crate::text::{
    any_text, chars_of, contains, contains_any, ends, ends_with, is_any, join3, mentions,
    mentions_any, occurs_at, same, same_as_any, some_text, word_char,
};
use crate::walk::{
    any_node, collect_findings, leads_openly, lemma_reports_from, lemma_spoken_of, nodes, nodes_in,
    open_nodes, open_nodes_in, opt_report, reports_of, some, speaks_of, walk, walk_nodes,
};

verus! {

/// Reports functions that change the contract's state and then make a promise,
/// without a callback that is known to be reserved to the contract.
pub struct PromiseReentrancyDetector;

/// The rule's description of itself.
pub open spec fn profile() -> Profile {
    Profile {
        id: "NEAR-001"@,
        name: "promise-reentrancy"@,
        description: "Detects state mutation before Promise::new() / ext_* calls without #[private] callback"@,
        severity: Severity::Critical,
        confidence: Confidence::Medium,
        chain: Chain::Near,
    }
}

/// The rule's description of itself.
fn info() -> (r: RuleInfo)
    ensures
        r@ == profile(),
{
    RuleInfo {
        id: "NEAR-001",
        name: "promise-reentrancy",
        description: "Detects state mutation before Promise::new() / ext_* calls without #[private] callback",
        severity: Severity::Critical,
        confidence: Confidence::Medium,
        chain: Chain::Near,
    }
}

/// How a promise is spelled.
pub const PROMISES: [&'static str; 2] = ["Promise :: new", "Promise::new"];

/// The equality operators, as they occur in a printed statement.
pub const EQUALITIES: [&'static str; 2] = ["==", "!="];

/// An identifier of the code that begins with `ext_` stands at `i`.
pub open spec fn ext_at(code: Seq<char>, i: int) -> bool {
    &&& occurs_at(code, "ext_"@, i)
    &&& i == 0 || !(word_char(code[i - 1]) || code[i - 1] == '\'')
}

/// The printed code calls another contract through an `ext_` interface. What a
/// literal says is no call.
pub open spec fn calls_ext(s: Seq<char>) -> bool {
    exists|i: int| #[trigger] ext_at(outside_literals(s), i)
}

/// The printed code makes a promise.
pub open spec fn promises(s: Seq<char>) -> bool {
    mentions_any(s, PROMISES@) || calls_ext(s)
}

/// The printed statement changes the contract's state.
pub open spec fn changes_state(s: Seq<char>) -> bool {
    mentions(s, "self ."@) && mentions(s, "="@) && !mentions_any(s, EQUALITIES@)
}

/// The node compares the caller with the contract itself.
pub open spec fn compares_caller(n: Node) -> bool {
    match n.kind {
        Kind::Binary => match (n.part(Role::Left), n.part(Role::Right)) {
            (Some(left), Some(right)) => is_any(n.name@, EQUALITIES@) && self_comparison(
                left,
                right,
            ),
            _ => false,
        },
        Kind::Macro => match (n.args, n.last_word()) {
            (Some(args), Some(name)) => ends(name, "_eq"@) && args@.len() >= 2 && self_comparison(
                args@[0],
                args@[1],
            ),
            _ => false,
        },
        _ => false,
    }
}

/// Something in the block, the arguments of macro calls included, compares the
/// caller with the contract itself.
pub open spec fn compares_callers(block: Node) -> bool {
    some(open_nodes(block), |n: Node| compares_caller(n))
}

/// What a `.then(..)` registers.
pub open spec fn then_arg(n: Node) -> Option<Node> {
    if n.kind is MethodCall && n.name@ == "then"@ { n.part(Role::Argument) } else { None }
}

/// `d` defines the function `name`.
pub open spec fn defines(d: Node, name: Seq<char>) -> bool {
    (d.kind is Function || d.kind is Method) && d.name@ == name
}

/// `d` defines the function `name`, and only the contract itself gets past its
/// start.
pub open spec fn defines_guarded(d: Node, name: Seq<char>) -> bool {
    &&& defines(d, name)
    &&& carries(d, "private"@) || (d.part(Role::Body) matches Some(body) && compares_callers(body))
}

/// Something called in the continuation that the node registers is defined in the
/// file.
pub open spec fn routes(n: Node, file: Node) -> bool {
    then_arg(n) matches Some(arg) && some_text(
        called_names(arg),
        |name: Seq<char>| some(nodes(file), |d: Node| defines(d, name)),
    )
}

/// Something called in the continuation that the node registers is defined in the
/// file, and reserved to the contract.
pub open spec fn routes_guarded(n: Node, file: Node) -> bool {
    then_arg(n) matches Some(arg) && some_text(
        called_names(arg),
        |name: Seq<char>| some(nodes(file), |d: Node| defines_guarded(d, name)),
    )
}

/// The statement registers a continuation, and it is known to be reserved to the
/// contract, or nothing is known of it.
pub open spec fn rolls_back(stmt: Node, file: Node) -> bool {
    &&& some(nodes(stmt), |n: Node| then_arg(n) is Some)
    &&& {
        ||| some(nodes(stmt), |n: Node| routes_guarded(n, file))
        ||| !some(nodes(stmt), |n: Node| routes(n, file))
    }
}

/// State changes at or before statement `i`, which makes a promise that does not
/// roll back.
pub open spec fn exposed_at(stmts: Seq<Node>, file: Node, i: int) -> bool {
    &&& 0 <= i < stmts.len()
    &&& promises(stmts[i].text@)
    &&& !rolls_back(stmts[i], file)
    &&& exists|j: int| 0 <= j <= i && changes_state((#[trigger] stmts[j]).text@)
}

/// The receiver cannot change the contract.
pub open spec fn read_only(f: Node) -> bool {
    f.parts(Role::Param).len() > 0 && f.parts(Role::Param)[0].kind == (Kind::Receiver {
        reference: true,
        mutable: false,
    })
}

/// The statements of a function.
pub open spec fn statements(f: Node) -> Seq<Node> {
    match f.part(Role::Body) {
        Some(body) => body.parts(Role::Entry),
        None => Seq::empty(),
    }
}

/// `f` changes state and then makes a promise that does not roll back.
pub open spec fn reentrant(file: Node, f: Node) -> bool {
    &&& f.kind is Function
    &&& !read_only(f)
    &&& promises(f.body_text())
    &&& exists|i: int| #[trigger] exposed_at(statements(f), file, i)
}

/// The report on `f`, if there is one.
pub open spec fn report_on(ctx: ScanContext, f: Node) -> Option<Report> {
    if reentrant(ctx.ast, f) {
        Some(
            raised(
                profile(),
                ctx,
                Confidence::Medium,
                f.line,
                f.column,
                "Function '"@ + f.name@
                    + "' mutates state before creating a Promise (reentrancy risk)"@,
                "Move state mutations to a #[private] callback that executes after the Promise resolves, or use a guard pattern"@,
            ),
        )
    } else {
        None
    }
}

/// Whether the printed code calls another contract through an `ext_` interface.
pub fn contains_ext_call(s: &str) -> (b: bool)
    ensures
        b == calls_ext(s@),
{
    let code = blank_literals(s);
    let chars = chars_of(code.as_str());
    let needle = chars_of("ext_");
    if needle.len() > chars.len() {
        return false;
    }
    let last: usize = chars.len() - needle.len();
    let mut i: usize = 0;
    while i <= last
        invariant
            chars@ == outside_literals(s@),
            needle@ == "ext_"@,
            last == chars@.len() - needle@.len(),
            forall|j: int| 0 <= j < i ==> !#[trigger] ext_at(chars@, j),
        decreases last + 1 - i,
    {
        if matches_at(&chars, &needle, i) && (i == 0 || !(chars[i - 1].is_alphanumeric()
            || chars[i - 1] == '_' || chars[i - 1] == '\'')) {
            assert(ext_at(chars@, i as int));
            return true;
        }
        if i == usize::MAX {
            return false;
        }
        i = i + 1;
    }
    false
}

/// Whether the printed code makes a promise.
fn makes_promise(s: &str) -> (b: bool)
    ensures
        b == promises(s@),
{
    contains_any(s, PROMISES.as_slice()) || contains_ext_call(s)
}

/// Whether something in the block compares the caller with the contract itself.
pub fn compares_predecessor_to_current(block: &Node) -> (b: bool)
    ensures
        b == compares_callers(*block),
{
    let list = open_nodes_in(block);
    any_node(
        &list,
        |n: &Node| -> (r: bool)
            ensures
                r == compares_caller(*n)
        {
            match n.kind {
                Kind::Binary => match (n.get_part(Role::Left), n.get_part(Role::Right)) {
                    (Some(left), Some(right)) => same_as_any(
                        n.name.as_str(),
                        EQUALITIES.as_slice(),
                    ) && is_self_comparison(left, right),
                    _ => false,
                },
                Kind::Macro => match (&n.args, n.get_last_word()) {
                    (Some(args), Some(name)) => ends_with(name, "_eq") && args.len() >= 2
                        && is_self_comparison(&args[0], &args[1]),
                    _ => false,
                },
                _ => false,
            }
        },
        Ghost(|n: Node| compares_caller(n)),
    )
}

/// What a `.then(..)` registers.
fn get_then_arg(n: &Node) -> (r: Option<&Node>)
    ensures
        r.is_some() == then_arg(*n).is_some(),
        r.is_some() ==> Some(*r.unwrap()) == then_arg(*n),
{
    if matches!(n.kind, Kind::MethodCall) && same(n.name.as_str(), "then") {
        n.get_part(Role::Argument)
    } else {
        None
    }
}

/// Whether `d` defines the function `name`.
fn is_definition(d: &Node, name: &str) -> (b: bool)
    ensures
        b == defines(*d, name@),
{
    matches!(d.kind, Kind::Function | Kind::Method { .. }) && same(d.name.as_str(), name)
}

/// Whether `d` defines the function `name`, reserved to the contract.
fn is_guarded_definition(d: &Node, name: &str) -> (b: bool)
    ensures
        b == defines_guarded(*d, name@),
{
    is_definition(d, name) && (has_attribute(d, "private") || (match d.get_part(Role::Body) {
        Some(body) => compares_predecessor_to_current(body),
        None => false,
    }))
}

/// Whether the continuation that the node registers leads into the file.
fn is_route(n: &Node, file: &Node, list: &Vec<&Node>) -> (b: bool)
    requires
        list@.unref() == nodes(*file),
    ensures
        b == routes(*n, *file),
{
    match get_then_arg(n) {
        Some(arg) => {
            let called = get_called_names(arg);
            any_text(
                &called,
                |name: &str| -> (r: bool)
                    ensures
                        r == some(nodes(*file), |d: Node| defines(d, name@))
                {
                    any_node(
                        list,
                        |d: &Node| -> (r: bool)
                            ensures
                                r == defines(*d, name@)
                        { is_definition(d, name) },
                        Ghost(|d: Node| defines(d, name@)),
                    )
                },
                Ghost(|name: Seq<char>| some(nodes(*file), |d: Node| defines(d, name))),
            )
        },
        None => false,
    }
}

/// Whether the continuation that the node registers is reserved to the contract.
fn is_guarded_route(n: &Node, file: &Node, list: &Vec<&Node>) -> (b: bool)
    requires
        list@.unref() == nodes(*file),
    ensures
        b == routes_guarded(*n, *file),
{
    match get_then_arg(n) {
        Some(arg) => {
            let called = get_called_names(arg);
            any_text(
                &called,
                |name: &str| -> (r: bool)
                    ensures
                        r == some(nodes(*file), |d: Node| defines_guarded(d, name@))
                {
                    any_node(
                        list,
                        |d: &Node| -> (r: bool)
                            ensures
                                r == defines_guarded(*d, name@)
                        { is_guarded_definition(d, name) },
                        Ghost(|d: Node| defines_guarded(d, name@)),
                    )
                },
                Ghost(|name: Seq<char>| some(nodes(*file), |d: Node| defines_guarded(d, name))),
            )
        },
        None => false,
    }
}

/// Whether the statement registers a continuation that is known to be reserved to
/// the contract, or of which nothing is known.
pub fn has_verified_rollback_callback(stmt: &Node, file: &Node) -> (b: bool)
    ensures
        b == rolls_back(*stmt, *file),
{
    let list = nodes_in(stmt);
    let defs = nodes_in(file);
    let registers = any_node(
        &list,
        |n: &Node| -> (r: bool)
            ensures
                r == (then_arg(*n) is Some)
        { get_then_arg(n).is_some() },
        Ghost(|n: Node| then_arg(n) is Some),
    );
    if !registers {
        return false;
    }
    let guarded = any_node(
        &list,
        |n: &Node| -> (r: bool)
            ensures
                r == routes_guarded(*n, *file)
        { is_guarded_route(n, file, &defs) },
        Ghost(|n: Node| routes_guarded(n, *file)),
    );
    if guarded {
        return true;
    }
    !any_node(
        &list,
        |n: &Node| -> (r: bool)
            ensures
                r == routes(*n, *file)
        { is_route(n, file, &defs) },
        Ghost(|n: Node| routes(n, *file)),
    )
}

/// Whether the printed statement changes the contract's state.
fn is_state_change(s: &str) -> (b: bool)
    ensures
        b == changes_state(s@),
{
    contains(s, "self .") && contains(s, "=") && !contains_any(s, EQUALITIES.as_slice())
}

/// Whether state changes at or before a statement that makes a promise which does
/// not roll back.
fn has_exposed_statement(stmts: &Vec<&Node>, file: &Node) -> (b: bool)
    ensures
        b == exists|i: int| #[trigger] exposed_at(stmts@.unref(), *file, i),
{
    let ghost all = stmts@.unref();
    let mut changed = false;
    let mut i: usize = 0;
    while i < stmts.len()
        invariant
            i <= stmts@.len(),
            all == stmts@.unref(),
            changed == exists|j: int| 0 <= j < i && changes_state((#[trigger] all[j]).text@),
            forall|k: int| 0 <= k < i ==> !#[trigger] exposed_at(all, *file, k),
        decreases stmts@.len() - i,
    {
        assert(all[i as int] == *stmts@[i as int]);
        let text = stmts[i].text.as_str();
        if is_state_change(text) {
            assert(changes_state(all[i as int].text@));
            changed = true;
        }
        if changed && makes_promise(text) && !has_verified_rollback_callback(stmts[i], file) {
            assert(exposed_at(all, *file, i as int));
            return true;
        }
        assert(!exposed_at(all, *file, i as int));
        i = i + 1;
    }
    false
}

impl PromiseReentrancyDetector {
    /// The finding on `f`, if there is one.
    pub fn check(&self, ctx: &ScanContext, f: &Node) -> (r: Option<Finding>)
        ensures
            opt_report(r) == report_on(*ctx, *f),
    {
        match f.kind {
            Kind::Function => {},
            _ => {
                return None;
            },
        }
        let params = f.get_parts(Role::Param);
        if params.len() > 0 {
            assert(f.parts(Role::Param)[0] == *params@[0]);
            if params[0].kind == (Kind::Receiver { reference: true, mutable: false }) {
                return None;
            }
        }
        if !makes_promise(f.get_body_text()) {
            return None;
        }
        let stmts = match f.get_part(Role::Body) {
            Some(body) => body.get_parts(Role::Entry),
            None => Vec::new(),
        };
        assert(stmts@.unref() =~= statements(*f));
        if !has_exposed_statement(&stmts, &ctx.ast) {
            return None;
        }
        let text = join3(
            "Function '",
            f.name.as_str(),
            "' mutates state before creating a Promise (reentrancy risk)",
        );
        Some(
            raise(
                &info(),
                ctx,
                Confidence::Medium,
                f.line,
                f.column,
                text,
                "Move state mutations to a #[private] callback that executes after the Promise resolves, or use a guard pattern",
            ),
        )
    }
}

impl Detector for PromiseReentrancyDetector {
    open spec fn profile(&self) -> Profile {
        profile()
    }

    open spec fn reports_on(&self, ctx: ScanContext) -> Seq<Report> {
        reports_of(walk(ctx.ast, outside_functions()), |f: Node| report_on(ctx, f))
    }

    fn id(&self) -> (r: &'static str) {
        info().id
    }

    fn name(&self) -> (r: &'static str) {
        info().name
    }

    fn description(&self) -> (r: &'static str) {
        info().description
    }

    fn severity(&self) -> (r: Severity) {
        info().severity
    }

    fn confidence(&self) -> (r: Confidence) {
        info().confidence
    }

    fn chain(&self) -> (r: Chain) {
        info().chain
    }

    fn detect(&self, ctx: &ScanContext) -> (r: Vec<Finding>) {
        let list = walk_nodes(
            &ctx.ast,
            |n: &Node| -> (b: bool)
                ensures
                    b == outside_functions()(*n)
            { !matches!(n.kind, Kind::Function) },
            Ghost(outside_functions()),
        );
        collect_findings(
            &list,
            |f: &Node| -> (s: Option<Finding>)
                ensures
                    opt_report(s) == report_on(*ctx, *f)
            { self.check(ctx, f) },
            Ghost(|f: Node| report_on(*ctx, f)),
        )
    }

    proof fn law_findings_are_stamped(&self, ctx: ScanContext) {
        assert forall|i: int| 0 <= i < self.reports_on(ctx).len() implies stamped(
            #[trigger] self.reports_on(ctx)[i],
            self.profile(),
            ctx,
        ) by {
            lemma_reports_from(walk(ctx.ast, outside_functions()), |f: Node| report_on(ctx, f), i);
        }
    }
}

/// Every finding has the confidence that the rule states of itself.
pub proof fn law_confidence_is_the_rules_own(ctx: ScanContext)
    ensures
        forall|i: int|
            0 <= i < PromiseReentrancyDetector.reports_on(ctx).len() ==> (
            #[trigger] PromiseReentrancyDetector.reports_on(ctx)[i]).confidence == profile().confidence,
{
    assert forall|i: int| 0 <= i < PromiseReentrancyDetector.reports_on(ctx).len() implies (
        #[trigger] PromiseReentrancyDetector.reports_on(ctx)[i]).confidence == profile().confidence by {
        lemma_reports_from(walk(ctx.ast, outside_functions()), |f: Node| report_on(ctx, f), i);
    }
}

/// No method `then` is called in the statement.
pub open spec fn registers_nothing(stmt: Node) -> bool {
    forall|k: int|
        0 <= k < nodes(stmt).len() ==> !((#[trigger] nodes(stmt)[k]).kind is MethodCall
            && nodes(stmt)[k].name@ == "then"@)
}

/// A reported function is spoken of, wherever in the file it stands.
proof fn lemma_reported(ctx: ScanContext, path: Seq<Node>, f: Node)
    requires
        leads_openly(path, ctx.ast, f),
        report_on(ctx, f) is Some,
    ensures
        speaks_of(PromiseReentrancyDetector.reports_on(ctx), f),
{
    lemma_spoken_of(
        path,
        outside_functions(),
        |n: Node| report_on(ctx, n),
        "Function '"@,
        "' mutates state before creating a Promise (reentrancy risk)"@,
    );
}

/// A statement that assigns to a field of the contract, followed at any distance by one
/// that makes a promise and registers nothing to follow it, has the function reported,
/// whatever stands between the two.
pub proof fn law_promise_behind_a_change_is_reported(
    ctx: ScanContext,
    path: Seq<Node>,
    f: Node,
    body: Node,
    j: int,
    i: int,
)
    requires
        leads_openly(path, ctx.ast, f),
        f.kind is Function,
        f.parts(Role::Param).len() > 0 ==> f.parts(Role::Param)[0].kind != (Kind::Receiver {
            reference: true,
            mutable: false,
        }),
        f.part(Role::Body) == Some(body),
        0 <= j <= i < body.parts(Role::Entry).len(),
        mentions(body.parts(Role::Entry)[j].text@, "self ."@),
        mentions(body.parts(Role::Entry)[j].text@, "="@),
        !mentions(body.parts(Role::Entry)[j].text@, "=="@),
        !mentions(body.parts(Role::Entry)[j].text@, "!="@),
        registers_nothing(body.parts(Role::Entry)[i]),
        (mentions(body.parts(Role::Entry)[i].text@, "Promise :: new"@) && mentions(
            body.text@,
            "Promise :: new"@,
        )) || (mentions(body.parts(Role::Entry)[i].text@, "Promise::new"@) && mentions(
            body.text@,
            "Promise::new"@,
        )),
    ensures
        speaks_of(PromiseReentrancyDetector.reports_on(ctx), f),
{
    let stmts = statements(f);
    assert(changes_state(stmts[j].text@));
    assert(promises(stmts[i].text@));
    assert(exposed_at(stmts, ctx.ast, i));
    lemma_reported(ctx, path, f);
}

/// The same holds of a call through an interface whose name begins with `ext_`, where
/// no literal is about.
pub proof fn law_external_call_behind_a_change_is_reported(
    ctx: ScanContext,
    path: Seq<Node>,
    f: Node,
    body: Node,
    j: int,
    i: int,
    a: int,
    b: int,
)
    requires
        leads_openly(path, ctx.ast, f),
        f.kind is Function,
        f.parts(Role::Param).len() == 0 || f.parts(Role::Param)[0].kind == (Kind::Receiver {
            reference: true,
            mutable: true,
        }),
        f.part(Role::Body) == Some(body),
        0 <= j <= i < body.parts(Role::Entry).len(),
        mentions(body.parts(Role::Entry)[j].text@, "self ."@),
        mentions(body.parts(Role::Entry)[j].text@, "="@),
        !mentions(body.parts(Role::Entry)[j].text@, "=="@),
        !mentions(body.parts(Role::Entry)[j].text@, "!="@),
        registers_nothing(body.parts(Role::Entry)[i]),
        !body.text@.contains('"') && !body.text@.contains('\''),
        !body.parts(Role::Entry)[i].text@.contains('"'),
        !body.parts(Role::Entry)[i].text@.contains('\''),
        occurs_at(body.text@, "ext_"@, a),
        a > 0 && body.text@[a - 1] == ' ',
        occurs_at(body.parts(Role::Entry)[i].text@, "ext_"@, b),
        b == 0 || body.parts(Role::Entry)[i].text@[b - 1] == ' ',
    ensures
        speaks_of(PromiseReentrancyDetector.reports_on(ctx), f),
{
    let stmts = statements(f);
    law_unquoted_is_kept(body.text@, false);
    law_unquoted_is_kept(stmts[i].text@, false);
    assert(ext_at(outside_literals(body.text@), a));
    assert(ext_at(outside_literals(stmts[i].text@), b));
    assert(changes_state(stmts[j].text@));
    assert(exposed_at(stmts, ctx.ast, i));
    lemma_reported(ctx, path, f);
}

/// One more statement, of whatever kind and in whatever place, never hides what was
/// reported without it.
pub proof fn law_more_statements_hide_nothing(
    ctx: ScanContext,
    f: Node,
    g: Node,
    before: Node,
    after: Node,
    k: int,
    stmt: Node,
)
    requires
        report_on(ctx, f) is Some,
        g.kind is Function,
        g.parts(Role::Param) == f.parts(Role::Param),
        f.part(Role::Body) == Some(before),
        g.part(Role::Body) == Some(after),
        0 <= k <= before.parts(Role::Entry).len(),
        after.parts(Role::Entry) == before.parts(Role::Entry).insert(k, stmt),
        mentions(after.text@, "Promise :: new"@) || outside_literals(after.text@)
            == outside_literals(before.text@),
        mentions(before.text@, "Promise::new"@) ==> mentions(after.text@, "Promise::new"@),
        mentions(before.text@, "Promise :: new"@) ==> mentions(after.text@, "Promise :: new"@),
    ensures
        report_on(ctx, g) is Some,
{
    let old_stmts = statements(f);
    let new_stmts = statements(g);
    let i = choose|i: int| #[trigger] exposed_at(old_stmts, ctx.ast, i);
    let j = choose|j: int| 0 <= j <= i && changes_state((#[trigger] old_stmts[j]).text@);
    let i2 = if i < k { i } else { i + 1 };
    let j2 = if j < k { j } else { j + 1 };
    assert(new_stmts[i2] == old_stmts[i]);
    assert(new_stmts[j2] == old_stmts[j]);
    assert(changes_state(new_stmts[j2].text@));
    assert(exposed_at(new_stmts, ctx.ast, i2));
}

/// What is reported changes a field of the contract at or before a statement that makes
/// a promise or calls through an interface.
pub proof fn law_reported_change_comes_first(ctx: ScanContext, f: Node)
    requires
        report_on(ctx, f) is Some,
    ensures
        f.kind is Function,
        f.parts(Role::Param).len() > 0 ==> f.parts(Role::Param)[0].kind != (Kind::Receiver {
            reference: true,
            mutable: false,
        }),
        f.part(Role::Body) matches Some(body) && exists|j: int, i: int|
            0 <= j <= i < body.parts(Role::Entry).len() && mentions(
                (#[trigger] body.parts(Role::Entry)[j]).text@,
                "self ."@,
            ) && mentions(body.parts(Role::Entry)[j].text@, "="@) && !mentions(
                body.parts(Role::Entry)[j].text@,
                "=="@,
            ) && !mentions(body.parts(Role::Entry)[j].text@, "!="@) && (mentions(
                (#[trigger] body.parts(Role::Entry)[i]).text@,
                "Promise :: new"@,
            ) || mentions(body.parts(Role::Entry)[i].text@, "Promise::new"@) || mentions(
                outside_literals(body.parts(Role::Entry)[i].text@),
                "ext_"@,
            )),
{
    let stmts = statements(f);
    let i = choose|i: int| #[trigger] exposed_at(stmts, ctx.ast, i);
    let j = choose|j: int| 0 <= j <= i && changes_state((#[trigger] stmts[j]).text@);
    let code = outside_literals(stmts[i].text@);
    if calls_ext(stmts[i].text@) {
        let k = choose|k: int| #[trigger] ext_at(code, k);
        assert(occurs_at(code, "ext_"@, k));
    }
    let body = f.part(Role::Body)->0;
    assert(stmts == body.parts(Role::Entry));
    assert(mentions(body.parts(Role::Entry)[j].text@, "self ."@));
}

/// A promise whose continuation calls a function of the file that carries `private`
/// rolls back. A function all of whose statements hold one is not reported.
pub proof fn law_private_continuation_is_trusted(
    ctx: ScanContext,
    f: Node,
    body: Node,
    thens: Seq<Node>,
    args: Seq<Node>,
    defs: Seq<Node>,
)
    requires
        f.part(Role::Body) == Some(body),
        thens.len() == body.parts(Role::Entry).len() == args.len() == defs.len(),
        forall|i: int|
            0 <= i < thens.len() ==> nodes(body.parts(Role::Entry)[i]).contains(#[trigger] thens[i])
                && thens[i].kind is MethodCall && thens[i].name@ == "then"@ && thens[i].part(
                Role::Argument,
            ) == Some(args[i]) && called_names(args[i]).contains(defs[i].name@) && nodes(
                ctx.ast,
            ).contains(defs[i]) && (defs[i].kind is Function || defs[i].kind is Method) && carries(
                defs[i],
                "private"@,
            ),
    ensures
        report_on(ctx, f) is None,
{
    let stmts = statements(f);
    assert forall|i: int| !#[trigger] exposed_at(stmts, ctx.ast, i) by {
        if 0 <= i < stmts.len() {
            let n = thens[i];
            let d = defs[i];
            let list = nodes(stmts[i]);
            let file = nodes(ctx.ast);
            let names = called_names(args[i]);
            let p = file.index_of(d);
            let q = names.index_of(d.name@);
            let r = list.index_of(n);
            let is_def = |m: Node| defines_guarded(m, d.name@);
            assert(is_def(file[p]));
            let known = |name: Seq<char>| some(file, |m: Node| defines_guarded(m, name));
            assert(known(names[q]));
            let goes = |m: Node| routes_guarded(m, ctx.ast);
            assert(goes(list[r]));
            let holds = |m: Node| then_arg(m) is Some;
            assert(holds(list[r]));
            assert(rolls_back(stmts[i], ctx.ast));
        }
    }
}

/// A continuation that leads into the file, where nothing is private and nothing is
/// compared, does not make up for a change.
pub proof fn law_open_continuation_is_not_trusted(
    ctx: ScanContext,
    path: Seq<Node>,
    f: Node,
    body: Node,
    j: int,
    i: int,
    then: Node,
    arg: Node,
    def: Node,
)
    requires
        leads_openly(path, ctx.ast, f),
        f.kind is Function,
        f.parts(Role::Param).len() == 0,
        f.part(Role::Body) == Some(body),
        0 <= j <= i < body.parts(Role::Entry).len(),
        mentions(body.text@, "Promise :: new"@),
        mentions(body.parts(Role::Entry)[i].text@, "Promise :: new"@),
        mentions(body.parts(Role::Entry)[j].text@, "self ."@),
        mentions(body.parts(Role::Entry)[j].text@, "="@),
        !mentions(body.parts(Role::Entry)[j].text@, "=="@),
        !mentions(body.parts(Role::Entry)[j].text@, "!="@),
        nodes(body.parts(Role::Entry)[i]).contains(then),
        then.kind is MethodCall,
        then.name@ == "then"@,
        then.part(Role::Argument) == Some(arg),
        called_names(arg).contains(def.name@),
        nodes(ctx.ast).contains(def),
        def.kind is Function || def.kind is Method,
        forall|k: int|
            0 <= k < nodes(ctx.ast).len() && ((#[trigger] nodes(ctx.ast)[k]).kind is Function
                || nodes(ctx.ast)[k].kind is Method) ==> !carries(nodes(ctx.ast)[k], "private"@) && (
            nodes(ctx.ast)[k].part(Role::Body) matches Some(b) ==> forall|m: int|
                0 <= m < open_nodes(b).len() ==> !((#[trigger] open_nodes(b)[m]).kind is Binary)
                    && !(open_nodes(b)[m].kind is Macro)),
    ensures
        speaks_of(PromiseReentrancyDetector.reports_on(ctx), f),
{
    let stmts = statements(f);
    let file = nodes(ctx.ast);
    let list = nodes(stmts[i]);
    let names = called_names(arg);
    assert forall|d: Node, name: Seq<char>| file.contains(d) implies !#[trigger] defines_guarded(
        d,
        name,
    ) by {
        let k = file.index_of(d);
        assert(file[k] == d);
        if d.part(Role::Body) is Some && (d.kind is Function || d.kind is Method) {
            let b = d.part(Role::Body)->0;
            assert forall|m: int| 0 <= m < open_nodes(b).len() implies !compares_caller(
                #[trigger] open_nodes(b)[m],
            ) by {}
        }
    }
    assert forall|m: int| 0 <= m < list.len() implies !routes_guarded(
        #[trigger] list[m],
        ctx.ast,
    ) by {
        if routes_guarded(list[m], ctx.ast) {
            let called = called_names(then_arg(list[m])->0);
            let known = |name: Seq<char>| some(file, |d: Node| defines_guarded(d, name));
            let a = choose|a: int| 0 <= a < called.len() && #[trigger] known(called[a]);
            let fits = |d: Node| defines_guarded(d, called[a]);
            let b = choose|b: int| 0 <= b < file.len() && #[trigger] fits(file[b]);
            assert(file.contains(file[b]));
            assert(defines_guarded(file[b], called[a]));
        }
    }
    let p = file.index_of(def);
    let is_def = |m: Node| defines(m, def.name@);
    assert(is_def(file[p]));
    let known = |name: Seq<char>| some(file, |m: Node| defines(m, name));
    assert(known(names[names.index_of(def.name@)]));
    let goes = |m: Node| routes(m, ctx.ast);
    assert(goes(list[list.index_of(then)]));
    assert(!rolls_back(stmts[i], ctx.ast));
    assert(changes_state(stmts[j].text@));
    assert(exposed_at(stmts, ctx.ast, i));
    lemma_reported(ctx, path, f);
}

/// A continuation that leads to a function of the file which compares the caller with
/// the contract, by `==` or `!=` and in any order, is trusted as a private one is.
pub proof fn law_comparing_continuation_is_trusted(ctx: ScanContext, f: Node, body: Node, then: Node, arg: Node, def: Node, inner: Node, n: Node, left: Node, right: Node)
    requires
        f.part(Role::Body) == Some(body),
        body.parts(Role::Entry).len() == 1,
        nodes(body.parts(Role::Entry)[0]).contains(then),
        then.kind is MethodCall,
        then.name@ == "then"@,
        then.part(Role::Argument) == Some(arg),
        called_names(arg).contains(def.name@),
        nodes(ctx.ast).contains(def),
        def.kind is Function || def.kind is Method,
        def.part(Role::Body) == Some(inner),
        open_nodes(inner).contains(n),
        n.kind is Binary,
        n.name@ == "=="@ || n.name@ == "!="@,
        n.part(Role::Left) == Some(left),
        n.part(Role::Right) == Some(right),
        (calls(left, "predecessor_account_id"@) && calls(right, "current_account_id"@)) || (calls(left, "current_account_id"@) && calls(right, "predecessor_account_id"@)),
    ensures
        report_on(ctx, f) is None,
{
    let stmts = statements(f);
    let deep = open_nodes(inner);
    let cmp = |m: Node| compares_caller(m);
    assert(cmp(deep[deep.index_of(n)]));
    assert(compares_callers(inner));
    let file = nodes(ctx.ast);
    let list = nodes(stmts[0]);
    let names = called_names(arg);
    let fits = |m: Node| defines_guarded(m, def.name@);
    assert(fits(file[file.index_of(def)]));
    let known = |name: Seq<char>| some(file, |m: Node| defines_guarded(m, name));
    assert(known(names[names.index_of(def.name@)]));
    let goes = |m: Node| routes_guarded(m, ctx.ast);
    assert(goes(list[list.index_of(then)]));
    let holds = |m: Node| then_arg(m) is Some;
    assert(holds(list[list.index_of(then)]));
    assert(rolls_back(stmts[0], ctx.ast));
    assert forall|i: int| !#[trigger] exposed_at(stmts, ctx.ast, i) by {}
}

/// A continuation of which nothing is known in the file is trusted as well.
pub proof fn law_unknown_continuation_is_trusted(ctx: ScanContext, f: Node, body: Node, then: Node, arg: Node)
    requires
        f.part(Role::Body) == Some(body),
        body.parts(Role::Entry).len() == 1,
        nodes(body.parts(Role::Entry)[0]).contains(then),
        then.kind is MethodCall,
        then.name@ == "then"@,
        then.part(Role::Argument) == Some(arg),
        forall|k: int, j: int| 0 <= k < nodes(body.parts(Role::Entry)[0]).len() && 0 <= j < nodes(ctx.ast).len() && (nodes(ctx.ast)[j].kind is Function || nodes(ctx.ast)[j].kind is Method) ==> ((#[trigger] nodes(body.parts(Role::Entry)[0])[k]).part(Role::Argument) matches Some(a) ==> !called_names(a).contains((#[trigger] nodes(ctx.ast)[j]).name@)),
    ensures
        report_on(ctx, f) is None,
{
    let stmts = statements(f);
    let list = nodes(stmts[0]);
    let file = nodes(ctx.ast);
    let holds = |m: Node| then_arg(m) is Some;
    assert(holds(list[list.index_of(then)]));
    assert forall|k: int| 0 <= k < list.len() implies !routes(#[trigger] list[k], ctx.ast) by {
        if routes(list[k], ctx.ast) {
            let called = called_names(then_arg(list[k])->0);
            let known = |name: Seq<char>| some(file, |d: Node| defines(d, name));
            let a = choose|a: int| 0 <= a < called.len() && #[trigger] known(called[a]);
            let fits = |d: Node| defines(d, called[a]);
            let b = choose|b: int| 0 <= b < file.len() && #[trigger] fits(file[b]);
            assert(called.contains(file[b].name@));
        }
    }
    assert(rolls_back(stmts[0], ctx.ast));
    assert forall|i: int| !#[trigger] exposed_at(stmts, ctx.ast, i) by {}
}

/// What is compared is the caller with the contract itself, and nothing less.
pub proof fn law_only_the_caller_is_compared(n: Node)
    requires
        compares_caller(n),
    ensures
        n.kind is Binary || n.kind is Macro,
        n.kind is Binary ==> (n.name@ == "=="@ || n.name@ == "!="@) && (n.part(Role::Left) matches Some(left) && (n.part(Role::Right) matches Some(right) && ((calls(left, "predecessor_account_id"@) && calls(right, "current_account_id"@)) || (calls(left, "current_account_id"@) && calls(right, "predecessor_account_id"@))))),
        n.kind is Macro ==> (n.last_word() matches Some(name) && ends(name, "_eq"@)) && (n.args matches Some(args) && args@.len() >= 2 && ((calls(args@[0], "predecessor_account_id"@) && calls(args@[1], "current_account_id"@)) || (calls(args@[0], "current_account_id"@) && calls(args@[1], "predecessor_account_id"@)))),
{
}

/// A macro that demands equality compares as an operator does.
pub proof fn law_macros_compare_too(n: Node, args: Vec<Node>, name: Seq<char>)
    requires
        n.kind is Macro,
        n.last_word() == Some(name),
        ends(name, "_eq"@),
        n.args == Some(args),
        args@.len() >= 2,
        ((calls(args@[0], "predecessor_account_id"@) && calls(args@[1], "current_account_id"@)) || (calls(args@[0], "current_account_id"@) && calls(args@[1], "predecessor_account_id"@))),
    ensures
        compares_caller(n),
{
}

/// An external interface is known by a name of its own: no letter stands in front of
/// it, nor a lifetime's mark.
pub proof fn law_interface_begins_a_word(code: Seq<char>, i: int)
    requires
        ext_at(code, i),
    ensures
        occurs_at(code, "ext_"@, i),
        i > 0 ==> !word_char(code[i - 1]) && code[i - 1] != '\'',
{
}

/// Any name that begins so is one.
pub proof fn law_interface_is_found(code: Seq<char>, i: int)
    requires
        occurs_at(code, "ext_"@, i),
        i == 0 || (!word_char(code[i - 1]) && code[i - 1] != '\''),
    ensures
        ext_at(code, i),
{
}

} // verus!
