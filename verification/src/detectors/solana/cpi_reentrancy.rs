//! State that is written after another program was called.
use vstd::prelude::*;
use crate::attributes::{is_test_attributed, outside_functions_and_marked_tests, test_attributed};
use crate::context::ScanContext;
use crate::detector::{Detector, fully_stamped, Profile, raise, raised, RuleInfo, stamped};
use crate::finding::{Chain, Confidence, Finding, Report, reports, Severity};
use crate::patterns::{get_let_name, let_name};
use crate::quotes::{
    blank_literals, get_last_ident, last_ident, law_unquoted_is_kept, outside_literals,
};
use crate::search::{alone_at, matches_at};
use crate::syntax::{Kind, Node, Role};
use crate::text::{
    any_text, chars_of, contains, contains_any, is_any, join3, lemma_holds_middle, mentions,
    mentions_any, same_as_any, some_text, texts, trimmed_end, word_char,
};
use crate::tokens::{Fill, print_tokens, printed};
use crate::walk::{
    all_reports, any_node, collect_all_findings, law_led_to_is_met, law_reports_are_listed,
    leads_openly, lemma_all_reports_from, lemma_sealed_all, nodes, nodes_in, some, walk, walk_nodes,
};

verus! {

/// Reports statements that write account state behind a call of another program.
pub struct CpiReentrancyDetector;

/// The rule's description of itself.
pub open spec fn profile() -> Profile {
    Profile {
        id: "SOL-009"@,
        name: "cpi-reentrancy"@,
        description: "Detects state mutations after CPI calls (CEI violation) - mitigated by Solana's account locking"@,
        severity: Severity::Medium,
        confidence: Confidence::Low,
        chain: Chain::Solana,
    }
}

/// The rule's description of itself.
fn info() -> (r: RuleInfo)
    ensures
        r@ == profile(),
{
    RuleInfo {
        id: "SOL-009",
        name: "cpi-reentrancy",
        description: "Detects state mutations after CPI calls (CEI violation) - mitigated by Solana's account locking",
        severity: Severity::Medium,
        confidence: Confidence::Low,
        chain: Chain::Solana,
    }
}

/// How a program is called directly.
pub const NATIVE_CALLS: [&'static str; 3] = ["invoke (", "invoke(", "invoke_signed"];

/// How a program is called through a wrapper.
pub const WRAPPED_CALLS: [&'static str; 2] = [":: cpi ::", "CpiContext"];

/// Words of a statement that only decodes.
pub const DECODING: [&'static str; 2] = ["deserialize", "try_from_slice"];

/// Words of a statement that borrows account data or lamports for writing.
pub const ACCOUNT_BORROWS: [&'static str; 4] = [
    "try_borrow_mut_data",
    "try_borrow_mut_lamports",
    "borrow_mut_data",
    "borrow_mut_lamports",
];

/// Words of account state.
pub const STATE_WORDS: [&'static str; 2] = [". data", "lamports"];

/// The assignment operators.
pub const ASSIGNMENTS: [&'static str; 11] = [
    " = ",
    " += ",
    " -= ",
    " *= ",
    " /= ",
    " %= ",
    " &= ",
    " |= ",
    " ^= ",
    " <<= ",
    " >>= ",
];

/// A statement without what its string literals say.
pub open spec fn clean(stmt: Node) -> Seq<char> {
    printed(stmt.tokens@, Fill::Marked)
}

/// The line of a statement; zero for an item.
pub open spec fn stmt_line(stmt: Node) -> usize {
    match stmt.kind {
        Kind::Local | Kind::ExprStmt { .. } | Kind::StmtMacro => stmt.line,
        _ => 0,
    }
}

/// Words behind which a bracket opens no call.
pub const KEYWORDS: [&'static str; 14] = [
    "as",
    "break",
    "else",
    "for",
    "if",
    "in",
    "let",
    "match",
    "move",
    "mut",
    "ref",
    "return",
    "where",
    "while",
];

/// The code ends with an identifier that is no keyword.
pub open spec fn ends_named(code: Seq<char>) -> bool {
    last_ident(code).len() > 0 && !is_any(last_ident(code), KEYWORDS@)
}

/// A bracket behind the code opens the arguments of a call, or of a macro call.
pub open spec fn ends_callable(code: Seq<char>) -> bool {
    let front = trimmed_end(code);
    if front.len() == 0 {
        false
    } else if front.last() == '!' {
        ends_named(trimmed_end(front.drop_last()))
    } else {
        front.last() == ')' || front.last() == ']' || front.last() == '>' || ends_named(front)
    }
}

/// The round brackets that are open behind the code, from the outermost on; each
/// says whether it holds the arguments of a call.
pub open spec fn open_brackets(code: Seq<char>) -> Seq<bool>
    decreases code.len(),
{
    if code.len() == 0 {
        Seq::empty()
    } else {
        let before = open_brackets(code.drop_last());
        if code.last() == '(' {
            before.push(ends_callable(code.drop_last()))
        } else if code.last() == ')' && before.len() > 0 {
            before.drop_last()
        } else {
            before
        }
    }
}

/// `var` stands at `i` as a whole identifier, inside the arguments of a call.
pub open spec fn passed_at(code: Seq<char>, var: Seq<char>, i: int) -> bool {
    alone_at(code, var, i) && open_brackets(code.take(i)).contains(true)
}

/// `var` stands in `text`, outside of literals, inside a call.
pub open spec fn uses_var(text: Seq<char>, var: Seq<char>) -> bool {
    exists|i: int| #[trigger] passed_at(outside_literals(text), var, i)
}

/// The argument names a call context.
pub open spec fn context_arg(a: Node) -> bool {
    mentions(outside_literals(a.text@), "CpiContext"@)
}

/// The node hands a call context on, in the place where it is built.
pub open spec fn hands_context(n: Node) -> bool {
    (n.kind is Call || n.kind is MethodCall) && some(
        n.parts(Role::Argument),
        |a: Node| context_arg(a),
    )
}

/// The statement builds a call context and calls nothing.
pub open spec fn builds_context(stmt: Node) -> bool {
    &&& stmt.kind is Local
    &&& mentions(clean(stmt), "CpiContext"@)
    &&& mentions(clean(stmt), "new"@)
    &&& !some(nodes(stmt), |n: Node| hands_context(n))
}

/// The statement calls another program, where `pending` holds the names of the
/// call contexts built so far.
pub open spec fn calls_program(text: Seq<char>, pending: Seq<Seq<char>>) -> bool {
    ||| mentions_any(text, NATIVE_CALLS@)
    ||| mentions_any(text, WRAPPED_CALLS@)
    ||| some_text(pending, |v: Seq<char>| uses_var(text, v))
}

/// The text holds an assignment.
pub open spec fn assigns(text: Seq<char>) -> bool {
    mentions_any(text, ASSIGNMENTS@)
}

/// The statement writes account state.
pub open spec fn mutates(stmt: Node, text: Seq<char>) -> bool {
    ||| mentions(text, "serialize"@) && !mentions_any(text, DECODING@)
    ||| mentions_any(text, ACCOUNT_BORROWS@)
    ||| mentions_any(text, STATE_WORDS@) && mentions(text, "borrow_mut"@)
    ||| !(stmt.kind is Local) && mentions(text, "data"@) && assigns(text)
}

/// What is known behind a number of statements.
pub struct Progress {
    /// The line of the last statement that called another program.
    pub called: Option<usize>,
    /// The names of the call contexts built.
    pub pending: Seq<Seq<char>>,
}

/// What is known behind one more statement.
pub open spec fn after_stmt(p: Progress, stmt: Node) -> Progress {
    if builds_context(stmt) {
        match let_name(stmt) {
            Some(name) => Progress { called: p.called, pending: p.pending.push(name) },
            None => p,
        }
    } else if calls_program(clean(stmt), p.pending) {
        Progress { called: Some(stmt_line(stmt)), pending: p.pending }
    } else {
        p
    }
}

/// What is known behind the statements of `list`.
pub open spec fn progress(list: Seq<Node>) -> Progress
    decreases list.len(),
{
    if list.len() == 0 {
        Progress { called: None, pending: Seq::empty() }
    } else {
        after_stmt(progress(list.drop_last()), list.last())
    }
}

/// The statement writes account state on a line behind a call of another program.
pub open spec fn violates(p: Progress, stmt: Node) -> bool {
    &&& !builds_context(stmt)
    &&& !calls_program(clean(stmt), p.pending)
    &&& p.called matches Some(line) && stmt_line(stmt) > line
    &&& mutates(stmt, clean(stmt))
}

/// The report on a statement of `f`.
pub open spec fn report_of(ctx: ScanContext, f: Node, stmt: Node) -> Report {
    raised(
        profile(),
        ctx,
        Confidence::Low,
        stmt_line(stmt),
        1,
        "Function '"@ + f.name@ + "' mutates state after CPI call (CEI violation)"@,
        "Solana's account locking mitigates CPI reentrancy, but CEI violations should be avoided for defense-in-depth. Move state mutations before CPI calls"@,
    )
}

/// The reports on the statements of `list`, which lie in the function `f`.
pub open spec fn stmt_reports(ctx: ScanContext, f: Node, list: Seq<Node>) -> Seq<Report>
    decreases list.len(),
{
    if list.len() == 0 {
        Seq::empty()
    } else {
        let before = stmt_reports(ctx, f, list.drop_last());
        if violates(progress(list.drop_last()), list.last()) {
            before.push(report_of(ctx, f, list.last()))
        } else {
            before
        }
    }
}

/// The reports on `f`.
pub open spec fn reports_in(ctx: ScanContext, f: Node) -> Seq<Report> {
    if f.kind is Function && !test_attributed(f) {
        match f.part(Role::Body) {
            Some(body) => stmt_reports(ctx, f, body.parts(Role::Entry)),
            None => Seq::empty(),
        }
    } else {
        Seq::empty()
    }
}

/// Every report names the rule and the file.
proof fn lemma_stamped(ctx: ScanContext, f: Node, list: Seq<Node>, i: int)
    requires
        0 <= i < stmt_reports(ctx, f, list).len(),
    ensures
        fully_stamped(stmt_reports(ctx, f, list)[i], profile(), ctx),
    decreases list.len(),
{
    if i < stmt_reports(ctx, f, list.drop_last()).len() {
        lemma_stamped(ctx, f, list.drop_last(), i);
    }
}

/// A function in which no other program is called is not reported on.
pub proof fn law_no_call_no_report(ctx: ScanContext, f: Node, list: Seq<Node>)
    requires
        progress(list).called is None,
    ensures
        stmt_reports(ctx, f, list).len() == 0,
    decreases list.len(),
{
    if list.len() > 0 {
        law_no_call_no_report(ctx, f, list.drop_last());
    }
}

/// A statement without what its string literals say.
pub fn cleaned_stmt_string(stmt: &Node) -> (r: String)
    ensures
        r@ == clean(*stmt),
{
    print_tokens(&stmt.tokens, Fill::Marked)
}

/// The line of a statement; zero for an item.
pub fn get_stmt_line(stmt: &Node) -> (r: usize)
    ensures
        r == stmt_line(*stmt),
{
    match stmt.kind {
        Kind::Local | Kind::ExprStmt { .. } | Kind::StmtMacro => stmt.line,
        _ => 0,
    }
}

/// The name that a `let` binds.
pub fn local_binding_ident(stmt: &Node) -> (r: Option<&str>)
    ensures
        r.is_some() == let_name(*stmt).is_some(),
        r.is_some() ==> Some(r.unwrap()@) == let_name(*stmt),
{
    get_let_name(stmt)
}

/// Where the first `end` characters of `s` end, without the white space there.
fn find_end(s: &Vec<char>, end: usize) -> (k: usize)
    requires
        end <= s@.len(),
    ensures
        k <= end,
        s@.take(k as int) == trimmed_end(s@.take(end as int)),
{
    let mut k: usize = end;
    while k > 0 && s[k - 1].is_whitespace()
        invariant
            k <= end <= s@.len(),
            trimmed_end(s@.take(k as int)) == trimmed_end(s@.take(end as int)),
        decreases k,
    {
        assert(s@.take(k as int).drop_last() =~= s@.take(k as int - 1));
        k = k - 1;
    }
    k
}

/// Whether the first `end` characters of `s` end with an identifier that is no
/// keyword.
fn is_named_end(s: &Vec<char>, end: usize) -> (b: bool)
    requires
        end <= s@.len(),
    ensures
        b == ends_named(s@.take(end as int)),
{
    let word = get_last_ident(s, end);
    !word.as_str().is_empty() && !same_as_any(word.as_str(), KEYWORDS.as_slice())
}

/// Whether a bracket behind the first `end` characters of `s` opens a call.
fn is_callable_end(s: &Vec<char>, end: usize) -> (b: bool)
    requires
        end <= s@.len(),
    ensures
        b == ends_callable(s@.take(end as int)),
{
    let k = find_end(s, end);
    if k == 0 {
        return false;
    }
    assert(s@.take(k as int).last() == s@[k - 1]);
    assert(s@.take(k as int).drop_last() =~= s@.take(k as int - 1));
    let c = s[k - 1];
    if c == '!' {
        is_named_end(s, find_end(s, k - 1))
    } else {
        c == ')' || c == ']' || c == '>' || is_named_end(s, k)
    }
}

/// Whether one of the flags is set.
fn any_set(flags: &Vec<bool>) -> (b: bool)
    ensures
        b == flags@.contains(true),
{
    let mut i: usize = 0;
    while i < flags.len()
        invariant
            i <= flags@.len(),
            forall|j: int| 0 <= j < i ==> !#[trigger] flags@[j],
        decreases flags@.len() - i,
    {
        if flags[i] {
            assert(flags@[i as int]);
            return true;
        }
        i = i + 1;
    }
    false
}

/// Whether `var` stands in `clean`, outside of literals, inside a call.
pub fn uses_var_in_call(clean: &str, var: &str) -> (b: bool)
    ensures
        b == uses_var(clean@, var@),
{
    let code = blank_literals(clean);
    let chars = chars_of(code.as_str());
    let needle = chars_of(var);
    if needle.len() > chars.len() {
        return false;
    }
    let last: usize = chars.len() - needle.len();
    let mut open: Vec<bool> = Vec::new();
    let mut i: usize = 0;
    assert(chars@.take(0) =~= Seq::<char>::empty());
    while i <= last
        invariant
            chars@ == outside_literals(clean@),
            needle@ == var@,
            last == chars@.len() - needle@.len(),
            i <= last + 1,
            chars@.len() <= usize::MAX,
            i <= chars@.len() ==> open@ == open_brackets(chars@.take(i as int)),
            forall|j: int| 0 <= j < i ==> !#[trigger] passed_at(chars@, var@, j),
        decreases last + 1 - i,
    {
        if matches_at(&chars, &needle, i) && any_set(&open) {
            let end: usize = i + needle.len();
            let left = i == 0 || !(chars[i - 1].is_alphanumeric() || chars[i - 1] == '_');
            let right = end == chars.len() || !(chars[end].is_alphanumeric() || chars[end]
                == '_');
            if left && right {
                assert(passed_at(chars@, var@, i as int));
                return true;
            }
        }
        assert(!passed_at(chars@, var@, i as int));
        if i >= chars.len() {
            return false;
        }
        assert(chars@.take(i as int + 1).drop_last() =~= chars@.take(i as int));
        assert(chars@.take(i as int + 1).last() == chars@[i as int]);
        if chars[i] == '(' {
            open.push(is_callable_end(&chars, i));
        } else if chars[i] == ')' && open.len() > 0 {
            open.pop();
        }
        i = i + 1;
    }
    false
}

/// Whether the statement hands a call context on, in the place where it is built.
fn does_hand_context(stmt: &Node) -> (b: bool)
    ensures
        b == some(nodes(*stmt), |n: Node| hands_context(n)),
{
    let list = nodes_in(stmt);
    any_node(
        &list,
        |n: &Node| -> (r: bool)
            ensures
                r == hands_context(*n)
        {
            matches!(n.kind, Kind::Call | Kind::MethodCall) && any_node(
                &n.get_parts(Role::Argument),
                |a: &Node| -> (q: bool)
                    ensures
                        q == context_arg(*a)
                { contains(blank_literals(a.text.as_str()).as_str(), "CpiContext") },
                Ghost(|a: Node| context_arg(a)),
            )
        },
        Ghost(|n: Node| hands_context(n)),
    )
}

/// Whether the statement calls another program.
fn is_program_call(text: &str, pending: &Vec<String>) -> (b: bool)
    ensures
        b == calls_program(text@, texts(pending@)),
{
    contains_any(text, NATIVE_CALLS.as_slice()) || contains_any(text, WRAPPED_CALLS.as_slice())
        || any_text(
        pending,
        |v: &str| -> (r: bool)
            ensures
                r == uses_var(text@, v@)
        { uses_var_in_call(text, v) },
        Ghost(|v: Seq<char>| uses_var(text@, v)),
    )
}

/// Whether the text holds an assignment.
pub fn has_assignment_op(clean: &str) -> (b: bool)
    ensures
        b == assigns(clean@),
{
    contains_any(clean, ASSIGNMENTS.as_slice())
}

/// Whether the statement writes account state.
pub fn is_state_mutation(stmt: &Node, clean: &str) -> (b: bool)
    ensures
        b == mutates(*stmt, clean@),
{
    (contains(clean, "serialize") && !contains_any(clean, DECODING.as_slice())) || contains_any(
        clean,
        ACCOUNT_BORROWS.as_slice(),
    ) || (contains_any(clean, STATE_WORDS.as_slice()) && contains(clean, "borrow_mut")) || (
    !matches!(stmt.kind, Kind::Local) && contains(clean, "data") && has_assignment_op(clean))
}

/// The findings on the statements of `list`, which lie in the function `f`.
fn findings_in(ctx: &ScanContext, f: &Node, list: &Vec<&Node>) -> (r: Vec<Finding>)
    ensures
        reports(r@) == stmt_reports(*ctx, *f, list@.unref()),
{
    let ghost all = list@.unref();
    let mut r: Vec<Finding> = Vec::new();
    let mut called: Option<usize> = None;
    let mut pending: Vec<String> = Vec::new();
    assert(texts(pending@) =~= Seq::<Seq<char>>::empty());
    let mut i: usize = 0;
    while i < list.len()
        invariant
            i <= list@.len(),
            all == list@.unref(),
            reports(r@) == stmt_reports(*ctx, *f, all.take(i as int)),
            called == progress(all.take(i as int)).called,
            texts(pending@) == progress(all.take(i as int)).pending,
        decreases list@.len() - i,
    {
        assert(all.take(i as int + 1).drop_last() =~= all.take(i as int));
        assert(all.take(i as int + 1).last() == *list@[i as int]);
        let stmt = list[i];
        let text = cleaned_stmt_string(stmt);
        let ghost was = texts(pending@);
        let ghost before = r@;
        if matches!(stmt.kind, Kind::Local) && contains(text.as_str(), "CpiContext") && contains(
            text.as_str(),
            "new",
        ) && !does_hand_context(stmt) {
            match local_binding_ident(stmt) {
                Some(name) => {
                    pending.push(name.to_owned());
                    assert(texts(pending@) =~= was.push(name@));
                },
                None => {},
            }
        } else if is_program_call(text.as_str(), &pending) {
            called = Some(get_stmt_line(stmt));
        } else {
            let behind = match called {
                Some(line) => get_stmt_line(stmt) > line,
                None => false,
            };
            if behind && is_state_mutation(stmt, text.as_str()) {
                let message = join3(
                    "Function '",
                    f.name.as_str(),
                    "' mutates state after CPI call (CEI violation)",
                );
                r.push(
                    raise(
                        &info(),
                        ctx,
                        Confidence::Low,
                        get_stmt_line(stmt),
                        1,
                        message,
                        "Solana's account locking mitigates CPI reentrancy, but CEI violations should be avoided for defense-in-depth. Move state mutations before CPI calls",
                    ),
                );
                assert(reports(r@) =~= reports(before).push(report_of(*ctx, *f, *stmt)));
            }
        }
        i = i + 1;
    }
    assert(all.take(i as int) =~= all);
    r
}

impl CpiReentrancyDetector {
    /// The findings on `f`.
    pub fn check(&self, ctx: &ScanContext, f: &Node) -> (r: Vec<Finding>)
        ensures
            reports(r@) == reports_in(*ctx, *f),
    {
        match f.kind {
            Kind::Function => {},
            _ => {
                return Vec::new();
            },
        }
        if is_test_attributed(f) {
            return Vec::new();
        }
        match f.get_part(Role::Body) {
            Some(body) => {
                let list = body.get_parts(Role::Entry);
                findings_in(ctx, f, &list)
            },
            None => Vec::new(),
        }
    }
}

impl Detector for CpiReentrancyDetector {
    open spec fn profile(&self) -> Profile {
        profile()
    }

    open spec fn reports_on(&self, ctx: ScanContext) -> Seq<Report> {
        all_reports(
            walk(ctx.ast, outside_functions_and_marked_tests()),
            |f: Node| reports_in(ctx, f),
        )
    }

    fn id(&self) -> (r: &'static str) {
        info().id
    }

    fn name(&self) -> (r: &'static str) {
        info().name
    }

    fn description(&self) -> (r: &'static str) {
        info().description
    }

    fn severity(&self) -> (r: Severity) {
        info().severity
    }

    fn confidence(&self) -> (r: Confidence) {
        info().confidence
    }

    fn chain(&self) -> (r: Chain) {
        info().chain
    }

    fn detect(&self, ctx: &ScanContext) -> (r: Vec<Finding>) {
        let list = walk_nodes(
            &ctx.ast,
            |n: &Node| -> (b: bool)
                ensures
                    b == outside_functions_and_marked_tests()(*n)
            {
                !matches!(n.kind, Kind::Function) && !(matches!(n.kind, Kind::Module)
                    && is_test_attributed(n))
            },
            Ghost(outside_functions_and_marked_tests()),
        );
        collect_all_findings(
            &list,
            |f: &Node| -> (s: Vec<Finding>)
                ensures
                    reports(s@) == reports_in(*ctx, *f)
            { self.check(ctx, f) },
            Ghost(|f: Node| reports_in(*ctx, f)),
        )
    }

    proof fn law_findings_are_stamped(&self, ctx: ScanContext) {
        assert forall|i: int| 0 <= i < self.reports_on(ctx).len() implies stamped(
            #[trigger] self.reports_on(ctx)[i],
            self.profile(),
            ctx,
        ) by {
            let list = walk(ctx.ast, outside_functions_and_marked_tests());
            let made = |f: Node| reports_in(ctx, f);
            lemma_all_reports_from(list, made, i);
            let (j, k) = choose|j: int, k: int|
                0 <= j < list.len() && 0 <= k < made(list[j]).len() && #[trigger] made(list[j])[k]
                    == all_reports(list, made)[i];
            lemma_stamped(ctx, list[j], (list[j].part(Role::Body)->0).parts(Role::Entry), k);
        }
    }
}

/// Every finding has the confidence that the rule states of itself.
pub proof fn law_confidence_is_the_rules_own(ctx: ScanContext)
    ensures
        forall|i: int|
            0 <= i < CpiReentrancyDetector.reports_on(ctx).len() ==> (
            #[trigger] CpiReentrancyDetector.reports_on(ctx)[i]).confidence == profile().confidence,
{
    assert forall|i: int| 0 <= i < CpiReentrancyDetector.reports_on(ctx).len() implies (
        #[trigger] CpiReentrancyDetector.reports_on(ctx)[i]).confidence == profile().confidence by {
        let list = walk(ctx.ast, outside_functions_and_marked_tests());
        let made = |f: Node| reports_in(ctx, f);
        lemma_all_reports_from(list, made, i);
        let (j, k) = choose|j: int, k: int|
            0 <= j < list.len() && 0 <= k < made(list[j]).len() && #[trigger] made(list[j])[k]
                == all_reports(list, made)[i];
        lemma_stamped(ctx, list[j], (list[j].part(Role::Body)->0).parts(Role::Entry), k);
    }
}

/// Nothing is reported on a test function.
pub proof fn law_test_function_is_silent(ctx: ScanContext, f: Node)
    requires
        test_attributed(f),
    ensures
        reports_in(ctx, f).len() == 0,
{
}

/// A test module contributes no report, whatever it holds.
pub proof fn law_test_module_is_silent(ctx: ScanContext, m: Node)
    requires
        m.kind is Module,
        test_attributed(m),
    ensures
        all_reports(
            walk(m, outside_functions_and_marked_tests()),
            |f: Node| reports_in(ctx, f),
        ) == Seq::<Report>::empty(),
{
    lemma_sealed_all(m, outside_functions_and_marked_tests(), |f: Node| reports_in(ctx, f));
}

/// Behind statements of which none names a call context, nothing is pending. Once one of
/// them calls a program, the last call known of stands above `line`.
proof fn lemma_called(list: Seq<Node>, j: int, k: int, line: usize)
    requires
        0 <= j < k <= list.len(),
        forall|m: int|
            0 <= m < k ==> !mentions(printed((#[trigger] list[m]).tokens@, Fill::Marked), "CpiContext"@)
                && list[m].line < line,
        mentions_any(
            printed(list[j].tokens@, Fill::Marked),
            seq!["invoke (", "invoke(", "invoke_signed", ":: cpi ::"],
        ),
    ensures
        progress(list.take(k)).pending.len() == 0,
        progress(list.take(k)).called matches Some(l) && l < line,
    decreases k,
{
    let here = list.take(k);
    assert(here.drop_last() =~= list.take(k - 1));
    assert(here.last() == list[k - 1]);
    lemma_nothing_pending(list, k - 1);
    if k - 1 > j {
        lemma_called(list, j, k - 1, line);
    }
}

/// Behind statements of which none names a call context, nothing is pending.
proof fn lemma_nothing_pending(list: Seq<Node>, k: int)
    requires
        0 <= k <= list.len(),
        forall|m: int|
            0 <= m < k ==> !mentions(printed((#[trigger] list[m]).tokens@, Fill::Marked), "CpiContext"@),
    ensures
        progress(list.take(k)).pending.len() == 0,
    decreases k,
{
    if k > 0 {
        assert(list.take(k).drop_last() =~= list.take(k - 1));
        assert(list.take(k).last() == list[k - 1]);
        lemma_nothing_pending(list, k - 1);
    }
}

/// A report on a statement stays among those on the statements behind it.
proof fn lemma_stays_reported(ctx: ScanContext, f: Node, list: Seq<Node>, i: int, k: int)
    requires
        0 <= i < k <= list.len(),
        violates(progress(list.take(i)), list[i]),
    ensures
        stmt_reports(ctx, f, list.take(k)).contains(report_of(ctx, f, list[i])),
    decreases k,
{
    let here = list.take(k);
    assert(here.drop_last() =~= list.take(k - 1));
    assert(here.last() == list[k - 1]);
    let before = stmt_reports(ctx, f, list.take(k - 1));
    let r = report_of(ctx, f, list[i]);
    if k - 1 == i {
        assert(before.push(r)[before.len() as int] == r);
    } else {
        lemma_stays_reported(ctx, f, list, i, k - 1);
        let p = before.index_of(r);
        assert(stmt_reports(ctx, f, here)[p] == r);
    }
}

/// A statement that writes account state is reported, at its own line, if it stands on a
/// line below a statement that calls a program: by `invoke`, by `invoke_signed`, or by a
/// function of a `cpi` module. It does not matter how far above that statement stands.
pub proof fn law_write_behind_a_call_is_reported(
    ctx: ScanContext,
    path: Seq<Node>,
    f: Node,
    body: Node,
    j: int,
    i: int,
)
    requires
        leads_openly(path, ctx.ast, f),
        f.kind is Function,
        f.parts(Role::Attribute).len() == 0,
        f.part(Role::Body) == Some(body),
        0 <= j < i < body.parts(Role::Entry).len(),
        forall|m: int|
            0 <= m < i ==> !mentions(
                printed((#[trigger] body.parts(Role::Entry)[m]).tokens@, Fill::Marked),
                "CpiContext"@,
            ) && body.parts(Role::Entry)[m].line < body.parts(Role::Entry)[i].line,
        mentions_any(
            printed(body.parts(Role::Entry)[j].tokens@, Fill::Marked),
            seq!["invoke (", "invoke(", "invoke_signed", ":: cpi ::"],
        ),
        !mentions_any(
            printed(body.parts(Role::Entry)[i].tokens@, Fill::Marked),
            seq!["invoke (", "invoke(", "invoke_signed", ":: cpi ::", "CpiContext"],
        ),
        body.parts(Role::Entry)[i].kind is Local || body.parts(Role::Entry)[i].kind is ExprStmt
            || body.parts(Role::Entry)[i].kind is StmtMacro,
        ({
    ||| mentions(printed(body.parts(Role::Entry)[i].tokens@, Fill::Marked), "serialize"@) && !mentions(printed(body.parts(Role::Entry)[i].tokens@, Fill::Marked), "deserialize"@) && !mentions(
        printed(body.parts(Role::Entry)[i].tokens@, Fill::Marked),
        "try_from_slice"@,
    )
    ||| mentions(printed(body.parts(Role::Entry)[i].tokens@, Fill::Marked), "try_borrow_mut_data"@)
    ||| mentions(printed(body.parts(Role::Entry)[i].tokens@, Fill::Marked), "try_borrow_mut_lamports"@)
    ||| mentions(printed(body.parts(Role::Entry)[i].tokens@, Fill::Marked), "borrow_mut_data"@)
    ||| mentions(printed(body.parts(Role::Entry)[i].tokens@, Fill::Marked), "borrow_mut_lamports"@)
    ||| mentions(printed(body.parts(Role::Entry)[i].tokens@, Fill::Marked), ". data"@) && mentions(printed(body.parts(Role::Entry)[i].tokens@, Fill::Marked), "borrow_mut"@)
    ||| mentions(printed(body.parts(Role::Entry)[i].tokens@, Fill::Marked), "lamports"@) && mentions(printed(body.parts(Role::Entry)[i].tokens@, Fill::Marked), "borrow_mut"@)
    ||| !(body.parts(Role::Entry)[i].kind is Local) && mentions(printed(body.parts(Role::Entry)[i].tokens@, Fill::Marked), "data"@) && mentions_any(
        printed(body.parts(Role::Entry)[i].tokens@, Fill::Marked),
        seq![" = ", " += ", " -= ", " *= ", " /= ", " %= ", " &= ", " |= ", " ^= ", " <<= ", " >>= "],
    )
        }),
    ensures
        exists|k: int|
            0 <= k < CpiReentrancyDetector.reports_on(ctx).len() && (
            #[trigger] CpiReentrancyDetector.reports_on(ctx)[k]).line == body.parts(
                Role::Entry,
            )[i].line && mentions(CpiReentrancyDetector.reports_on(ctx)[k].message, f.name@),
{
    let list = body.parts(Role::Entry);
    let stmt = list[i];
    let text = printed(stmt.tokens@, Fill::Marked);
    lemma_called(list, j, i, stmt.line);
    let p = progress(list.take(i));
    assert(!mentions(text, "CpiContext"@)) by {
        assert(seq!["invoke (", "invoke(", "invoke_signed", ":: cpi ::", "CpiContext"][4]@
            == "CpiContext"@);
    }
    assert(!mentions_any(text, NATIVE_CALLS@) && !mentions_any(text, WRAPPED_CALLS@)) by {
        let words = seq!["invoke (", "invoke(", "invoke_signed", ":: cpi ::", "CpiContext"];
        assert(words[0]@ == "invoke ("@ && words[1]@ == "invoke("@ && words[2]@ == "invoke_signed"@
            && words[3]@ == ":: cpi ::"@ && words[4]@ == "CpiContext"@);
    }
    assert(!calls_program(clean(stmt), p.pending));
    assert(mutates(stmt, text));
    assert(violates(p, stmt));
    lemma_stays_reported(ctx, f, list, i, list.len() as int);
    assert(list.take(list.len() as int) =~= list);
    let r = report_of(ctx, f, stmt);
    lemma_holds_middle(
        r.message,
        "Function '"@,
        f.name@,
        "' mutates state after CPI call (CEI violation)"@,
    );
    law_led_to_is_met(path, outside_functions_and_marked_tests());
    let all = walk(ctx.ast, outside_functions_and_marked_tests());
    law_reports_are_listed(all, |n: Node| reports_in(ctx, n), f, r);
    let k = CpiReentrancyDetector.reports_on(ctx).index_of(r);
    assert(CpiReentrancyDetector.reports_on(ctx)[k] == r);
}

/// Some statement of `list` in front of `k` says something of calling a program.
pub open spec fn speaks_of_programs(list: Seq<Node>, k: int) -> bool {
    exists|m: int|
        0 <= m < k && mentions_any(
            printed((#[trigger] list[m]).tokens@, Fill::Marked),
            seq!["invoke (", "invoke(", "invoke_signed", ":: cpi ::", "CpiContext"],
        )
}

/// A call is known of, or a context pending, only behind statements that say so.
proof fn lemma_calls_are_spoken_of(list: Seq<Node>, k: int)
    requires
        0 <= k <= list.len(),
        progress(list.take(k)).called is Some || progress(list.take(k)).pending.len() > 0,
    ensures
        speaks_of_programs(list, k),
    decreases k,
{
    let words = seq!["invoke (", "invoke(", "invoke_signed", ":: cpi ::", "CpiContext"];
    assert(words[0]@ == "invoke ("@ && words[1]@ == "invoke("@ && words[2]@ == "invoke_signed"@
        && words[3]@ == ":: cpi ::"@ && words[4]@ == "CpiContext"@);
    if k > 0 {
        assert(list.take(k).drop_last() =~= list.take(k - 1));
        assert(list.take(k).last() == list[k - 1]);
        let p = progress(list.take(k - 1));
        if p.called is Some || p.pending.len() > 0 {
            lemma_calls_are_spoken_of(list, k - 1);
        } else {
            assert(mentions_any(printed(list[k - 1].tokens@, Fill::Marked), words));
        }
    }
}

/// What is reported on a function writes account state, in a statement behind one that
/// says something of calling a program.
pub proof fn law_reported_write_has_a_call_above(ctx: ScanContext, f: Node, r: Report)
    requires
        reports_in(ctx, f).contains(r),
    ensures
        f.kind is Function,
        f.part(Role::Body) matches Some(body) && exists|i: int|
            0 <= i < body.parts(Role::Entry).len() && r.line == (#[trigger] body.parts(
                Role::Entry,
            )[i]).line && ({
    ||| mentions(printed(body.parts(Role::Entry)[i].tokens@, Fill::Marked), "serialize"@) && !mentions(printed(body.parts(Role::Entry)[i].tokens@, Fill::Marked), "deserialize"@) && !mentions(
        printed(body.parts(Role::Entry)[i].tokens@, Fill::Marked),
        "try_from_slice"@,
    )
    ||| mentions(printed(body.parts(Role::Entry)[i].tokens@, Fill::Marked), "try_borrow_mut_data"@)
    ||| mentions(printed(body.parts(Role::Entry)[i].tokens@, Fill::Marked), "try_borrow_mut_lamports"@)
    ||| mentions(printed(body.parts(Role::Entry)[i].tokens@, Fill::Marked), "borrow_mut_data"@)
    ||| mentions(printed(body.parts(Role::Entry)[i].tokens@, Fill::Marked), "borrow_mut_lamports"@)
    ||| mentions(printed(body.parts(Role::Entry)[i].tokens@, Fill::Marked), ". data"@) && mentions(printed(body.parts(Role::Entry)[i].tokens@, Fill::Marked), "borrow_mut"@)
    ||| mentions(printed(body.parts(Role::Entry)[i].tokens@, Fill::Marked), "lamports"@) && mentions(printed(body.parts(Role::Entry)[i].tokens@, Fill::Marked), "borrow_mut"@)
    ||| !(body.parts(Role::Entry)[i].kind is Local) && mentions(printed(body.parts(Role::Entry)[i].tokens@, Fill::Marked), "data"@) && mentions_any(
        printed(body.parts(Role::Entry)[i].tokens@, Fill::Marked),
        seq![" = ", " += ", " -= ", " *= ", " /= ", " %= ", " &= ", " |= ", " ^= ", " <<= ", " >>= "],
    )
        }) && speaks_of_programs(
                body.parts(Role::Entry),
                i,
            ),
{
    let body = f.part(Role::Body)->0;
    let list = body.parts(Role::Entry);
    assert(list.take(list.len() as int) =~= list);
    let i = lemma_reported_statement(ctx, f, list, list.len() as int, r);
    lemma_calls_are_spoken_of(list, i);
    assert(stmt_line(list[i]) == list[i].line);
}

/// Every report on statements comes from one of them.
proof fn lemma_reported_statement(
    ctx: ScanContext,
    f: Node,
    list: Seq<Node>,
    k: int,
    r: Report,
) -> (i: int)
    requires
        0 <= k <= list.len(),
        stmt_reports(ctx, f, list.take(k)).contains(r),
    ensures
        0 <= i < k,
        violates(progress(list.take(i)), list[i]),
        r == report_of(ctx, f, list[i]),
    decreases k,
{
    let here = list.take(k);
    assert(here.drop_last() =~= list.take(k - 1));
    assert(here.last() == list[k - 1]);
    let before = stmt_reports(ctx, f, list.take(k - 1));
    let p = stmt_reports(ctx, f, here).index_of(r);
    if p < before.len() {
        assert(before[p] == r);
        lemma_reported_statement(ctx, f, list, k - 1, r)
    } else {
        k - 1
    }
}

/// A name that stands right behind the bracket of a call is handed to the call.
proof fn lemma_handed(front: Seq<char>, v: Seq<char>, rest: Seq<char>)
    requires
        handed_over(front + " ("@ + v + rest, front, v, rest),
    ensures
        uses_var(front + " ("@ + v + rest, v),
{
    let code = front + " ("@ + v + rest;
    reveal_strlit(" (");
    law_unquoted_is_kept(code, false);
    let i = front.len() as int + 2;
    let head = code.take(i);
    assert(head.last() == '(');
    assert(head.drop_last() =~= front.push(' '));
    assert(front.push(' ').drop_last() =~= front);
    assert(trimmed_end(front.push(' ')) == trimmed_end(front));
    assert(trimmed_end(front) == front);
    assert(word_char(front.last()));
    assert(last_ident(front).len() > 0);
    assert(ends_named(front));
    assert(ends_callable(head.drop_last()));
    let open = open_brackets(head);
    assert(open[open.len() - 1]);
    assert(code.subrange(i, i + v.len()) =~= v);
    assert(code[i - 1] == '(');
    assert(rest.len() > 0 ==> code[i + v.len()] == rest[0]);
    assert(alone_at(code, v, i));
    assert(open.contains(true));
    assert(passed_at(code, v, i));
    assert(outside_literals(code) == code);
    assert(passed_at(outside_literals(code), v, i));
}

/// The code calls something by a name that is no keyword, and `v` is its first argument.
pub open spec fn handed_over(code: Seq<char>, front: Seq<char>, v: Seq<char>, rest: Seq<char>) -> bool {
    &&& code == front + " ("@ + v + rest
    &&& !code.contains('"') && !code.contains('\'')
    &&& front.len() > 0 && 'a' <= front.last() && front.last() <= 'z'
    &&& !is_any(last_ident(front), seq!["as", "break", "else", "for", "if", "in", "let", "match", "move", "mut", "ref", "return", "where", "while"])
    &&& v.len() > 0
    &&& rest.len() == 0 || rest[0] == ' ' || rest[0] == ')'
}

/// The statement binds `v` to a call context, and hands none on.
pub open spec fn builds_plainly(stmt: Node, v: Seq<char>) -> bool {
    &&& stmt.kind is Local
    &&& let_name(stmt) == Some(v)
    &&& mentions(printed(stmt.tokens@, Fill::Marked), "CpiContext"@)
    &&& mentions(printed(stmt.tokens@, Fill::Marked), "new"@)
    &&& forall|k: int, a: int|
        0 <= k < nodes(stmt).len() && (nodes(stmt)[k].kind is Call || nodes(
            stmt,
        )[k].kind is MethodCall) && 0 <= a < nodes(stmt)[k].parts(Role::Argument).len()
            ==> !mentions(
            outside_literals((#[trigger] nodes(stmt)[k].parts(Role::Argument)[a]).text@),
            "CpiContext"@,
        )
}

/// Behind the one statement that builds a context, that context alone is pending, and once
/// it was handed on, a call is known of.
proof fn lemma_context_pending(list: Seq<Node>, j: int, m: int, k: int, line: usize, v: Seq<char>)
    requires
        0 <= j < m < list.len(),
        0 <= k <= list.len(),
        builds_plainly(list[j], v),
        uses_var(printed(list[m].tokens@, Fill::Marked), v),
        forall|q: int|
            0 <= q < k ==> (q != j ==> !mentions(
                printed((#[trigger] list[q]).tokens@, Fill::Marked),
                "CpiContext"@,
            )) && list[q].line < line,
    ensures
        progress(list.take(k)).pending == (if k > j { seq![v] } else { Seq::<Seq<char>>::empty() }),
        k > m ==> (progress(list.take(k)).called matches Some(l) && l < line),
    decreases k,
{
    if k > 0 {
        let here = list.take(k);
        assert(here.drop_last() =~= list.take(k - 1));
        assert(here.last() == list[k - 1]);
        lemma_context_pending(list, j, m, k - 1, line, v);
        let p = progress(list.take(k - 1));
        let stmt = list[k - 1];
        if k - 1 == j {
            assert(!some(nodes(stmt), |n: Node| hands_context(n))) by {
                assert forall|i: int| 0 <= i < nodes(stmt).len() implies !hands_context(
                    #[trigger] nodes(stmt)[i],
                ) by {
                    let n = nodes(stmt)[i];
                    if n.kind is Call || n.kind is MethodCall {
                        let args = n.parts(Role::Argument);
                        assert forall|a: int| 0 <= a < args.len() implies !context_arg(
                            #[trigger] args[a],
                        ) by {
                            assert(args[a] == nodes(stmt)[i].parts(Role::Argument)[a]);
                        }
                    }
                }
            }
            assert(builds_context(stmt));
            assert(p.pending.push(v) =~= seq![v]);
        } else {
            assert(!mentions(printed(list[k - 1].tokens@, Fill::Marked), "CpiContext"@));
            assert(!builds_context(stmt));
            if k - 1 == m {
                let u = |x: Seq<char>| uses_var(clean(stmt), x);
                assert(u(p.pending[0]));
                assert(calls_program(clean(stmt), p.pending));
            }
        }
    } else {
        assert(list.take(0) =~= Seq::<Node>::empty());
    }
}

/// A call context is no call where it is built. The call is where it is handed on: a
/// statement further down that writes account state is reported.
pub proof fn law_handing_a_context_on_is_a_call(ctx: ScanContext, path: Seq<Node>, f: Node, body: Node, list: Seq<Node>, j: int, m: int, i: int, v: Seq<char>, front: Seq<char>, rest: Seq<char>)
    requires
        leads_openly(path, ctx.ast, f),
        f.kind is Function,
        f.parts(Role::Attribute).len() == 0,
        f.part(Role::Body) == Some(body),
        list == body.parts(Role::Entry),
        0 <= j < m < i < list.len(),
        builds_plainly(list[j], v),
        handed_over(printed(list[m].tokens@, Fill::Marked), front, v, rest),
        forall|q: int| 0 <= q < i ==> (q != j ==> !mentions(printed((#[trigger] list[q]).tokens@, Fill::Marked), "CpiContext"@)) && list[q].line < list[i].line,
        !mentions_any(printed(list[i].tokens@, Fill::Marked), seq!["invoke (", "invoke(", "invoke_signed", ":: cpi ::", "CpiContext"]),
        !uses_var(printed(list[i].tokens@, Fill::Marked), v),
        list[i].kind is Local || list[i].kind is ExprStmt || list[i].kind is StmtMacro,
        mentions(printed(list[i].tokens@, Fill::Marked), "borrow_mut_data"@),
    ensures
        exists|k: int| 0 <= k < CpiReentrancyDetector.reports_on(ctx).len() && (#[trigger] CpiReentrancyDetector.reports_on(ctx)[k]).line == list[i].line && mentions(CpiReentrancyDetector.reports_on(ctx)[k].message, f.name@),
{
    let stmt = list[i];
    let text = printed(stmt.tokens@, Fill::Marked);
    lemma_handed(front, v, rest);
    lemma_context_pending(list, j, m, i, stmt.line, v);
    let p = progress(list.take(i));
    let words = seq!["invoke (", "invoke(", "invoke_signed", ":: cpi ::", "CpiContext"];
    assert(words[0]@ == "invoke ("@ && words[1]@ == "invoke("@ && words[2]@ == "invoke_signed"@ && words[3]@ == ":: cpi ::"@ && words[4]@ == "CpiContext"@);
    assert(!mentions(text, "CpiContext"@));
    assert(!mentions_any(text, NATIVE_CALLS@) && !mentions_any(text, WRAPPED_CALLS@));
    assert forall|x: int| 0 <= x < p.pending.len() implies !uses_var(text, #[trigger] p.pending[x]) by {}
    assert(!calls_program(clean(stmt), p.pending));
    assert(mutates(stmt, text));
    assert(violates(p, stmt));
    lemma_stays_reported(ctx, f, list, i, list.len() as int);
    assert(list.take(list.len() as int) =~= list);
    let r = report_of(ctx, f, stmt);
    lemma_holds_middle(r.message, "Function '"@, f.name@, "' mutates state after CPI call (CEI violation)"@);
    law_led_to_is_met(path, outside_functions_and_marked_tests());
    let all = walk(ctx.ast, outside_functions_and_marked_tests());
    law_reports_are_listed(all, |n: Node| reports_in(ctx, n), f, r);
    let k = CpiReentrancyDetector.reports_on(ctx).index_of(r);
    assert(CpiReentrancyDetector.reports_on(ctx)[k] == r);
}

} // verus!
