//! Storage handlers that do not ask who calls them.
use vstd::prelude::*;
use crate::attributes::{
    carries_test, has_test_attribute, is_cfg_test, is_test_attributed, test_attributed,
};
use crate::caller_identity::{
    expr_reads_predecessor, identity, is_caller_read, names_caller, outside_macros,
    predecessor_taint, reads_caller, tainted,
};
use crate::calls::{
    called_names, callee_name, get_called_names, get_callee_name, get_macro_name, get_path_call,
    macro_name, own, path_call,
};
use crate::cfg::test_builds_only;
use crate::context::ScanContext;
use crate::detector::{Detector, Profile, raise, raised, RuleInfo, stamped};
use crate::finding::{Chain, Confidence, Finding, Report, Severity};
use crate::flow::{does_stop, law_exit_statement_stops, stands_in, stops};
use crate::syntax::{Kind, Node, Role};
use crate::text::{
    any_text, begins, contains, contains_any, ends, ends_any, ends_with_any, is_any, join3, listed,
    mentions, mentions_any, same, same_as_any, some_text, starts_with, texts,
};
use crate::tokens::idents;
use crate::walk::{
    any_node, collect_findings, collect_names, law_led_to_is_met, law_visits_meet_nodes_only, leads,
    leads_openly, lemma_reports_from, lemma_sealed, lemma_spoken_of, names_of, nodes, nodes_in,
    opt_report, opt_text, reports_of, some, speaks_of, walk, walk_nodes,
};

verus! {

/// Reports storage deposit, withdrawal and unregistration handlers that never
/// decide anything by the caller.
pub struct StorageStakingDetector;

/// The rule's description of itself.
pub open spec fn profile() -> Profile {
    Profile {
        id: "NEAR-003"@,
        name: "storage-staking-auth"@,
        description: "Detects storage_deposit/storage_withdraw without predecessor_account_id check"@,
        severity: Severity::High,
        confidence: Confidence::Medium,
        chain: Chain::Near,
    }
}

/// The rule's description of itself.
fn info() -> (r: RuleInfo)
    ensures
        r@ == profile(),
{
    RuleInfo {
        id: "NEAR-003",
        name: "storage-staking-auth",
        description: "Detects storage_deposit/storage_withdraw without predecessor_account_id check",
        severity: Severity::High,
        confidence: Confidence::Medium,
        chain: Chain::Near,
    }
}

/// Macros whose first argument decides.
pub const ONE_OPERAND: [&'static str; 3] = ["assert", "debug_assert", "require"];

/// Macros whose first two arguments decide.
pub const TWO_OPERANDS: [&'static str; 5] = [
    "assert_eq",
    "assert_ne",
    "debug_assert_eq",
    "debug_assert_ne",
    "require_eq",
];

/// Macros that reject a call.
pub const REJECTING_MACROS: [&'static str; 6] = [
    "panic",
    "unreachable",
    "assert",
    "assert_eq",
    "assert_ne",
    "require",
];

/// Functions that reject a call.
pub const REJECTING_CALLS: [&'static str; 3] = ["panic_str", "panic_utf8", "abort"];

/// Methods that stop where nothing is found.
pub const UNWRAPS: [&'static str; 2] = ["expect", "unwrap"];

/// Words of a body that changes state or moves funds.
pub const EFFECTS: [&'static str; 4] = ["insert", "remove", "transfer", "Promise"];

/// Words of a body that moves funds.
pub const PAYMENTS: [&'static str; 2] = ["Promise", "transfer"];

/// How the names of internal helpers end.
pub const INTERNAL_SUFFIXES: [&'static str; 2] = ["_impl", "_unchecked"];

/// What a function does with the caller.
#[derive(Clone, Copy, PartialEq, Eq, Structural)]
pub enum CallerIdentityRole {
    /// It decides something by the caller.
    Enforces,
    /// It hands the caller back.
    Resolves,
}

/// How many of the first arguments of an assertion decide it.
pub open spec fn condition_arity(name: Seq<char>) -> Option<nat> {
    if is_any(name, ONE_OPERAND@) {
        Some(1)
    } else if is_any(name, TWO_OPERANDS@) {
        Some(2)
    } else {
        None
    }
}

/// The node rejects the call.
pub open spec fn rejects(n: Node) -> bool {
    ||| n.kind is Return
    ||| macro_name(n) matches Some(name) && is_any(name, REJECTING_MACROS@)
    ||| path_call(n) matches Some(name) && is_any(name, REJECTING_CALLS@)
}

/// The block rejects the call outright: control does not get past it.
pub open spec fn rejecting(block: Node) -> bool {
    stops(block, |n: Node| rejects(n))
}

/// One of the deciding arguments of an assertion reads the caller.
pub open spec fn asserts_caller(n: Node, taint: Set<Seq<char>>) -> bool {
    match (macro_name(n), n.args) {
        (Some(name), Some(args)) => match condition_arity(name) {
            Some(arity) => exists|i: int|
                0 <= i < arity && i < args@.len() && reads_caller(#[trigger] args@[i], taint),
            None => false,
        },
        _ => false,
    }
}

/// The node decides something by the caller.
pub open spec fn decides(n: Node, taint: Set<Seq<char>>) -> bool {
    match n.kind {
        Kind::Macro => asserts_caller(n, taint),
        Kind::If => match (n.part(Role::Condition), n.part(Role::Then)) {
            (Some(cond), Some(then_block)) => reads_caller(cond, taint) && rejecting(then_block),
            _ => false,
        },
        Kind::MethodCall => is_any(n.name@, UNWRAPS@) && (n.part(
            Role::Receiver,
        ) matches Some(receiver) && reads_caller(receiver, taint)),
        _ => false,
    }
}

/// Something in the block decides by the caller.
pub open spec fn enforces(block: Node) -> bool {
    some(walk(block, outside_macros()), |n: Node| decides(n, tainted(block)))
}

/// The node returns the caller.
pub open spec fn returns_it(n: Node, taint: Set<Seq<char>>) -> bool {
    n.kind is Return && (n.part(Role::Operand) matches Some(expr) && reads_caller(expr, taint))
}

/// The value that a block ends with reads the caller.
pub open spec fn ends_with_caller(block: Node, taint: Set<Seq<char>>) -> bool {
    let stmts = block.parts(Role::Entry);
    &&& stmts.len() > 0
    &&& stmts.last().kind == (Kind::ExprStmt { semi: false })
    &&& stmts.last().part(Role::Operand) matches Some(expr) && reads_caller(expr, taint)
}

/// The function returns an account, and it is the caller, where `taint` are the
/// locals that hold the caller.
pub open spec fn resolves_with(f: Node, block: Node, taint: Set<Seq<char>>) -> bool {
    &&& f.part(Role::Output) matches Some(ty) && mentions(ty.text@, "AccountId"@)
    &&& {
        ||| ends_with_caller(block, taint)
        ||| some(nodes(block), |n: Node| returns_it(n, taint))
    }
}

/// The function returns an account, and it is the caller.
pub open spec fn resolves(f: Node, block: Node) -> bool {
    resolves_with(f, block, tainted(block))
}

/// What a function does with the caller.
pub open spec fn classify(f: Node) -> Option<CallerIdentityRole> {
    match f.part(Role::Body) {
        Some(block) => if enforces(block) {
            Some(CallerIdentityRole::Enforces)
        } else if resolves(f, block) {
            Some(CallerIdentityRole::Resolves)
        } else {
            None
        },
        None => None,
    }
}

/// The name of a call whose result is thrown away.
pub open spec fn discarded(n: Node) -> Option<Seq<char>> {
    if n.kind == (Kind::ExprStmt { semi: true }) {
        match n.part(Role::Operand) {
            Some(expr) => callee_name(expr),
            None => None,
        }
    } else {
        None
    }
}

/// The name of a call that is handed the caller.
pub open spec fn handed_caller(n: Node, taint: Set<Seq<char>>) -> Option<Seq<char>> {
    if some(n.parts(Role::Argument), |a: Node| reads_caller(a, taint)) {
        callee_name(n)
    } else {
        None
    }
}

/// The names of the calls that a function hands the caller to.
pub open spec fn identity_args(f: Node) -> Seq<Seq<char>> {
    match f.part(Role::Body) {
        Some(block) => names_of(nodes(block), |n: Node| handed_caller(n, tainted(block))),
        None => Seq::empty(),
    }
}

/// A function or a method that is no test.
pub open spec fn definition(n: Node) -> bool {
    (n.kind is Function || n.kind is Method) && !test_attributed(n)
}

/// Go below everything but test modules.
pub open spec fn outside_tests() -> spec_fn(Node) -> bool {
    |n: Node| !(n.kind is Module && test_builds_only(n))
}

/// Go below everything but test modules and functions.
pub open spec fn handlers() -> spec_fn(Node) -> bool {
    |n: Node| !(n.kind is Module && test_builds_only(n)) && !(n.kind is Function)
}

/// What the last definition of `name` in `list` that does anything with the caller
/// does with it.
pub open spec fn role_of(list: Seq<Node>, name: Seq<char>) -> Option<CallerIdentityRole>
    decreases list.len(),
{
    if list.len() == 0 {
        None
    } else if definition(list.last()) && list.last().name@ == name && classify(
        list.last(),
    ) is Some {
        classify(list.last())
    } else {
        role_of(list.drop_last(), name)
    }
}

/// The node at `i` is the last definition of its name in `list`.
pub open spec fn last_definition(list: Seq<Node>, i: int) -> bool {
    &&& 0 <= i < list.len()
    &&& definition(list[i])
    &&& forall|j: int|
        i < j < list.len() ==> !(definition(#[trigger] list[j]) && list[j].name@ == list[i].name@)
}

/// Some other function hands the caller to `name`.
pub open spec fn called_with_identity(list: Seq<Node>, name: Seq<char>) -> bool {
    exists|i: int| #[trigger]
        last_definition(list, i) && list[i].name@ != name && identity_args(list[i]).contains(name)
}

/// How often `name` stands in `list`.
pub open spec fn times(list: Seq<Seq<char>>, name: Seq<char>) -> nat
    decreases list.len(),
{
    if list.len() == 0 {
        0
    } else {
        times(list.drop_last(), name) + (if list.last() == name { 1nat } else { 0nat })
    }
}

/// A call to `callee` authorizes: it decides by the caller, or hands the caller
/// back to a function that does not always throw it away.
pub open spec fn authorizing_call(
    list: Seq<Node>,
    called: Seq<Seq<char>>,
    dropped: Seq<Seq<char>>,
    callee: Seq<char>,
) -> bool {
    match role_of(list, callee) {
        Some(CallerIdentityRole::Enforces) => true,
        Some(CallerIdentityRole::Resolves) => times(called, callee) > times(dropped, callee),
        None => false,
    }
}

/// Some function that `f` calls authorizes.
pub open spec fn authorized_below(list: Seq<Node>, f: Node) -> bool {
    match f.part(Role::Body) {
        Some(body) => some_text(
            called_names(body),
            |c: Seq<char>|
                authorizing_call(
                    list,
                    called_names(body),
                    names_of(nodes(body), |n: Node| discarded(n)),
                    c,
                ),
        ),
        None => false,
    }
}

/// A parameter that holds an account.
pub open spec fn account_param(p: Node) -> bool {
    p.kind is Param && {
        ||| p.part(Role::Type) matches Some(ty) && mentions(ty.text@, "AccountId"@)
        ||| p.part(Role::Pattern) matches Some(pat) && pat.text@ == "account_id"@
    }
}

/// A parameter that always holds an account.
pub open spec fn required_account_param(p: Node) -> bool {
    p.kind is Param && (p.part(Role::Type) matches Some(ty) && mentions(ty.text@, "AccountId"@)
        && !mentions(ty.text@, "Option"@))
}

/// The function can change its contract.
pub open spec fn mutable_receiver(f: Node) -> bool {
    f.parts(Role::Param).len() > 0 && (f.parts(
        Role::Param,
    )[0].kind matches Kind::Receiver { mutable, .. } && mutable)
}

/// Anybody may deposit for a named account out of their own pocket.
pub open spec fn permissionless(f: Node) -> bool {
    &&& mentions(f.name@, "storage_deposit"@)
    &&& !mentions(f.name@, "storage_withdraw"@)
    &&& !mentions(f.name@, "storage_unregister"@)
    &&& some(f.parts(Role::Param), |p: Node| required_account_param(p))
    &&& !mentions_any(f.body_text(), PAYMENTS@)
}

/// The function is an internal helper that is handed an account.
pub open spec fn internal(f: Node) -> bool {
    &&& begins(f.name@, "internal_"@) || ends_any(f.name@, INTERNAL_SUFFIXES@)
    &&& some(f.parts(Role::Param), |p: Node| account_param(p))
}

/// The names of storage handlers.
pub const HANDLERS: [&'static str; 3] = [
    "storage_deposit",
    "storage_withdraw",
    "storage_unregister",
];

/// The macros that only say something.
pub const SAYING_MACROS: [&'static str; 11] = [
    "format",
    "format_args",
    "print",
    "println",
    "eprint",
    "eprintln",
    "write",
    "writeln",
    "log",
    "panic",
    "unreachable",
];

/// The node takes the caller out of something that holds it.
pub open spec fn takes_caller(n: Node) -> bool {
    (n.kind is Field || n.kind is PatIdent) && n.name@ == "predecessor_account_id"@
}

/// The node reads the caller, and not only to say something about it.
pub open spec fn acts_on_caller(n: Node) -> bool {
    match macro_name(n) {
        Some(name) => if condition_arity(name) is Some {
            asserts_caller(n, Set::empty())
        } else {
            !is_any(name, SAYING_MACROS@) && names_caller(n, Set::empty())
        },
        None => names_caller(n, Set::empty()) || takes_caller(n),
    }
}

/// The function reads the caller by itself.
pub open spec fn checks_caller(f: Node) -> bool {
    f.part(Role::Body) matches Some(block) && some(
        walk(block, outside_macros()),
        |n: Node| acts_on_caller(n),
    )
}

/// A storage handler that never decides anything by the caller, where `list` holds
/// the functions of the file.
pub open spec fn unauthorized(list: Seq<Node>, f: Node) -> bool {
    &&& f.kind is Function
    &&& !carries_test(f)
    &&& mentions_any(f.name@, HANDLERS@)
    &&& mutable_receiver(f) || mentions_any(f.body_text(), EFFECTS@)
    &&& !permissionless(f)
    &&& !checks_caller(f)
    &&& !authorized_below(list, f)
    &&& !(internal(f) && called_with_identity(list, f.name@))
}

/// The report on `f`, if there is one, where `defs` hold the definitions that it is
/// judged by.
pub open spec fn report_among(ctx: ScanContext, defs: Seq<Node>, f: Node) -> Option<Report> {
    if unauthorized(defs, f) {
        Some(
            raised(
                profile(),
                ctx,
                Confidence::Medium,
                f.line,
                f.column,
                "Storage handler '"@ + f.name@ + "' does not check predecessor_account_id"@,
                "Use env::predecessor_account_id() to identify the caller and validate authorization"@,
            ),
        )
    } else {
        None
    }
}

/// The report on `f`, if there is one.
pub open spec fn report_on(ctx: ScanContext, f: Node) -> Option<Report> {
    report_among(ctx, walk(ctx.ast, outside_tests()), f)
}

/// How many of the first arguments of an assertion decide it.
pub fn assert_condition_arity(name: &str) -> (r: Option<usize>)
    ensures
        match r {
            Some(k) => condition_arity(name@) == Some(k as nat),
            None => condition_arity(name@) is None,
        },
{
    if same_as_any(name, ONE_OPERAND.as_slice()) {
        Some(1)
    } else if same_as_any(name, TWO_OPERANDS.as_slice()) {
        Some(2)
    } else {
        None
    }
}

/// Whether the block rejects the call outright.
pub fn block_rejects(block: &Node) -> (b: bool)
    ensures
        b == rejecting(*block),
{
    does_stop(
        block,
        &|n: &Node| -> (r: bool)
            ensures
                r == rejects(*n)
        {
            matches!(n.kind, Kind::Return) || (match get_macro_name(n) {
                Some(name) => same_as_any(name, REJECTING_MACROS.as_slice()),
                None => false,
            }) || (match get_path_call(n) {
                Some(name) => same_as_any(name, REJECTING_CALLS.as_slice()),
                None => false,
            })
        },
        Ghost(|n: Node| rejects(n)),
    )
}

/// The nodes of a block that are not inside a macro call.
fn outer_nodes(block: &Node) -> (r: Vec<&Node>)
    ensures
        r@.unref() == walk(*block, outside_macros()),
{
    walk_nodes(
        block,
        |n: &Node| -> (b: bool)
            ensures
                b == outside_macros()(*n)
        { !matches!(n.kind, Kind::Macro) },
        Ghost(outside_macros()),
    )
}

/// Whether one of the deciding arguments of an assertion reads the caller.
fn is_caller_assertion(n: &Node, taint: &Vec<String>) -> (b: bool)
    ensures
        b == asserts_caller(*n, texts(taint@).to_set()),
{
    match (get_macro_name(n), &n.args) {
        (Some(name), Some(args)) => match assert_condition_arity(name) {
            Some(arity) => {
                let ghost known = texts(taint@).to_set();
                let mut found = false;
                let mut i: usize = 0;
                while i < arity && i < args.len()
                    invariant
                        i <= arity,
                        i <= args@.len(),
                        known == texts(taint@).to_set(),
                        found == exists|j: int|
                            0 <= j < i && reads_caller(#[trigger] args@[j], known),
                    decreases args@.len() - i,
                {
                    if expr_reads_predecessor(&args[i], taint) {
                        assert(reads_caller(args@[i as int], known));
                        found = true;
                    }
                    i = i + 1;
                }
                found
            },
            None => false,
        },
        _ => false,
    }
}

/// Whether the node decides something by the caller.
fn is_decision(n: &Node, taint: &Vec<String>) -> (b: bool)
    ensures
        b == decides(*n, texts(taint@).to_set()),
{
    match n.kind {
        Kind::Macro => is_caller_assertion(n, taint),
        Kind::If => match (n.get_part(Role::Condition), n.get_part(Role::Then)) {
            (Some(cond), Some(then_block)) => expr_reads_predecessor(cond, taint) && block_rejects(
                then_block,
            ),
            _ => false,
        },
        Kind::MethodCall => same_as_any(n.name.as_str(), UNWRAPS.as_slice()) && (match n.get_part(
            Role::Receiver,
        ) {
            Some(receiver) => expr_reads_predecessor(receiver, taint),
            None => false,
        }),
        _ => false,
    }
}

/// Whether the function returns an account that is the caller, where `taint` are
/// the locals of its body that hold it.
pub fn returns_caller_identity(f: &Node, block: &Node, taint: &Vec<String>) -> (b: bool)
    ensures
        b == resolves_with(*f, *block, texts(taint@).to_set()),
{
    match f.get_part(Role::Output) {
        Some(ty) => {
            if !contains(ty.text.as_str(), "AccountId") {
                return false;
            }
        },
        None => {
            return false;
        },
    }
    let stmts = block.get_parts(Role::Entry);
    if stmts.len() > 0 {
        let last = stmts[stmts.len() - 1];
        assert(block.parts(Role::Entry).last() == *last);
        if last.kind == (Kind::ExprStmt { semi: false }) {
            if let Some(expr) = last.get_part(Role::Operand) {
                if expr_reads_predecessor(expr, taint) {
                    return true;
                }
            }
        }
    }
    let list = nodes_in(block);
    any_node(
        &list,
        |n: &Node| -> (r: bool)
            ensures
                r == returns_it(*n, texts(taint@).to_set())
        {
            matches!(n.kind, Kind::Return) && (match n.get_part(Role::Operand) {
                Some(expr) => expr_reads_predecessor(expr, taint),
                None => false,
            })
        },
        Ghost(|n: Node| returns_it(n, texts(taint@).to_set())),
    )
}

/// What a function does with the caller.
pub fn classify_caller_identity(f: &Node) -> (r: Option<CallerIdentityRole>)
    ensures
        r == classify(*f),
{
    match f.get_part(Role::Body) {
        Some(block) => {
            let taint = predecessor_taint(block);
            let list = outer_nodes(block);
            let enforced = any_node(
                &list,
                |n: &Node| -> (r: bool)
                    ensures
                        r == decides(*n, tainted(*block))
                { is_decision(n, &taint) },
                Ghost(|n: Node| decides(n, tainted(*block))),
            );
            if enforced {
                Some(CallerIdentityRole::Enforces)
            } else if returns_caller_identity(f, block, &taint) {
                Some(CallerIdentityRole::Resolves)
            } else {
                None
            }
        },
        None => None,
    }
}

/// The names of the calls of a block whose result is thrown away.
pub fn collect_discarded_callees_block(block: &Node) -> (r: Vec<String>)
    ensures
        texts(r@) == names_of(nodes(*block), |n: Node| discarded(n)),
{
    let list = nodes_in(block);
    collect_names(
        &list,
        |n: &Node| -> (s: Option<String>)
            ensures
                opt_text(s) == discarded(*n)
        {
            if n.kind == (Kind::ExprStmt { semi: true }) {
                match n.get_part(Role::Operand) {
                    Some(expr) => own(get_callee_name(expr)),
                    None => None,
                }
            } else {
                None
            }
        },
        Ghost(|n: Node| discarded(n)),
    )
}

/// The name of a call that is handed the caller.
fn get_handed_caller(n: &Node, taint: &Vec<String>) -> (r: Option<String>)
    ensures
        opt_text(r) == handed_caller(*n, texts(taint@).to_set()),
{
    let args = n.get_parts(Role::Argument);
    let ghost known = texts(taint@).to_set();
    let handed = any_node(
        &args,
        |a: &Node| -> (r: bool)
            ensures
                r == reads_caller(*a, known)
        { expr_reads_predecessor(a, taint) },
        Ghost(|a: Node| reads_caller(a, known)),
    );
    if handed {
        own(get_callee_name(n))
    } else {
        None
    }
}

/// The names of the calls that a function hands the caller to.
pub fn collect_identity_arg_callees(f: &Node) -> (r: Vec<String>)
    ensures
        texts(r@) == identity_args(*f),
{
    match f.get_part(Role::Body) {
        Some(block) => {
            let taint = predecessor_taint(block);
            let list = nodes_in(block);
            collect_names(
                &list,
                |n: &Node| -> (s: Option<String>)
                    ensures
                        opt_text(s) == handed_caller(*n, tainted(*block))
                { get_handed_caller(n, &taint) },
                Ghost(|n: Node| handed_caller(n, tainted(*block))),
            )
        },
        None => {
            let none: Vec<String> = Vec::new();
            assert(texts(none@) =~= Seq::<Seq<char>>::empty());
            none
        },
    }
}

/// Whether `n` is a function or a method that is no test.
fn is_definition(n: &Node) -> (b: bool)
    ensures
        b == definition(*n),
{
    matches!(n.kind, Kind::Function | Kind::Method { .. }) && !is_test_attributed(n)
}

/// How often `name` stands in `list`.
fn count_times(list: &Vec<String>, name: &str) -> (r: usize)
    ensures
        r == times(texts(list@), name@),
{
    let ghost all = texts(list@);
    let mut count: usize = 0;
    let mut i: usize = 0;
    while i < list.len()
        invariant
            i <= list@.len(),
            all == texts(list@),
            count <= i,
            count == times(all.take(i as int), name@),
        decreases list@.len() - i,
    {
        assert(all.take(i as int + 1).drop_last() =~= all.take(i as int));
        assert(all.take(i as int + 1).last() == list@[i as int]@);
        if same(list[i].as_str(), name) {
            count = count + 1;
        }
        i = i + 1;
    }
    assert(all.take(i as int) =~= all);
    count
}

/// Whether a parameter of `f` holds an account.
pub fn has_account_id_param(f: &Node) -> (b: bool)
    ensures
        b == some(f.parts(Role::Param), |p: Node| account_param(p)),
{
    let list = f.get_parts(Role::Param);
    any_node(
        &list,
        |p: &Node| -> (r: bool)
            ensures
                r == account_param(*p)
        {
            matches!(p.kind, Kind::Param) && ((match p.get_part(Role::Type) {
                Some(ty) => contains(ty.text.as_str(), "AccountId"),
                None => false,
            }) || (match p.get_part(Role::Pattern) {
                Some(pat) => same(pat.text.as_str(), "account_id"),
                None => false,
            }))
        },
        Ghost(|p: Node| account_param(p)),
    )
}

/// Whether a parameter of `f` always holds an account.
pub fn has_required_account_id_param(f: &Node) -> (b: bool)
    ensures
        b == some(f.parts(Role::Param), |p: Node| required_account_param(p)),
{
    let list = f.get_parts(Role::Param);
    any_node(
        &list,
        |p: &Node| -> (r: bool)
            ensures
                r == required_account_param(*p)
        {
            matches!(p.kind, Kind::Param) && (match p.get_part(Role::Type) {
                Some(ty) => contains(ty.text.as_str(), "AccountId") && !contains(
                    ty.text.as_str(),
                    "Option",
                ),
                None => false,
            })
        },
        Ghost(|p: Node| required_account_param(p)),
    )
}

/// Whether the function can change its contract.
fn has_mutable_receiver(f: &Node) -> (b: bool)
    ensures
        b == mutable_receiver(*f),
{
    let list = f.get_parts(Role::Param);
    if list.len() > 0 {
        assert(f.parts(Role::Param)[0] == *list@[0]);
        match list[0].kind {
            Kind::Receiver { mutable, .. } => mutable,
            _ => false,
        }
    } else {
        false
    }
}

/// Whether the node reads the caller, and not only to say something about it.
fn is_acting_on_caller(n: &Node) -> (b: bool)
    ensures
        b == acts_on_caller(*n),
{
    let none: Vec<String> = Vec::new();
    proof {
        assert(texts(none@) =~= Seq::<Seq<char>>::empty());
        assert(texts(none@).to_set() =~= Set::<Seq<char>>::empty());
    }
    match get_macro_name(n) {
        Some(name) => if assert_condition_arity(name).is_some() {
            is_caller_assertion(n, &none)
        } else {
            !same_as_any(name, SAYING_MACROS.as_slice()) && is_caller_read(n, &none)
        },
        None => is_caller_read(n, &none) || (matches!(n.kind, Kind::Field { .. } | Kind::PatIdent)
            && same(n.name.as_str(), "predecessor_account_id")),
    }
}

/// Whether the function reads the caller by itself.
fn does_check_caller(f: &Node) -> (b: bool)
    ensures
        b == checks_caller(*f),
{
    match f.get_part(Role::Body) {
        Some(block) => {
            let list = outer_nodes(block);
            any_node(
                &list,
                |n: &Node| -> (r: bool)
                    ensures
                        r == acts_on_caller(*n)
                { is_acting_on_caller(n) },
                Ghost(|n: Node| acts_on_caller(n)),
            )
        },
        None => false,
    }
}

/// The functions of a file, as the rule looks at them.
pub struct StorageVisitor<'a> {
    pub defs: Vec<&'a Node>,
}

impl<'a> StorageVisitor<'a> {
    /// What the last definition of `name` that does anything with the caller does
    /// with it.
    fn get_role(&self, name: &str) -> (r: Option<CallerIdentityRole>)
        ensures
            r == role_of(self.defs@.unref(), name@),
    {
        let ghost all = self.defs@.unref();
        let mut r: Option<CallerIdentityRole> = None;
        let mut i: usize = 0;
        while i < self.defs.len()
            invariant
                i <= self.defs@.len(),
                all == self.defs@.unref(),
                r == role_of(all.take(i as int), name@),
            decreases self.defs@.len() - i,
        {
            assert(all.take(i as int + 1).drop_last() =~= all.take(i as int));
            assert(all.take(i as int + 1).last() == *self.defs@[i as int]);
            if is_definition(self.defs[i]) && same(self.defs[i].name.as_str(), name) {
                if let Some(role) = classify_caller_identity(self.defs[i]) {
                    r = Some(role);
                }
            }
            i = i + 1;
        }
        assert(all.take(i as int) =~= all);
        r
    }

    /// Whether some function that `f` calls authorizes.
    pub fn auth_in_callees(&self, f: &Node) -> (b: bool)
        ensures
            b == authorized_below(self.defs@.unref(), *f),
    {
        match f.get_part(Role::Body) {
            Some(body) => {
                let called = get_called_names(body);
                let dropped = collect_discarded_callees_block(body);
                let ghost all = self.defs@.unref();
                let ghost lost = names_of(nodes(*body), |n: Node| discarded(n));
                any_text(
                    &called,
                    |c: &str| -> (r: bool)
                        ensures
                            r == authorizing_call(all, called_names(*body), lost, c@)
                    {
                        match self.get_role(c) {
                            Some(CallerIdentityRole::Enforces) => true,
                            Some(CallerIdentityRole::Resolves) => count_times(&called, c)
                                > count_times(&dropped, c),
                            None => false,
                        }
                    },
                    Ghost(|c: Seq<char>| authorizing_call(all, called_names(*body), lost, c)),
                )
            },
            None => false,
        }
    }

    /// Whether `i` is the last definition of its name.
    fn is_last_definition(&self, i: usize) -> (b: bool)
        requires
            i < self.defs@.len(),
        ensures
            b == last_definition(self.defs@.unref(), i as int),
    {
        let ghost all = self.defs@.unref();
        assert(all[i as int] == *self.defs@[i as int]);
        if !is_definition(self.defs[i]) {
            return false;
        }
        let name = self.defs[i].name.as_str();
        let total = self.defs.len();
        let mut j: usize = i + 1;
        while j < total
            invariant
                i < j <= total,
                total == self.defs@.len(),
                all == self.defs@.unref(),
                name@ == all[i as int].name@,
                forall|k: int|
                    i < k < j ==> !(definition(#[trigger] all[k]) && all[k].name@ == name@),
            decreases self.defs@.len() - j,
        {
            assert(all[j as int] == *self.defs@[j as int]);
            if is_definition(self.defs[j]) && same(self.defs[j].name.as_str(), name) {
                return false;
            }
            j = j + 1;
        }
        true
    }

    /// Whether some other function hands the caller to `fn_name`.
    pub fn auth_in_callers(&self, fn_name: &str) -> (b: bool)
        ensures
            b == called_with_identity(self.defs@.unref(), fn_name@),
    {
        let ghost all = self.defs@.unref();
        let mut i: usize = 0;
        while i < self.defs.len()
            invariant
                i <= self.defs@.len(),
                all == self.defs@.unref(),
                forall|k: int|
                    0 <= k < i ==> !(#[trigger] last_definition(all, k) && all[k].name@ != fn_name@
                        && identity_args(all[k]).contains(fn_name@)),
            decreases self.defs@.len() - i,
        {
            assert(all[i as int] == *self.defs@[i as int]);
            if self.is_last_definition(i) && !same(self.defs[i].name.as_str(), fn_name) && listed(
                &collect_identity_arg_callees(self.defs[i]),
                fn_name,
            ) {
                assert(last_definition(all, i as int));
                return true;
            }
            i = i + 1;
        }
        false
    }

    /// Whether `f` is a storage handler that never decides anything by the caller.
    pub fn is_unauthorized(&self, f: &Node) -> (b: bool)
        ensures
            b == unauthorized(self.defs@.unref(), *f),
    {
        match f.kind {
            Kind::Function => {},
            _ => {
                return false;
            },
        }
        let name = f.name.as_str();
        let body = f.get_body_text();
        if has_test_attribute(f) || !contains_any(
            name,
            HANDLERS.as_slice(),
        ) {
            return false;
        }
        if !has_mutable_receiver(f) && !contains_any(body, EFFECTS.as_slice()) {
            return false;
        }
        let open_to_all = contains(name, "storage_deposit") && !contains(name, "storage_withdraw")
            && !contains(name, "storage_unregister") && has_required_account_id_param(f)
            && !contains_any(body, PAYMENTS.as_slice());
        if open_to_all || does_check_caller(f) || self.auth_in_callees(f) {
            return false;
        }
        let inner = (starts_with(name, "internal_") || ends_with_any(
            name,
            INTERNAL_SUFFIXES.as_slice(),
        )) && has_account_id_param(f);
        !(inner && self.auth_in_callers(name))
    }
}

impl StorageStakingDetector {
    /// The finding on `f`, if there is one, where `visitor` holds the functions of
    /// the file.
    pub fn check(
        &self,
        ctx: &ScanContext,
        visitor: &StorageVisitor<'_>,
        f: &Node,
    ) -> (r: Option<Finding>)
        ensures
            opt_report(r) == report_among(*ctx, visitor.defs@.unref(), *f),
    {
        if !visitor.is_unauthorized(f) {
            return None;
        }
        let text = join3(
            "Storage handler '",
            f.name.as_str(),
            "' does not check predecessor_account_id",
        );
        Some(
            raise(
                &info(),
                ctx,
                Confidence::Medium,
                f.line,
                f.column,
                text,
                "Use env::predecessor_account_id() to identify the caller and validate authorization",
            ),
        )
    }
}

impl Detector for StorageStakingDetector {
    open spec fn profile(&self) -> Profile {
        profile()
    }

    open spec fn reports_on(&self, ctx: ScanContext) -> Seq<Report> {
        reports_of(walk(ctx.ast, handlers()), |f: Node| report_on(ctx, f))
    }

    fn id(&self) -> (r: &'static str) {
        info().id
    }

    fn name(&self) -> (r: &'static str) {
        info().name
    }

    fn description(&self) -> (r: &'static str) {
        info().description
    }

    fn severity(&self) -> (r: Severity) {
        info().severity
    }

    fn confidence(&self) -> (r: Confidence) {
        info().confidence
    }

    fn chain(&self) -> (r: Chain) {
        info().chain
    }

    fn detect(&self, ctx: &ScanContext) -> (r: Vec<Finding>) {
        let defs = walk_nodes(
            &ctx.ast,
            |n: &Node| -> (b: bool)
                ensures
                    b == outside_tests()(*n)
            { !(matches!(n.kind, Kind::Module) && is_cfg_test(n)) },
            Ghost(outside_tests()),
        );
        let visitor = StorageVisitor { defs };
        let list = walk_nodes(
            &ctx.ast,
            |n: &Node| -> (b: bool)
                ensures
                    b == handlers()(*n)
            {
                !(matches!(n.kind, Kind::Module) && is_cfg_test(n)) && !matches!(n.kind, Kind::Function)
            },
            Ghost(handlers()),
        );
        collect_findings(
            &list,
            |f: &Node| -> (s: Option<Finding>)
                ensures
                    opt_report(s) == report_on(*ctx, *f)
            { self.check(ctx, &visitor, f) },
            Ghost(|f: Node| report_on(*ctx, f)),
        )
    }

    proof fn law_findings_are_stamped(&self, ctx: ScanContext) {
        assert forall|i: int| 0 <= i < self.reports_on(ctx).len() implies stamped(
            #[trigger] self.reports_on(ctx)[i],
            self.profile(),
            ctx,
        ) by {
            lemma_reports_from(walk(ctx.ast, handlers()), |f: Node| report_on(ctx, f), i);
        }
    }
}

/// Every finding has the confidence that the rule states of itself.
pub proof fn law_confidence_is_the_rules_own(ctx: ScanContext)
    ensures
        forall|i: int|
            0 <= i < StorageStakingDetector.reports_on(ctx).len() ==> (
            #[trigger] StorageStakingDetector.reports_on(ctx)[i]).confidence == profile().confidence,
{
    assert forall|i: int| 0 <= i < StorageStakingDetector.reports_on(ctx).len() implies (
        #[trigger] StorageStakingDetector.reports_on(ctx)[i]).confidence == profile().confidence by {
        lemma_reports_from(walk(ctx.ast, handlers()), |f: Node| report_on(ctx, f), i);
    }
}

/// Nothing is reported on a test function.
pub proof fn law_test_function_is_silent(ctx: ScanContext, f: Node)
    requires
        carries_test(f),
    ensures
        report_on(ctx, f) is None,
{
}

/// A test module contributes no report, whatever it holds.
pub proof fn law_test_module_is_silent(ctx: ScanContext, m: Node)
    requires
        m.kind is Module,
        test_builds_only(m),
    ensures
        reports_of(walk(m, handlers()), |f: Node| report_on(ctx, f)) == Seq::<Report>::empty(),
{
    lemma_sealed(m, handlers(), |f: Node| report_on(ctx, f));
}

/// The node neither asks for the caller nor holds an identifier that does.
pub open spec fn silent_on_caller(n: Node) -> bool {
    &&& n.name@ != "predecessor_account_id"@
    &&& n.last_word() != Some("predecessor_account_id"@)
    &&& !idents(n.tokens@).contains("predecessor_account_id"@)
}

/// Nothing in the tree asks for the caller, the arguments of macro calls included.
pub open spec fn asks_for_no_caller(block: Node) -> bool {
    forall|k: int|
        0 <= k < nodes(block).len() ==> silent_on_caller(#[trigger] nodes(block)[k]) && (nodes(
            block,
        )[k].args matches Some(args) ==> forall|a: int, m: int|
            0 <= a < args@.len() && 0 <= m < nodes(args@[a]).len() ==> silent_on_caller(
                #[trigger] nodes(args@[a])[m],
            ))
}

/// A tree in which nothing asks for the caller does not read it.
proof fn lemma_reads_no_caller(expr: Node)
    requires
        forall|m: int| 0 <= m < nodes(expr).len() ==> silent_on_caller(#[trigger] nodes(expr)[m]),
    ensures
        !reads_caller(expr, Set::empty()),
{
    let list = walk(expr, outside_macros());
    assert forall|i: int| 0 <= i < list.len() implies !names_caller(
        #[trigger] list[i],
        Set::empty(),
    ) by {
        assert(list.contains(list[i]));
        law_visits_meet_nodes_only(expr, outside_macros(), list[i]);
        let k = nodes(expr).index_of(list[i]);
        assert(silent_on_caller(nodes(expr)[k]));
        lemma_names_no_caller(list[i]);
    }
}

/// A node that does not ask for the caller does not read it.
proof fn lemma_names_no_caller(n: Node)
    requires
        silent_on_caller(n),
    ensures
        !names_caller(n, Set::empty()),
{
    let list = idents(n.tokens@);
    assert forall|i: int| 0 <= i < list.len() implies !identity(Set::empty(), #[trigger] list[i]) by {
        assert(list.contains(list[i]));
    }
}

/// A function in which nothing asks for the caller does not check it.
proof fn lemma_checks_no_caller(f: Node, block: Node)
    requires
        f.part(Role::Body) == Some(block),
        asks_for_no_caller(block),
    ensures
        !checks_caller(f),
{
    let list = walk(block, outside_macros());
    assert forall|i: int| 0 <= i < list.len() implies !acts_on_caller(#[trigger] list[i]) by {
        let n = list[i];
        assert(list.contains(n));
        law_visits_meet_nodes_only(block, outside_macros(), n);
        let k = nodes(block).index_of(n);
        assert(silent_on_caller(nodes(block)[k]));
        lemma_names_no_caller(n);
        if asserts_caller(n, Set::empty()) {
            let args = n.args->0;
            let arity = condition_arity(macro_name(n)->0)->0;
            let a = choose|a: int|
                0 <= a < arity && a < args@.len() && reads_caller(#[trigger] args@[a], Set::empty());
            lemma_reads_no_caller(args@[a]);
        }
    }
}

/// A name that nothing in `list` defines does nothing with the caller.
proof fn lemma_unknown_has_no_role(list: Seq<Node>, name: Seq<char>)
    requires
        forall|k: int|
            0 <= k < list.len() ==> !(((#[trigger] list[k]).kind is Function || list[k].kind is Method)
                && list[k].name@ == name),
    ensures
        role_of(list, name) is None,
    decreases list.len(),
{
    if list.len() > 0 {
        assert(!((list[list.len() - 1].kind is Function || list[list.len() - 1].kind is Method)
            && list[list.len() - 1].name@ == name));
        assert forall|k: int| 0 <= k < list.drop_last().len() implies !(((
        #[trigger] list.drop_last()[k]).kind is Function || list.drop_last()[k].kind is Method)
            && list.drop_last()[k].name@ == name) by {
            assert(list.drop_last()[k] == list[k]);
        }
        lemma_unknown_has_no_role(list.drop_last(), name);
    }
}

/// A handler that calls nothing of the file is not authorized by what it calls.
proof fn lemma_not_authorized_below(ctx: ScanContext, f: Node, body: Node)
    requires
        f.part(Role::Body) == Some(body),
        forall|k: int|
            0 <= k < nodes(ctx.ast).len() && ((#[trigger] nodes(ctx.ast)[k]).kind is Function
                || nodes(ctx.ast)[k].kind is Method) ==> !called_names(body).contains(
                nodes(ctx.ast)[k].name@,
            ),
    ensures
        !authorized_below(walk(ctx.ast, outside_tests()), f),
{
    let list = walk(ctx.ast, outside_tests());
    let called = called_names(body);
    assert forall|c: int| 0 <= c < called.len() implies role_of(list, #[trigger] called[c]) is None by {
        assert(called.contains(called[c]));
        assert forall|k: int| 0 <= k < list.len() implies !(((#[trigger] list[k]).kind is Function
            || list[k].kind is Method) && list[k].name@ == called[c]) by {
            assert(list.contains(list[k]));
            law_visits_meet_nodes_only(ctx.ast, outside_tests(), list[k]);
            let p = nodes(ctx.ast).index_of(list[k]);
            assert(nodes(ctx.ast)[p] == list[k]);
        }
        lemma_unknown_has_no_role(list, called[c]);
    }
}

/// A reported handler is spoken of, wherever in the file it stands.
proof fn lemma_reported(ctx: ScanContext, path: Seq<Node>, f: Node)
    requires
        leads_openly(path, ctx.ast, f),
        report_on(ctx, f) is Some,
    ensures
        speaks_of(StorageStakingDetector.reports_on(ctx), f),
{
    lemma_spoken_of(
        path,
        handlers(),
        |n: Node| report_on(ctx, n),
        "Storage handler '"@,
        "' does not check predecessor_account_id"@,
    );
}

/// A handler of deposits is reported if it can change the contract, does not ask for the
/// caller and calls nothing of the file, unless it takes an account that is not optional
/// and pays nothing out: either lack is enough.
pub proof fn law_deposit_is_exempt_only_if_both_hold(
    ctx: ScanContext,
    path: Seq<Node>,
    f: Node,
    body: Node,
)
    requires
        leads_openly(path, ctx.ast, f),
        f.kind is Function,
        f.parts(Role::Attribute).len() == 0,
        mentions(f.name@, "storage_deposit"@),
        !begins(f.name@, "internal_"@),
        !ends(f.name@, "_impl"@),
        !ends(f.name@, "_unchecked"@),
        f.parts(Role::Param).len() > 0,
        f.parts(Role::Param)[0].kind == (Kind::Receiver { reference: true, mutable: true }),
        f.part(Role::Body) == Some(body),
        asks_for_no_caller(body),
        forall|k: int|
            0 <= k < nodes(ctx.ast).len() && ((#[trigger] nodes(ctx.ast)[k]).kind is Function
                || nodes(ctx.ast)[k].kind is Method) ==> !called_names(body).contains(
                nodes(ctx.ast)[k].name@,
            ),
        mentions(body.text@, "Promise"@) || mentions(body.text@, "transfer"@) || forall|k: int|
            0 <= k < f.parts(Role::Param).len() ==> !((#[trigger] f.parts(Role::Param)[k]).part(
                Role::Type,
            ) matches Some(ty) && mentions(ty.text@, "AccountId"@) && !mentions(
                ty.text@,
                "Option"@,
            )),
    ensures
        speaks_of(StorageStakingDetector.reports_on(ctx), f),
{
    lemma_checks_no_caller(f, body);
    lemma_not_authorized_below(ctx, f, body);
    assert(!permissionless(f));
    assert(!carries_test(f));
    assert(mutable_receiver(f));
    assert(mentions_any(f.name@, HANDLERS@));
    lemma_reported(ctx, path, f);
}

/// A handler of withdrawals or of unregistrations is reported, whatever it takes and
/// pays, if it touches the contract's state or funds, does not ask for the caller and
/// calls nothing of the file.
pub proof fn law_withdrawal_is_never_exempt(
    ctx: ScanContext,
    path: Seq<Node>,
    f: Node,
    body: Node,
)
    requires
        leads_openly(path, ctx.ast, f),
        f.kind is Function,
        f.parts(Role::Attribute).len() == 0,
        mentions(f.name@, "storage_withdraw"@) || mentions(f.name@, "storage_unregister"@),
        !begins(f.name@, "internal_"@),
        !ends(f.name@, "_impl"@),
        !ends(f.name@, "_unchecked"@),
        f.part(Role::Body) == Some(body),
        (f.parts(Role::Param).len() > 0 && (f.parts(
            Role::Param,
        )[0].kind matches Kind::Receiver { mutable, .. } && mutable)) || mentions(
            body.text@,
            "insert"@,
        ) || mentions(body.text@, "remove"@) || mentions(body.text@, "transfer"@) || mentions(
            body.text@,
            "Promise"@,
        ),
        asks_for_no_caller(body),
        forall|k: int|
            0 <= k < nodes(ctx.ast).len() && ((#[trigger] nodes(ctx.ast)[k]).kind is Function
                || nodes(ctx.ast)[k].kind is Method) ==> !called_names(body).contains(
                nodes(ctx.ast)[k].name@,
            ),
    ensures
        speaks_of(StorageStakingDetector.reports_on(ctx), f),
{
    lemma_checks_no_caller(f, body);
    lemma_not_authorized_below(ctx, f, body);
    assert(!permissionless(f));
    assert(!carries_test(f));
    assert(mentions_any(f.name@, HANDLERS@));
    lemma_reported(ctx, path, f);
}

/// A handler of deposits that takes an account for certain, and pays nothing out, is not
/// reported: anybody may pay for the storage of anybody.
pub proof fn law_deposit_for_a_named_account_is_exempt(ctx: ScanContext, f: Node, k: int, ty: Node)
    requires
        mentions(f.name@, "storage_deposit"@),
        !mentions(f.name@, "storage_withdraw"@),
        !mentions(f.name@, "storage_unregister"@),
        0 <= k < f.parts(Role::Param).len(),
        f.parts(Role::Param)[k].kind is Param,
        f.parts(Role::Param)[k].part(Role::Type) == Some(ty),
        mentions(ty.text@, "AccountId"@),
        !mentions(ty.text@, "Option"@),
        !mentions(f.body_text(), "Promise"@),
        !mentions(f.body_text(), "transfer"@),
    ensures
        report_on(ctx, f) is None,
{
    let p = |p: Node| required_account_param(p);
    assert(p(f.parts(Role::Param)[k]));
    assert(permissionless(f));
}

/// A handler that asks for the caller, outside of a macro call, is not reported.
pub proof fn law_asking_for_the_caller_is_enough(
    ctx: ScanContext,
    f: Node,
    body: Node,
    path: Seq<Node>,
)
    requires
        f.part(Role::Body) == Some(body),
        leads(path),
        path[0] == body,
        forall|i: int| 0 <= i < path.len() ==> !((#[trigger] path[i]).kind is Macro),
        (path.last().kind is PathExpr && path.last().last_word() == Some("predecessor_account_id"@))
            || ((path.last().kind is MethodCall || path.last().kind is Field) && path.last().name@
            == "predecessor_account_id"@),
    ensures
        report_on(ctx, f) is None,
{
    law_led_to_is_met(path, outside_macros());
    let list = walk(body, outside_macros());
    let i = list.index_of(path.last());
    let p = |n: Node| acts_on_caller(n);
    assert(p(list[i]));
    assert(checks_caller(f));
}

/// What is reported is a storage handler that touches state or funds.
pub proof fn law_only_handlers_are_reported(ctx: ScanContext, f: Node)
    requires
        report_on(ctx, f) is Some,
    ensures
        f.kind is Function,
        mentions(f.name@, "storage_deposit"@) || mentions(f.name@, "storage_withdraw"@) || mentions(
            f.name@,
            "storage_unregister"@,
        ),
        (f.parts(Role::Param).len() > 0 && (f.parts(
            Role::Param,
        )[0].kind matches Kind::Receiver { mutable, .. } && mutable)) || mentions(
            f.body_text(),
            "insert"@,
        ) || mentions(f.body_text(), "remove"@) || mentions(f.body_text(), "transfer"@) || mentions(
            f.body_text(),
            "Promise"@,
        ),
{
}

/// `path` leads from `e` to a place that asks for the caller, without going through a
/// macro call.
pub open spec fn leads_to_caller(path: Seq<Node>, e: Node) -> bool {
    &&& leads(path)
    &&& path[0] == e
    &&& forall|i: int| 0 <= i < path.len() ==> !((#[trigger] path[i]).kind is Macro)
    &&& (path.last().kind is PathExpr && path.last().last_word() == Some("predecessor_account_id"@))
        || (path.last().kind is MethodCall && path.last().name@ == "predecessor_account_id"@)
}

/// What leads to a place that asks for the caller reads it, whatever the locals hold.
proof fn lemma_reads_caller(path: Seq<Node>, e: Node, taint: Set<Seq<char>>)
    requires
        leads_to_caller(path, e),
    ensures
        reads_caller(e, taint),
{
    law_led_to_is_met(path, outside_macros());
    let list = walk(e, outside_macros());
    let p = |n: Node| names_caller(n, taint);
    assert(p(list[list.index_of(path.last())]));
}

/// The one definition of a name says what calls of that name do.
proof fn lemma_only_role(list: Seq<Node>, h: Node)
    requires
        list.contains(h),
        definition(h),
        classify(h) is Some,
        forall|k: int|
            0 <= k < list.len() && definition(#[trigger] list[k]) && list[k].name@ == h.name@
                ==> list[k] == h,
    ensures
        role_of(list, h.name@) == classify(h),
    decreases list.len(),
{
    if definition(list.last()) && list.last().name@ == h.name@ {
        assert(list[list.len() - 1] == h);
    } else {
        let i = list.index_of(h);
        assert(list.drop_last()[i] == h);
        assert forall|k: int|
            0 <= k < list.drop_last().len() && definition(#[trigger] list.drop_last()[k])
                && list.drop_last()[k].name@ == h.name@ implies list.drop_last()[k] == h by {
            assert(list[k] == list.drop_last()[k]);
        }
        lemma_only_role(list.drop_last(), h);
    }
}

/// A handler that asserts something of the caller, in the condition and not in the
/// message, is not reported, whichever of the asserting macros it uses.
pub proof fn law_asserting_the_caller_is_enough(ctx: ScanContext, f: Node, body: Node, way: Seq<Node>, n: Node, name: Seq<char>, args: Vec<Node>, a: int, path: Seq<Node>)
    requires
        f.part(Role::Body) == Some(body),
        leads(way),
        way[0] == body,
        way.last() == n,
        forall|i: int| 0 <= i < way.len() - 1 ==> !((#[trigger] way[i]).kind is Macro),
        n.kind is Macro,
        n.last_word() == Some(name),
        n.args == Some(args),
        0 <= a < args@.len(),
        (a == 0 && is_any(name, seq!["assert", "debug_assert", "require"])) || (a <= 1 && is_any(name, seq!["assert_eq", "assert_ne", "debug_assert_eq", "debug_assert_ne", "require_eq"]) && !is_any(name, seq!["assert", "debug_assert", "require"])),
        leads_to_caller(path, args@[a]),
    ensures
        report_on(ctx, f) is None,
{
    lemma_reads_caller(path, args@[a], Set::empty());
    law_led_to_is_met(way, outside_macros());
    if a == 0 && is_any(name, seq!["assert", "debug_assert", "require"]) {
        assert(is_any(name, ONE_OPERAND@));
    } else {
        assert(is_any(name, TWO_OPERANDS@));
        assert(!is_any(name, ONE_OPERAND@));
    }
    let arity = condition_arity(name)->0;
    assert(condition_arity(name) == Some(arity));
    assert(macro_name(n) == Some(name));
    let held = n.args->0;
    assert(held == args);
    assert(0 <= a < arity && a < held@.len() && reads_caller(held@[a], Set::empty()));
    assert(exists|i: int|
        0 <= i < arity && i < held@.len() && reads_caller(#[trigger] held@[i], Set::empty()));
    assert(asserts_caller(n, Set::empty()));
    let list = walk(body, outside_macros());
    let p = |m: Node| acts_on_caller(m);
    assert(p(list[list.index_of(n)]));
    assert(checks_caller(f));
}

/// A handler is not reported if it calls a function of the file that turns callers
/// away: by an `if` on the caller whose block returns, panics or aborts.
pub proof fn law_helper_may_turn_callers_away(ctx: ScanContext, f: Node, body: Node, way: Seq<Node>, h: Node, inner: Node, into: Seq<Node>, n: Node, cond: Node, then_block: Node, stmt: Node, leaf: Node, path: Seq<Node>)
    requires
        h.kind is Function || h.kind is Method,
        h.parts(Role::Attribute).len() == 0,
        leads_openly(way, ctx.ast, h),
        forall|k: int| 0 <= k < nodes(ctx.ast).len() && ((#[trigger] nodes(ctx.ast)[k]).kind is Function || nodes(ctx.ast)[k].kind is Method) && nodes(ctx.ast)[k].name@ == h.name@ ==> nodes(ctx.ast)[k] == h,
        h.part(Role::Body) == Some(inner),
        f.part(Role::Body) == Some(body),
        called_names(body).contains(h.name@),
        leads(into),
        into[0] == inner,
        into.last() == n,
        forall|i: int| 0 <= i < into.len() - 1 ==> !((#[trigger] into[i]).kind is Macro),
        n.kind is If,
        n.part(Role::Condition) == Some(cond),
        leads_to_caller(path, cond),
        n.part(Role::Then) == Some(then_block),
        stands_in(then_block, stmt, leaf),
        (leaf.kind is Return || (leaf.kind is Macro && (leaf.last_word() matches Some(w) && is_any(w, seq!["panic", "unreachable", "assert", "assert_eq", "assert_ne", "require"]))) || (path_call(leaf) matches Some(w) && is_any(w, seq!["panic_str", "panic_utf8", "abort"]))),
    ensures
        report_on(ctx, f) is None,
{
    law_led_to_is_met(into, outside_macros());
    let met = walk(inner, outside_macros());
    let taint = tainted(inner);
    lemma_reads_caller(path, cond, taint);
    law_exit_statement_stops(then_block, stmt, leaf, |m: Node| rejects(m));
    let d = |m: Node| decides(m, taint);
    assert(d(met[met.index_of(n)]));
    assert(classify(h) == Some(CallerIdentityRole::Enforces));
    let list = walk(ctx.ast, outside_tests());
    law_led_to_is_met(way, outside_tests());
    assert forall|k: int| 0 <= k < list.len() && definition(#[trigger] list[k]) && list[k].name@ == h.name@ implies list[k] == h by {
        assert(list.contains(list[k]));
        law_visits_meet_nodes_only(ctx.ast, outside_tests(), list[k]);
        let q = nodes(ctx.ast).index_of(list[k]);
        assert(nodes(ctx.ast)[q] == list[k]);
    }
    lemma_only_role(list, h);
    let called = called_names(body);
    let lost = names_of(nodes(body), |m: Node| discarded(m));
    let p = |x: Seq<char>| authorizing_call(list, called, lost, x);
    assert(p(called[called.index_of(h.name@)]));
    assert(authorized_below(list, f));
}

/// So it is if the function unwraps what is found under the caller.
pub proof fn law_helper_may_look_the_caller_up(ctx: ScanContext, f: Node, body: Node, way: Seq<Node>, h: Node, inner: Node, into: Seq<Node>, n: Node, receiver: Node, path: Seq<Node>)
    requires
        h.kind is Function || h.kind is Method,
        h.parts(Role::Attribute).len() == 0,
        leads_openly(way, ctx.ast, h),
        forall|k: int| 0 <= k < nodes(ctx.ast).len() && ((#[trigger] nodes(ctx.ast)[k]).kind is Function || nodes(ctx.ast)[k].kind is Method) && nodes(ctx.ast)[k].name@ == h.name@ ==> nodes(ctx.ast)[k] == h,
        h.part(Role::Body) == Some(inner),
        f.part(Role::Body) == Some(body),
        called_names(body).contains(h.name@),
        leads(into),
        into[0] == inner,
        into.last() == n,
        forall|i: int| 0 <= i < into.len() - 1 ==> !((#[trigger] into[i]).kind is Macro),
        n.kind is MethodCall,
        n.name@ == "expect"@ || n.name@ == "unwrap"@,
        n.part(Role::Receiver) == Some(receiver),
        leads_to_caller(path, receiver),
    ensures
        report_on(ctx, f) is None,
{
    law_led_to_is_met(into, outside_macros());
    let met = walk(inner, outside_macros());
    let taint = tainted(inner);
    lemma_reads_caller(path, receiver, taint);
    let d = |m: Node| decides(m, taint);
    assert(d(met[met.index_of(n)]));
    assert(classify(h) == Some(CallerIdentityRole::Enforces));
    let list = walk(ctx.ast, outside_tests());
    law_led_to_is_met(way, outside_tests());
    assert forall|k: int| 0 <= k < list.len() && definition(#[trigger] list[k]) && list[k].name@ == h.name@ implies list[k] == h by {
        assert(list.contains(list[k]));
        law_visits_meet_nodes_only(ctx.ast, outside_tests(), list[k]);
        let q = nodes(ctx.ast).index_of(list[k]);
        assert(nodes(ctx.ast)[q] == list[k]);
    }
    lemma_only_role(list, h);
    let called = called_names(body);
    let lost = names_of(nodes(body), |m: Node| discarded(m));
    let p = |x: Seq<char>| authorizing_call(list, called, lost, x);
    assert(p(called[called.index_of(h.name@)]));
    assert(authorized_below(list, f));
}

/// Nothing in the tree asks for the caller, but in macro calls that only say something.
pub open spec fn only_says_caller(block: Node) -> bool {
    forall|k: int|
        0 <= k < nodes(block).len() ==> ((#[trigger] nodes(block)[k]).kind is Macro && (nodes(
            block,
        )[k].last_word() matches Some(name) && is_any(name, seq!["format", "format_args", "print", "println", "eprint", "eprintln", "write", "writeln", "log", "panic", "unreachable"]) && !is_any(name, seq!["assert", "debug_assert", "require"]) && !is_any(
            name,
            seq!["assert_eq", "assert_ne", "debug_assert_eq", "debug_assert_ne", "require_eq"],
        ))) || (silent_on_caller(nodes(block)[k]) && nodes(block)[k].args is None)
}

/// A handler that only logs, formats or prints the caller is reported all the same.
pub proof fn law_saying_the_caller_is_not_enough(ctx: ScanContext, path: Seq<Node>, f: Node, body: Node)
    requires
        leads_openly(path, ctx.ast, f),
        f.kind is Function,
        f.parts(Role::Attribute).len() == 0,
        mentions(f.name@, "storage_withdraw"@) || mentions(f.name@, "storage_unregister"@),
        !begins(f.name@, "internal_"@),
        !ends(f.name@, "_impl"@),
        !ends(f.name@, "_unchecked"@),
        f.part(Role::Body) == Some(body),
        mentions(body.text@, "insert"@) || mentions(body.text@, "remove"@),
        only_says_caller(body),
        forall|k: int| 0 <= k < nodes(ctx.ast).len() && ((#[trigger] nodes(ctx.ast)[k]).kind is Function || nodes(ctx.ast)[k].kind is Method) ==> !called_names(body).contains(nodes(ctx.ast)[k].name@),
    ensures
        speaks_of(StorageStakingDetector.reports_on(ctx), f),
{
    let list = walk(body, outside_macros());
    assert forall|i: int| 0 <= i < list.len() implies !acts_on_caller(#[trigger] list[i]) by {
        let n = list[i];
        assert(list.contains(n));
        law_visits_meet_nodes_only(body, outside_macros(), n);
        let k = nodes(body).index_of(n);
        assert(nodes(body)[k] == n);
        if silent_on_caller(n) {
            lemma_names_no_caller(n);
        }
    }
    assert(!checks_caller(f));
    lemma_not_authorized_below(ctx, f, body);
    assert(!permissionless(f));
    assert(!carries_test(f));
    assert(mentions_any(f.name@, HANDLERS@));
    lemma_reported(ctx, path, f);
}

/// A function that carries a test attribute of whatever framework is not reported.
pub proof fn law_marked_test_is_silent(ctx: ScanContext, f: Node, k: int)
    requires
        0 <= k < f.parts(Role::Attribute).len(),
        f.parts(Role::Attribute)[k].last_word() == Some("test"@),
    ensures
        report_on(ctx, f) is None,
{
    let p = |a: Node| a.last_word() == Some("test"@);
    assert(p(f.parts(Role::Attribute)[k]));
}

/// A parameter names an account by its type or by its own name.
pub proof fn law_account_is_named(p: Node)
    requires
        account_param(p),
    ensures
        p.kind is Param,
        (p.part(Role::Type) matches Some(ty) && mentions(ty.text@, "AccountId"@)) || (p.part(Role::Pattern) matches Some(pat) && pat.text@ == "account_id"@),
{
}

/// A macro that asserts a condition has one operand, and one that compares has two.
pub proof fn law_operands_of_assertions(name: Seq<char>)
    requires
        is_any(name, seq!["assert", "debug_assert", "require"]) != is_any(name, seq!["assert_eq", "assert_ne", "debug_assert_eq", "debug_assert_ne", "require_eq"]),
    ensures
        condition_arity(name) == Some(if is_any(name, seq!["assert", "debug_assert", "require"]) { 1nat } else { 2nat }),
{
}

} // verus!
