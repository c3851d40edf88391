//! Functions that take an account and change state without asking who signed.
use vstd::prelude::*;
use crate::attributes::{carries_test, has_test_attribute, outside_functions};
use crate::call_graph::{caller_checks, caller_has_check, CallGraph, CheckKind};
use crate::calls::{called_names, get_called_names, get_path_call, path_call};
use crate::context::ScanContext;
use crate::detector::{Detector, Profile, raise, raised, RuleInfo, stamped};
use crate::finding::{Chain, Confidence, Finding, Report, Severity};
use crate::quotes::{blank_strings, law_without_strings_all_is_kept, outside_strings, unquoted};
use crate::search::{
    finds_alone, first_match, lemma_first_match, match_alone, replace_all, replaced,
};
use crate::syntax::{Kind, Node, Role};
use crate::text::{
    any_text, begins, begins_any, contains, contains_any, ends_any, ends_with_any, is_any, join2,
    join5, law_mentions_grow, lemma_holds_middle, listed, lower, mentions, mentions_any, occurs_at,
    same, same_as_any, some_text, starts_with, starts_with_any, texts, to_lowercase,
};
use crate::tokens::{holds_ident, idents, tokens_contain_ident};
use crate::walk::{
    any_node, collect_findings, collect_names, law_led_to_is_met, law_report_is_listed,
    leads_openly, lemma_name_is_listed, lemma_named_by, lemma_reports_from, names_of, nodes,
    nodes_in, opt_report, opt_text, reports_of, some, speaks_of, walk, walk_nodes,
};

verus! {

/// Reports functions that take an `AccountInfo` and change state, where nobody
/// checks that the account signed.
pub struct MissingSignerDetector;

/// Framework sources, where signer checks belong to the architecture.
pub const FRAMEWORK_PATHS: [&'static str; 8] = [
    "/spl-token",
    "/spl_token",
    "/anchor-lang/",
    "/anchor_lang/",
    "/anchor-spl/",
    "/anchor_spl/",
    "/solana-program/",
    "/solana_program/",
];

/// Names of tests and of helpers whose callers check the signer.
pub const HELPER_PREFIXES: [&'static str; 6] = [
    "test_",
    "_",
    "inner_",
    "do_",
    "impl_",
    "handle_",
];

/// Names of functions that a main entry point dispatches to.
pub const DISPATCHED_PREFIXES: [&'static str; 2] = ["execute_", "_process_"];

/// Wrappers of a cross-program call, whose callers check the signer.
pub const CPI_WRAPPERS: [&'static str; 17] = [
    "transfer",
    "burn",
    "mint_to",
    "freeze",
    "thaw",
    "approve",
    "revoke",
    "close",
    "close_account",
    "set_authority",
    "create_account",
    "create_new_account",
    "create_or_allocate_account_raw",
    "topup",
    "dispose_account",
    "extend_account_size",
    "set_program_upgrade_authority",
];

/// How the name of a wrapper of a cross-program call begins.
pub const CPI_PREFIXES: [&'static str; 6] = [
    "transfer_",
    "burn_",
    "mint_",
    "create_",
    "close_",
    "set_",
];

/// How the name of a wrapper of a cross-program call ends.
pub const CPI_SUFFIXES: [&'static str; 3] = ["_tokens", "_account", "_fees"];

/// Words in the names of utilities that are no entry points.
pub const UTILITY_WORDS: [&'static str; 10] = [
    "serialize",
    "deserialize",
    "pack",
    "unpack",
    "parse",
    "validate",
    "verify",
    "check",
    "from_account",
    "to_account",
];

/// Types through which Anchor checks the signer.
pub const ANCHOR_TYPES: [&'static str; 3] = ["Signer", "Context <", "Context<"];

/// Types that hold many accounts, none of them a particular one.
pub const MANY_ACCOUNTS: [&'static str; 2] = ["[", "Vec"];

/// Words in the names of accounts that are not expected to sign.
pub const NON_SIGNERS: [&'static str; 17] = [
    "program",
    "system",
    "rent",
    "clock",
    "token",
    "mint",
    "metadata",
    "associated",
    "sysvar",
    "pda",
    "vault",
    "pool",
    "config",
    "state",
    "data",
    "dest",
    "source",
];

/// The identifiers through which code reads whether an account signed.
pub const SIGNER_PROPERTY_IDENTS: [&'static str; 3] = ["is_signer", "has_signer", "signer_key"];

/// How the name of a helper that asserts a signer begins.
pub const VERBS: [&'static str; 6] = ["assert", "require", "check", "verify", "validate", "ensure"];

/// Words of a body that changes state.
pub const MUTATIONS: [&'static str; 3] = ["try_borrow_mut", "borrow_mut", "invoke"];

/// The rule's description of itself.
pub open spec fn profile() -> Profile {
    Profile {
        id: "SOL-001"@,
        name: "missing-signer-check"@,
        description: "Detects functions accepting AccountInfo without verifying is_signer"@,
        severity: Severity::Critical,
        confidence: Confidence::High,
        chain: Chain::Solana,
    }
}

/// The rule's description of itself.
fn info() -> (r: RuleInfo)
    ensures
        r@ == profile(),
{
    RuleInfo {
        id: "SOL-001",
        name: "missing-signer-check",
        description: "Detects functions accepting AccountInfo without verifying is_signer",
        severity: Severity::Critical,
        confidence: Confidence::High,
        chain: Chain::Solana,
    }
}

/// A function whose name alone says that its signer is checked elsewhere.
pub open spec fn skipped_name(name: Seq<char>) -> bool {
    ||| begins_any(name, HELPER_PREFIXES@)
    ||| begins(lower(name), "process_"@) && lower(name) != "process_instruction"@
    ||| begins_any(lower(name), DISPATCHED_PREFIXES@)
    ||| is_any(lower(name), CPI_WRAPPERS@)
    ||| begins_any(lower(name), CPI_PREFIXES@)
    ||| ends_any(lower(name), CPI_SUFFIXES@)
    ||| mentions_any(lower(name), UTILITY_WORDS@)
}

/// The name of a parameter that holds one account, which might have to sign.
pub open spec fn risky_param(p: Node) -> Option<Seq<char>> {
    match (p.kind, p.part(Role::Type), p.part(Role::Pattern)) {
        (Kind::Param, Some(ty), Some(pat)) => {
            if mentions(ty.text@, "AccountInfo"@) && !mentions_any(ty.text@, MANY_ACCOUNTS@)
                && !mentions_any(lower(pat.text@), NON_SIGNERS@) {
                Some(pat.text@)
            } else {
                None
            }
        },
        _ => None,
    }
}

/// The parameters of `f` that hold one account, which might have to sign.
pub open spec fn risky_params(f: Node) -> Seq<Seq<char>> {
    names_of(f.parts(Role::Param), |p: Node| risky_param(p))
}

/// The node reads whether an account signed.
pub open spec fn reads_signer(n: Node) -> bool {
    match n.kind {
        Kind::Field { named } => named && is_any(n.name@, SIGNER_PROPERTY_IDENTS@),
        Kind::MethodCall => is_any(n.name@, SIGNER_PROPERTY_IDENTS@),
        Kind::Path => some_text(
            texts(n.words@),
            |w: Seq<char>| is_any(w, SIGNER_PROPERTY_IDENTS@),
        ),
        Kind::Macro => holds_ident(n.tokens@, SIGNER_PROPERTY_IDENTS@),
        _ => false,
    }
}

/// Something below `block` reads whether an account signed.
pub open spec fn touches_signer(block: Node) -> bool {
    some(nodes(block), |n: Node| reads_signer(n))
}

/// `name` is the name of a helper that asserts a signer.
pub open spec fn asserts_signer(name: Seq<char>) -> bool {
    exists|i: int|
        0 <= i < VERBS@.len() && (name == (#[trigger] VERBS@[i])@ + "_signer"@ || name == VERBS@[i]@
            + "_is_signer"@)
}

/// A call, with the text of what it is applied to.
pub struct CallSite {
    pub name: Seq<char>,
    pub args: Seq<char>,
}

/// The texts of `list`, with commas between them.
pub open spec fn joined(list: Seq<Node>) -> Seq<char>
    decreases list.len(),
{
    if list.len() == 0 {
        Seq::empty()
    } else if list.len() == 1 {
        list[0].text@
    } else {
        joined(list.drop_last()) + " , "@ + list.last().text@
    }
}

/// The receiver of a method call, followed by its arguments.
pub open spec fn receiver_and_args(n: Node) -> Seq<Node> {
    match n.part(Role::Receiver) {
        Some(receiver) => seq![receiver] + n.parts(Role::Argument),
        None => n.parts(Role::Argument),
    }
}

/// The call that a node makes: a plain call, a method call, whose receiver
/// counts as an argument, or a macro call.
pub open spec fn call_site(n: Node) -> Option<CallSite> {
    match n.kind {
        Kind::Call => match path_call(n) {
            Some(name) => Some(CallSite { name, args: joined(n.parts(Role::Argument)) }),
            None => None,
        },
        Kind::MethodCall => Some(CallSite { name: n.name@, args: joined(receiver_and_args(n)) }),
        Kind::Macro => match n.last_word() {
            Some(name) => Some(CallSite { name, args: n.text@ }),
            None => None,
        },
        _ => None,
    }
}

/// The node calls a helper that asserts a signer. A helper of this file counts
/// only where its body reads signer status. Where `params` are given, the
/// assertion is applied to one of them.
pub open spec fn signer_assertion(
    n: Node,
    graph: CallGraph,
    params: Option<Seq<Seq<char>>>,
) -> bool {
    match call_site(n) {
        Some(site) => {
            &&& asserts_signer(site.name)
            &&& graph.lookup(site.name) matches Some(info) ==> info.has_signer_check
            &&& params matches Some(list) ==> some_text(
                list,
                |p: Seq<char>| match_alone(site.args, p, 0),
            )
        },
        None => false,
    }
}

/// Some call below `block` asserts a signer.
pub open spec fn calls_signer_assertion(
    block: Node,
    graph: CallGraph,
    params: Option<Seq<Seq<char>>>,
) -> bool {
    some(nodes(block), |n: Node| signer_assertion(n, graph, params))
}

/// Some function that `name` calls directly reads signer status in its body.
pub open spec fn callee_checks(graph: CallGraph, name: Seq<char>) -> bool {
    match graph.lookup(name) {
        Some(info) => some_text(texts(info.calls@), |c: Seq<char>| checks_here(graph, c)),
        None => false,
    }
}

/// The function `name` is known to read signer status.
pub open spec fn checks_here(graph: CallGraph, name: Seq<char>) -> bool {
    graph.lookup(name) matches Some(info) && info.has_signer_check
}

/// A method that checks a signer and calls `target`.
pub open spec fn checked_dispatcher(n: Node, graph: CallGraph, target: Seq<char>) -> bool {
    match (n.kind, n.part(Role::Body)) {
        (Kind::Method { .. }, Some(body)) => {
            &&& touches_signer(body) || calls_signer_assertion(body, graph, None)
            &&& called_names(body).contains(target)
        },
        _ => false,
    }
}

/// Some method of the file checks a signer and calls `target`.
pub open spec fn method_caller_checks(ast: Node, graph: CallGraph, target: Seq<char>) -> bool {
    some(nodes(ast), |n: Node| checked_dispatcher(n, graph, target))
}

/// The body changes state. Reading with `deserialize` does not count, nor does
/// anything that stands in a string literal.
pub open spec fn mutates(body: Seq<char>) -> bool {
    let clean = outside_strings(body);
    mentions(replaced(clean, "deserialize"@, " "@, 0), "serialize"@) || mentions_any(
        clean,
        MUTATIONS@,
    )
}

/// `f` checks a signer itself, or through what it calls.
pub open spec fn has_signer_check(ctx: ScanContext, f: Node) -> bool {
    ||| f.part(Role::Body) matches Some(body) && (touches_signer(body) || calls_signer_assertion(
        body,
        ctx.call_graph,
        Some(risky_params(f)),
    ))
    ||| callee_checks(ctx.call_graph, f.name@)
}

/// `f` takes an account that might have to sign, and nobody checks that it did.
pub open spec fn unsigned(ctx: ScanContext, f: Node) -> bool {
    &&& f.kind is Function
    &&& !skipped_name(f.name@)
    &&& !carries_test(f)
    &&& !mentions_any(f.text@, ANCHOR_TYPES@)
    &&& risky_params(f).len() > 0
    &&& !has_signer_check(ctx, f)
    &&& !caller_checks(ctx.call_graph, f.name@, CheckKind::SignerCheck)
    &&& !method_caller_checks(ctx.ast, ctx.call_graph, f.name@)
    &&& mutates(f.body_text())
}

/// The names in `list`, each in quotes, with commas between them.
pub open spec fn quoted(list: Seq<Seq<char>>) -> Seq<char>
    decreases list.len(),
{
    if list.len() == 0 {
        Seq::empty()
    } else if list.len() == 1 {
        "'"@ + list[0] + "'"@
    } else {
        quoted(list.drop_last()) + ", "@ + ("'"@ + list.last() + "'"@)
    }
}

/// What is said of `f`.
pub open spec fn message(f: Node) -> Seq<char> {
    "Function '"@ + f.name@ + "' accepts AccountInfo "@ + quoted(risky_params(f))
        + " without verifying is_signer"@
}

/// The report on `f`, if there is one.
pub open spec fn report_on(ctx: ScanContext, f: Node) -> Option<Report> {
    if unsigned(ctx, f) {
        Some(
            raised(
                profile(),
                ctx,
                Confidence::High,
                f.line,
                f.column,
                message(f),
                "Add `if !account.is_signer { return Err(...) }` check, or use Anchor's `Signer<'info>` type"@,
            ),
        )
    } else {
        None
    }
}

/// Drops the string literals from a printed token stream, leaving a space in the
/// place of each.
pub fn strip_string_literals(src: &str) -> (r: String)
    ensures
        r@ == outside_strings(src@),
{
    blank_strings(src)
}

/// Whether `name` is exactly the name of a helper that asserts a signer.
pub fn is_signer_assert_helper_name(name: &str) -> (b: bool)
    ensures
        b == asserts_signer(name@),
{
    let verbs = VERBS.as_slice();
    let mut i: usize = 0;
    while i < verbs.len()
        invariant
            i <= verbs@.len(),
            verbs@ == VERBS@,
            forall|j: int|
                0 <= j < i ==> name@ != (#[trigger] VERBS@[j])@ + "_signer"@ && name@ != VERBS@[j]@
                    + "_is_signer"@,
        decreases verbs@.len() - i,
    {
        assert(verbs@[i as int] == VERBS@[i as int]);
        if same(name, join2(verbs[i], "_signer").as_str()) || same(
            name,
            join2(verbs[i], "_is_signer").as_str(),
        ) {
            return true;
        }
        i = i + 1;
    }
    false
}

/// Whether the text `args` mentions `param` as a whole identifier.
pub fn args_mention(args: &str, param: &str) -> (b: bool)
    ensures
        b == match_alone(args@, param@, 0),
{
    finds_alone(args, param)
}

/// Whether the node reads if an account signed.
fn reads_signer_property(n: &Node) -> (b: bool)
    ensures
        b == reads_signer(*n),
{
    let idents = SIGNER_PROPERTY_IDENTS.as_slice();
    match n.kind {
        Kind::Field { named } => named && same_as_any(n.name.as_str(), idents),
        Kind::MethodCall => same_as_any(n.name.as_str(), idents),
        Kind::Path => any_text(
            &n.words,
            |w: &str| -> (r: bool)
                ensures
                    r == is_any(w@, SIGNER_PROPERTY_IDENTS@)
            { same_as_any(w, SIGNER_PROPERTY_IDENTS.as_slice()) },
            Ghost(|w: Seq<char>| is_any(w, SIGNER_PROPERTY_IDENTS@)),
        ),
        Kind::Macro => tokens_contain_ident(&n.tokens, idents),
        _ => false,
    }
}

/// Whether something below `block` reads if an account signed.
pub fn body_touches_signer_property(block: &Node) -> (b: bool)
    ensures
        b == touches_signer(*block),
{
    let list = nodes_in(block);
    any_node(
        &list,
        |n: &Node| -> (r: bool)
            ensures
                r == reads_signer(*n)
        { reads_signer_property(n) },
        Ghost(|n: Node| reads_signer(n)),
    )
}

/// The texts of `list`, with commas between them.
fn join_texts(list: &Vec<&Node>) -> (r: String)
    ensures
        r@ == joined(list@.unref()),
{
    let ghost all = list@.unref();
    let mut r = String::new();
    let mut i: usize = 0;
    while i < list.len()
        invariant
            i <= list@.len(),
            all == list@.unref(),
            r@ == joined(all.take(i as int)),
        decreases list@.len() - i,
    {
        assert(all.take(i as int + 1).drop_last() =~= all.take(i as int));
        assert(all.take(i as int + 1).last() == *list@[i as int]);
        if i > 0 {
            r.append(" , ");
            r.append(list[i].text.as_str());
        } else {
            r = list[i].text.clone();
            assert(all.take(1)[0] == *list@[0]);
        }
        i = i + 1;
    }
    assert(all.take(i as int) =~= all);
    r
}

/// Whether the node calls a helper that asserts a signer, on one of `params`
/// where these are given.
fn is_signer_assertion(n: &Node, graph: &CallGraph, params: Option<&Vec<String>>) -> (b: bool)
    ensures
        b == signer_assertion(
            *n,
            *graph,
            match params {
                Some(list) => Some(texts(list@)),
                None => None,
            },
        ),
{
    let (name, args): (&str, String) = match n.kind {
        Kind::Call => match get_path_call(n) {
            Some(name) => (name, join_texts(&n.get_parts(Role::Argument))),
            None => {
                return false;
            },
        },
        Kind::MethodCall => {
            let rest = n.get_parts(Role::Argument);
            let mut all: Vec<&Node> = Vec::new();
            if let Some(receiver) = n.get_part(Role::Receiver) {
                all.push(receiver);
            }
            let ghost first = all@.unref();
            let mut i: usize = 0;
            while i < rest.len()
                invariant
                    i <= rest@.len(),
                    all@.unref() == first + rest@.unref().take(i as int),
                decreases rest@.len() - i,
            {
                let ghost was = all@.unref();
                all.push(rest[i]);
                assert(all@.unref() =~= was.push(rest@.unref()[i as int]));
                assert(all@.unref() =~= first + rest@.unref().take(i as int + 1));
                i = i + 1;
            }
            assert(all@.unref() =~= receiver_and_args(*n));
            (n.name.as_str(), join_texts(&all))
        },
        Kind::Macro => match n.get_last_word() {
            Some(name) => (name, n.text.clone()),
            None => {
                return false;
            },
        },
        _ => {
            return false;
        },
    };
    assert(call_site(*n) == Some(CallSite { name: name@, args: args@ }));
    if !is_signer_assert_helper_name(name) {
        return false;
    }
    if let Some(info) = graph.get(name) {
        if !info.has_signer_check {
            return false;
        }
    }
    match params {
        None => true,
        Some(list) => any_text(
            list,
            |p: &str| -> (r: bool)
                ensures
                    r == match_alone(args@, p@, 0)
            { args_mention(args.as_str(), p) },
            Ghost(|p: Seq<char>| match_alone(args@, p, 0)),
        ),
    }
}

/// Whether some call below `block` asserts a signer, on one of `risky_params`
/// where these are given.
pub fn calls_signer_assert_helper(
    block: &Node,
    graph: &CallGraph,
    risky_params: Option<&Vec<String>>,
) -> (b: bool)
    ensures
        b == calls_signer_assertion(
            *block,
            *graph,
            match risky_params {
                Some(list) => Some(texts(list@)),
                None => None,
            },
        ),
{
    let list = nodes_in(block);
    let ghost params = match risky_params {
        Some(list) => Some(texts(list@)),
        None => None,
    };
    any_node(
        &list,
        |n: &Node| -> (r: bool)
            ensures
                r == signer_assertion(*n, *graph, params)
        { is_signer_assertion(n, graph, risky_params) },
        Ghost(|n: Node| signer_assertion(n, *graph, params)),
    )
}

/// Whether some function that `fn_name` calls directly reads signer status.
pub fn callee_checks_signer(graph: &CallGraph, fn_name: &str) -> (b: bool)
    ensures
        b == callee_checks(*graph, fn_name@),
{
    match graph.get(fn_name) {
        Some(info) => any_text(
            &info.calls,
            |c: &str| -> (r: bool)
                ensures
                    r == checks_here(*graph, c@)
            {
                match graph.get(c) {
                    Some(callee) => callee.has_signer_check,
                    None => false,
                }
            },
            Ghost(|c: Seq<char>| checks_here(*graph, c)),
        ),
        None => false,
    }
}

/// Whether some method of the file checks a signer and calls `target_fn`.
pub fn impl_method_caller_checks_signer(
    ast: &Node,
    graph: &CallGraph,
    target_fn: &str,
) -> (b: bool)
    ensures
        b == method_caller_checks(*ast, *graph, target_fn@),
{
    let list = nodes_in(ast);
    any_node(
        &list,
        |n: &Node| -> (r: bool)
            ensures
                r == checked_dispatcher(*n, *graph, target_fn@)
        {
            match n.kind {
                Kind::Method { .. } => match n.get_part(Role::Body) {
                    Some(body) => (body_touches_signer_property(body) || calls_signer_assert_helper(
                        body,
                        graph,
                        None,
                    )) && listed(&get_called_names(body), target_fn),
                    None => false,
                },
                _ => false,
            }
        },
        Ghost(|n: Node| checked_dispatcher(n, *graph, target_fn@)),
    )
}

/// Whether the name alone says that the signer is checked elsewhere.
fn has_skipped_name(name: &str) -> (b: bool)
    ensures
        b == skipped_name(name@),
{
    let low = to_lowercase(name);
    let low = low.as_str();
    starts_with_any(name, HELPER_PREFIXES.as_slice()) || (starts_with(low, "process_") && !same(
        low,
        "process_instruction",
    )) || starts_with_any(low, DISPATCHED_PREFIXES.as_slice()) || same_as_any(
        low,
        CPI_WRAPPERS.as_slice(),
    ) || starts_with_any(low, CPI_PREFIXES.as_slice()) || ends_with_any(
        low,
        CPI_SUFFIXES.as_slice(),
    ) || contains_any(low, UTILITY_WORDS.as_slice())
}

/// The name of a parameter that holds one account, which might have to sign.
fn get_risky_param(p: &Node) -> (r: Option<String>)
    ensures
        opt_text(r) == risky_param(*p),
{
    match p.kind {
        Kind::Param => match (p.get_part(Role::Type), p.get_part(Role::Pattern)) {
            (Some(ty), Some(pat)) => {
                let low = to_lowercase(pat.text.as_str());
                if contains(ty.text.as_str(), "AccountInfo") && !contains_any(
                    ty.text.as_str(),
                    MANY_ACCOUNTS.as_slice(),
                ) && !contains_any(low.as_str(), NON_SIGNERS.as_slice()) {
                    Some(pat.text.clone())
                } else {
                    None
                }
            },
            _ => None,
        },
        _ => None,
    }
}

/// The parameters of `f` that hold one account, which might have to sign.
fn get_risky_params(f: &Node) -> (r: Vec<String>)
    ensures
        texts(r@) == risky_params(*f),
{
    let list = f.get_parts(Role::Param);
    collect_names(
        &list,
        |p: &Node| -> (s: Option<String>)
            ensures
                opt_text(s) == risky_param(*p)
        { get_risky_param(p) },
        Ghost(|p: Node| risky_param(p)),
    )
}

/// Whether the body changes state.
fn has_mutations(body: &str) -> (b: bool)
    ensures
        b == mutates(body@),
{
    let clean = strip_string_literals(body);
    proof {
        reveal_strlit("deserialize");
    }
    let without = replace_all(clean.as_str(), "deserialize", " ");
    contains(without.as_str(), "serialize") || contains_any(clean.as_str(), MUTATIONS.as_slice())
}

/// The names in `list`, each in quotes, with commas between them.
fn quote(list: &Vec<String>) -> (r: String)
    ensures
        r@ == quoted(texts(list@)),
{
    let ghost all = texts(list@);
    let mut r = String::new();
    let mut i: usize = 0;
    while i < list.len()
        invariant
            i <= list@.len(),
            all == texts(list@),
            r@ == quoted(all.take(i as int)),
        decreases list@.len() - i,
    {
        assert(all.take(i as int + 1).drop_last() =~= all.take(i as int));
        assert(all.take(i as int + 1).last() == list@[i as int]@);
        let item = crate::text::join3("'", list[i].as_str(), "'");
        if i > 0 {
            r.append(", ");
            r.append(item.as_str());
        } else {
            r = item;
            assert(all.take(1)[0] == list@[0]@);
        }
        i = i + 1;
    }
    assert(all.take(i as int) =~= all);
    r
}

impl MissingSignerDetector {
    /// The finding on `f`, if there is one.
    pub fn check(&self, ctx: &ScanContext, f: &Node) -> (r: Option<Finding>)
        ensures
            opt_report(r) == report_on(*ctx, *f),
    {
        match f.kind {
            Kind::Function => {},
            _ => {
                return None;
            },
        }
        if has_skipped_name(f.name.as_str()) || has_test_attribute(f) || contains_any(
            f.text.as_str(),
            ANCHOR_TYPES.as_slice(),
        ) {
            return None;
        }
        let params = get_risky_params(f);
        assert(texts(params@).len() == params@.len());
        if params.len() == 0 {
            return None;
        }
        let checked = match f.get_part(Role::Body) {
            Some(body) => body_touches_signer_property(body) || calls_signer_assert_helper(
                body,
                &ctx.call_graph,
                Some(&params),
            ),
            None => false,
        } || callee_checks_signer(&ctx.call_graph, f.name.as_str());
        if checked || caller_has_check(
            &ctx.call_graph,
            f.name.as_str(),
            CheckKind::SignerCheck,
        ) || impl_method_caller_checks_signer(&ctx.ast, &ctx.call_graph, f.name.as_str()) {
            return None;
        }
        if !has_mutations(f.get_body_text()) {
            return None;
        }
        let list = quote(&params);
        let text = join5(
            "Function '",
            f.name.as_str(),
            "' accepts AccountInfo ",
            list.as_str(),
            " without verifying is_signer",
        );
        Some(
            raise(
                &info(),
                ctx,
                Confidence::High,
                f.line,
                f.column,
                text,
                "Add `if !account.is_signer { return Err(...) }` check, or use Anchor's `Signer<'info>` type",
            ),
        )
    }
}

impl Detector for MissingSignerDetector {
    open spec fn profile(&self) -> Profile {
        profile()
    }

    open spec fn reports_on(&self, ctx: ScanContext) -> Seq<Report> {
        if mentions_any(ctx.file_path@, FRAMEWORK_PATHS@) {
            Seq::empty()
        } else {
            reports_of(walk(ctx.ast, outside_functions()), |f: Node| report_on(ctx, f))
        }
    }

    fn id(&self) -> (r: &'static str) {
        info().id
    }

    fn name(&self) -> (r: &'static str) {
        info().name
    }

    fn description(&self) -> (r: &'static str) {
        info().description
    }

    fn severity(&self) -> (r: Severity) {
        info().severity
    }

    fn confidence(&self) -> (r: Confidence) {
        info().confidence
    }

    fn chain(&self) -> (r: Chain) {
        info().chain
    }

    fn detect(&self, ctx: &ScanContext) -> (r: Vec<Finding>) {
        if contains_any(ctx.file_path.as_str(), FRAMEWORK_PATHS.as_slice()) {
            return Vec::new();
        }
        let list = walk_nodes(
            &ctx.ast,
            |n: &Node| -> (b: bool)
                ensures
                    b == outside_functions()(*n)
            { !matches!(n.kind, Kind::Function) },
            Ghost(outside_functions()),
        );
        collect_findings(
            &list,
            |f: &Node| -> (s: Option<Finding>)
                ensures
                    opt_report(s) == report_on(*ctx, *f)
            { self.check(ctx, f) },
            Ghost(|f: Node| report_on(*ctx, f)),
        )
    }

    proof fn law_findings_are_stamped(&self, ctx: ScanContext) {
        let list = walk(ctx.ast, outside_functions());
        let f = |n: Node| report_on(ctx, n);
        assert forall|i: int| 0 <= i < self.reports_on(ctx).len() implies stamped(
            #[trigger] self.reports_on(ctx)[i],
            self.profile(),
            ctx,
        ) by {
            lemma_reports_from(list, f, i);
        }
    }
}

/// Every finding has the confidence that the rule states of itself.
pub proof fn law_confidence_is_the_rules_own(ctx: ScanContext)
    ensures
        forall|i: int|
            0 <= i < MissingSignerDetector.reports_on(ctx).len() ==> (
            #[trigger] MissingSignerDetector.reports_on(ctx)[i]).confidence == profile().confidence,
{
    let list = walk(ctx.ast, outside_functions());
    let f = |n: Node| report_on(ctx, n);
    assert forall|i: int| 0 <= i < MissingSignerDetector.reports_on(ctx).len() implies (
        #[trigger] MissingSignerDetector.reports_on(ctx)[i]).confidence == profile().confidence by {
        lemma_reports_from(list, f, i);
    }
}

/// Nothing is reported on a file that belongs to a framework.
pub proof fn law_out_of_scope_is_silent(ctx: ScanContext)
    requires
        mentions_any(ctx.file_path@, FRAMEWORK_PATHS@),
    ensures
        MissingSignerDetector.reports_on(ctx).len() == 0,
{
}

/// A text in which `needle` does not occur is left as it is when it is replaced.
proof fn lemma_nothing_replaced(s: Seq<char>, needle: Seq<char>, with: Seq<char>)
    requires
        !mentions(s, needle),
    ensures
        replaced(s, needle, with, 0) == s,
{
    lemma_first_match(s, needle, 0);
    if first_match(s, needle, 0) is Some {
        assert(occurs_at(s, needle, first_match(s, needle, 0)->0));
    }
    assert(s.subrange(0, s.len() as int) =~= s);
}

/// A node that reads no signer and calls nothing that asserts one.
pub open spec fn ignores_signers(n: Node) -> bool {
    &&& !is_any(n.name@, seq!["is_signer", "has_signer", "signer_key"])
    &&& forall|w: int|
        0 <= w < n.words@.len() ==> !mentions((#[trigger] n.words@[w])@, "signer"@)
    &&& forall|w: int|
        0 <= w < idents(n.tokens@).len() ==> !is_any(
            #[trigger] idents(n.tokens@)[w],
            seq!["is_signer", "has_signer", "signer_key"],
        )
    &&& n.kind is MethodCall ==> !mentions(n.name@, "signer"@)
    &&& n.kind is Call ==> (n.part(Role::Callee) matches Some(c) ==> (c.last_word() matches Some(w)
        ==> !mentions(w, "signer"@)))
}

/// A name that holds no `signer` is not that of a helper that asserts one.
proof fn lemma_asserts_no_signer(name: Seq<char>)
    requires
        !mentions(name, "signer"@),
    ensures
        !asserts_signer(name),
{
    reveal_strlit("signer");
    reveal_strlit("_signer");
    reveal_strlit("_is_signer");
    if asserts_signer(name) {
        let i = choose|i: int|
            0 <= i < VERBS@.len() && (name == (#[trigger] VERBS@[i])@ + "_signer"@ || name
                == VERBS@[i]@ + "_is_signer"@);
        let k = name.len() - 6;
        assert(name.subrange(k, k + 6) =~= "signer"@);
        assert(occurs_at(name, "signer"@, k));
    }
}

/// A body whose nodes ignore signers checks none.
proof fn lemma_body_checks_no_signer(
    block: Node,
    graph: CallGraph,
    params: Option<Seq<Seq<char>>>,
)
    requires
        forall|m: int| 0 <= m < nodes(block).len() ==> ignores_signers(#[trigger] nodes(block)[m]),
    ensures
        !touches_signer(block),
        !calls_signer_assertion(block, graph, params),
{
    let list = nodes(block);
    assert forall|m: int| 0 <= m < list.len() implies !reads_signer(#[trigger] list[m])
        && !signer_assertion(list[m], graph, params) by {
        let n = list[m];
        assert(ignores_signers(n));
        let words = seq!["is_signer", "has_signer", "signer_key"];
        assert(words[0]@ == "is_signer"@ && words[1]@ == "has_signer"@ && words[2]@ == "signer_key"@);
        if n.kind is Path {
            reveal_strlit("signer");
            reveal_strlit("is_signer");
            reveal_strlit("has_signer");
            reveal_strlit("signer_key");
            assert("is_signer"@.subrange(3, 9) =~= "signer"@);
            assert("has_signer"@.subrange(4, 10) =~= "signer"@);
            assert("signer_key"@.subrange(0, 6) =~= "signer"@);
            assert(occurs_at("is_signer"@, "signer"@, 3));
            assert(occurs_at("has_signer"@, "signer"@, 4));
            assert(occurs_at("signer_key"@, "signer"@, 0));
            assert forall|w: int| 0 <= w < texts(n.words@).len() implies !is_any(
                #[trigger] texts(n.words@)[w],
                SIGNER_PROPERTY_IDENTS@,
            ) by {
                assert(!mentions(n.words@[w]@, "signer"@));
            }
        }
        if call_site(n) is Some {
            lemma_asserts_no_signer((call_site(n)->0).name);
        }
        if n.kind is Macro {
            assert(!holds_ident(n.tokens@, SIGNER_PROPERTY_IDENTS@));
        }
    }
}

/// A function that takes an account which might have to sign is reported, and the account
/// named, if nothing in the file reads whether an account signed, and the body changes
/// state: by serializing, by borrowing for writing, or by invoking a program. Each of the
/// three is enough.
pub proof fn law_unsigned_change_is_reported(
    ctx: ScanContext,
    path: Seq<Node>,
    f: Node,
    body: Node,
    k: int,
    ty: Node,
    pat: Node,
)
    requires
        !mentions_any(ctx.file_path@, seq!["/spl-token", "/spl_token", "/anchor-lang/", "/anchor_lang/", "/anchor-spl/", "/anchor_spl/", "/solana-program/", "/solana_program/"]),
        leads_openly(path, ctx.ast, f),
        f.kind is Function,
        f.parts(Role::Attribute).len() == 0,
        !begins_any(f.name@, seq!["test_", "_", "inner_", "do_", "impl_", "handle_"]),
        !begins(lower(f.name@), "process_"@) || lower(f.name@) == "process_instruction"@,
        !begins_any(lower(f.name@), seq!["execute_", "_process_", "transfer_", "burn_", "mint_", "create_", "close_", "set_"]),
        !is_any(lower(f.name@), seq!["transfer", "burn", "mint_to", "freeze", "thaw", "approve", "revoke", "close", "close_account", "set_authority", "create_account", "create_new_account", "create_or_allocate_account_raw", "topup", "dispose_account", "extend_account_size", "set_program_upgrade_authority"]),
        !ends_any(lower(f.name@), seq!["_tokens", "_account", "_fees"]),
        !mentions_any(lower(f.name@), seq!["serialize", "deserialize", "pack", "unpack", "parse", "validate", "verify", "check", "from_account", "to_account"]),
        !mentions(f.text@, "Signer"@),
        !mentions(f.text@, "Context <"@),
        !mentions(f.text@, "Context<"@),
        0 <= k < f.parts(Role::Param).len(),
        f.parts(Role::Param)[k].kind is Param,
        f.parts(Role::Param)[k].part(Role::Type) == Some(ty),
        f.parts(Role::Param)[k].part(Role::Pattern) == Some(pat),
        mentions(ty.text@, "AccountInfo"@),
        !mentions(ty.text@, "["@),
        !mentions(ty.text@, "Vec"@),
        !mentions_any(lower(pat.text@), seq!["program", "system", "rent", "clock", "token", "mint", "metadata", "associated", "sysvar", "pda", "vault", "pool", "config", "state", "data", "dest", "source"]),
        f.part(Role::Body) == Some(body),
        forall|m: int| 0 <= m < nodes(body).len() ==> ignores_signers(#[trigger] nodes(body)[m]),
        ctx.call_graph.lookup(f.name@) is None,
        forall|c: Seq<char>| !caller_checks(ctx.call_graph, c, CheckKind::SignerCheck),
        forall|m: int|
            0 <= m < nodes(ctx.ast).len() ==> !((#[trigger] nodes(ctx.ast)[m]).kind is Method),
        unquoted(body.text@),
        mentions(body.text@, "invoke"@) || mentions(body.text@, "borrow_mut"@) || (mentions(
            body.text@,
            "serialize"@,
        ) && !mentions(body.text@, "deserialize"@)),
    ensures
        speaks_of(MissingSignerDetector.reports_on(ctx), f),
        exists|i: int|
            0 <= i < MissingSignerDetector.reports_on(ctx).len() && mentions(
                (#[trigger] MissingSignerDetector.reports_on(ctx)[i]).message,
                pat.text@,
            ),
{
    law_without_strings_all_is_kept(body.text@);
    if !mentions(body.text@, "deserialize"@) {
        lemma_nothing_replaced(body.text@, "deserialize"@, " "@);
    }
    assert(mutates(body.text@));
    lemma_body_checks_no_signer(body, ctx.call_graph, Some(risky_params(f)));
    let g = |p: Node| risky_param(p);
    assert(g(f.parts(Role::Param)[k]) == Some(pat.text@));
    lemma_name_is_listed(f.parts(Role::Param), g, k);
    assert(!carries_test(f));
    assert(!skipped_name(f.name@)) by {
        assert(!begins_any(lower(f.name@), DISPATCHED_PREFIXES@));
        assert(!begins_any(lower(f.name@), CPI_PREFIXES@));
    }
    assert(unsigned(ctx, f));
    let r = report_on(ctx, f)->0;
    law_led_to_is_met(path, outside_functions());
    let all = walk(ctx.ast, outside_functions());
    law_report_is_listed(all, |n: Node| report_on(ctx, n), f);
    let list = MissingSignerDetector.reports_on(ctx);
    let i = list.index_of(r);
    assert(list[i] == r);
    let rest = "' accepts AccountInfo "@ + quoted(risky_params(f)) + " without verifying is_signer"@;
    assert(r.message =~= "Function '"@ + f.name@ + rest);
    lemma_holds_middle(r.message, "Function '"@, f.name@, rest);
    lemma_quoted_holds(risky_params(f), pat.text@);
    law_mentions_grow(
        "Function '"@ + f.name@ + "' accepts AccountInfo "@,
        quoted(risky_params(f)),
        " without verifying is_signer"@,
        pat.text@,
    );
    assert(mentions(list[i].message, pat.text@));
}

/// Names in quotes hold each of the names.
proof fn lemma_quoted_holds(list: Seq<Seq<char>>, name: Seq<char>)
    requires
        list.contains(name),
    ensures
        mentions(quoted(list), name),
    decreases list.len(),
{
    let quote = "'"@;
    if list.len() == 1 {
        lemma_holds_middle(quote + list[0] + quote, quote, list[0], quote);
    } else if list.last() == name {
        let whole = quoted(list.drop_last()) + ", "@ + (quote + name + quote);
        let front = quoted(list.drop_last()) + ", "@ + quote;
        assert(whole =~= front + name + quote);
        lemma_holds_middle(whole, front, name, quote);
    } else {
        let k = list.index_of(name);
        assert(list.drop_last()[k] == name);
        lemma_quoted_holds(list.drop_last(), name);
        let rest = ", "@ + (quote + list.last() + quote);
        assert(quoted(list) =~= Seq::<char>::empty() + quoted(list.drop_last()) + rest);
        law_mentions_grow(Seq::<char>::empty(), quoted(list.drop_last()), rest, name);
    }
}

/// A body that says nothing of serializing, borrowing for writing or invoking, outside of
/// its strings, is not reported on.
pub proof fn law_unchanging_body_is_silent(ctx: ScanContext, f: Node)
    requires
        !mentions(outside_strings(f.body_text()), "invoke"@),
        !mentions(outside_strings(f.body_text()), "borrow_mut"@),
        !mentions(outside_strings(f.body_text()), "try_borrow_mut"@),
        !mentions(outside_strings(f.body_text()), "serialize"@),
        !mentions(outside_strings(f.body_text()), "deserialize"@),
    ensures
        report_on(ctx, f) is None,
{
    lemma_nothing_replaced(outside_strings(f.body_text()), "deserialize"@, " "@);
}

/// A function whose body reads the field `is_signer` of something is not reported on.
pub proof fn law_reading_the_signer_is_enough(ctx: ScanContext, f: Node, body: Node, n: Node)
    requires
        f.part(Role::Body) == Some(body),
        nodes(body).contains(n),
        n.kind == (Kind::Field { named: true }) || n.kind is MethodCall,
        n.name@ == "is_signer"@ || n.name@ == "has_signer"@ || n.name@ == "signer_key"@,
    ensures
        report_on(ctx, f) is None,
{
    let i = nodes(body).index_of(n);
    let p = |m: Node| reads_signer(m);
    assert(p(nodes(body)[i]));
    assert(touches_signer(body));
}

/// What is reported takes an account, alone and by a name that does not speak against its
/// signing.
pub proof fn law_reported_function_takes_an_account(ctx: ScanContext, f: Node)
    requires
        report_on(ctx, f) is Some,
    ensures
        f.kind is Function,
        exists|k: int|
            0 <= k < f.parts(Role::Param).len() && (#[trigger] f.parts(
                Role::Param,
            )[k]).kind is Param && (f.parts(Role::Param)[k].part(Role::Type) matches Some(ty)
                && mentions(ty.text@, "AccountInfo"@) && !mentions(ty.text@, "["@) && !mentions(
                ty.text@,
                "Vec"@,
            )),
{
    let g = |p: Node| risky_param(p);
    assert(risky_params(f).contains(risky_params(f)[0]));
    let k = lemma_named_by(f.parts(Role::Param), g, risky_params(f)[0]);
    assert(g(f.parts(Role::Param)[k]) is Some);
}

/// A function is not reported if it hands one of its accounts to a helper named after
/// asserting a signer, provided that the helper is not known to the file, or reads
/// signer status there.
pub proof fn law_asserting_helper_is_trusted(ctx: ScanContext, f: Node, body: Node, n: Node, verb: Seq<char>, param: Seq<char>)
    requires
        f.part(Role::Body) == Some(body),
        nodes(body).contains(n),
        is_any(verb, seq!["assert", "require", "check", "verify", "validate", "ensure"]),
        n.kind is Macro,
        n.last_word() == Some(verb + "_signer"@) || n.last_word() == Some(verb + "_is_signer"@),
        n.last_word() matches Some(name) && (ctx.call_graph.lookup(name) matches Some(known) ==> known.has_signer_check),
        risky_params(f).contains(param),
        match_alone(n.text@, param, 0),
    ensures
        report_on(ctx, f) is None,
{
    let list = nodes(body);
    let params = risky_params(f);
    let name = n.last_word()->0;
    assert(asserts_signer(name)) by {
        let verbs = seq!["assert", "require", "check", "verify", "validate", "ensure"];
        let i = choose|i: int| 0 <= i < verbs.len() && verb == #[trigger] verbs[i]@;
        assert(VERBS@[i]@ == verb);
    }
    let q = |p: Seq<char>| match_alone(n.text@, p, 0);
    assert(q(params[params.index_of(param)]));
    let p = |m: Node| signer_assertion(m, ctx.call_graph, Some(params));
    assert(p(list[list.index_of(n)]));
}

/// A helper of the same name that is known to read no signer status is not trusted.
pub proof fn law_hollow_helper_is_not_trusted(graph: CallGraph, n: Node, params: Option<Seq<Seq<char>>>, name: Seq<char>)
    requires
        n.kind is Macro,
        n.last_word() == Some(name),
        graph.lookup(name) matches Some(known) && !known.has_signer_check,
    ensures
        !signer_assertion(n, graph, params),
{
}

/// A function is not reported if one that calls it, or one that it calls, is known to
/// read signer status.
pub proof fn law_neighbours_may_check(ctx: ScanContext, f: Node, i: int)
    requires
        0 <= i < ctx.call_graph.entries@.len(),
        ctx.call_graph.entries@[i].has_signer_check,
        texts(ctx.call_graph.entries@[i].calls@).contains(f.name@),
    ensures
        report_on(ctx, f) is None,
{
    assert(ctx.call_graph.entries@[i].makes(CheckKind::SignerCheck));
    assert(caller_checks(ctx.call_graph, f.name@, CheckKind::SignerCheck));
}

/// Functions that process are dispatched to, but for the entry point itself.
pub proof fn law_entry_point_is_looked_at(name: Seq<char>)
    requires
        begins(lower(name), "process_"@),
        !begins_any(name, seq!["test_", "_", "inner_", "do_", "impl_", "handle_"]),
        !begins_any(lower(name), seq!["execute_", "_process_"]),
        !is_any(lower(name), seq!["transfer", "burn", "mint_to", "freeze", "thaw", "approve", "revoke", "close", "close_account", "set_authority", "create_account", "create_new_account", "create_or_allocate_account_raw", "topup", "dispose_account", "extend_account_size", "set_program_upgrade_authority"]),
        !begins_any(lower(name), seq!["transfer_", "burn_", "mint_", "create_", "close_", "set_"]),
        !ends_any(lower(name), seq!["_tokens", "_account", "_fees"]),
        !mentions_any(lower(name), seq!["serialize", "deserialize", "pack", "unpack", "parse", "validate", "verify", "check", "from_account", "to_account"]),
    ensures
        skipped_name(name) == (lower(name) != "process_instruction"@),
{
}

/// A function checks the signer only if the graph says so of it.
pub proof fn law_graph_says_who_checks(graph: CallGraph, name: Seq<char>)
    ensures
        checks_here(graph, name) <==> (graph.lookup(name) matches Some(info) && info.has_signer_check),
{
}

/// A dispatcher is checked only if it calls the function.
pub proof fn law_dispatcher_calls_the_function(n: Node, graph: CallGraph, target: Seq<char>)
    requires
        checked_dispatcher(n, graph, target),
    ensures
        n.kind is Method,
        n.part(Role::Body) matches Some(body) && called_names(body).contains(target),
{
}

/// A dispatcher that calls the function is checked by an assertion as by a look at the
/// signer.
pub proof fn law_dispatcher_may_assert(n: Node, body: Node, graph: CallGraph, target: Seq<char>)
    requires
        n.kind is Method,
        n.part(Role::Body) == Some(body),
        called_names(body).contains(target),
    ensures
        checked_dispatcher(n, graph, target) == (touches_signer(body) || calls_signer_assertion(body, graph, None)),
{
}

} // verus!
