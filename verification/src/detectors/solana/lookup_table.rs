//! Address lookup tables that are used without a look at who controls them.
use vstd::prelude::*;
use crate::attributes::{
    carries_test, cfg_mentions_test, has_cfg_mentioning_test, has_test_attribute,
    outside_functions_and_cfg_tests,
};
use crate::calls::{get_plain_calls, is_named, plain_calls};
use crate::context::{is_in_directory, lies_in, ScanContext};
use crate::detector::{Detector, Profile, raise, raised, RuleInfo, stamped};
use crate::finding::{Chain, Confidence, Finding, Report, Severity};
use crate::functions::{
    find_first, first_fn_in, law_only_function_is_found, lemma_first_function, only_function,
};
use crate::syntax::{Kind, Node, Role};
use crate::text::{
    any_text, begins, contains, contains_any, ends, ends_with, is_screaming_snake, join3, listed,
    mentions, mentions_any, same, screaming, some_text, starts_with, texts,
};
use crate::tokens::{code_string_of, Fill, printed};
use crate::walk::{
    any_node, collect_findings, collect_names, leads_openly, lemma_reports_from, lemma_sealed,
    lemma_spoken_of, names_of, nodes, nodes_in, opt_report, opt_text, reports_of, some, speaks_of,
    walk, walk_nodes,
};

verus! {

/// Reports functions that build a transaction with an address lookup table and
/// verify neither its authority nor whether it is frozen.
pub struct LookupTableDetector;

/// The rule's description of itself.
pub open spec fn profile() -> Profile {
    Profile {
        id: "SOL-015"@,
        name: "lookup-table-manipulation"@,
        description: "Detects AddressLookupTableAccount usage without authority or freeze verification"@,
        severity: Severity::High,
        confidence: Confidence::Medium,
        chain: Chain::Solana,
    }
}

/// The rule's description of itself.
fn info() -> (r: RuleInfo)
    ensures
        r@ == profile(),
{
    RuleInfo {
        id: "SOL-015",
        name: "lookup-table-manipulation",
        description: "Detects AddressLookupTableAccount usage without authority or freeze verification",
        severity: Severity::High,
        confidence: Confidence::Medium,
        chain: Chain::Solana,
    }
}

/// How a lookup table is named.
pub const TRIGGER_PATTERNS: [&'static str; 2] = [
    "AddressLookupTableAccount",
    "LookupTableAccount",
];

/// Words of a check of who controls the table.
pub const SAFE_PATTERNS: [&'static str; 6] = [
    "meta.authority",
    "meta . authority",
    "freeze_authority",
    "is_frozen",
    "lookup_table.meta",
    "lookup_table . meta",
];

/// Words of a check that takes the table's description apart.
pub const META_PATTERNS: [&'static str; 3] = ["authority", "is_frozen", "deactivation_slot"];

/// Words of code that builds a transaction.
pub const TRANSACTION_PATTERNS: [&'static str; 6] = [
    "VersionedTransaction",
    "MessageV0",
    "v0::Message",
    "address_lookup_table_accounts",
    "compile_v0",
    "new_v0",
];

/// The file is a test file by its path.
pub open spec fn test_path(path: Seq<char>) -> bool {
    lies_in(path, "tests"@) || ends(path, "_test.rs"@)
}

/// The name of a constant or a static.
pub open spec fn const_name(n: Node) -> Option<Seq<char>> {
    if n.kind is Const || n.kind is Static { Some(n.name@) } else { None }
}

/// The names of the constants and statics of a file.
pub open spec fn const_names(file: Node) -> Seq<Seq<char>> {
    names_of(nodes(file), |n: Node| const_name(n))
}

/// The field sets the key of a table to a constant.
pub open spec fn const_key(field: Node, consts: Seq<Seq<char>>) -> bool {
    &&& field.name@ == "key"@
    &&& field.part(Role::Operand) matches Some(value) && value.kind is PathExpr && (
    value.last_word() matches Some(w) && (screaming(w) || consts.contains(w)))
}

/// The node builds a lookup table whose key is a constant.
pub open spec fn builds_const_table(n: Node, consts: Seq<Seq<char>>) -> bool {
    &&& n.kind is StructExpr
    &&& n.last_word() == Some("AddressLookupTableAccount"@)
    &&& some(n.parts(Role::Field), |f: Node| const_key(f, consts))
}

/// The code of a function, without what its string literals say.
pub open spec fn code_of(f: Node) -> Seq<char> {
    printed(f.tokens@, Fill::Emptied)
}

/// The code of a function's body, without what its string literals say.
pub open spec fn body_code(f: Node) -> Seq<char> {
    match f.part(Role::Body) {
        Some(body) => printed(body.tokens@, Fill::Emptied),
        None => Seq::empty(),
    }
}

/// The function `name` of the file checks who controls the table.
pub open spec fn helper_checks(file: Node, name: Seq<char>) -> bool {
    first_fn_in(file, name) matches Some(helper) && mentions_any(body_code(helper), SAFE_PATTERNS@)
}

/// The function is not looked at.
pub open spec fn skipped(f: Node) -> bool {
    ||| begins(f.name@, "test_"@)
    ||| ends(f.name@, "_test"@)
    ||| carries_test(f)
    ||| cfg_mentions_test(f)
}

/// The function checks who controls the table, by itself or through a helper.
pub open spec fn checked(file: Node, f: Node) -> bool {
    ||| mentions_any(f.body_text(), SAFE_PATTERNS@)
    ||| mentions_any(f.text@, SAFE_PATTERNS@)
    ||| mentions(code_of(f), "LookupTableMeta"@) && mentions_any(code_of(f), META_PATTERNS@)
    ||| some_text(plain_calls(f), |name: Seq<char>| helper_checks(file, name))
}

/// The function is client code that names its own table.
pub open spec fn own_table(file: Node, f: Node) -> bool {
    mentions(code_of(f), "RpcClient"@) && some(
        nodes(f),
        |n: Node| builds_const_table(n, const_names(file)),
    )
}

/// `f` builds a transaction with a table that it has not checked.
pub open spec fn unchecked(file: Node, f: Node) -> bool {
    &&& f.kind is Function
    &&& !skipped(f)
    &&& mentions_any(code_of(f), TRIGGER_PATTERNS@)
    &&& !checked(file, f)
    &&& mentions_any(code_of(f), TRANSACTION_PATTERNS@)
    &&& !own_table(file, f)
}

/// The report on `f`, if there is one.
pub open spec fn report_on(ctx: ScanContext, f: Node) -> Option<Report> {
    if unchecked(ctx.ast, f) {
        Some(
            raised(
                profile(),
                ctx,
                Confidence::Medium,
                f.line,
                f.column,
                "Function '"@ + f.name@
                    + "' uses AddressLookupTableAccount in transaction context without verifying authority or freeze status"@,
                "Verify lookup table authority and freeze status before using in transactions to prevent manipulation attacks"@,
            ),
        )
    } else {
        None
    }
}

/// Whether the file is a test file by its path.
pub fn is_test_file_path(path: &str) -> (b: bool)
    ensures
        b == test_path(path@),
{
    is_in_directory(path, "tests") || ends_with(path, "_test.rs")
}

/// Whether an identifier is spelled like a constant.
pub fn is_const_like_ident(s: &str) -> (b: bool)
    ensures
        b == screaming(s@),
{
    is_screaming_snake(s)
}

/// The names of the constants and statics of a file.
pub fn collect_const_names(file: &Node) -> (r: Vec<String>)
    ensures
        texts(r@) == const_names(*file),
{
    let list = nodes_in(file);
    collect_names(
        &list,
        |n: &Node| -> (s: Option<String>)
            ensures
                opt_text(s) == const_name(*n)
        {
            if matches!(n.kind, Kind::Const | Kind::Static) {
                Some(n.name.clone())
            } else {
                None
            }
        },
        Ghost(|n: Node| const_name(n)),
    )
}

/// Whether the node builds a lookup table whose key is a constant.
fn is_const_table(n: &Node, consts: &Vec<String>) -> (b: bool)
    ensures
        b == builds_const_table(*n, texts(consts@)),
{
    let ghost known = texts(consts@);
    let fields = n.get_parts(Role::Field);
    matches!(n.kind, Kind::StructExpr) && is_named(n.get_last_word(), "AddressLookupTableAccount")
        && any_node(
        &fields,
        |f: &Node| -> (r: bool)
            ensures
                r == const_key(*f, known)
        {
            same(f.name.as_str(), "key") && (match f.get_part(Role::Operand) {
                Some(value) => matches!(value.kind, Kind::PathExpr) && (match value.get_last_word() {
                    Some(w) => is_const_like_ident(w) || listed(consts, w),
                    None => false,
                }),
                None => false,
            })
        },
        Ghost(|f: Node| const_key(f, known)),
    )
}

/// Whether the function builds a lookup table whose key is a constant.
pub fn constructs_const_key_lut(f: &Node, consts: &Vec<String>) -> (b: bool)
    ensures
        b == some(nodes(*f), |n: Node| builds_const_table(n, texts(consts@))),
{
    let ghost known = texts(consts@);
    let list = nodes_in(f);
    any_node(
        &list,
        |n: &Node| -> (r: bool)
            ensures
                r == builds_const_table(*n, known)
        { is_const_table(n, consts) },
        Ghost(|n: Node| builds_const_table(n, known)),
    )
}

/// Whether some function that `f` calls checks who controls the table.
fn delegates_check(file: &Node, f: &Node) -> (b: bool)
    ensures
        b == some_text(plain_calls(*f), |name: Seq<char>| helper_checks(*file, name)),
{
    let called = get_plain_calls(f);
    let list = nodes_in(file);
    any_text(
        &called,
        |name: &str| -> (r: bool)
            ensures
                r == helper_checks(*file, name@)
        {
            match find_first(&list, name) {
                Some(helper) => {
                    let code = match helper.get_part(Role::Body) {
                        Some(body) => code_string_of(&body.tokens),
                        None => String::new(),
                    };
                    contains_any(code.as_str(), SAFE_PATTERNS.as_slice())
                },
                None => false,
            }
        },
        Ghost(|name: Seq<char>| helper_checks(*file, name)),
    )
}

impl LookupTableDetector {
    /// The finding on `f`, if there is one.
    pub fn check(&self, ctx: &ScanContext, f: &Node) -> (r: Option<Finding>)
        ensures
            opt_report(r) == report_on(*ctx, *f),
    {
        match f.kind {
            Kind::Function => {},
            _ => {
                return None;
            },
        }
        let name = f.name.as_str();
        if starts_with(name, "test_") || ends_with(name, "_test") || has_test_attribute(f)
            || has_cfg_mentioning_test(f) {
            return None;
        }
        let code = code_string_of(&f.tokens);
        let code = code.as_str();
        if !contains_any(code, TRIGGER_PATTERNS.as_slice()) {
            return None;
        }
        let patterns = SAFE_PATTERNS.as_slice();
        if contains_any(f.get_body_text(), patterns) || contains_any(f.text.as_str(), patterns) || (
        contains(code, "LookupTableMeta") && contains_any(code, META_PATTERNS.as_slice()))
            || delegates_check(&ctx.ast, f) {
            return None;
        }
        if !contains_any(code, TRANSACTION_PATTERNS.as_slice()) {
            return None;
        }
        if contains(code, "RpcClient") && constructs_const_key_lut(
            f,
            &collect_const_names(&ctx.ast),
        ) {
            return None;
        }
        let text = join3(
            "Function '",
            name,
            "' uses AddressLookupTableAccount in transaction context without verifying authority or freeze status",
        );
        Some(
            raise(
                &info(),
                ctx,
                Confidence::Medium,
                f.line,
                f.column,
                text,
                "Verify lookup table authority and freeze status before using in transactions to prevent manipulation attacks",
            ),
        )
    }
}

impl Detector for LookupTableDetector {
    open spec fn profile(&self) -> Profile {
        profile()
    }

    open spec fn reports_on(&self, ctx: ScanContext) -> Seq<Report> {
        if !mentions_any(ctx.source@, TRIGGER_PATTERNS@) || test_path(ctx.file_path@) {
            Seq::empty()
        } else {
            reports_of(walk(ctx.ast, outside_functions_and_cfg_tests()), |f: Node| report_on(ctx, f))
        }
    }

    fn id(&self) -> (r: &'static str) {
        info().id
    }

    fn name(&self) -> (r: &'static str) {
        info().name
    }

    fn description(&self) -> (r: &'static str) {
        info().description
    }

    fn severity(&self) -> (r: Severity) {
        info().severity
    }

    fn confidence(&self) -> (r: Confidence) {
        info().confidence
    }

    fn chain(&self) -> (r: Chain) {
        info().chain
    }

    fn detect(&self, ctx: &ScanContext) -> (r: Vec<Finding>) {
        if !contains_any(ctx.source.as_str(), TRIGGER_PATTERNS.as_slice())
            || is_test_file_path(ctx.file_path.as_str()) {
            return Vec::new();
        }
        let list = walk_nodes(
            &ctx.ast,
            |n: &Node| -> (b: bool)
                ensures
                    b == outside_functions_and_cfg_tests()(*n)
            {
                !matches!(n.kind, Kind::Function)
                    && !(matches!(n.kind, Kind::Module) && has_cfg_mentioning_test(n))
            },
            Ghost(outside_functions_and_cfg_tests()),
        );
        collect_findings(
            &list,
            |f: &Node| -> (s: Option<Finding>)
                ensures
                    opt_report(s) == report_on(*ctx, *f)
            { self.check(ctx, f) },
            Ghost(|f: Node| report_on(*ctx, f)),
        )
    }

    proof fn law_findings_are_stamped(&self, ctx: ScanContext) {
        assert forall|i: int| 0 <= i < self.reports_on(ctx).len() implies stamped(
            #[trigger] self.reports_on(ctx)[i],
            self.profile(),
            ctx,
        ) by {
            lemma_reports_from(walk(ctx.ast, outside_functions_and_cfg_tests()), |f: Node| report_on(ctx, f), i);
        }
    }
}

/// Every finding has the confidence that the rule states of itself.
pub proof fn law_confidence_is_the_rules_own(ctx: ScanContext)
    ensures
        forall|i: int|
            0 <= i < LookupTableDetector.reports_on(ctx).len() ==> (
            #[trigger] LookupTableDetector.reports_on(ctx)[i]).confidence == profile().confidence,
{
    assert forall|i: int| 0 <= i < LookupTableDetector.reports_on(ctx).len() implies (
        #[trigger] LookupTableDetector.reports_on(ctx)[i]).confidence == profile().confidence by {
        lemma_reports_from(walk(ctx.ast, outside_functions_and_cfg_tests()), |f: Node| report_on(ctx, f), i);
    }
}

/// Nothing is reported on a file that does not speak of lookup tables, or that is a test by its path.
pub proof fn law_out_of_scope_is_silent(ctx: ScanContext)
    requires
        !mentions_any(ctx.source@, TRIGGER_PATTERNS@) || test_path(ctx.file_path@),
    ensures
        LookupTableDetector.reports_on(ctx).len() == 0,
{
}

/// Nothing is reported on a test function.
pub proof fn law_test_function_is_silent(ctx: ScanContext, f: Node)
    requires
        begins(f.name@, "test_"@)
            || ends(f.name@, "_test"@)
            || carries_test(f)
            || cfg_mentions_test(f),
    ensures
        report_on(ctx, f) is None,
{
}

/// A module with a `cfg` that speaks of tests contributes no report, whatever it holds.
pub proof fn law_test_module_is_silent(ctx: ScanContext, m: Node)
    requires
        m.kind is Module,
        cfg_mentions_test(m),
    ensures
        reports_of(walk(m, outside_functions_and_cfg_tests()), |f: Node| report_on(ctx, f)) == Seq::<Report>::empty(),
{
    lemma_sealed(m, outside_functions_and_cfg_tests(), |f: Node| report_on(ctx, f));
}

/// A helper counts only where the file holds a function of its name whose body checks
/// who controls the table.
pub proof fn law_helpers_are_resolved(file: Node, name: Seq<char>)
    requires
        helper_checks(file, name),
    ensures
        exists|i: int|
            0 <= i < nodes(file).len() && ({
                let h = #[trigger] nodes(file)[i];
                h.kind is Function && h.name@ == name && mentions_any(body_code(h), SAFE_PATTERNS@)
            }),
{
    lemma_first_function(nodes(file), name);
    let h = first_fn_in(file, name)->0;
    let i = nodes(file).index_of(h);
    assert(nodes(file)[i] == h);
}

/// What is reported on is spoken of, wherever in the file it stands.
proof fn lemma_reported(ctx: ScanContext, path: Seq<Node>, f: Node)
    requires
        leads_openly(path, ctx.ast, f),
        report_on(ctx, f) is Some,
        mentions_any(ctx.source@, seq!["AddressLookupTableAccount", "LookupTableAccount"]),
        !lies_in(ctx.file_path@, "tests"@),
        !ends(ctx.file_path@, "_test.rs"@),
    ensures
        speaks_of(LookupTableDetector.reports_on(ctx), f),
{
    lemma_spoken_of(path, outside_functions_and_cfg_tests(), |n: Node| report_on(ctx, n), "Function '"@, "' uses AddressLookupTableAccount in transaction context without verifying authority or freeze status"@);
}

/// A function that names a lookup table and a transaction, outside of its strings, is
/// reported, if it checks neither the authority nor the freezing of the table, calls
/// nothing of the file, and does not fetch a table of its own.
pub proof fn law_unchecked_table_is_reported(ctx: ScanContext, path: Seq<Node>, f: Node)
    requires
        mentions_any(ctx.source@, seq!["AddressLookupTableAccount", "LookupTableAccount"]),
        !lies_in(ctx.file_path@, "tests"@),
        !ends(ctx.file_path@, "_test.rs"@),
        leads_openly(path, ctx.ast, f),
        f.kind is Function,
        f.parts(Role::Attribute).len() == 0,
        !begins(f.name@, "test_"@),
        !ends(f.name@, "_test"@),
        mentions_any(printed(f.tokens@, Fill::Emptied), seq!["AddressLookupTableAccount", "LookupTableAccount"]),
        mentions_any(printed(f.tokens@, Fill::Emptied), seq!["VersionedTransaction", "MessageV0", "v0::Message", "address_lookup_table_accounts", "compile_v0", "new_v0"]),
        !mentions_any(f.body_text(), seq!["meta.authority", "meta . authority", "freeze_authority", "is_frozen", "lookup_table.meta", "lookup_table . meta"]),
        !mentions_any(f.text@, seq!["meta.authority", "meta . authority", "freeze_authority", "is_frozen", "lookup_table.meta", "lookup_table . meta"]),
        !mentions(printed(f.tokens@, Fill::Emptied), "LookupTableMeta"@) || !mentions_any(printed(f.tokens@, Fill::Emptied), seq!["authority", "is_frozen", "deactivation_slot"]),
        !mentions(printed(f.tokens@, Fill::Emptied), "RpcClient"@),
        forall|k: int| 0 <= k < plain_calls(f).len() ==> first_fn_in(ctx.ast, #[trigger] plain_calls(f)[k]) is None,
    ensures
        speaks_of(LookupTableDetector.reports_on(ctx), f),
{
    let called = plain_calls(f);
    assert forall|k: int| 0 <= k < called.len() implies !helper_checks(ctx.ast, #[trigger] called[k]) by {}
    assert(!checked(ctx.ast, f));
    lemma_reported(ctx, path, f);
}

/// What is reported names a lookup table and a transaction, and checks neither
/// authority nor freezing.
pub proof fn law_reported_table_is_unchecked(ctx: ScanContext, f: Node)
    requires
        report_on(ctx, f) is Some,
    ensures
        f.kind is Function,
        !begins(f.name@, "test_"@),
        !ends(f.name@, "_test"@),
        mentions_any(printed(f.tokens@, Fill::Emptied), seq!["AddressLookupTableAccount", "LookupTableAccount"]),
        mentions_any(printed(f.tokens@, Fill::Emptied), seq!["VersionedTransaction", "MessageV0", "v0::Message", "address_lookup_table_accounts", "compile_v0", "new_v0"]),
        !mentions_any(f.body_text(), seq!["meta.authority", "meta . authority", "freeze_authority", "is_frozen", "lookup_table.meta", "lookup_table . meta"]),
        !mentions_any(f.text@, seq!["meta.authority", "meta . authority", "freeze_authority", "is_frozen", "lookup_table.meta", "lookup_table . meta"]),
        !mentions(printed(f.tokens@, Fill::Emptied), "LookupTableMeta"@) || !mentions_any(printed(f.tokens@, Fill::Emptied), seq!["authority", "is_frozen", "deactivation_slot"]),
{
}

/// A function is not reported if it calls one of the file whose code checks the
/// authority or the freezing of a table.
pub proof fn law_helper_may_check_the_table(ctx: ScanContext, f: Node, h: Node, inner: Node)
    requires
        only_function(nodes(ctx.ast), h),
        plain_calls(f).contains(h.name@),
        h.part(Role::Body) == Some(inner),
        mentions_any(printed(inner.tokens@, Fill::Emptied), seq!["meta.authority", "meta . authority", "freeze_authority", "is_frozen", "lookup_table.meta", "lookup_table . meta"]),
    ensures
        report_on(ctx, f) is None,
{
    law_only_function_is_found(nodes(ctx.ast), h);
    let called = plain_calls(f);
    let p = |x: Seq<char>| helper_checks(ctx.ast, x);
    assert(p(called[called.index_of(h.name@)]));
    assert(checked(ctx.ast, f));
}

/// A function that fetches through a client and builds the table under a key which is
/// spelled like a constant is not reported.
pub proof fn law_table_of_ones_own_is_trusted(ctx: ScanContext, f: Node, n: Node, field: Node, value: Node, w: Seq<char>)
    requires
        mentions(printed(f.tokens@, Fill::Emptied), "RpcClient"@),
        nodes(f).contains(n),
        n.kind is StructExpr,
        n.last_word() == Some("AddressLookupTableAccount"@),
        n.parts(Role::Field).contains(field),
        field.name@ == "key"@,
        field.part(Role::Operand) == Some(value),
        value.kind is PathExpr,
        value.last_word() == Some(w),
        screaming(w),
    ensures
        report_on(ctx, f) is None,
{
    let consts = const_names(ctx.ast);
    let fields = n.parts(Role::Field);
    let q = |x: Node| const_key(x, consts);
    assert(q(fields[fields.index_of(field)]));
    let p = |m: Node| builds_const_table(m, consts);
    assert(p(nodes(f)[nodes(f).index_of(n)]));
    assert(own_table(ctx.ast, f));
}

/// A function that carries a test attribute of whatever framework is not reported.
pub proof fn law_marked_test_is_silent(ctx: ScanContext, f: Node, k: int)
    requires
        0 <= k < f.parts(Role::Attribute).len(),
        f.parts(Role::Attribute)[k].last_word() == Some("test"@),
    ensures
        report_on(ctx, f) is None,
{
    let p = |a: Node| a.last_word() == Some("test"@);
    assert(p(f.parts(Role::Attribute)[k]));
}

/// A table is of one's own if its key is a constant: one in capitals, or one of the
/// file.
pub proof fn law_key_is_a_constant(field: Node, consts: Seq<Seq<char>>)
    requires
        const_key(field, consts),
    ensures
        field.name@ == "key"@,
        field.part(Role::Operand) matches Some(value) && value.kind is PathExpr && (value.last_word() matches Some(w) && (screaming(w) || consts.contains(w))),
{
}

/// Test files are known by their directory or by their name.
pub proof fn law_test_files(path: Seq<char>)
    requires
        lies_in(path, "tests"@) || ends(path, "_test.rs"@),
    ensures
        test_path(path),
{
}

/// A function that builds no table has none of its own.
pub proof fn law_own_table_is_built(file: Node, f: Node)
    requires
        forall|k: int| 0 <= k < nodes(f).len() ==> !builds_const_table(#[trigger] nodes(f)[k], const_names(file)),
    ensures
        !own_table(file, f),
{
}

} // verus!
