//! Accounts that are read without a look at what type of account they are.
use vstd::prelude::*;
use crate::attributes::{carries_test, has_test_attribute, is_cfg_test};
use crate::caller_identity::closed;
use crate::calls::{called_names, get_called_names, get_macro_name, macro_name};
use crate::cfg::test_builds_only;
use crate::context::ScanContext;
use crate::detector::{Detector, Profile, raise, raised, RuleInfo, stamped};
use crate::finding::{Chain, Confidence, Finding, Report, Severity};
use crate::functions::{
    find_first, first_fn_in, law_only_function_is_found, lemma_first_function, only_function,
};
use crate::literals::{int_of, int_value};
use crate::markers::SOLANA_MARKERS;
use crate::quotes::{blank_literals, outside_literals};
use crate::syntax::{Kind, lemma_all_parts_smaller, lemma_part_smaller, Node, Role};
use crate::text::{
    any_text, ascii_lower, begins, begins_any, contains, contains_any, ends, ends_with, is_any,
    join3, mentions, mentions_any, same, same_as_any, some_text, starts_with, starts_with_any,
    texts, to_ascii_lowercase,
};
use crate::walk::{
    any_node, collect_findings, leads_openly, lemma_reports_from, lemma_sealed, lemma_spoken_of,
    nodes, nodes_in, opt_report, reports_of, some, speaks_of, walk, walk_nodes,
};

verus! {

/// Reports functions that deserialize account data and never compare a
/// discriminator.
pub struct AccountConfusionDetector;

/// The rule's description of itself.
pub open spec fn profile() -> Profile {
    Profile {
        id: "SOL-004"@,
        name: "account-confusion"@,
        description: "Detects manual account deserialization without discriminator check"@,
        severity: Severity::High,
        confidence: Confidence::Medium,
        chain: Chain::Solana,
    }
}

/// The rule's description of itself.
fn info() -> (r: RuleInfo)
    ensures
        r@ == profile(),
{
    RuleInfo {
        id: "SOL-004",
        name: "account-confusion",
        description: "Detects manual account deserialization without discriminator check",
        severity: Severity::High,
        confidence: Confidence::Medium,
        chain: Chain::Solana,
    }
}

/// Framework sources and code generators.
pub const FRAMEWORK_PATHS: [&'static str; 8] = [
    "/anchor-spl/",
    "/anchor_spl/",
    "/anchor-lang/",
    "/anchor_lang/",
    "/codegen/",
    "/interface/src/",
    "/spl-token/",
    "/spl_token/",
];

/// Words in the names of tests and of functions that only convert bytes.
pub const UTILITY_WORDS: [&'static str; 5] = [
    "test",
    "_pack",
    "_unpack",
    "deserialize",
    "serialize",
];

/// How the names of functions that only convert bytes, or generate code, begin.
pub const UTILITY_PREFIXES: [&'static str; 4] = ["pack", "unpack", "gen_", "generate_"];

/// How Anchor's account type is spelled.
pub const ANCHOR_ACCOUNT: [&'static str; 2] = ["Account <", "Account<"];

/// How a deserializing call is spelled.
pub const DESERIALIZERS: [&'static str; 8] = [
    ":: try_from_slice",
    ". try_from_slice",
    ":: try_deserialize",
    ". try_deserialize",
    ":: deserialize",
    ". deserialize",
    ":: unpack",
    ". unpack",
];

/// How an unpacking call is spelled.
pub const UNPACKS: [&'static str; 2] = [":: unpack", ". unpack"];

/// Names under which the token program's checked unpacking comes.
pub const CHECKED_UNPACKERS: [&'static str; 2] = ["spl_token", "StateWithExtensions"];

/// What takes the checks away from the token program's unpacking.
pub const UNCHECKED_UNPACKS: [&'static str; 4] = [
    "unpack_unchecked",
    "unpack_from_slice",
    ":: try_from_slice",
    ". try_from_slice",
];

/// How Anchor's checked deserialization is spelled.
pub const ANCHOR_DESERIALIZERS: [&'static str; 2] = [":: try_deserialize", ". try_deserialize"];

/// Words in the names of type tags.
pub const TAG_WORDS: [&'static str; 4] = [
    "discriminator",
    "account_type",
    "accounttype",
    "type_tag",
];

/// Words of an assertion about a type tag, whatever their case.
pub const ASSERTED_WORDS: [&'static str; 4] = [
    "discriminator",
    "account_type",
    "accounttype",
    "_tag",
];

/// How an assertion spells the first eight bytes.
pub const ASSERTED_PREFIXES: [&'static str; 4] = [
    "[.. 8]",
    "[0 .. 8]",
    ". get (.. 8)",
    ". get (0 .. 8)",
];

/// The macros that assert.
pub const ASSERTIONS: [&'static str; 11] = [
    "assert",
    "assert_eq",
    "assert_ne",
    "debug_assert",
    "debug_assert_eq",
    "debug_assert_ne",
    "require",
    "require_eq",
    "require_neq",
    "require_keys_eq",
    "require_keys_neq",
];

/// Methods that read a part of a slice.
pub const GETTERS: [&'static str; 2] = ["get", "get_unchecked"];

/// Methods that compare.
pub const COMPARING_METHODS: [&'static str; 6] = [
    "starts_with",
    "eq",
    "ne",
    "cmp",
    "contains",
    "eq_ignore_ascii_case",
];

/// The equality operators.
pub const EQUALITIES: [&'static str; 2] = ["==", "!="];

/// The identifier names an account's type tag. Marks of initialization are none:
/// they tell a written account from an empty one, not one type from another.
pub open spec fn type_tag(ident: Seq<char>) -> bool {
    let low = ascii_lower(ident);
    ||| mentions_any(low, TAG_WORDS@)
    ||| low == "tag"@
    ||| ends(low, "_tag"@)
    ||| begins(low, "tag_"@)
}

/// `e` without parentheses and reference signs around it.
pub open spec fn peeled(e: Node) -> Node
    decreases e,
{
    proof {
        lemma_part_smaller(e, Role::Operand);
    }
    match e.kind {
        Kind::Paren | Kind::Group | Kind::Reference { .. } => match e.part(Role::Operand) {
            Some(inner) => peeled(inner),
            None => e,
        },
        _ => e,
    }
}

/// The value of an integer literal.
pub open spec fn literal_value(e: Node) -> Option<u64> {
    if peeled(e).kind is LitInt { int_of(peeled(e).text@) } else { None }
}

/// The range selects exactly the first eight elements: `..8`, `0..8`, `..=7` or
/// `0..=7`.
pub open spec fn first_eight(e: Node) -> bool {
    let range = peeled(e);
    match (range.kind, range.part(Role::Right)) {
        (Kind::Range { closed }, Some(end)) => {
            &&& range.part(Role::Left) matches Some(start) ==> literal_value(start) == Some(0u64)
            &&& literal_value(end) == Some(if closed { 7u64 } else { 8u64 })
        },
        _ => false,
    }
}

/// The expression reads a type tag: the first eight bytes of something, or
/// something named after a tag.
pub open spec fn reads_tag(e: Node) -> bool
    decreases e,
{
    proof {
        lemma_part_smaller(e, Role::Operand);
        lemma_part_smaller(e, Role::Receiver);
        lemma_all_parts_smaller(e, Role::Argument);
    }
    match e.kind {
        Kind::PathExpr => some_text(texts(e.words@), |w: Seq<char>| type_tag(w)),
        Kind::Field { named } => {
            ||| named && type_tag(e.name@)
            ||| match e.part(Role::Operand) {
                Some(base) => reads_tag(base),
                None => false,
            }
        },
        Kind::Index => {
            ||| e.part(Role::Index) matches Some(index) && first_eight(index)
            ||| match e.part(Role::Operand) {
                Some(base) => reads_tag(base),
                None => false,
            }
        },
        Kind::MethodCall => {
            ||| is_any(e.name@, GETTERS@) && some(
                e.parts(Role::Argument),
                |a: Node| first_eight(a),
            )
            ||| type_tag(e.name@)
            ||| match e.part(Role::Receiver) {
                Some(receiver) => reads_tag(receiver),
                None => false,
            }
        },
        Kind::Call => exists|i: int|
            0 <= i < e.parts(Role::Argument).len() && reads_tag(
                #[trigger] e.parts(Role::Argument)[i],
            ),
        Kind::Reference { .. }
        | Kind::Paren
        | Kind::Group
        | Kind::Unary
        | Kind::Cast
        | Kind::Try => match e.part(Role::Operand) {
            Some(inner) => reads_tag(inner),
            None => false,
        },
        _ => false,
    }
}

/// Some argument of the call reads a type tag.
pub open spec fn hands_tag(e: Node) -> bool {
    some(e.parts(Role::Argument), |a: Node| reads_tag(a))
}

/// The assertions with a condition; those with two operands are the others.
pub const CONDITION_ASSERTIONS: [&'static str; 3] = ["assert", "debug_assert", "require"];

/// How many of the first arguments of the assertion `name` decide it.
pub open spec fn deciding(name: Seq<char>) -> int {
    if is_any(name, CONDITION_ASSERTIONS@) { 1 } else { 2 }
}

/// The printed code speaks of a type tag.
pub open spec fn speaks_of_tag(text: Seq<char>) -> bool {
    mentions_any(ascii_lower(text), ASSERTED_WORDS@) || mentions_any(text, ASSERTED_PREFIXES@)
}

/// The macro call asserts something about a type tag: the tag stands in what is
/// asserted, not in what is said where it fails.
pub open spec fn asserts_tag(mac: Node) -> bool {
    match (macro_name(mac), mac.args) {
        (Some(name), Some(args)) => is_any(name, ASSERTIONS@) && exists|i: int|
            0 <= i < deciding(name) && i < args@.len() && speaks_of_tag(#[trigger] args@[i].text@),
        (Some(name), None) => is_any(name, ASSERTIONS@) && speaks_of_tag(mac.text@),
        _ => false,
    }
}

/// The node checks an account's type: the tag is compared, asserted, matched on,
/// or handed to a check whose failure goes on.
pub open spec fn checks_tag(n: Node) -> bool {
    match n.kind {
        Kind::Binary => is_any(n.name@, EQUALITIES@) && {
            ||| n.part(Role::Left) matches Some(left) && reads_tag(left)
            ||| n.part(Role::Right) matches Some(right) && reads_tag(right)
        },
        Kind::MethodCall => is_any(n.name@, COMPARING_METHODS@) && {
            ||| n.part(Role::Receiver) matches Some(receiver) && reads_tag(receiver)
            ||| hands_tag(n)
        },
        Kind::Match => n.part(Role::Operand) matches Some(inner) && reads_tag(inner),
        Kind::Try => match n.part(Role::Operand) {
            Some(inner) => (peeled(inner).kind is Call || peeled(inner).kind is MethodCall)
                && hands_tag(peeled(inner)),
            None => false,
        },
        Kind::MacroExpr | Kind::StmtMacro => n.part(Role::Operand) matches Some(mac) && asserts_tag(
            mac,
        ),
        _ => false,
    }
}

/// Something below `block` checks an account's type.
pub open spec fn discriminates(block: Node) -> bool {
    some(nodes(block), |n: Node| checks_tag(n))
}

/// The function is not looked at.
pub open spec fn skipped(f: Node) -> bool {
    ||| mentions_any(f.name@, UTILITY_WORDS@)
    ||| begins_any(f.name@, UTILITY_PREFIXES@)
    ||| carries_test(f)
    ||| test_builds_only(f)
    ||| mentions_any(f.text@, ANCHOR_ACCOUNT@) && mentions(f.text@, "Context"@)
}

/// The token program's unpacking checks the type by itself.
pub open spec fn checked_unpack(body: Seq<char>) -> bool {
    mentions_any(body, CHECKED_UNPACKERS@) && mentions_any(body, UNPACKS@) && !mentions_any(
        body,
        UNCHECKED_UNPACKS@,
    )
}

/// Anchor's deserialization checks the type by itself.
pub open spec fn checked_deserialize(body: Seq<char>) -> bool {
    mentions_any(body, ANCHOR_DESERIALIZERS@) && !mentions(body, "try_deserialize_unchecked"@)
}

/// The function `name` of the file, other than `f`, checks an account's type.
pub open spec fn helper_discriminates(file: Node, f: Node, name: Seq<char>) -> bool {
    name != f.name@ && match first_fn_in(file, name) {
        Some(helper) => helper.part(Role::Body) matches Some(body) && discriminates(body),
        None => false,
    }
}

/// `f` deserializes account data, and neither it nor what it calls checks the type.
/// What a literal says deserializes nothing.
pub open spec fn confused(file: Node, f: Node) -> bool {
    &&& f.kind is Function
    &&& !skipped(f)
    &&& mentions_any(outside_literals(f.body_text()), DESERIALIZERS@)
    &&& f.part(Role::Body) matches Some(body) ==> !discriminates(body)
    &&& !checked_unpack(f.body_text())
    &&& !checked_deserialize(f.body_text())
    &&& !some_text(called_names(f), |name: Seq<char>| helper_discriminates(file, f, name))
}

/// The report on `f`, if there is one.
pub open spec fn report_on(ctx: ScanContext, f: Node) -> Option<Report> {
    if confused(ctx.ast, f) {
        Some(
            raised(
                profile(),
                ctx,
                Confidence::Medium,
                f.line,
                f.column,
                "Function '"@ + f.name@
                    + "' deserializes account data without discriminator validation"@,
                "Check the first 8 bytes of account data as a discriminator before deserialization, or use Anchor's `Account<'info, T>`"@,
            ),
        )
    } else {
        None
    }
}

/// Go below everything but functions and modules that are compiled for tests only.
pub open spec fn shipped() -> spec_fn(Node) -> bool {
    |n: Node| !(n.kind is Function) && !(n.kind is Module && test_builds_only(n))
}

/// Whether the identifier names an account's type tag.
pub fn is_type_tag_ident(ident: &str) -> (b: bool)
    ensures
        b == type_tag(ident@),
{
    let low = to_ascii_lowercase(ident);
    let low = low.as_str();
    contains_any(low, TAG_WORDS.as_slice()) || same(low, "tag") || ends_with(low, "_tag")
        || starts_with(low, "tag_")
}

/// `e` without parentheses and reference signs around it.
pub fn peel(e: &Node) -> (r: &Node)
    ensures
        *r == peeled(*e),
    decreases e,
{
    proof {
        lemma_part_smaller(*e, Role::Operand);
    }
    match e.kind {
        Kind::Paren | Kind::Group | Kind::Reference { .. } => match e.get_part(Role::Operand) {
            Some(inner) => peel(inner),
            None => e,
        },
        _ => e,
    }
}

/// The value of an integer literal.
pub fn lit_usize(e: &Node) -> (r: Option<u64>)
    ensures
        r == literal_value(*e),
{
    let inner = peel(e);
    match inner.kind {
        Kind::LitInt => int_value(inner.text.as_str()),
        _ => None,
    }
}

/// Whether the range selects exactly the first eight elements.
pub fn is_eight_byte_prefix(e: &Node) -> (b: bool)
    ensures
        b == first_eight(*e),
{
    let range = peel(e);
    match (range.kind, range.get_part(Role::Right)) {
        (Kind::Range { closed }, Some(end)) => {
            if let Some(start) = range.get_part(Role::Left) {
                match lit_usize(start) {
                    Some(0) => {},
                    _ => {
                        return false;
                    },
                }
            }
            match lit_usize(end) {
                Some(value) => value == (if closed { 7u64 } else { 8u64 }),
                None => false,
            }
        },
        _ => false,
    }
}

/// Whether the expression reads a type tag.
pub fn expr_reads_type_tag(e: &Node) -> (b: bool)
    ensures
        b == reads_tag(*e),
    decreases e,
{
    proof {
        lemma_part_smaller(*e, Role::Operand);
        lemma_part_smaller(*e, Role::Receiver);
        lemma_all_parts_smaller(*e, Role::Argument);
    }
    match e.kind {
        Kind::PathExpr => any_text(
            &e.words,
            |w: &str| -> (r: bool)
                ensures
                    r == type_tag(w@)
            { is_type_tag_ident(w) },
            Ghost(|w: Seq<char>| type_tag(w)),
        ),
        Kind::Field { named } => (named && is_type_tag_ident(e.name.as_str())) || (
        match e.get_part(Role::Operand) {
            Some(base) => expr_reads_type_tag(base),
            None => false,
        }),
        Kind::Index => (match e.get_part(Role::Index) {
            Some(index) => is_eight_byte_prefix(index),
            None => false,
        }) || (match e.get_part(Role::Operand) {
            Some(base) => expr_reads_type_tag(base),
            None => false,
        }),
        Kind::MethodCall => {
            let args = e.get_parts(Role::Argument);
            (same_as_any(e.name.as_str(), GETTERS.as_slice()) && any_node(
                &args,
                |a: &Node| -> (r: bool)
                    ensures
                        r == first_eight(*a)
                { is_eight_byte_prefix(a) },
                Ghost(|a: Node| first_eight(a)),
            )) || is_type_tag_ident(e.name.as_str()) || (match e.get_part(Role::Receiver) {
                Some(receiver) => expr_reads_type_tag(receiver),
                None => false,
            })
        },
        Kind::Call => {
            let args = e.get_parts(Role::Argument);
            let ghost all = e.parts(Role::Argument);
            let mut found = false;
            let mut i: usize = 0;
            while i < args.len()
                invariant
                    i <= args@.len(),
                    all == args@.unref(),
                    all == e.parts(Role::Argument),
                    forall|j: int|
                        0 <= j < all.len() ==> decreases_to!(
                            e => #[trigger] e.parts(Role::Argument)[j]
                        ),
                    found == exists|j: int| 0 <= j < i && reads_tag(#[trigger] all[j]),
                decreases args@.len() - i,
            {
                assert(all[i as int] == *args@[i as int]);
                assert(decreases_to!(e => e.parts(Role::Argument)[i as int]));
                if expr_reads_type_tag(args[i]) {
                    found = true;
                }
                i = i + 1;
            }
            found
        },
        Kind::Reference { .. }
        | Kind::Paren
        | Kind::Group
        | Kind::Unary
        | Kind::Cast
        | Kind::Try => match e.get_part(Role::Operand) {
            Some(inner) => expr_reads_type_tag(inner),
            None => false,
        },
        _ => false,
    }
}

/// Whether some argument of the call reads a type tag.
fn passes_type_tag(e: &Node) -> (b: bool)
    ensures
        b == hands_tag(*e),
{
    let args = e.get_parts(Role::Argument);
    any_node(
        &args,
        |a: &Node| -> (r: bool)
            ensures
                r == reads_tag(*a)
        { expr_reads_type_tag(a) },
        Ghost(|a: Node| reads_tag(a)),
    )
}

/// Whether the printed code speaks of a type tag.
fn is_about_tag(text: &str) -> (b: bool)
    ensures
        b == speaks_of_tag(text@),
{
    contains_any(
        to_ascii_lowercase(text).as_str(),
        ASSERTED_WORDS.as_slice(),
    ) || contains_any(text, ASSERTED_PREFIXES.as_slice())
}

/// Whether the macro call asserts something about a type tag.
pub fn macro_asserts_type_tag(mac: &Node) -> (b: bool)
    ensures
        b == asserts_tag(*mac),
{
    let name = match get_macro_name(mac) {
        Some(name) => name,
        None => {
            return false;
        },
    };
    if !same_as_any(name, ASSERTIONS.as_slice()) {
        return false;
    }
    match &mac.args {
        Some(args) => {
            let count: usize = if same_as_any(name, CONDITION_ASSERTIONS.as_slice()) { 1 } else { 2 };
            let mut i: usize = 0;
            while i < count && i < args.len()
                invariant
                    i <= count,
                    i <= args@.len(),
                    mac.args == Some(*args),
                    macro_name(*mac) == Some(name@),
                    is_any(name@, ASSERTIONS@),
                    count == deciding(name@),
                    forall|j: int| 0 <= j < i ==> !speaks_of_tag(#[trigger] args@[j].text@),
                decreases args@.len() - i,
            {
                if is_about_tag(args[i].text.as_str()) {
                    assert(speaks_of_tag(args@[i as int].text@));
                    return true;
                }
                i = i + 1;
            }
            false
        },
        None => is_about_tag(mac.text.as_str()),
    }
}

/// Whether the node checks an account's type.
fn is_type_check(n: &Node) -> (b: bool)
    ensures
        b == checks_tag(*n),
{
    match n.kind {
        Kind::Binary => same_as_any(n.name.as_str(), EQUALITIES.as_slice()) && ((
        match n.get_part(Role::Left) {
            Some(left) => expr_reads_type_tag(left),
            None => false,
        }) || (match n.get_part(Role::Right) {
            Some(right) => expr_reads_type_tag(right),
            None => false,
        })),
        Kind::MethodCall => same_as_any(n.name.as_str(), COMPARING_METHODS.as_slice()) && ((
        match n.get_part(Role::Receiver) {
            Some(receiver) => expr_reads_type_tag(receiver),
            None => false,
        }) || passes_type_tag(n)),
        Kind::Match => match n.get_part(Role::Operand) {
            Some(inner) => expr_reads_type_tag(inner),
            None => false,
        },
        Kind::Try => match n.get_part(Role::Operand) {
            Some(inner) => {
                let call = peel(inner);
                matches!(call.kind, Kind::Call | Kind::MethodCall) && passes_type_tag(call)
            },
            None => false,
        },
        Kind::MacroExpr | Kind::StmtMacro => match n.get_part(Role::Operand) {
            Some(mac) => macro_asserts_type_tag(mac),
            None => false,
        },
        _ => false,
    }
}

/// Whether something below `block` checks an account's type.
pub fn block_has_discriminator_check(block: &Node) -> (b: bool)
    ensures
        b == discriminates(*block),
{
    let list = nodes_in(block);
    any_node(
        &list,
        |n: &Node| -> (r: bool)
            ensures
                r == checks_tag(*n)
        { is_type_check(n) },
        Ghost(|n: Node| checks_tag(n)),
    )
}

/// Whether the function is not looked at.
fn is_skipped(f: &Node) -> (b: bool)
    ensures
        b == skipped(*f),
{
    contains_any(f.name.as_str(), UTILITY_WORDS.as_slice()) || starts_with_any(
        f.name.as_str(),
        UTILITY_PREFIXES.as_slice(),
    ) || has_test_attribute(f) || is_cfg_test(f) || (contains_any(
        f.text.as_str(),
        ANCHOR_ACCOUNT.as_slice(),
    ) && contains(f.text.as_str(), "Context"))
}

/// Whether some function that `f` calls checks an account's type.
fn helper_checks_discriminator(file: &Node, f: &Node) -> (b: bool)
    ensures
        b == some_text(called_names(*f), |name: Seq<char>| helper_discriminates(*file, *f, name)),
{
    let called = get_called_names(f);
    let list = nodes_in(file);
    any_text(
        &called,
        |name: &str| -> (r: bool)
            ensures
                r == helper_discriminates(*file, *f, name@)
        {
            !same(name, f.name.as_str()) && match find_first(&list, name) {
                Some(helper) => match helper.get_part(Role::Body) {
                    Some(body) => block_has_discriminator_check(body),
                    None => false,
                },
                None => false,
            }
        },
        Ghost(|name: Seq<char>| helper_discriminates(*file, *f, name)),
    )
}

impl AccountConfusionDetector {
    /// The finding on `f`, if there is one.
    pub fn check(&self, ctx: &ScanContext, f: &Node) -> (r: Option<Finding>)
        ensures
            opt_report(r) == report_on(*ctx, *f),
    {
        match f.kind {
            Kind::Function => {},
            _ => {
                return None;
            },
        }
        let body = f.get_body_text();
        if is_skipped(f) || !contains_any(blank_literals(body).as_str(), DESERIALIZERS.as_slice()) {
            return None;
        }
        if let Some(block) = f.get_part(Role::Body) {
            if block_has_discriminator_check(block) {
                return None;
            }
        }
        let unpacked = contains_any(body, CHECKED_UNPACKERS.as_slice()) && contains_any(
            body,
            UNPACKS.as_slice(),
        ) && !contains_any(body, UNCHECKED_UNPACKS.as_slice());
        let deserialized = contains_any(body, ANCHOR_DESERIALIZERS.as_slice()) && !contains(
            body,
            "try_deserialize_unchecked",
        );
        if unpacked || deserialized || helper_checks_discriminator(&ctx.ast, f) {
            return None;
        }
        let text = join3(
            "Function '",
            f.name.as_str(),
            "' deserializes account data without discriminator validation",
        );
        Some(
            raise(
                &info(),
                ctx,
                Confidence::Medium,
                f.line,
                f.column,
                text,
                "Check the first 8 bytes of account data as a discriminator before deserialization, or use Anchor's `Account<'info, T>`",
            ),
        )
    }
}

impl Detector for AccountConfusionDetector {
    open spec fn profile(&self) -> Profile {
        profile()
    }

    open spec fn reports_on(&self, ctx: ScanContext) -> Seq<Report> {
        if !mentions_any(ctx.source@, SOLANA_MARKERS@)
            || mentions_any(ctx.file_path@, FRAMEWORK_PATHS@) {
            Seq::empty()
        } else {
            reports_of(walk(ctx.ast, shipped()), |f: Node| report_on(ctx, f))
        }
    }

    fn id(&self) -> (r: &'static str) {
        info().id
    }

    fn name(&self) -> (r: &'static str) {
        info().name
    }

    fn description(&self) -> (r: &'static str) {
        info().description
    }

    fn severity(&self) -> (r: Severity) {
        info().severity
    }

    fn confidence(&self) -> (r: Confidence) {
        info().confidence
    }

    fn chain(&self) -> (r: Chain) {
        info().chain
    }

    fn detect(&self, ctx: &ScanContext) -> (r: Vec<Finding>) {
        if !contains_any(ctx.source.as_str(), SOLANA_MARKERS.as_slice())
            || contains_any(ctx.file_path.as_str(), FRAMEWORK_PATHS.as_slice()) {
            return Vec::new();
        }
        let list = walk_nodes(
            &ctx.ast,
            |n: &Node| -> (b: bool)
                ensures
                    b == shipped()(*n)
            {
                !matches!(n.kind, Kind::Function)
                    && !(matches!(n.kind, Kind::Module) && is_cfg_test(n))
            },
            Ghost(shipped()),
        );
        collect_findings(
            &list,
            |f: &Node| -> (s: Option<Finding>)
                ensures
                    opt_report(s) == report_on(*ctx, *f)
            { self.check(ctx, f) },
            Ghost(|f: Node| report_on(*ctx, f)),
        )
    }

    proof fn law_findings_are_stamped(&self, ctx: ScanContext) {
        assert forall|i: int| 0 <= i < self.reports_on(ctx).len() implies stamped(
            #[trigger] self.reports_on(ctx)[i],
            self.profile(),
            ctx,
        ) by {
            lemma_reports_from(walk(ctx.ast, shipped()), |f: Node| report_on(ctx, f), i);
        }
    }
}

/// Every finding has the confidence that the rule states of itself.
pub proof fn law_confidence_is_the_rules_own(ctx: ScanContext)
    ensures
        forall|i: int|
            0 <= i < AccountConfusionDetector.reports_on(ctx).len() ==> (
            #[trigger] AccountConfusionDetector.reports_on(ctx)[i]).confidence == profile().confidence,
{
    assert forall|i: int| 0 <= i < AccountConfusionDetector.reports_on(ctx).len() implies (
        #[trigger] AccountConfusionDetector.reports_on(ctx)[i]).confidence == profile().confidence by {
        lemma_reports_from(walk(ctx.ast, shipped()), |f: Node| report_on(ctx, f), i);
    }
}

/// Nothing is reported on a file that shows no mark of a Solana program, or that belongs to a framework.
pub proof fn law_out_of_scope_is_silent(ctx: ScanContext)
    requires
        !mentions_any(ctx.source@, SOLANA_MARKERS@)
            || mentions_any(ctx.file_path@, FRAMEWORK_PATHS@),
    ensures
        AccountConfusionDetector.reports_on(ctx).len() == 0,
{
}

/// Nothing is reported on a test function.
pub proof fn law_test_function_is_silent(ctx: ScanContext, f: Node)
    requires
        carries_test(f) || test_builds_only(f),
    ensures
        report_on(ctx, f) is None,
{
}

/// A test module contributes no report, whatever it holds.
pub proof fn law_test_module_is_silent(ctx: ScanContext, m: Node)
    requires
        m.kind is Module,
        test_builds_only(m),
    ensures
        reports_of(walk(m, shipped()), |f: Node| report_on(ctx, f)) == Seq::<Report>::empty(),
{
    lemma_sealed(m, shipped(), |f: Node| report_on(ctx, f));
}

/// A helper counts only where the file holds a function of its name whose body checks
/// the type of an account.
pub proof fn law_helpers_are_resolved(file: Node, f: Node, name: Seq<char>)
    requires
        helper_discriminates(file, f, name),
    ensures
        exists|i: int|
            0 <= i < nodes(file).len() && ({
                let h = #[trigger] nodes(file)[i];
                h.kind is Function && h.name@ == name && (h.part(Role::Body) matches Some(body)
                    && discriminates(body))
            }),
{
    lemma_first_function(nodes(file), name);
    let h = first_fn_in(file, name)->0;
    let i = nodes(file).index_of(h);
    assert(nodes(file)[i] == h);
}

/// What is reported on is spoken of, wherever in the file it stands.
proof fn lemma_reported(ctx: ScanContext, path: Seq<Node>, f: Node)
    requires
        leads_openly(path, ctx.ast, f),
        report_on(ctx, f) is Some,
        mentions_any(ctx.source@, seq!["solana_program", "anchor_lang", "AccountInfo", "ProgramResult", "solana_sdk"]),
        !mentions_any(ctx.file_path@, seq!["/anchor-spl/", "/anchor_spl/", "/anchor-lang/", "/anchor_lang/", "/codegen/", "/interface/src/", "/spl-token/", "/spl_token/"]),
    ensures
        speaks_of(AccountConfusionDetector.reports_on(ctx), f),
{
    lemma_spoken_of(path, shipped(), |n: Node| report_on(ctx, n), "Function '"@, "' deserializes account data without discriminator validation"@);
}

/// The expression is a number, or a path none of whose segments speaks of a type tag, by
/// itself or behind a reference.
pub open spec fn names_no_tag(e: Node) -> bool {
    ||| e.kind is LitInt
    ||| e.kind is PathExpr && forall|w: int|
        0 <= w < e.words@.len() ==> !mentions_any(ascii_lower((#[trigger] e.words@[w])@), seq!["discriminator", "account_type", "accounttype", "type_tag"])
            && ascii_lower(e.words@[w]@) != "tag"@ && !ends(ascii_lower(e.words@[w]@), "_tag"@)
            && !begins(ascii_lower(e.words@[w]@), "tag_"@)
}

/// The node checks no type tag: it matches on nothing, asserts nothing, and what it
/// compares or hands to a call that may fail names no tag.
pub open spec fn checks_no_tag(n: Node) -> bool {
    &&& !(n.kind is Match)
    &&& !(n.kind is MacroExpr)
    &&& !(n.kind is StmtMacro)
    &&& n.kind is Binary && is_any(n.name@, seq!["==", "!="]) ==> (n.part(Role::Left) matches Some(left)
        ==> names_no_tag(left)) && (n.part(Role::Right) matches Some(right) ==> names_no_tag(right))
    &&& n.kind is MethodCall ==> !is_any(n.name@, seq!["starts_with", "eq", "ne", "cmp", "contains", "eq_ignore_ascii_case"])
    &&& n.kind is Try ==> (n.part(Role::Operand) matches Some(call) ==> (call.kind is Call
        || call.kind is MethodCall) && forall|a: int|
        0 <= a < call.parts(Role::Argument).len() ==> names_no_tag(
            #[trigger] call.parts(Role::Argument)[a],
        ))
}

/// An expression that names no tag reads none.
proof fn lemma_reads_no_tag(e: Node)
    requires
        names_no_tag(e),
    ensures
        !reads_tag(e),
{
    if e.kind is PathExpr {
        assert forall|w: int| 0 <= w < texts(e.words@).len() implies !type_tag(
            #[trigger] texts(e.words@)[w],
        ) by {
            assert(!mentions_any(ascii_lower(e.words@[w]@), seq!["discriminator", "account_type", "accounttype", "type_tag"]));
        }
    }
}

/// A body that checks no tag does not discriminate.
proof fn lemma_no_discrimination(body: Node)
    requires
        forall|k: int| 0 <= k < nodes(body).len() ==> checks_no_tag(#[trigger] nodes(body)[k]),
    ensures
        !discriminates(body),
{
    let list = nodes(body);
    assert forall|k: int| 0 <= k < list.len() implies !checks_tag(#[trigger] list[k]) by {
        let n = list[k];
        assert(checks_no_tag(n));
        if n.part(Role::Left) is Some && names_no_tag(n.part(Role::Left)->0) {
            lemma_reads_no_tag(n.part(Role::Left)->0);
        }
        if n.part(Role::Right) is Some && names_no_tag(n.part(Role::Right)->0) {
            lemma_reads_no_tag(n.part(Role::Right)->0);
        }
        if n.kind is Try && n.part(Role::Operand) is Some {
            let call = n.part(Role::Operand)->0;
            let args = call.parts(Role::Argument);
            assert(peeled(call) == call);
            assert forall|a: int| 0 <= a < args.len() implies !reads_tag(#[trigger] args[a]) by {
                assert(names_no_tag(args[a]));
                lemma_reads_no_tag(args[a]);
            }
        }
    }
}

/// A function that deserializes, in code and not in a literal, is reported, if it
/// checks no type tag, uses no deserializer that does, and calls nothing of the file. A
/// comparison of anything else is no such check.
pub proof fn law_confusable_account_is_reported(ctx: ScanContext, path: Seq<Node>, f: Node, body: Node)
    requires
        mentions_any(ctx.source@, seq!["solana_program", "anchor_lang", "AccountInfo", "ProgramResult", "solana_sdk"]),
        !mentions_any(ctx.file_path@, seq!["/anchor-spl/", "/anchor_spl/", "/anchor-lang/", "/anchor_lang/", "/codegen/", "/interface/src/", "/spl-token/", "/spl_token/"]),
        leads_openly(path, ctx.ast, f),
        f.kind is Function,
        f.parts(Role::Attribute).len() == 0,
        !mentions_any(f.name@, seq!["test", "_pack", "_unpack", "deserialize", "serialize"]),
        !begins_any(f.name@, seq!["pack", "unpack", "gen_", "generate_"]),
        !mentions(f.text@, "Context"@) || !mentions_any(f.text@, seq!["Account <", "Account<"]),
        f.part(Role::Body) == Some(body),
        mentions_any(outside_literals(body.text@), seq![":: try_from_slice", ". try_from_slice", ":: try_deserialize", ". try_deserialize", ":: deserialize", ". deserialize", ":: unpack", ". unpack"]),
        forall|k: int| 0 <= k < nodes(body).len() ==> checks_no_tag(#[trigger] nodes(body)[k]),
        !mentions_any(body.text@, seq!["spl_token", "StateWithExtensions"]) || !mentions_any(body.text@, seq![":: unpack", ". unpack"]) || mentions_any(body.text@, seq!["unpack_unchecked", "unpack_from_slice", ":: try_from_slice", ". try_from_slice"]),
        !mentions_any(body.text@, seq![":: try_deserialize", ". try_deserialize"]) || mentions(body.text@, "try_deserialize_unchecked"@),
        forall|k: int| 0 <= k < called_names(f).len() ==> first_fn_in(ctx.ast, #[trigger] called_names(f)[k]) is None,
    ensures
        speaks_of(AccountConfusionDetector.reports_on(ctx), f),
{
    lemma_no_discrimination(body);
    let called = called_names(f);
    assert forall|k: int| 0 <= k < called.len() implies !helper_discriminates(ctx.ast, f, #[trigger] called[k]) by {}
    assert(!checked_unpack(body.text@));
    assert(!checked_deserialize(body.text@));
    assert(confused(ctx.ast, f));
    lemma_reported(ctx, path, f);
}

/// What is reported deserializes in code, and uses no deserializer that checks the
/// type.
pub proof fn law_reported_account_is_confusable(ctx: ScanContext, f: Node)
    requires
        report_on(ctx, f) is Some,
    ensures
        f.kind is Function,
        !mentions_any(f.name@, seq!["test", "_pack", "_unpack", "deserialize", "serialize"]),
        !begins_any(f.name@, seq!["pack", "unpack", "gen_", "generate_"]),
        mentions_any(outside_literals(f.body_text()), seq![":: try_from_slice", ". try_from_slice", ":: try_deserialize", ". try_deserialize", ":: deserialize", ". deserialize", ":: unpack", ". unpack"]),
        !mentions_any(f.body_text(), seq!["spl_token", "StateWithExtensions"]) || !mentions_any(f.body_text(), seq![":: unpack", ". unpack"]) || mentions_any(f.body_text(), seq!["unpack_unchecked", "unpack_from_slice", ":: try_from_slice", ". try_from_slice"]),
        !mentions_any(f.body_text(), seq![":: try_deserialize", ". try_deserialize"]) || mentions(f.body_text(), "try_deserialize_unchecked"@),
{
}

/// A function that compares a field whose name speaks of a type tag, on either side, or
/// matches on one, is not reported.
pub proof fn law_comparing_a_tag_is_enough(ctx: ScanContext, f: Node, body: Node, n: Node, e: Node)
    requires
        f.part(Role::Body) == Some(body),
        nodes(body).contains(n),
        (n.kind is Binary && (n.name@ == "=="@ || n.name@ == "!="@) && (n.part(Role::Left) == Some(e) || n.part(Role::Right) == Some(e))) || (n.kind is Match && n.part(Role::Operand) == Some(e)),
        e.kind == (Kind::Field { named: true }),
        mentions_any(ascii_lower(e.name@), seq!["discriminator", "account_type", "accounttype", "type_tag"]) || ascii_lower(e.name@) == "tag"@ || ends(ascii_lower(e.name@), "_tag"@) || begins(ascii_lower(e.name@), "tag_"@),
    ensures
        report_on(ctx, f) is None,
{
    let list = nodes(body);
    let p = |m: Node| checks_tag(m);
    assert(type_tag(e.name@));
    assert(reads_tag(e));
    assert(p(list[list.index_of(n)]));
    assert(discriminates(body));
}

/// A function is not reported if it calls another of the file whose body compares a
/// field that speaks of a type tag.
pub proof fn law_helper_may_discriminate(ctx: ScanContext, f: Node, h: Node, inner: Node, n: Node, e: Node)
    requires
        only_function(nodes(ctx.ast), h),
        called_names(f).contains(h.name@),
        h.name@ != f.name@,
        h.part(Role::Body) == Some(inner),
        nodes(inner).contains(n),
        n.kind is Binary && (n.name@ == "=="@ || n.name@ == "!="@) && n.part(Role::Left) == Some(e),
        e.kind == (Kind::Field { named: true }),
        mentions_any(ascii_lower(e.name@), seq!["discriminator", "account_type", "accounttype", "type_tag"]),
    ensures
        report_on(ctx, f) is None,
{
    law_only_function_is_found(nodes(ctx.ast), h);
    let list = nodes(inner);
    let t = |m: Node| checks_tag(m);
    assert(type_tag(e.name@));
    assert(reads_tag(e));
    assert(t(list[list.index_of(n)]));
    assert(discriminates(inner));
    let called = called_names(f);
    let p = |x: Seq<char>| helper_discriminates(ctx.ast, f, x);
    assert(p(called[called.index_of(h.name@)]));
}

/// A function that asserts something of a type tag, in the part of the assertion that
/// decides, is not reported, whichever of the asserting macros it uses.
pub proof fn law_asserting_a_tag_is_enough(ctx: ScanContext, f: Node, body: Node, n: Node, mac: Node, name: Seq<char>, args: Vec<Node>, a: int)
    requires
        f.part(Role::Body) == Some(body),
        nodes(body).contains(n),
        n.kind is MacroExpr || n.kind is StmtMacro,
        n.part(Role::Operand) == Some(mac),
        mac.kind is Macro,
        mac.last_word() == Some(name),
        is_any(name, seq!["assert", "assert_eq", "assert_ne", "debug_assert", "debug_assert_eq", "debug_assert_ne", "require", "require_eq", "require_neq", "require_keys_eq", "require_keys_neq"]),
        mac.args == Some(args),
        0 <= a < args@.len(),
        a == 0 || (a == 1 && !is_any(name, seq!["assert", "debug_assert", "require"])),
        mentions_any(ascii_lower(args@[a].text@), seq!["discriminator", "account_type", "accounttype", "_tag"]) || mentions_any(args@[a].text@, seq!["[.. 8]", "[0 .. 8]", ". get (.. 8)", ". get (0 .. 8)"]),
    ensures
        report_on(ctx, f) is None,
{
    let list = nodes(body);
    assert(is_any(name, ASSERTIONS@));
    assert(speaks_of_tag(args@[a].text@));
    assert(a < deciding(name));
    let held = mac.args->0;
    assert(held == args);
    assert(exists|i: int| 0 <= i < deciding(name) && i < held@.len() && speaks_of_tag(#[trigger] held@[i].text@)) by {
        assert(speaks_of_tag(held@[a].text@));
    }
    assert(macro_name(mac) == Some(name));
    assert(asserts_tag(mac));
    let t = |m: Node| checks_tag(m);
    assert(t(list[list.index_of(n)]));
    assert(discriminates(body));
}

/// A function that compares the first eight bytes of something, by a range or through a
/// getter, is not reported.
pub proof fn law_comparing_the_first_eight_is_enough(ctx: ScanContext, f: Node, body: Node, n: Node, e: Node, range: Node, end: Node, start: Node, k: int)
    requires
        f.part(Role::Body) == Some(body),
        nodes(body).contains(n),
        n.kind is Binary && (n.name@ == "=="@ || n.name@ == "!="@) && (n.part(Role::Left) == Some(e) || n.part(Role::Right) == Some(e)),
        (e.kind is Index && e.part(Role::Index) == Some(range)) || (e.kind is MethodCall && (e.name@ == "get"@ || e.name@ == "get_unchecked"@) && 0 <= k < e.parts(Role::Argument).len() && e.parts(Role::Argument)[k] == range),
        range.part(Role::Right) == Some(end),
        end.kind is LitInt,
        (range.kind == (Kind::Range { closed: false }) && int_of(end.text@) == Some(8u64)) || (range.kind == (Kind::Range { closed: true }) && int_of(end.text@) == Some(7u64)),
        range.part(Role::Left) is None || (range.part(Role::Left) == Some(start) && start.kind is LitInt && int_of(start.text@) == Some(0u64)),
    ensures
        report_on(ctx, f) is None,
{
    let list = nodes(body);
    assert(peeled(range) == range);
    assert(peeled(end) == end);
    assert(start.kind is LitInt ==> peeled(start) == start);
    assert(first_eight(range));
    if e.kind is MethodCall {
        let r = |a: Node| first_eight(a);
        assert(r(e.parts(Role::Argument)[k]));
        assert(is_any(e.name@, GETTERS@));
    }
    assert(reads_tag(e));
    let t = |m: Node| checks_tag(m);
    assert(t(list[list.index_of(n)]));
    assert(discriminates(body));
}

/// A function that carries a test attribute of whatever framework is not reported.
pub proof fn law_marked_test_is_silent(ctx: ScanContext, f: Node, k: int)
    requires
        0 <= k < f.parts(Role::Attribute).len(),
        f.parts(Role::Attribute)[k].last_word() == Some("test"@),
    ensures
        report_on(ctx, f) is None,
{
    let p = |a: Node| a.last_word() == Some("test"@);
    assert(p(f.parts(Role::Attribute)[k]));
}

/// An element, or a slice other than the first eight bytes, is a tag only if what it is
/// taken of is.
pub proof fn law_other_slices_are_no_tag(e: Node, index: Node, base: Node)
    requires
        e.kind is Index,
        e.part(Role::Index) == Some(index),
        e.part(Role::Operand) == Some(base),
        !(peeled(index).kind is Range),
    ensures
        reads_tag(e) == reads_tag(base),
{
}

/// A getter without a range reads a tag only by its own name, or by what it is called
/// on.
pub proof fn law_other_getters_are_no_tag(e: Node, base: Node)
    requires
        e.kind is MethodCall,
        e.part(Role::Receiver) == Some(base),
        !type_tag(e.name@),
        e.parts(Role::Argument).len() == 0,
    ensures
        reads_tag(e) == reads_tag(base),
{
}

/// So does any other getter, whatever it is handed.
pub proof fn law_only_getters_take_a_tag(e: Node, base: Node)
    requires
        e.kind is MethodCall,
        e.part(Role::Receiver) == Some(base),
        !type_tag(e.name@),
        !is_any(e.name@, seq!["get", "get_unchecked"]),
    ensures
        reads_tag(e) == reads_tag(base),
{
}

} // verus!
