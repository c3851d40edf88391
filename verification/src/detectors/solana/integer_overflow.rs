//! Arithmetic that may overflow unnoticed.
use vstd::prelude::*;
use crate::attributes::{carries_test, has_test_attribute, is_cfg_test};
use crate::calls::{get_macro_name, get_path_call, is_named, macro_name, own, path_call};
use crate::cfg::test_builds_only;
use crate::context::{ScanContext, snippet, snippet_at_line};
use crate::detector::{Detector, Profile, raise, raised, RuleInfo, stamped};
use crate::finding::{Chain, Confidence, Finding, Report, reports, Severity};
use crate::flow::{does_stop, law_exit_statement_stops, stands_in, stops};
use crate::syntax::{Kind, lemma_part_smaller, Node, Role};
use crate::text::{
    any_text, begins, begins_any, contains, contains_any, ends, ends_any, ends_with, ends_with_any,
    is_any, is_screaming_snake, join2, lemma_holds_middle, listed, lower, mentions, mentions_any,
    same, same_as_any, screaming, screaming_char, some_text, starts_with, starts_with_any, texts,
    to_lowercase, words, words_of,
};
use crate::walk::{
    any_node, collect_names, everywhere, leads, leads_openly, lemma_met_among, names_of, nodes,
    nodes_in, opt_text, some, walk_all,
};

verus! {

/// Reports arithmetic operators whose overflow nothing checks.
pub struct IntegerOverflowDetector;

/// The rule's description of itself.
pub open spec fn profile() -> Profile {
    Profile {
        id: "SOL-003"@,
        name: "integer-overflow"@,
        description: "Detects unchecked arithmetic operations on integer types"@,
        severity: Severity::Critical,
        confidence: Confidence::Medium,
        chain: Chain::Solana,
    }
}

/// The rule's description of itself.
fn info() -> (r: RuleInfo)
    ensures
        r@ == profile(),
{
    RuleInfo {
        id: "SOL-003",
        name: "integer-overflow",
        description: "Detects unchecked arithmetic operations on integer types",
        severity: Severity::Critical,
        confidence: Confidence::Medium,
        chain: Chain::Solana,
    }
}

/// A source file with none of these is no Solana program.
pub const MARKERS: [&'static str; 6] = [
    "solana_program",
    "anchor_lang",
    "Pubkey",
    "AccountInfo",
    "ProgramResult",
    "solana_sdk",
];

/// Framework sources, which use raw arithmetic with documented bounds.
pub const FRAMEWORK_PATHS: [&'static str; 11] = [
    "/spl-token",
    "/spl_token",
    "/anchor-lang/",
    "/anchor_lang/",
    "/anchor/lang/",
    "/solana-program/",
    "/solana_program/",
    "/token-swap/",
    "/token_swap/",
    "/stake-pool/",
    "/lending/",
];

/// The arithmetic operators.
pub const ARITHMETIC: [&'static str; 8] = ["+", "-", "*", "/", "+=", "-=", "*=", "/="];

/// The operators of a division.
pub const DIVISIONS: [&'static str; 2] = ["/", "/="];

/// The comparison operators.
pub const COMPARISONS: [&'static str; 6] = ["<", ">", "<=", ">=", "==", "!="];

/// The characters without which a body has no arithmetic.
pub const OPERATOR_MARKS: [&'static str; 4] = ["+", "-", "*", "/"];

/// Words of a line whose arithmetic is checked.
pub const CHECKED_LINE: [&'static str; 3] = ["checked_", "saturating_", "wrapping_"];

/// Words of an expression that works on text.
pub const TEXT_EXPR: [&'static str; 5] = ["to_owned", "to_string", "String", "str", "format"];

/// Words of a line that works on text.
pub const TEXT_LINE: [&'static str; 3] = ["as_bytes", "to_owned", "String"];

/// Words of a line that works on lengths and indices.
pub const LENGTH_LINE: [&'static str; 2] = [".len()", "as usize"];

/// Words of an expression that is fixed at compile time.
pub const LAYOUT_EXPR: [&'static str; 2] = ["size_of", "align_of"];

/// The types that a cast widens to.
pub const WIDE_TYPES: [&'static str; 4] = ["u128", "i128", "u64", "i64"];

/// Words of an expression that holds a cast to a wide type.
pub const WIDE_CASTS: [&'static str; 2] = ["as u128", "as i128"];

/// The floating-point types.
pub const FLOAT_TYPES: [&'static str; 2] = ["f64", "f32"];

/// How calls are spelled that keep a value within bounds.
pub const CLAMPS: [&'static str; 4] = ["min (", ". min (", ". max (", "clamp"];

/// How the names of macros end that validate something.
pub const VALIDATIONS: [&'static str; 5] = [
    "assert",
    "assert_eq",
    "assert_ne",
    "require",
    "ensure",
];

/// How the names of macros that give up begin.
pub const BAILING_MACROS: [&'static str; 5] = [
    "panic",
    "unreachable",
    "bail",
    "require",
    "ensure",
];

/// Methods that stop on a failed result.
pub const UNWRAPS: [&'static str; 2] = ["unwrap", "expect"];

/// Words in the names of functions that exist to calculate.
pub const MATH_WORDS: [&'static str; 11] = [
    "_fee",
    "fee_",
    "swap",
    "curve",
    "interpolat",
    "_amount",
    "amount_",
    "_rate",
    "rate_",
    "_price",
    "price_",
];

/// How the names of functions that exist to calculate begin.
pub const MATH_PREFIXES: [&'static str; 3] = ["calculate", "compute", "convert"];

/// Functions that exist to calculate.
pub const MATH_NAMES: [&'static str; 2] = ["ceil_div", "floor_div"];

/// Functions that pack values into bytes.
pub const PACK_NAMES: [&'static str; 7] = [
    "pack_into_slice",
    "unpack_from_slice",
    "pack",
    "unpack",
    "serialize",
    "deserialize",
    "try_from_slice",
];

/// How the names of functions that pack values into bytes begin.
pub const PACK_PREFIXES: [&'static str; 2] = ["pack_", "unpack_"];

/// The name says that the function packs values into bytes.
pub open spec fn packs(name: Seq<char>) -> bool {
    is_any(lower(name), PACK_NAMES@) || begins_any(lower(name), PACK_PREFIXES@)
}

/// The name says that the function exists to calculate.
pub open spec fn calculates(name: Seq<char>) -> bool {
    let low = lower(name);
    mentions_any(low, MATH_WORDS@) || begins_any(low, MATH_PREFIXES@) || is_any(low, MATH_NAMES@)
}

/// The function is a test.
pub open spec fn test_fn(f: Node) -> bool {
    let low = lower(f.name@);
    ||| begins(low, "test_"@)
    ||| ends(low, "_test"@)
    ||| mentions(low, "_works"@)
    ||| carries_test(f)
}

/// The expression is a literal.
pub open spec fn literal(e: Node) -> bool {
    e.kind is LitInt || e.kind is LitFloat || e.kind is Literal
}

/// The expression is fixed at compile time: a literal, or a constant by its
/// spelling.
pub open spec fn const_like(e: Node) -> bool
    decreases e,
{
    proof {
        lemma_part_smaller(e, Role::Operand);
    }
    match e.kind {
        Kind::LitInt | Kind::LitFloat | Kind::Literal => true,
        Kind::PathExpr => e.last_word() matches Some(w) && screaming(w),
        Kind::Paren | Kind::Cast | Kind::Group => match e.part(Role::Operand) {
            Some(inner) => const_like(inner),
            None => false,
        },
        _ => false,
    }
}

/// The expression is widened by a cast.
pub open spec fn widened(e: Node) -> bool
    decreases e,
{
    proof {
        lemma_part_smaller(e, Role::Operand);
    }
    match e.kind {
        Kind::Cast => e.part(Role::Type) matches Some(ty) && is_any(ty.text@, WIDE_TYPES@),
        Kind::Paren => match e.part(Role::Operand) {
            Some(inner) => widened(inner),
            None => false,
        },
        _ => mentions_any(e.text@, WIDE_CASTS@),
    }
}

/// A floating-point type stands in the printed type.
pub open spec fn float_type(ty: Seq<char>) -> bool {
    some_text(words(ty), |w: Seq<char>| is_any(w, FLOAT_TYPES@))
}

/// The name of a parameter of a floating-point type.
pub open spec fn float_param(p: Node) -> Option<Seq<char>> {
    match (p.part(Role::Type), p.part(Role::Pattern)) {
        (Some(ty), Some(pat)) => if p.kind is Param && pat.kind is PatIdent && float_type(
            ty.text@,
        ) {
            Some(pat.name@)
        } else {
            None
        },
        _ => None,
    }
}

/// The parameters of `f` that have a floating-point type.
pub open spec fn float_params(f: Node) -> Seq<Seq<char>> {
    names_of(f.parts(Role::Param), |p: Node| float_param(p))
}

/// The operand is a floating-point number, where `floats` are known to be.
pub open spec fn floating(e: Node, floats: Seq<Seq<char>>) -> bool
    decreases e,
{
    proof {
        lemma_part_smaller(e, Role::Operand);
        lemma_part_smaller(e, Role::Receiver);
        lemma_part_smaller(e, Role::Left);
        lemma_part_smaller(e, Role::Right);
    }
    match e.kind {
        Kind::LitFloat => true,
        Kind::PathExpr => e.name@.len() > 0 && floats.contains(e.name@),
        Kind::Cast => e.part(Role::Type) matches Some(ty) && is_any(ty.text@, FLOAT_TYPES@),
        Kind::Paren | Kind::Group | Kind::Reference { .. } | Kind::Unary => match e.part(
            Role::Operand,
        ) {
            Some(inner) => floating(inner, floats),
            None => false,
        },
        Kind::MethodCall => match e.part(Role::Receiver) {
            Some(inner) => floating(inner, floats),
            None => false,
        },
        Kind::Binary => {
            ||| match e.part(Role::Left) {
                Some(inner) => floating(inner, floats),
                None => false,
            }
            ||| match e.part(Role::Right) {
                Some(inner) => floating(inner, floats),
                None => false,
            }
        },
        _ => false,
    }
}

/// The node compares two values.
pub open spec fn compares(n: Node) -> bool {
    n.kind is Binary && is_any(n.name@, COMPARISONS@)
}

/// The expression is an error result.
pub open spec fn error_value(e: Node) -> bool {
    ||| path_call(e) == Some("Err"@)
    ||| macro_name(e) == Some("err"@)
    ||| e.kind is MacroExpr && (e.part(Role::Operand) matches Some(m) && macro_name(m) == Some(
        "err"@,
    ))
}

/// The node gives up: it returns, panics or bails, or hands an error on.
pub open spec fn gives_up(n: Node) -> bool {
    ||| n.kind is Return
    ||| path_call(n) matches Some(name) && begins(name, "panic"@)
    ||| macro_name(n) matches Some(name) && begins_any(name, BAILING_MACROS@)
    ||| n.kind is Try && (n.part(Role::Operand) matches Some(e) && error_value(e))
}

/// The statement is an error result, and nothing follows that would drop it.
pub open spec fn error_stmt(stmt: Node) -> bool {
    &&& stmt.kind == (Kind::ExprStmt { semi: false }) || (stmt.kind is StmtMacro && !ends(
        stmt.text@,
        ";"@,
    ))
    &&& stmt.part(Role::Operand) matches Some(e) && error_value(e)
}

/// The branch diverges: control does not get past it, or it ends in an error
/// result.
pub open spec fn bails(block: Node) -> bool {
    ||| stops(block, |n: Node| gives_up(n))
    ||| block.parts(Role::Entry).len() > 0 && error_stmt(block.parts(Role::Entry).last())
}

/// The node is an `if` that compares and, where the comparison holds, gives up.
pub open spec fn comparison_guard(n: Node) -> bool {
    match (n.part(Role::Condition), n.part(Role::Then)) {
        (Some(cond), Some(then_block)) => n.kind is If && some(
            nodes(cond),
            |c: Node| compares(c),
        ) && bails(then_block),
        _ => false,
    }
}

/// Some `if` below `block` compares and gives up.
pub open spec fn compares_and_bails(block: Node) -> bool {
    some(nodes(block), |n: Node| comparison_guard(n))
}

/// The node is a macro call that validates something.
pub open spec fn validation(n: Node) -> bool {
    macro_name(n) matches Some(name) && ends_any(name, VALIDATIONS@)
}

/// The body of a helper validates its input.
pub open spec fn validates(block: Node) -> bool {
    some(nodes(block), |n: Node| validation(n)) || compares_and_bails(block)
}

/// The function `f` is named `name` and validates its input.
pub open spec fn validates_as(f: Node, name: Seq<char>) -> bool {
    f.name@ == name && (f.part(Role::Body) matches Some(body) && validates(body))
}

/// The item is, or directly holds, a function `name` that validates its input.
pub open spec fn item_validates(item: Node, name: Seq<char>) -> bool {
    match item.kind {
        Kind::Function => validates_as(item, name),
        Kind::Impl => some(
            item.parts(Role::Entry),
            |m: Node| m.kind is Method && validates_as(m, name),
        ),
        Kind::Module => some(
            item.parts(Role::Entry),
            |f: Node| f.kind is Function && validates_as(f, name),
        ),
        _ => false,
    }
}

/// Some function `name` of the file validates its input.
pub open spec fn validated_by(file: Node, name: Seq<char>) -> bool {
    some(file.parts(Role::Entry), |item: Node| item_validates(item, name))
}

/// The name of the function whose failure the node hands on, or stops at.
pub open spec fn delegate(n: Node) -> Option<Seq<char>> {
    match n.kind {
        Kind::Try => match n.part(Role::Operand) {
            Some(inner) => path_call(inner),
            None => None,
        },
        Kind::MethodCall => match n.part(Role::Receiver) {
            Some(inner) => if is_any(n.name@, UNWRAPS@) { path_call(inner) } else { None },
            None => None,
        },
        _ => None,
    }
}

/// The node depends on the success of a function that validates its input.
pub open spec fn delegates_validation(n: Node, file: Node) -> bool {
    delegate(n) matches Some(name) && validated_by(file, name)
}

/// The node guards the arithmetic that follows it.
pub open spec fn guards(n: Node, file: Node) -> bool {
    validation(n) || comparison_guard(n) || delegates_validation(n, file)
}

/// The body keeps its values within bounds.
pub open spec fn bounded(body: Seq<char>) -> bool {
    mentions_any(body, CLAMPS@)
}

/// The arithmetic of `f` is not looked at.
pub open spec fn skipped(ctx: ScanContext, f: Node) -> bool {
    ||| packs(f.name@)
    ||| test_fn(f)
    ||| calculates(f.name@)
    ||| !mentions_any(f.body_text(), OPERATOR_MARKS@)
    ||| bounded(f.body_text())
}

/// What is done at a binary operation.
pub enum Verdict {
    /// Neither it nor anything below it is reported.
    Stop,
    /// It is not reported, its operands are looked at.
    Descend,
    /// It is reported, and its operands are looked at.
    Flag,
}

/// What is done at the binary operation `n` with the operands `left` and `right`.
pub open spec fn judge(
    ctx: ScanContext,
    n: Node,
    left: Node,
    right: Node,
    floats: Seq<Seq<char>>,
) -> Verdict {
    let line = snippet(ctx.source@, n.line);
    if !is_any(n.name@, ARITHMETIC@) {
        Verdict::Descend
    } else if const_like(left) && const_like(right) {
        Verdict::Stop
    } else if literal(left) || literal(right) || floating(left, floats) || floating(right, floats) {
        Verdict::Descend
    } else if mentions_any(line, CHECKED_LINE@) || mentions_any(n.text@, TEXT_EXPR@)
        || mentions_any(line, TEXT_LINE@) || mentions_any(line, LENGTH_LINE@) || mentions_any(
        n.text@,
        LAYOUT_EXPR@,
    ) {
        Verdict::Stop
    } else if (widened(left) && widened(right)) || mentions(n.text@, "saturating_"@) {
        Verdict::Descend
    } else {
        Verdict::Flag
    }
}

/// What is done at the binary operation `n`.
pub open spec fn verdict(ctx: ScanContext, n: Node, floats: Seq<Seq<char>>) -> Verdict {
    match (n.part(Role::Left), n.part(Role::Right)) {
        (Some(left), Some(right)) => judge(ctx, n, left, right, floats),
        _ => Verdict::Descend,
    }
}

/// The report on the binary operation `n`. A division cannot overflow, and is
/// reported with less confidence.
pub open spec fn report_on(ctx: ScanContext, n: Node) -> Report {
    raised(
        profile(),
        ctx,
        if is_any(n.name@, DIVISIONS@) { Confidence::Low } else { Confidence::Medium },
        n.line,
        n.column,
        "Unchecked arithmetic operation: "@ + n.text@,
        "Use checked_add(), checked_sub(), checked_mul(), or checked_div() to prevent overflow/underflow"@,
    )
}

/// Where a visit stands: inside a function that is looked at, and if so, with
/// which floating-point parameters, and behind a guard or in front of every one.
pub struct Place {
    pub inside: bool,
    pub floats: Seq<Seq<char>>,
    pub guarded: bool,
}

/// Outside every function.
pub open spec fn outside() -> Place {
    Place { inside: false, floats: Seq::empty(), guarded: false }
}

/// Where a visit stands inside the function `f`, in front of its body.
pub open spec fn inside(f: Node) -> Place {
    Place { inside: true, floats: float_params(f), guarded: false }
}

/// Where a visit of `n` from `place` goes on below it.
pub open spec fn behind(ctx: ScanContext, n: Node, place: Place) -> Place {
    Place { guarded: place.guarded || (place.inside && guards(n, ctx.ast)), ..place }
}

/// What a visit of `n` from `place` reports, and where it ends. Nothing behind a guard
/// is reported. Leaving a function ends outside, wherever the function stands.
pub open spec fn visit(ctx: ScanContext, n: Node, place: Place) -> (Seq<Report>, Place)
    decreases n,
{
    match n.kind {
        Kind::Module => if test_builds_only(n) {
            (Seq::empty(), place)
        } else {
            visit_all(ctx, n.children@, place)
        },
        Kind::Function | Kind::Method { .. } => if place.guarded || skipped(ctx, n) {
            (Seq::empty(), place)
        } else {
            (
                visit_all(ctx, n.children@, inside(n)).0,
                outside(),
            )
        },
        Kind::Binary => if !place.inside || place.guarded {
            (Seq::empty(), place)
        } else {
            match verdict(ctx, n, place.floats) {
                Verdict::Stop => (Seq::empty(), place),
                Verdict::Descend => visit_all(ctx, n.children@, place),
                Verdict::Flag => {
                    let below = visit_all(ctx, n.children@, place);
                    (seq![report_on(ctx, n)] + below.0, below.1)
                },
            }
        },
        _ => visit_all(ctx, n.children@, behind(ctx, n, place)),
    }
}

/// What visits of the nodes of `list`, one after the other, report.
pub open spec fn visit_all(ctx: ScanContext, list: Seq<Node>, place: Place) -> (Seq<Report>, Place)
    decreases list,
{
    if list.len() == 0 {
        (Seq::empty(), place)
    } else {
        let before = visit_all(ctx, list.drop_last(), place);
        let here = visit(ctx, list.last(), before.1);
        (before.0 + here.0, here.1)
    }
}

/// Whether the name says that the function packs values into bytes.
pub fn is_pack_fn(name: &str) -> (b: bool)
    ensures
        b == packs(name@),
{
    let low = to_lowercase(name);
    same_as_any(low.as_str(), PACK_NAMES.as_slice()) || starts_with_any(
        low.as_str(),
        PACK_PREFIXES.as_slice(),
    )
}

/// Whether the name says that the function exists to calculate.
pub fn is_math_helper_fn(name: &str) -> (b: bool)
    ensures
        b == calculates(name@),
{
    let low = to_lowercase(name);
    contains_any(low.as_str(), MATH_WORDS.as_slice()) || starts_with_any(
        low.as_str(),
        MATH_PREFIXES.as_slice(),
    ) || same_as_any(low.as_str(), MATH_NAMES.as_slice())
}

/// Whether the function is a test.
pub fn is_test_fn(f: &Node) -> (b: bool)
    ensures
        b == test_fn(*f),
{
    let low = to_lowercase(f.name.as_str());
    starts_with(low.as_str(), "test_") || ends_with(low.as_str(), "_test") || contains(
        low.as_str(),
        "_works",
    ) || has_test_attribute(f)
}

/// Whether the expression is a literal.
pub fn is_literal(e: &Node) -> (b: bool)
    ensures
        b == literal(*e),
{
    matches!(e.kind, Kind::LitInt | Kind::LitFloat | Kind::Literal)
}

/// Whether the expression is fixed at compile time.
pub fn is_const_like(e: &Node) -> (b: bool)
    ensures
        b == const_like(*e),
    decreases e,
{
    proof {
        lemma_part_smaller(*e, Role::Operand);
    }
    match e.kind {
        Kind::LitInt | Kind::LitFloat | Kind::Literal => true,
        Kind::PathExpr => match e.get_last_word() {
            Some(w) => is_screaming_snake(w),
            None => false,
        },
        Kind::Paren | Kind::Cast | Kind::Group => match e.get_part(Role::Operand) {
            Some(inner) => is_const_like(inner),
            None => false,
        },
        _ => false,
    }
}

/// Whether the expression is widened by a cast.
pub fn is_widening_cast(e: &Node) -> (b: bool)
    ensures
        b == widened(*e),
    decreases e,
{
    proof {
        lemma_part_smaller(*e, Role::Operand);
    }
    match e.kind {
        Kind::Cast => match e.get_part(Role::Type) {
            Some(ty) => same_as_any(ty.text.as_str(), WIDE_TYPES.as_slice()),
            None => false,
        },
        Kind::Paren => match e.get_part(Role::Operand) {
            Some(inner) => is_widening_cast(inner),
            None => false,
        },
        _ => contains_any(e.text.as_str(), WIDE_CASTS.as_slice()),
    }
}

/// Whether a floating-point type stands in the printed type.
fn is_float_type(ty: &str) -> (b: bool)
    ensures
        b == float_type(ty@),
{
    any_text(
        &words_of(ty),
        |w: &str| -> (r: bool)
            ensures
                r == is_any(w@, FLOAT_TYPES@)
        { same_as_any(w, FLOAT_TYPES.as_slice()) },
        Ghost(|w: Seq<char>| is_any(w, FLOAT_TYPES@)),
    )
}

/// The parameters of `f` that have a floating-point type.
pub fn float_params_of_sig(f: &Node) -> (r: Vec<String>)
    ensures
        texts(r@) == float_params(*f),
{
    let list = f.get_parts(Role::Param);
    collect_names(
        &list,
        |p: &Node| -> (s: Option<String>)
            ensures
                opt_text(s) == float_param(*p)
        {
            match (p.get_part(Role::Type), p.get_part(Role::Pattern)) {
                (Some(ty), Some(pat)) => if matches!(p.kind, Kind::Param) && matches!(
                    pat.kind,
                    Kind::PatIdent
                ) && is_float_type(ty.text.as_str()) {
                    Some(pat.name.clone())
                } else {
                    None
                },
                _ => None,
            }
        },
        Ghost(|p: Node| float_param(p)),
    )
}

/// Whether the operand is a floating-point number.
pub fn is_float_operand(e: &Node, float_params: &Vec<String>) -> (b: bool)
    ensures
        b == floating(*e, texts(float_params@)),
    decreases e,
{
    proof {
        lemma_part_smaller(*e, Role::Operand);
        lemma_part_smaller(*e, Role::Receiver);
        lemma_part_smaller(*e, Role::Left);
        lemma_part_smaller(*e, Role::Right);
    }
    match e.kind {
        Kind::LitFloat => true,
        Kind::PathExpr => !e.name.as_str().is_empty() && listed(float_params, e.name.as_str()),
        Kind::Cast => match e.get_part(Role::Type) {
            Some(ty) => same_as_any(ty.text.as_str(), FLOAT_TYPES.as_slice()),
            None => false,
        },
        Kind::Paren | Kind::Group | Kind::Reference { .. } | Kind::Unary => match e.get_part(
            Role::Operand,
        ) {
            Some(inner) => is_float_operand(inner, float_params),
            None => false,
        },
        Kind::MethodCall => match e.get_part(Role::Receiver) {
            Some(inner) => is_float_operand(inner, float_params),
            None => false,
        },
        Kind::Binary => (match e.get_part(Role::Left) {
            Some(inner) => is_float_operand(inner, float_params),
            None => false,
        }) || (match e.get_part(Role::Right) {
            Some(inner) => is_float_operand(inner, float_params),
            None => false,
        }),
        _ => false,
    }
}

/// Whether something in the expression compares two values.
pub fn expr_has_comparison(e: &Node) -> (b: bool)
    ensures
        b == some(nodes(*e), |c: Node| compares(c)),
{
    let list = nodes_in(e);
    any_node(
        &list,
        |c: &Node| -> (r: bool)
            ensures
                r == compares(*c)
        { matches!(c.kind, Kind::Binary) && same_as_any(c.name.as_str(), COMPARISONS.as_slice()) },
        Ghost(|c: Node| compares(c)),
    )
}

/// Whether the expression is an error result.
fn is_error_value(e: &Node) -> (b: bool)
    ensures
        b == error_value(*e),
{
    is_named(get_path_call(e), "Err") || is_named(get_macro_name(e), "err") || (matches!(
        e.kind,
        Kind::MacroExpr
    ) && match e.get_part(Role::Operand) {
        Some(m) => is_named(get_macro_name(m), "err"),
        None => false,
    })
}

/// Whether the node gives up.
fn is_giving_up(n: &Node) -> (b: bool)
    ensures
        b == gives_up(*n),
{
    matches!(n.kind, Kind::Return) || match get_path_call(n) {
        Some(name) => starts_with(name, "panic"),
        None => false,
    } || match get_macro_name(n) {
        Some(name) => starts_with_any(name, BAILING_MACROS.as_slice()),
        None => false,
    } || (matches!(n.kind, Kind::Try) && match n.get_part(Role::Operand) {
        Some(e) => is_error_value(e),
        None => false,
    })
}

/// Whether the branch diverges.
pub fn branch_bails(block: &Node) -> (b: bool)
    ensures
        b == bails(*block),
{
    let stopped = does_stop(
        block,
        &|n: &Node| -> (r: bool)
            ensures
                r == gives_up(*n)
        { is_giving_up(n) },
        Ghost(|n: Node| gives_up(n)),
    );
    if stopped {
        return true;
    }
    let entries = block.get_parts(Role::Entry);
    if entries.len() == 0 {
        return false;
    }
    let last = entries[entries.len() - 1];
    assert(*last == block.parts(Role::Entry).last());
    let open = match last.kind {
        Kind::ExprStmt { semi } => !semi,
        Kind::StmtMacro => !ends_with(last.text.as_str(), ";"),
        _ => false,
    };
    open && match last.get_part(Role::Operand) {
        Some(e) => is_error_value(e),
        None => false,
    }
}

/// Whether the node is an `if` that compares and, where the comparison holds, gives up.
fn is_comparison_guard(n: &Node) -> (b: bool)
    ensures
        b == comparison_guard(*n),
{
    match (n.get_part(Role::Condition), n.get_part(Role::Then)) {
        (Some(cond), Some(then_block)) => matches!(n.kind, Kind::If) && expr_has_comparison(cond)
            && branch_bails(then_block),
        _ => false,
    }
}

/// Whether some `if` below `block` compares and gives up.
pub fn has_if_comparison_guard(block: &Node) -> (b: bool)
    ensures
        b == compares_and_bails(*block),
{
    let list = nodes_in(block);
    any_node(
        &list,
        |n: &Node| -> (r: bool)
            ensures
                r == comparison_guard(*n)
        { is_comparison_guard(n) },
        Ghost(|n: Node| comparison_guard(n)),
    )
}

/// Whether the node is a macro call that validates something.
fn is_validation(n: &Node) -> (b: bool)
    ensures
        b == validation(*n),
{
    match get_macro_name(n) {
        Some(name) => ends_with_any(name, VALIDATIONS.as_slice()),
        None => false,
    }
}

/// Whether the body of a helper validates its input.
pub fn block_has_validation(block: &Node) -> (b: bool)
    ensures
        b == validates(*block),
{
    let list = nodes_in(block);
    any_node(
        &list,
        |n: &Node| -> (r: bool)
            ensures
                r == validation(*n)
        { is_validation(n) },
        Ghost(|n: Node| validation(n)),
    ) || has_if_comparison_guard(block)
}

/// Whether `f` is named `name` and validates its input.
fn is_validator(f: &Node, name: &str) -> (b: bool)
    ensures
        b == validates_as(*f, name@),
{
    same(f.name.as_str(), name) && match f.get_part(Role::Body) {
        Some(body) => block_has_validation(body),
        None => false,
    }
}

/// Whether some function `name` of the file validates its input.
pub fn fn_validates_input(file: &Node, name: &str) -> (b: bool)
    ensures
        b == validated_by(*file, name@),
{
    let list = file.get_parts(Role::Entry);
    any_node(
        &list,
        |item: &Node| -> (r: bool)
            ensures
                r == item_validates(*item, name@)
        {
            match item.kind {
                Kind::Function => is_validator(item, name),
                Kind::Impl => {
                    let inner = item.get_parts(Role::Entry);
                    any_node(
                        &inner,
                        |m: &Node| -> (r: bool)
                            ensures
                                r == (m.kind is Method && validates_as(*m, name@))
                        { matches!(m.kind, Kind::Method { .. }) && is_validator(m, name) },
                        Ghost(|m: Node| m.kind is Method && validates_as(m, name@)),
                    )
                },
                Kind::Module => {
                    let inner = item.get_parts(Role::Entry);
                    any_node(
                        &inner,
                        |f: &Node| -> (r: bool)
                            ensures
                                r == (f.kind is Function && validates_as(*f, name@))
                        { matches!(f.kind, Kind::Function) && is_validator(f, name) },
                        Ghost(|f: Node| f.kind is Function && validates_as(f, name@)),
                    )
                },
                _ => false,
            }
        },
        Ghost(|item: Node| item_validates(item, name@)),
    )
}

/// The name of the function whose failure the node hands on, or stops at.
fn call_target_name(n: &Node) -> (r: Option<String>)
    ensures
        opt_text(r) == delegate(*n),
{
    match n.kind {
        Kind::Try => match n.get_part(Role::Operand) {
            Some(inner) => own(get_path_call(inner)),
            None => None,
        },
        Kind::MethodCall => match n.get_part(Role::Receiver) {
            Some(inner) => if same_as_any(n.name.as_str(), UNWRAPS.as_slice()) {
                own(get_path_call(inner))
            } else {
                None
            },
            None => None,
        },
        _ => None,
    }
}

/// Whether the node depends on the success of a function that validates its input.
pub fn body_delegates_validation(n: &Node, file: &Node) -> (b: bool)
    ensures
        b == delegates_validation(*n, *file),
{
    match call_target_name(n) {
        Some(name) => fn_validates_input(file, name.as_str()),
        None => false,
    }
}

/// Whether the node guards the arithmetic that follows it.
fn is_guard(n: &Node, file: &Node) -> (b: bool)
    ensures
        b == guards(*n, *file),
{
    is_validation(n) || is_comparison_guard(n) || body_delegates_validation(n, file)
}

/// Whether the body keeps its values within bounds.
pub fn fn_has_bounds_check(body_src: &str) -> (b: bool)
    ensures
        b == bounded(body_src@),
{
    contains_any(body_src, CLAMPS.as_slice())
}

/// Whether the arithmetic of `f` is not looked at.
fn is_skipped(ctx: &ScanContext, f: &Node) -> (b: bool)
    ensures
        b == skipped(*ctx, *f),
{
    is_pack_fn(f.name.as_str()) || is_test_fn(f) || is_math_helper_fn(f.name.as_str())
        || !contains_any(f.get_body_text(), OPERATOR_MARKS.as_slice()) || fn_has_bounds_check(
        f.get_body_text(),
    )
}

/// What is done at the binary operation `n`.
fn get_verdict(ctx: &ScanContext, n: &Node, floats: &Vec<String>) -> (v: Verdict)
    ensures
        v == verdict(*ctx, *n, texts(floats@)),
{
    let (left, right) = match (n.get_part(Role::Left), n.get_part(Role::Right)) {
        (Some(left), Some(right)) => (left, right),
        _ => {
            return Verdict::Descend;
        },
    };
    let line = snippet_at_line(ctx.source.as_str(), n.line);
    let line = line.as_str();
    let text = n.text.as_str();
    if !same_as_any(n.name.as_str(), ARITHMETIC.as_slice()) {
        Verdict::Descend
    } else if is_const_like(left) && is_const_like(right) {
        Verdict::Stop
    } else if is_literal(left) || is_literal(right) || is_float_operand(left, floats)
        || is_float_operand(right, floats) {
        Verdict::Descend
    } else if contains_any(line, CHECKED_LINE.as_slice()) || contains_any(
        text,
        TEXT_EXPR.as_slice(),
    ) || contains_any(line, TEXT_LINE.as_slice()) || contains_any(line, LENGTH_LINE.as_slice())
        || contains_any(text, LAYOUT_EXPR.as_slice()) {
        Verdict::Stop
    } else if (is_widening_cast(left) && is_widening_cast(right)) || contains(text, "saturating_") {
        Verdict::Descend
    } else {
        Verdict::Flag
    }
}

/// A visit under way: what it has reported, and where it stands.
pub struct OverflowVisitor {
    pub findings: Vec<Finding>,
    pub in_function: bool,
    pub current_fn_float_params: Vec<String>,
    pub guarded: bool,
}

impl OverflowVisitor {
    /// Where the visit stands.
    pub open spec fn place(self) -> Place {
        Place {
            inside: self.in_function,
            floats: texts(self.current_fn_float_params@),
            guarded: self.guarded,
        }
    }

    /// Visits the children of `n`.
    fn visit_children(&mut self, ctx: &ScanContext, n: &Node)
        ensures
            reports(final(self).findings@) == reports(old(self).findings@) + visit_all(
                *ctx,
                n.children@,
                old(self).place(),
            ).0,
            final(self).place() == visit_all(*ctx, n.children@, old(self).place()).1,
        decreases n, 0nat,
    {
        let ghost before = reports(self.findings@);
        let ghost start = self.place();
        let mut i: usize = 0;
        while i < n.children.len()
            invariant
                i <= n.children@.len(),
                reports(self.findings@) == before + visit_all(
                    *ctx,
                    n.children@.take(i as int),
                    start,
                ).0,
                self.place() == visit_all(*ctx, n.children@.take(i as int), start).1,
            decreases n.children@.len() - i,
        {
            assert(n.children@.take(i as int + 1).drop_last() =~= n.children@.take(i as int));
            assert(n.children@.take(i as int + 1).last() == n.children@[i as int]);
            self.visit(ctx, &n.children[i]);
            assert(reports(self.findings@) =~= before + visit_all(
                *ctx,
                n.children@.take(i as int + 1),
                start,
            ).0);
            i = i + 1;
        }
        assert(n.children@.take(i as int) =~= n.children@);
    }

    /// Visits `n`.
    pub fn visit(&mut self, ctx: &ScanContext, n: &Node)
        ensures
            reports(final(self).findings@) == reports(old(self).findings@) + visit(
                *ctx,
                *n,
                old(self).place(),
            ).0,
            final(self).place() == visit(*ctx, *n, old(self).place()).1,
        decreases n, 1nat,
    {
        let ghost before = reports(self.findings@);
        match n.kind {
            Kind::Module => {
                if !is_cfg_test(n) {
                    self.visit_children(ctx, n);
                }
            },
            Kind::Function | Kind::Method { .. } => {
                if !self.guarded && !is_skipped(ctx, n) {
                    self.in_function = true;
                    self.current_fn_float_params = float_params_of_sig(n);
                    self.visit_children(ctx, n);
                    self.in_function = false;
                    self.current_fn_float_params = Vec::new();
                    self.guarded = false;
                    assert(texts(self.current_fn_float_params@) =~= Seq::<Seq<char>>::empty());
                }
            },
            Kind::Binary => {
                if self.in_function && !self.guarded {
                    match get_verdict(ctx, n, &self.current_fn_float_params) {
                        Verdict::Stop => {},
                        Verdict::Descend => {
                            self.visit_children(ctx, n);
                        },
                        Verdict::Flag => {
                            let confidence = if same_as_any(
                                n.name.as_str(),
                                DIVISIONS.as_slice(),
                            ) {
                                Confidence::Low
                            } else {
                                Confidence::Medium
                            };
                            let text = join2("Unchecked arithmetic operation: ", n.text.as_str());
                            let finding = raise(
                                &info(),
                                ctx,
                                confidence,
                                n.line,
                                n.column,
                                text,
                                "Use checked_add(), checked_sub(), checked_mul(), or checked_div() to prevent overflow/underflow",
                            );
                            self.findings.push(finding);
                            assert(reports(self.findings@) =~= before + seq![
                                report_on(*ctx, *n),
                            ]);
                            self.visit_children(ctx, n);
                        },
                    }
                }
            },
            _ => {
                if self.in_function && !self.guarded && is_guard(n, &ctx.ast) {
                    self.guarded = true;
                }
                self.visit_children(ctx, n);
            },
        }
        assert(reports(self.findings@) =~= before + visit(*ctx, *n, old(self).place()).0);
    }
}

impl Detector for IntegerOverflowDetector {
    open spec fn profile(&self) -> Profile {
        profile()
    }

    open spec fn reports_on(&self, ctx: ScanContext) -> Seq<Report> {
        if !mentions_any(ctx.source@, MARKERS@) || mentions_any(
            ctx.file_path@,
            FRAMEWORK_PATHS@,
        ) {
            Seq::empty()
        } else {
            visit(ctx, ctx.ast, outside()).0
        }
    }

    fn id(&self) -> (r: &'static str) {
        info().id
    }

    fn name(&self) -> (r: &'static str) {
        info().name
    }

    fn description(&self) -> (r: &'static str) {
        info().description
    }

    fn severity(&self) -> (r: Severity) {
        info().severity
    }

    fn confidence(&self) -> (r: Confidence) {
        info().confidence
    }

    fn chain(&self) -> (r: Chain) {
        info().chain
    }

    fn detect(&self, ctx: &ScanContext) -> (r: Vec<Finding>) {
        if !contains_any(ctx.source.as_str(), MARKERS.as_slice()) || contains_any(
            ctx.file_path.as_str(),
            FRAMEWORK_PATHS.as_slice(),
        ) {
            return Vec::new();
        }
        let mut visitor = OverflowVisitor {
            findings: Vec::new(),
            in_function: false,
            current_fn_float_params: Vec::new(),
            guarded: false,
        };
        assert(visitor.place() == outside()) by {
            assert(visitor.place().floats =~= Seq::<Seq<char>>::empty());
        }
        visitor.visit(ctx, &ctx.ast);
        assert(reports(visitor.findings@) =~= self.reports_on(*ctx));
        visitor.findings
    }

    proof fn law_findings_are_stamped(&self, ctx: ScanContext) {
        lemma_visit_is_stamped(ctx, ctx.ast, outside());
    }
}

/// Every report of a visit names this rule and the file.
proof fn lemma_visit_is_stamped(ctx: ScanContext, n: Node, place: Place)
    ensures
        forall|i: int|
            0 <= i < visit(ctx, n, place).0.len() ==> stamped(
                #[trigger] visit(ctx, n, place).0[i],
                profile(),
                ctx,
            ),
    decreases n,
{
    lemma_visits_are_stamped(ctx, n.children@, place);
    lemma_visits_are_stamped(ctx, n.children@, inside(n));
    lemma_visits_are_stamped(ctx, n.children@, behind(ctx, n, place));
    let below = visit_all(ctx, n.children@, place).0;
    assert forall|i: int| 0 <= i < visit(ctx, n, place).0.len() implies stamped(
        #[trigger] visit(ctx, n, place).0[i],
        profile(),
        ctx,
    ) by {
        if n.kind is Binary && place.inside && !place.guarded && verdict(ctx, n, place.floats) is Flag {
            assert(visit(ctx, n, place).0 == seq![report_on(ctx, n)] + below);
            if i > 0 {
                assert(stamped(below[i - 1], profile(), ctx));
            }
        } else if n.kind is Function || n.kind is Method {
            let inner = visit_all(ctx, n.children@, inside(n)).0;
            assert(stamped(inner[i], profile(), ctx));
        } else if n.kind is Module || n.kind is Binary {
            assert(stamped(below[i], profile(), ctx));
        } else {
            let later = visit_all(ctx, n.children@, behind(ctx, n, place)).0;
            assert(stamped(later[i], profile(), ctx));
        }
    }
}

/// Every report of visits one after the other names this rule and the file.
proof fn lemma_visits_are_stamped(ctx: ScanContext, list: Seq<Node>, place: Place)
    ensures
        forall|i: int|
            0 <= i < visit_all(ctx, list, place).0.len() ==> stamped(
                #[trigger] visit_all(ctx, list, place).0[i],
                profile(),
                ctx,
            ),
    decreases list,
{
    if list.len() > 0 {
        let before = visit_all(ctx, list.drop_last(), place);
        let here = visit(ctx, list.last(), before.1);
        lemma_visits_are_stamped(ctx, list.drop_last(), place);
        lemma_visit_is_stamped(ctx, list.last(), before.1);
        assert forall|i: int| 0 <= i < visit_all(ctx, list, place).0.len() implies stamped(
            #[trigger] visit_all(ctx, list, place).0[i],
            profile(),
            ctx,
        ) by {
            assert(visit_all(ctx, list, place).0 == before.0 + here.0);
            if i < before.0.len() {
                assert(stamped(before.0[i], profile(), ctx));
            } else {
                assert(stamped(here.0[i - before.0.len()], profile(), ctx));
            }
        }
    }
}

/// Test code is not reported on, and a visit goes on behind it as if it were not
/// there.
pub proof fn law_test_code_is_silent(ctx: ScanContext, n: Node, place: Place)
    requires
        (n.kind is Module && test_builds_only(n)) || ((n.kind is Function || n.kind is Method) && test_fn(
            n,
        )),
    ensures
        visit(ctx, n, place) == (Seq::<Report>::empty(), place),
{
}

/// Nothing behind a guard is reported, and a visit stays behind it.
pub proof fn law_nothing_behind_a_guard_is_reported(ctx: ScanContext, n: Node, place: Place)
    requires
        place.guarded,
    ensures
        visit(ctx, n, place) == (Seq::<Report>::empty(), place),
    decreases n,
{
    lemma_guarded_visits(ctx, n.children@, place);
    assert(behind(ctx, n, place) == place);
}

/// Visits behind a guard, one after the other, report nothing and stay there.
proof fn lemma_guarded_visits(ctx: ScanContext, list: Seq<Node>, place: Place)
    requires
        place.guarded,
    ensures
        visit_all(ctx, list, place) == (Seq::<Report>::empty(), place),
    decreases list,
{
    if list.len() > 0 {
        lemma_guarded_visits(ctx, list.drop_last(), place);
        law_nothing_behind_a_guard_is_reported(ctx, list.last(), place);
        assert(Seq::<Report>::empty() + Seq::<Report>::empty() =~= Seq::<Report>::empty());
    }
}

/// A division is reported with low confidence, and nothing else is.
pub proof fn law_only_divisions_are_doubtful(ctx: ScanContext, n: Node)
    ensures
        (report_on(ctx, n).confidence is Low) == is_any(n.name@, DIVISIONS@),
{
}

/// Nothing is reported on a file that shows no mark of a Solana program, or that
/// belongs to a framework.
pub proof fn law_out_of_scope_is_silent(ctx: ScanContext)
    requires
        !mentions_any(ctx.source@, MARKERS@) || mentions_any(ctx.file_path@, FRAMEWORK_PATHS@),
    ensures
        IntegerOverflowDetector.reports_on(ctx).len() == 0,
{
}

/// Nothing in the tree checks a value: it holds no macro call, no `if`, no `?` and no
/// `unwrap` or `expect`. It holds no function either.
pub open spec fn checks_nothing(n: Node) -> bool {
    forall|k: int|
        0 <= k < nodes(n).len() ==> {
            &&& !((#[trigger] nodes(n)[k]).kind is Macro)
            &&& !(nodes(n)[k].kind is If)
            &&& !(nodes(n)[k].kind is Try)
            &&& !(nodes(n)[k].kind is MethodCall && (nodes(n)[k].name@ == "unwrap"@
                || nodes(n)[k].name@ == "expect"@))
            &&& !(nodes(n)[k].kind is Function)
            &&& !(nodes(n)[k].kind is Method)
        }
}

/// A tree that checks nothing is made of such trees.
proof fn lemma_checks_nothing_below(n: Node, k: int)
    requires
        checks_nothing(n),
        0 <= k < n.children@.len(),
    ensures
        checks_nothing(n.children@[k]),
{
    let c = n.children@[k];
    assert forall|i: int| 0 <= i < nodes(c).len() implies nodes(n).contains(#[trigger] nodes(c)[i]) by {
        lemma_met_among(n.children@, everywhere(), k, nodes(c)[i]);
        let inner = walk_all(n.children@, everywhere());
        let p = inner.index_of(nodes(c)[i]);
        assert((seq![n] + inner)[p + 1] == nodes(c)[i]);
    }
    assert forall|i: int| 0 <= i < nodes(c).len() implies {
        &&& !((#[trigger] nodes(c)[i]).kind is Macro)
        &&& !(nodes(c)[i].kind is If)
        &&& !(nodes(c)[i].kind is Try)
        &&& !(nodes(c)[i].kind is MethodCall && (nodes(c)[i].name@ == "unwrap"@ || nodes(c)[i].name@
            == "expect"@))
        &&& !(nodes(c)[i].kind is Function)
        &&& !(nodes(c)[i].kind is Method)
    } by {
        let p = nodes(n).index_of(nodes(c)[i]);
        assert(nodes(n)[p] == nodes(c)[i]);
    }
}

/// A visit of a tree that checks nothing ends where it starts.
pub proof fn law_visit_stays_unguarded(ctx: ScanContext, n: Node, place: Place)
    requires
        checks_nothing(n),
    ensures
        visit(ctx, n, place).1 == place,
    decreases n,
{
    assert(nodes(n)[0] == n);
    assert(behind(ctx, n, place) == place);
    assert forall|k: int| 0 <= k < n.children@.len() implies checks_nothing(
        #[trigger] n.children@[k],
    ) by {
        lemma_checks_nothing_below(n, k);
    }
    lemma_visits_stay_unguarded(ctx, n.children@, place);
}

/// Visits of trees that check nothing end where they start.
proof fn lemma_visits_stay_unguarded(ctx: ScanContext, list: Seq<Node>, place: Place)
    requires
        forall|k: int| 0 <= k < list.len() ==> checks_nothing(#[trigger] list[k]),
    ensures
        visit_all(ctx, list, place).1 == place,
    decreases list,
{
    if list.len() > 0 {
        assert forall|k: int| 0 <= k < list.drop_last().len() implies checks_nothing(
            #[trigger] list.drop_last()[k],
        ) by {
            assert(list.drop_last()[k] == list[k]);
        }
        lemma_visits_stay_unguarded(ctx, list.drop_last(), place);
        assert(list.last() == list[list.len() - 1]);
        law_visit_stays_unguarded(ctx, list.last(), place);
    }
}

/// A visit that starts outside of every function ends there.
pub proof fn law_visit_stays_outside(ctx: ScanContext, n: Node)
    ensures
        visit(ctx, n, outside()).1 == outside(),
    decreases n,
{
    assert(behind(ctx, n, outside()) == outside());
    lemma_visits_stay_outside(ctx, n.children@);
}

/// Visits that start outside of every function end there.
proof fn lemma_visits_stay_outside(ctx: ScanContext, list: Seq<Node>)
    ensures
        visit_all(ctx, list, outside()).1 == outside(),
    decreases list,
{
    if list.len() > 0 {
        lemma_visits_stay_outside(ctx, list.drop_last());
        law_visit_stays_outside(ctx, list.last());
    }
}

/// What one of the visits reports, from the place where all of them stand, all of them
/// report together.
proof fn lemma_reported_among(
    ctx: ScanContext,
    list: Seq<Node>,
    place: Place,
    k: int,
    r: Report,
)
    requires
        0 <= k < list.len(),
        visit(ctx, list[k], place).0.contains(r),
        place == outside() || forall|m: int|
            0 <= m < list.len() ==> checks_nothing(#[trigger] list[m]),
    ensures
        visit_all(ctx, list, place).0.contains(r),
    decreases list.len(),
{
    let front = list.drop_last();
    let before = visit_all(ctx, front, place);
    if place == outside() {
        lemma_visits_stay_outside(ctx, front);
    } else {
        assert forall|m: int| 0 <= m < front.len() implies checks_nothing(#[trigger] front[m]) by {
            assert(front[m] == list[m]);
        }
        lemma_visits_stay_unguarded(ctx, front, place);
    }
    let here = visit(ctx, list.last(), place);
    if k == list.len() - 1 {
        let i = here.0.index_of(r);
        assert((before.0 + here.0)[before.0.len() + i] == r);
    } else {
        assert(front[k] == list[k]);
        lemma_reported_among(ctx, front, place, k, r);
        let i = before.0.index_of(r);
        assert((before.0 + here.0)[i] == r);
    }
}

/// What is reported on an operation is reported on the body that holds it, if the body
/// checks nothing and no other operation is on the way.
proof fn lemma_reported_below(ctx: ScanContext, path: Seq<Node>, place: Place, r: Report)
    requires
        leads(path),
        checks_nothing(path[0]),
        forall|i: int| 0 <= i < path.len() - 1 ==> !((#[trigger] path[i]).kind is Binary),
        forall|i: int| 0 <= i < path.len() - 1 ==> !((#[trigger] path[i]).kind is Module),
        visit(ctx, path.last(), place).0.contains(r),
    ensures
        visit(ctx, path[0], place).0.contains(r),
    decreases path.len(),
{
    if path.len() > 1 {
        let n = path[0];
        let rest = path.drop_first();
        assert(nodes(n)[0] == n);
        assert(n.children@.contains(path[1]));
        let k = n.children@.index_of(path[1]);
        assert forall|m: int| 0 <= m < n.children@.len() implies checks_nothing(
            #[trigger] n.children@[m],
        ) by {
            lemma_checks_nothing_below(n, m);
        }
        assert forall|i: int| 0 <= i < rest.len() - 1 implies (#[trigger] rest[i]).children@.contains(
            rest[i + 1],
        ) && !(rest[i].kind is Binary) && !(rest[i].kind is Module) by {
            assert(path[i + 1].children@.contains(path[i + 2]));
            assert(!(path[i + 1].kind is Binary));
        }
        lemma_reported_below(ctx, rest, place, r);
        lemma_reported_among(ctx, n.children@, place, k, r);
        assert(behind(ctx, n, place) == place);
        assert(!(path[0].kind is Binary));
        assert(!(path[0].kind is Module));
    }
}

/// What is reported inside a function is reported on the file, wherever in it the
/// function stands.
proof fn lemma_reported_in_file(ctx: ScanContext, path: Seq<Node>, r: Report)
    requires
        leads(path),
        forall|i: int|
            0 <= i < path.len() - 1 ==> !((#[trigger] path[i]).kind is Function)
                && !(path[i].kind is Method) && path[i].parts(Role::Attribute).len() == 0,
        forall|i: int| 0 <= i < path.len() - 1 ==> !((#[trigger] path[i]).kind is Binary),
        visit(ctx, path.last(), outside()).0.contains(r),
    ensures
        visit(ctx, path[0], outside()).0.contains(r),
    decreases path.len(),
{
    if path.len() > 1 {
        let n = path[0];
        let rest = path.drop_first();
        assert(n.children@.contains(path[1]));
        let k = n.children@.index_of(path[1]);
        assert forall|i: int| 0 <= i < rest.len() - 1 implies (#[trigger] rest[i]).children@.contains(
            rest[i + 1],
        ) && !(rest[i].kind is Binary) && !(rest[i].kind is Function) && !(rest[i].kind is Method)
            && rest[i].parts(Role::Attribute).len() == 0 by {
            assert(path[i + 1].children@.contains(path[i + 2]));
            assert(!(path[i + 1].kind is Binary));
            assert(!(path[i + 1].kind is Function));
        }
        lemma_reported_in_file(ctx, rest, r);
        lemma_reported_among(ctx, n.children@, outside(), k, r);
        assert(behind(ctx, n, outside()) == outside());
        assert(!(path[0].kind is Binary));
        assert(!(path[0].kind is Function));
    }
}

/// The expression is a field, an element, the result of a call, or a path whose last
/// segment begins with a small letter.
pub open spec fn open_value(e: Node) -> bool {
    ||| e.kind is Field
    ||| e.kind is Index
    ||| e.kind is Call
    ||| e.kind is PathExpr && (e.last_word() matches Some(w) && w.len() > 0 && 'a' <= w[0] && w[0]
        <= 'z')
}

/// No floating-point type is the type of a parameter of `f`, or a part of it.
pub open spec fn takes_no_floats(f: Node) -> bool {
    forall|k: int|
        0 <= k < f.parts(Role::Param).len() ==> ((#[trigger] f.parts(Role::Param)[k]).part(
            Role::Type,
        ) matches Some(ty) ==> !words(ty.text@).contains("f32"@) && !words(ty.text@).contains(
            "f64"@,
        ))
}

/// Where nothing has a name, there are no names.
proof fn lemma_no_names(list: Seq<Node>, f: spec_fn(Node) -> Option<Seq<char>>)
    requires
        forall|k: int| 0 <= k < list.len() ==> f(#[trigger] list[k]) is None,
    ensures
        names_of(list, f).len() == 0,
    decreases list.len(),
{
    if list.len() > 0 {
        assert(f(list[list.len() - 1]) is None);
        assert forall|k: int| 0 <= k < list.drop_last().len() implies f(
            #[trigger] list.drop_last()[k],
        ) is None by {
            assert(list.drop_last()[k] == list[k]);
        }
        lemma_no_names(list.drop_last(), f);
    }
}

/// A function that takes no floating-point numbers has no floating-point parameters.
proof fn lemma_no_float_params(f: Node)
    requires
        takes_no_floats(f),
    ensures
        float_params(f).len() == 0,
{
    let g = |p: Node| float_param(p);
    assert forall|k: int| 0 <= k < f.parts(Role::Param).len() implies g(
        #[trigger] f.parts(Role::Param)[k],
    ) is None by {
        let p = f.parts(Role::Param)[k];
        if p.part(Role::Type) is Some {
            let list = words((p.part(Role::Type)->0).text@);
            assert forall|i: int| 0 <= i < list.len() implies !is_any(
                #[trigger] list[i],
                FLOAT_TYPES@,
            ) by {
                assert(list.contains(list[i]));
            }
        }
    }
    lemma_no_names(f.parts(Role::Param), g);
}

/// One of `list` stands at the place of the operation and quotes it.
pub open spec fn quotes_operation(list: Seq<Report>, n: Node) -> bool {
    exists|i: int|
        0 <= i < list.len() && (#[trigger] list[i]).line == n.line && list[i].column == n.column
            && mentions(list[i].message, n.text@) && (list[i].confidence is Low) == (n.name@ == "/"@
            || n.name@ == "/="@)
}

/// Each of the eight arithmetic operators, the compound assignments among them, is
/// reported on fields, elements and results of calls, in a function that checks nothing
/// and is no helper for tests, packing or calculation, unless the line or the expression
/// shows that the operation is checked, or is no arithmetic on values.
pub proof fn law_unchecked_operation_is_reported(
    ctx: ScanContext,
    way: Seq<Node>,
    f: Node,
    path: Seq<Node>,
    n: Node,
    left: Node,
    right: Node,
)
    requires
        mentions_any(ctx.source@, seq!["solana_program", "anchor_lang", "Pubkey", "AccountInfo", "ProgramResult", "solana_sdk"]),
        !mentions_any(ctx.file_path@, seq!["/spl-token", "/spl_token", "/anchor-lang/", "/anchor_lang/", "/anchor/lang/", "/solana-program/", "/solana_program/", "/token-swap/", "/token_swap/", "/stake-pool/", "/lending/"]),
        leads_openly(way, ctx.ast, f),
        forall|i: int| 0 <= i < way.len() - 1 ==> !((#[trigger] way[i]).kind is Binary),
        f.kind is Function || f.kind is Method,
        takes_no_floats(f),
        !mentions_any(lower(f.name@), seq!["_fee", "fee_", "swap", "curve", "interpolat", "_amount", "amount_", "_rate", "rate_", "_price", "price_"]),
        !begins_any(lower(f.name@), seq!["calculate", "compute", "convert"]),
        !is_any(lower(f.name@), seq!["ceil_div", "floor_div"]),
        !begins_any(lower(f.name@), seq!["pack_", "unpack_"]),
        !is_any(lower(f.name@), seq!["pack_into_slice", "unpack_from_slice", "pack", "unpack", "serialize", "deserialize", "try_from_slice"]),
        !begins(lower(f.name@), "test_"@),
        !ends(lower(f.name@), "_test"@),
        !mentions(lower(f.name@), "_works"@),
        !carries_test(f),
        !mentions_any(f.body_text(), seq!["min (", ". min (", ". max (", "clamp"]),
        mentions_any(f.body_text(), seq!["+", "-", "*", "/"]),
        leads(path),
        f.children@.contains(path[0]),
        path.last() == n,
        forall|k: int| 0 <= k < f.children@.len() ==> checks_nothing(#[trigger] f.children@[k]),
        forall|i: int| 0 <= i < path.len() - 1 ==> !((#[trigger] path[i]).kind is Binary),
        forall|i: int| 0 <= i < path.len() - 1 ==> !((#[trigger] path[i]).kind is Module),
        n.kind is Binary,
        is_any(n.name@, seq!["+", "-", "*", "/", "+=", "-=", "*=", "/="]),
        n.part(Role::Left) == Some(left),
        n.part(Role::Right) == Some(right),
        open_value(left),
        open_value(right),
        !mentions(left.text@, "as u128"@) && !mentions(left.text@, "as i128"@),
        !mentions_any(snippet(ctx.source@, n.line), seq!["checked_", "saturating_", "wrapping_", "as_bytes", "to_owned", "String", ".len()", "as usize"]),
        !mentions_any(
            n.text@,
            seq!["to_owned", "to_string", "String", "str", "format", "size_of", "align_of", "saturating_"],
        ),
    ensures
        quotes_operation(IntegerOverflowDetector.reports_on(ctx), n),
{
    let place = inside(f);
    let r = report_on(ctx, n);
    lemma_no_float_params(f);
    lemma_flagged(ctx, n, left, right, place.floats);
    assert(visit(ctx, n, place).0[0] == r);
    lemma_reported_below_function(ctx, f, path, r);
    lemma_reported_in_file(ctx, way, r);
    let list = IntegerOverflowDetector.reports_on(ctx);
    let i = list.index_of(r);
    assert(list[i] == r);
    assert(r.message =~= "Unchecked arithmetic operation: "@ + n.text@ + Seq::<char>::empty());
    lemma_holds_middle(
        r.message,
        "Unchecked arithmetic operation: "@,
        n.text@,
        Seq::<char>::empty(),
    );
}

/// What is reported on an operation below `f` is reported on `f`.
proof fn lemma_reported_below_function(ctx: ScanContext, f: Node, path: Seq<Node>, r: Report)
    requires
        f.kind is Function || f.kind is Method,
        !skipped(ctx, f),
        leads(path),
        f.children@.contains(path[0]),
        forall|k: int| 0 <= k < f.children@.len() ==> checks_nothing(#[trigger] f.children@[k]),
        forall|i: int| 0 <= i < path.len() - 1 ==> !((#[trigger] path[i]).kind is Binary),
        forall|i: int| 0 <= i < path.len() - 1 ==> !((#[trigger] path[i]).kind is Module),
        visit(ctx, path.last(), inside(f)).0.contains(r),
    ensures
        visit(ctx, f, outside()).0.contains(r),
{
    let k = f.children@.index_of(path[0]);
    assert(checks_nothing(f.children@[k]));
    lemma_reported_below(ctx, path, inside(f), r);
    lemma_reported_among(ctx, f.children@, inside(f), k, r);
}

/// A field, an element, the result of a call or a local is neither fixed at compile time
/// nor known to be a floating-point number.
proof fn lemma_open_value(e: Node, floats: Seq<Seq<char>>)
    requires
        open_value(e),
        floats.len() == 0,
    ensures
        !const_like(e),
        !literal(e),
        !floating(e, floats),
        widened(e) == (mentions(e.text@, "as u128"@) || mentions(e.text@, "as i128"@)),
{
    if e.kind is PathExpr {
        let w = e.last_word()->0;
        assert(!screaming_char(w[0]));
    }
}

/// An operation on fields, elements, results of calls and locals is flagged.
proof fn lemma_flagged(
    ctx: ScanContext,
    n: Node,
    left: Node,
    right: Node,
    floats: Seq<Seq<char>>,
)
    requires
        floats.len() == 0,

        n.kind is Binary,
        is_any(n.name@, seq!["+", "-", "*", "/", "+=", "-=", "*=", "/="]),
        n.part(Role::Left) == Some(left),
        n.part(Role::Right) == Some(right),
        open_value(left),
        open_value(right),
        !mentions(left.text@, "as u128"@) && !mentions(left.text@, "as i128"@),
        !mentions_any(snippet(ctx.source@, n.line), seq!["checked_", "saturating_", "wrapping_", "as_bytes", "to_owned", "String", ".len()", "as usize"]),
        !mentions_any(
            n.text@,
            seq!["to_owned", "to_string", "String", "str", "format", "size_of", "align_of", "saturating_"],
        ),
    ensures
        verdict(ctx, n, floats) is Flag,
{
    lemma_open_value(left, floats);
    lemma_open_value(right, floats);
    let line = snippet(ctx.source@, n.line);
    assert(!mentions_any(line, CHECKED_LINE@) && !mentions_any(line, TEXT_LINE@) && !mentions_any(
        line,
        LENGTH_LINE@,
    )) by {
        let words = seq!["checked_", "saturating_", "wrapping_", "as_bytes", "to_owned", "String", ".len()", "as usize"];
        assert(words[0]@ == "checked_"@ && words[1]@ == "saturating_"@ && words[2]@ == "wrapping_"@);
        assert(words[3]@ == "as_bytes"@ && words[4]@ == "to_owned"@ && words[5]@ == "String"@);
        assert(words[6]@ == ".len()"@ && words[7]@ == "as usize"@);
    }
    assert(!mentions_any(n.text@, TEXT_EXPR@) && !mentions_any(n.text@, LAYOUT_EXPR@) && !mentions(
        n.text@,
        "saturating_"@,
    )) by {
        let words = seq!["to_owned", "to_string", "String", "str", "format", "size_of", "align_of", "saturating_"];
        assert(words[0]@ == "to_owned"@ && words[1]@ == "to_string"@ && words[2]@ == "String"@);
        assert(words[3]@ == "str"@ && words[4]@ == "format"@ && words[5]@ == "size_of"@);
        assert(words[6]@ == "align_of"@ && words[7]@ == "saturating_"@);
    }
}

/// Which of the eight operators it is makes no difference to whether an operation is
/// reported, nor to what is reported below it: `a op= b` is judged as `a op b` is.
pub proof fn law_operators_are_judged_alike(ctx: ScanContext, n: Node, m: Node, place: Place)
    requires
        n.kind is Binary && m.kind is Binary,
        is_any(n.name@, seq!["+", "-", "*", "/", "+=", "-=", "*=", "/="]),
        is_any(m.name@, seq!["+", "-", "*", "/", "+=", "-=", "*=", "/="]),
        n.children@ == m.children@,
        n.text@ == m.text@,
        n.line == m.line,
    ensures
        visit(ctx, n, place).0.len() == visit(ctx, m, place).0.len(),
        visit(ctx, n, place).1 == visit(ctx, m, place).1,
{
    assert(n.part(Role::Left) == m.part(Role::Left));
    assert(n.part(Role::Right) == m.part(Role::Right));
}

/// Any other operator is never reported: what is reported at it lies below it.
pub proof fn law_other_operators_are_not_reported(ctx: ScanContext, n: Node, place: Place)
    requires
        n.kind is Binary,
        place.inside,
        !place.guarded,
        !is_any(n.name@, seq!["+", "-", "*", "/", "+=", "-=", "*=", "/="]),
    ensures
        visit(ctx, n, place) == visit_all(ctx, n.children@, place),
{
    let words = seq!["+", "-", "*", "/", "+=", "-=", "*=", "/="];
    assert(words[0]@ == "+"@ && words[1]@ == "-"@ && words[2]@ == "*"@ && words[3]@ == "/"@);
    assert(words[4]@ == "+="@ && words[5]@ == "-="@ && words[6]@ == "*="@ && words[7]@ == "/="@);
}

/// An operation on a number written in the code is not reported itself.
pub proof fn law_operation_on_a_number_is_not_reported(
    ctx: ScanContext,
    n: Node,
    left: Node,
    right: Node,
    place: Place,
)
    requires
        n.kind is Binary,
        n.part(Role::Left) == Some(left),
        n.part(Role::Right) == Some(right),
        left.kind is LitInt || right.kind is LitInt || left.kind is LitFloat || right.kind is LitFloat,
    ensures
        visit(ctx, n, place).0.len() == 0 || visit(ctx, n, place) == visit_all(
            ctx,
            n.children@,
            place,
        ),
{
}

/// An operation on a line that names a checked, saturating or wrapping operation, or that
/// works on lengths, is not reported, nor is anything below it.
pub proof fn law_checked_line_is_silent(
    ctx: ScanContext,
    n: Node,
    left: Node,
    right: Node,
    place: Place,
)
    requires
        n.kind is Binary,
        n.part(Role::Left) == Some(left),
        n.part(Role::Right) == Some(right),
        is_any(n.name@, seq!["+", "-", "*", "/", "+=", "-=", "*=", "/="]),
        left.kind is Field || left.kind is Index,
        right.kind is Field || right.kind is Index,
        mentions_any(
            snippet(ctx.source@, n.line),
            seq!["checked_", "saturating_", "wrapping_", "as_bytes", "to_owned", "String", ".len()", "as usize"],
        ) || mentions_any(
            n.text@,
            seq!["to_owned", "to_string", "String", "str", "format", "size_of", "align_of"],
        ),
    ensures
        visit(ctx, n, place).0.len() == 0,
{
}

/// A validating macro call, or an `if` that compares and then returns, silences all
/// arithmetic behind it.
pub proof fn law_validation_silences_what_follows(
    ctx: ScanContext,
    guard: Node,
    rest: Seq<Node>,
    place: Place,
)
    requires
        place.inside,
        guard.kind is Macro,
        guard.last_word() matches Some(name) && ends_any(
            name,
            seq!["assert", "assert_eq", "assert_ne", "require", "ensure"],
        ),
    ensures
        visit_all(ctx, seq![guard] + rest, place).0 == visit(ctx, guard, place).0,
    decreases rest.len(),
{
    let list = seq![guard] + rest;
    assert(validation(guard));
    let inner = behind(ctx, guard, place);
    lemma_guarded_visits(ctx, guard.children@, inner);
    assert(visit(ctx, guard, place).1.guarded);
    if rest.len() == 0 {
        assert(list.drop_last() =~= Seq::<Node>::empty());
        assert(list.last() == guard);
        assert(visit_all(ctx, list.drop_last(), place) == (Seq::<Report>::empty(), place));
        assert(visit_all(ctx, list, place).0 =~= visit(ctx, guard, place).0);
    } else {
        assert(list.drop_last() =~= seq![guard] + rest.drop_last());
        law_validation_silences_what_follows(ctx, guard, rest.drop_last(), place);
        lemma_guard_is_kept(ctx, guard, rest.drop_last(), place);
        let before = visit_all(ctx, list.drop_last(), place);
        law_nothing_behind_a_guard_is_reported(ctx, list.last(), before.1);
        assert(visit_all(ctx, list, place).0 =~= visit(ctx, guard, place).0);
    }
}

/// Behind a validating macro call a visit stays guarded.
proof fn lemma_guard_is_kept(ctx: ScanContext, guard: Node, rest: Seq<Node>, place: Place)
    requires
        visit(ctx, guard, place).1.guarded,
    ensures
        visit_all(ctx, seq![guard] + rest, place).1.guarded,
    decreases rest.len(),
{
    let list = seq![guard] + rest;
    if rest.len() == 0 {
        assert(list.drop_last() =~= Seq::<Node>::empty());
        assert(list.last() == guard);
        assert(visit_all(ctx, list.drop_last(), place) == (Seq::<Report>::empty(), place));
        assert(visit_all(ctx, list, place).1 == visit(ctx, guard, place).1);
    } else {
        assert(list.drop_last() =~= seq![guard] + rest.drop_last());
        lemma_guard_is_kept(ctx, guard, rest.drop_last(), place);
        law_nothing_behind_a_guard_is_reported(
            ctx,
            list.last(),
            visit_all(ctx, list.drop_last(), place).1,
        );
    }
}

/// The operands of an operation that is reported are looked at as well.
pub proof fn law_operands_are_looked_at(
    ctx: ScanContext,
    n: Node,
    left: Node,
    right: Node,
    place: Place,
)
    requires
        place.inside,
        !place.guarded,
        place.floats.len() == 0,
        n.kind is Binary,
        is_any(n.name@, seq!["+", "-", "*", "/", "+=", "-=", "*=", "/="]),
        n.part(Role::Left) == Some(left),
        n.part(Role::Right) == Some(right),
        open_value(left),
        open_value(right),
        !mentions(left.text@, "as u128"@) && !mentions(left.text@, "as i128"@),
        !mentions_any(
            snippet(ctx.source@, n.line),
            seq!["checked_", "saturating_", "wrapping_", "as_bytes", "to_owned", "String", ".len()", "as usize"],
        ),
        !mentions_any(
            n.text@,
            seq!["to_owned", "to_string", "String", "str", "format", "size_of", "align_of", "saturating_"],
        ),
    ensures
        visit(ctx, n, place).0.len() > 0,
        visit(ctx, n, place).0.drop_first() == visit_all(ctx, n.children@, place).0,
{
    lemma_flagged(ctx, n, left, right, place.floats);
    assert(visit(ctx, n, place).0.drop_first() =~= visit_all(ctx, n.children@, place).0);
}

/// A guard silences all arithmetic behind it.
proof fn lemma_guard_silences(ctx: ScanContext, guard: Node, rest: Seq<Node>, place: Place)
    requires
        place.inside,
        guards(guard, ctx.ast),
        guard.kind is If || guard.kind is Try || guard.kind is MethodCall,
    ensures
        visit_all(ctx, seq![guard] + rest, place).0 == visit(ctx, guard, place).0,
        visit(ctx, guard, place).0.len() == 0,
    decreases rest.len(),
{
    let list = seq![guard] + rest;
    let inner = behind(ctx, guard, place);
    lemma_guarded_visits(ctx, guard.children@, inner);
    assert(visit(ctx, guard, place).1.guarded);
    if rest.len() == 0 {
        assert(list.drop_last() =~= Seq::<Node>::empty());
        assert(list.last() == guard);
        assert(visit_all(ctx, list.drop_last(), place) == (Seq::<Report>::empty(), place));
        assert(visit_all(ctx, list, place).0 =~= visit(ctx, guard, place).0);
    } else {
        assert(list.drop_last() =~= seq![guard] + rest.drop_last());
        lemma_guard_silences(ctx, guard, rest.drop_last(), place);
        lemma_guard_is_kept(ctx, guard, rest.drop_last(), place);
        let before = visit_all(ctx, list.drop_last(), place);
        law_nothing_behind_a_guard_is_reported(ctx, list.last(), before.1);
        assert(visit_all(ctx, list, place).0 =~= visit(ctx, guard, place).0);
    }
}

/// An `if` that compares two values, by whichever operator, and leaves, by a return, a
/// panic or a bail, silences all arithmetic behind it.
pub proof fn law_comparing_and_leaving_silences(ctx: ScanContext, n: Node, rest: Seq<Node>, place: Place, cond: Node, m: Node, block: Node, stmt: Node, leaf: Node)
    requires
        place.inside,
        n.kind is If,
        n.part(Role::Condition) == Some(cond),
        nodes(cond).contains(m),
        m.kind is Binary,
        is_any(m.name@, seq!["<", ">", "<=", ">=", "==", "!="]),
        n.part(Role::Then) == Some(block),
        stands_in(block, stmt, leaf),
        leaf.kind is Return || (leaf.kind is Macro && (leaf.last_word() matches Some(w) && begins_any(w, seq!["panic", "unreachable", "bail", "require", "ensure"]))) || (path_call(leaf) matches Some(w) && begins(w, "panic"@)),
    ensures
        visit_all(ctx, seq![n] + rest, place).0.len() == 0,
{
    law_exit_statement_stops(block, stmt, leaf, |k: Node| gives_up(k));
    let p = |k: Node| compares(k);
    assert(p(nodes(cond)[nodes(cond).index_of(m)]));
    assert(comparison_guard(n));
    lemma_guard_silences(ctx, n, rest, place);
}

/// So does handing on the failure of a function of the file that validates by a macro.
pub proof fn law_delegated_validation_silences(ctx: ScanContext, n: Node, call: Node, rest: Seq<Node>, place: Place, h: Node, inner: Node, g: Node, name: Seq<char>)
    requires
        place.inside,
        (n.kind is Try && n.part(Role::Operand) == Some(call)) || (n.kind is MethodCall && (n.name@ == "unwrap"@ || n.name@ == "expect"@) && n.part(Role::Receiver) == Some(call)),
        path_call(call) == Some(h.name@),
        ctx.ast.parts(Role::Entry).contains(h),
        h.kind is Function,
        h.part(Role::Body) == Some(inner),
        nodes(inner).contains(g),
        g.kind is Macro,
        g.last_word() == Some(name),
        ends_any(name, seq!["assert", "assert_eq", "assert_ne", "require", "ensure"]),
    ensures
        visit_all(ctx, seq![n] + rest, place).0.len() == 0,
{
    let v = |k: Node| validation(k);
    assert(v(nodes(inner)[nodes(inner).index_of(g)]));
    assert(validates(inner));
    let list = ctx.ast.parts(Role::Entry);
    let p = |k: Node| item_validates(k, h.name@);
    assert(p(list[list.index_of(h)]));
    assert(validated_by(ctx.ast, h.name@));
    assert(delegates_validation(n, ctx.ast));
    lemma_guard_silences(ctx, n, rest, place);
}

/// An operation both of whose operands are widened by a cast is not reported itself.
pub proof fn law_widened_operation_is_not_reported(ctx: ScanContext, n: Node, left: Node, right: Node, tl: Node, tr: Node, place: Place)
    requires
        n.kind is Binary,
        n.part(Role::Left) == Some(left),
        n.part(Role::Right) == Some(right),
        left.kind is Cast && right.kind is Cast,
        left.part(Role::Type) == Some(tl),
        right.part(Role::Type) == Some(tr),
        is_any(tl.text@, seq!["u128", "i128", "u64", "i64"]),
        is_any(tr.text@, seq!["u128", "i128", "u64", "i64"]),
    ensures
        visit(ctx, n, place).0.len() == 0 || visit(ctx, n, place) == visit_all(ctx, n.children@, place),
{
    assert(widened(left) && widened(right));
}

/// An operation on two constants is not reported, nor is anything below it.
pub proof fn law_constant_operation_is_silent(ctx: ScanContext, n: Node, left: Node, right: Node, place: Place)
    requires
        n.kind is Binary,
        n.part(Role::Left) == Some(left),
        n.part(Role::Right) == Some(right),
        is_any(n.name@, seq!["+", "-", "*", "/", "+=", "-=", "*=", "/="]),
        left.kind is LitInt || (left.kind is PathExpr && (left.last_word() matches Some(w) && screaming(w))),
        right.kind is LitInt || (right.kind is PathExpr && (right.last_word() matches Some(w) && screaming(w))),
    ensures
        visit(ctx, n, place).0.len() == 0,
{
    assert(const_like(left) && const_like(right));
}

/// An operation with a parameter of a floating-point type, or a cast to one, on either
/// side is not reported itself.
pub proof fn law_floating_operation_is_not_reported(ctx: ScanContext, f: Node, n: Node, left: Node, right: Node, e: Node, ty: Node)
    requires
        n.kind is Binary,
        n.part(Role::Left) == Some(left),
        n.part(Role::Right) == Some(right),
        e == left || e == right,
        e.kind is LitFloat || (e.kind is PathExpr && e.name@.len() > 0 && float_params(f).contains(e.name@)) || (e.kind is Cast && e.part(Role::Type) == Some(ty) && (ty.text@ == "f32"@ || ty.text@ == "f64"@)),
    ensures
        visit(ctx, n, inside(f)).0.len() == 0 || visit(ctx, n, inside(f)) == visit_all(ctx, n.children@, inside(f)),
{
    assert(floating(e, float_params(f)));
}

/// A function whose name says that it packs, calculates or tests is not looked at, nor
/// is one that clamps its values.
pub proof fn law_helper_by_name_is_silent(ctx: ScanContext, f: Node, place: Place)
    requires
        f.kind is Function || f.kind is Method,
        is_any(lower(f.name@), seq!["pack_into_slice", "unpack_from_slice", "pack", "unpack", "serialize", "deserialize", "try_from_slice"]) || begins_any(lower(f.name@), seq!["pack_", "unpack_"]) || mentions_any(lower(f.name@), seq!["_fee", "fee_", "swap", "curve", "interpolat", "_amount", "amount_", "_rate", "rate_", "_price", "price_"]) || begins_any(lower(f.name@), seq!["calculate", "compute", "convert"]) || is_any(lower(f.name@), seq!["ceil_div", "floor_div"]) || begins(lower(f.name@), "test_"@) || ends(lower(f.name@), "_test"@) || mentions(lower(f.name@), "_works"@) || mentions_any(f.body_text(), seq!["min (", ". min (", ". max (", "clamp"]),
    ensures
        visit(ctx, f, place) == (Seq::<Report>::empty(), place),
{
}

/// A comparison whose block does not leave is no guard.
pub proof fn law_comparing_alone_does_not_guard(n: Node, block: Node)
    requires
        n.part(Role::Then) == Some(block),
        block.kind is Block,
        block.children@.len() == 0,
    ensures
        !comparison_guard(n),
{
    assert(block.parts(Role::Entry).len() == 0);
}

/// A function that compares and leaves validates as one that asserts by a macro does.
pub proof fn law_comparing_helper_validates(block: Node, n: Node, cond: Node, m: Node, inner: Node, stmt: Node, leaf: Node)
    requires
        nodes(block).contains(n),
        n.kind is If,
        n.part(Role::Condition) == Some(cond),
        nodes(cond).contains(m),
        m.kind is Binary,
        is_any(m.name@, seq!["<", ">", "<=", ">=", "==", "!="]),
        n.part(Role::Then) == Some(inner),
        stands_in(inner, stmt, leaf),
        leaf.kind is Return,
    ensures
        validates(block),
{
    law_exit_statement_stops(inner, stmt, leaf, |k: Node| gives_up(k));
    let p = |k: Node| compares(k);
    assert(p(nodes(cond)[nodes(cond).index_of(m)]));
    assert(comparison_guard(n));
    let q = |k: Node| comparison_guard(k);
    assert(q(nodes(block)[nodes(block).index_of(n)]));
}

/// A cast widens if and only if it is to a wide type.
pub proof fn law_only_wide_casts_widen(e: Node, ty: Node)
    requires
        e.kind is Cast,
        e.part(Role::Type) == Some(ty),
    ensures
        widened(e) == is_any(ty.text@, seq!["u128", "i128", "u64", "i64"]),
{
}

/// An item validates under a name only if a function of that name in it does.
pub proof fn law_validation_is_by_name(item: Node, name: Seq<char>)
    requires
        item_validates(item, name),
    ensures
        (item.kind is Function && item.name@ == name) || ((item.kind is Impl || item.kind is Module) && exists|k: int| 0 <= k < item.parts(Role::Entry).len() && (#[trigger] item.parts(Role::Entry)[k]).name@ == name && item.parts(Role::Entry)[k].part(Role::Body) is Some),
{
    if item.kind is Impl {
        let p = |m: Node| m.kind is Method && validates_as(m, name);
        let k = choose|k: int| 0 <= k < item.parts(Role::Entry).len() && #[trigger] p(item.parts(Role::Entry)[k]);
        assert(item.parts(Role::Entry)[k].name@ == name);
    } else if item.kind is Module {
        let p = |m: Node| m.kind is Function && validates_as(m, name);
        let k = choose|k: int| 0 <= k < item.parts(Role::Entry).len() && #[trigger] p(item.parts(Role::Entry)[k]);
        assert(item.parts(Role::Entry)[k].name@ == name);
    }
}

} // verus!
