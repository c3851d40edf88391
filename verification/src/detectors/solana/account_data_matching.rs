//! Account data whose fields nobody looks at.
use vstd::prelude::*;
use crate::attributes::{
    carries_test, cfg_mentions_test, has_cfg_mentioning_test, has_test_attribute,
    outside_functions_and_cfg_tests,
};
use crate::calls::{called_names, get_called_names};
use crate::context::ScanContext;
use crate::detector::{Detector, Profile, raise, raised, RuleInfo, stamped};
use crate::finding::{Chain, Confidence, Finding, Report, Severity};
use crate::functions::{
    find_first, first_fn_in, law_only_function_is_found, lemma_first_function, only_function,
};
use crate::markers::SOLANA_MARKERS;
use crate::search::{finds_ended, mentions_ended};
use crate::syntax::{Kind, Node, Role};
use crate::text::{
    any_text, ascii_lower, contains, contains_any, is_any, join2, join3, mentions, mentions_any,
    same_as_any, some_text, texts, to_ascii_lowercase,
};
use crate::walk::{
    collect_findings, collect_names, leads_openly, lemma_name_is_listed, lemma_reports_from,
    lemma_sealed, lemma_spoken_of, names_of, nodes, nodes_in, opt_report, opt_text, reports_of,
    speaks_of, walk, walk_nodes,
};

verus! {

/// Reports functions that read account data and validate none of its fields.
pub struct AccountDataMatchingDetector;

/// The rule's description of itself.
pub open spec fn profile() -> Profile {
    Profile {
        id: "SOL-017"@,
        name: "account-data-matching"@,
        description: "Detects account data deserialization without field validation"@,
        severity: Severity::High,
        confidence: Confidence::Medium,
        chain: Chain::Solana,
    }
}

/// The rule's description of itself.
fn info() -> (r: RuleInfo)
    ensures
        r@ == profile(),
{
    RuleInfo {
        id: "SOL-017",
        name: "account-data-matching",
        description: "Detects account data deserialization without field validation",
        severity: Severity::High,
        confidence: Confidence::Medium,
        chain: Chain::Solana,
    }
}

/// Words in the names of tests and of functions that validate or parse.
pub const UTILITY_WORDS: [&'static str; 6] = [
    "validate",
    "verify",
    "check",
    "parse",
    "unpack",
    "test",
];

/// How Anchor's account type is spelled.
pub const ANCHOR_ACCOUNT: [&'static str; 2] = ["Account <", "Account<"];

/// How a borrow of account data is spelled.
pub const BORROWS: [&'static str; 3] = ["try_borrow_data", "data . borrow", "data.borrow"];

/// How a deserialization is spelled.
pub const DESERIALIZERS: [&'static str; 2] = ["try_from_slice", "deserialize"];

/// Words of a validation.
pub const VALIDATIONS: [&'static str; 12] = [
    "assert_eq",
    "assert_ne",
    "= =",
    "! =",
    "==",
    "!=",
    "require",
    "discriminator",
    "DISCRIMINATOR",
    "is_initialized",
    "IsInitialized",
    "try_deserialize (",
];

/// Words of a failing arm.
pub const FAILURES: [&'static str; 2] = ["Err", "err !"];

/// Words in the names of functions that validate.
pub const VALIDATOR_WORDS: [&'static str; 7] = [
    "validate",
    "verify",
    "check",
    "assert",
    "ensure",
    "require",
    "guard",
];

/// How a byte slice type is spelled.
pub const BYTE_SLICES: [&'static str; 2] = ["[u8]", "[ u8 ]"];

/// The usual names of instruction data.
pub const PAYLOADS: [&'static str; 3] = ["instruction_data", "input", "ix_data"];

/// How a call that deserializes its argument begins.
pub const DESERIALIZING_CALLS: [&'static str; 6] = [
    "try_from_slice (",
    "try_from_slice (& ",
    "try_from_slice (& mut ",
    "deserialize (",
    "deserialize (& ",
    "deserialize (& mut ",
];

/// The body validates what it has read.
pub open spec fn validates(body: Seq<char>) -> bool {
    ||| mentions_any(body, VALIDATIONS@)
    ||| mentions(body, "match"@) && mentions_any(body, FAILURES@)
}

/// The name says that the function validates.
pub open spec fn validatorish(name: Seq<char>) -> bool {
    mentions_any(ascii_lower(name), VALIDATOR_WORDS@)
}

/// The name of a parameter that holds raw bytes.
pub open spec fn byte_param(p: Node) -> Option<Seq<char>> {
    match (p.part(Role::Type), p.part(Role::Pattern)) {
        (Some(ty), Some(pat)) => if p.kind is Param && pat.kind is PatIdent && (mentions_any(
            ty.text@,
            BYTE_SLICES@,
        ) || is_any(pat.name@, PAYLOADS@)) {
            Some(pat.name@)
        } else {
            None
        },
        _ => None,
    }
}

/// The parameters of `f` that hold raw bytes.
pub open spec fn byte_params(f: Node) -> Seq<Seq<char>> {
    names_of(f.parts(Role::Param), |p: Node| byte_param(p))
}

/// A call of the body deserializes `param`, or what is reached through it.
pub open spec fn deserializes(body: Seq<char>, param: Seq<char>) -> bool {
    exists|i: int|
        0 <= i < DESERIALIZING_CALLS@.len() && mentions_ended(
            body,
            (#[trigger] DESERIALIZING_CALLS@[i])@ + param,
        )
}

/// A call of the body deserializes one of `params`.
pub open spec fn deserializes_any(body: Seq<char>, params: Seq<Seq<char>>) -> bool {
    some_text(params, |p: Seq<char>| deserializes(body, p))
}

/// The function `name` of the file validates, by its name and by its body.
pub open spec fn helper_validates(file: Node, name: Seq<char>) -> bool {
    validatorish(name) && (first_fn_in(file, name) matches Some(helper) && validates(
        helper.body_text(),
    ))
}

/// Some function that `f` calls validates.
pub open spec fn delegates(file: Node, f: Node) -> bool {
    f.part(Role::Body) matches Some(body) && some_text(
        called_names(body),
        |name: Seq<char>| helper_validates(file, name),
    )
}

/// The function is not looked at.
pub open spec fn skipped(f: Node) -> bool {
    ||| mentions_any(f.name@, UTILITY_WORDS@)
    ||| carries_test(f)
    ||| mentions_any(f.text@, ANCHOR_ACCOUNT@) && mentions(f.text@, "Context"@)
}

/// The body reads account data, or deserializes something that is no parameter of
/// raw bytes.
pub open spec fn reads_data(f: Node) -> bool {
    let body = f.body_text();
    ||| mentions_any(body, BORROWS@)
    ||| mentions_any(body, DESERIALIZERS@) && !deserializes_any(body, byte_params(f))
}

/// `f` reads account data, and neither it nor what it calls validates it.
pub open spec fn unvalidated(file: Node, f: Node) -> bool {
    &&& f.kind is Function
    &&& !skipped(f)
    &&& reads_data(f)
    &&& !validates(f.body_text())
    &&& !delegates(file, f)
}

/// The report on `f`, if there is one.
pub open spec fn report_on(ctx: ScanContext, f: Node) -> Option<Report> {
    if unvalidated(ctx.ast, f) {
        Some(
            raised(
                profile(),
                ctx,
                Confidence::Medium,
                f.line,
                f.column,
                "Function '"@ + f.name@
                    + "' borrows/deserializes account data without field validation"@,
                "Validate deserialized account fields (e.g., assert_eq!, require!, discriminator check) before using the data, or use Anchor's Account<'info, T>"@,
            ),
        )
    } else {
        None
    }
}

/// Whether the body validates what it has read.
pub fn body_has_inline_validation(body_src: &str) -> (b: bool)
    ensures
        b == validates(body_src@),
{
    contains_any(body_src, VALIDATIONS.as_slice()) || (contains(body_src, "match") && contains_any(
        body_src,
        FAILURES.as_slice(),
    ))
}

/// Whether the name says that the function validates.
pub fn is_validatorish_name(name: &str) -> (b: bool)
    ensures
        b == validatorish(name@),
{
    contains_any(to_ascii_lowercase(name).as_str(), VALIDATOR_WORDS.as_slice())
}

/// The parameters of `f` that hold raw bytes.
pub fn byte_slice_param_names(f: &Node) -> (r: Vec<String>)
    ensures
        texts(r@) == byte_params(*f),
{
    let list = f.get_parts(Role::Param);
    collect_names(
        &list,
        |p: &Node| -> (s: Option<String>)
            ensures
                opt_text(s) == byte_param(*p)
        {
            match (p.get_part(Role::Type), p.get_part(Role::Pattern)) {
                (Some(ty), Some(pat)) => if matches!(p.kind, Kind::Param) && matches!(
                    pat.kind,
                    Kind::PatIdent
                ) && (contains_any(ty.text.as_str(), BYTE_SLICES.as_slice()) || same_as_any(
                    pat.name.as_str(),
                    PAYLOADS.as_slice(),
                )) {
                    Some(pat.name.clone())
                } else {
                    None
                },
                _ => None,
            }
        },
        Ghost(|p: Node| byte_param(p)),
    )
}

/// Whether a call of the body deserializes `param`.
fn deserializes_param(body: &str, param: &str) -> (b: bool)
    ensures
        b == deserializes(body@, param@),
{
    let list = DESERIALIZING_CALLS.as_slice();
    let mut i: usize = 0;
    while i < list.len()
        invariant
            i <= list@.len(),
            list@ == DESERIALIZING_CALLS@,
            forall|j: int|
                0 <= j < i ==> !mentions_ended(
                    body@,
                    (#[trigger] DESERIALIZING_CALLS@[j])@ + param@,
                ),
        decreases list@.len() - i,
    {
        assert(list@[i as int] == DESERIALIZING_CALLS@[i as int]);
        if finds_ended(body, join2(list[i], param).as_str()) {
            return true;
        }
        i = i + 1;
    }
    false
}

/// Whether a call of the body deserializes one of `params`.
pub fn deserializes_byte_slice(body_src: &str, params: &Vec<String>) -> (b: bool)
    ensures
        b == deserializes_any(body_src@, texts(params@)),
{
    any_text(
        params,
        |p: &str| -> (r: bool)
            ensures
                r == deserializes(body_src@, p@)
        { deserializes_param(body_src, p) },
        Ghost(|p: Seq<char>| deserializes(body_src@, p)),
    )
}

/// Whether some function that `f` calls validates.
pub fn has_delegated_validation(file: &Node, f: &Node) -> (b: bool)
    ensures
        b == delegates(*file, *f),
{
    match f.get_part(Role::Body) {
        Some(body) => {
            let called = get_called_names(body);
            let list = nodes_in(file);
            any_text(
                &called,
                |name: &str| -> (r: bool)
                    ensures
                        r == helper_validates(*file, name@)
                {
                    is_validatorish_name(name) && (match find_first(&list, name) {
                        Some(helper) => body_has_inline_validation(helper.get_body_text()),
                        None => false,
                    })
                },
                Ghost(|name: Seq<char>| helper_validates(*file, name)),
            )
        },
        None => false,
    }
}

impl AccountDataMatchingDetector {
    /// The finding on `f`, if there is one.
    pub fn check(&self, ctx: &ScanContext, f: &Node) -> (r: Option<Finding>)
        ensures
            opt_report(r) == report_on(*ctx, *f),
    {
        match f.kind {
            Kind::Function => {},
            _ => {
                return None;
            },
        }
        if contains_any(f.name.as_str(), UTILITY_WORDS.as_slice()) || has_test_attribute(f) || (
        contains_any(f.text.as_str(), ANCHOR_ACCOUNT.as_slice()) && contains(
            f.text.as_str(),
            "Context",
        )) {
            return None;
        }
        let body = f.get_body_text();
        if !contains_any(body, BORROWS.as_slice()) {
            if !contains_any(body, DESERIALIZERS.as_slice()) || deserializes_byte_slice(
                body,
                &byte_slice_param_names(f),
            ) {
                return None;
            }
        }
        if body_has_inline_validation(body) || has_delegated_validation(&ctx.ast, f) {
            return None;
        }
        let text = join3(
            "Function '",
            f.name.as_str(),
            "' borrows/deserializes account data without field validation",
        );
        Some(
            raise(
                &info(),
                ctx,
                Confidence::Medium,
                f.line,
                f.column,
                text,
                "Validate deserialized account fields (e.g., assert_eq!, require!, discriminator check) before using the data, or use Anchor's Account<'info, T>",
            ),
        )
    }
}

impl Detector for AccountDataMatchingDetector {
    open spec fn profile(&self) -> Profile {
        profile()
    }

    open spec fn reports_on(&self, ctx: ScanContext) -> Seq<Report> {
        if !mentions_any(ctx.source@, SOLANA_MARKERS@) {
            Seq::empty()
        } else {
            reports_of(walk(ctx.ast, outside_functions_and_cfg_tests()), |f: Node| report_on(ctx, f))
        }
    }

    fn id(&self) -> (r: &'static str) {
        info().id
    }

    fn name(&self) -> (r: &'static str) {
        info().name
    }

    fn description(&self) -> (r: &'static str) {
        info().description
    }

    fn severity(&self) -> (r: Severity) {
        info().severity
    }

    fn confidence(&self) -> (r: Confidence) {
        info().confidence
    }

    fn chain(&self) -> (r: Chain) {
        info().chain
    }

    fn detect(&self, ctx: &ScanContext) -> (r: Vec<Finding>) {
        if !contains_any(ctx.source.as_str(), SOLANA_MARKERS.as_slice()) {
            return Vec::new();
        }
        let list = walk_nodes(
            &ctx.ast,
            |n: &Node| -> (b: bool)
                ensures
                    b == outside_functions_and_cfg_tests()(*n)
            {
                !matches!(n.kind, Kind::Function)
                    && !(matches!(n.kind, Kind::Module) && has_cfg_mentioning_test(n))
            },
            Ghost(outside_functions_and_cfg_tests()),
        );
        collect_findings(
            &list,
            |f: &Node| -> (s: Option<Finding>)
                ensures
                    opt_report(s) == report_on(*ctx, *f)
            { self.check(ctx, f) },
            Ghost(|f: Node| report_on(*ctx, f)),
        )
    }

    proof fn law_findings_are_stamped(&self, ctx: ScanContext) {
        assert forall|i: int| 0 <= i < self.reports_on(ctx).len() implies stamped(
            #[trigger] self.reports_on(ctx)[i],
            self.profile(),
            ctx,
        ) by {
            lemma_reports_from(walk(ctx.ast, outside_functions_and_cfg_tests()), |f: Node| report_on(ctx, f), i);
        }
    }
}

/// Every finding has the confidence that the rule states of itself.
pub proof fn law_confidence_is_the_rules_own(ctx: ScanContext)
    ensures
        forall|i: int|
            0 <= i < AccountDataMatchingDetector.reports_on(ctx).len() ==> (
            #[trigger] AccountDataMatchingDetector.reports_on(ctx)[i]).confidence == profile().confidence,
{
    assert forall|i: int| 0 <= i < AccountDataMatchingDetector.reports_on(ctx).len() implies (
        #[trigger] AccountDataMatchingDetector.reports_on(ctx)[i]).confidence == profile().confidence by {
        lemma_reports_from(walk(ctx.ast, outside_functions_and_cfg_tests()), |f: Node| report_on(ctx, f), i);
    }
}

/// Nothing is reported on a file that shows no mark of a Solana program.
pub proof fn law_out_of_scope_is_silent(ctx: ScanContext)
    requires
        !mentions_any(ctx.source@, SOLANA_MARKERS@),
    ensures
        AccountDataMatchingDetector.reports_on(ctx).len() == 0,
{
}

/// Nothing is reported on a test function.
pub proof fn law_test_function_is_silent(ctx: ScanContext, f: Node)
    requires
        carries_test(f),
    ensures
        report_on(ctx, f) is None,
{
}

/// A module with a `cfg` that speaks of tests contributes no report, whatever it holds.
pub proof fn law_test_module_is_silent(ctx: ScanContext, m: Node)
    requires
        m.kind is Module,
        cfg_mentions_test(m),
    ensures
        reports_of(walk(m, outside_functions_and_cfg_tests()), |f: Node| report_on(ctx, f)) == Seq::<Report>::empty(),
{
    lemma_sealed(m, outside_functions_and_cfg_tests(), |f: Node| report_on(ctx, f));
}

/// A helper counts only where the file holds a function of its name whose body
/// validates.
pub proof fn law_helpers_are_resolved(file: Node, name: Seq<char>)
    requires
        helper_validates(file, name),
    ensures
        exists|i: int|
            0 <= i < nodes(file).len() && ({
                let h = #[trigger] nodes(file)[i];
                h.kind is Function && h.name@ == name && validates(h.body_text())
            }),
{
    lemma_first_function(nodes(file), name);
    let h = first_fn_in(file, name)->0;
    let i = nodes(file).index_of(h);
    assert(nodes(file)[i] == h);
}

/// What is reported on is spoken of, wherever in the file it stands.
proof fn lemma_reported(ctx: ScanContext, path: Seq<Node>, f: Node)
    requires
        leads_openly(path, ctx.ast, f),
        report_on(ctx, f) is Some,
        mentions_any(ctx.source@, seq!["solana_program", "anchor_lang", "AccountInfo", "ProgramResult", "solana_sdk"]),
    ensures
        speaks_of(AccountDataMatchingDetector.reports_on(ctx), f),
{
    lemma_spoken_of(path, outside_functions_and_cfg_tests(), |n: Node| report_on(ctx, n), "Function '"@, "' borrows/deserializes account data without field validation"@);
}

/// A function that borrows account data is reported, and so is one that deserializes
/// without taking bytes as a parameter, if the body checks no field and calls nothing
/// whose name speaks of validation.
pub proof fn law_unvalidated_data_is_reported(ctx: ScanContext, path: Seq<Node>, f: Node, body: Node)
    requires
        mentions_any(ctx.source@, seq!["solana_program", "anchor_lang", "AccountInfo", "ProgramResult", "solana_sdk"]),
        leads_openly(path, ctx.ast, f),
        f.kind is Function,
        f.parts(Role::Attribute).len() == 0,
        !mentions_any(f.name@, seq!["validate", "verify", "check", "parse", "unpack", "test"]),
        !mentions(f.text@, "Context"@) || !mentions_any(f.text@, seq!["Account <", "Account<"]),
        f.part(Role::Body) == Some(body),
        mentions_any(body.text@, seq!["try_borrow_data", "data . borrow", "data.borrow"]) || (mentions_any(body.text@, seq!["try_from_slice", "deserialize"]) && f.parts(Role::Param).len() == 0),
        !mentions_any(body.text@, seq!["assert_eq", "assert_ne", "= =", "! =", "==", "!=", "require", "discriminator", "DISCRIMINATOR", "is_initialized", "IsInitialized", "try_deserialize ("]),
        !mentions(body.text@, "match"@) || !mentions_any(body.text@, seq!["Err", "err !"]),
        forall|k: int| 0 <= k < called_names(body).len() ==> !mentions_any(ascii_lower(#[trigger] called_names(body)[k]), seq!["validate", "verify", "check", "assert", "ensure", "require", "guard"]),
    ensures
        speaks_of(AccountDataMatchingDetector.reports_on(ctx), f),
{
    let called = called_names(body);
    assert forall|k: int| 0 <= k < called.len() implies !validatorish(#[trigger] called[k]) by {}
    assert(!delegates(ctx.ast, f));
    if f.parts(Role::Param).len() == 0 {
        assert(byte_params(f).len() == 0);
    }
    assert(reads_data(f));
    lemma_reported(ctx, path, f);
}

/// What is reported borrows or deserializes, and checks no field itself.
pub proof fn law_reported_data_is_unvalidated(ctx: ScanContext, f: Node)
    requires
        report_on(ctx, f) is Some,
    ensures
        f.kind is Function,
        !mentions_any(f.name@, seq!["validate", "verify", "check", "parse", "unpack", "test"]),
        mentions_any(f.body_text(), seq!["try_borrow_data", "data . borrow", "data.borrow"]) || mentions_any(f.body_text(), seq!["try_from_slice", "deserialize"]),
        !mentions_any(f.body_text(), seq!["assert_eq", "assert_ne", "= =", "! =", "==", "!=", "require", "discriminator", "DISCRIMINATOR", "is_initialized", "IsInitialized", "try_deserialize ("]),
        !mentions(f.body_text(), "match"@) || !mentions_any(f.body_text(), seq!["Err", "err !"]),
{
}

/// A function that borrows nothing and deserializes the bytes that it is handed is not
/// reported.
pub proof fn law_payload_is_no_account_data(ctx: ScanContext, f: Node, k: int, ty: Node, pat: Node, call: Seq<char>)
    requires
        !mentions_any(f.body_text(), seq!["try_borrow_data", "data . borrow", "data.borrow"]),
        0 <= k < f.parts(Role::Param).len(),
        f.parts(Role::Param)[k].kind is Param,
        f.parts(Role::Param)[k].part(Role::Type) == Some(ty),
        f.parts(Role::Param)[k].part(Role::Pattern) == Some(pat),
        pat.kind is PatIdent,
        mentions_any(ty.text@, seq!["[u8]", "[ u8 ]"]) || is_any(pat.name@, seq!["instruction_data", "input", "ix_data"]),
        is_any(call, seq!["try_from_slice (", "try_from_slice (& ", "try_from_slice (& mut ", "deserialize (", "deserialize (& ", "deserialize (& mut "]),
        mentions_ended(f.body_text(), call + pat.name@),
    ensures
        report_on(ctx, f) is None,
{
    let g = |p: Node| byte_param(p);
    assert(g(f.parts(Role::Param)[k]) == Some(pat.name@));
    lemma_name_is_listed(f.parts(Role::Param), g, k);
    let list = byte_params(f);
    assert(is_any(call, DESERIALIZING_CALLS@));
    let d = |p: Seq<char>| deserializes(f.body_text(), p);
    assert(d(list[list.index_of(pat.name@)]));
    assert(deserializes_any(f.body_text(), list));
}

/// A function is not reported if it calls one of the file whose name speaks of
/// validation and whose body checks a field.
pub proof fn law_helper_may_validate(ctx: ScanContext, f: Node, body: Node, h: Node)
    requires
        f.part(Role::Body) == Some(body),
        only_function(nodes(ctx.ast), h),
        called_names(body).contains(h.name@),
        mentions_any(ascii_lower(h.name@), seq!["validate", "verify", "check", "assert", "ensure", "require", "guard"]),
        mentions_any(h.body_text(), seq!["assert_eq", "assert_ne", "= =", "! =", "==", "!=", "require", "discriminator", "DISCRIMINATOR", "is_initialized", "IsInitialized", "try_deserialize ("]),
    ensures
        report_on(ctx, f) is None,
{
    law_only_function_is_found(nodes(ctx.ast), h);
    let called = called_names(body);
    let p = |x: Seq<char>| helper_validates(ctx.ast, x);
    assert(p(called[called.index_of(h.name@)]));
    assert(delegates(ctx.ast, f));
}

/// A function that carries a test attribute of whatever framework is not reported.
pub proof fn law_marked_test_is_silent(ctx: ScanContext, f: Node, k: int)
    requires
        0 <= k < f.parts(Role::Attribute).len(),
        f.parts(Role::Attribute)[k].last_word() == Some("test"@),
    ensures
        report_on(ctx, f) is None,
{
    let p = |a: Node| a.last_word() == Some("test"@);
    assert(p(f.parts(Role::Attribute)[k]));
}

/// A parameter holds bytes if its type is one of bytes, or its name says so.
pub proof fn law_byte_parameters(p: Node, name: Seq<char>)
    requires
        byte_param(p) == Some(name),
    ensures
        p.kind is Param,
        p.part(Role::Pattern) matches Some(pat) && pat.kind is PatIdent && pat.name@ == name,
        is_any(name, seq!["instruction_data", "input", "ix_data"]) || (p.part(Role::Type) matches Some(ty) && mentions_any(ty.text@, seq!["[u8]", "[ u8 ]"])),
{
}

} // verus!
