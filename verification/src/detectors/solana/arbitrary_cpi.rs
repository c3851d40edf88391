//! Cross-program calls whose target anybody may choose.
use vstd::prelude::*;
use crate::attributes::outside_functions;
use crate::call_graph::{build_call_graph, CallGraph, last_named, lemma_described, top_functions};
use crate::calls::called_names;
use crate::context::ScanContext;
use crate::detector::{Detector, Profile, raise, raised, RuleInfo, stamped};
use crate::finding::{Chain, Confidence, Finding, Report, Severity};
use crate::functions::{
    find_first, first_function, law_only_function_is_found, lemma_first_function, only_function,
};
use crate::markers::SOLANA_MARKERS;
use crate::search::{
    find_from, finds_ended, finds_marked, first_match, get_next_mark, lemma_first_match, marked,
    matches_at, mentions_ended, next_mark,
};
use crate::syntax::{Kind, Node, Role};
use crate::text::{
    any_text, ascii_gap, ascii_words_of, begins_any, chars_of, contains_any, is_screaming_snake,
    join3, last_nonempty, lower, mentions, mentions_any, occurs_at, screaming, some_text, split,
    starts_with_any, texts, to_lowercase, trim_text, trimmed, until, until_text, whitespace,
    word_char,
};
use crate::walk::{
    collect_findings, leads_openly, lemma_reports_from, lemma_spoken_of, opt_report, reports_of,
    speaks_of, walk, walk_nodes,
};

verus! {

/// Reports functions that call another program and never verify which one.
pub struct ArbitraryCpiDetector;

/// The rule's description of itself.
pub open spec fn profile() -> Profile {
    Profile {
        id: "SOL-006"@,
        name: "arbitrary-cpi"@,
        description: "Detects CPI calls where the program target comes from untrusted input"@,
        severity: Severity::Critical,
        confidence: Confidence::Medium,
        chain: Chain::Solana,
    }
}

/// The rule's description of itself.
fn info() -> (r: RuleInfo)
    ensures
        r@ == profile(),
{
    RuleInfo {
        id: "SOL-006",
        name: "arbitrary-cpi",
        description: "Detects CPI calls where the program target comes from untrusted input",
        severity: Severity::Critical,
        confidence: Confidence::Medium,
        chain: Chain::Solana,
    }
}

/// Framework sources, which are the validation layer themselves.
pub const FRAMEWORK_PATHS: [&'static str; 10] = [
    "/anchor-spl/",
    "/anchor_spl/",
    "/anchor/spl/",
    "/anchor-lang/",
    "/anchor_lang/",
    "/anchor/lang/",
    "/spl-token/",
    "/spl_token/",
    "/codegen/",
    "/interface/src/",
];

/// How a cross-program call is spelled.
pub const CPI_CALLS: [&'static str; 5] = [
    "invoke (",
    "invoke(",
    "invoke_signed",
    "CpiContext :: new",
    "CpiContext::new",
];

/// How the names of wrappers with a fixed target begin.
pub const WRAPPER_PREFIXES: [&'static str; 12] = [
    "spl_",
    "create_",
    "close_",
    "initialize_",
    "transfer_",
    "mint_",
    "burn_",
    "approve_",
    "revoke_",
    "freeze_",
    "thaw_",
    "sync_",
];

/// Words in the names of wrappers with a fixed target.
pub const WRAPPER_WORDS: [&'static str; 2] = ["_invoke", "_cpi"];

/// Words in the names of functions that check.
pub const CHECK_WORDS: [&'static str; 6] = [
    "check",
    "validate",
    "verify",
    "assert",
    "require",
    "ensure",
];

/// How a comparison of a program's id is spelled.
pub const COMPARISONS: [&'static str; 11] = [
    "program_id ==",
    "== program_id",
    "program_id !=",
    "!= program_id",
    "key () ==",
    "key() ==",
    "key () !=",
    "key() !=",
    ". key ==",
    ". key !=",
    "IncorrectProgramId",
];

/// Words of a target that is written into the code.
pub const KNOWN_PROGRAMS: [&'static str; 13] = [
    "system_program ::",
    "system_program",
    "token :: ID",
    "token :: id",
    "spl_token :: id",
    "spl_token :: ID",
    "token_program",
    "Program <",
    "system_instruction",
    "spl_token",
    "spl_associated",
    "rent ::",
    "Rent ::",
];

/// Words of a body that has a key to compare.
pub const KEYS: [&'static str; 2] = [". key", "program_id"];

/// How an asserted comparison is spelled.
pub const KEY_ASSERTIONS: [&'static str; 6] = [
    "require_keys_eq !",
    "require_keys_neq !",
    "require_eq !",
    "require_neq !",
    "assert_eq !",
    "assert_ne !",
];

/// What ends the value of a field.
pub open spec fn value_end(c: char) -> bool {
    c == ',' || c == ';' || c == '}'
}

/// A character that can stand in a path, or in front of one.
pub open spec fn path_char(c: char) -> bool {
    word_char(c) || whitespace(c) || c == ':' || c == '&' || c == '*'
}

/// The value is a path, as far as its characters tell.
pub open spec fn path_like(value: Seq<char>) -> bool {
    forall|i: int| 0 <= i < value.len() ==> path_char(#[trigger] value[i])
}

/// The `:: id` at `i` is called.
pub open spec fn id_called_at(value: Seq<char>, i: int) -> bool {
    occurs_at(value, ":: id"@, i) && next_mark(value, i + ":: id"@.len()) == Some('(')
}

/// A function `id` that belongs to something is called.
pub open spec fn calls_id(value: Seq<char>) -> bool {
    exists|i: int| #[trigger] id_called_at(value, i)
}

/// The value is a program's id that is fixed at compile time: a constant `ID`, or
/// what a function `id` gives, that belongs to something, or a constant by its
/// spelling.
pub open spec fn const_program(value: Seq<char>) -> bool {
    &&& value.len() > 0
    &&& {
        ||| mentions_ended(value, ":: ID"@)
        ||| calls_id(value)
        ||| path_like(value) && (last_nonempty(
            split(value, |c: char| ascii_gap(c)),
        ) matches Some(id) && screaming(id))
    }
}

/// The value that stands at `from`.
pub open spec fn value_at(body: Seq<char>, from: int) -> Seq<char> {
    trimmed(until(body.skip(from), |c: char| value_end(c)))
}

/// From `from` on, some `program_id :` is followed by a value that is fixed at
/// compile time.
pub open spec fn const_target_from(body: Seq<char>, from: int) -> bool
    decreases body.len() - from,
{
    match first_match(body, "program_id :"@, from) {
        Some(i) => {
            let next = i + "program_id :"@.len();
            if from <= i && from < next <= body.len() {
                const_program(value_at(body, next)) || const_target_from(body, next)
            } else {
                false
            }
        },
        None => false,
    }
}

/// The body pins the program that it calls.
pub open spec fn pins_program(body: Seq<char>) -> bool {
    ||| mentions_any(body, COMPARISONS@)
    ||| mentions_any(body, KNOWN_PROGRAMS@)
    ||| mentions_any(body, KEYS@) && mentions_any(body, KEY_ASSERTIONS@)
    ||| const_target_from(body, 0)
}

/// The function `name`, directly in the file, checks and pins a program.
pub open spec fn helper_pins(file: Node, name: Seq<char>) -> bool {
    mentions_any(lower(name), CHECK_WORDS@) && (first_function(
        file.parts(Role::Entry),
        name,
    ) matches Some(helper) && pins_program(helper.body_text()))
}

/// Some function that `name`, directly in the file, calls pins a program.
pub open spec fn delegates(file: Node, name: Seq<char>) -> bool {
    match last_named(top_functions(file.parts(Role::Entry)), name) {
        Some(f) => f.part(Role::Body) matches Some(body) && some_text(
            called_names(body),
            |c: Seq<char>| helper_pins(file, c),
        ),
        None => false,
    }
}

/// Some function that `graph` says is called by `name` pins a program.
pub open spec fn delegates_by(graph: CallGraph, file: Node, name: Seq<char>) -> bool {
    graph.lookup(name) matches Some(info) && some_text(
        texts(info.calls@),
        |c: Seq<char>| helper_pins(file, c),
    )
}

/// Where the graph describes the file, it says who delegates.
proof fn lemma_delegates(graph: CallGraph, file: Node, name: Seq<char>)
    requires
        graph.describes(file),
    ensures
        delegates_by(graph, file, name) == delegates(file, name),
{
    lemma_described(graph, file, name);
    if let Some(info) = graph.lookup(name) {
        let f = last_named(top_functions(file.parts(Role::Entry)), name)->0;
        assert(info.describes(f));
        assert(f.part(Role::Body) is None ==> texts(info.calls@).len() == 0);
    }
}

/// `f` calls another program and does not verify itself which one.
pub open spec fn unpinned(f: Node) -> bool {
    &&& f.kind is Function
    &&& !marked(f.text@, "Program"@, '<')
    &&& mentions_any(f.body_text(), CPI_CALLS@)
    &&& !begins_any(f.name@, WRAPPER_PREFIXES@)
    &&& !mentions_any(f.name@, WRAPPER_WORDS@)
    &&& !pins_program(f.body_text())
}

/// `f` calls another program, and nothing verifies which one.
pub open spec fn arbitrary(file: Node, f: Node) -> bool {
    unpinned(f) && !delegates(file, f.name@)
}

/// What is reported of `f`.
pub open spec fn report_of(ctx: ScanContext, f: Node) -> Report {
    raised(
        profile(),
        ctx,
        Confidence::Medium,
        f.line,
        f.column,
        "Function '"@ + f.name@ + "' performs CPI without verifying the target program"@,
        "Validate the program account key against an expected program ID, or use Anchor's `Program<'info, T>` constraint"@,
    )
}

/// The report on `f`, if there is one, where `graph` says what the functions of
/// `file` call.
pub open spec fn report_among(
    ctx: ScanContext,
    file: Node,
    graph: CallGraph,
    f: Node,
) -> Option<Report> {
    if unpinned(f) && !delegates_by(graph, file, f.name@) {
        Some(report_of(ctx, f))
    } else {
        None
    }
}

/// The report on `f`, if there is one.
pub open spec fn report_on(ctx: ScanContext, f: Node) -> Option<Report> {
    if arbitrary(ctx.ast, f) {
        Some(report_of(ctx, f))
    } else {
        None
    }
}

/// The last text of `list` that is not empty.
fn get_last_nonempty(list: &Vec<String>) -> (r: Option<&str>)
    ensures
        r.is_some() == last_nonempty(texts(list@)).is_some(),
        r.is_some() ==> Some(r.unwrap()@) == last_nonempty(texts(list@)),
{
    let ghost all = texts(list@);
    let mut i: usize = list.len();
    assert(all.take(i as int) =~= all);
    while i > 0
        invariant
            i <= list@.len(),
            all == texts(list@),
            last_nonempty(all) == last_nonempty(all.take(i as int)),
        decreases i,
    {
        assert(all.take(i as int).last() == list@[i - 1]@);
        assert(all.take(i as int).drop_last() =~= all.take(i as int - 1));
        if !list[i - 1].as_str().is_empty() {
            return Some(list[i - 1].as_str());
        }
        i = i - 1;
    }
    None
}

/// Whether the value is a path, as far as its characters tell.
fn is_path_like(value: &str) -> (b: bool)
    ensures
        b == path_like(value@),
{
    let chars = chars_of(value);
    let mut i: usize = 0;
    while i < chars.len()
        invariant
            i <= chars@.len(),
            chars@ == value@,
            forall|j: int| 0 <= j < i ==> path_char(#[trigger] value@[j]),
        decreases chars@.len() - i,
    {
        let c = chars[i];
        if !(c.is_alphanumeric() || c == '_' || c.is_whitespace() || c == ':' || c == '&' || c
            == '*') {
            assert(!path_char(value@[i as int]));
            return false;
        }
        i = i + 1;
    }
    true
}

/// Whether a function `id` that belongs to something is called.
fn is_id_call(value: &str) -> (b: bool)
    ensures
        b == calls_id(value@),
{
    let chars = chars_of(value);
    let needle = chars_of(":: id");
    if needle.len() > chars.len() {
        return false;
    }
    let last: usize = chars.len() - needle.len();
    let mut i: usize = 0;
    while i <= last
        invariant
            chars@ == value@,
            needle@ == ":: id"@,
            last == chars@.len() - needle@.len(),
            chars@.len() <= usize::MAX,
            forall|j: int| 0 <= j < i ==> !#[trigger] id_called_at(value@, j),
        decreases last + 1 - i,
    {
        if matches_at(&chars, &needle, i) {
            if let Some('(') = get_next_mark(&chars, i + needle.len()) {
                assert(id_called_at(value@, i as int));
                return true;
            }
        }
        if i == usize::MAX {
            return false;
        }
        i = i + 1;
    }
    false
}

/// Whether the value is a program's id that is fixed at compile time.
pub fn value_is_const_program_id(value: &str) -> (b: bool)
    ensures
        b == const_program(value@),
{
    if value.is_empty() {
        return false;
    }
    if finds_ended(value, ":: ID") || is_id_call(value) {
        return true;
    }
    if !is_path_like(value) {
        return false;
    }
    let pieces = ascii_words_of(value);
    match get_last_nonempty(&pieces) {
        Some(id) => is_screaming_snake(id),
        None => false,
    }
}

/// Whether some `program_id :` is followed by a value that is fixed at compile
/// time.
pub fn has_hardcoded_program_id_init(body_src: &str) -> (b: bool)
    ensures
        b == const_target_from(body_src@, 0),
{
    let body = chars_of(body_src);
    let needle = chars_of("program_id :");
    proof {
        reveal_strlit("program_id :");
    }
    let total = body.len();
    let mut from: usize = 0;
    loop
        invariant
            body@ == body_src@,
            needle@ == "program_id :"@,
            needle@.len() > 0,
            total == body@.len(),
            from <= total,
            const_target_from(body_src@, 0) == const_target_from(body_src@, from as int),
        decreases total - from,
    {
        proof {
            lemma_first_match(body@, needle@, from as int);
        }
        match find_from(&body, &needle, from) {
            Some(i) => {
                let next: usize = i + needle.len();
                let raw = until_text(
                    &body,
                    next,
                    |c: char| -> (b: bool)
                        ensures
                            b == value_end(c)
                    { c == ',' || c == ';' || c == '}' },
                    Ghost(|c: char| value_end(c)),
                );
                if value_is_const_program_id(trim_text(&raw).as_str()) {
                    return true;
                }
                from = next;
            },
            None => {
                return false;
            },
        }
    }
}

/// Whether the body pins the program that it calls.
pub fn has_program_check(body_src: &str) -> (b: bool)
    ensures
        b == pins_program(body_src@),
{
    contains_any(body_src, COMPARISONS.as_slice()) || contains_any(
        body_src,
        KNOWN_PROGRAMS.as_slice(),
    ) || (contains_any(body_src, KEYS.as_slice()) && contains_any(
        body_src,
        KEY_ASSERTIONS.as_slice(),
    )) || has_hardcoded_program_id_init(body_src)
}

/// A file with what is known of its calls.
pub struct CpiVisitor<'a> {
    pub file: &'a Node,
    pub call_graph: CallGraph,
}

impl<'a> CpiVisitor<'a> {
    /// Whether some function that `fn_name` calls pins a program.
    pub fn helper_validates_program(&self, fn_name: &str) -> (b: bool)
        ensures
            b == delegates_by(self.call_graph, *self.file, fn_name@),
    {
        let items = self.file.get_parts(Role::Entry);
        let ghost file = *self.file;
        match self.call_graph.get(fn_name) {
            Some(info) => any_text(
                &info.calls,
                |c: &str| -> (r: bool)
                    ensures
                        r == helper_pins(file, c@)
                {
                    contains_any(to_lowercase(c).as_str(), CHECK_WORDS.as_slice()) && (
                    match find_first(&items, c) {
                        Some(helper) => has_program_check(helper.get_body_text()),
                        None => false,
                    })
                },
                Ghost(|c: Seq<char>| helper_pins(file, c)),
            ),
            None => false,
        }
    }
}

impl ArbitraryCpiDetector {
    /// The finding on `f`, if there is one, where `visitor` knows the calls of the
    /// file.
    pub fn check(&self, ctx: &ScanContext, visitor: &CpiVisitor<'_>, f: &Node) -> (r: Option<
        Finding,
    >)
        ensures
            opt_report(r) == report_among(*ctx, *visitor.file, visitor.call_graph, *f),
    {
        match f.kind {
            Kind::Function => {},
            _ => {
                return None;
            },
        }
        let name = f.name.as_str();
        let body = f.get_body_text();
        if finds_marked(f.text.as_str(), "Program", '<') || !contains_any(
            body,
            CPI_CALLS.as_slice(),
        ) || starts_with_any(name, WRAPPER_PREFIXES.as_slice()) || contains_any(
            name,
            WRAPPER_WORDS.as_slice(),
        ) {
            return None;
        }
        if has_program_check(body) || visitor.helper_validates_program(name) {
            return None;
        }
        let text = join3(
            "Function '",
            name,
            "' performs CPI without verifying the target program",
        );
        Some(
            raise(
                &info(),
                ctx,
                Confidence::Medium,
                f.line,
                f.column,
                text,
                "Validate the program account key against an expected program ID, or use Anchor's `Program<'info, T>` constraint",
            ),
        )
    }
}

impl Detector for ArbitraryCpiDetector {
    open spec fn profile(&self) -> Profile {
        profile()
    }

    open spec fn reports_on(&self, ctx: ScanContext) -> Seq<Report> {
        if !mentions_any(ctx.source@, SOLANA_MARKERS@)
            || mentions_any(ctx.file_path@, FRAMEWORK_PATHS@) {
            Seq::empty()
        } else {
            reports_of(walk(ctx.ast, outside_functions()), |f: Node| report_on(ctx, f))
        }
    }

    fn id(&self) -> (r: &'static str) {
        info().id
    }

    fn name(&self) -> (r: &'static str) {
        info().name
    }

    fn description(&self) -> (r: &'static str) {
        info().description
    }

    fn severity(&self) -> (r: Severity) {
        info().severity
    }

    fn confidence(&self) -> (r: Confidence) {
        info().confidence
    }

    fn chain(&self) -> (r: Chain) {
        info().chain
    }

    fn detect(&self, ctx: &ScanContext) -> (r: Vec<Finding>) {
        if !contains_any(ctx.source.as_str(), SOLANA_MARKERS.as_slice())
            || contains_any(ctx.file_path.as_str(), FRAMEWORK_PATHS.as_slice()) {
            return Vec::new();
        }
        let visitor = CpiVisitor { file: &ctx.ast, call_graph: build_call_graph(&ctx.ast) };
        let list = walk_nodes(
            &ctx.ast,
            |n: &Node| -> (b: bool)
                ensures
                    b == outside_functions()(*n)
            { !matches!(n.kind, Kind::Function) },
            Ghost(outside_functions()),
        );
        collect_findings(
            &list,
            |f: &Node| -> (s: Option<Finding>)
                ensures
                    opt_report(s) == report_on(*ctx, *f)
            {
                proof {
                    lemma_delegates(visitor.call_graph, ctx.ast, f.name@);
                }
                self.check(ctx, &visitor, f)
            },
            Ghost(|f: Node| report_on(*ctx, f)),
        )
    }

    proof fn law_findings_are_stamped(&self, ctx: ScanContext) {
        assert forall|i: int| 0 <= i < self.reports_on(ctx).len() implies stamped(
            #[trigger] self.reports_on(ctx)[i],
            self.profile(),
            ctx,
        ) by {
            lemma_reports_from(walk(ctx.ast, outside_functions()), |f: Node| report_on(ctx, f), i);
        }
    }
}

/// Every finding has the confidence that the rule states of itself.
pub proof fn law_confidence_is_the_rules_own(ctx: ScanContext)
    ensures
        forall|i: int|
            0 <= i < ArbitraryCpiDetector.reports_on(ctx).len() ==> (
            #[trigger] ArbitraryCpiDetector.reports_on(ctx)[i]).confidence == profile().confidence,
{
    assert forall|i: int| 0 <= i < ArbitraryCpiDetector.reports_on(ctx).len() implies (
        #[trigger] ArbitraryCpiDetector.reports_on(ctx)[i]).confidence == profile().confidence by {
        lemma_reports_from(walk(ctx.ast, outside_functions()), |f: Node| report_on(ctx, f), i);
    }
}

/// Nothing is reported on a file that shows no mark of a Solana program, or that belongs to a framework.
pub proof fn law_out_of_scope_is_silent(ctx: ScanContext)
    requires
        !mentions_any(ctx.source@, SOLANA_MARKERS@)
            || mentions_any(ctx.file_path@, FRAMEWORK_PATHS@),
    ensures
        ArbitraryCpiDetector.reports_on(ctx).len() == 0,
{
}

/// A helper counts only where the file holds a function of its name whose body pins a
/// program.
pub proof fn law_helpers_are_resolved(file: Node, name: Seq<char>)
    requires
        helper_pins(file, name),
    ensures
        exists|i: int|
            0 <= i < file.parts(Role::Entry).len() && ({
                let h = #[trigger] file.parts(Role::Entry)[i];
                h.kind is Function && h.name@ == name && pins_program(h.body_text())
            }),
{
    lemma_first_function(file.parts(Role::Entry), name);
    let h = first_function(file.parts(Role::Entry), name)->0;
    let i = file.parts(Role::Entry).index_of(h);
    assert(file.parts(Role::Entry)[i] == h);
}

/// What is reported on is spoken of, wherever in the file it stands.
proof fn lemma_reported(ctx: ScanContext, path: Seq<Node>, f: Node)
    requires
        leads_openly(path, ctx.ast, f),
        report_on(ctx, f) is Some,
        mentions_any(ctx.source@, seq!["solana_program", "anchor_lang", "AccountInfo", "ProgramResult", "solana_sdk"]),
        !mentions_any(ctx.file_path@, seq!["/anchor-spl/", "/anchor_spl/", "/anchor/spl/", "/anchor-lang/", "/anchor_lang/", "/anchor/lang/", "/spl-token/", "/spl_token/", "/codegen/", "/interface/src/"]),
    ensures
        speaks_of(ArbitraryCpiDetector.reports_on(ctx), f),
{
    lemma_spoken_of(path, outside_functions(), |n: Node| report_on(ctx, n), "Function '"@, "' performs CPI without verifying the target program"@);
}

/// A function that calls a program is reported, whatever way it calls it, if it
/// compares no program, names no known one, asserts no key and fixes no target, and
/// calls nothing whose name speaks of a check.
pub proof fn law_open_target_is_reported(ctx: ScanContext, path: Seq<Node>, f: Node, body: Node)
    requires
        mentions_any(ctx.source@, seq!["solana_program", "anchor_lang", "AccountInfo", "ProgramResult", "solana_sdk"]),
        !mentions_any(ctx.file_path@, seq!["/anchor-spl/", "/anchor_spl/", "/anchor/spl/", "/anchor-lang/", "/anchor_lang/", "/anchor/lang/", "/spl-token/", "/spl_token/", "/codegen/", "/interface/src/"]),
        leads_openly(path, ctx.ast, f),
        f.kind is Function,
        !marked(f.text@, "Program"@, '<'),
        f.part(Role::Body) == Some(body),
        mentions_any(body.text@, seq!["invoke (", "invoke(", "invoke_signed", "CpiContext :: new", "CpiContext::new"]),
        !begins_any(f.name@, seq!["spl_", "create_", "close_", "initialize_", "transfer_", "mint_", "burn_", "approve_", "revoke_", "freeze_", "thaw_", "sync_"]),
        !mentions_any(f.name@, seq!["_invoke", "_cpi"]),
        !mentions_any(body.text@, seq!["program_id ==", "== program_id", "program_id !=", "!= program_id", "key () ==", "key() ==", "key () !=", "key() !=", ". key ==", ". key !=", "IncorrectProgramId"]),
        !mentions_any(body.text@, seq!["system_program ::", "system_program", "token :: ID", "token :: id", "spl_token :: id", "spl_token :: ID", "token_program", "Program <", "system_instruction", "spl_token", "spl_associated", "rent ::", "Rent ::"]),
        !mentions_any(body.text@, seq![". key", "program_id"]) || !mentions_any(body.text@, seq!["require_keys_eq !", "require_keys_neq !", "require_eq !", "require_neq !", "assert_eq !", "assert_ne !"]),
        !mentions(body.text@, "program_id :"@),
        last_named(top_functions(ctx.ast.parts(Role::Entry)), f.name@) matches Some(g) ==> g == f,
        forall|k: int| 0 <= k < called_names(body).len() ==> !mentions_any(lower(#[trigger] called_names(body)[k]), seq!["check", "validate", "verify", "assert", "require", "ensure"]),
    ensures
        speaks_of(ArbitraryCpiDetector.reports_on(ctx), f),
{
    lemma_first_match(body.text@, "program_id :"@, 0);
    if first_match(body.text@, "program_id :"@, 0) is Some {
        assert(occurs_at(body.text@, "program_id :"@, first_match(body.text@, "program_id :"@, 0)->0));
    }
    let called = called_names(body);
    assert forall|k: int| 0 <= k < called.len() implies !helper_pins(ctx.ast, #[trigger] called[k]) by {}
    assert(!delegates(ctx.ast, f.name@));
    assert(unpinned(f));
    lemma_reported(ctx, path, f);
}

/// What is reported calls a program, is no wrapper by its name, and neither compares a
/// program, names a known one, nor asserts a key.
pub proof fn law_reported_target_is_open(ctx: ScanContext, f: Node)
    requires
        report_on(ctx, f) is Some,
    ensures
        f.kind is Function,
        !marked(f.text@, "Program"@, '<'),
        mentions_any(f.body_text(), seq!["invoke (", "invoke(", "invoke_signed", "CpiContext :: new", "CpiContext::new"]),
        !begins_any(f.name@, seq!["spl_", "create_", "close_", "initialize_", "transfer_", "mint_", "burn_", "approve_", "revoke_", "freeze_", "thaw_", "sync_"]),
        !mentions_any(f.name@, seq!["_invoke", "_cpi"]),
        !mentions_any(f.body_text(), seq!["program_id ==", "== program_id", "program_id !=", "!= program_id", "key () ==", "key() ==", "key () !=", "key() !=", ". key ==", ". key !=", "IncorrectProgramId"]),
        !mentions_any(f.body_text(), seq!["system_program ::", "system_program", "token :: ID", "token :: id", "spl_token :: id", "spl_token :: ID", "token_program", "Program <", "system_instruction", "spl_token", "spl_associated", "rent ::", "Rent ::"]),
        !mentions_any(f.body_text(), seq![". key", "program_id"]) || !mentions_any(f.body_text(), seq!["require_keys_eq !", "require_keys_neq !", "require_eq !", "require_neq !", "assert_eq !", "assert_ne !"]),
{
}

/// A function whose instruction is given a fixed program, as the constant `ID` of a
/// module, is not reported.
pub proof fn law_fixed_target_is_enough(ctx: ScanContext, f: Node, i: int, value: Seq<char>)
    requires
        first_match(f.body_text(), "program_id :"@, 0) == Some(i),
        value == trimmed(until(f.body_text().skip(i + "program_id :"@.len()), |c: char| c == ',' || c == ';' || c == '}')),
        mentions_ended(value, ":: ID"@),
        value.len() > 0,
    ensures
        report_on(ctx, f) is None,
{
    lemma_first_match(f.body_text(), "program_id :"@, 0);
    reveal_strlit("program_id :");
    let ends_a = |c: char| c == ',' || c == ';' || c == '}';
    let ends_b = |c: char| value_end(c);
    assert(ends_a =~= ends_b);
    assert(const_program(value));
    assert(const_target_from(f.body_text(), 0));
}

/// A function is not reported if it calls one that stands directly in the file, has a
/// name that speaks of a check, and compares a program.
pub proof fn law_helper_may_pin(ctx: ScanContext, f: Node, body: Node, h: Node)
    requires
        f.part(Role::Body) == Some(body),
        last_named(top_functions(ctx.ast.parts(Role::Entry)), f.name@) == Some(f),
        only_function(ctx.ast.parts(Role::Entry), h),
        called_names(body).contains(h.name@),
        mentions_any(lower(h.name@), seq!["check", "validate", "verify", "assert", "require", "ensure"]),
        mentions_any(h.body_text(), seq!["program_id ==", "== program_id", "program_id !=", "!= program_id", "key () ==", "key() ==", "key () !=", "key() !=", ". key ==", ". key !=", "IncorrectProgramId"]),
    ensures
        report_on(ctx, f) is None,
{
    law_only_function_is_found(ctx.ast.parts(Role::Entry), h);
    let called = called_names(body);
    let p = |x: Seq<char>| helper_pins(ctx.ast, x);
    assert(p(called[called.index_of(h.name@)]));
}

/// A comma, a semicolon and a closing brace end a value, and nothing else does.
pub proof fn law_ends_of_values(c: char)
    ensures
        value_end(c) <==> seq![',', ';', '}'].contains(c),
{
    let ends = seq![',', ';', '}'];
    assert(ends[0] == ',' && ends[1] == ';' && ends[2] == '}');
}

/// A path holds words, blanks, colons, borrows and dereferences.
pub proof fn law_marks_of_paths(c: char)
    requires
        !word_char(c),
        !whitespace(c),
    ensures
        path_char(c) <==> seq![':', '&', '*'].contains(c),
{
    let marks = seq![':', '&', '*'];
    assert(marks[0] == ':' && marks[1] == '&' && marks[2] == '*');
}

} // verus!
