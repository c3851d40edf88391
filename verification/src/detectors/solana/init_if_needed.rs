//! Accounts that can be initialized a second time.
use vstd::prelude::*;
use vstd::utf8::encode_utf8;
use crate::attributes::{carries_test, has_test_attribute, is_cfg_test, outside_functions_and_tests};
use crate::bytes::{
    bytes_at, bytes_between, find_bytes, finds_between, first_bytes, lemma_first_bytes,
};
use crate::cfg::test_builds_only;
use crate::context::{is_in_directory, lies_in, ScanContext};
use crate::detector::{Detector, Profile, raise, raised, RuleInfo, stamped};
use crate::finding::{Chain, Confidence, Finding, Report, Severity};
use crate::syntax::{Kind, Node, Role};
use crate::text::{begins, contains_any, ends, ends_with, is_any, join3, mentions_any, starts_with};
use crate::tokens::{holds_ident, idents, tokens_contain_ident};
use crate::walk::{
    collect_findings, leads_openly, lemma_reports_from, lemma_sealed, lemma_spoken_of, opt_report,
    reports_of, speaks_of, walk, walk_nodes,
};

verus! {

/// Reports functions that use Anchor's `init_if_needed` without a guard against
/// initializing again.
pub struct InitIfNeededDetector;

/// The rule's description of itself.
pub open spec fn profile() -> Profile {
    Profile {
        id: "SOL-014"@,
        name: "init-if-needed-reinitialization"@,
        description: "Detects Anchor init_if_needed constraint without guard checks against reinitialization"@,
        severity: Severity::High,
        confidence: Confidence::Medium,
        chain: Chain::Solana,
    }
}

/// The rule's description of itself.
fn info() -> (r: RuleInfo)
    ensures
        r@ == profile(),
{
    RuleInfo {
        id: "SOL-014",
        name: "init-if-needed-reinitialization",
        description: "Detects Anchor init_if_needed constraint without guard checks against reinitialization",
        severity: Severity::High,
        confidence: Confidence::Medium,
        chain: Chain::Solana,
    }
}

/// A source file with none of these is no Anchor program.
pub const ANCHOR_MARKERS: [&'static str; 4] = [
    "anchor_lang",
    "Anchor",
    "#[account(",
    "#[derive(Accounts)]",
];

/// Words of a guard against initializing again.
pub const SAFE_PATTERNS: [&'static str; 7] = [
    "is_initialized",
    "initialized",
    "AlreadyInitialized",
    "AccountAlreadyInitialized",
    "already_initialized",
    "Pubkey :: default",
    "data_is_empty",
];

/// Account types that the token program guards by itself.
pub const SAFE_ACCOUNT_TYPES: [&'static str; 3] = [
    "TokenAccount",
    "AssociatedTokenAccount",
    "Mint",
];

/// The identifier that the rule looks for.
pub const TRIGGER: [&'static str; 1] = ["init_if_needed"];

/// `needle` occurs in `src` around the first `init_if_needed`: at most `before` bytes in
/// front of where it starts, and at most `after` bytes behind that.
pub open spec fn near_trigger(src: Seq<char>, needle: Seq<char>, before: int, after: int) -> bool {
    let bytes = encode_utf8(src);
    match first_bytes(bytes, encode_utf8("init_if_needed"@), 0) {
        Some(pos) => bytes_between(
            bytes,
            encode_utf8(needle),
            if pos < before { 0 } else { pos - before },
            if pos + after < bytes.len() { pos + after } else { bytes.len() as int },
        ),
        None => false,
    }
}

/// The function is a test.
pub open spec fn test_fn(f: Node) -> bool {
    ||| begins(f.name@, "test_"@)
    ||| ends(f.name@, "_test"@)
    ||| carries_test(f)
}

/// The account that may be initialized is of a type that guards itself.
pub open spec fn safe_type(f: Node) -> bool {
    exists|i: int|
        0 <= i < SAFE_ACCOUNT_TYPES@.len() && near_trigger(
            f.text@,
            (#[trigger] SAFE_ACCOUNT_TYPES@[i])@,
            100,
            200,
        )
}

/// The function guards against initializing again.
pub open spec fn guarded(f: Node) -> bool {
    ||| mentions_any(f.body_text(), SAFE_PATTERNS@)
    ||| mentions_any(f.text@, SAFE_PATTERNS@)
    ||| near_trigger(f.text@, "constraint ="@, 200, 300)
}

/// `f` may initialize an account a second time.
pub open spec fn reinitializes(f: Node) -> bool {
    &&& f.kind is Function
    &&& !test_fn(f)
    &&& holds_ident(f.tokens@, TRIGGER@)
    &&& !safe_type(f)
    &&& !guarded(f)
}

/// The report on `f`, if there is one.
pub open spec fn report_on(ctx: ScanContext, f: Node) -> Option<Report> {
    if reinitializes(f) {
        Some(
            raised(
                profile(),
                ctx,
                Confidence::Medium,
                f.line,
                f.column,
                "Function '"@ + f.name@ + "' uses init_if_needed without reinitialization guard"@,
                "Add an is_initialized check or constraint to prevent reinitialization attacks when using init_if_needed"@,
            ),
        )
    } else {
        None
    }
}

/// The file is a test file by its path.
pub open spec fn test_path(path: Seq<char>) -> bool {
    lies_in(path, "tests"@) || ends(path, "_test.rs"@)
}

/// Whether `needle` occurs in `src` around the first `init_if_needed`.
fn is_near_trigger(src: &str, needle: &str, before: usize, after: usize) -> (b: bool)
    ensures
        b == near_trigger(src@, needle@, before as int, after as int),
{
    let bytes = src.as_bytes();
    match find_bytes(bytes, "init_if_needed".as_bytes(), 0) {
        Some(pos) => {
            proof {
                lemma_first_bytes(bytes@, encode_utf8("init_if_needed"@), 0);
            }
            let from: usize = if pos < before { 0 } else { pos - before };
            let to: usize = if after < bytes.len() - pos { pos + after } else { bytes.len() };
            finds_between(bytes, needle.as_bytes(), from, to)
        },
        None => false,
    }
}

/// Whether the function is a test.
pub fn is_test_fn(f: &Node) -> (b: bool)
    ensures
        b == test_fn(*f),
{
    starts_with(f.name.as_str(), "test_") || ends_with(f.name.as_str(), "_test") || has_test_attribute(f)
}

/// Whether the account that may be initialized is of a type that guards itself.
fn has_safe_type(f: &Node) -> (b: bool)
    ensures
        b == safe_type(*f),
{
    let list = SAFE_ACCOUNT_TYPES.as_slice();
    let mut i: usize = 0;
    while i < list.len()
        invariant
            i <= list@.len(),
            list@ == SAFE_ACCOUNT_TYPES@,
            forall|j: int|
                0 <= j < i ==> !near_trigger(
                    f.text@,
                    (#[trigger] SAFE_ACCOUNT_TYPES@[j])@,
                    100,
                    200,
                ),
        decreases list@.len() - i,
    {
        assert(list@[i as int] == SAFE_ACCOUNT_TYPES@[i as int]);
        if is_near_trigger(f.text.as_str(), list[i], 100, 200) {
            return true;
        }
        i = i + 1;
    }
    false
}

impl InitIfNeededDetector {
    /// The finding on `f`, if there is one.
    pub fn check(&self, ctx: &ScanContext, f: &Node) -> (r: Option<Finding>)
        ensures
            opt_report(r) == report_on(*ctx, *f),
    {
        match f.kind {
            Kind::Function => {},
            _ => {
                return None;
            },
        }
        if is_test_fn(f) || !tokens_contain_ident(&f.tokens, TRIGGER.as_slice()) || has_safe_type(
            f,
        ) {
            return None;
        }
        let patterns = SAFE_PATTERNS.as_slice();
        if contains_any(f.get_body_text(), patterns) || contains_any(f.text.as_str(), patterns)
            || is_near_trigger(f.text.as_str(), "constraint =", 200, 300) {
            return None;
        }
        let text = join3(
            "Function '",
            f.name.as_str(),
            "' uses init_if_needed without reinitialization guard",
        );
        Some(
            raise(
                &info(),
                ctx,
                Confidence::Medium,
                f.line,
                f.column,
                text,
                "Add an is_initialized check or constraint to prevent reinitialization attacks when using init_if_needed",
            ),
        )
    }
}

impl Detector for InitIfNeededDetector {
    open spec fn profile(&self) -> Profile {
        profile()
    }

    open spec fn reports_on(&self, ctx: ScanContext) -> Seq<Report> {
        if test_path(ctx.file_path@) || !mentions_any(ctx.source@, ANCHOR_MARKERS@) {
            Seq::empty()
        } else {
            reports_of(walk(ctx.ast, outside_functions_and_tests()), |f: Node| report_on(ctx, f))
        }
    }

    fn id(&self) -> (r: &'static str) {
        info().id
    }

    fn name(&self) -> (r: &'static str) {
        info().name
    }

    fn description(&self) -> (r: &'static str) {
        info().description
    }

    fn severity(&self) -> (r: Severity) {
        info().severity
    }

    fn confidence(&self) -> (r: Confidence) {
        info().confidence
    }

    fn chain(&self) -> (r: Chain) {
        info().chain
    }

    fn detect(&self, ctx: &ScanContext) -> (r: Vec<Finding>) {
        if is_in_directory(ctx.file_path.as_str(), "tests")
            || ends_with(ctx.file_path.as_str(), "_test.rs")
            || !contains_any(ctx.source.as_str(), ANCHOR_MARKERS.as_slice()) {
            return Vec::new();
        }
        let list = walk_nodes(
            &ctx.ast,
            |n: &Node| -> (b: bool)
                ensures
                    b == outside_functions_and_tests()(*n)
            {
                !matches!(n.kind, Kind::Function)
                    && !(matches!(n.kind, Kind::Module) && is_cfg_test(n))
            },
            Ghost(outside_functions_and_tests()),
        );
        collect_findings(
            &list,
            |f: &Node| -> (s: Option<Finding>)
                ensures
                    opt_report(s) == report_on(*ctx, *f)
            { self.check(ctx, f) },
            Ghost(|f: Node| report_on(*ctx, f)),
        )
    }

    proof fn law_findings_are_stamped(&self, ctx: ScanContext) {
        assert forall|i: int| 0 <= i < self.reports_on(ctx).len() implies stamped(
            #[trigger] self.reports_on(ctx)[i],
            self.profile(),
            ctx,
        ) by {
            lemma_reports_from(walk(ctx.ast, outside_functions_and_tests()), |f: Node| report_on(ctx, f), i);
        }
    }
}

/// Every finding has the confidence that the rule states of itself.
pub proof fn law_confidence_is_the_rules_own(ctx: ScanContext)
    ensures
        forall|i: int|
            0 <= i < InitIfNeededDetector.reports_on(ctx).len() ==> (
            #[trigger] InitIfNeededDetector.reports_on(ctx)[i]).confidence == profile().confidence,
{
    assert forall|i: int| 0 <= i < InitIfNeededDetector.reports_on(ctx).len() implies (
        #[trigger] InitIfNeededDetector.reports_on(ctx)[i]).confidence == profile().confidence by {
        lemma_reports_from(walk(ctx.ast, outside_functions_and_tests()), |f: Node| report_on(ctx, f), i);
    }
}

/// Nothing is reported on a file that is a test by its path, or that shows no mark of an Anchor program.
pub proof fn law_out_of_scope_is_silent(ctx: ScanContext)
    requires
        test_path(ctx.file_path@) || !mentions_any(ctx.source@, ANCHOR_MARKERS@),
    ensures
        InitIfNeededDetector.reports_on(ctx).len() == 0,
{
}

/// Nothing is reported on a test function.
pub proof fn law_test_function_is_silent(ctx: ScanContext, f: Node)
    requires
        test_fn(f),
    ensures
        report_on(ctx, f) is None,
{
}

/// A test module contributes no report, whatever it holds.
pub proof fn law_test_module_is_silent(ctx: ScanContext, m: Node)
    requires
        m.kind is Module,
        test_builds_only(m),
    ensures
        reports_of(walk(m, outside_functions_and_tests()), |f: Node| report_on(ctx, f)) == Seq::<Report>::empty(),
{
    lemma_sealed(m, outside_functions_and_tests(), |f: Node| report_on(ctx, f));
}

/// What is reported on is spoken of, wherever in the file it stands.
proof fn lemma_reported(ctx: ScanContext, path: Seq<Node>, f: Node)
    requires
        leads_openly(path, ctx.ast, f),
        report_on(ctx, f) is Some,
        mentions_any(ctx.source@, seq!["anchor_lang", "Anchor", "#[account(", "#[derive(Accounts)]"]),
        !lies_in(ctx.file_path@, "tests"@),
        !ends(ctx.file_path@, "_test.rs"@),
    ensures
        speaks_of(InitIfNeededDetector.reports_on(ctx), f),
{
    lemma_spoken_of(path, outside_functions_and_tests(), |n: Node| report_on(ctx, n), "Function '"@, "' uses init_if_needed without reinitialization guard"@);
}

/// A function with the identifier `init_if_needed` is reported, if nothing guards
/// against initializing again: no word of a guard anywhere, no token account within a
/// hundred bytes in front of its first mention and two hundred behind, and no
/// constraint within two hundred in front and three hundred behind.
pub proof fn law_unguarded_initialization_is_reported(ctx: ScanContext, path: Seq<Node>, f: Node, pos: int)
    requires
        mentions_any(ctx.source@, seq!["anchor_lang", "Anchor", "#[account(", "#[derive(Accounts)]"]),
        !lies_in(ctx.file_path@, "tests"@),
        !ends(ctx.file_path@, "_test.rs"@),
        leads_openly(path, ctx.ast, f),
        f.kind is Function,
        f.parts(Role::Attribute).len() == 0,
        !begins(f.name@, "test_"@),
        !ends(f.name@, "_test"@),
        idents(f.tokens@).contains("init_if_needed"@),
        first_bytes(encode_utf8(f.text@), encode_utf8("init_if_needed"@), 0) == Some(pos),
        !mentions_any(f.body_text(), seq!["is_initialized", "initialized", "AlreadyInitialized", "AccountAlreadyInitialized", "already_initialized", "Pubkey :: default", "data_is_empty"]),
        !mentions_any(f.text@, seq!["is_initialized", "initialized", "AlreadyInitialized", "AccountAlreadyInitialized", "already_initialized", "Pubkey :: default", "data_is_empty"]),
        forall|k: int| #[trigger] bytes_at(encode_utf8(f.text@), encode_utf8("TokenAccount"@), k) ==> k < pos - 100 || k + encode_utf8("TokenAccount"@).len() > pos + 200,
        forall|k: int| #[trigger] bytes_at(encode_utf8(f.text@), encode_utf8("AssociatedTokenAccount"@), k) ==> k < pos - 100 || k + encode_utf8("AssociatedTokenAccount"@).len() > pos + 200,
        forall|k: int| #[trigger] bytes_at(encode_utf8(f.text@), encode_utf8("Mint"@), k) ==> k < pos - 100 || k + encode_utf8("Mint"@).len() > pos + 200,
        forall|k: int| #[trigger] bytes_at(encode_utf8(f.text@), encode_utf8("constraint ="@), k) ==> k < pos - 200 || k + encode_utf8("constraint ="@).len() > pos + 300,
    ensures
        speaks_of(InitIfNeededDetector.reports_on(ctx), f),
{
    let names = idents(f.tokens@);
    let k = names.index_of("init_if_needed"@);
    assert(is_any(names[k], TRIGGER@));
    assert(holds_ident(f.tokens@, TRIGGER@));
    lemma_first_bytes(encode_utf8(f.text@), encode_utf8("init_if_needed"@), 0);
    assert(!near_trigger(f.text@, "TokenAccount"@, 100, 200));
    assert(!near_trigger(f.text@, "AssociatedTokenAccount"@, 100, 200));
    assert(!near_trigger(f.text@, "Mint"@, 100, 200));
    assert(!safe_type(f));
    assert(!near_trigger(f.text@, "constraint ="@, 200, 300));
    lemma_reported(ctx, path, f);
}

/// A token account near the first mention of `init_if_needed`, or a constraint a little
/// further, silences the rule.
pub proof fn law_near_guard_is_enough(ctx: ScanContext, f: Node, pos: int, k: int)
    requires
        first_bytes(encode_utf8(f.text@), encode_utf8("init_if_needed"@), 0) == Some(pos),
        0 <= k,
        (bytes_at(encode_utf8(f.text@), encode_utf8("TokenAccount"@), k) && pos - 100 <= k && k + encode_utf8("TokenAccount"@).len() <= pos + 200) || (bytes_at(encode_utf8(f.text@), encode_utf8("AssociatedTokenAccount"@), k) && pos - 100 <= k && k + encode_utf8("AssociatedTokenAccount"@).len() <= pos + 200) || (bytes_at(encode_utf8(f.text@), encode_utf8("Mint"@), k) && pos - 100 <= k && k + encode_utf8("Mint"@).len() <= pos + 200) || (bytes_at(encode_utf8(f.text@), encode_utf8("constraint ="@), k) && pos - 200 <= k && k + encode_utf8("constraint ="@).len() <= pos + 300),
    ensures
        report_on(ctx, f) is None,
{
    let bytes = encode_utf8(f.text@);
    assert(SAFE_ACCOUNT_TYPES@.len() == 3);
    if bytes_at(bytes, encode_utf8("TokenAccount"@), k) && pos - 100 <= k && k + encode_utf8("TokenAccount"@).len() <= pos + 200 {
        assert(near_trigger(f.text@, SAFE_ACCOUNT_TYPES@[0]@, 100, 200));
    }
    if bytes_at(bytes, encode_utf8("AssociatedTokenAccount"@), k) && pos - 100 <= k && k + encode_utf8("AssociatedTokenAccount"@).len() <= pos + 200 {
        assert(near_trigger(f.text@, SAFE_ACCOUNT_TYPES@[1]@, 100, 200));
    }
    if bytes_at(bytes, encode_utf8("Mint"@), k) && pos - 100 <= k && k + encode_utf8("Mint"@).len() <= pos + 200 {
        assert(near_trigger(f.text@, SAFE_ACCOUNT_TYPES@[2]@, 100, 200));
    }
    if bytes_at(bytes, encode_utf8("constraint ="@), k) && pos - 200 <= k && k + encode_utf8("constraint ="@).len() <= pos + 300 {
        assert(near_trigger(f.text@, "constraint ="@, 200, 300));
    }
}

/// What is reported holds the identifier `init_if_needed` and no word of a guard.
pub proof fn law_reported_initialization_is_unguarded(ctx: ScanContext, f: Node)
    requires
        report_on(ctx, f) is Some,
    ensures
        f.kind is Function,
        idents(f.tokens@).contains("init_if_needed"@),
        !mentions_any(f.body_text(), seq!["is_initialized", "initialized", "AlreadyInitialized", "AccountAlreadyInitialized", "already_initialized", "Pubkey :: default", "data_is_empty"]),
        !mentions_any(f.text@, seq!["is_initialized", "initialized", "AlreadyInitialized", "AccountAlreadyInitialized", "already_initialized", "Pubkey :: default", "data_is_empty"]),
        !begins(f.name@, "test_"@),
        !ends(f.name@, "_test"@),
{
    let names = idents(f.tokens@);
    let k = choose|k: int| 0 <= k < names.len() && is_any(#[trigger] names[k], TRIGGER@);
    assert(names[k] == "init_if_needed"@);
}

/// A function that carries a test attribute of whatever framework is not reported.
pub proof fn law_marked_test_is_silent(ctx: ScanContext, f: Node, k: int)
    requires
        0 <= k < f.parts(Role::Attribute).len(),
        f.parts(Role::Attribute)[k].last_word() == Some("test"@),
    ensures
        report_on(ctx, f) is None,
{
    let p = |a: Node| a.last_word() == Some("test"@);
    assert(p(f.parts(Role::Attribute)[k]));
}

/// A function named as a test is not reported.
pub proof fn law_test_by_name_is_silent(ctx: ScanContext, f: Node)
    requires
        begins(f.name@, "test_"@) || ends(f.name@, "_test"@),
    ensures
        report_on(ctx, f) is None,
{
}

} // verus!
