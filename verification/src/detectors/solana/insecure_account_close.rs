//! Accounts that are drained but keep their data.
use vstd::prelude::*;
use vstd::utf8::{encode_utf8, is_ascii_chars_encode_utf8};
use crate::attributes::{is_test_attributed, outside_functions_and_marked_tests, test_attributed};
use crate::bytes::{bytes_at, bytes_between, find_bytes, finds_between, lemma_first_bytes};
use crate::context::ScanContext;
use crate::detector::{Detector, Profile, raise, raised, RuleInfo, stamped};
use crate::finding::{Chain, Confidence, Finding, Report, Severity};
use crate::markers::SOLANA_MARKERS;
use crate::syntax::{Kind, Node, Role};
use crate::text::{contains, contains_any, join3, mentions, mentions_any};
use crate::walk::{
    collect_findings, leads_openly, lemma_reports_from, lemma_sealed, lemma_spoken_of, opt_report,
    reports_of, speaks_of, walk, walk_nodes,
};

verus! {

/// Reports functions that take all lamports out of an account and leave its data.
pub struct InsecureAccountCloseDetector;

/// The rule's description of itself.
pub open spec fn profile() -> Profile {
    Profile {
        id: "SOL-005"@,
        name: "insecure-account-close"@,
        description: "Detects account closure that doesn't zero data and set discriminator"@,
        severity: Severity::High,
        confidence: Confidence::Medium,
        chain: Chain::Solana,
    }
}

/// The rule's description of itself.
fn info() -> (r: RuleInfo)
    ensures
        r@ == profile(),
{
    RuleInfo {
        id: "SOL-005",
        name: "insecure-account-close",
        description: "Detects account closure that doesn't zero data and set discriminator",
        severity: Severity::High,
        confidence: Confidence::Medium,
        chain: Chain::Solana,
    }
}

/// How the constraint that closes an account is written.
pub const CLOSE_CONSTRAINT: [&'static str; 2] = ["close =", "close="];

/// Words of a body that clears account data.
pub const CLEARING_WORDS: [&'static str; 6] = [
    ". fill (0",
    "fill(0)",
    "sol_memset",
    "CLOSED_ACCOUNT_DISCRIMINATOR",
    "realloc (0",
    ". close (",
];

/// Words that clear a buffer where `data` is near.
pub const BULK_WRITES: [&'static str; 2] = ["iter_mut", "copy_from_slice"];

/// The bytes of ` = 0`.
pub const ZERO_ASSIGNMENT: [u8; 4] = [0x20, 0x3d, 0x20, 0x30];

/// How many bytes in front of the assignment its target is sought in.
pub const TARGET_WINDOW: usize = 60;

/// A byte that would make a longer number of the zero in front of it.
pub open spec fn continues_number(b: u8) -> bool {
    ||| 0x30 <= b <= 0x39
    ||| 0x41 <= b <= 0x5a
    ||| 0x61 <= b <= 0x7a
    ||| b == 0x2e
    ||| b == 0x5f
}

/// Zero is assigned at `i`, to something that speaks of lamports.
pub open spec fn drains_at(bytes: Seq<u8>, i: int) -> bool {
    &&& bytes_at(bytes, ZERO_ASSIGNMENT@, i)
    &&& i + 4 == bytes.len() || !continues_number(bytes[i + 4])
    &&& bytes_between(
        bytes,
        encode_utf8("lamports"@),
        if i > TARGET_WINDOW { i - TARGET_WINDOW } else { 0 },
        i,
    )
}

/// The body assigns zero to the lamports of an account.
pub open spec fn drains(body: Seq<char>) -> bool {
    exists|i: int| #[trigger] drains_at(encode_utf8(body), i)
}

/// The body clears account data, or hands the account back.
pub open spec fn clears(body: Seq<char>) -> bool {
    ||| mentions_any(body, CLEARING_WORDS@)
    ||| mentions_any(body, BULK_WRITES@) && mentions(body, "data"@)
    ||| mentions(body, ". assign"@) && mentions(body, "system_program"@)
}

/// The report on `f`, if there is one.
pub open spec fn report_on(ctx: ScanContext, f: Node) -> Option<Report> {
    if f.kind is Function && !test_attributed(f) && !mentions_any(f.text@, CLOSE_CONSTRAINT@)
        && drains(f.body_text()) && !clears(f.body_text()) {
        Some(
            raised(
                profile(),
                ctx,
                Confidence::Medium,
                f.line,
                f.column,
                "Function '"@ + f.name@
                    + "' closes account by zeroing lamports without clearing data/discriminator"@,
                "After zeroing lamports, also zero account data and set the discriminator to CLOSED_ACCOUNT_DISCRIMINATOR, or use Anchor's #[account(close = recipient)]"@,
            ),
        )
    } else {
        None
    }
}

/// Whether the byte would make a longer number of the zero in front of it.
fn is_number_byte(b: u8) -> (r: bool)
    ensures
        r == continues_number(b),
{
    (0x30 <= b && b <= 0x39) || (0x41 <= b && b <= 0x5a) || (0x61 <= b && b <= 0x7a) || b == 0x2e
        || b == 0x5f
}

/// Whether the body assigns zero to the lamports of an account.
pub fn has_lamport_zero_assignment(body: &str) -> (b: bool)
    ensures
        b == drains(body@),
{
    let bytes = body.as_bytes();
    let total = bytes.len();
    let mut from: usize = 0;
    loop
        invariant
            bytes@ == encode_utf8(body@),
            total == bytes@.len(),
            from <= total,
            forall|k: int| k < from ==> !#[trigger] drains_at(bytes@, k),
        decreases total - from,
    {
        proof {
            lemma_first_bytes(bytes@, ZERO_ASSIGNMENT@, from as int);
        }
        match find_bytes(bytes, ZERO_ASSIGNMENT.as_slice(), from) {
            Some(i) => {
                let start: usize = if i > TARGET_WINDOW { i - TARGET_WINDOW } else { 0 };
                if (i + 4 == total || !is_number_byte(bytes[i + 4])) && finds_between(
                    bytes,
                    "lamports".as_bytes(),
                    start,
                    i,
                ) {
                    assert(drains_at(bytes@, i as int));
                    return true;
                }
                assert(!drains_at(bytes@, i as int));
                assert(forall|k: int| k < i ==> !#[trigger] drains_at(bytes@, k));
                from = i + 1;
            },
            None => {
                return false;
            },
        }
    }
}

/// Whether the body clears account data, or hands the account back.
pub fn clears_data(body: &str) -> (b: bool)
    ensures
        b == clears(body@),
{
    contains_any(body, CLEARING_WORDS.as_slice()) || (contains_any(body, BULK_WRITES.as_slice())
        && contains(body, "data")) || (contains(body, ". assign") && contains(
        body,
        "system_program",
    ))
}

impl InsecureAccountCloseDetector {
    /// The finding on `f`, if there is one.
    pub fn check(&self, ctx: &ScanContext, f: &Node) -> (r: Option<Finding>)
        ensures
            opt_report(r) == report_on(*ctx, *f),
    {
        match f.kind {
            Kind::Function => {},
            _ => {
                return None;
            },
        }
        if is_test_attributed(f) || contains_any(f.text.as_str(), CLOSE_CONSTRAINT.as_slice()) {
            return None;
        }
        let body = f.get_body_text();
        if !has_lamport_zero_assignment(body) || clears_data(body) {
            return None;
        }
        let text = join3(
            "Function '",
            f.name.as_str(),
            "' closes account by zeroing lamports without clearing data/discriminator",
        );
        Some(
            raise(
                &info(),
                ctx,
                Confidence::Medium,
                f.line,
                f.column,
                text,
                "After zeroing lamports, also zero account data and set the discriminator to CLOSED_ACCOUNT_DISCRIMINATOR, or use Anchor's #[account(close = recipient)]",
            ),
        )
    }
}

impl Detector for InsecureAccountCloseDetector {
    open spec fn profile(&self) -> Profile {
        profile()
    }

    open spec fn reports_on(&self, ctx: ScanContext) -> Seq<Report> {
        if !mentions_any(ctx.source@, SOLANA_MARKERS@) {
            Seq::empty()
        } else {
            reports_of(walk(ctx.ast, outside_functions_and_marked_tests()), |f: Node| report_on(ctx, f))
        }
    }

    fn id(&self) -> (r: &'static str) {
        info().id
    }

    fn name(&self) -> (r: &'static str) {
        info().name
    }

    fn description(&self) -> (r: &'static str) {
        info().description
    }

    fn severity(&self) -> (r: Severity) {
        info().severity
    }

    fn confidence(&self) -> (r: Confidence) {
        info().confidence
    }

    fn chain(&self) -> (r: Chain) {
        info().chain
    }

    fn detect(&self, ctx: &ScanContext) -> (r: Vec<Finding>) {
        if !contains_any(ctx.source.as_str(), SOLANA_MARKERS.as_slice()) {
            return Vec::new();
        }
        let list = walk_nodes(
            &ctx.ast,
            |n: &Node| -> (b: bool)
                ensures
                    b == outside_functions_and_marked_tests()(*n)
            {
                !matches!(n.kind, Kind::Function)
                    && !(matches!(n.kind, Kind::Module) && is_test_attributed(n))
            },
            Ghost(outside_functions_and_marked_tests()),
        );
        collect_findings(
            &list,
            |f: &Node| -> (s: Option<Finding>)
                ensures
                    opt_report(s) == report_on(*ctx, *f)
            { self.check(ctx, f) },
            Ghost(|f: Node| report_on(*ctx, f)),
        )
    }

    proof fn law_findings_are_stamped(&self, ctx: ScanContext) {
        assert forall|i: int| 0 <= i < self.reports_on(ctx).len() implies stamped(
            #[trigger] self.reports_on(ctx)[i],
            self.profile(),
            ctx,
        ) by {
            lemma_reports_from(walk(ctx.ast, outside_functions_and_marked_tests()), |f: Node| report_on(ctx, f), i);
        }
    }
}

/// Every finding has the confidence that the rule states of itself.
pub proof fn law_confidence_is_the_rules_own(ctx: ScanContext)
    ensures
        forall|i: int|
            0 <= i < InsecureAccountCloseDetector.reports_on(ctx).len() ==> (
            #[trigger] InsecureAccountCloseDetector.reports_on(ctx)[i]).confidence == profile().confidence,
{
    assert forall|i: int| 0 <= i < InsecureAccountCloseDetector.reports_on(ctx).len() implies (
        #[trigger] InsecureAccountCloseDetector.reports_on(ctx)[i]).confidence == profile().confidence by {
        lemma_reports_from(walk(ctx.ast, outside_functions_and_marked_tests()), |f: Node| report_on(ctx, f), i);
    }
}

/// Nothing is reported on a file that shows no mark of a Solana program.
pub proof fn law_out_of_scope_is_silent(ctx: ScanContext)
    requires
        !mentions_any(ctx.source@, SOLANA_MARKERS@),
    ensures
        InsecureAccountCloseDetector.reports_on(ctx).len() == 0,
{
}

/// Nothing is reported on a test function.
pub proof fn law_test_function_is_silent(ctx: ScanContext, f: Node)
    requires
        test_attributed(f),
    ensures
        report_on(ctx, f) is None,
{
}

/// A test module contributes no report, whatever it holds.
pub proof fn law_test_module_is_silent(ctx: ScanContext, m: Node)
    requires
        m.kind is Module,
        test_attributed(m),
    ensures
        reports_of(walk(m, outside_functions_and_marked_tests()), |f: Node| report_on(ctx, f)) == Seq::<Report>::empty(),
{
    lemma_sealed(m, outside_functions_and_marked_tests(), |f: Node| report_on(ctx, f));
}

/// What is reported on is spoken of, wherever in the file it stands.
proof fn lemma_reported(ctx: ScanContext, path: Seq<Node>, f: Node)
    requires
        leads_openly(path, ctx.ast, f),
        report_on(ctx, f) is Some,
        mentions_any(ctx.source@, seq!["solana_program", "anchor_lang", "AccountInfo", "ProgramResult", "solana_sdk"]),
    ensures
        speaks_of(InsecureAccountCloseDetector.reports_on(ctx), f),
{
    lemma_spoken_of(path, outside_functions_and_marked_tests(), |n: Node| report_on(ctx, n), "Function '"@, "' closes account by zeroing lamports without clearing data/discriminator"@);
}

/// A function that assigns zero where `lamports` stands within the sixty bytes in front
/// is reported, unless it clears data or hands the account back.
pub proof fn law_drained_account_is_reported(ctx: ScanContext, path: Seq<Node>, f: Node, bytes: Seq<u8>, k: int, i: int)
    requires
        mentions_any(ctx.source@, seq!["solana_program", "anchor_lang", "AccountInfo", "ProgramResult", "solana_sdk"]),
        leads_openly(path, ctx.ast, f),
        f.kind is Function,
        f.parts(Role::Attribute).len() == 0,
        !mentions_any(f.body_text(), seq![". fill (0", "fill(0)", "sol_memset", "CLOSED_ACCOUNT_DISCRIMINATOR", "realloc (0", ". close ("]),
        !mentions_any(f.body_text(), seq!["iter_mut", "copy_from_slice"]) || !mentions(f.body_text(), "data"@),
        !mentions(f.body_text(), ". assign"@) || !mentions(f.body_text(), "system_program"@),
        !mentions_any(f.text@, seq!["close =", "close="]),
        bytes == encode_utf8(f.body_text()),
        0 <= k,
        k + encode_utf8("lamports"@).len() <= i,
        i - 60 <= k,
        bytes_at(bytes, encode_utf8("lamports"@), k),
        bytes_at(bytes, seq![0x20u8, 0x3du8, 0x20u8, 0x30u8], i),
        i + 4 == bytes.len() || bytes[i + 4] == 0x20u8 || bytes[i + 4] == 0x3bu8,
    ensures
        speaks_of(InsecureAccountCloseDetector.reports_on(ctx), f),
{
    assert(ZERO_ASSIGNMENT@ =~= seq![0x20u8, 0x3du8, 0x20u8, 0x30u8]);
    assert(drains_at(bytes, i));
    lemma_reported(ctx, path, f);
}

/// A function in which every `lamports` stands more than sixty bytes in front of every
/// zero that is assigned, or behind it, is not reported.
pub proof fn law_distant_zero_is_silent(ctx: ScanContext, f: Node, bytes: Seq<u8>, zero: Seq<u8>)
    requires
        bytes == encode_utf8(f.body_text()),
        zero == seq![0x20u8, 0x3du8, 0x20u8, 0x30u8],
        forall|k: int, i: int| #[trigger] bytes_at(bytes, encode_utf8("lamports"@), k) && #[trigger] bytes_at(bytes, zero, i) ==> k < i - 60 || k >= i,
    ensures
        report_on(ctx, f) is None,
{
    assert(ZERO_ASSIGNMENT@ =~= zero);
    assert forall|i: int| !#[trigger] drains_at(bytes, i) by {
        if drains_at(bytes, i) {
            assert(bytes_at(bytes, zero, i));
            let from = if i > TARGET_WINDOW { i - TARGET_WINDOW } else { 0 };
            let needle = encode_utf8("lamports"@);
            let k = choose|k: int| from <= k && k + needle.len() <= i && #[trigger] bytes_at(bytes, needle, k);
            assert(needle.len() > 0) by {
                reveal_strlit("lamports");
                is_ascii_chars_encode_utf8("lamports"@);
            }
        }
    }
}

/// What is reported neither clears data nor hands the account back, and is not closed
/// by a constraint.
pub proof fn law_reported_account_is_not_cleared(ctx: ScanContext, f: Node)
    requires
        report_on(ctx, f) is Some,
    ensures
        f.kind is Function,
        !mentions_any(f.body_text(), seq![". fill (0", "fill(0)", "sol_memset", "CLOSED_ACCOUNT_DISCRIMINATOR", "realloc (0", ". close ("]),
        !mentions_any(f.body_text(), seq!["iter_mut", "copy_from_slice"]) || !mentions(f.body_text(), "data"@),
        !mentions(f.body_text(), ". assign"@) || !mentions(f.body_text(), "system_program"@),
        !mentions_any(f.text@, seq!["close =", "close="]),
{
}

/// A function that carries a test attribute of whatever framework is not reported.
pub proof fn law_marked_test_is_silent(ctx: ScanContext, f: Node, k: int)
    requires
        0 <= k < f.parts(Role::Attribute).len(),
        f.parts(Role::Attribute)[k].last_word() == Some("test"@),
    ensures
        report_on(ctx, f) is None,
{
    let p = |a: Node| a.last_word() == Some("test"@);
    assert(p(f.parts(Role::Attribute)[k]));
}

/// Letters of either case continue a number, as digits do.
pub proof fn law_letters_continue_numbers(b: u8)
    requires
        0x41 <= b <= 0x5a || 0x61 <= b <= 0x7a || 0x30 <= b <= 0x39,
    ensures
        continues_number(b),
{
}

} // verus!
