//! Account data that is read without a look at who owns the account.
use vstd::prelude::*;
use crate::attributes::{carries_test, has_test_attribute, is_cfg_test, outside_functions_and_tests};
use crate::call_graph::{caller_checks, caller_has_check, CheckKind};
use crate::calls::{callee_name, calls, get_callee_name};
use crate::cfg::test_builds_only;
use crate::context::ScanContext;
use crate::detector::{Detector, Profile, raise, raised, RuleInfo, stamped};
use crate::finding::{Chain, Confidence, Finding, Report, Severity};
use crate::markers::SOLANA_MARKERS;
use crate::search::{finds_ended, finds_marked, marked, mentions_ended};
use crate::syntax::{Kind, Node, Role};
use crate::text::{
    any_text, contains, contains_any, join3, listed, mentions, mentions_any, same, some_text, texts,
    words, words_of,
};
use crate::walk::{
    any_node, collect_findings, leads_openly, lemma_reports_from, lemma_sealed, lemma_spoken_of,
    nodes, nodes_in, opt_report, reports_of, some, speaks_of, walk, walk_nodes,
};

verus! {

/// Reports functions that deserialize account data of an unknown owner.
pub struct MissingOwnerDetector;

/// The rule's description of itself.
pub open spec fn profile() -> Profile {
    Profile {
        id: "SOL-002"@,
        name: "missing-owner-check"@,
        description: "Detects deserialization of account data without verifying account owner"@,
        severity: Severity::Critical,
        confidence: Confidence::High,
        chain: Chain::Solana,
    }
}

/// The rule's description of itself.
fn info() -> (r: RuleInfo)
    ensures
        r@ == profile(),
{
    RuleInfo {
        id: "SOL-002",
        name: "missing-owner-check",
        description: "Detects deserialization of account data without verifying account owner",
        severity: Severity::Critical,
        confidence: Confidence::High,
        chain: Chain::Solana,
    }
}

/// Where frameworks and libraries live.
pub const FRAMEWORK_PATHS: [&'static str; 8] = [
    "/anchor-spl/",
    "/anchor_spl/",
    "/anchor-lang/",
    "/anchor_lang/",
    "/codegen/",
    "/interface/src/",
    "/spl-token/",
    "/spl_token/",
];

/// Words in the name of a call that decodes bytes.
pub const DESER_PATTERNS: [&'static str; 5] = [
    "deserialize",
    "try_from_slice",
    "unpack",
    "try_deserialize",
    "try_borrow_data",
];

/// How an account of a checked type is written.
pub const TYPED_ACCOUNT: [&'static str; 2] = ["Account <", "Account<"];

/// What an owner is compared with.
pub const OWNER_PEERS: [&'static str; 5] = ["program_id", "key ()", ":: id ()", ":: ID", "check_id"];

/// How an owner is compared.
pub const OWNER_COMPARISONS: [&'static str; 2] = ["owner ==", "owner !="];

/// The node is a call that decodes bytes.
pub open spec fn decodes(n: Node) -> bool {
    callee_name(n) matches Some(name) && mentions_any(name, DESER_PATTERNS@)
}

/// The identifier `word` stands for borrowing, and is called.
pub open spec fn borrows(code: Seq<char>, word: Seq<char>) -> bool {
    mentions(word, "borrow"@) && marked(code, word, '(')
}

/// The body reads account data: it makes a call that borrows it, or reaches for a
/// member `data`.
pub open spec fn reads_data(body: Seq<char>) -> bool {
    some_text(words(body), |w: Seq<char>| borrows(body, w)) || mentions_ended(body, ". data"@)
}

/// The body compares an owner with something.
pub open spec fn compares_owner(body: Seq<char>) -> bool {
    ||| mentions(body, "owner"@) && mentions_any(body, OWNER_PEERS@)
    ||| mentions_any(body, OWNER_COMPARISONS@)
}

/// The node is a function, not named `name`, that compares an owner and that is
/// among `calls`.
pub open spec fn owner_helper(n: Node, name: Seq<char>, calls: Seq<Seq<char>>) -> bool {
    n.kind is Function && n.name@ != name && calls.contains(n.name@) && compares_owner(
        n.body_text(),
    )
}

/// A function that `name` calls, and that stands directly in the file, compares an
/// owner.
pub open spec fn callee_compares(ctx: ScanContext, name: Seq<char>) -> bool {
    ctx.call_graph.lookup(name) matches Some(info) && some(
        ctx.ast.parts(Role::Entry),
        |n: Node| owner_helper(n, name, texts(info.calls@)),
    )
}

/// `f` decodes account data and nobody compares the owner.
pub open spec fn unowned(ctx: ScanContext, f: Node) -> bool {
    &&& f.kind is Function
    &&& !carries_test(f)
    &&& mentions_any(f.text@, TYPED_ACCOUNT@) ==> mentions(f.text@, "AccountInfo"@)
    &&& f.part(Role::Body) matches Some(body) && some(nodes(body), |n: Node| decodes(n))
    &&& reads_data(f.body_text())
    &&& !compares_owner(f.body_text())
    &&& !caller_checks(ctx.call_graph, f.name@, CheckKind::OwnerCheck)
    &&& !callee_compares(ctx, f.name@)
}

/// The report on `f`, if there is one.
pub open spec fn report_on(ctx: ScanContext, f: Node) -> Option<Report> {
    if unowned(ctx, f) {
        Some(
            raised(
                profile(),
                ctx,
                Confidence::High,
                f.line,
                f.column,
                "Function '"@ + f.name@
                    + "' deserializes account data without verifying account owner"@,
                "Add `if account.owner != program_id { return Err(...) }` before deserialization, or use Anchor's `Account<'info, T>`"@,
            ),
        )
    } else {
        None
    }
}

/// Whether the block makes a call that decodes bytes.
pub fn has_deser_call(block: &Node) -> (b: bool)
    ensures
        b == some(nodes(*block), |n: Node| decodes(n)),
{
    let list = nodes_in(block);
    any_node(
        &list,
        |n: &Node| -> (r: bool)
            ensures
                r == decodes(*n)
        {
            match get_callee_name(n) {
                Some(name) => contains_any(name, DESER_PATTERNS.as_slice()),
                None => false,
            }
        },
        Ghost(|n: Node| decodes(n)),
    )
}

/// Whether the body reads account data.
pub fn reads_account_data(body_src: &str) -> (b: bool)
    ensures
        b == reads_data(body_src@),
{
    any_text(
        &words_of(body_src),
        |w: &str| -> (r: bool)
            ensures
                r == borrows(body_src@, w@)
        { contains(w, "borrow") && finds_marked(body_src, w, '(') },
        Ghost(|w: Seq<char>| borrows(body_src@, w)),
    ) || finds_ended(body_src, ". data")
}

/// Whether the body compares an owner with something.
pub fn body_has_owner_check(body_src: &str) -> (b: bool)
    ensures
        b == compares_owner(body_src@),
{
    (contains(body_src, "owner") && contains_any(body_src, OWNER_PEERS.as_slice())) || contains_any(
        body_src,
        OWNER_COMPARISONS.as_slice(),
    )
}

/// Whether a function that `fn_name` calls compares an owner.
pub fn callee_has_owner_check(ctx: &ScanContext, fn_name: &str) -> (b: bool)
    ensures
        b == callee_compares(*ctx, fn_name@),
{
    match ctx.call_graph.get(fn_name) {
        Some(info) => {
            let list = ctx.ast.get_parts(Role::Entry);
            any_node(
                &list,
                |n: &Node| -> (r: bool)
                    ensures
                        r == owner_helper(*n, fn_name@, texts(info.calls@))
                {
                    matches!(n.kind, Kind::Function) && !same(n.name.as_str(), fn_name) && listed(
                        &info.calls,
                        n.name.as_str(),
                    ) && body_has_owner_check(n.get_body_text())
                },
                Ghost(|n: Node| owner_helper(n, fn_name@, texts(info.calls@))),
            )
        },
        None => false,
    }
}

impl MissingOwnerDetector {
    /// The finding on `f`, if there is one.
    pub fn check(&self, ctx: &ScanContext, f: &Node) -> (r: Option<Finding>)
        ensures
            opt_report(r) == report_on(*ctx, *f),
    {
        match f.kind {
            Kind::Function => {},
            _ => {
                return None;
            },
        }
        if has_test_attribute(f) {
            return None;
        }
        let source = f.text.as_str();
        if contains_any(source, TYPED_ACCOUNT.as_slice()) && !contains(source, "AccountInfo") {
            return None;
        }
        match f.get_part(Role::Body) {
            Some(body) => if !has_deser_call(body) {
                return None;
            },
            None => {
                return None;
            },
        }
        let body = f.get_body_text();
        let name = f.name.as_str();
        if !reads_account_data(body) || body_has_owner_check(body) || caller_has_check(
            &ctx.call_graph,
            name,
            CheckKind::OwnerCheck,
        ) || callee_has_owner_check(ctx, name) {
            return None;
        }
        let text = join3(
            "Function '",
            name,
            "' deserializes account data without verifying account owner",
        );
        Some(
            raise(
                &info(),
                ctx,
                Confidence::High,
                f.line,
                f.column,
                text,
                "Add `if account.owner != program_id { return Err(...) }` before deserialization, or use Anchor's `Account<'info, T>`",
            ),
        )
    }
}

impl Detector for MissingOwnerDetector {
    open spec fn profile(&self) -> Profile {
        profile()
    }

    open spec fn reports_on(&self, ctx: ScanContext) -> Seq<Report> {
        if !mentions_any(ctx.source@, SOLANA_MARKERS@)
            || mentions_any(ctx.file_path@, FRAMEWORK_PATHS@) {
            Seq::empty()
        } else {
            reports_of(walk(ctx.ast, outside_functions_and_tests()), |f: Node| report_on(ctx, f))
        }
    }

    fn id(&self) -> (r: &'static str) {
        info().id
    }

    fn name(&self) -> (r: &'static str) {
        info().name
    }

    fn description(&self) -> (r: &'static str) {
        info().description
    }

    fn severity(&self) -> (r: Severity) {
        info().severity
    }

    fn confidence(&self) -> (r: Confidence) {
        info().confidence
    }

    fn chain(&self) -> (r: Chain) {
        info().chain
    }

    fn detect(&self, ctx: &ScanContext) -> (r: Vec<Finding>) {
        if !contains_any(ctx.source.as_str(), SOLANA_MARKERS.as_slice())
            || contains_any(ctx.file_path.as_str(), FRAMEWORK_PATHS.as_slice()) {
            return Vec::new();
        }
        let list = walk_nodes(
            &ctx.ast,
            |n: &Node| -> (b: bool)
                ensures
                    b == outside_functions_and_tests()(*n)
            {
                !matches!(n.kind, Kind::Function)
                    && !(matches!(n.kind, Kind::Module) && is_cfg_test(n))
            },
            Ghost(outside_functions_and_tests()),
        );
        collect_findings(
            &list,
            |f: &Node| -> (s: Option<Finding>)
                ensures
                    opt_report(s) == report_on(*ctx, *f)
            { self.check(ctx, f) },
            Ghost(|f: Node| report_on(*ctx, f)),
        )
    }

    proof fn law_findings_are_stamped(&self, ctx: ScanContext) {
        assert forall|i: int| 0 <= i < self.reports_on(ctx).len() implies stamped(
            #[trigger] self.reports_on(ctx)[i],
            self.profile(),
            ctx,
        ) by {
            lemma_reports_from(walk(ctx.ast, outside_functions_and_tests()), |f: Node| report_on(ctx, f), i);
        }
    }
}

/// Every finding has the confidence that the rule states of itself.
pub proof fn law_confidence_is_the_rules_own(ctx: ScanContext)
    ensures
        forall|i: int|
            0 <= i < MissingOwnerDetector.reports_on(ctx).len() ==> (
            #[trigger] MissingOwnerDetector.reports_on(ctx)[i]).confidence == profile().confidence,
{
    assert forall|i: int| 0 <= i < MissingOwnerDetector.reports_on(ctx).len() implies (
        #[trigger] MissingOwnerDetector.reports_on(ctx)[i]).confidence == profile().confidence by {
        lemma_reports_from(walk(ctx.ast, outside_functions_and_tests()), |f: Node| report_on(ctx, f), i);
    }
}

/// Nothing is reported on a file that shows no mark of a Solana program, or that belongs to a framework.
pub proof fn law_out_of_scope_is_silent(ctx: ScanContext)
    requires
        !mentions_any(ctx.source@, SOLANA_MARKERS@)
            || mentions_any(ctx.file_path@, FRAMEWORK_PATHS@),
    ensures
        MissingOwnerDetector.reports_on(ctx).len() == 0,
{
}

/// Nothing is reported on a test function.
pub proof fn law_test_function_is_silent(ctx: ScanContext, f: Node)
    requires
        carries_test(f),
    ensures
        report_on(ctx, f) is None,
{
}

/// A test module contributes no report, whatever it holds.
pub proof fn law_test_module_is_silent(ctx: ScanContext, m: Node)
    requires
        m.kind is Module,
        test_builds_only(m),
    ensures
        reports_of(walk(m, outside_functions_and_tests()), |f: Node| report_on(ctx, f)) == Seq::<Report>::empty(),
{
    lemma_sealed(m, outside_functions_and_tests(), |f: Node| report_on(ctx, f));
}

/// What is reported on is spoken of, wherever in the file it stands.
proof fn lemma_reported(ctx: ScanContext, path: Seq<Node>, f: Node)
    requires
        leads_openly(path, ctx.ast, f),
        report_on(ctx, f) is Some,
        mentions_any(ctx.source@, seq!["solana_program", "anchor_lang", "AccountInfo", "ProgramResult", "solana_sdk"]),
        !mentions_any(ctx.file_path@, seq!["/anchor-spl/", "/anchor_spl/", "/anchor-lang/", "/anchor_lang/", "/codegen/", "/interface/src/", "/spl-token/", "/spl_token/"]),
    ensures
        speaks_of(MissingOwnerDetector.reports_on(ctx), f),
{
    lemma_spoken_of(path, outside_functions_and_tests(), |n: Node| report_on(ctx, n), "Function '"@, "' deserializes account data without verifying account owner"@);
}

/// A function that calls something which decodes, and reads the data of an account, by
/// a field or by borrowing, is reported, if nothing compares an owner.
pub proof fn law_unowned_data_is_reported(ctx: ScanContext, path: Seq<Node>, f: Node, body: Node, n: Node, name: Seq<char>, w: Seq<char>)
    requires
        mentions_any(ctx.source@, seq!["solana_program", "anchor_lang", "AccountInfo", "ProgramResult", "solana_sdk"]),
        !mentions_any(ctx.file_path@, seq!["/anchor-spl/", "/anchor_spl/", "/anchor-lang/", "/anchor_lang/", "/codegen/", "/interface/src/", "/spl-token/", "/spl_token/"]),
        leads_openly(path, ctx.ast, f),
        f.kind is Function,
        f.parts(Role::Attribute).len() == 0,
        !mentions_any(f.text@, seq!["Account <", "Account<"]) || mentions(f.text@, "AccountInfo"@),
        f.part(Role::Body) == Some(body),
        nodes(body).contains(n),
        callee_name(n) == Some(name),
        mentions_any(name, seq!["deserialize", "try_from_slice", "unpack", "try_deserialize", "try_borrow_data"]),
        mentions_ended(body.text@, ". data"@) || (words(body.text@).contains(w) && mentions(w, "borrow"@) && marked(body.text@, w, '(')),
        !mentions(f.body_text(), "owner"@) || !mentions_any(f.body_text(), seq!["program_id", "key ()", ":: id ()", ":: ID", "check_id"]),
        !mentions_any(f.body_text(), seq!["owner ==", "owner !="]),
        ctx.call_graph.lookup(f.name@) is None,
        !caller_checks(ctx.call_graph, f.name@, CheckKind::OwnerCheck),
    ensures
        speaks_of(MissingOwnerDetector.reports_on(ctx), f),
{
    let list = nodes(body);
    let p = |m: Node| decodes(m);
    assert(p(list[list.index_of(n)]));
    if words(body.text@).contains(w) {
        let q = |v: Seq<char>| borrows(body.text@, v);
        let i = words(body.text@).index_of(w);
        assert(q(words(body.text@)[i]) == borrows(body.text@, w));
    }
    assert(!carries_test(f));
    assert(unowned(ctx, f));
    lemma_reported(ctx, path, f);
}

/// What is reported decodes something and compares no owner.
pub proof fn law_reported_data_is_unowned(ctx: ScanContext, f: Node)
    requires
        report_on(ctx, f) is Some,
    ensures
        f.kind is Function,
        !mentions(f.body_text(), "owner"@) || !mentions_any(f.body_text(), seq!["program_id", "key ()", ":: id ()", ":: ID", "check_id"]),
        !mentions_any(f.body_text(), seq!["owner ==", "owner !="]),
        f.part(Role::Body) matches Some(body) && exists|k: int| 0 <= k < nodes(body).len() && (callee_name(#[trigger] nodes(body)[k]) matches Some(name) && mentions_any(name, seq!["deserialize", "try_from_slice", "unpack", "try_deserialize", "try_borrow_data"])),
        !mentions_any(f.text@, seq!["Account <", "Account<"]) || mentions(f.text@, "AccountInfo"@),
{
    let body = f.part(Role::Body)->0;
    let list = nodes(body);
    let p = |m: Node| decodes(m);
    let k = choose|k: int| 0 <= k < list.len() && #[trigger] p(list[k]);
    assert(callee_name(nodes(body)[k]) is Some);
}

/// A function is not reported if one that calls it is known to compare an owner.
pub proof fn law_caller_may_compare_the_owner(ctx: ScanContext, f: Node, i: int)
    requires
        0 <= i < ctx.call_graph.entries@.len(),
        ctx.call_graph.entries@[i].has_owner_check,
        texts(ctx.call_graph.entries@[i].calls@).contains(f.name@),
    ensures
        report_on(ctx, f) is None,
{
    assert(ctx.call_graph.entries@[i].makes(CheckKind::OwnerCheck));
    assert(caller_checks(ctx.call_graph, f.name@, CheckKind::OwnerCheck));
}

/// Nor is it if one that it is known to call, and that stands directly in the file,
/// compares an owner.
pub proof fn law_callee_may_compare_the_owner(ctx: ScanContext, f: Node, h: Node)
    requires
        ctx.call_graph.lookup(f.name@) matches Some(known) && texts(known.calls@).contains(h.name@),
        ctx.ast.parts(Role::Entry).contains(h),
        h.kind is Function,
        h.name@ != f.name@,
        mentions_any(h.body_text(), seq!["owner ==", "owner !="]) || (mentions(h.body_text(), "owner"@) && mentions_any(h.body_text(), seq!["program_id", "key ()", ":: id ()", ":: ID", "check_id"])),
    ensures
        report_on(ctx, f) is None,
{
    let list = ctx.ast.parts(Role::Entry);
    let known = ctx.call_graph.lookup(f.name@)->0;
    let p = |n: Node| owner_helper(n, f.name@, texts(known.calls@));
    assert(compares_owner(h.body_text()));
    assert(p(list[list.index_of(h)]));
    assert(callee_compares(ctx, f.name@));
}

/// A function that carries a test attribute of whatever framework is not reported.
pub proof fn law_marked_test_is_silent(ctx: ScanContext, f: Node, k: int)
    requires
        0 <= k < f.parts(Role::Attribute).len(),
        f.parts(Role::Attribute)[k].last_word() == Some("test"@),
    ensures
        report_on(ctx, f) is None,
{
    let p = |a: Node| a.last_word() == Some("test"@);
    assert(p(f.parts(Role::Attribute)[k]));
}

/// No function vouches for itself.
pub proof fn law_no_function_vouches_for_itself(n: Node, calls: Seq<Seq<char>>)
    requires
        n.kind is Function,
    ensures
        !owner_helper(n, n.name@, calls),
{
}

/// What decodes is a call by one of these names.
pub proof fn law_decoding_is_named(n: Node)
    requires
        decodes(n),
    ensures
        callee_name(n) matches Some(name) && mentions_any(name, seq!["deserialize", "try_from_slice", "unpack", "try_deserialize", "try_borrow_data"]),
{
}

/// A callee compares the owner only if it is a function of the file.
pub proof fn law_callee_is_in_the_file(ctx: ScanContext, name: Seq<char>)
    requires
        callee_compares(ctx, name),
    ensures
        exists|k: int| 0 <= k < ctx.ast.parts(Role::Entry).len() && (#[trigger] ctx.ast.parts(Role::Entry)[k]).kind is Function && ctx.ast.parts(Role::Entry)[k].name@ != name,
{
    let info = ctx.call_graph.lookup(name)->0;
    let p = |n: Node| owner_helper(n, name, texts(info.calls@));
    let list = ctx.ast.parts(Role::Entry);
    let k = choose|k: int| 0 <= k < list.len() && #[trigger] p(list[k]);
    assert(list[k].kind is Function && list[k].name@ != name);
}

} // verus!
