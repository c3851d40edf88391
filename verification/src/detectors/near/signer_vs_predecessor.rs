//! Access control by who signed, in place of who calls.
use vstd::prelude::*;
use crate::attributes::{carries_test, has_test_attribute, is_cfg_test};
use crate::calls::{get_path_call, is_named, own, path_call};
use crate::cfg::test_builds_only;
use crate::context::{lines_of, ScanContext, source_lines};
use crate::detector::{Detector, Profile, raise, raised, RuleInfo, stamped};
use crate::finding::{Chain, Confidence, Finding, Report, Severity};
use crate::patterns::{bound, get_bound, let_name};
use crate::quotes::{blank_literals, law_unquoted_is_kept, outside_literals};
use crate::search::{
    find_from, first_match, get_next_mark, get_previous_mark, lemma_first_match, next_mark,
    previous_mark,
};
use crate::syntax::{Kind, Node, Role};
use crate::text::{
    any_text, begins, begins_any, chars_of, contains, is_any, join3, lemma_holds_middle, listed,
    mentions, occurs_at, same_as_any, some_text, starts_with_any, texts, trim_text, trimmed,
    word_char, words, words_of,
};
use crate::tokens::idents;
use crate::walk::{
    any_node, collect_findings, collect_names, law_led_to_is_met, law_report_is_listed,
    leads_openly, lemma_named_by, lemma_reports_from, lemma_sealed, names_of, nodes, nodes_in,
    opt_report, opt_text, reports_of, some, walk, walk_nodes,
};

verus! {

/// Reports functions that decide by the signer of the transaction, in place of
/// the account that calls.
pub struct SignerVsPredecessorDetector;

/// The rule's description of itself.
pub open spec fn profile() -> Profile {
    Profile {
        id: "NEAR-002"@,
        name: "signer-vs-predecessor"@,
        description: "Detects env::signer_account_id() misuse in access control (should use predecessor)"@,
        severity: Severity::High,
        confidence: Confidence::High,
        chain: Chain::Near,
    }
}

/// The rule's description of itself.
fn info() -> (r: RuleInfo)
    ensures
        r@ == profile(),
{
    RuleInfo {
        id: "NEAR-002",
        name: "signer-vs-predecessor",
        description: "Detects env::signer_account_id() misuse in access control (should use predecessor)",
        severity: Severity::High,
        confidence: Confidence::High,
        chain: Chain::Near,
    }
}

/// The macros that assert.
pub const ASSERTIONS: [&'static str; 9] = [
    "assert",
    "assert_eq",
    "assert_ne",
    "debug_assert",
    "debug_assert_eq",
    "debug_assert_ne",
    "require",
    "require_eq",
    "require_ne",
];

/// The equality operators.
pub const EQUALITIES: [&'static str; 2] = ["==", "!="];

/// How a line of comment begins.
pub const COMMENTS: [&'static str; 3] = ["//", "///", "*"];

/// The identifier that ends with the `needle` at `i` is `needle`, and it is called,
/// not as a method.
pub open spec fn called_at(code: Seq<char>, needle: Seq<char>, i: int) -> bool {
    &&& next_mark(code, i + needle.len()) == Some('(')
    &&& previous_mark(code, i) != Some('.')
    &&& i == 0 || !word_char(code[i - 1])
}

/// Going from left to right through the occurrences of `needle` that do not
/// overlap, from `from` on, one is called, and not as a method.
pub open spec fn env_call_from(tokens: Seq<char>, needle: Seq<char>, from: int) -> bool
    decreases tokens.len() - from,
{
    match first_match(tokens, needle, from) {
        Some(i) => if needle.len() > 0 && from <= i <= tokens.len() - needle.len() {
            called_at(tokens, needle, i) || env_call_from(tokens, needle, i + needle.len())
        } else {
            false
        },
        None => false,
    }
}

/// The printed code calls the function `needle`. What a literal says is no call.
pub open spec fn env_call(tokens: Seq<char>, needle: Seq<char>) -> bool {
    env_call_from(outside_literals(tokens), needle, 0)
}

/// One of `idents` stands in the printed code, outside of literals, as a whole
/// identifier.
pub open spec fn uses_ident(tokens: Seq<char>, idents: Seq<Seq<char>>) -> bool {
    some_text(words(outside_literals(tokens)), |w: Seq<char>| w.len() > 0 && idents.contains(w))
}

/// The printed code uses the account that `call` asks for, directly or through one
/// of `vars`.
pub open spec fn uses_account(tokens: Seq<char>, call: Seq<char>, vars: Seq<Seq<char>>) -> bool {
    env_call(tokens, call) || uses_ident(tokens, vars)
}

/// The expression is a call of `name` without arguments, and nothing more.
pub open spec fn exact_call(e: Node, name: Seq<char>) -> bool {
    path_call(e) == Some(name) && e.parts(Role::Argument).len() == 0
}

/// The name that a `let` binds to exactly a call of `wanted`.
pub open spec fn bound_to(n: Node, wanted: Seq<char>) -> Option<Seq<char>> {
    match n.part(Role::Init) {
        Some(init) => if n.kind is Local && exact_call(init, wanted) {
            let_name(n)
        } else {
            None
        },
        _ => None,
    }
}

/// The locals that hold the signer.
pub open spec fn signer_vars(block: Node) -> Seq<Seq<char>> {
    names_of(nodes(block), |n: Node| bound_to(n, "signer_account_id"@))
}

/// The locals that hold the caller.
pub open spec fn pred_vars(block: Node) -> Seq<Seq<char>> {
    names_of(nodes(block), |n: Node| bound_to(n, "predecessor_account_id"@))
}

/// The printed code uses the signer.
pub open spec fn uses_signer(tokens: Seq<char>, signer: Seq<Seq<char>>) -> bool {
    uses_account(tokens, "signer_account_id"@, signer)
}

/// The printed code uses the caller.
pub open spec fn uses_pred(tokens: Seq<char>, pred: Seq<Seq<char>>) -> bool {
    uses_account(tokens, "predecessor_account_id"@, pred)
}

/// The node decides by the signer, and not by comparing it with the caller.
pub open spec fn violates(n: Node, signer: Seq<Seq<char>>, pred: Seq<Seq<char>>) -> bool {
    match n.kind {
        Kind::Binary => match (n.part(Role::Left), n.part(Role::Right)) {
            (Some(left), Some(right)) => {
                &&& is_any(n.name@, EQUALITIES@)
                &&& uses_signer(left.text@, signer) || uses_signer(right.text@, signer)
                &&& !uses_pred(left.text@, pred)
                &&& !uses_pred(right.text@, pred)
            },
            _ => false,
        },
        Kind::Macro => {
            &&& n.last_word() matches Some(name) && is_any(name, ASSERTIONS@)
            &&& uses_signer(n.text@, signer)
            &&& !uses_pred(n.text@, pred)
        },
        _ => false,
    }
}

/// The function is a test.
pub open spec fn skipped(f: Node) -> bool {
    mentions(f.name@, "test"@) || carries_test(f) || test_builds_only(f)
}

/// `f` decides by the signer.
pub open spec fn misuses_signer(f: Node) -> bool {
    &&& f.kind is Function
    &&& !skipped(f)
    &&& mentions(f.body_text(), "signer_account_id"@)
    &&& f.part(Role::Body) matches Some(body) && some(
        nodes(body),
        |n: Node| violates(n, signer_vars(body), pred_vars(body)),
    )
}

/// The line mentions the signer, and is no comment.
pub open spec fn signer_line(line: Seq<char>) -> bool {
    mentions(trimmed(line), "signer_account_id"@) && !begins_any(trimmed(line), COMMENTS@)
}

/// The number, counting from one, of the first of `lines` that mentions the signer,
/// or `otherwise` where none does.
pub open spec fn first_signer_line(lines: Seq<Seq<char>>, otherwise: usize) -> usize
    decreases lines.len(),
{
    if lines.len() == 0 {
        otherwise
    } else if some_text(lines.drop_last(), |l: Seq<char>| signer_line(l)) {
        first_signer_line(lines.drop_last(), otherwise)
    } else if signer_line(lines.last()) {
        lines.len() as usize
    } else {
        otherwise
    }
}

/// The report on `f`, if there is one.
pub open spec fn report_on(ctx: ScanContext, f: Node) -> Option<Report> {
    if misuses_signer(f) {
        Some(
            raised(
                profile(),
                ctx,
                Confidence::High,
                first_signer_line(source_lines(ctx.source@), f.line),
                1,
                "Function '"@ + f.name@
                    + "' uses signer_account_id() for access control instead of predecessor_account_id()"@,
                "Use env::predecessor_account_id() for access control. signer_account_id() returns the transaction originator which can differ from the direct caller in cross-contract calls"@,
            ),
        )
    } else {
        None
    }
}

/// Go below everything but tests.
pub open spec fn deployed() -> spec_fn(Node) -> bool {
    |n: Node| !(n.kind is Module && test_builds_only(n)) && !(n.kind is Function && skipped(n))
}

/// Whether the printed code calls the function `needle`.
pub fn is_env_call(tokens: &str, needle: &str) -> (b: bool)
    ensures
        b == env_call(tokens@, needle@),
{
    let code = blank_literals(tokens);
    let hay = chars_of(code.as_str());
    let sought = chars_of(needle);
    if sought.len() == 0 {
        return false;
    }
    let total = hay.len();
    let mut from: usize = 0;
    loop
        invariant
            hay@ == outside_literals(tokens@),
            sought@ == needle@,
            sought@.len() > 0,
            total == hay@.len(),
            from <= total,
            env_call(tokens@, needle@) == env_call_from(hay@, needle@, from as int),
        decreases total - from,
    {
        proof {
            lemma_first_match(hay@, sought@, from as int);
        }
        match find_from(&hay, &sought, from) {
            Some(i) => {
                let next: usize = i + sought.len();
                let called = match get_next_mark(&hay, next) {
                    Some(c) => c == '(',
                    None => false,
                };
                let method = match get_previous_mark(&hay, i) {
                    Some(c) => c == '.',
                    None => false,
                };
                let whole = i == 0 || !(hay[i - 1].is_alphanumeric() || hay[i - 1] == '_');
                if called && !method && whole {
                    return true;
                }
                from = next;
            },
            None => {
                return false;
            },
        }
    }
}

/// Whether one of `idents` stands in the printed code as a whole identifier.
pub fn tokens_contain_ident(tokens: &str, idents: &Vec<String>) -> (b: bool)
    ensures
        b == uses_ident(tokens@, texts(idents@)),
{
    let spelled = words_of(blank_literals(tokens).as_str());
    let ghost known = texts(idents@);
    any_text(
        &spelled,
        |w: &str| -> (r: bool)
            ensures
                r == (w@.len() > 0 && known.contains(w@))
        { !w.is_empty() && listed(idents, w) },
        Ghost(|w: Seq<char>| w.len() > 0 && known.contains(w)),
    )
}

/// The identifier that a simple pattern binds.
pub fn pat_ident_name(p: &Node) -> (r: Option<String>)
    ensures
        opt_text(r) == bound(*p),
{
    own(get_bound(p))
}

/// The names that the `let`s of `list` bind to exactly a call of `wanted`.
fn collect_bound_vars(list: &Vec<&Node>, wanted: &str) -> (r: Vec<String>)
    ensures
        texts(r@) == names_of(list@.unref(), |n: Node| bound_to(n, wanted@)),
{
    collect_names(
        list,
        |n: &Node| -> (s: Option<String>)
            ensures
                opt_text(s) == bound_to(*n, wanted@)
        {
            match (n.get_part(Role::Init), n.get_part(Role::Pattern)) {
                (Some(init), Some(pat)) => if matches!(n.kind, Kind::Local) && is_named(
                    get_path_call(init),
                    wanted,
                ) && init.get_parts(Role::Argument).len() == 0 {
                    pat_ident_name(pat)
                } else {
                    None
                },
                _ => None,
            }
        },
        Ghost(|n: Node| bound_to(n, wanted@)),
    )
}

/// The locals of a body that hold the signer, and those that hold the caller.
pub struct AccessControlVisitor {
    pub signer_vars: Vec<String>,
    pub pred_vars: Vec<String>,
}

impl AccessControlVisitor {
    /// Whether the printed code uses the signer.
    pub fn refs_signer(&self, tokens: &str) -> (b: bool)
        ensures
            b == uses_signer(tokens@, texts(self.signer_vars@)),
    {
        is_env_call(tokens, "signer_account_id") || tokens_contain_ident(tokens, &self.signer_vars)
    }

    /// Whether the printed code uses the caller.
    pub fn refs_pred(&self, tokens: &str) -> (b: bool)
        ensures
            b == uses_pred(tokens@, texts(self.pred_vars@)),
    {
        is_env_call(tokens, "predecessor_account_id") || tokens_contain_ident(
            tokens,
            &self.pred_vars,
        )
    }

    /// Whether the node decides by the signer, and not by comparing it with the
    /// caller.
    pub fn is_violation(&self, n: &Node) -> (b: bool)
        ensures
            b == violates(*n, texts(self.signer_vars@), texts(self.pred_vars@)),
    {
        match n.kind {
            Kind::Binary => match (n.get_part(Role::Left), n.get_part(Role::Right)) {
                (Some(left), Some(right)) => same_as_any(
                    n.name.as_str(),
                    EQUALITIES.as_slice(),
                ) && (self.refs_signer(left.text.as_str()) || self.refs_signer(right.text.as_str()))
                    && !self.refs_pred(left.text.as_str()) && !self.refs_pred(right.text.as_str()),
                _ => false,
            },
            Kind::Macro => (match n.get_last_word() {
                Some(name) => same_as_any(name, ASSERTIONS.as_slice()),
                None => false,
            }) && self.refs_signer(n.text.as_str()) && !self.refs_pred(n.text.as_str()),
            _ => false,
        }
    }
}

/// Whether the function is a test.
fn is_skipped(f: &Node) -> (b: bool)
    ensures
        b == skipped(*f),
{
    contains(f.name.as_str(), "test") || has_test_attribute(f) || is_cfg_test(f)
}

/// Whether something in the block decides by the signer.
fn has_violation(body: &Node) -> (b: bool)
    ensures
        b == some(nodes(*body), |n: Node| violates(n, signer_vars(*body), pred_vars(*body))),
{
    let list = nodes_in(body);
    let visitor = AccessControlVisitor {
        signer_vars: collect_bound_vars(&list, "signer_account_id"),
        pred_vars: collect_bound_vars(&list, "predecessor_account_id"),
    };
    any_node(
        &list,
        |n: &Node| -> (r: bool)
            ensures
                r == violates(*n, signer_vars(*body), pred_vars(*body))
        { visitor.is_violation(n) },
        Ghost(|n: Node| violates(n, signer_vars(*body), pred_vars(*body))),
    )
}

/// Whether the line mentions the signer, and is no comment.
fn is_signer_line(line: &str) -> (b: bool)
    ensures
        b == signer_line(line@),
{
    let text = trim_text(&chars_of(line));
    contains(text.as_str(), "signer_account_id") && !starts_with_any(
        text.as_str(),
        COMMENTS.as_slice(),
    )
}

/// The number, counting from one, of the first of `lines` that mentions the signer.
fn find_signer_line(lines: &Vec<String>, otherwise: usize) -> (r: usize)
    ensures
        r == first_signer_line(texts(lines@), otherwise),
{
    let ghost all = texts(lines@);
    let ghost p = |l: Seq<char>| signer_line(l);
    let mut found: Option<usize> = None;
    let mut i: usize = 0;
    while i < lines.len()
        invariant
            i <= lines@.len(),
            all == texts(lines@),
            p == (|l: Seq<char>| signer_line(l)),
            found is None <==> !some_text(all.take(i as int), p),
            first_signer_line(all.take(i as int), otherwise) == (match found {
                Some(k) => k,
                None => otherwise,
            }),
        decreases lines@.len() - i,
    {
        proof {
            let before = all.take(i as int);
            let next = all.take(i as int + 1);
            assert(next.drop_last() =~= before);
            assert(next.last() == lines@[i as int]@);
            if some_text(before, p) {
                let k = choose|k: int| 0 <= k < before.len() && #[trigger] p(before[k]);
                assert(p(next[k]));
            }
            if p(next.last()) {
                assert(p(next[i as int]));
            }
            if some_text(next, p) && !p(next.last()) {
                let k = choose|k: int| 0 <= k < next.len() && #[trigger] p(next[k]);
                assert(p(before[k]));
            }
        }
        let here = is_signer_line(lines[i].as_str());
        i = i + 1;
        if found.is_none() && here {
            found = Some(i);
        }
    }
    assert(all.take(i as int) =~= all);
    match found {
        Some(k) => k,
        None => otherwise,
    }
}

impl SignerVsPredecessorDetector {
    /// The finding on `f`, if there is one.
    pub fn check(&self, ctx: &ScanContext, f: &Node) -> (r: Option<Finding>)
        ensures
            opt_report(r) == report_on(*ctx, *f),
    {
        match f.kind {
            Kind::Function => {},
            _ => {
                return None;
            },
        }
        if is_skipped(f) || !contains(f.get_body_text(), "signer_account_id") {
            return None;
        }
        match f.get_part(Role::Body) {
            Some(body) => {
                if !has_violation(body) {
                    return None;
                }
            },
            None => {
                return None;
            },
        }
        let line = find_signer_line(&lines_of(ctx.source.as_str()), f.line);
        let text = join3(
            "Function '",
            f.name.as_str(),
            "' uses signer_account_id() for access control instead of predecessor_account_id()",
        );
        Some(
            raise(
                &info(),
                ctx,
                Confidence::High,
                line,
                1,
                text,
                "Use env::predecessor_account_id() for access control. signer_account_id() returns the transaction originator which can differ from the direct caller in cross-contract calls",
            ),
        )
    }
}

impl Detector for SignerVsPredecessorDetector {
    open spec fn profile(&self) -> Profile {
        profile()
    }

    open spec fn reports_on(&self, ctx: ScanContext) -> Seq<Report> {
        reports_of(walk(ctx.ast, deployed()), |f: Node| report_on(ctx, f))
    }

    fn id(&self) -> (r: &'static str) {
        info().id
    }

    fn name(&self) -> (r: &'static str) {
        info().name
    }

    fn description(&self) -> (r: &'static str) {
        info().description
    }

    fn severity(&self) -> (r: Severity) {
        info().severity
    }

    fn confidence(&self) -> (r: Confidence) {
        info().confidence
    }

    fn chain(&self) -> (r: Chain) {
        info().chain
    }

    fn detect(&self, ctx: &ScanContext) -> (r: Vec<Finding>) {
        let list = walk_nodes(
            &ctx.ast,
            |n: &Node| -> (b: bool)
                ensures
                    b == deployed()(*n)
            {
                !(matches!(n.kind, Kind::Module) && is_cfg_test(n))
                    && !(matches!(n.kind, Kind::Function) && is_skipped(n))
            },
            Ghost(deployed()),
        );
        collect_findings(
            &list,
            |f: &Node| -> (s: Option<Finding>)
                ensures
                    opt_report(s) == report_on(*ctx, *f)
            { self.check(ctx, f) },
            Ghost(|f: Node| report_on(*ctx, f)),
        )
    }

    proof fn law_findings_are_stamped(&self, ctx: ScanContext) {
        assert forall|i: int| 0 <= i < self.reports_on(ctx).len() implies stamped(
            #[trigger] self.reports_on(ctx)[i],
            self.profile(),
            ctx,
        ) by {
            lemma_reports_from(walk(ctx.ast, deployed()), |f: Node| report_on(ctx, f), i);
        }
    }
}

/// Every finding has the confidence that the rule states of itself.
pub proof fn law_confidence_is_the_rules_own(ctx: ScanContext)
    ensures
        forall|i: int|
            0 <= i < SignerVsPredecessorDetector.reports_on(ctx).len() ==> (
            #[trigger] SignerVsPredecessorDetector.reports_on(ctx)[i]).confidence == profile().confidence,
{
    assert forall|i: int| 0 <= i < SignerVsPredecessorDetector.reports_on(ctx).len() implies (
        #[trigger] SignerVsPredecessorDetector.reports_on(ctx)[i]).confidence == profile().confidence by {
        lemma_reports_from(walk(ctx.ast, deployed()), |f: Node| report_on(ctx, f), i);
    }
}

/// Nothing is reported on a test function.
pub proof fn law_test_function_is_silent(ctx: ScanContext, f: Node)
    requires
        skipped(f),
    ensures
        report_on(ctx, f) is None,
{
}

/// A test module contributes no report, whatever it holds.
pub proof fn law_test_module_is_silent(ctx: ScanContext, m: Node)
    requires
        m.kind is Module,
        test_builds_only(m),
    ensures
        reports_of(walk(m, deployed()), |f: Node| report_on(ctx, f)) == Seq::<Report>::empty(),
{
    lemma_sealed(m, deployed(), |f: Node| report_on(ctx, f));
}

/// The text holds no literal, and the first mention of the signer in it is a call of the
/// function, not of a method.
pub open spec fn asks_for_signer(s: Seq<char>, i: int) -> bool {
    &&& !s.contains('"') && !s.contains('\'')
    &&& first_match(s, "signer_account_id"@, 0) == Some(i)
    &&& next_mark(s, i + "signer_account_id"@.len()) == Some('(')
    &&& previous_mark(s, i) != Some('.')
    &&& i == 0 || !word_char(s[i - 1])
}

/// The text holds no literal and no mention of the caller.
pub open spec fn leaves_caller_out(s: Seq<char>) -> bool {
    !s.contains('"') && !s.contains('\'') && !mentions(s, "predecessor_account_id"@)
}

/// A text that asks for the signer uses it.
proof fn lemma_uses_signer(s: Seq<char>, i: int, vars: Seq<Seq<char>>)
    requires
        asks_for_signer(s, i),
    ensures
        uses_signer(s, vars),
{
    law_unquoted_is_kept(s, false);
    lemma_first_match(s, "signer_account_id"@, 0);
    reveal_strlit("signer_account_id");
}

/// A text that leaves the caller out does not use it, if no local holds it.
proof fn lemma_uses_no_caller(s: Seq<char>)
    requires
        leaves_caller_out(s),
    ensures
        !uses_pred(s, Seq::empty()),
{
    law_unquoted_is_kept(s, false);
    lemma_first_match(s, "predecessor_account_id"@, 0);
    if first_match(s, "predecessor_account_id"@, 0) is Some {
        assert(occurs_at(s, "predecessor_account_id"@, first_match(s, "predecessor_account_id"@, 0)->0));
    }
}

/// A body without `let` holds the caller in no local.
proof fn lemma_no_locals(body: Node, wanted: Seq<char>)
    requires
        forall|k: int| 0 <= k < nodes(body).len() ==> !((#[trigger] nodes(body)[k]).kind is Local),
    ensures
        names_of(nodes(body), |n: Node| bound_to(n, wanted)) == Seq::<Seq<char>>::empty(),
{
    let g = |n: Node| bound_to(n, wanted);
    let list = names_of(nodes(body), g);
    if list.len() > 0 {
        assert(list.contains(list[0]));
        let k = lemma_named_by(nodes(body), g, list[0]);
        assert(g(nodes(body)[k]) is Some);
    }
    assert(list =~= Seq::<Seq<char>>::empty());
}

/// A function that compares the signer with anything but the caller, on either side of
/// `==` or `!=`, is reported.
pub proof fn law_comparing_the_signer_is_reported(ctx: ScanContext, path: Seq<Node>, f: Node, body: Node, n: Node, left: Node, right: Node, i: int)
    requires
        leads_openly(path, ctx.ast, f),
        f.kind is Function,
        f.parts(Role::Attribute).len() == 0,
        !mentions(f.name@, "test"@),
        f.part(Role::Body) == Some(body),
        mentions(body.text@, "signer_account_id"@),
        forall|k: int| 0 <= k < nodes(body).len() ==> !((#[trigger] nodes(body)[k]).kind is Local),
        nodes(body).contains(n),
        n.kind is Binary,
        n.name@ == "=="@ || n.name@ == "!="@,
        n.part(Role::Left) == Some(left),
        n.part(Role::Right) == Some(right),
        asks_for_signer(left.text@, i) || asks_for_signer(right.text@, i),
        leaves_caller_out(left.text@),
        leaves_caller_out(right.text@),
    ensures
        exists|k: int| 0 <= k < SignerVsPredecessorDetector.reports_on(ctx).len() && mentions((#[trigger] SignerVsPredecessorDetector.reports_on(ctx)[k]).message, f.name@),
{
    let list = nodes(body);
    let p = list.index_of(n);
    lemma_no_locals(body, "predecessor_account_id"@);
    lemma_uses_no_caller(left.text@);
    lemma_uses_no_caller(right.text@);
    if asks_for_signer(left.text@, i) {
        lemma_uses_signer(left.text@, i, signer_vars(body));
    } else {
        lemma_uses_signer(right.text@, i, signer_vars(body));
    }
    let bad = |m: Node| violates(m, signer_vars(body), pred_vars(body));
    assert(bad(list[p]));
    assert(misuses_signer(f));
    law_led_to_is_met(path, deployed());
    let all = walk(ctx.ast, deployed());
    law_report_is_listed(all, |m: Node| report_on(ctx, m), f);
    let r = report_on(ctx, f)->0;
    let tail = "' uses signer_account_id() for access control instead of predecessor_account_id()"@;
    lemma_holds_middle(r.message, "Function '"@, f.name@, tail);
    let k = SignerVsPredecessorDetector.reports_on(ctx).index_of(r);
    assert(SignerVsPredecessorDetector.reports_on(ctx)[k] == r);
}

/// A function that asserts something of the signer, and nothing of the caller, is
/// reported, whichever of the asserting macros it uses.
pub proof fn law_asserting_the_signer_is_reported(ctx: ScanContext, path: Seq<Node>, f: Node, body: Node, n: Node, name: Seq<char>, i: int)
    requires
        leads_openly(path, ctx.ast, f),
        f.kind is Function,
        f.parts(Role::Attribute).len() == 0,
        !mentions(f.name@, "test"@),
        f.part(Role::Body) == Some(body),
        mentions(body.text@, "signer_account_id"@),
        forall|k: int| 0 <= k < nodes(body).len() ==> !((#[trigger] nodes(body)[k]).kind is Local),
        nodes(body).contains(n),
        n.kind is Macro,
        n.last_word() == Some(name),
        is_any(name, seq!["assert", "assert_eq", "assert_ne", "debug_assert", "debug_assert_eq", "debug_assert_ne", "require", "require_eq", "require_ne"]),
        asks_for_signer(n.text@, i),
        leaves_caller_out(n.text@),
    ensures
        exists|k: int| 0 <= k < SignerVsPredecessorDetector.reports_on(ctx).len() && mentions((#[trigger] SignerVsPredecessorDetector.reports_on(ctx)[k]).message, f.name@),
{
    let list = nodes(body);
    let p = list.index_of(n);
    lemma_no_locals(body, "predecessor_account_id"@);
    lemma_uses_no_caller(n.text@);
    lemma_uses_signer(n.text@, i, signer_vars(body));
    let bad = |m: Node| violates(m, signer_vars(body), pred_vars(body));
    assert(bad(list[p]));
    assert(misuses_signer(f));
    law_led_to_is_met(path, deployed());
    let all = walk(ctx.ast, deployed());
    law_report_is_listed(all, |m: Node| report_on(ctx, m), f);
    let r = report_on(ctx, f)->0;
    let tail = "' uses signer_account_id() for access control instead of predecessor_account_id()"@;
    lemma_holds_middle(r.message, "Function '"@, f.name@, tail);
    let k = SignerVsPredecessorDetector.reports_on(ctx).index_of(r);
    assert(SignerVsPredecessorDetector.reports_on(ctx)[k] == r);
}

/// What is reported mentions the signer, and holds a comparison or an assertion.
pub proof fn law_reported_function_decides(ctx: ScanContext, f: Node)
    requires
        report_on(ctx, f) is Some,
    ensures
        f.kind is Function,
        !mentions(f.name@, "test"@),
        mentions(f.body_text(), "signer_account_id"@),
        f.part(Role::Body) matches Some(body) && exists|k: int| 0 <= k < nodes(body).len() && (((#[trigger] nodes(body)[k]).kind is Binary && (nodes(body)[k].name@ == "=="@ || nodes(body)[k].name@ == "!="@)) || (nodes(body)[k].kind is Macro && (nodes(body)[k].last_word() matches Some(name) && is_any(name, seq!["assert", "assert_eq", "assert_ne", "debug_assert", "debug_assert_eq", "debug_assert_ne", "require", "require_eq", "require_ne"])))),
{
    let body = f.part(Role::Body)->0;
    let list = nodes(body);
    let bad = |m: Node| violates(m, signer_vars(body), pred_vars(body));
    let k = choose|k: int| 0 <= k < list.len() && #[trigger] bad(list[k]);
    assert(nodes(body)[k] == list[k]);
}

/// The first line that fits is the one that is named.
proof fn lemma_first_signer_line(lines: Seq<Seq<char>>, i: int, otherwise: usize)
    requires
        0 <= i < lines.len() <= usize::MAX,
        signer_line(lines[i]),
        forall|k: int| 0 <= k < i ==> !signer_line(#[trigger] lines[k]),
    ensures
        first_signer_line(lines, otherwise) == i + 1,
    decreases lines.len(),
{
    let front = lines.drop_last();
    let p = |l: Seq<char>| signer_line(l);
    if i < front.len() {
        assert(front[i] == lines[i]);
        assert(p(front[i]));
        assert forall|k: int| 0 <= k < i implies !signer_line(#[trigger] front[k]) by {
            assert(front[k] == lines[k]);
        }
        lemma_first_signer_line(front, i, otherwise);
    } else {
        assert forall|k: int| 0 <= k < front.len() implies !p(#[trigger] front[k]) by {
            assert(front[k] == lines[k]);
            assert(!signer_line(lines[k]));
        }
    }
}

/// The report stands at the first line of the file that mentions the signer and is no
/// comment.
pub proof fn law_report_stands_at_the_first_mention(ctx: ScanContext, f: Node, i: int)
    requires
        report_on(ctx, f) is Some,
        0 <= i < source_lines(ctx.source@).len() <= usize::MAX,
        mentions(trimmed(source_lines(ctx.source@)[i]), "signer_account_id"@),
        !begins(trimmed(source_lines(ctx.source@)[i]), "//"@),
        !begins(trimmed(source_lines(ctx.source@)[i]), "///"@),
        !begins(trimmed(source_lines(ctx.source@)[i]), "*"@),
        forall|k: int| 0 <= k < i ==> !mentions(trimmed(#[trigger] source_lines(ctx.source@)[k]), "signer_account_id"@) || begins(trimmed(source_lines(ctx.source@)[k]), "//"@) || begins(trimmed(source_lines(ctx.source@)[k]), "*"@),
    ensures
        (report_on(ctx, f)->0).line == i + 1,
{
    let lines = source_lines(ctx.source@);
    assert(signer_line(lines[i]));
    assert forall|k: int| 0 <= k < i implies !signer_line(#[trigger] lines[k]) by {}
    lemma_first_signer_line(lines, i, f.line);
}

/// A function that carries a test attribute of whatever framework is not reported.
pub proof fn law_marked_test_is_silent(ctx: ScanContext, f: Node, k: int)
    requires
        0 <= k < f.parts(Role::Attribute).len(),
        f.parts(Role::Attribute)[k].last_word() == Some("test"@),
    ensures
        report_on(ctx, f) is None,
{
    let p = |a: Node| a.last_word() == Some("test"@);
    assert(p(f.parts(Role::Attribute)[k]));
}

/// A function named as a test is not reported.
pub proof fn law_test_by_name_is_silent(ctx: ScanContext, f: Node)
    requires
        begins(f.name@, "test_"@) || mentions(f.name@, "test"@),
    ensures
        report_on(ctx, f) is None,
{
    reveal_strlit("test_");
    reveal_strlit("test");
    lemma_begin_is_mentioned(f.name@);
}

/// A name that begins as a test's mentions tests.
proof fn lemma_begin_is_mentioned(s: Seq<char>)
    ensures
        begins(s, "test_"@) ==> mentions(s, "test"@),
{
    reveal_strlit("test_");
    reveal_strlit("test");
    if begins(s, "test_"@) {
        assert(s.subrange(0, 4) =~= "test"@) by {
            assert forall|i: int| 0 <= i < 4 implies s[i] == "test_"@[i] by {
                assert(s.subrange(0, 5)[i] == s[i]);
            }
        }
        assert(occurs_at(s, "test"@, 0));
    }
}

/// A function that is built for tests only is not reported.
pub proof fn law_test_build_is_silent(ctx: ScanContext, f: Node)
    requires
        test_builds_only(f),
    ensures
        report_on(ctx, f) is None,
{
}

/// A call is bound as it is: by its name, and without arguments.
pub proof fn law_bound_call_is_bare(e: Node, name: Seq<char>)
    requires
        exact_call(e, name),
    ensures
        path_call(e) == Some(name),
        e.parts(Role::Argument).len() == 0,
{
}

/// What is called as a function begins a word, opens a bracket and is no method.
pub proof fn law_called_as_a_function(code: Seq<char>, needle: Seq<char>, i: int)
    requires
        called_at(code, needle, i),
    ensures
        next_mark(code, i + needle.len()) == Some('('),
        previous_mark(code, i) != Some('.'),
        i > 0 ==> !word_char(code[i - 1]),
{
}

} // verus!
