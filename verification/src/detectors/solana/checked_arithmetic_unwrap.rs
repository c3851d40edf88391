//! Checked arithmetic whose failure panics.
use vstd::prelude::*;
use crate::attributes::{carries_test, has_test_attribute, is_cfg_test};
use crate::cfg::test_builds_only;
use crate::context::ScanContext;
use crate::detector::{Detector, Profile, raise, raised, RuleInfo, stamped};
use crate::finding::{Chain, Confidence, Finding, Report, reports, Severity};
use crate::markers::SOLANA_MARKERS;
use crate::syntax::{Kind, Node, Role};
use crate::text::{
    contains, contains_any, is_any, join5, lemma_holds_middle, listed, mentions, mentions_any, same,
    same_as_any, texts,
};
use crate::walk::{
    all_reports, collect_all_findings, law_led_to_is_met, law_reports_are_listed,
    law_visits_meet_nodes_only, leads, leads_openly, lemma_all_reports_from, lemma_sealed_all,
    nodes, walk, walk_nodes,
};

verus! {

/// Reports checked operations that are unwrapped.
pub struct CheckedArithmeticUnwrapDetector;

/// The rule's description of itself.
pub open spec fn profile() -> Profile {
    Profile {
        id: "SOL-020"@,
        name: "checked-arithmetic-unwrap"@,
        description: "Detects .checked_add/sub/mul/div(...).unwrap() chains that panic instead of propagating errors"@,
        severity: Severity::Medium,
        confidence: Confidence::High,
        chain: Chain::Solana,
    }
}

/// The rule's description of itself.
fn info() -> (r: RuleInfo)
    ensures
        r@ == profile(),
{
    RuleInfo {
        id: "SOL-020",
        name: "checked-arithmetic-unwrap",
        description: "Detects .checked_add/sub/mul/div(...).unwrap() chains that panic instead of propagating errors",
        severity: Severity::Medium,
        confidence: Confidence::High,
        chain: Chain::Solana,
    }
}

/// The checked operations.
pub const CHECKED_OPS: [&'static str; 8] = [
    "checked_add",
    "checked_sub",
    "checked_mul",
    "checked_div",
    "checked_rem",
    "checked_pow",
    "checked_shl",
    "checked_shr",
];

/// The methods that ask whether an operation succeeded.
pub const GUARDS: [&'static str; 2] = ["is_none", "is_some"];

/// The name is that of a checked operation.
pub open spec fn checked_op(name: Seq<char>) -> bool {
    is_any(name, CHECKED_OPS@)
}

/// The checked operation that a method is called on directly.
pub open spec fn checked_receiver(n: Node) -> Option<Node> {
    if n.kind is MethodCall {
        match n.part(Role::Receiver) {
            Some(e) => if e.kind is MethodCall && checked_op(e.name@) { Some(e) } else { None },
            None => None,
        }
    } else {
        None
    }
}

/// The node asks whether the operation that is spelled `text` succeeded.
pub open spec fn guards(n: Node, text: Seq<char>) -> bool {
    is_any(n.name@, GUARDS@) && (checked_receiver(n) matches Some(e) && e.text@ == text)
}

/// The function is left between `i` and `end`.
pub open spec fn left_between(list: Seq<Node>, i: int, end: int) -> bool {
    exists|r: int| i < r < end && r < list.len() && #[trigger] list[r].kind is Return
}

/// The question at `i` settles, in front of `end`, that the operation that is spelled
/// `text` succeeded: it asks for success, or is asked for failure and the function is
/// left early.
pub open spec fn settles(list: Seq<Node>, i: int, end: int, text: Seq<char>) -> bool {
    &&& 0 <= i < end
    &&& guards(list[i], text)
    &&& list[i].name@ == "is_some"@ || left_between(list, i, end)
}

/// Something in front of `end` settles that the operation that is spelled `text`
/// succeeded.
pub open spec fn guarded(list: Seq<Node>, end: int, text: Seq<char>) -> bool {
    exists|i: int| #[trigger] settles(list, i, end, text)
}

/// The operation that the node at `i` unwraps although nothing in front of it settles
/// that it succeeded.
pub open spec fn hit(list: Seq<Node>, i: int) -> Option<Node> {
    match checked_receiver(list[i]) {
        Some(e) => if list[i].name@ == "unwrap"@ && !guarded(list, i, e.text@) {
            Some(e)
        } else {
            None
        },
        None => None,
    }
}

/// An operation named `op` is unwrapped at `i`.
pub open spec fn hits_at(list: Seq<Node>, i: int, op: Seq<char>) -> bool {
    0 <= i < list.len() && (hit(list, i) matches Some(e) && e.name@ == op)
}

/// An operation named `op` is unwrapped in front of `end`.
pub open spec fn hits_before(list: Seq<Node>, end: int, op: Seq<char>) -> bool {
    exists|i: int| i < end && #[trigger] hits_at(list, i, op)
}

/// The report on the unwrapped operation `e` of the function `f`.
pub open spec fn report_of(ctx: ScanContext, f: Node, e: Node) -> Report {
    raised(
        profile(),
        ctx,
        Confidence::High,
        e.line,
        e.column,
        "Function '"@ + f.name@ + "' calls ."@ + e.name@
            + "().unwrap() — use .ok_or(...)? to propagate errors instead of panicking"@,
        "Replace ."@ + e.name@ + "().unwrap() with ."@ + e.name@
            + "().ok_or(MyError::Overflow)? to return an error instead of panicking"@,
    )
}

/// The operations to report among the first `end` nodes of `list`: each where it is
/// first unwrapped.
pub open spec fn reported(list: Seq<Node>, end: nat) -> Seq<Node>
    decreases end,
{
    if end == 0 {
        Seq::empty()
    } else {
        let before = reported(list, (end - 1) as nat);
        match hit(list, end - 1) {
            Some(e) => if hits_before(list, end - 1, e.name@) { before } else { before.push(e) },
            None => before,
        }
    }
}

/// The function is a test.
pub open spec fn test_fn(f: Node) -> bool {
    mentions(f.name@, "test"@) || carries_test(f)
}

/// Go below everything but test functions and test modules.
pub open spec fn outside_tests() -> spec_fn(Node) -> bool {
    |n: Node| !(n.kind is Function && test_fn(n)) && !(n.kind is Module && test_builds_only(n))
}

/// Stay inside one function.
pub open spec fn own_body() -> spec_fn(Node) -> bool {
    |n: Node| !(n.kind is Function) && !(n.kind is Module)
}

/// The reports on `f`.
pub open spec fn reports_in(ctx: ScanContext, f: Node) -> Seq<Report> {
    if f.kind is Function && !test_fn(f) {
        match f.part(Role::Body) {
            Some(body) => reported(
                walk(body, own_body()),
                walk(body, own_body()).len(),
            ).map_values(|e: Node| report_of(ctx, f, e)),
            None => Seq::empty(),
        }
    } else {
        Seq::empty()
    }
}

/// Of each operation that is unwrapped without a question, one unwrapping is
/// reported: what is reported differs in the operation, is unwrapped in front of
/// `end`, and leaves out no operation that is unwrapped there.
pub proof fn law_each_operation_once(list: Seq<Node>, end: nat)
    requires
        end <= list.len(),
    ensures
        forall|i: int, j: int|
            0 <= i < j < reported(list, end).len() ==> (#[trigger] reported(list, end)[i]).name@ != (
            #[trigger] reported(list, end)[j]).name@,
        forall|i: int|
            0 <= i < reported(list, end).len() ==> hits_before(
                list,
                end as int,
                (#[trigger] reported(list, end)[i]).name@,
            ),
        forall|op: Seq<char>| #[trigger]
            hits_before(list, end as int, op) ==> exists|i: int|
                0 <= i < reported(list, end).len() && (#[trigger] reported(list, end)[i]).name@ == op,
    decreases end,
{
    if end > 0 {
        let last = end - 1;
        let before = reported(list, last as nat);
        let now = reported(list, end);
        law_each_operation_once(list, last as nat);
        assert forall|i: int| 0 <= i < now.len() implies hits_before(
            list,
            end as int,
            (#[trigger] now[i]).name@,
        ) by {
            lemma_one_more(list, last, now[i].name@);
            if i < before.len() {
                assert(now[i] == before[i]);
            } else {
                assert(hits_at(list, last, now[i].name@));
            }
        }
        assert forall|op: Seq<char>| #[trigger] hits_before(list, end as int, op) implies exists|
            i: int,
        |
            0 <= i < now.len() && (#[trigger] now[i]).name@ == op by {
            lemma_one_more(list, last, op);
            if hits_before(list, last, op) {
                let i = choose|i: int| 0 <= i < before.len() && (#[trigger] before[i]).name@ == op;
                assert(now[i] == before[i]);
            } else {
                let i = now.len() - 1;
                assert(now[i].name@ == op);
            }
        }
        assert forall|i: int, j: int| 0 <= i < j < now.len() implies (#[trigger] now[i]).name@ != (
        #[trigger] now[j]).name@ by {
            assert(now[i] == before[i]);
            assert(hits_before(list, last, before[i].name@));
            if j < before.len() {
                assert(now[j] == before[j]);
            }
        }
    } else {
        assert forall|op: Seq<char>| !#[trigger] hits_before(list, 0, op) by {
        }
    }
}

/// Whether the name is that of a checked operation.
pub fn is_checked_op(name: &str) -> (b: bool)
    ensures
        b == checked_op(name@),
{
    same_as_any(name, CHECKED_OPS.as_slice())
}

/// The checked operation that a method is called on directly.
pub fn checked_call(n: &Node) -> (r: Option<&Node>)
    ensures
        r.is_some() == checked_receiver(*n).is_some(),
        r.is_some() ==> Some(*r.unwrap()) == checked_receiver(*n),
{
    match n.kind {
        Kind::MethodCall => match n.get_part(Role::Receiver) {
            Some(e) => if matches!(e.kind, Kind::MethodCall) && is_checked_op(e.name.as_str()) {
                Some(e)
            } else {
                None
            },
            None => None,
        },
        _ => None,
    }
}

/// Whether the function is left between `i` and `end`.
fn is_left_between(list: &Vec<&Node>, i: usize, end: usize) -> (b: bool)
    requires
        i < end <= list@.len(),
    ensures
        b == left_between(list@.unref(), i as int, end as int),
{
    let ghost all = list@.unref();
    let mut r: usize = i + 1;
    while r < end
        invariant
            i < r <= end <= list@.len(),
            all == list@.unref(),
            forall|k: int| i < k < r ==> !(#[trigger] all[k].kind is Return),
        decreases end - r,
    {
        assert(all[r as int] == *list@[r as int]);
        if matches!(list[r].kind, Kind::Return) {
            assert(all[r as int].kind is Return);
            return true;
        }
        r = r + 1;
    }
    false
}

/// Whether something in front of `end` settles that the operation that is spelled
/// `text` succeeded.
pub fn is_guarded(list: &Vec<&Node>, end: usize, text: &str) -> (b: bool)
    requires
        end <= list@.len(),
    ensures
        b == guarded(list@.unref(), end as int, text@),
{
    let ghost all = list@.unref();
    let mut i: usize = 0;
    while i < end
        invariant
            i <= end <= list@.len(),
            all == list@.unref(),
            forall|k: int| k < i ==> !#[trigger] settles(all, k, end as int, text@),
        decreases end - i,
    {
        let n = list[i];
        assert(all[i as int] == *n);
        let asks = same_as_any(n.name.as_str(), GUARDS.as_slice()) && (match checked_call(n) {
            Some(e) => same(e.text.as_str(), text),
            None => false,
        });
        if asks && (same(n.name.as_str(), "is_some") || is_left_between(list, i, end)) {
            assert(settles(all, i as int, end as int, text@));
            return true;
        }
        assert(!settles(all, i as int, end as int, text@));
        i = i + 1;
    }
    false
}

/// The operation that the node at `i` unwraps although nothing in front of it settles
/// that it succeeded.
fn get_hit<'a>(list: &Vec<&'a Node>, i: usize) -> (r: Option<&'a Node>)
    requires
        i < list@.len(),
    ensures
        r.is_some() == hit(list@.unref(), i as int).is_some(),
        r.is_some() ==> Some(*r.unwrap()) == hit(list@.unref(), i as int),
{
    let n = list[i];
    assert(list@.unref()[i as int] == *n);
    match checked_call(n) {
        Some(e) => if same(n.name.as_str(), "unwrap") && !is_guarded(list, i, e.text.as_str()) {
            Some(e)
        } else {
            None
        },
        None => None,
    }
}

/// The finding on the unwrapped operation `e` of the function `f`.
fn finding_of(ctx: &ScanContext, f: &Node, e: &Node) -> (r: Finding)
    ensures
        r@ == report_of(*ctx, *f, *e),
{
    let op = e.name.as_str();
    let text = join5(
        "Function '",
        f.name.as_str(),
        "' calls .",
        op,
        "().unwrap() — use .ok_or(...)? to propagate errors instead of panicking",
    );
    let advice = join5(
        "Replace .",
        op,
        "().unwrap() with .",
        op,
        "().ok_or(MyError::Overflow)? to return an error instead of panicking",
    );
    raise(&info(), ctx, Confidence::High, e.line, e.column, text, advice.as_str())
}

/// The findings on the nodes of `list`, which lie in the function `f`.
fn findings_in(ctx: &ScanContext, f: &Node, list: &Vec<&Node>) -> (r: Vec<Finding>)
    ensures
        reports(r@) == reported(list@.unref(), list@.len()).map_values(
            |e: Node| report_of(*ctx, *f, e),
        ),
{
    let ghost all = list@.unref();
    let mut r: Vec<Finding> = Vec::new();
    let mut seen: Vec<String> = Vec::new();
    let mut i: usize = 0;
    while i < list.len()
        invariant
            i <= list@.len(),
            all == list@.unref(),
            reports(r@) == reported(all, i as nat).map_values(|e: Node| report_of(*ctx, *f, e)),
            forall|op: Seq<char>| #[trigger]
                texts(seen@).contains(op) <==> hits_before(all, i as int, op),
        decreases list@.len() - i,
    {
        let n = list[i];
        assert(all[i as int] == *n);
        let ghost was = seen@;
        let ghost before = r@;
        match get_hit(list, i) {
            Some(e) => {
                let op = e.name.as_str();
                assert(hits_at(all, i as int, op@));
                if !listed(&seen, op) {
                    r.push(finding_of(ctx, f, e));
                    assert(reports(r@) =~= reports(before).push(report_of(*ctx, *f, *e)));
                    seen.push(op.to_owned());
                    assert(texts(seen@) =~= texts(was).push(op@));
                    assert(texts(seen@)[was.len() as int] == op@);
                }
                assert(hits_before(all, i + 1, op@));
                assert forall|x: Seq<char>| #[trigger]
                    texts(seen@).contains(x) <==> hits_before(all, i + 1, x) by {
                    lemma_one_more(all, i as int, x);
                    if texts(was).contains(x) {
                        let k = texts(was).index_of(x);
                        assert(texts(seen@)[k] == x);
                    }
                    if texts(seen@).contains(x) {
                        let k = texts(seen@).index_of(x);
                        if k < was.len() {
                            assert(texts(was)[k] == x);
                        }
                    }
                }
            },
            None => {
                assert forall|x: Seq<char>| #[trigger]
                    texts(seen@).contains(x) <==> hits_before(all, i + 1, x) by {
                    lemma_one_more(all, i as int, x);
                }
            },
        }
        i = i + 1;
    }
    r
}

/// What is unwrapped in front of the next place is unwrapped here or before.
proof fn lemma_one_more(list: Seq<Node>, i: int, op: Seq<char>)
    ensures
        hits_before(list, i + 1, op) == (hits_before(list, i, op) || hits_at(list, i, op)),
{
    if hits_before(list, i + 1, op) {
        let k = choose|k: int| k < i + 1 && #[trigger] hits_at(list, k, op);
        if k < i {
            assert(hits_before(list, i, op));
        }
    }
    if hits_before(list, i, op) {
        let k = choose|k: int| k < i && #[trigger] hits_at(list, k, op);
        assert(hits_at(list, k, op));
        assert(hits_before(list, i + 1, op));
    }
    if hits_at(list, i, op) {
        assert(hits_before(list, i + 1, op));
    }
}

impl CheckedArithmeticUnwrapDetector {
    /// The findings on `f`.
    pub fn check(&self, ctx: &ScanContext, f: &Node) -> (r: Vec<Finding>)
        ensures
            reports(r@) == reports_in(*ctx, *f),
    {
        match f.kind {
            Kind::Function => {},
            _ => {
                return Vec::new();
            },
        }
        if contains(f.name.as_str(), "test") || has_test_attribute(f) {
            return Vec::new();
        }
        match f.get_part(Role::Body) {
            Some(body) => {
                let list = walk_nodes(
                    body,
                    |n: &Node| -> (b: bool)
                        ensures
                            b == own_body()(*n)
                    { !matches!(n.kind, Kind::Function) && !matches!(n.kind, Kind::Module) },
                    Ghost(own_body()),
                );
                findings_in(ctx, f, &list)
            },
            None => Vec::new(),
        }
    }
}

impl Detector for CheckedArithmeticUnwrapDetector {
    open spec fn profile(&self) -> Profile {
        profile()
    }

    open spec fn reports_on(&self, ctx: ScanContext) -> Seq<Report> {
        if !mentions_any(ctx.source@, SOLANA_MARKERS@) {
            Seq::empty()
        } else {
            all_reports(walk(ctx.ast, outside_tests()), |f: Node| reports_in(ctx, f))
        }
    }

    fn id(&self) -> (r: &'static str) {
        info().id
    }

    fn name(&self) -> (r: &'static str) {
        info().name
    }

    fn description(&self) -> (r: &'static str) {
        info().description
    }

    fn severity(&self) -> (r: Severity) {
        info().severity
    }

    fn confidence(&self) -> (r: Confidence) {
        info().confidence
    }

    fn chain(&self) -> (r: Chain) {
        info().chain
    }

    fn detect(&self, ctx: &ScanContext) -> (r: Vec<Finding>) {
        if !contains_any(ctx.source.as_str(), SOLANA_MARKERS.as_slice()) {
            return Vec::new();
        }
        let list = walk_nodes(
            &ctx.ast,
            |n: &Node| -> (b: bool)
                ensures
                    b == outside_tests()(*n)
            {
                !(matches!(n.kind, Kind::Function) && (contains(n.name.as_str(), "test")
                    || has_test_attribute(n))) && !(matches!(n.kind, Kind::Module)
                    && is_cfg_test(n))
            },
            Ghost(outside_tests()),
        );
        collect_all_findings(
            &list,
            |f: &Node| -> (s: Vec<Finding>)
                ensures
                    reports(s@) == reports_in(*ctx, *f)
            { self.check(ctx, f) },
            Ghost(|f: Node| reports_in(*ctx, f)),
        )
    }

    proof fn law_findings_are_stamped(&self, ctx: ScanContext) {
        assert forall|i: int| 0 <= i < self.reports_on(ctx).len() implies stamped(
            #[trigger] self.reports_on(ctx)[i],
            self.profile(),
            ctx,
        ) by {
            let list = walk(ctx.ast, outside_tests());
            let made = |f: Node| reports_in(ctx, f);
            lemma_all_reports_from(list, made, i);
            let (j, k) = choose|j: int, k: int|
                0 <= j < list.len() && 0 <= k < made(list[j]).len() && #[trigger] made(list[j])[k]
                    == all_reports(list, made)[i];
            let inner = walk(list[j].part(Role::Body)->0, own_body());
            assert(made(list[j])[k] == report_of(ctx, list[j], reported(inner, inner.len())[k]));
        }
    }
}

/// Every finding has the confidence that the rule states of itself.
pub proof fn law_confidence_is_the_rules_own(ctx: ScanContext)
    ensures
        forall|i: int|
            0 <= i < CheckedArithmeticUnwrapDetector.reports_on(ctx).len() ==> (
            #[trigger] CheckedArithmeticUnwrapDetector.reports_on(ctx)[i]).confidence == profile().confidence,
{
    assert forall|i: int| 0 <= i < CheckedArithmeticUnwrapDetector.reports_on(ctx).len() implies (
        #[trigger] CheckedArithmeticUnwrapDetector.reports_on(ctx)[i]).confidence == profile().confidence by {
        let list = walk(ctx.ast, outside_tests());
        let made = |f: Node| reports_in(ctx, f);
        lemma_all_reports_from(list, made, i);
        let (j, k) = choose|j: int, k: int|
            0 <= j < list.len() && 0 <= k < made(list[j]).len() && #[trigger] made(list[j])[k]
                == all_reports(list, made)[i];
        let inner = walk(list[j].part(Role::Body)->0, own_body());
        assert(made(list[j])[k] == report_of(ctx, list[j], reported(inner, inner.len())[k]));
    }
}

/// Nothing is reported on a file that shows no mark of a Solana program.
pub proof fn law_out_of_scope_is_silent(ctx: ScanContext)
    requires
        !mentions_any(ctx.source@, SOLANA_MARKERS@),
    ensures
        CheckedArithmeticUnwrapDetector.reports_on(ctx).len() == 0,
{
}

/// Nothing is reported on a test function, nor on what lies in it.
pub proof fn law_test_function_is_silent(ctx: ScanContext, f: Node)
    requires
        f.kind is Function,
        test_fn(f),
    ensures
        all_reports(walk(f, outside_tests()), |g: Node| reports_in(ctx, g)) == Seq::<
            Report,
        >::empty(),
{
    lemma_sealed_all(f, outside_tests(), |g: Node| reports_in(ctx, g));
}

/// A test module contributes no report, whatever it holds.
pub proof fn law_test_module_is_silent(ctx: ScanContext, m: Node)
    requires
        m.kind is Module,
        test_builds_only(m),
    ensures
        all_reports(walk(m, outside_tests()), |f: Node| reports_in(ctx, f)) == Seq::<
            Report,
        >::empty(),
{
    lemma_sealed_all(m, outside_tests(), |f: Node| reports_in(ctx, f));
}

/// An operation that is unwrapped is reported, once, by its name.
proof fn lemma_operation_is_reported(list: Seq<Node>, i: int, end: nat, op: Seq<char>)
    requires
        hits_at(list, i, op),
        i < end <= list.len(),
    ensures
        exists|k: int|
            0 <= k < reported(list, end).len() && (#[trigger] reported(list, end)[k]).name@ == op,
    decreases end,
{
    let before = reported(list, (end - 1) as nat);
    if i < end - 1 {
        lemma_operation_is_reported(list, i, (end - 1) as nat, op);
        let k = choose|k: int| 0 <= k < before.len() && (#[trigger] before[k]).name@ == op;
        assert(reported(list, end)[k] == before[k]);
    } else if hits_before(list, end - 1, op) {
        let j = choose|j: int| j < end - 1 && #[trigger] hits_at(list, j, op);
        lemma_operation_is_reported(list, j, (end - 1) as nat, op);
    } else {
        let e = hit(list, i)->0;
        assert(reported(list, end) == before.push(e));
        assert(reported(list, end)[before.len() as int].name@ == op);
    }
}

/// What is reported is unwrapped.
proof fn lemma_reported_is_unwrapped(list: Seq<Node>, end: nat, k: int) -> (i: int)
    requires
        end <= list.len(),
        0 <= k < reported(list, end).len(),
    ensures
        0 <= i < end,
        hit(list, i) == Some(reported(list, end)[k]),
    decreases end,
{
    let before = reported(list, (end - 1) as nat);
    if k < before.len() {
        lemma_reported_is_unwrapped(list, (end - 1) as nat, k)
    } else {
        end - 1
    }
}

/// A checked operation whose result is unwrapped is reported, by its name and that of
/// the function, wherever in the body it stands, if nothing asks before whether there
/// is a result.
pub proof fn law_unwrapped_operation_is_reported(ctx: ScanContext, path: Seq<Node>, f: Node, body: Node, way: Seq<Node>, e: Node)
    requires
        mentions_any(ctx.source@, seq!["solana_program", "anchor_lang", "AccountInfo", "ProgramResult", "solana_sdk"]),
        leads_openly(path, ctx.ast, f),
        f.kind is Function,
        f.parts(Role::Attribute).len() == 0,
        !mentions(f.name@, "test"@),
        f.part(Role::Body) == Some(body),
        leads(way),
        way[0] == body,
        forall|i: int| 0 <= i < way.len() - 1 ==> !((#[trigger] way[i]).kind is Function) && !(way[i].kind is Module),
        way.last().kind is MethodCall,
        way.last().name@ == "unwrap"@,
        way.last().part(Role::Receiver) == Some(e),
        e.kind is MethodCall,
        is_any(e.name@, seq!["checked_add", "checked_sub", "checked_mul", "checked_div", "checked_rem", "checked_pow", "checked_shl", "checked_shr"]),
        forall|k: int| 0 <= k < nodes(body).len() ==> !is_any((#[trigger] nodes(body)[k]).name@, seq!["is_none", "is_some"]),
    ensures
        exists|k: int| 0 <= k < CheckedArithmeticUnwrapDetector.reports_on(ctx).len() && mentions((#[trigger] CheckedArithmeticUnwrapDetector.reports_on(ctx)[k]).message, f.name@) && mentions(CheckedArithmeticUnwrapDetector.reports_on(ctx)[k].message, e.name@),
{
    let list = walk(body, own_body());
    law_led_to_is_met(way, own_body());
    let i = list.index_of(way.last());
    assert forall|j: int| !#[trigger] settles(list, j, i, e.text@) by {
        if 0 <= j < i {
            assert(list.contains(list[j]));
            law_visits_meet_nodes_only(body, own_body(), list[j]);
            let q = nodes(body).index_of(list[j]);
            assert(!is_any(nodes(body)[q].name@, seq!["is_none", "is_some"]));
        }
    }
    assert(hits_at(list, i, e.name@));
    lemma_operation_is_reported(list, i, list.len(), e.name@);
    let found = reported(list, list.len());
    let k = choose|k: int| 0 <= k < found.len() && (#[trigger] found[k]).name@ == e.name@;
    let r = report_of(ctx, f, found[k]);
    assert(reports_in(ctx, f)[k] == r);
    law_led_to_is_met(path, outside_tests());
    law_reports_are_listed(walk(ctx.ast, outside_tests()), |n: Node| reports_in(ctx, n), f, r);
    let all = CheckedArithmeticUnwrapDetector.reports_on(ctx);
    let p = all.index_of(r);
    assert(all[p] == r);
    let end = "().unwrap() — use .ok_or(...)? to propagate errors instead of panicking"@;
    let rest = "' calls ."@ + e.name@ + end;
    assert(r.message =~= "Function '"@ + f.name@ + rest);
    lemma_holds_middle(r.message, "Function '"@, f.name@, rest);
    lemma_holds_middle(r.message, "Function '"@ + f.name@ + "' calls ."@, e.name@, end);
}

/// What is reported is a checked operation, by one of the known names, whose result is
/// unwrapped in the body of the function.
pub proof fn law_reported_operation_is_unwrapped(ctx: ScanContext, f: Node, r: Report)
    requires
        reports_in(ctx, f).contains(r),
    ensures
        f.kind is Function,
        !mentions(f.name@, "test"@),
        f.part(Role::Body) matches Some(body) && exists|k: int| 0 <= k < nodes(body).len() && (#[trigger] nodes(body)[k]).kind is MethodCall && nodes(body)[k].name@ == "unwrap"@ && (nodes(body)[k].part(Role::Receiver) matches Some(e) && e.kind is MethodCall && is_any(e.name@, seq!["checked_add", "checked_sub", "checked_mul", "checked_div", "checked_rem", "checked_pow", "checked_shl", "checked_shr"]) && r.line == e.line && r.column == e.column),
{
    let body = f.part(Role::Body)->0;
    let list = walk(body, own_body());
    let p = reports_in(ctx, f).index_of(r);
    let i = lemma_reported_is_unwrapped(list, list.len(), p);
    assert(list.contains(list[i]));
    law_visits_meet_nodes_only(body, own_body(), list[i]);
    let k = nodes(body).index_of(list[i]);
    assert(nodes(body)[k] == list[i]);
}

/// Nothing is reported on a function in which every unwrapped operation is asked,
/// further up and in the same words, whether it has a result.
pub proof fn law_asking_first_is_enough(ctx: ScanContext, f: Node, body: Node, list: Seq<Node>)
    requires
        f.part(Role::Body) == Some(body),
        list == walk(body, own_body()),
        forall|k: int| 0 <= k < list.len() && (#[trigger] list[k]).kind is MethodCall && list[k].name@ == "unwrap"@ && list[k].part(Role::Receiver) is Some ==> exists|i: int| 0 <= i < k && (#[trigger] list[i]).kind is MethodCall && list[i].name@ == "is_some"@ && (list[i].part(Role::Receiver) matches Some(e) && e.kind is MethodCall && e.name@ == (list[k].part(Role::Receiver)->0).name@ && e.text@ == (list[k].part(Role::Receiver)->0).text@),
    ensures
        reports_in(ctx, f).len() == 0,
{
    if reports_in(ctx, f).len() > 0 {
        let k = lemma_reported_is_unwrapped(list, list.len(), 0);
        let i = choose|i: int| 0 <= i < k && (#[trigger] list[i]).kind is MethodCall && list[i].name@ == "is_some"@ && (list[i].part(Role::Receiver) matches Some(e) && e.kind is MethodCall && e.name@ == (list[k].part(Role::Receiver)->0).name@ && e.text@ == (list[k].part(Role::Receiver)->0).text@);
        assert(settles(list, i, k, (list[k].part(Role::Receiver)->0).text@));
    }
}

/// A question settles a checked operation only if it is asked of that operation.
pub proof fn law_question_is_about_the_operation(n: Node, text: Seq<char>)
    requires
        guards(n, text),
    ensures
        n.kind is MethodCall,
        n.name@ == "is_none"@ || n.name@ == "is_some"@,
        n.part(Role::Receiver) matches Some(e) && e.kind is MethodCall && e.text@ == text && is_any(e.name@, seq!["checked_add", "checked_sub", "checked_mul", "checked_div", "checked_rem", "checked_pow", "checked_shl", "checked_shr"]),
{
}

/// What stands in a function or a module inside a body is not part of the body.
pub proof fn law_inner_items_are_apart(n: Node)
    requires
        n.kind is Function || n.kind is Module,
    ensures
        walk(n, own_body()) == seq![n],
{
}

/// Below a function that carries a test attribute, or is named as a test, nothing is
/// looked at.
pub proof fn law_marked_test_is_sealed(f: Node, k: int)
    requires
        f.kind is Function,
        mentions(f.name@, "test"@) || (0 <= k < f.parts(Role::Attribute).len() && f.parts(Role::Attribute)[k].last_word() == Some("test"@)),
    ensures
        walk(f, outside_tests()) == seq![f],
{
    if !mentions(f.name@, "test"@) {
        let p = |a: Node| a.last_word() == Some("test"@);
        assert(p(f.parts(Role::Attribute)[k]));
    }
}

} // verus!
