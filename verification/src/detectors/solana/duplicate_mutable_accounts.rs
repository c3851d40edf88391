//! Two accounts that may be the same one.
use vstd::prelude::*;
use crate::attributes::{carries_test, has_test_attribute, is_cfg_test, outside_functions_and_tests};
use crate::calls::{get_path_call, path_call};
use crate::cfg::test_builds_only;
use crate::context::ScanContext;
use crate::detector::{Detector, Profile, raise, raised, RuleInfo, stamped};
use crate::finding::{Chain, Confidence, Finding, Report, Severity};
use crate::functions::{
    find_first, first_function, law_only_function_is_found, lemma_first_function, only_function,
};
use crate::markers::SOLANA_MARKERS;
use crate::search::{finds_marked, marked};
use crate::syntax::{Kind, lemma_part_smaller, Node, Role};
use crate::text::{
    begins, contains, contains_any, is_any, join5, listed, mentions, mentions_any, number_text,
    numeral, occurs_at, same, same_as_any, texts,
};
use crate::walk::{
    any_node, collect_findings, collect_names, leads_openly, lemma_name_is_listed,
    lemma_no_more_names, lemma_reports_from, lemma_sealed, lemma_spoken_of, names_of, nodes,
    nodes_in, opt_report, opt_text, reports_of, some, speaks_of, walk, walk_nodes,
};

verus! {

/// Reports functions that write to two accounts without asking whether they are
/// the same.
pub struct DuplicateMutableAccountsDetector;

/// The rule's description of itself.
pub open spec fn profile() -> Profile {
    Profile {
        id: "SOL-019"@,
        name: "duplicate-mutable-accounts"@,
        description: "Detects functions with multiple mutable AccountInfo params without key uniqueness check"@,
        severity: Severity::High,
        confidence: Confidence::Medium,
        chain: Chain::Solana,
    }
}

/// The rule's description of itself.
fn info() -> (r: RuleInfo)
    ensures
        r@ == profile(),
{
    RuleInfo {
        id: "SOL-019",
        name: "duplicate-mutable-accounts",
        description: "Detects functions with multiple mutable AccountInfo params without key uniqueness check",
        severity: Severity::High,
        confidence: Confidence::Medium,
        chain: Chain::Solana,
    }
}

/// The methods that borrow account data or lamports for writing.
pub const MUT_BORROW_METHODS: [&'static str; 4] = [
    "try_borrow_mut_data",
    "try_borrow_mut_lamports",
    "try_borrow_mut",
    "borrow_mut",
];

/// How the claim that two keys differ is written.
pub const INEQUALITIES: [&'static str; 11] = [
    "key !=",
    "key ! =",
    "key () !=",
    "key () ! =",
    "key() !=",
    "!= key",
    "! = key",
    "require_keys_neq",
    "require_neq",
    "assert_ne",
    "require_keys_eq",
];

/// How a function gives up.
pub const BAIL_OUTS: [&'static str; 2] = ["return Err", "Err ("];

/// How the question whether two keys are equal is written.
pub const EQUALITIES: [&'static str; 5] = [
    "key ==",
    "key () ==",
    "== key",
    "key . eq (",
    "key () . eq (",
];

/// The body asks whether two keys differ.
pub open spec fn checks_keys(body: Seq<char>) -> bool {
    ||| mentions_any(body, INEQUALITIES@)
    ||| mentions_any(body, BAIL_OUTS@) && mentions_any(body, EQUALITIES@)
}

/// The identifier that an expression starts from.
pub open spec fn base(e: Node) -> Option<Seq<char>>
    decreases e,
{
    proof {
        lemma_part_smaller(e, Role::Operand);
        lemma_part_smaller(e, Role::Receiver);
    }
    match e.kind {
        Kind::PathExpr => e.last_word(),
        Kind::MethodCall => match e.part(Role::Receiver) {
            Some(inner) => base(inner),
            None => None,
        },
        Kind::Field { .. }
        | Kind::Reference { .. }
        | Kind::Paren
        | Kind::Group
        | Kind::Unary
        | Kind::Try
        | Kind::Index => match e.part(Role::Operand) {
            Some(inner) => base(inner),
            None => None,
        },
        _ => None,
    }
}

/// The name of a parameter that is an account.
pub open spec fn account_param(p: Node) -> Option<Seq<char>> {
    if p.kind is Param {
        match (p.part(Role::Type), p.part(Role::Pattern)) {
            (Some(ty), Some(pat)) => if mentions(ty.text@, "AccountInfo"@)
                && pat.kind is PatIdent {
                Some(pat.name@)
            } else {
                None
            },
            _ => None,
        }
    } else {
        None
    }
}

/// The names of the parameters of `f` that are accounts, in order.
pub open spec fn account_params(f: Node) -> Seq<Seq<char>> {
    names_of(f.parts(Role::Param), |p: Node| account_param(p))
}

/// What the node borrows for writing.
pub open spec fn borrows(n: Node) -> Option<Node> {
    if n.kind is MethodCall && is_any(n.name@, MUT_BORROW_METHODS@) {
        n.part(Role::Receiver)
    } else {
        None
    }
}

/// What the nodes of `list` borrow for writing, in order.
pub open spec fn borrowed(list: Seq<Node>) -> Seq<Node>
    decreases list.len(),
{
    if list.len() == 0 {
        Seq::empty()
    } else {
        let before = borrowed(list.drop_last());
        match borrows(list.last()) {
            Some(e) => before.push(e),
            None => before,
        }
    }
}

/// One of `names` is what the expression starts from.
pub open spec fn starts_from(e: Node, name: Seq<char>, names: Seq<Seq<char>>) -> bool {
    base(e) == Some(name) && names.contains(name)
}

/// One of the expressions starts from `name`, which is among `names`.
pub open spec fn reaches(list: Seq<Node>, name: Seq<char>, names: Seq<Seq<char>>) -> bool {
    some(list, |e: Node| starts_from(e, name, names))
}

/// The expressions start from two different ones of `names`.
pub open spec fn reaches_two(list: Seq<Node>, names: Seq<Seq<char>>) -> bool {
    exists|a: Seq<char>, b: Seq<char>|
        a != b && #[trigger] reaches(list, a, names) && #[trigger] reaches(list, b, names)
}

/// The call hands two of `params` to another function of the file, which checks
/// their keys.
pub open spec fn delegates(file: Node, f: Node, n: Node, params: Seq<Seq<char>>) -> bool {
    &&& path_call(n) matches Some(name) && (first_function(
        file.parts(Role::Entry),
        name,
    ) matches Some(helper) && helper.name@ != f.name@ && checks_keys(helper.body_text()))
    &&& reaches_two(n.parts(Role::Argument), params)
}

/// The function is a test.
pub open spec fn test_fn(f: Node) -> bool {
    mentions(f.name@, "test"@) || carries_test(f)
}

/// `f` writes to two accounts and nobody asks whether they are the same.
pub open spec fn aliased(file: Node, f: Node) -> bool {
    &&& f.kind is Function
    &&& !test_fn(f)
    &&& !marked(f.text@, "Context"@, '<')
    &&& account_params(f).len() >= 2
    &&& f.part(Role::Body) matches Some(body) && reaches_two(
        borrowed(nodes(body)),
        account_params(f),
    ) && !checks_keys(f.body_text()) && !some(
        nodes(body),
        |n: Node| delegates(file, f, n, account_params(f)),
    )
}

/// The report on `f`, if there is one.
pub open spec fn report_on(ctx: ScanContext, f: Node) -> Option<Report> {
    if aliased(ctx.ast, f) {
        Some(
            raised(
                profile(),
                ctx,
                Confidence::Medium,
                f.line,
                f.column,
                "Function '"@ + f.name@ + "' has "@ + numeral(account_params(f).len())
                    + " AccountInfo params with mutable access but no key uniqueness assertion"@,
                "Assert that account keys are not equal (e.g., require_keys_neq! or assert_ne!(a.key, b.key)) to prevent duplicate mutable account attacks, or use Anchor's Context<T>"@,
            ),
        )
    } else {
        None
    }
}

/// Whether the body asks if two keys differ.
pub fn body_has_key_check(body_src: &str) -> (b: bool)
    ensures
        b == checks_keys(body_src@),
{
    contains_any(body_src, INEQUALITIES.as_slice()) || (contains_any(
        body_src,
        BAIL_OUTS.as_slice(),
    ) && contains_any(body_src, EQUALITIES.as_slice()))
}

/// The identifier that an expression starts from.
pub fn base_ident(e: &Node) -> (r: Option<&str>)
    ensures
        r.is_some() == base(*e).is_some(),
        r.is_some() ==> Some(r.unwrap()@) == base(*e),
    decreases e,
{
    proof {
        lemma_part_smaller(*e, Role::Operand);
        lemma_part_smaller(*e, Role::Receiver);
    }
    match e.kind {
        Kind::PathExpr => e.get_last_word(),
        Kind::MethodCall => match e.get_part(Role::Receiver) {
            Some(inner) => base_ident(inner),
            None => None,
        },
        Kind::Field { .. }
        | Kind::Reference { .. }
        | Kind::Paren
        | Kind::Group
        | Kind::Unary
        | Kind::Try
        | Kind::Index => match e.get_part(Role::Operand) {
            Some(inner) => base_ident(inner),
            None => None,
        },
        _ => None,
    }
}

/// The names of the parameters of `f` that are accounts, in order.
pub fn account_info_params(f: &Node) -> (r: Vec<String>)
    ensures
        texts(r@) == account_params(*f),
{
    let list = f.get_parts(Role::Param);
    collect_names(
        &list,
        |p: &Node| -> (s: Option<String>)
            ensures
                opt_text(s) == account_param(*p)
        {
            match p.kind {
                Kind::Param => match (p.get_part(Role::Type), p.get_part(Role::Pattern)) {
                    (Some(ty), Some(pat)) => if contains(ty.text.as_str(), "AccountInfo")
                        && matches!(pat.kind, Kind::PatIdent) {
                        Some(pat.name.clone())
                    } else {
                        None
                    },
                    _ => None,
                },
                _ => None,
            }
        },
        Ghost(|p: Node| account_param(p)),
    )
}

/// What the nodes of `list` borrow for writing, in order.
fn get_borrowed<'a>(list: &Vec<&'a Node>) -> (r: Vec<&'a Node>)
    ensures
        r@.unref() == borrowed(list@.unref()),
{
    let ghost all = list@.unref();
    let mut r: Vec<&Node> = Vec::new();
    let mut i: usize = 0;
    while i < list.len()
        invariant
            i <= list@.len(),
            all == list@.unref(),
            r@.unref() == borrowed(all.take(i as int)),
        decreases list@.len() - i,
    {
        assert(all.take(i as int + 1).drop_last() =~= all.take(i as int));
        assert(all.take(i as int + 1).last() == *list@[i as int]);
        let ghost before = r@;
        let n: &'a Node = list[i];
        if matches!(n.kind, Kind::MethodCall) && same_as_any(
            n.name.as_str(),
            MUT_BORROW_METHODS.as_slice(),
        ) {
            match n.get_part(Role::Receiver) {
                Some(e) => {
                    r.push(e);
                    assert(r@.unref() =~= before.unref().push(*e));
                },
                None => {},
            }
        }
        i = i + 1;
    }
    assert(all.take(i as int) =~= all);
    r
}

/// One more expression may start from `name`.
proof fn lemma_reaches_next(all: Seq<Node>, i: int, name: Seq<char>, names: Seq<Seq<char>>)
    requires
        0 <= i < all.len(),
    ensures
        reaches(all.take(i + 1), name, names) == (reaches(all.take(i), name, names) || starts_from(
            all[i],
            name,
            names,
        )),
{
    let p = |e: Node| starts_from(e, name, names);
    if reaches(all.take(i + 1), name, names) {
        let k = choose|k: int| 0 <= k < i + 1 && #[trigger] p(all.take(i + 1)[k]);
        if k < i {
            assert(p(all.take(i)[k]));
        }
    }
    if reaches(all.take(i), name, names) {
        let k = choose|k: int| 0 <= k < i && #[trigger] p(all.take(i)[k]);
        assert(p(all.take(i + 1)[k]));
    }
    if starts_from(all[i], name, names) {
        assert(p(all.take(i + 1)[i]));
    }
}

/// Whether the expressions start from two different ones of `names`.
pub fn touches_two(list: &Vec<&Node>, names: &Vec<String>) -> (b: bool)
    ensures
        b == reaches_two(list@.unref(), texts(names@)),
{
    let ghost all = list@.unref();
    let ghost sought = texts(names@);
    let mut found: Option<&str> = None;
    let mut i: usize = 0;
    while i < list.len()
        invariant
            i <= list@.len(),
            all == list@.unref(),
            sought == texts(names@),
            found is None ==> forall|x: Seq<char>| !#[trigger] reaches(all.take(i as int), x, sought),
            found matches Some(name) ==> forall|x: Seq<char>| #[trigger]
                reaches(all.take(i as int), x, sought) <==> x == name@,
        decreases list@.len() - i,
    {
        let e = list[i];
        assert(all[i as int] == *e);
        assert forall|x: Seq<char>|
            (#[trigger] reaches(all.take(i + 1), x, sought)) == (reaches(all.take(i as int), x, sought)
                || starts_from(all[i as int], x, sought)) by {
            lemma_reaches_next(all, i as int, x, sought);
        }
        match base_ident(e) {
            Some(name) => if listed(names, name) {
                assert(starts_from(*e, name@, sought));
                match found {
                    None => {
                        found = Some(name);
                    },
                    Some(other) => if !same(other, name) {
                        proof {
                            let p = |e: Node| starts_from(e, name@, sought);
                            assert(p(all[i as int]));
                            assert(reaches(all, name@, sought));
                            let q = |e: Node| starts_from(e, other@, sought);
                            assert(reaches(all.take(i as int), other@, sought));
                            let k = choose|k: int|
                                0 <= k < i && #[trigger] q(all.take(i as int)[k]);
                            assert(q(all[k]));
                            assert(reaches(all, other@, sought));
                        }
                        return true;
                    },
                }
            },
            None => {},
        }
        i = i + 1;
    }
    assert(all.take(i as int) =~= all);
    false
}

/// Whether the call hands two of `params` to another function of the file, which
/// checks their keys.
fn is_delegating(file: &Node, f: &Node, n: &Node, params: &Vec<String>) -> (b: bool)
    ensures
        b == delegates(*file, *f, *n, texts(params@)),
{
    match get_path_call(n) {
        Some(name) => {
            let items = file.get_parts(Role::Entry);
            match find_first(&items, name) {
                Some(helper) => !same(helper.name.as_str(), f.name.as_str()) && body_has_key_check(
                    helper.get_body_text(),
                ) && touches_two(&n.get_parts(Role::Argument), params),
                None => false,
            }
        },
        None => false,
    }
}

/// Whether a call in `body` hands two of `params` to another function of the file,
/// which checks their keys.
pub fn resolves_key_check_via_helper(
    f: &Node,
    body: &Node,
    file: &Node,
    params: &Vec<String>,
) -> (b: bool)
    ensures
        b == some(nodes(*body), |n: Node| delegates(*file, *f, n, texts(params@))),
{
    let list = nodes_in(body);
    any_node(
        &list,
        |n: &Node| -> (r: bool)
            ensures
                r == delegates(*file, *f, *n, texts(params@))
        { is_delegating(file, f, n, params) },
        Ghost(|n: Node| delegates(*file, *f, n, texts(params@))),
    )
}

/// Whether the function is a test.
pub fn is_test_fn(f: &Node) -> (b: bool)
    ensures
        b == test_fn(*f),
{
    contains(f.name.as_str(), "test") || has_test_attribute(f)
}

impl DuplicateMutableAccountsDetector {
    /// The finding on `f`, if there is one.
    pub fn check(&self, ctx: &ScanContext, f: &Node) -> (r: Option<Finding>)
        ensures
            opt_report(r) == report_on(*ctx, *f),
    {
        match f.kind {
            Kind::Function => {},
            _ => {
                return None;
            },
        }
        if is_test_fn(f) || finds_marked(f.text.as_str(), "Context", '<') {
            return None;
        }
        let params = account_info_params(f);
        assert(params@.len() == account_params(*f).len());
        if params.len() < 2 {
            return None;
        }
        match f.get_part(Role::Body) {
            Some(body) => {
                let list = nodes_in(body);
                let mutated = get_borrowed(&list);
                if !touches_two(&mutated, &params) || body_has_key_check(f.get_body_text())
                    || resolves_key_check_via_helper(f, body, &ctx.ast, &params) {
                    return None;
                }
            },
            None => {
                return None;
            },
        }
        let text = join5(
            "Function '",
            f.name.as_str(),
            "' has ",
            number_text(params.len()).as_str(),
            " AccountInfo params with mutable access but no key uniqueness assertion",
        );
        Some(
            raise(
                &info(),
                ctx,
                Confidence::Medium,
                f.line,
                f.column,
                text,
                "Assert that account keys are not equal (e.g., require_keys_neq! or assert_ne!(a.key, b.key)) to prevent duplicate mutable account attacks, or use Anchor's Context<T>",
            ),
        )
    }
}

impl Detector for DuplicateMutableAccountsDetector {
    open spec fn profile(&self) -> Profile {
        profile()
    }

    open spec fn reports_on(&self, ctx: ScanContext) -> Seq<Report> {
        if !mentions_any(ctx.source@, SOLANA_MARKERS@) {
            Seq::empty()
        } else {
            reports_of(walk(ctx.ast, outside_functions_and_tests()), |f: Node| report_on(ctx, f))
        }
    }

    fn id(&self) -> (r: &'static str) {
        info().id
    }

    fn name(&self) -> (r: &'static str) {
        info().name
    }

    fn description(&self) -> (r: &'static str) {
        info().description
    }

    fn severity(&self) -> (r: Severity) {
        info().severity
    }

    fn confidence(&self) -> (r: Confidence) {
        info().confidence
    }

    fn chain(&self) -> (r: Chain) {
        info().chain
    }

    fn detect(&self, ctx: &ScanContext) -> (r: Vec<Finding>) {
        if !contains_any(ctx.source.as_str(), SOLANA_MARKERS.as_slice()) {
            return Vec::new();
        }
        let list = walk_nodes(
            &ctx.ast,
            |n: &Node| -> (b: bool)
                ensures
                    b == outside_functions_and_tests()(*n)
            {
                !matches!(n.kind, Kind::Function)
                    && !(matches!(n.kind, Kind::Module) && is_cfg_test(n))
            },
            Ghost(outside_functions_and_tests()),
        );
        collect_findings(
            &list,
            |f: &Node| -> (s: Option<Finding>)
                ensures
                    opt_report(s) == report_on(*ctx, *f)
            { self.check(ctx, f) },
            Ghost(|f: Node| report_on(*ctx, f)),
        )
    }

    proof fn law_findings_are_stamped(&self, ctx: ScanContext) {
        assert forall|i: int| 0 <= i < self.reports_on(ctx).len() implies stamped(
            #[trigger] self.reports_on(ctx)[i],
            self.profile(),
            ctx,
        ) by {
            lemma_reports_from(walk(ctx.ast, outside_functions_and_tests()), |f: Node| report_on(ctx, f), i);
        }
    }
}

/// Every finding has the confidence that the rule states of itself.
pub proof fn law_confidence_is_the_rules_own(ctx: ScanContext)
    ensures
        forall|i: int|
            0 <= i < DuplicateMutableAccountsDetector.reports_on(ctx).len() ==> (
            #[trigger] DuplicateMutableAccountsDetector.reports_on(ctx)[i]).confidence == profile().confidence,
{
    assert forall|i: int| 0 <= i < DuplicateMutableAccountsDetector.reports_on(ctx).len() implies (
        #[trigger] DuplicateMutableAccountsDetector.reports_on(ctx)[i]).confidence == profile().confidence by {
        lemma_reports_from(walk(ctx.ast, outside_functions_and_tests()), |f: Node| report_on(ctx, f), i);
    }
}

/// Nothing is reported on a file that shows no mark of a Solana program.
pub proof fn law_out_of_scope_is_silent(ctx: ScanContext)
    requires
        !mentions_any(ctx.source@, SOLANA_MARKERS@),
    ensures
        DuplicateMutableAccountsDetector.reports_on(ctx).len() == 0,
{
}

/// Nothing is reported on a test function.
pub proof fn law_test_function_is_silent(ctx: ScanContext, f: Node)
    requires
        test_fn(f),
    ensures
        report_on(ctx, f) is None,
{
}

/// A test module contributes no report, whatever it holds.
pub proof fn law_test_module_is_silent(ctx: ScanContext, m: Node)
    requires
        m.kind is Module,
        test_builds_only(m),
    ensures
        reports_of(walk(m, outside_functions_and_tests()), |f: Node| report_on(ctx, f)) == Seq::<Report>::empty(),
{
    lemma_sealed(m, outside_functions_and_tests(), |f: Node| report_on(ctx, f));
}

/// A helper counts only where the file holds a function of its name whose body checks
/// keys.
pub proof fn law_helpers_are_resolved(file: Node, f: Node, n: Node, params: Seq<Seq<char>>)
    requires
        delegates(file, f, n, params),
    ensures
        exists|i: int|
            0 <= i < file.parts(Role::Entry).len() && ({
                let h = #[trigger] file.parts(Role::Entry)[i];
                h.kind is Function && path_call(n) == Some(h.name@) && checks_keys(h.body_text())
            }),
{
    lemma_first_function(file.parts(Role::Entry), path_call(n)->0);
    let h = first_function(file.parts(Role::Entry), path_call(n)->0)->0;
    let i = file.parts(Role::Entry).index_of(h);
    assert(file.parts(Role::Entry)[i] == h);
}

/// What is borrowed for writing at one of the nodes is among all that is.
proof fn lemma_borrow_is_listed(list: Seq<Node>, k: int)
    requires
        0 <= k < list.len(),
        borrows(list[k]) is Some,
    ensures
        borrowed(list).contains(borrows(list[k])->0),
    decreases list.len(),
{
    let before = borrowed(list.drop_last());
    let e = borrows(list[k])->0;
    if k == list.len() - 1 {
        assert(before.push(e)[before.len() as int] == e);
    } else {
        assert(list.drop_last()[k] == list[k]);
        lemma_borrow_is_listed(list.drop_last(), k);
        let i = before.index_of(e);
        assert(borrowed(list)[i] == e);
    }
}

/// The node borrows for writing from the account `name`, or from one of its fields.
pub open spec fn borrows_from(n: Node, name: Seq<char>) -> bool {
    n.kind is MethodCall && is_any(n.name@, seq!["try_borrow_mut_data", "try_borrow_mut_lamports", "try_borrow_mut", "borrow_mut"]) && (n.part(Role::Receiver) matches Some(e) && ((
    e.kind is PathExpr && e.last_word() == Some(name)) || (e.kind is Field && (e.part(
        Role::Operand,
    ) matches Some(inner) && inner.kind is PathExpr && inner.last_word() == Some(name)))))
}

/// The parameter at `k` of `f` is an account named `name`.
pub open spec fn takes_account(f: Node, k: int, name: Seq<char>) -> bool {
    &&& 0 <= k < f.parts(Role::Param).len()
    &&& f.parts(Role::Param)[k].kind is Param
    &&& f.parts(Role::Param)[k].part(Role::Type) matches Some(ty) && mentions(
        ty.text@,
        "AccountInfo"@,
    )
    &&& f.parts(Role::Param)[k].part(Role::Pattern) matches Some(pat) && pat.kind is PatIdent
        && pat.name@ == name
}

/// An account that is taken and borrowed for writing is reached.
proof fn lemma_reached(f: Node, body: Node, k: int, n: Node, name: Seq<char>)
    requires
        takes_account(f, k, name),
        nodes(body).contains(n),
        borrows_from(n, name),
    ensures
        account_params(f).contains(name),
        reaches(borrowed(nodes(body)), name, account_params(f)),
{
    let g = |p: Node| account_param(p);
    assert(g(f.parts(Role::Param)[k]) == Some(name));
    lemma_name_is_listed(f.parts(Role::Param), g, k);
    let list = nodes(body);
    let i = list.index_of(n);
    let e = n.part(Role::Receiver)->0;
    assert(borrows(list[i]) == Some(e));
    lemma_borrow_is_listed(list, i);
    assert(base(e) == Some(name)) by {
        if e.kind is Field {
            assert(base(e.part(Role::Operand)->0) == Some(name));
        }
    }
    let from = |m: Node| starts_from(m, name, account_params(f));
    let all = borrowed(list);
    assert(from(all[all.index_of(e)]));
}

/// A function that takes two accounts by different names and borrows from both for
/// writing is reported, if it compares no keys and calls nothing of the file.
pub proof fn law_aliased_accounts_are_reported(ctx: ScanContext, path: Seq<Node>, f: Node, body: Node, i: int, j: int, a: Seq<char>, b: Seq<char>, m: Node, n: Node)
    requires
        mentions_any(ctx.source@, seq!["solana_program", "anchor_lang", "AccountInfo", "ProgramResult", "solana_sdk"]),
        leads_openly(path, ctx.ast, f),
        f.kind is Function,
        f.parts(Role::Attribute).len() == 0,
        !mentions(f.name@, "test"@),
        !marked(f.text@, "Context"@, '<'),
        takes_account(f, i, a),
        takes_account(f, j, b),
        a != b,
        f.part(Role::Body) == Some(body),
        nodes(body).contains(m),
        nodes(body).contains(n),
        borrows_from(m, a),
        borrows_from(n, b),
        !mentions_any(body.text@, seq!["key !=", "key ! =", "key () !=", "key () ! =", "key() !=", "!= key", "! = key", "require_keys_neq", "require_neq", "assert_ne", "require_keys_eq"]),
        !mentions_any(body.text@, seq!["return Err", "Err ("]) || !mentions_any(body.text@, seq!["key ==", "key () ==", "== key", "key . eq (", "key () . eq ("]),
        forall|k: int| 0 <= k < nodes(body).len() ==> (path_call(#[trigger] nodes(body)[k]) matches Some(name) ==> first_function(ctx.ast.parts(Role::Entry), name) is None),
    ensures
        speaks_of(DuplicateMutableAccountsDetector.reports_on(ctx), f),
{
    lemma_reached(f, body, i, m, a);
    lemma_reached(f, body, j, n, b);
    let names = account_params(f);
    assert(reaches_two(borrowed(nodes(body)), names));
    assert(names.len() >= 2) by {
        let p = names.index_of(a);
        let q = names.index_of(b);
        assert(p != q);
    }
    assert forall|k: int| 0 <= k < nodes(body).len() implies !delegates(ctx.ast, f, #[trigger] nodes(body)[k], names) by {}
    assert(aliased(ctx.ast, f));
    let rest = "' has "@ + numeral(names.len()) + " AccountInfo params with mutable access but no key uniqueness assertion"@;
    assert((report_on(ctx, f)->0).message =~= "Function '"@ + f.name@ + rest);
    lemma_spoken_of(path, outside_functions_and_tests(), |k: Node| report_on(ctx, k), "Function '"@, rest);
}

/// What is reported takes at least two accounts and compares no keys.
pub proof fn law_reported_accounts_may_be_one(ctx: ScanContext, f: Node)
    requires
        report_on(ctx, f) is Some,
    ensures
        f.kind is Function,
        !mentions(f.name@, "test"@),
        !marked(f.text@, "Context"@, '<'),
        f.parts(Role::Param).len() >= 2,
        !mentions_any(f.body_text(), seq!["key !=", "key ! =", "key () !=", "key () ! =", "key() !=", "!= key", "! = key", "require_keys_neq", "require_neq", "assert_ne", "require_keys_eq"]),
        !mentions_any(f.body_text(), seq!["return Err", "Err ("]) || !mentions_any(f.body_text(), seq!["key ==", "key () ==", "== key", "key . eq (", "key () . eq ("]),
{
    lemma_no_more_names(f.parts(Role::Param), |p: Node| account_param(p));
}

/// A function is not reported if it hands two of its accounts to another function,
/// directly in the file, that compares keys.
pub proof fn law_helper_may_compare_the_keys(ctx: ScanContext, f: Node, body: Node, n: Node, h: Node, i: int, j: int, a: Seq<char>, b: Seq<char>, p: Node, q: Node)
    requires
        f.part(Role::Body) == Some(body),
        nodes(body).contains(n),
        path_call(n) == Some(h.name@),
        only_function(ctx.ast.parts(Role::Entry), h),
        h.name@ != f.name@,
        mentions_any(h.body_text(), seq!["key !=", "key ! =", "key () !=", "key () ! =", "key() !=", "!= key", "! = key", "require_keys_neq", "require_neq", "assert_ne", "require_keys_eq"]) || (mentions_any(h.body_text(), seq!["return Err", "Err ("]) && mentions_any(h.body_text(), seq!["key ==", "key () ==", "== key", "key . eq (", "key () . eq ("])),
        takes_account(f, i, a),
        takes_account(f, j, b),
        a != b,
        n.parts(Role::Argument).contains(p),
        p.kind is PathExpr && p.last_word() == Some(a),
        n.parts(Role::Argument).contains(q),
        q.kind is PathExpr && q.last_word() == Some(b),
    ensures
        report_on(ctx, f) is None,
{
    law_only_function_is_found(ctx.ast.parts(Role::Entry), h);
    let g = |x: Node| account_param(x);
    assert(g(f.parts(Role::Param)[i]) == Some(a));
    assert(g(f.parts(Role::Param)[j]) == Some(b));
    lemma_name_is_listed(f.parts(Role::Param), g, i);
    lemma_name_is_listed(f.parts(Role::Param), g, j);
    let names = account_params(f);
    let args = n.parts(Role::Argument);
    let from_a = |e: Node| starts_from(e, a, names);
    let from_b = |e: Node| starts_from(e, b, names);
    assert(from_a(args[args.index_of(p)]));
    assert(from_b(args[args.index_of(q)]));
    assert(reaches(args, a, names) && reaches(args, b, names));
    assert(reaches_two(args, names));
    assert(checks_keys(h.body_text()));
    let d = |m: Node| delegates(ctx.ast, f, m, names);
    assert(d(nodes(body)[nodes(body).index_of(n)]));
}

/// A function that carries a test attribute of whatever framework is not reported.
pub proof fn law_marked_test_is_silent(ctx: ScanContext, f: Node, k: int)
    requires
        0 <= k < f.parts(Role::Attribute).len(),
        f.parts(Role::Attribute)[k].last_word() == Some("test"@),
    ensures
        report_on(ctx, f) is None,
{
    let p = |a: Node| a.last_word() == Some("test"@);
    assert(p(f.parts(Role::Attribute)[k]));
}

/// A function named as a test is not reported.
pub proof fn law_test_by_name_is_silent(ctx: ScanContext, f: Node)
    requires
        begins(f.name@, "test_"@) || mentions(f.name@, "test"@),
    ensures
        report_on(ctx, f) is None,
{
    reveal_strlit("test_");
    reveal_strlit("test");
    lemma_begin_is_mentioned(f.name@);
}

/// A name that begins as a test's mentions tests.
proof fn lemma_begin_is_mentioned(s: Seq<char>)
    ensures
        begins(s, "test_"@) ==> mentions(s, "test"@),
{
    reveal_strlit("test_");
    reveal_strlit("test");
    if begins(s, "test_"@) {
        assert(s.subrange(0, 4) =~= "test"@) by {
            assert forall|i: int| 0 <= i < 4 implies s[i] == "test_"@[i] by {
                assert(s.subrange(0, 5)[i] == s[i]);
            }
        }
        assert(occurs_at(s, "test"@, 0));
    }
}

/// Only a function that takes two accounts or more is reported.
pub proof fn law_reported_function_takes_two_accounts(ctx: ScanContext, f: Node)
    requires
        report_on(ctx, f) is Some,
    ensures
        account_params(f).len() >= 2,
        f.kind is Function,
{
}

/// The helper that checks the keys is another function, and is called by its name.
pub proof fn law_delegate_is_another(file: Node, f: Node, n: Node, params: Seq<Seq<char>>)
    requires
        delegates(file, f, n, params),
    ensures
        path_call(n) matches Some(name) && (first_function(file.parts(Role::Entry), name) matches Some(h) && h.name@ != f.name@),
{
}

/// Keys are checked if they are said to differ, or if they are compared and a way out
/// is taken: neither half is enough by itself.
pub proof fn law_keys_are_compared(body: Seq<char>)
    requires
        !mentions_any(body, seq!["key !=", "key ! =", "key () !=", "key () ! =", "key() !=", "!= key", "! = key", "require_keys_neq", "require_neq", "assert_ne", "require_keys_eq"]),
    ensures
        checks_keys(body) == (mentions_any(body, seq!["return Err", "Err ("]) && mentions_any(body, seq!["key ==", "key () ==", "== key", "key . eq (", "key () . eq ("])),
{
}

/// An account is a parameter of that type under a name.
pub proof fn law_accounts_are_named_parameters(p: Node, name: Seq<char>)
    requires
        account_param(p) == Some(name),
    ensures
        p.kind is Param,
        p.part(Role::Type) matches Some(ty) && mentions(ty.text@, "AccountInfo"@),
        p.part(Role::Pattern) matches Some(pat) && pat.kind is PatIdent && pat.name@ == name,
{
}

} // verus!
