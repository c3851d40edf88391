//! Conditional compilation: which attributes keep an item out of every build but
//! the one for tests.
use vstd::prelude::*;
use crate::syntax::{Node, Role};
use crate::text::{chars_of, same, texts};
use crate::walk::some;

verus! {

/// What stands inside the brackets of an attribute. A list whose operands are no
/// such things themselves has no operands.
pub enum Operand {
    Path(String),
    NameValue(String),
    List { path: String, operands: Option<Vec<Operand>> },
}

/// The content of a [`Operand`].
pub enum OperandView {
    Path(Seq<char>),
    NameValue(Seq<char>),
    List { path: Seq<char>, operands: Option<Seq<OperandView>> },
}

impl Operand {
    /// The content.
    pub open spec fn content(self) -> OperandView
        decreases self,
    {
        match self {
            Operand::Path(path) => OperandView::Path(path@),
            Operand::NameValue(path) => OperandView::NameValue(path@),
            Operand::List { path, operands } => OperandView::List {
                path: path@,
                operands: match operands {
                    Some(list) => Some(contents(list@)),
                    None => None,
                },
            },
        }
    }
}

/// The contents of a list.
pub open spec fn contents(list: Seq<Operand>) -> Seq<OperandView>
    decreases list,
{
    if list.len() == 0 {
        Seq::empty()
    } else {
        contents(list.drop_last()).push(list.last().content())
    }
}

/// The content of an optional [`Operand`].
pub open spec fn opt_content(meta: Option<Operand>) -> Option<OperandView> {
    match meta {
        Some(m) => Some(m.content()),
        None => None,
    }
}

/// What a `syn::Meta` is made of, with the operands of a list still unread.
pub enum Parts {
    Path(String),
    NameValue(String),
    List { path: String, body: String },
}

/// The content of [`Parts`].
pub enum PartsView {
    Path(Seq<char>),
    NameValue(Seq<char>),
    List { path: Seq<char>, body: Seq<char> },
}

impl View for Parts {
    type V = PartsView;

    open spec fn view(&self) -> PartsView {
        match *self {
            Parts::Path(path) => PartsView::Path(path@),
            Parts::NameValue(path) => PartsView::NameValue(path@),
            Parts::List { path, body } => PartsView::List { path: path@, body: body@ },
        }
    }
}

/// What `syn::parse_str` into a `syn::Meta` makes of a text.
pub uninterp spec fn meta_parts(text: Seq<char>) -> Option<PartsView>;

/// The `syn::Meta`s that a text is a comma-separated list of, each of them printed.
pub uninterp spec fn operand_texts(body: Seq<char>) -> Option<Seq<Seq<char>>>;

/// `syn::parse_str` into a `syn::Meta`: what stands inside the brackets of an
/// attribute, if the text is such a thing, as [`meta_parts`] names it. The path is
/// printed, and so is what stands inside the brackets of a list.
#[verifier::external_body]
fn read_parts(text: &str) -> (r: Option<Parts>)
    ensures
        match r {
            Some(parts) => meta_parts(text@) == Some(parts@),
            None => meta_parts(text@) is None,
        },
{
    let meta = syn::parse_str::<syn::Meta>(text).ok()?;
    let path = quote::ToTokens::to_token_stream(meta.path()).to_string();
    Some(match meta {
        syn::Meta::Path(_) => Parts::Path(path),
        syn::Meta::NameValue(_) => Parts::NameValue(path),
        syn::Meta::List(list) => Parts::List { path, body: list.tokens.to_string() },
    })
}

/// `syn::punctuated::Punctuated::parse_terminated`, run by `parse_str` of
/// `syn::parse::Parser`: the text is read as a comma-separated list of `syn::Meta`s,
/// if it is one, as [`operand_texts`] names it. Each is printed.
#[verifier::external_body]
fn read_operands(body: &str) -> (r: Option<Vec<String>>)
    ensures
        match r {
            Some(list) => operand_texts(body@) == Some(texts(list@)),
            None => operand_texts(body@) is None,
        },
{
    let parser = syn::punctuated::Punctuated::<syn::Meta, syn::token::Comma>::parse_terminated;
    let list = syn::parse::Parser::parse_str(parser, body).ok()?;
    Some(list.iter().map(|m| quote::ToTokens::to_token_stream(m).to_string()).collect())
}

/// What a text is read as, down to `depth` lists inside one another.
pub open spec fn read_down(text: Seq<char>, depth: nat) -> Option<OperandView>
    decreases depth, 0nat, 0nat,
{
    match meta_parts(text) {
        Some(PartsView::Path(path)) => Some(OperandView::Path(path)),
        Some(PartsView::NameValue(path)) => Some(OperandView::NameValue(path)),
        Some(PartsView::List { path, body }) => Some(
            OperandView::List {
                path,
                operands: match operand_texts(body) {
                    Some(list) => if depth > 0 {
                        read_all_down(list, (depth - 1) as nat)
                    } else {
                        None
                    },
                    None => None,
                },
            },
        ),
        None => None,
    }
}

/// What the texts of a list are read as, if all of them can be read.
pub open spec fn read_all_down(list: Seq<Seq<char>>, depth: nat) -> Option<Seq<OperandView>>
    decreases depth, 1nat, list.len(),
{
    if list.len() == 0 {
        Some(Seq::empty())
    } else {
        match (read_all_down(list.drop_last(), depth), read_down(list.last(), depth)) {
            (Some(before), Some(last)) => Some(before.push(last)),
            _ => None,
        }
    }
}

/// What an attribute's text is read as. No text has more lists inside one another
/// than characters.
pub open spec fn meta_of(text: Seq<char>) -> Option<OperandView> {
    read_down(text, text.len())
}

/// Reads a text, down to `depth` lists inside one another.
fn get_down(text: &str, depth: usize) -> (r: Option<Operand>)
    ensures
        opt_content(r) == read_down(text@, depth as nat),
    decreases depth, 0nat,
{
    match read_parts(text) {
        Some(Parts::Path(path)) => Some(Operand::Path(path)),
        Some(Parts::NameValue(path)) => Some(Operand::NameValue(path)),
        Some(Parts::List { path, body }) => {
            let operands = match read_operands(body.as_str()) {
                Some(list) => if depth > 0 {
                    get_all_down(&list, depth - 1)
                } else {
                    None
                },
                None => None,
            };
            Some(Operand::List { path, operands })
        },
        None => None,
    }
}

/// Reads the texts of a list, if all of them can be read.
fn get_all_down(list: &Vec<String>, depth: usize) -> (r: Option<Vec<Operand>>)
    ensures
        match r {
            Some(operands) => read_all_down(texts(list@), depth as nat) == Some(
                contents(operands@),
            ),
            None => read_all_down(texts(list@), depth as nat) is None,
        },
    decreases depth, 1nat,
{
    let ghost all = texts(list@);
    let mut r: Vec<Operand> = Vec::new();
    let mut complete = true;
    let mut i: usize = 0;
    while i < list.len()
        invariant
            i <= list@.len(),
            all == texts(list@),
            complete ==> read_all_down(all.take(i as int), depth as nat) == Some(contents(r@)),
            !complete ==> read_all_down(all.take(i as int), depth as nat) is None,
        decreases list@.len() - i,
    {
        assert(all.take(i as int + 1).drop_last() =~= all.take(i as int));
        assert(all.take(i as int + 1).last() == list@[i as int]@);
        let ghost before = r@;
        match get_down(list[i].as_str(), depth) {
            Some(operand) => {
                r.push(operand);
                assert(r@.drop_last() =~= before);
                assert(contents(r@) == contents(before).push(operand.content()));
            },
            None => {
                complete = false;
            },
        }
        i = i + 1;
    }
    assert(all.take(i as int) =~= all);
    if complete {
        Some(r)
    } else {
        None
    }
}

/// Reads an attribute's text.
pub(crate) fn read_meta(text: &str) -> (r: Option<Operand>)
    ensures
        opt_content(r) == meta_of(text@),
{
    get_down(text, chars_of(text).len())
}

/// A `cfg` predicate. Every condition but `test` may go either way.
pub enum CfgPred {
    Test,
    Unknown,
    Not(Box<CfgPred>),
    All(Vec<CfgPred>),
    Any(Vec<CfgPred>),
}

/// The content of a [`CfgPred`].
pub enum Cfg {
    Test,
    Unknown,
    Not(Box<Cfg>),
    All(Seq<Cfg>),
    Any(Seq<Cfg>),
}

impl CfgPred {
    /// The content.
    pub open spec fn content(self) -> Cfg
        decreases self,
    {
        match self {
            CfgPred::Test => Cfg::Test,
            CfgPred::Unknown => Cfg::Unknown,
            CfgPred::Not(inner) => Cfg::Not(Box::new(inner.content())),
            CfgPred::All(list) => Cfg::All(pred_contents(list@)),
            CfgPred::Any(list) => Cfg::Any(pred_contents(list@)),
        }
    }
}

/// The contents of a list of predicates.
pub open spec fn pred_contents(list: Seq<CfgPred>) -> Seq<Cfg>
    decreases list,
{
    if list.len() == 0 {
        Seq::empty()
    } else {
        pred_contents(list.drop_last()).push(list.last().content())
    }
}

/// The predicate that a `cfg` operand stands for.
pub open spec fn lowered(meta: OperandView) -> Cfg
    decreases meta,
{
    match meta {
        OperandView::Path(path) => if path == "test"@ { Cfg::Test } else { Cfg::Unknown },
        OperandView::NameValue(_) => Cfg::Unknown,
        OperandView::List { path, operands } => match operands {
            Some(list) => if path == "not"@ {
                if list.len() == 1 { Cfg::Not(Box::new(lowered(list[0]))) } else { Cfg::Unknown }
            } else if path == "all"@ {
                Cfg::All(lowered_all(list))
            } else if path == "any"@ {
                Cfg::Any(lowered_all(list))
            } else {
                Cfg::Unknown
            },
            None => Cfg::Unknown,
        },
    }
}

/// The predicates that a list of operands stands for.
pub open spec fn lowered_all(list: Seq<OperandView>) -> Seq<Cfg>
    decreases list,
{
    if list.len() == 0 {
        Seq::empty()
    } else {
        lowered_all(list.drop_last()).push(lowered(list.last()))
    }
}

/// The predicate can hold in a build that is not for tests.
pub open spec fn can_hold(p: Cfg) -> bool
    decreases p,
{
    match p {
        Cfg::Test => false,
        Cfg::Unknown => true,
        Cfg::Not(inner) => can_fail(*inner),
        Cfg::All(list) => forall|i: int| 0 <= i < list.len() ==> can_hold(#[trigger] list[i]),
        Cfg::Any(list) => exists|i: int| 0 <= i < list.len() && can_hold(#[trigger] list[i]),
    }
}

/// The predicate can fail in a build that is not for tests.
pub open spec fn can_fail(p: Cfg) -> bool
    decreases p,
{
    match p {
        Cfg::Test => true,
        Cfg::Unknown => true,
        Cfg::Not(inner) => can_hold(*inner),
        Cfg::All(list) => exists|i: int| 0 <= i < list.len() && can_fail(#[trigger] list[i]),
        Cfg::Any(list) => forall|i: int| 0 <= i < list.len() ==> can_fail(#[trigger] list[i]),
    }
}

/// What a `cfg` predicate says of the builds that are not for tests.
#[derive(Clone, Copy, Debug, PartialEq, Eq, Structural)]
pub enum NonTestBuild {
    /// It fails in all of them.
    Excluded,
    /// It holds in all of them.
    Included,
    /// It depends.
    Unknown,
}

/// What a predicate says of the builds that are not for tests.
pub open spec fn in_non_test_build(p: Cfg) -> NonTestBuild {
    if !can_hold(p) {
        NonTestBuild::Excluded
    } else if !can_fail(p) {
        NonTestBuild::Included
    } else {
        NonTestBuild::Unknown
    }
}

/// The attribute text is a `cfg` with one operand that fails in every build that is
/// not for tests.
pub open spec fn excludes(meta: Option<OperandView>) -> bool {
    match meta {
        Some(OperandView::List { path, operands }) => match operands {
            Some(list) => path == "cfg"@ && list.len() == 1 && !can_hold(lowered(list[0])),
            None => false,
        },
        _ => false,
    }
}

/// A `cfg` attribute keeps `n` out of every build that is not for tests.
pub open spec fn test_builds_only(n: Node) -> bool {
    some(n.parts(Role::Attribute), |a: Node| excludes(meta_of(a.text@)))
}

/// What conjunctions and disjunctions can do, in terms of their operands.
pub proof fn lemma_lists(list: Seq<Cfg>)
    ensures
        can_hold(Cfg::All(list)) == forall|i: int|
            0 <= i < list.len() ==> can_hold(#[trigger] list[i]),
        can_hold(Cfg::Any(list)) == exists|i: int|
            0 <= i < list.len() && can_hold(#[trigger] list[i]),
        can_fail(Cfg::All(list)) == exists|i: int|
            0 <= i < list.len() && can_fail(#[trigger] list[i]),
        can_fail(Cfg::Any(list)) == forall|i: int|
            0 <= i < list.len() ==> can_fail(#[trigger] list[i]),
{
    let both = Cfg::All(list);
    let either = Cfg::Any(list);
    assert(both->All_0 == list);
    assert(either->Any_0 == list);
}

/// The length and the elements of the contents of a list.
pub proof fn lemma_contents(list: Seq<Operand>)
    ensures
        contents(list).len() == list.len(),
        forall|i: int| 0 <= i < list.len() ==> contents(list)[i] == (#[trigger] list[i]).content(),
    decreases list.len(),
{
    if list.len() > 0 {
        lemma_contents(list.drop_last());
        assert forall|i: int| 0 <= i < list.len() implies contents(list)[i] == (
        #[trigger] list[i]).content() by {
            if i < list.len() - 1 {
                assert(list.drop_last()[i] == list[i]);
            }
        }
    }
}

/// The length and the elements of the contents of a list of predicates.
proof fn lemma_pred_contents(list: Seq<CfgPred>)
    ensures
        pred_contents(list).len() == list.len(),
        forall|i: int|
            0 <= i < list.len() ==> pred_contents(list)[i] == (#[trigger] list[i]).content(),
    decreases list.len(),
{
    if list.len() > 0 {
        lemma_pred_contents(list.drop_last());
        assert forall|i: int| 0 <= i < list.len() implies pred_contents(list)[i] == (
        #[trigger] list[i]).content() by {
            if i < list.len() - 1 {
                assert(list.drop_last()[i] == list[i]);
            }
        }
    }
}

/// The length and the elements of a list of lowered operands.
proof fn lemma_lowered_all(list: Seq<OperandView>)
    ensures
        lowered_all(list).len() == list.len(),
        forall|i: int|
            0 <= i < list.len() ==> lowered_all(list)[i] == lowered(#[trigger] list[i]),
    decreases list.len(),
{
    if list.len() > 0 {
        lemma_lowered_all(list.drop_last());
        assert forall|i: int| 0 <= i < list.len() implies lowered_all(list)[i] == lowered(
            #[trigger] list[i],
        ) by {
            if i < list.len() - 1 {
                assert(list.drop_last()[i] == list[i]);
            }
        }
    }
}

/// A predicate can hold or fail, or both: there is no build without an answer.
pub proof fn law_holds_or_fails(p: Cfg)
    ensures
        can_hold(p) || can_fail(p),
    decreases p,
{
    match p {
        Cfg::Not(inner) => {
            law_holds_or_fails(*inner);
        },
        Cfg::All(list) => {
            if !can_fail(p) {
                assert forall|i: int| 0 <= i < list.len() implies can_hold(#[trigger] list[i]) by {
                    law_holds_or_fails(list[i]);
                }
            }
        },
        Cfg::Any(list) => {
            if !can_hold(p) {
                assert forall|i: int| 0 <= i < list.len() implies can_fail(#[trigger] list[i]) by {
                    law_holds_or_fails(list[i]);
                }
            }
        },
        _ => {},
    }
}

/// Lowers the operands of a list.
fn lower_all(list: &Vec<Operand>) -> (r: Vec<CfgPred>)
    ensures
        pred_contents(r@) == lowered_all(contents(list@)),
    decreases list,
{
    let mut r: Vec<CfgPred> = Vec::new();
    let mut i: usize = 0;
    while i < list.len()
        invariant
            i <= list@.len(),
            pred_contents(r@) == lowered_all(contents(list@.take(i as int))),
        decreases list@.len() - i,
    {
        proof {
            assert(list@.take(i as int + 1).drop_last() =~= list@.take(i as int));
            assert(list@.take(i as int + 1).last() == list@[i as int]);
        }
        let ghost before = contents(list@.take(i as int));
        let ghost was = r@;
        let pred = parse_cfg_pred(&list[i]);
        let ghost p = pred;
        r.push(pred);
        proof {
            let next = contents(list@.take(i as int + 1));
            assert(next == before.push(list@[i as int].content()));
            assert(next.drop_last() =~= before);
            assert(r@.drop_last() =~= was);
            assert(pred_contents(r@) == pred_contents(was).push(p.content()));
            assert(lowered_all(next) == lowered_all(before).push(lowered(next.last())));
        }
        i = i + 1;
    }
    assert(list@.take(i as int) =~= list@);
    r
}

/// Lowers a `cfg` operand to a predicate.
pub fn parse_cfg_pred(meta: &Operand) -> (r: CfgPred)
    ensures
        r.content() == lowered(meta.content()),
    decreases meta,
{
    match meta {
        Operand::Path(path) => if same(path.as_str(), "test") {
            CfgPred::Test
        } else {
            CfgPred::Unknown
        },
        Operand::NameValue(_) => CfgPred::Unknown,
        Operand::List { path, operands } => match operands {
            Some(list) => {
                proof {
                    lemma_contents(list@);
                }
                if same(path.as_str(), "not") {
                    if list.len() == 1 {
                        let inner = parse_cfg_pred(&list[0]);
                        CfgPred::Not(Box::new(inner))
                    } else {
                        CfgPred::Unknown
                    }
                } else if same(path.as_str(), "all") {
                    CfgPred::All(lower_all(list))
                } else if same(path.as_str(), "any") {
                    CfgPred::Any(lower_all(list))
                } else {
                    CfgPred::Unknown
                }
            },
            None => CfgPred::Unknown,
        },
    }
}

/// Whether the predicate can hold in a build that is not for tests.
pub fn can_hold_without_test(pred: &CfgPred) -> (b: bool)
    ensures
        b == can_hold(pred.content()),
    decreases pred,
{
    match pred {
        CfgPred::Test => false,
        CfgPred::Unknown => true,
        CfgPred::Not(inner) => can_fail_without_test(inner),
        CfgPred::All(list) => {
            proof {
                lemma_pred_contents(list@);
                lemma_lists(pred_contents(list@));
            }
            all_can_hold(list)
        },
        CfgPred::Any(list) => {
            proof {
                lemma_pred_contents(list@);
                lemma_lists(pred_contents(list@));
            }
            any_can_hold(list)
        },
    }
}

/// Whether the predicate can fail in a build that is not for tests.
pub fn can_fail_without_test(pred: &CfgPred) -> (b: bool)
    ensures
        b == can_fail(pred.content()),
    decreases pred,
{
    match pred {
        CfgPred::Test => true,
        CfgPred::Unknown => true,
        CfgPred::Not(inner) => can_hold_without_test(inner),
        CfgPred::All(list) => {
            proof {
                lemma_pred_contents(list@);
                lemma_lists(pred_contents(list@));
            }
            any_can_fail(list)
        },
        CfgPred::Any(list) => {
            proof {
                lemma_pred_contents(list@);
                lemma_lists(pred_contents(list@));
            }
            all_can_fail(list)
        },
    }
}

/// Whether each of the predicates can hold in a build that is not for tests.
fn all_can_hold(list: &Vec<CfgPred>) -> (b: bool)
    ensures
        b == forall|j: int|
            0 <= j < list@.len() ==> can_hold(#[trigger] pred_contents(list@)[j]),
    decreases list,
{
    let ghost all = pred_contents(list@);
    proof {
        lemma_pred_contents(list@);
    }
    let mut r = true;
    let mut i: usize = 0;
    while i < list.len()
        invariant
            i <= list@.len(),
            all.len() == list@.len(),
            forall|j: int| 0 <= j < all.len() ==> all[j] == (#[trigger] list@[j]).content(),
            r == forall|j: int| 0 <= j < i ==> can_hold(#[trigger] all[j]),
        decreases list@.len() - i,
    {
        assert(all[i as int] == list@[i as int].content());
        if !can_hold_without_test(&list[i]) {
            assert(!can_hold(all[i as int]));
            r = false;
        }
        i = i + 1;
    }
    r
}

/// Whether one of the predicates can hold in a build that is not for tests.
fn any_can_hold(list: &Vec<CfgPred>) -> (b: bool)
    ensures
        b == exists|j: int|
            0 <= j < list@.len() && can_hold(#[trigger] pred_contents(list@)[j]),
    decreases list,
{
    let ghost all = pred_contents(list@);
    proof {
        lemma_pred_contents(list@);
    }
    let mut r = false;
    let mut i: usize = 0;
    while i < list.len()
        invariant
            i <= list@.len(),
            all.len() == list@.len(),
            forall|j: int| 0 <= j < all.len() ==> all[j] == (#[trigger] list@[j]).content(),
            r == exists|j: int| 0 <= j < i && can_hold(#[trigger] all[j]),
        decreases list@.len() - i,
    {
        assert(all[i as int] == list@[i as int].content());
        if can_hold_without_test(&list[i]) {
            assert(can_hold(all[i as int]));
            r = true;
        }
        i = i + 1;
    }
    r
}

/// Whether each of the predicates can fail in a build that is not for tests.
fn all_can_fail(list: &Vec<CfgPred>) -> (b: bool)
    ensures
        b == forall|j: int|
            0 <= j < list@.len() ==> can_fail(#[trigger] pred_contents(list@)[j]),
    decreases list,
{
    let ghost all = pred_contents(list@);
    proof {
        lemma_pred_contents(list@);
    }
    let mut r = true;
    let mut i: usize = 0;
    while i < list.len()
        invariant
            i <= list@.len(),
            all.len() == list@.len(),
            forall|j: int| 0 <= j < all.len() ==> all[j] == (#[trigger] list@[j]).content(),
            r == forall|j: int| 0 <= j < i ==> can_fail(#[trigger] all[j]),
        decreases list@.len() - i,
    {
        assert(all[i as int] == list@[i as int].content());
        if !can_fail_without_test(&list[i]) {
            assert(!can_fail(all[i as int]));
            r = false;
        }
        i = i + 1;
    }
    r
}

/// Whether one of the predicates can fail in a build that is not for tests.
fn any_can_fail(list: &Vec<CfgPred>) -> (b: bool)
    ensures
        b == exists|j: int|
            0 <= j < list@.len() && can_fail(#[trigger] pred_contents(list@)[j]),
    decreases list,
{
    let ghost all = pred_contents(list@);
    proof {
        lemma_pred_contents(list@);
    }
    let mut r = false;
    let mut i: usize = 0;
    while i < list.len()
        invariant
            i <= list@.len(),
            all.len() == list@.len(),
            forall|j: int| 0 <= j < all.len() ==> all[j] == (#[trigger] list@[j]).content(),
            r == exists|j: int| 0 <= j < i && can_fail(#[trigger] all[j]),
        decreases list@.len() - i,
    {
        assert(all[i as int] == list@[i as int].content());
        if can_fail_without_test(&list[i]) {
            assert(can_fail(all[i as int]));
            r = true;
        }
        i = i + 1;
    }
    r
}

/// What a `cfg` operand says of the builds that are not for tests.
pub fn eval_in_non_test_build(meta: &Operand) -> (r: NonTestBuild)
    ensures
        r == in_non_test_build(lowered(meta.content())),
    decreases meta,
{
    match meta {
        Operand::Path(path) => if same(path.as_str(), "test") {
            NonTestBuild::Excluded
        } else {
            NonTestBuild::Unknown
        },
        Operand::NameValue(_) => NonTestBuild::Unknown,
        Operand::List { path, operands } => match operands {
            Some(list) => {
                proof {
                    lemma_contents(list@);
                    lemma_lowered_all(contents(list@));
                }
                if same(path.as_str(), "not") {
                    if list.len() != 1 {
                        return NonTestBuild::Unknown;
                    }
                    proof {
                        law_holds_or_fails(lowered(list@[0].content()));
                    }
                    match eval_in_non_test_build(&list[0]) {
                        NonTestBuild::Excluded => NonTestBuild::Included,
                        NonTestBuild::Included => NonTestBuild::Excluded,
                        NonTestBuild::Unknown => NonTestBuild::Unknown,
                    }
                } else if same(path.as_str(), "all") {
                    eval_all(list)
                } else if same(path.as_str(), "any") {
                    eval_any(list)
                } else {
                    NonTestBuild::Unknown
                }
            },
            None => NonTestBuild::Unknown,
        },
    }
}

/// What the conjunction of some operands says of the builds that are not for tests.
fn eval_all(list: &Vec<Operand>) -> (r: NonTestBuild)
    ensures
        r == in_non_test_build(Cfg::All(lowered_all(contents(list@)))),
    decreases list,
{
    let ghost all = lowered_all(contents(list@));
    proof {
        lemma_contents(list@);
        lemma_lowered_all(contents(list@));
        lemma_lists(all);
    }
    let mut acc = NonTestBuild::Included;
    let mut i: usize = 0;
    while i < list.len()
        invariant
            i <= list@.len(),
            all == lowered_all(contents(list@)),
            all.len() == list@.len(),
            can_hold(Cfg::All(all)) ==> forall|j: int|
                0 <= j < all.len() ==> can_hold(#[trigger] all[j]),
            forall|j: int|
                0 <= j < all.len() ==> all[j] == lowered((#[trigger] list@[j]).content()),
            forall|j: int| 0 <= j < i ==> can_hold(#[trigger] all[j]),
            acc == (if exists|j: int| 0 <= j < i && can_fail(#[trigger] all[j]) {
                NonTestBuild::Unknown
            } else {
                NonTestBuild::Included
            }),
        decreases list@.len() - i,
    {
        assert(all[i as int] == lowered(list@[i as int].content()));
        match eval_in_non_test_build(&list[i]) {
            NonTestBuild::Excluded => {
                assert(!can_hold(all[i as int]));
                return NonTestBuild::Excluded;
            },
            NonTestBuild::Unknown => {
                assert(can_fail(all[i as int]));
                acc = NonTestBuild::Unknown;
            },
            NonTestBuild::Included => {},
        }
        i = i + 1;
    }
    acc
}

/// What the disjunction of some operands says of the builds that are not for tests.
fn eval_any(list: &Vec<Operand>) -> (r: NonTestBuild)
    ensures
        r == in_non_test_build(Cfg::Any(lowered_all(contents(list@)))),
    decreases list,
{
    let ghost all = lowered_all(contents(list@));
    proof {
        lemma_contents(list@);
        lemma_lowered_all(contents(list@));
        lemma_lists(all);
    }
    let mut acc = NonTestBuild::Excluded;
    let mut i: usize = 0;
    while i < list.len()
        invariant
            i <= list@.len(),
            all == lowered_all(contents(list@)),
            all.len() == list@.len(),
            can_fail(Cfg::Any(all)) ==> forall|j: int|
                0 <= j < all.len() ==> can_fail(#[trigger] all[j]),
            (exists|j: int| 0 <= j < all.len() && can_hold(#[trigger] all[j])) ==> can_hold(
                Cfg::Any(all),
            ),
            forall|j: int|
                0 <= j < all.len() ==> all[j] == lowered((#[trigger] list@[j]).content()),
            forall|j: int| 0 <= j < i ==> can_fail(#[trigger] all[j]),
            acc == (if exists|j: int| 0 <= j < i && can_hold(#[trigger] all[j]) {
                NonTestBuild::Unknown
            } else {
                NonTestBuild::Excluded
            }),
        decreases list@.len() - i,
    {
        assert(all[i as int] == lowered(list@[i as int].content()));
        proof {
            law_holds_or_fails(all[i as int]);
        }
        match eval_in_non_test_build(&list[i]) {
            NonTestBuild::Included => {
                assert(!can_fail(all[i as int]));
                assert(can_hold(all[i as int]));
                return NonTestBuild::Included;
            },
            NonTestBuild::Unknown => {
                assert(can_hold(all[i as int]));
                acc = NonTestBuild::Unknown;
            },
            NonTestBuild::Excluded => {},
        }
        i = i + 1;
    }
    acc
}

/// Whether the attribute is a `cfg` with one operand that fails in every build that
/// is not for tests, by way of the predicate that it lowers to.
pub fn cfg_cannot_hold(meta: &Option<Operand>) -> (b: bool)
    ensures
        b == excludes(opt_content(*meta)),
{
    match meta {
        Some(Operand::List { path, operands }) => match operands {
            Some(list) => {
                proof {
                    lemma_contents(list@);
                }
                same(path.as_str(), "cfg") && list.len() == 1 && !can_hold_without_test(
                    &parse_cfg_pred(&list[0]),
                )
            },
            None => false,
        },
        _ => false,
    }
}

/// Whether the attribute is a `cfg` with one operand that fails in every build that
/// is not for tests, by evaluating the operand.
pub fn cfg_is_excluded(meta: &Option<Operand>) -> (b: bool)
    ensures
        b == excludes(opt_content(*meta)),
{
    match meta {
        Some(Operand::List { path, operands }) => match operands {
            Some(list) => {
                proof {
                    lemma_contents(list@);
                }
                same(path.as_str(), "cfg") && list.len() == 1 && eval_in_non_test_build(&list[0])
                    == NonTestBuild::Excluded
            },
            None => false,
        },
        _ => false,
    }
}

/// A build that is not for tests answers to the unknown conditions of a predicate,
/// each named by the way that leads to it. This is what it answers to those below
/// operand `i`.
pub open spec fn below(build: spec_fn(Seq<int>) -> bool, i: int) -> spec_fn(Seq<int>) -> bool {
    |way: Seq<int>| build(seq![i] + way)
}

/// The predicate holds in a build that is not for tests.
pub open spec fn holds_in(p: Cfg, build: spec_fn(Seq<int>) -> bool) -> bool
    decreases p,
{
    match p {
        Cfg::Test => false,
        Cfg::Unknown => build(Seq::empty()),
        Cfg::Not(inner) => !holds_in(*inner, below(build, 0)),
        Cfg::All(list) => forall|i: int|
            0 <= i < list.len() ==> holds_in(#[trigger] list[i], below(build, i)),
        Cfg::Any(list) => exists|i: int|
            0 <= i < list.len() && holds_in(#[trigger] list[i], below(build, i)),
    }
}

/// The build that makes the predicate hold, or fail, wherever that is possible.
pub open spec fn chosen_build(p: Cfg, wanted: bool, way: Seq<int>) -> bool
    decreases p,
{
    match p {
        Cfg::Test => false,
        Cfg::Unknown => wanted,
        Cfg::Not(inner) => chosen_build(*inner, !wanted, way.drop_first()),
        Cfg::All(list) => if 0 <= way[0] < list.len() {
            chosen_build(list[way[0]], wanted, way.drop_first())
        } else {
            false
        },
        Cfg::Any(list) => if 0 <= way[0] < list.len() {
            chosen_build(list[way[0]], wanted, way.drop_first())
        } else {
            false
        },
    }
}

/// What holds in a build can hold, and what fails in one can fail.
proof fn lemma_build_answers(p: Cfg, build: spec_fn(Seq<int>) -> bool)
    ensures
        holds_in(p, build) ==> can_hold(p),
        !holds_in(p, build) ==> can_fail(p),
    decreases p,
{
    match p {
        Cfg::Not(inner) => {
            lemma_build_answers(*inner, below(build, 0));
        },
        Cfg::All(list) => {
            assert forall|i: int| 0 <= i < list.len() implies {
                &&& holds_in(#[trigger] list[i], below(build, i)) ==> can_hold(list[i])
                &&& !holds_in(list[i], below(build, i)) ==> can_fail(list[i])
            } by {
                lemma_build_answers(list[i], below(build, i));
            }
        },
        Cfg::Any(list) => {
            assert forall|i: int| 0 <= i < list.len() implies {
                &&& holds_in(#[trigger] list[i], below(build, i)) ==> can_hold(list[i])
                &&& !holds_in(list[i], below(build, i)) ==> can_fail(list[i])
            } by {
                lemma_build_answers(list[i], below(build, i));
            }
        },
        _ => {},
    }
}

/// What can hold does in the chosen build, and what can fail does.
proof fn lemma_chosen_build(p: Cfg, wanted: bool)
    ensures
        wanted && can_hold(p) ==> holds_in(p, |way: Seq<int>| chosen_build(p, wanted, way)),
        !wanted && can_fail(p) ==> !holds_in(p, |way: Seq<int>| chosen_build(p, wanted, way)),
    decreases p,
{
    let build = |way: Seq<int>| chosen_build(p, wanted, way);
    match p {
        Cfg::Not(inner) => {
            lemma_chosen_build(*inner, !wanted);
            let inside = |way: Seq<int>| chosen_build(*inner, !wanted, way);
            assert forall|way: Seq<int>| #[trigger] below(build, 0)(way) == inside(way) by {
                assert((seq![0int] + way).drop_first() =~= way);
            }
            assert(below(build, 0) =~= inside);
        },
        Cfg::All(list) => {
            assert forall|i: int| 0 <= i < list.len() implies {
                &&& wanted && can_hold(#[trigger] list[i]) ==> holds_in(list[i], below(build, i))
                &&& !wanted && can_fail(list[i]) ==> !holds_in(list[i], below(build, i))
            } by {
                lemma_chosen_build(list[i], wanted);
                let inside = |way: Seq<int>| chosen_build(list[i], wanted, way);
                assert forall|way: Seq<int>| #[trigger] below(build, i)(way) == inside(way) by {
                    assert((seq![i] + way).drop_first() =~= way);
                    assert((seq![i] + way)[0] == i);
                }
                assert(below(build, i) =~= inside);
            }
        },
        Cfg::Any(list) => {
            assert forall|i: int| 0 <= i < list.len() implies {
                &&& wanted && can_hold(#[trigger] list[i]) ==> holds_in(list[i], below(build, i))
                &&& !wanted && can_fail(list[i]) ==> !holds_in(list[i], below(build, i))
            } by {
                lemma_chosen_build(list[i], wanted);
                let inside = |way: Seq<int>| chosen_build(list[i], wanted, way);
                assert forall|way: Seq<int>| #[trigger] below(build, i)(way) == inside(way) by {
                    assert((seq![i] + way).drop_first() =~= way);
                    assert((seq![i] + way)[0] == i);
                }
                assert(below(build, i) =~= inside);
            }
        },
        _ => {},
    }
}

/// A predicate can hold without `test` exactly if some build that is not for tests
/// makes it hold, and can fail exactly if some such build makes it fail.
pub proof fn law_can_hold_is_some_build(p: Cfg)
    ensures
        can_hold(p) <==> exists|build: spec_fn(Seq<int>) -> bool| holds_in(p, build),
        can_fail(p) <==> exists|build: spec_fn(Seq<int>) -> bool| !holds_in(p, build),
{
    lemma_chosen_build(p, true);
    lemma_chosen_build(p, false);
    if exists|build: spec_fn(Seq<int>) -> bool| holds_in(p, build) {
        let build = choose|build: spec_fn(Seq<int>) -> bool| holds_in(p, build);
        lemma_build_answers(p, build);
    }
    if exists|build: spec_fn(Seq<int>) -> bool| !holds_in(p, build) {
        let build = choose|build: spec_fn(Seq<int>) -> bool| !holds_in(p, build);
        lemma_build_answers(p, build);
    }
}

/// An item is excluded from the builds that are not for tests exactly if its `cfg`
/// operand fails in every one of them, and included exactly if it holds in every
/// one.
pub proof fn law_evaluation_is_sound_and_complete(p: Cfg)
    ensures
        in_non_test_build(p) == NonTestBuild::Excluded <==> forall|
            build: spec_fn(Seq<int>) -> bool,
        | !holds_in(p, build),
        in_non_test_build(p) == NonTestBuild::Included <==> forall|
            build: spec_fn(Seq<int>) -> bool,
        | holds_in(p, build),
{
    law_can_hold_is_some_build(p);
    law_holds_or_fails(p);
}

/// `not(..)` turns the two extreme answers round and keeps the third.
pub proof fn law_negation(p: Cfg)
    ensures
        in_non_test_build(Cfg::Not(Box::new(p))) == (match in_non_test_build(p) {
            NonTestBuild::Excluded => NonTestBuild::Included,
            NonTestBuild::Included => NonTestBuild::Excluded,
            NonTestBuild::Unknown => NonTestBuild::Unknown,
        }),
{
    law_holds_or_fails(p);
}

} // verus!
