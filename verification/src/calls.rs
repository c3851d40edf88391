//! Calls, seen by the name of what is called.
use vstd::prelude::*;
use crate::syntax::{Kind, Node, Role};
use crate::text::{same, texts};
use crate::walk::{
    any_node, collect_names, lemma_name_is_listed, lemma_named_by, names_of, nodes, nodes_in,
    opt_text, some,
};

verus! {

/// The name under which a call expression reaches its callee: the last segment
/// of the called path. Nothing where something other than a path is called.
pub open spec fn path_call(n: Node) -> Option<Seq<char>> {
    if n.kind is Call {
        match n.part(Role::Callee) {
            Some(callee) => if callee.kind is PathExpr { callee.last_word() } else { None },
            None => None,
        }
    } else {
        None
    }
}

/// The name of what a call or a method call reaches.
pub open spec fn callee_name(n: Node) -> Option<Seq<char>> {
    if n.kind is MethodCall { Some(n.name@) } else { path_call(n) }
}

/// The last segment of a macro call's path.
pub open spec fn macro_name(n: Node) -> Option<Seq<char>> {
    if n.kind is Macro { n.last_word() } else { None }
}

/// The names of everything called below `n`, in order.
pub open spec fn called_names(n: Node) -> Seq<Seq<char>> {
    names_of(nodes(n), |m: Node| callee_name(m))
}

/// The names of the plain calls below `n`, in order.
pub open spec fn plain_calls(n: Node) -> Seq<Seq<char>> {
    names_of(nodes(n), |m: Node| path_call(m))
}

/// Something named `name` is called below `n`.
pub open spec fn calls(n: Node, name: Seq<char>) -> bool {
    some(nodes(n), |m: Node| callee_name(m) == Some(name))
}

/// Reads the name under which a call expression reaches its callee.
pub fn get_path_call(n: &Node) -> (r: Option<&str>)
    ensures
        r.is_some() == path_call(*n).is_some(),
        r.is_some() ==> Some(r.unwrap()@) == path_call(*n),
{
    match n.kind {
        Kind::Call => match n.get_part(Role::Callee) {
            Some(callee) => match callee.kind {
                Kind::PathExpr => callee.get_last_word(),
                _ => None,
            },
            None => None,
        },
        _ => None,
    }
}

/// Reads the name of what a call or a method call reaches.
pub fn get_callee_name(n: &Node) -> (r: Option<&str>)
    ensures
        r.is_some() == callee_name(*n).is_some(),
        r.is_some() ==> Some(r.unwrap()@) == callee_name(*n),
{
    match n.kind {
        Kind::MethodCall => Some(n.name.as_str()),
        _ => get_path_call(n),
    }
}

/// Reads the last segment of a macro call's path.
pub fn get_macro_name(n: &Node) -> (r: Option<&str>)
    ensures
        r.is_some() == macro_name(*n).is_some(),
        r.is_some() ==> Some(r.unwrap()@) == macro_name(*n),
{
    match n.kind {
        Kind::Macro => n.get_last_word(),
        _ => None,
    }
}

/// An owned copy of an optional text.
pub fn own(s: Option<&str>) -> (r: Option<String>)
    ensures
        r.is_some() == s.is_some(),
        s.is_some() ==> opt_text(r) == Some(s.unwrap()@),
{
    match s {
        Some(s) => Some(s.to_owned()),
        None => None,
    }
}

/// Whether an optional text is there and equal to `name`.
pub fn is_named(s: Option<&str>, name: &str) -> (b: bool)
    ensures
        b == (s.is_some() && s.unwrap()@ == name@),
{
    match s {
        Some(s) => same(s, name),
        None => false,
    }
}

/// The names of everything called below `n`, in order.
pub fn get_called_names(n: &Node) -> (r: Vec<String>)
    ensures
        texts(r@) == called_names(*n),
{
    let list = nodes_in(n);
    collect_names(
        &list,
        |m: &Node| -> (s: Option<String>)
            ensures
                opt_text(s) == callee_name(*m)
        { own(get_callee_name(m)) },
        Ghost(|m: Node| callee_name(m)),
    )
}

/// The names of the plain calls below `n`, in order.
pub fn get_plain_calls(n: &Node) -> (r: Vec<String>)
    ensures
        texts(r@) == plain_calls(*n),
{
    let list = nodes_in(n);
    collect_names(
        &list,
        |m: &Node| -> (s: Option<String>)
            ensures
                opt_text(s) == path_call(*m)
        { own(get_path_call(m)) },
        Ghost(|m: Node| path_call(m)),
    )
}

/// Whether something named `name` is called below `n`.
pub fn does_call(n: &Node, name: &str) -> (b: bool)
    ensures
        b == calls(*n, name@),
{
    let list = nodes_in(n);
    any_node(
        &list,
        |m: &Node| -> (r: bool)
            ensures
                r == (callee_name(*m) == Some(name@))
        { is_named(get_callee_name(m), name) },
        Ghost(|m: Node| callee_name(m) == Some(name@)),
    )
}

/// One operand asks for the caller, the other for the contract itself.
pub open spec fn self_comparison(left: Node, right: Node) -> bool {
    ||| calls(left, "predecessor_account_id"@) && calls(right, "current_account_id"@)
    ||| calls(left, "current_account_id"@) && calls(right, "predecessor_account_id"@)
}

/// Whether one operand asks for the caller and the other for the contract.
pub fn is_self_comparison(left: &Node, right: &Node) -> (b: bool)
    ensures
        b == self_comparison(*left, *right),
{
    (does_call(left, "predecessor_account_id") && does_call(right, "current_account_id")) || (
    does_call(left, "current_account_id") && does_call(right, "predecessor_account_id"))
}

/// Something is among the called names exactly if a node below calls it: by a path whose
/// last segment it is, or as a method.
pub proof fn law_called_names_are_those_called(n: Node, name: Seq<char>)
    ensures
        called_names(n).contains(name) <==> exists|k: int|
            0 <= k < nodes(n).len() && ((#[trigger] nodes(n)[k]).kind is MethodCall && nodes(
                n,
            )[k].name@ == name || nodes(n)[k].kind is Call && (nodes(n)[k].part(
                Role::Callee,
            ) matches Some(c) && c.kind is PathExpr && c.last_word() == Some(name))),
{
    let f = |m: Node| callee_name(m);
    if called_names(n).contains(name) {
        let k = lemma_named_by(nodes(n), f, name);
        assert(f(nodes(n)[k]) == Some(name));
    }
    if exists|k: int|
        0 <= k < nodes(n).len() && ((#[trigger] nodes(n)[k]).kind is MethodCall && nodes(n)[k].name@
            == name || nodes(n)[k].kind is Call && (nodes(n)[k].part(Role::Callee) matches Some(c)
            && c.kind is PathExpr && c.last_word() == Some(name))) {
        let k = choose|k: int|
            0 <= k < nodes(n).len() && ((#[trigger] nodes(n)[k]).kind is MethodCall && nodes(
                n,
            )[k].name@ == name || nodes(n)[k].kind is Call && (nodes(n)[k].part(
                Role::Callee,
            ) matches Some(c) && c.kind is PathExpr && c.last_word() == Some(name)));
        assert(f(nodes(n)[k]) == Some(name));
        lemma_name_is_listed(nodes(n), f, k);
    }
}

/// Something is called exactly if it is among the called names.
pub proof fn law_calls_are_called_names(n: Node, name: Seq<char>)
    ensures
        calls(n, name) <==> called_names(n).contains(name),
{
    let f = |m: Node| callee_name(m);
    let p = |m: Node| callee_name(m) == Some(name);
    if called_names(n).contains(name) {
        let k = lemma_named_by(nodes(n), f, name);
        assert(p(nodes(n)[k]));
    }
    if calls(n, name) {
        let k = choose|k: int| 0 <= k < nodes(n).len() && #[trigger] p(nodes(n)[k]);
        assert(f(nodes(n)[k]) == Some(name));
        lemma_name_is_listed(nodes(n), f, k);
    }
}

} // verus!
