//! What patterns bind.
use vstd::prelude::*;
use crate::syntax::{lemma_part_smaller, Kind, Node, Role};

verus! {

/// The name that a pattern binds, where it is a plain name, with its type or
/// without.
pub open spec fn bound(pat: Node) -> Option<Seq<char>>
    decreases pat,
{
    proof {
        lemma_part_smaller(pat, Role::Pattern);
    }
    match pat.kind {
        Kind::PatIdent => Some(pat.name@),
        Kind::PatType => match pat.part(Role::Pattern) {
            Some(inner) => bound(inner),
            None => None,
        },
        _ => None,
    }
}

/// The name that a `let` binds.
pub open spec fn let_name(stmt: Node) -> Option<Seq<char>> {
    match stmt.part(Role::Pattern) {
        Some(pat) => bound(pat),
        None => None,
    }
}

/// Reads the name that a pattern binds.
pub fn get_bound(pat: &Node) -> (r: Option<&str>)
    ensures
        r.is_some() == bound(*pat).is_some(),
        r.is_some() ==> Some(r.unwrap()@) == bound(*pat),
    decreases pat,
{
    proof {
        lemma_part_smaller(*pat, Role::Pattern);
    }
    match pat.kind {
        Kind::PatIdent => Some(pat.name.as_str()),
        Kind::PatType => match pat.get_part(Role::Pattern) {
            Some(inner) => get_bound(inner),
            None => None,
        },
        _ => None,
    }
}

/// Reads the name that a `let` binds.
pub fn get_let_name(stmt: &Node) -> (r: Option<&str>)
    ensures
        r.is_some() == let_name(*stmt).is_some(),
        r.is_some() ==> Some(r.unwrap()@) == let_name(*stmt),
{
    match stmt.get_part(Role::Pattern) {
        Some(pat) => get_bound(pat),
        None => None,
    }
}

} // verus!
