//! Questions about attributes.
use vstd::prelude::*;
use crate::cfg::{cfg_is_excluded, excludes, meta_of, read_meta, test_builds_only};
use crate::syntax::{Node, Role};
use crate::text::{contains, is_any, mentions, same, same_as_any};
use crate::walk::{any_node, some};

verus! {

/// `n` carries the attribute `name`.
pub open spec fn carries(n: Node, name: Seq<char>) -> bool {
    some(n.parts(Role::Attribute), |a: Node| a.name@ == name)
}

/// `n` carries one of the attributes in `names`.
pub open spec fn carries_any(n: Node, names: Seq<&str>) -> bool {
    some(n.parts(Role::Attribute), |a: Node| is_any(a.name@, names))
}

/// `n` carries an attribute `name` in whose text `value` occurs.
pub open spec fn carries_with(n: Node, name: Seq<char>, value: Seq<char>) -> bool {
    some(n.parts(Role::Attribute), |a: Node| a.name@ == name && mentions(a.text@, value))
}

/// Whether `n` carries the attribute `name`.
pub fn has_attribute(n: &Node, name: &str) -> (b: bool)
    ensures
        b == carries(*n, name@),
{
    let list = n.get_parts(Role::Attribute);
    any_node(
        &list,
        |a: &Node| -> (r: bool)
            ensures
                r == (a.name@ == name@)
        { same(a.name.as_str(), name) },
        Ghost(|a: Node| a.name@ == name@),
    )
}

/// Whether `n` carries one of the attributes in `names`.
pub fn has_any_attribute(n: &Node, names: &[&str]) -> (b: bool)
    ensures
        b == carries_any(*n, names@),
{
    let list = n.get_parts(Role::Attribute);
    any_node(
        &list,
        |a: &Node| -> (r: bool)
            ensures
                r == is_any(a.name@, names@)
        { same_as_any(a.name.as_str(), names) },
        Ghost(|a: Node| is_any(a.name@, names@)),
    )
}

/// Whether `n` carries an attribute `name` in whose text `value` occurs.
pub fn has_attribute_with_value(n: &Node, name: &str, value: &str) -> (b: bool)
    ensures
        b == carries_with(*n, name@, value@),
{
    let list = n.get_parts(Role::Attribute);
    any_node(
        &list,
        |a: &Node| -> (r: bool)
            ensures
                r == (a.name@ == name@ && mentions(a.text@, value@))
        { same(a.name.as_str(), name) && contains(a.text.as_str(), value) },
        Ghost(|a: Node| a.name@ == name@ && mentions(a.text@, value@)),
    )
}

/// `n` carries a `cfg` that speaks of tests, whatever it says of them.
pub open spec fn cfg_mentions_test(n: Node) -> bool {
    carries_with(n, "cfg"@, "test"@)
}

/// `n` carries a test attribute of whatever framework.
pub open spec fn carries_test(n: Node) -> bool {
    some(n.parts(Role::Attribute), |a: Node| a.last_word() == Some("test"@))
}

/// Whether `n` carries a test attribute of whatever framework.
pub fn has_test_attribute(n: &Node) -> (b: bool)
    ensures
        b == carries_test(*n),
{
    let list = n.get_parts(Role::Attribute);
    any_node(
        &list,
        |a: &Node| -> (r: bool)
            ensures
                r == (a.last_word() == Some("test"@))
        {
            match a.get_last_word() {
                Some(word) => same(word, "test"),
                None => false,
            }
        },
        Ghost(|a: Node| a.last_word() == Some("test"@)),
    )
}

/// `n` carries a test attribute, or is compiled for tests only.
pub open spec fn test_attributed(n: Node) -> bool {
    carries_test(n) || test_builds_only(n)
}

/// Whether `n` carries a test attribute or is compiled for tests only.
pub fn is_test_attributed(n: &Node) -> (b: bool)
    ensures
        b == test_attributed(*n),
{
    has_test_attribute(n) || is_cfg_test(n)
}

/// Go below everything but functions and modules of tests.
pub open spec fn outside_functions_and_marked_tests() -> spec_fn(Node) -> bool {
    |n: Node| !(n.kind is Function) && !(n.kind is Module && test_attributed(n))
}

/// Go below everything but functions.
pub open spec fn outside_functions() -> spec_fn(Node) -> bool {
    |n: Node| !(n.kind is Function)
}

/// Go below everything but functions and test modules.
pub open spec fn outside_functions_and_tests() -> spec_fn(Node) -> bool {
    |n: Node| !(n.kind is Function) && !(n.kind is Module && test_builds_only(n))
}

/// Go below everything but methods and test modules.
pub open spec fn outside_methods_and_tests() -> spec_fn(Node) -> bool {
    |n: Node| !(n.kind is Method) && !(n.kind is Module && test_builds_only(n))
}

/// Go below everything but functions and modules with a `cfg` that speaks of tests.
pub open spec fn outside_functions_and_cfg_tests() -> spec_fn(Node) -> bool {
    |n: Node| !(n.kind is Function) && !(n.kind is Module && cfg_mentions_test(n))
}

/// Whether `n` is compiled for tests only.
pub fn is_cfg_test(n: &Node) -> (b: bool)
    ensures
        b == test_builds_only(*n),
{
    let list = n.get_parts(Role::Attribute);
    any_node(
        &list,
        |a: &Node| -> (r: bool)
            ensures
                r == excludes(meta_of(a.text@))
        { cfg_is_excluded(&read_meta(a.text.as_str())) },
        Ghost(|a: Node| excludes(meta_of(a.text@))),
    )
}

/// Whether `n` carries a `cfg` that speaks of tests, whatever it says of them.
pub fn has_cfg_mentioning_test(n: &Node) -> (b: bool)
    ensures
        b == cfg_mentions_test(*n),
{
    has_attribute_with_value(n, "cfg", "test")
}

/// An attribute whose path ends in `test` marks a test, whatever stands in front of it,
/// and nothing else does.
pub proof fn law_test_is_known_by_its_last_word(n: Node)
    ensures
        carries_test(n) <==> exists|k: int|
            0 <= k < n.parts(Role::Attribute).len() && (#[trigger] n.parts(
                Role::Attribute,
            )[k]).words@.len() > 0 && n.parts(Role::Attribute)[k].words@.last()@ == "test"@,
        n.parts(Role::Attribute).len() == 0 ==> !test_attributed(n) && !cfg_mentions_test(n),
{
    let list = n.parts(Role::Attribute);
    let p = |a: Node| a.last_word() == Some("test"@);
    if carries_test(n) {
        let k = choose|k: int| 0 <= k < list.len() && #[trigger] p(list[k]);
        assert(list[k].words@.last()@ == "test"@);
    }
    if exists|k: int|
        0 <= k < list.len() && (#[trigger] list[k]).words@.len() > 0 && list[k].words@.last()@
            == "test"@ {
        let k = choose|k: int|
            0 <= k < list.len() && (#[trigger] list[k]).words@.len() > 0 && list[k].words@.last()@
                == "test"@;
        assert(p(list[k]));
    }
}

} // verus!
