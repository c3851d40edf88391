//! Which function of a file calls which, and which of them check what.
use vstd::prelude::*;
use crate::calls::{called_names, get_called_names};
use crate::syntax::{Kind, Node, Role};
use crate::text::{contains_any, listed, mentions_any, same, texts};

verus! {

/// What is known of one function.
pub struct FunctionInfo {
    pub name: String,
    /// The names it calls, in order.
    pub calls: Vec<String>,
    pub has_signer_check: bool,
    pub has_owner_check: bool,
}

/// What is known of the functions of a file, one entry for each name.
pub struct CallGraph {
    pub entries: Vec<FunctionInfo>,
}

/// A check that a caller may have made.
#[derive(Clone, Copy, Debug, PartialEq, Eq, Structural)]
pub enum CheckKind {
    SignerCheck,
    OwnerCheck,
}

/// Words that read an account's signer status.
pub const SIGNER_WORDS: [&'static str; 2] = ["is_signer", "has_signer"];

/// Words that turn a mention of `owner` into a comparison with a program.
pub const OWNER_PEERS: [&'static str; 2] = ["program_id", "key ()"];

/// The body reads signer status.
pub open spec fn checks_signer(body: Seq<char>) -> bool {
    mentions_any(body, SIGNER_WORDS@)
}

/// The body compares an owner with a program.
pub open spec fn checks_owner(body: Seq<char>) -> bool {
    crate::text::mentions(body, "owner"@) && mentions_any(body, OWNER_PEERS@)
}

impl FunctionInfo {
    /// The check `kind` is made here.
    pub open spec fn makes(self, kind: CheckKind) -> bool {
        match kind {
            CheckKind::SignerCheck => self.has_signer_check,
            CheckKind::OwnerCheck => self.has_owner_check,
        }
    }

    /// This entry describes the function `f`.
    pub open spec fn describes(self, f: Node) -> bool {
        &&& self.name@ == f.name@
        &&& f.part(Role::Body) matches Some(body) ==> texts(self.calls@) == called_names(body)
        &&& f.part(Role::Body) is None ==> self.calls@.len() == 0
        &&& self.has_signer_check == checks_signer(f.body_text())
        &&& self.has_owner_check == checks_owner(f.body_text())
    }
}

/// The free functions that stand directly in a file.
pub open spec fn top_functions(list: Seq<Node>) -> Seq<Node>
    decreases list.len(),
{
    if list.len() == 0 {
        Seq::empty()
    } else {
        let before = top_functions(list.drop_last());
        if list.last().kind is Function { before.push(list.last()) } else { before }
    }
}

/// The last function of `list` that is named `name`.
pub open spec fn last_named(list: Seq<Node>, name: Seq<char>) -> Option<Node>
    decreases list.len(),
{
    if list.len() == 0 {
        None
    } else if list.last().name@ == name {
        Some(list.last())
    } else {
        last_named(list.drop_last(), name)
    }
}

impl CallGraph {
    /// No name has two entries.
    pub open spec fn wf(self) -> bool {
        forall|i: int, j: int|
            0 <= i < j < self.entries@.len() ==> (#[trigger] self.entries@[i]).name@ != (
            #[trigger] self.entries@[j]).name@
    }

    /// There is an entry for `name`.
    pub open spec fn knows(self, name: Seq<char>) -> bool {
        exists|i: int| self.is_entry(name, i)
    }

    /// The first entry for `name`.
    pub open spec fn lookup(self, name: Seq<char>) -> Option<FunctionInfo> {
        if self.knows(name) {
            Some(self.entries@[choose|i: int| self.is_entry(name, i)])
        } else {
            None
        }
    }

    /// Entry `i` is the first one for `name`.
    pub open spec fn is_entry(self, name: Seq<char>, i: int) -> bool {
        &&& 0 <= i < self.entries@.len()
        &&& self.entries@[i].name@ == name
        &&& forall|j: int| 0 <= j < i ==> (#[trigger] self.entries@[j]).name@ != name
    }

    /// The graph of a file: each of its functions is described under its name, the
    /// later one where two share a name, and nothing else is.
    pub open spec fn describes(self, file: Node) -> bool {
        let fns = top_functions(file.parts(Role::Entry));
        &&& self.wf()
        &&& forall|i: int|
            0 <= i < self.entries@.len() ==> {
                &&& last_named(fns, (#[trigger] self.entries@[i]).name@) matches Some(f)
                &&& self.entries@[i].describes(f)
            }
        &&& forall|name: Seq<char>| #[trigger]
            last_named(fns, name) is Some ==> self.knows(name)
    }

    /// An empty graph.
    pub fn new() -> (g: CallGraph)
        ensures
            g.wf(),
            g.entries@.len() == 0,
    {
        CallGraph { entries: Vec::new() }
    }

    /// Finds the entry for `name`.
    pub fn get(&self, name: &str) -> (r: Option<&FunctionInfo>)
        ensures
            r.is_some() == self.lookup(name@).is_some(),
            r.is_some() ==> Some(*r.unwrap()) == self.lookup(name@),
    {
        let mut i: usize = 0;
        while i < self.entries.len()
            invariant
                i <= self.entries@.len(),
                forall|j: int| 0 <= j < i ==> (#[trigger] self.entries@[j]).name@ != name@,
            decreases self.entries@.len() - i,
        {
            if same(self.entries[i].name.as_str(), name) {
                assert(self.is_entry(name@, i as int));
                let ghost k = choose|k: int| self.is_entry(name@, k);
                assert(k == i as int);
                return Some(&self.entries[i]);
            }
            i = i + 1;
        }
        None
    }

    /// Puts `info` in, in place of any entry of the same name.
    fn insert(&mut self, info: FunctionInfo)
        requires
            old(self).wf(),
        ensures
            final(self).wf(),
            forall|i: int|
                0 <= i < final(self).entries@.len() ==> {
                    ||| #[trigger] final(self).entries@[i] == info
                    ||| old(self).entries@.contains(final(self).entries@[i])
                        && final(self).entries@[i].name@ != info.name@
                },
            final(self).knows(info.name@),
            forall|name: Seq<char>| old(self).knows(name) ==> #[trigger] final(self).knows(name),
    {
        let ghost was = *self;
        let mut i: usize = 0;
        while i < self.entries.len()
            invariant
                i <= self.entries@.len(),
                *self == was,
                was == *old(self),
                was.wf(),
                forall|j: int| 0 <= j < i ==> (#[trigger] self.entries@[j]).name@ != info.name@,
            decreases self.entries@.len() - i,
        {
            if same(self.entries[i].name.as_str(), info.name.as_str()) {
                let ghost g = info;
                self.entries.set(i, info);
                proof {
                    assert(self.is_entry(g.name@, i as int));
                    assert forall|name: Seq<char>| was.knows(name) implies #[trigger] self.knows(
                        name,
                    ) by {
                        let k = choose|k: int| was.is_entry(name, k);
                        assert(self.is_entry(name, k));
                    }
                    assert forall|k: int| 0 <= k < self.entries@.len() implies {
                        ||| #[trigger] self.entries@[k] == g
                        ||| was.entries@.contains(self.entries@[k]) && self.entries@[k].name@
                            != g.name@
                    } by {
                        if k != i {
                            assert(was.entries@[k] == self.entries@[k]);
                            assert(was.entries@[i as int].name@ == g.name@);
                            if k < i {
                            } else {
                                assert(was.entries@[i as int].name@ != was.entries@[k].name@);
                            }
                        }
                    }
                }
                return;
            }
            i = i + 1;
        }
        let ghost g = info;
        self.entries.push(info);
        proof {
            assert(self.is_entry(g.name@, was.entries@.len() as int));
            assert forall|name: Seq<char>| was.knows(name) implies #[trigger] self.knows(
                name,
            ) by {
                let k = choose|k: int| was.is_entry(name, k);
                assert(self.is_entry(name, k)) by {
                    assert forall|j: int| 0 <= j < k implies (
                    #[trigger] self.entries@[j]).name@ != name by {
                        assert(was.entries@[j] == self.entries@[j]);
                    }
                }
            }
            assert forall|k: int| 0 <= k < self.entries@.len() implies {
                ||| #[trigger] self.entries@[k] == g
                ||| was.entries@.contains(self.entries@[k]) && self.entries@[k].name@ != g.name@
            } by {
                if k < was.entries@.len() {
                    assert(was.entries@[k] == self.entries@[k]);
                }
            }
        }
    }
}

/// Some function that calls `name` makes the check `kind`.
pub open spec fn caller_checks(graph: CallGraph, name: Seq<char>, kind: CheckKind) -> bool {
    exists|i: int|
        0 <= i < graph.entries@.len() && texts((#[trigger] graph.entries@[i]).calls@).contains(name)
            && graph.entries@[i].makes(kind)
}

/// Whether some function that calls `name` makes the check `kind`.
pub fn caller_has_check(graph: &CallGraph, name: &str, kind: CheckKind) -> (b: bool)
    ensures
        b == caller_checks(*graph, name@, kind),
{
    let mut i: usize = 0;
    while i < graph.entries.len()
        invariant
            i <= graph.entries@.len(),
            forall|j: int|
                0 <= j < i ==> !(texts((#[trigger] graph.entries@[j]).calls@).contains(name@)
                    && graph.entries@[j].makes(kind)),
        decreases graph.entries@.len() - i,
    {
        let made = match kind {
            CheckKind::SignerCheck => graph.entries[i].has_signer_check,
            CheckKind::OwnerCheck => graph.entries[i].has_owner_check,
        };
        if made && listed(&graph.entries[i].calls, name) {
            return true;
        }
        i = i + 1;
    }
    false
}

/// Describes one function.
fn describe(f: &Node) -> (info: FunctionInfo)
    ensures
        info.describes(*f),
{
    let body = f.get_body_text();
    let signer = contains_any(body, SIGNER_WORDS.as_slice());
    let owner = crate::text::contains(body, "owner") && contains_any(body, OWNER_PEERS.as_slice());
    let called = match f.get_part(Role::Body) {
        Some(body) => get_called_names(body),
        None => Vec::new(),
    };
    FunctionInfo {
        name: f.name.clone(),
        calls: called,
        has_signer_check: signer,
        has_owner_check: owner,
    }
}

/// Builds the graph of a file from the free functions that stand directly in it.
pub fn build_call_graph(file: &Node) -> (g: CallGraph)
    ensures
        g.describes(*file),
{
    let items = file.get_parts(Role::Entry);
    let ghost all = items@.unref();
    let mut g = CallGraph::new();
    let mut i: usize = 0;
    while i < items.len()
        invariant
            i <= items@.len(),
            all == items@.unref(),
            g.wf(),
            forall|k: int|
                0 <= k < g.entries@.len() ==> {
                    &&& last_named(top_functions(all.take(i as int)), (
                    #[trigger] g.entries@[k]).name@) matches Some(f)
                    &&& g.entries@[k].describes(f)
                },
            forall|name: Seq<char>| #[trigger]
                last_named(top_functions(all.take(i as int)), name) is Some ==> g.knows(name),
        decreases items@.len() - i,
    {
        let ghost fns = top_functions(all.take(i as int));
        let ghost next = top_functions(all.take(i as int + 1));
        proof {
            assert(all.take(i as int + 1).drop_last() =~= all.take(i as int));
            assert(all.take(i as int + 1).last() == *items@[i as int]);
        }
        match items[i].kind {
            Kind::Function => {
                let info = describe(items[i]);
                let ghost d = info;
                let ghost was = g;
                g.insert(info);
                proof {
                    assert(next == fns.push(*items@[i as int]));
                    assert(next.drop_last() =~= fns);
                    assert forall|k: int| 0 <= k < g.entries@.len() implies {
                        &&& last_named(next, (#[trigger] g.entries@[k]).name@) matches Some(f)
                        &&& g.entries@[k].describes(f)
                    } by {
                        if g.entries@[k] == d {
                        } else {
                            let e = choose|e: int|
                                0 <= e < was.entries@.len() && was.entries@[e] == g.entries@[k];
                            assert(was.entries@[e].name@ == g.entries@[k].name@);
                        }
                    }
                    assert forall|name: Seq<char>| #[trigger]
                        last_named(next, name) is Some implies g.knows(name) by {
                        if name != d.name@ {
                            assert(last_named(fns, name) is Some);
                            assert(was.knows(name));
                        }
                    }
                }
            },
            _ => {
                assert(next == fns);
            },
        }
        i = i + 1;
    }
    assert(all.take(i as int) =~= all);
    g
}

/// In the graph of a file, a name leads to the last function of that name.
pub proof fn lemma_described(graph: CallGraph, file: Node, name: Seq<char>)
    requires
        graph.describes(file),
    ensures
        match last_named(top_functions(file.parts(Role::Entry)), name) {
            Some(f) => graph.lookup(name) is Some && (graph.lookup(name)->0).describes(f),
            None => graph.lookup(name) is None,
        },
{
    let fns = top_functions(file.parts(Role::Entry));
    if graph.knows(name) {
        let i = choose|i: int| graph.is_entry(name, i);
        assert(graph.entries@[i].name@ == name);
        assert(last_named(fns, graph.entries@[i].name@) is Some);
    }
}

/// In the graph of a file, the entry for a function says that it checks a signer exactly
/// if its body says `is_signer` or `has_signer`, and that it checks an owner exactly if
/// the body speaks of an owner and of a program or a key.
pub proof fn law_entries_tell_the_checks(graph: CallGraph, file: Node, f: Node)
    requires
        graph.describes(file),
        last_named(top_functions(file.parts(Role::Entry)), f.name@) == Some(f),
    ensures
        graph.lookup(f.name@) matches Some(known) && known.name@ == f.name@ && known.has_signer_check
            == (crate::text::mentions(f.body_text(), "is_signer"@) || crate::text::mentions(
            f.body_text(),
            "has_signer"@,
        )) && known.has_owner_check == (crate::text::mentions(f.body_text(), "owner"@) && (
        crate::text::mentions(f.body_text(), "program_id"@) || crate::text::mentions(
            f.body_text(),
            "key ()"@,
        ))) && (f.part(Role::Body) matches Some(body) ==> texts(known.calls@) == called_names(body)),
{
    lemma_described(graph, file, f.name@);
}

} // verus!
