//! Tokens whose extensions nobody looks at.
use vstd::prelude::*;
use crate::attributes::{is_cfg_test, outside_functions_and_tests};
use crate::calls::{called_names, calls, get_called_names};
use crate::cfg::test_builds_only;
use crate::context::ScanContext;
use crate::detector::{Detector, Profile, raise, raised, RuleInfo, stamped};
use crate::finding::{Chain, Confidence, Finding, Report, Severity};
use crate::functions::{
    find_last, last_function, law_only_function_is_found, lemma_last_function, only_function,
};
use crate::quotes::{blank_literals, outside_literals};
use crate::search::{find_marked, first_marked, get_previous_mark, matches_at, previous_mark};
use crate::syntax::{Kind, Node, Role};
use crate::text::{
    any_text, begins, begins_any, chars_of, contains, contains_any, ends, ends_with, is_any, join3,
    listed, mentions, mentions_any, occurs_at, same, same_as_any, slice_of, some_text, split,
    split_text, starts_with, starts_with_any, text_of, texts, to_uppercase, trim_text, trimmed,
    upper, words, words_of,
};
use crate::walk::{
    any_node, collect_findings, collect_names, find_last_node, last_node, leads_openly,
    lemma_named_by, lemma_reports_from, lemma_sealed, lemma_spoken_of, names_of, nodes, nodes_in,
    opt_report, opt_text, reports_of, some, speaks_of, walk, walk_nodes,
};

verus! {

/// Reports functions that move tokens of the extended token program without a look
/// at the extensions of the mint.
pub struct TokenExtensionsDetector;

/// The rule's description of itself.
pub open spec fn profile() -> Profile {
    Profile {
        id: "SOL-012"@,
        name: "token-2022-extension-safety"@,
        description: "Detects programs accepting Token-2022 tokens without checking for dangerous extensions"@,
        severity: Severity::High,
        confidence: Confidence::Medium,
        chain: Chain::Solana,
    }
}

/// The rule's description of itself.
fn info() -> (r: RuleInfo)
    ensures
        r@ == profile(),
{
    RuleInfo {
        id: "SOL-012",
        name: "token-2022-extension-safety",
        description: "Detects programs accepting Token-2022 tokens without checking for dangerous extensions",
        severity: Severity::High,
        confidence: Confidence::Medium,
        chain: Chain::Solana,
    }
}

/// Where frameworks and libraries live.
pub const FRAMEWORK_PATHS: [&'static str; 12] = [
    "/spl-token",
    "/spl_token",
    "/anchor-spl/",
    "/anchor_spl/",
    "/anchor/spl/",
    "/token/src/",
    "/token-2022/src/",
    "/interface/src/",
    "/anchor-lang/",
    "/anchor_lang/",
    "/anchor/lang/",
    "/codegen/",
];

/// Words of the extended token program.
pub const TRIGGER_PATTERNS: [&'static str; 5] = [
    "spl_token_2022",
    "Token2022",
    "InterfaceAccount",
    "token_interface",
    "TokenInterface",
];

/// Words of a function that moves tokens or calls a program.
pub const MOVEMENT_PATTERNS: [&'static str; 12] = [
    "transfer",
    "burn",
    "mint_to",
    "CpiContext",
    "invoke",
    "withdraw",
    "deposit",
    "freeze",
    "thaw",
    "close_account",
    "approve",
    "cpi",
];

/// How the classic token program is named.
pub const CLASSIC_PROGRAM: [&'static str; 2] = ["spl_token :: id ()", "spl_token :: ID"];

/// The calls that read the extensions of a mint.
pub const EXTENSION_CHECK_CALLS: [&'static str; 2] = ["get_extension_types", "assert_mint_extensions"];

/// How the names of extension types begin.
pub const EXTENSION_TYPE_PATHS: [&'static str; 4] = [
    "ExtensionType",
    "PermanentDelegate",
    "TransferHook",
    "MintCloseAuthority",
];

/// The calls that ask whether a mint is acceptable.
pub const ALLOWLIST_HELPER_CALLS: [&'static str; 4] = [
    "valid_mint",
    "allowed_mint",
    "mint_whitelist",
    "mint_allowlist",
];

/// How the names of lists of acceptable mints begin.
pub const ALLOWLIST_CONSTS: [&'static str; 3] = [
    "ALLOWED_EXTENSION",
    "MINT_WHITELIST",
    "MINT_ALLOWLIST",
];

/// The segments of the paths of `list`, in order.
pub open spec fn segments(list: Seq<Node>) -> Seq<Seq<char>>
    decreases list.len(),
{
    if list.len() == 0 {
        Seq::empty()
    } else if list.last().kind is Path {
        segments(list.drop_last()) + texts(list.last().words@)
    } else {
        segments(list.drop_last())
    }
}

/// The texts of `list` that are not empty, in order.
pub open spec fn nonempty(list: Seq<Seq<char>>) -> Seq<Seq<char>>
    decreases list.len(),
{
    if list.len() == 0 {
        Seq::empty()
    } else if list.last().len() > 0 {
        nonempty(list.drop_last()).push(list.last())
    } else {
        nonempty(list.drop_last())
    }
}

/// The words inside the macro calls of `list`, in order. What a literal says is no
/// word.
pub open spec fn macro_words(list: Seq<Node>) -> Seq<Seq<char>>
    decreases list.len(),
{
    if list.len() == 0 {
        Seq::empty()
    } else if list.last().kind is Macro {
        macro_words(list.drop_last()) + nonempty(
            words(outside_literals(list.last().text@)),
        )
    } else {
        macro_words(list.drop_last())
    }
}

/// The name that a pattern node binds.
pub open spec fn binding(n: Node) -> Option<Seq<char>> {
    if n.kind is PatIdent { Some(n.name@) } else { None }
}

/// What a function calls, names and binds.
pub struct Facts {
    /// The names of what is called.
    pub called: Seq<Seq<char>>,
    /// The segments of every path.
    pub segments: Seq<Seq<char>>,
    /// The words inside macro calls.
    pub macro_words: Seq<Seq<char>>,
    /// The names that patterns bind.
    pub locals: Seq<Seq<char>>,
}

/// What `f` calls, names and binds.
pub open spec fn facts_of(f: Node) -> Facts {
    Facts {
        called: called_names(f),
        segments: segments(nodes(f)),
        macro_words: macro_words(nodes(f)),
        locals: names_of(nodes(f), |n: Node| binding(n)),
    }
}

impl Facts {
    /// One of `names` is called, or stands in a macro call and is no local.
    pub open spec fn calls_any(self, names: Seq<&str>) -> bool {
        ||| some_text(self.called, |c: Seq<char>| is_any(c, names))
        ||| some_text(
            self.macro_words,
            |w: Seq<char>| is_any(w, names) && !self.locals.contains(w),
        )
    }

    /// An extension type is named.
    pub open spec fn names_extension(self) -> bool {
        ||| some_text(self.segments, |s: Seq<char>| begins_any(s, EXTENSION_TYPE_PATHS@))
        ||| some_text(self.macro_words, |s: Seq<char>| begins_any(s, EXTENSION_TYPE_PATHS@))
    }

    /// The name is that of a list of acceptable mints, and no local.
    pub open spec fn allowlist_name(self, s: Seq<char>) -> bool {
        !self.locals.contains(s) && begins_any(upper(s), ALLOWLIST_CONSTS@)
    }

    /// A list of acceptable mints is read.
    pub open spec fn reads_allowlist(self) -> bool {
        ||| some_text(self.segments, |s: Seq<char>| self.allowlist_name(s))
        ||| some_text(self.macro_words, |s: Seq<char>| self.allowlist_name(s))
    }

    /// The extensions of a mint, or the mint itself, are checked.
    pub open spec fn checks(self) -> bool {
        ||| self.calls_any(EXTENSION_CHECK_CALLS@)
        ||| self.names_extension()
        ||| self.calls_any(ALLOWLIST_HELPER_CALLS@)
        ||| self.reads_allowlist()
    }
}

/// `f` checks the extensions of a mint, or the mint itself.
pub open spec fn performs_check(f: Node) -> bool {
    facts_of(f).checks()
}

/// The last words of the attributes of test functions.
pub const TEST_WORDS: [&'static str; 2] = ["test", "rstest"];

/// The attribute marks a test function.
pub open spec fn test_mark(a: Node) -> bool {
    a.last_word() matches Some(w) && is_any(w, TEST_WORDS@)
}

/// The function is a test.
pub open spec fn test_fn(f: Node) -> bool {
    begins(f.name@, "test_"@) || ends(f.name@, "_test"@) || some(
        f.parts(Role::Attribute),
        |a: Node| test_mark(a),
    )
}

/// What ends the arguments of a context, or the name of the last of them.
pub open spec fn bracket(c: char) -> bool {
    c == '<' || c == '>'
}

/// What stands between the arguments of a context, and between the words of a path.
pub open spec fn path_break(c: char) -> bool {
    c == ',' || c == ':'
}

/// The struct that the type of a context names: the last argument of `Context`,
/// without the path in front of it and without arguments of its own.
pub open spec fn context_of(ty: Seq<char>) -> Option<Seq<char>> {
    match first_marked(ty, "Context"@, '<') {
        Some(i) => {
            let parts = split(ty.skip(i), |c: char| bracket(c));
            let name = trimmed(split(parts[1], |c: char| path_break(c)).last());
            if parts.len() > 1 && name.len() > 0 { Some(name) } else { None }
        },
        None => None,
    }
}

/// The struct that the context parameter `p` names.
pub open spec fn param_context(p: Node) -> Option<Seq<char>> {
    if p.kind is Param {
        match p.part(Role::Type) {
            Some(ty) => context_of(ty.text@),
            None => None,
        }
    } else {
        None
    }
}

/// The structs that the context parameters of `f` name, in order.
pub open spec fn contexts(f: Node) -> Seq<Seq<char>> {
    names_of(f.parts(Role::Param), |p: Node| param_context(p))
}

/// The node is a struct named `name`.
pub open spec fn is_struct(n: Node, name: Seq<char>) -> bool {
    n.kind is Struct && n.name@ == name
}

/// A constraint `address = ..` starts at `i`.
pub open spec fn address_at(code: Seq<char>, i: int) -> bool {
    &&& occurs_at(code, "address = "@, i)
    &&& previous_mark(code, i) == Some('(') || previous_mark(code, i) == Some(',')
}

/// The attribute constrains an account to a fixed address.
pub open spec fn fixes_address(a: Node) -> bool {
    a.name@ == "account"@ && exists|i: int| #[trigger] address_at(outside_literals(a.text@), i)
}

/// The field is a mint of a fixed address.
pub open spec fn pinned_field(n: Node) -> bool {
    &&& n.kind is FieldDef
    &&& n.part(Role::Type) matches Some(ty) && words(ty.text@).contains("Mint"@)
    &&& some(n.parts(Role::Attribute), |a: Node| fixes_address(a))
}

/// The struct fixes the address of a mint.
pub open spec fn pins_mint(item: Node) -> bool {
    item.kind == (Kind::Struct { named: true }) && some(
        item.parts(Role::Field),
        |n: Node| pinned_field(n),
    )
}

/// The accounts of the first context that `f` takes fix the address of a mint.
pub open spec fn context_pins(list: Seq<Node>, f: Node) -> bool {
    contexts(f).len() > 0 && (last_node(
        list,
        |n: Node| is_struct(n, contexts(f)[0]),
    ) matches Some(item) && pins_mint(item))
}

/// The names that the body of `f` calls.
pub open spec fn body_calls(f: Node) -> Seq<Seq<char>> {
    match f.part(Role::Body) {
        Some(body) => called_names(body),
        None => Seq::empty(),
    }
}

/// Whether a search through the functions that `f` calls, at most `depth` calls
/// away, meets one that checks, and which names it has then visited. A name is
/// visited once.
pub open spec fn search(
    list: Seq<Node>,
    f: Node,
    depth: nat,
    visited: Seq<Seq<char>>,
) -> (bool, Seq<Seq<char>>)
    decreases depth, 1int, 0nat,
{
    if depth == 0 {
        (false, visited)
    } else {
        search_names(list, body_calls(f), depth, visited)
    }
}

/// The search through the functions named `names`, one after the other.
pub open spec fn search_names(
    list: Seq<Node>,
    names: Seq<Seq<char>>,
    depth: nat,
    visited: Seq<Seq<char>>,
) -> (bool, Seq<Seq<char>>)
    decreases depth, 0int, names.len(),
{
    if depth == 0 || names.len() == 0 {
        (false, visited)
    } else {
        let name = names[0];
        let rest = names.drop_first();
        match last_function(list, name) {
            Some(callee) => if visited.contains(name) {
                search_names(list, rest, depth, visited)
            } else if performs_check(callee) {
                (true, visited.push(name))
            } else {
                let (found, seen) = search(list, callee, (depth - 1) as nat, visited.push(name));
                if found { (true, seen) } else { search_names(list, rest, depth, seen) }
            },
            None => search_names(list, rest, depth, visited),
        }
    }
}

/// `f` moves extended tokens and nobody looks at the extensions, where `list` holds
/// the items of the file.
pub open spec fn unchecked(list: Seq<Node>, f: Node) -> bool {
    &&& f.kind is Function
    &&& !test_fn(f)
    &&& !mentions_any(f.text@, CLASSIC_PROGRAM@)
    &&& mentions_any(f.body_text(), TRIGGER_PATTERNS@) || mentions_any(f.text@, TRIGGER_PATTERNS@)
    &&& mentions_any(f.body_text(), MOVEMENT_PATTERNS@) || mentions_any(
        f.text@,
        MOVEMENT_PATTERNS@,
    )
    &&& !performs_check(f)
    &&& !search(list, f, 2, Seq::empty()).0
    &&& !context_pins(list, f)
}

/// The report on `f`, if there is one, where `list` holds the nodes that it is judged
/// by.
pub open spec fn report_among(ctx: ScanContext, list: Seq<Node>, f: Node) -> Option<Report> {
    if unchecked(list, f) {
        Some(
            raised(
                profile(),
                ctx,
                Confidence::Medium,
                f.line,
                f.column,
                "Function '"@ + f.name@
                    + "' accepts Token-2022 tokens without checking for dangerous extensions (PermanentDelegate, TransferHook, MintCloseAuthority)"@,
                "Check mint extensions via get_extension_types() and reject mints with PermanentDelegate, TransferHook, or MintCloseAuthority extensions"@,
            ),
        )
    } else {
        None
    }
}

/// The report on `f`, if there is one.
pub open spec fn report_on(ctx: ScanContext, f: Node) -> Option<Report> {
    report_among(ctx, nodes(ctx.ast), f)
}

/// What a function calls, names and binds.
pub struct SafeCheckFacts {
    /// The names of what is called.
    pub called: Vec<String>,
    /// The segments of every path.
    pub path_segments: Vec<String>,
    /// The words inside macro calls.
    pub macro_idents: Vec<String>,
    /// The names that patterns bind.
    pub locals: Vec<String>,
}

impl View for SafeCheckFacts {
    type V = Facts;

    open spec fn view(&self) -> Facts {
        Facts {
            called: texts(self.called@),
            segments: texts(self.path_segments@),
            macro_words: texts(self.macro_idents@),
            locals: texts(self.locals@),
        }
    }
}

/// The segments of the paths of `list`, in order.
fn get_segments(list: &Vec<&Node>) -> (r: Vec<String>)
    ensures
        texts(r@) == segments(list@.unref()),
{
    let ghost all = list@.unref();
    let mut r: Vec<String> = Vec::new();
    assert(texts(r@) =~= Seq::<Seq<char>>::empty());
    let mut i: usize = 0;
    while i < list.len()
        invariant
            i <= list@.len(),
            all == list@.unref(),
            texts(r@) == segments(all.take(i as int)),
        decreases list@.len() - i,
    {
        assert(all.take(i as int + 1).drop_last() =~= all.take(i as int));
        assert(all.take(i as int + 1).last() == *list@[i as int]);
        let n = list[i];
        if matches!(n.kind, Kind::Path) {
            push_texts(&n.words, &mut r);
        }
        i = i + 1;
    }
    assert(all.take(i as int) =~= all);
    r
}

/// Appends the texts of `list`.
fn push_texts(list: &Vec<String>, out: &mut Vec<String>)
    ensures
        texts(final(out)@) == texts(old(out)@) + texts(list@),
{
    let ghost before = texts(out@);
    let mut i: usize = 0;
    while i < list.len()
        invariant
            i <= list@.len(),
            texts(out@) == before + texts(list@).take(i as int),
        decreases list@.len() - i,
    {
        let ghost was = texts(out@);
        out.push(list[i].clone());
        assert(texts(out@) =~= was.push(texts(list@)[i as int]));
        assert(texts(out@) =~= before + texts(list@).take(i as int + 1));
        i = i + 1;
    }
    assert(texts(list@).take(i as int) =~= texts(list@));
}

/// Appends the texts of `list` that are not empty.
fn push_nonempty(list: &Vec<String>, out: &mut Vec<String>)
    ensures
        texts(final(out)@) == texts(old(out)@) + nonempty(texts(list@)),
{
    let ghost before = texts(out@);
    let ghost all = texts(list@);
    let mut i: usize = 0;
    while i < list.len()
        invariant
            i <= list@.len(),
            all == texts(list@),
            texts(out@) == before + nonempty(all.take(i as int)),
        decreases list@.len() - i,
    {
        assert(all.take(i as int + 1).drop_last() =~= all.take(i as int));
        assert(all.take(i as int + 1).last() == list@[i as int]@);
        let ghost was = texts(out@);
        if !list[i].as_str().is_empty() {
            out.push(list[i].clone());
            assert(texts(out@) =~= was.push(all[i as int]));
        }
        assert(texts(out@) =~= before + nonempty(all.take(i as int + 1)));
        i = i + 1;
    }
    assert(all.take(i as int) =~= all);
}

/// The words inside the macro calls of `list`, in order.
fn get_macro_words(list: &Vec<&Node>) -> (r: Vec<String>)
    ensures
        texts(r@) == macro_words(list@.unref()),
{
    let ghost all = list@.unref();
    let mut r: Vec<String> = Vec::new();
    assert(texts(r@) =~= Seq::<Seq<char>>::empty());
    let mut i: usize = 0;
    while i < list.len()
        invariant
            i <= list@.len(),
            all == list@.unref(),
            texts(r@) == macro_words(all.take(i as int)),
        decreases list@.len() - i,
    {
        assert(all.take(i as int + 1).drop_last() =~= all.take(i as int));
        assert(all.take(i as int + 1).last() == *list@[i as int]);
        let n = list[i];
        if matches!(n.kind, Kind::Macro) {
            push_nonempty(&words_of(blank_literals(n.text.as_str()).as_str()), &mut r);
        }
        i = i + 1;
    }
    assert(all.take(i as int) =~= all);
    r
}

impl SafeCheckFacts {
    /// What `f` calls, names and binds.
    pub fn collect(f: &Node) -> (r: SafeCheckFacts)
        ensures
            r@ == facts_of(*f),
    {
        let list = nodes_in(f);
        let locals = collect_names(
            &list,
            |n: &Node| -> (s: Option<String>)
                ensures
                    opt_text(s) == binding(*n)
            {
                match n.kind {
                    Kind::PatIdent => Some(n.name.clone()),
                    _ => None,
                }
            },
            Ghost(|n: Node| binding(n)),
        );
        SafeCheckFacts {
            called: get_called_names(f),
            path_segments: get_segments(&list),
            macro_idents: get_macro_words(&list),
            locals,
        }
    }

    /// Whether a pattern binds `ident`.
    pub fn is_local(&self, ident: &str) -> (b: bool)
        ensures
            b == self@.locals.contains(ident@),
    {
        listed(&self.locals, ident)
    }

    /// Whether one of `names` is called, or stands in a macro call and is no local.
    fn is_calling(&self, names: &[&str]) -> (b: bool)
        ensures
            b == self@.calls_any(names@),
    {
        any_text(
            &self.called,
            |c: &str| -> (r: bool)
                ensures
                    r == is_any(c@, names@)
            { same_as_any(c, names) },
            Ghost(|c: Seq<char>| is_any(c, names@)),
        ) || any_text(
            &self.macro_idents,
            |w: &str| -> (r: bool)
                ensures
                    r == (is_any(w@, names@) && !self@.locals.contains(w@))
            { same_as_any(w, names) && !self.is_local(w) },
            Ghost(|w: Seq<char>| is_any(w, names@) && !self@.locals.contains(w)),
        )
    }

    /// Whether the extensions of a mint are read.
    pub fn calls_extension_api(&self) -> (b: bool)
        ensures
            b == self@.calls_any(EXTENSION_CHECK_CALLS@),
    {
        self.is_calling(EXTENSION_CHECK_CALLS.as_slice())
    }

    /// Whether an extension type is named.
    pub fn names_extension_type(&self) -> (b: bool)
        ensures
            b == self@.names_extension(),
    {
        any_text(
            &self.path_segments,
            |s: &str| -> (r: bool)
                ensures
                    r == begins_any(s@, EXTENSION_TYPE_PATHS@)
            { starts_with_any(s, EXTENSION_TYPE_PATHS.as_slice()) },
            Ghost(|s: Seq<char>| begins_any(s, EXTENSION_TYPE_PATHS@)),
        ) || any_text(
            &self.macro_idents,
            |s: &str| -> (r: bool)
                ensures
                    r == begins_any(s@, EXTENSION_TYPE_PATHS@)
            { starts_with_any(s, EXTENSION_TYPE_PATHS.as_slice()) },
            Ghost(|s: Seq<char>| begins_any(s, EXTENSION_TYPE_PATHS@)),
        )
    }

    /// Whether it is asked if a mint is acceptable.
    pub fn calls_allowlist_helper(&self) -> (b: bool)
        ensures
            b == self@.calls_any(ALLOWLIST_HELPER_CALLS@),
    {
        self.is_calling(ALLOWLIST_HELPER_CALLS.as_slice())
    }

    /// Whether the name is that of a list of acceptable mints, and no local.
    fn is_allowlist_name(&self, s: &str) -> (b: bool)
        ensures
            b == self@.allowlist_name(s@),
    {
        !self.is_local(s) && starts_with_any(
            to_uppercase(s).as_str(),
            ALLOWLIST_CONSTS.as_slice(),
        )
    }

    /// Whether a list of acceptable mints is read.
    pub fn reads_allowlist_const(&self) -> (b: bool)
        ensures
            b == self@.reads_allowlist(),
    {
        any_text(
            &self.path_segments,
            |s: &str| -> (r: bool)
                ensures
                    r == self@.allowlist_name(s@)
            { self.is_allowlist_name(s) },
            Ghost(|s: Seq<char>| self@.allowlist_name(s)),
        ) || any_text(
            &self.macro_idents,
            |s: &str| -> (r: bool)
                ensures
                    r == self@.allowlist_name(s@)
            { self.is_allowlist_name(s) },
            Ghost(|s: Seq<char>| self@.allowlist_name(s)),
        )
    }
}

/// Whether `f` checks the extensions of a mint, or the mint itself.
pub fn performs_extension_check(f: &Node) -> (b: bool)
    ensures
        b == performs_check(*f),
{
    let facts = SafeCheckFacts::collect(f);
    facts.calls_extension_api() || facts.names_extension_type() || facts.calls_allowlist_helper()
        || facts.reads_allowlist_const()
}

/// Whether the function is a test.
pub fn is_test_fn(f: &Node) -> (b: bool)
    ensures
        b == test_fn(*f),
{
    let marks = f.get_parts(Role::Attribute);
    starts_with(f.name.as_str(), "test_") || ends_with(f.name.as_str(), "_test") || any_node(
        &marks,
        |a: &Node| -> (r: bool)
            ensures
                r == test_mark(*a)
        {
            match a.get_last_word() {
                Some(w) => same_as_any(w, TEST_WORDS.as_slice()),
                None => false,
            }
        },
        Ghost(|a: Node| test_mark(a)),
    )
}

/// The struct that the type of a context names.
fn get_context(ty: &str) -> (r: Option<String>)
    ensures
        opt_text(r) == context_of(ty@),
{
    let chars = chars_of(ty);
    let word = chars_of("Context");
    match find_marked(&chars, &word, '<') {
        Some(i) => {
            let rest = slice_of(&chars, i, chars.len());
            assert(rest@ =~= ty@.skip(i as int));
            let parts = split_text(
                text_of(&rest).as_str(),
                |c: char| -> (b: bool)
                    ensures
                        b == bracket(c)
                { c == '<' || c == '>' },
                Ghost(|c: char| bracket(c)),
            );
            if parts.len() < 2 {
                return None;
            }
            assert(parts@[1]@ == texts(parts@)[1]);
            let pieces = split_text(
                parts[1].as_str(),
                |c: char| -> (b: bool)
                    ensures
                        b == path_break(c)
                { c == ',' || c == ':' },
                Ghost(|c: char| path_break(c)),
            );
            proof {
                lemma_split_nonempty(parts@[1]@, |c: char| path_break(c));
            }
            let last = &pieces[pieces.len() - 1];
            assert(last@ == texts(pieces@).last());
            let name = trim_text(&chars_of(last.as_str()));
            if name.as_str().is_empty() {
                None
            } else {
                Some(name)
            }
        },
        None => None,
    }
}

/// A text has at least one piece.
proof fn lemma_split_nonempty(s: Seq<char>, sep: spec_fn(char) -> bool)
    ensures
        split(s, sep).len() > 0,
    decreases s.len(),
{
    if s.len() > 0 {
        lemma_split_nonempty(s.drop_last(), sep);
    }
}

/// The struct that the first context parameter of `f` names.
pub fn context_struct_name(f: &Node) -> (r: Option<String>)
    ensures
        opt_text(r) == if contexts(*f).len() > 0 { Some(contexts(*f)[0]) } else { None },
{
    let list = f.get_parts(Role::Param);
    let mut names = collect_names(
        &list,
        |p: &Node| -> (s: Option<String>)
            ensures
                opt_text(s) == param_context(*p)
        {
            match p.kind {
                Kind::Param => match p.get_part(Role::Type) {
                    Some(ty) => get_context(ty.text.as_str()),
                    None => None,
                },
                _ => None,
            }
        },
        Ghost(|p: Node| param_context(p)),
    );
    assert(texts(names@) == contexts(*f));
    if names.len() > 0 {
        assert(texts(names@)[0] == names@[0]@);
        Some(names[0].clone())
    } else {
        None
    }
}

/// Whether the attribute constrains an account to a fixed address.
fn is_address_fixed(a: &Node) -> (b: bool)
    ensures
        b == fixes_address(*a),
{
    if !same(a.name.as_str(), "account") {
        return false;
    }
    let code = chars_of(blank_literals(a.text.as_str()).as_str());
    let key = chars_of("address = ");
    if key.len() > code.len() {
        return false;
    }
    let last: usize = code.len() - key.len();
    let mut i: usize = 0;
    while i <= last
        invariant
            a.name@ == "account"@,
            key@ == "address = "@,
            code@ == outside_literals(a.text@),
            last == code@.len() - key@.len(),
            forall|j: int| j < i ==> !#[trigger] address_at(code@, j),
        decreases last + 1 - i,
    {
        if matches_at(&code, &key, i) {
            match get_previous_mark(&code, i) {
                Some(c) => if c == '(' || c == ',' {
                    assert(address_at(code@, i as int));
                    return true;
                },
                None => {},
            }
        }
        assert(!address_at(code@, i as int));
        if i == last {
            return false;
        }
        i = i + 1;
    }
    false
}

/// Whether the struct fixes the address of a mint.
pub fn struct_pins_mint(item: &Node) -> (b: bool)
    ensures
        b == pins_mint(*item),
{
    let list = item.get_parts(Role::Field);
    matches!(item.kind, Kind::Struct { named: true }) && any_node(
        &list,
        |n: &Node| -> (r: bool)
            ensures
                r == pinned_field(*n)
        {
            matches!(n.kind, Kind::FieldDef) && (match n.get_part(Role::Type) {
                Some(ty) => listed(&words_of(ty.text.as_str()), "Mint"),
                None => false,
            }) && any_node(
                &n.get_parts(Role::Attribute),
                |a: &Node| -> (q: bool)
                    ensures
                        q == fixes_address(*a)
                { is_address_fixed(a) },
                Ghost(|a: Node| fixes_address(a)),
            )
        },
        Ghost(|n: Node| pinned_field(n)),
    )
}

/// The names that the body of `f` calls.
pub fn collect_called_fn_names(f: &Node) -> (r: Vec<String>)
    ensures
        texts(r@) == body_calls(*f),
{
    match f.get_part(Role::Body) {
        Some(body) => get_called_names(body),
        None => {
            let none: Vec<String> = Vec::new();
            assert(texts(none@) =~= Seq::<Seq<char>>::empty());
            none
        },
    }
}

/// The items of a file.
pub struct TokenExtVisitor<'a> {
    pub items: Vec<&'a Node>,
}

impl<'a> TokenExtVisitor<'a> {
    /// Searches through the functions that `f` calls, at most `depth` calls away,
    /// for one that checks.
    pub fn callee_has_safe_check(&self, f: &Node, depth: usize, visited: &mut Vec<String>) -> (b:
        bool)
        ensures
            (b, texts(final(visited)@)) == search(
                self.items@.unref(),
                *f,
                depth as nat,
                texts(old(visited)@),
            ),
        decreases depth,
    {
        if depth == 0 {
            return false;
        }
        let ghost all = self.items@.unref();
        let names = collect_called_fn_names(f);
        let ghost calls = texts(names@);
        let ghost start = texts(visited@);
        let mut i: usize = 0;
        assert(calls.skip(0) =~= calls);
        while i < names.len()
            invariant
                i <= names@.len(),
                depth > 0,
                all == self.items@.unref(),
                calls == texts(names@),
                calls == body_calls(*f),
                start == texts(old(visited)@),
                search_names(all, calls, depth as nat, start) == search_names(
                    all,
                    calls.skip(i as int),
                    depth as nat,
                    texts(visited@),
                ),
            decreases names@.len() - i,
        {
            let name = names[i].as_str();
            assert(calls.skip(i as int)[0] == name@);
            assert(calls.skip(i as int).drop_first() =~= calls.skip(i as int + 1));
            let ghost was = texts(visited@);
            if !listed(visited, name) {
                match find_last(&self.items, name) {
                    Some(callee) => {
                        visited.push(name.to_owned());
                        assert(texts(visited@) =~= was.push(name@));
                        if performs_extension_check(callee) {
                            return true;
                        }
                        if self.callee_has_safe_check(callee, depth - 1, visited) {
                            return true;
                        }
                    },
                    None => {},
                }
            }
            i = i + 1;
        }
        false
    }

    /// Whether the accounts of the first context that `f` takes fix the address of a
    /// mint.
    pub fn context_pins_mint(&self, f: &Node) -> (b: bool)
        ensures
            b == context_pins(self.items@.unref(), *f),
    {
        match context_struct_name(f) {
            Some(name) => {
                let ghost sought = contexts(*f)[0];
                let found = find_last_node(
                    &self.items,
                    |n: &Node| -> (r: bool)
                        ensures
                            r == is_struct(*n, sought)
                    {
                        matches!(n.kind, Kind::Struct { .. }) && same(
                            n.name.as_str(),
                            name.as_str(),
                        )
                    },
                    Ghost(|n: Node| is_struct(n, contexts(*f)[0])),
                );
                match found {
                    Some(item) => struct_pins_mint(item),
                    None => false,
                }
            },
            None => false,
        }
    }

    /// Whether `f` moves extended tokens and nobody looks at the extensions.
    pub fn is_unchecked(&self, f: &Node) -> (b: bool)
        ensures
            b == unchecked(self.items@.unref(), *f),
    {
        match f.kind {
            Kind::Function => {},
            _ => {
                return false;
            },
        }
        let source = f.text.as_str();
        let body = f.get_body_text();
        if is_test_fn(f) || contains_any(source, CLASSIC_PROGRAM.as_slice()) {
            return false;
        }
        if !contains_any(body, TRIGGER_PATTERNS.as_slice()) && !contains_any(
            source,
            TRIGGER_PATTERNS.as_slice(),
        ) {
            return false;
        }
        if !contains_any(body, MOVEMENT_PATTERNS.as_slice()) && !contains_any(
            source,
            MOVEMENT_PATTERNS.as_slice(),
        ) {
            return false;
        }
        if performs_extension_check(f) {
            return false;
        }
        let mut visited: Vec<String> = Vec::new();
        assert(texts(visited@) =~= Seq::<Seq<char>>::empty());
        !self.callee_has_safe_check(f, 2, &mut visited) && !self.context_pins_mint(f)
    }
}

impl TokenExtensionsDetector {
    /// The finding on `f`, if there is one, where `visitor` holds the items of the
    /// file.
    pub fn check(&self, ctx: &ScanContext, visitor: &TokenExtVisitor<'_>, f: &Node) -> (r: Option<
        Finding,
    >)
        ensures
            opt_report(r) == report_among(*ctx, visitor.items@.unref(), *f),
    {
        if !visitor.is_unchecked(f) {
            return None;
        }
        let text = join3(
            "Function '",
            f.name.as_str(),
            "' accepts Token-2022 tokens without checking for dangerous extensions (PermanentDelegate, TransferHook, MintCloseAuthority)",
        );
        Some(
            raise(
                &info(),
                ctx,
                Confidence::Medium,
                f.line,
                f.column,
                text,
                "Check mint extensions via get_extension_types() and reject mints with PermanentDelegate, TransferHook, or MintCloseAuthority extensions",
            ),
        )
    }
}

impl Detector for TokenExtensionsDetector {
    open spec fn profile(&self) -> Profile {
        profile()
    }

    open spec fn reports_on(&self, ctx: ScanContext) -> Seq<Report> {
        if mentions(ctx.source@, "TransferHookExecute"@)
            || mentions_any(ctx.file_path@, FRAMEWORK_PATHS@) {
            Seq::empty()
        } else {
            reports_of(walk(ctx.ast, outside_functions_and_tests()), |f: Node| report_on(ctx, f))
        }
    }

    fn id(&self) -> (r: &'static str) {
        info().id
    }

    fn name(&self) -> (r: &'static str) {
        info().name
    }

    fn description(&self) -> (r: &'static str) {
        info().description
    }

    fn severity(&self) -> (r: Severity) {
        info().severity
    }

    fn confidence(&self) -> (r: Confidence) {
        info().confidence
    }

    fn chain(&self) -> (r: Chain) {
        info().chain
    }

    fn detect(&self, ctx: &ScanContext) -> (r: Vec<Finding>) {
        if contains(ctx.source.as_str(), "TransferHookExecute")
            || contains_any(ctx.file_path.as_str(), FRAMEWORK_PATHS.as_slice()) {
            return Vec::new();
        }
        let visitor = TokenExtVisitor { items: nodes_in(&ctx.ast) };
        let list = walk_nodes(
            &ctx.ast,
            |n: &Node| -> (b: bool)
                ensures
                    b == outside_functions_and_tests()(*n)
            {
                !matches!(n.kind, Kind::Function)
                    && !(matches!(n.kind, Kind::Module) && is_cfg_test(n))
            },
            Ghost(outside_functions_and_tests()),
        );
        collect_findings(
            &list,
            |f: &Node| -> (s: Option<Finding>)
                ensures
                    opt_report(s) == report_on(*ctx, *f)
            { self.check(ctx, &visitor, f) },
            Ghost(|f: Node| report_on(*ctx, f)),
        )
    }

    proof fn law_findings_are_stamped(&self, ctx: ScanContext) {
        assert forall|i: int| 0 <= i < self.reports_on(ctx).len() implies stamped(
            #[trigger] self.reports_on(ctx)[i],
            self.profile(),
            ctx,
        ) by {
            lemma_reports_from(walk(ctx.ast, outside_functions_and_tests()), |f: Node| report_on(ctx, f), i);
        }
    }
}

/// Every finding has the confidence that the rule states of itself.
pub proof fn law_confidence_is_the_rules_own(ctx: ScanContext)
    ensures
        forall|i: int|
            0 <= i < TokenExtensionsDetector.reports_on(ctx).len() ==> (
            #[trigger] TokenExtensionsDetector.reports_on(ctx)[i]).confidence == profile().confidence,
{
    assert forall|i: int| 0 <= i < TokenExtensionsDetector.reports_on(ctx).len() implies (
        #[trigger] TokenExtensionsDetector.reports_on(ctx)[i]).confidence == profile().confidence by {
        lemma_reports_from(walk(ctx.ast, outside_functions_and_tests()), |f: Node| report_on(ctx, f), i);
    }
}

/// Nothing is reported on a file that implements a transfer hook, or that belongs to a framework.
pub proof fn law_out_of_scope_is_silent(ctx: ScanContext)
    requires
        mentions(ctx.source@, "TransferHookExecute"@)
            || mentions_any(ctx.file_path@, FRAMEWORK_PATHS@),
    ensures
        TokenExtensionsDetector.reports_on(ctx).len() == 0,
{
}

/// Nothing is reported on a test function.
pub proof fn law_test_function_is_silent(ctx: ScanContext, f: Node)
    requires
        test_fn(f),
    ensures
        report_on(ctx, f) is None,
{
}

/// A test module contributes no report, whatever it holds.
pub proof fn law_test_module_is_silent(ctx: ScanContext, m: Node)
    requires
        m.kind is Module,
        test_builds_only(m),
    ensures
        reports_of(walk(m, outside_functions_and_tests()), |f: Node| report_on(ctx, f)) == Seq::<Report>::empty(),
{
    lemma_sealed(m, outside_functions_and_tests(), |f: Node| report_on(ctx, f));
}

/// The search spares a function only because of a function of the file that checks.
pub proof fn law_search_meets_a_check(
    list: Seq<Node>,
    f: Node,
    depth: nat,
    visited: Seq<Seq<char>>,
)
    requires
        search(list, f, depth, visited).0,
    ensures
        some(list, |h: Node| h.kind is Function && performs_check(h)),
    decreases depth, 1int, 0nat,
{
    lemma_search_names(list, body_calls(f), depth, visited);
}

/// The search through `names` succeeds only because of a function that checks.
proof fn lemma_search_names(
    list: Seq<Node>,
    names: Seq<Seq<char>>,
    depth: nat,
    visited: Seq<Seq<char>>,
)
    requires
        search_names(list, names, depth, visited).0,
    ensures
        some(list, |h: Node| h.kind is Function && performs_check(h)),
    decreases depth, 0int, names.len(),
{
    let name = names[0];
    let rest = names.drop_first();
    match last_function(list, name) {
        Some(callee) => {
            if visited.contains(name) {
                lemma_search_names(list, rest, depth, visited);
            } else if performs_check(callee) {
                lemma_last_function(list, name);
                let p = |h: Node| h.kind is Function && performs_check(h);
                let i = list.index_of(callee);
                assert(p(list[i]));
            } else {
                let deeper = search(list, callee, (depth - 1) as nat, visited.push(name));
                if deeper.0 {
                    law_search_meets_a_check(
                        list,
                        callee,
                        (depth - 1) as nat,
                        visited.push(name),
                    );
                } else {
                    lemma_search_names(list, rest, depth, deeper.1);
                }
            }
        },
        None => {
            lemma_search_names(list, rest, depth, visited);
        },
    }
}

/// What is reported on is spoken of, wherever in the file it stands.
proof fn lemma_reported(ctx: ScanContext, path: Seq<Node>, f: Node)
    requires
        leads_openly(path, ctx.ast, f),
        report_on(ctx, f) is Some,
        !mentions(ctx.source@, "TransferHookExecute"@),
        !mentions_any(ctx.file_path@, seq!["/spl-token", "/spl_token", "/anchor-spl/", "/anchor_spl/", "/anchor/spl/", "/token/src/", "/token-2022/src/", "/interface/src/", "/anchor-lang/", "/anchor_lang/", "/anchor/lang/", "/codegen/"]),
    ensures
        speaks_of(TokenExtensionsDetector.reports_on(ctx), f),
{
    lemma_spoken_of(path, outside_functions_and_tests(), |n: Node| report_on(ctx, n), "Function '"@, "' accepts Token-2022 tokens without checking for dangerous extensions (PermanentDelegate, TransferHook, MintCloseAuthority)"@);
}

/// Nothing in the tree speaks of extensions or of acceptable mints: it holds no macro
/// call, and none of its paths names an extension type or a list of mints.
pub open spec fn speaks_of_no_extension(f: Node) -> bool {
    forall|k: int|
        0 <= k < nodes(f).len() ==> !((#[trigger] nodes(f)[k]).kind is Macro) && (nodes(
            f,
        )[k].kind is Path ==> forall|w: int|
            0 <= w < nodes(f)[k].words@.len() ==> !begins_any((#[trigger] nodes(f)[k].words@[w])@, seq!["ExtensionType", "PermanentDelegate", "TransferHook", "MintCloseAuthority"])
                && !begins_any(upper(nodes(f)[k].words@[w]@), seq!["ALLOWED_EXTENSION", "MINT_WHITELIST", "MINT_ALLOWLIST"]))
}

/// Where no macro is called, no words stand in macro calls.
proof fn lemma_no_macro_words(list: Seq<Node>)
    requires
        forall|k: int| 0 <= k < list.len() ==> !((#[trigger] list[k]).kind is Macro),
    ensures
        macro_words(list).len() == 0,
    decreases list.len(),
{
    if list.len() > 0 {
        assert(!(list[list.len() - 1].kind is Macro));
        assert forall|k: int| 0 <= k < list.drop_last().len() implies !((
        #[trigger] list.drop_last()[k]).kind is Macro) by {
            assert(list.drop_last()[k] == list[k]);
        }
        lemma_no_macro_words(list.drop_last());
    }
}

/// Every segment comes from a path.
proof fn lemma_segment_from(list: Seq<Node>, s: Seq<char>) -> (p: (int, int))
    requires
        segments(list).contains(s),
    ensures
        0 <= p.0 < list.len(),
        list[p.0].kind is Path,
        0 <= p.1 < list[p.0].words@.len(),
        list[p.0].words@[p.1]@ == s,
    decreases list.len(),
{
    let before = segments(list.drop_last());
    let i = segments(list).index_of(s);
    if i < before.len() {
        assert(before[i] == s);
        let p = lemma_segment_from(list.drop_last(), s);
        assert(list.drop_last()[p.0] == list[p.0]);
        p
    } else {
        let here = texts(list.last().words@);
        assert(here[i - before.len()] == s);
        (list.len() - 1, i - before.len())
    }
}

/// A segment of a path is among all segments.
proof fn lemma_segment_is_listed(list: Seq<Node>, k: int, w: int)
    requires
        0 <= k < list.len(),
        list[k].kind is Path,
        0 <= w < list[k].words@.len(),
    ensures
        segments(list).contains(list[k].words@[w]@),
    decreases list.len(),
{
    let before = segments(list.drop_last());
    let s = list[k].words@[w]@;
    if k == list.len() - 1 {
        let here = texts(list.last().words@);
        assert(here[w] == s);
        assert((before + here)[before.len() + w] == s);
    } else {
        assert(list.drop_last()[k] == list[k]);
        lemma_segment_is_listed(list.drop_last(), k, w);
        let i = before.index_of(s);
        assert(segments(list)[i] == s);
    }
}

/// A search through names that nothing defines finds nothing.
proof fn lemma_nothing_found(
    list: Seq<Node>,
    names: Seq<Seq<char>>,
    depth: nat,
    visited: Seq<Seq<char>>,
)
    requires
        forall|k: int| 0 <= k < names.len() ==> last_function(list, #[trigger] names[k]) is None,
    ensures
        !search_names(list, names, depth, visited).0,
    decreases names.len(),
{
    if depth > 0 && names.len() > 0 {
        let rest = names.drop_first();
        assert(last_function(list, names[0]) is None);
        assert forall|k: int| 0 <= k < rest.len() implies last_function(
            list,
            #[trigger] rest[k],
        ) is None by {
            assert(rest[k] == names[k + 1]);
        }
        lemma_nothing_found(list, rest, depth, visited);
    }
}

/// A function that speaks of the extended token program, anywhere in its text, and of
/// moving tokens, is reported, if it checks no extension and no mint, calls nothing of
/// the file, and takes no context.
pub proof fn law_unchecked_extension_is_reported(ctx: ScanContext, path: Seq<Node>, f: Node, body: Node)
    requires
        !mentions(ctx.source@, "TransferHookExecute"@),
        !mentions_any(ctx.file_path@, seq!["/spl-token", "/spl_token", "/anchor-spl/", "/anchor_spl/", "/anchor/spl/", "/token/src/", "/token-2022/src/", "/interface/src/", "/anchor-lang/", "/anchor_lang/", "/anchor/lang/", "/codegen/"]),
        leads_openly(path, ctx.ast, f),
        f.kind is Function,
        f.parts(Role::Attribute).len() == 0,
        !begins(f.name@, "test_"@),
        !ends(f.name@, "_test"@),
        !mentions_any(f.text@, seq!["spl_token :: id ()", "spl_token :: ID"]),
        mentions_any(f.text@, seq!["spl_token_2022", "Token2022", "InterfaceAccount", "token_interface", "TokenInterface"]),
        mentions_any(f.text@, seq!["transfer", "burn", "mint_to", "CpiContext", "invoke", "withdraw", "deposit", "freeze", "thaw", "close_account", "approve", "cpi"]),
        f.part(Role::Body) == Some(body),
        speaks_of_no_extension(f),
        forall|k: int| 0 <= k < called_names(f).len() ==> !is_any(#[trigger] called_names(f)[k], seq!["get_extension_types", "assert_mint_extensions", "valid_mint", "allowed_mint", "mint_whitelist", "mint_allowlist"]),
        forall|k: int| 0 <= k < called_names(body).len() ==> last_function(nodes(ctx.ast), #[trigger] called_names(body)[k]) is None,
        forall|k: int| 0 <= k < f.parts(Role::Param).len() ==> ((#[trigger] f.parts(Role::Param)[k]).part(Role::Type) matches Some(ty) ==> first_marked(ty.text@, "Context"@, '<') is None),
    ensures
        speaks_of(TokenExtensionsDetector.reports_on(ctx), f),
{
    let list = nodes(f);
    let facts = facts_of(f);
    lemma_no_macro_words(list);
    let words = seq!["get_extension_types", "assert_mint_extensions", "valid_mint", "allowed_mint", "mint_whitelist", "mint_allowlist"];
    assert(words[0]@ == "get_extension_types"@ && words[1]@ == "assert_mint_extensions"@ && words[2]@ == "valid_mint"@ && words[3]@ == "allowed_mint"@ && words[4]@ == "mint_whitelist"@ && words[5]@ == "mint_allowlist"@);
    assert forall|k: int| 0 <= k < facts.called.len() implies !is_any(#[trigger] facts.called[k], EXTENSION_CHECK_CALLS@) && !is_any(facts.called[k], ALLOWLIST_HELPER_CALLS@) by {
        assert(!is_any(called_names(f)[k], words));
    }
    assert forall|k: int| 0 <= k < facts.segments.len() implies !begins_any(#[trigger] facts.segments[k], EXTENSION_TYPE_PATHS@) && !facts.allowlist_name(facts.segments[k]) by {
        assert(segments(list).contains(facts.segments[k]));
        let p = lemma_segment_from(list, facts.segments[k]);
        assert(!begins_any(nodes(f)[p.0].words@[p.1]@, seq!["ExtensionType", "PermanentDelegate", "TransferHook", "MintCloseAuthority"]));
    }
    assert(!performs_check(f));
    lemma_nothing_found(nodes(ctx.ast), called_names(body), 2, Seq::empty());
    assert(!search(nodes(ctx.ast), f, 2, Seq::empty()).0);
    let g = |p: Node| param_context(p);
    if contexts(f).len() > 0 {
        assert(contexts(f).contains(contexts(f)[0]));
        let k = lemma_named_by(f.parts(Role::Param), g, contexts(f)[0]);
        assert(g(f.parts(Role::Param)[k]) is Some);
    }
    assert(!test_fn(f));
    lemma_reported(ctx, path, f);
}

/// What is reported speaks of the extended token program and of moving tokens, and
/// calls none of the checks.
pub proof fn law_reported_extension_is_unchecked(ctx: ScanContext, f: Node, k: int)
    requires
        report_on(ctx, f) is Some,
    ensures
        f.kind is Function,
        !begins(f.name@, "test_"@),
        !ends(f.name@, "_test"@),
        !mentions_any(f.text@, seq!["spl_token :: id ()", "spl_token :: ID"]),
        mentions_any(f.body_text(), seq!["spl_token_2022", "Token2022", "InterfaceAccount", "token_interface", "TokenInterface"]) || mentions_any(f.text@, seq!["spl_token_2022", "Token2022", "InterfaceAccount", "token_interface", "TokenInterface"]),
        mentions_any(f.body_text(), seq!["transfer", "burn", "mint_to", "CpiContext", "invoke", "withdraw", "deposit", "freeze", "thaw", "close_account", "approve", "cpi"]) || mentions_any(f.text@, seq!["transfer", "burn", "mint_to", "CpiContext", "invoke", "withdraw", "deposit", "freeze", "thaw", "close_account", "approve", "cpi"]),
        0 <= k < called_names(f).len() ==> !is_any(called_names(f)[k], seq!["get_extension_types", "assert_mint_extensions", "valid_mint", "allowed_mint", "mint_whitelist", "mint_allowlist"]),
{
    let called = facts_of(f).called;
    let p = |c: Seq<char>| is_any(c, EXTENSION_CHECK_CALLS@);
    let q = |c: Seq<char>| is_any(c, ALLOWLIST_HELPER_CALLS@);
    if 0 <= k < called.len() {
        assert(!p(called[k]) && !q(called[k]));
    }
}

/// A function that names an extension type in a path is not reported.
pub proof fn law_naming_an_extension_is_enough(ctx: ScanContext, f: Node, k: int, w: int)
    requires
        0 <= k < nodes(f).len(),
        nodes(f)[k].kind is Path,
        0 <= w < nodes(f)[k].words@.len(),
        begins_any(nodes(f)[k].words@[w]@, seq!["ExtensionType", "PermanentDelegate", "TransferHook", "MintCloseAuthority"]),
    ensures
        report_on(ctx, f) is None,
{
    lemma_segment_is_listed(nodes(f), k, w);
    let list = facts_of(f).segments;
    let p = |s: Seq<char>| begins_any(s, EXTENSION_TYPE_PATHS@);
    assert(p(list[list.index_of(nodes(f)[k].words@[w]@)]));
    assert(facts_of(f).names_extension());
}

/// A function with the attribute of a test is not reported.
pub proof fn law_marked_test_is_silent(ctx: ScanContext, f: Node, k: int)
    requires
        0 <= k < f.parts(Role::Attribute).len(),
        f.parts(Role::Attribute)[k].last_word() == Some("test"@) || f.parts(Role::Attribute)[k].last_word() == Some("rstest"@),
    ensures
        report_on(ctx, f) is None,
{
    let p = |a: Node| test_mark(a);
    assert(p(f.parts(Role::Attribute)[k]));
}

/// A function is not reported if the one function of the file that it calls first names
/// an extension type.
pub proof fn law_callee_may_check_the_extension(ctx: ScanContext, f: Node, body: Node, h: Node, k: int, w: int)
    requires
        f.part(Role::Body) == Some(body),
        called_names(body).len() > 0,
        called_names(body)[0] == h.name@,
        only_function(nodes(ctx.ast), h),
        0 <= k < nodes(h).len(),
        nodes(h)[k].kind is Path,
        0 <= w < nodes(h)[k].words@.len(),
        begins_any(nodes(h)[k].words@[w]@, seq!["ExtensionType", "PermanentDelegate", "TransferHook", "MintCloseAuthority"]),
    ensures
        report_on(ctx, f) is None,
{
    law_only_function_is_found(nodes(ctx.ast), h);
    lemma_segment_is_listed(nodes(h), k, w);
    let list = facts_of(h).segments;
    let p = |s: Seq<char>| begins_any(s, EXTENSION_TYPE_PATHS@);
    assert(p(list[list.index_of(nodes(h)[k].words@[w]@)]));
    assert(facts_of(h).names_extension());
    assert(performs_check(h));
    assert(search_names(nodes(ctx.ast), called_names(body), 2, Seq::empty()).0);
    assert(search(nodes(ctx.ast), f, 2, Seq::empty()).0);
}

/// A function is not reported if the accounts that it is called with fix the mint's
/// address.
pub proof fn law_fixed_mint_is_trusted(ctx: ScanContext, f: Node)
    requires
        context_pins(nodes(ctx.ast), f),
    ensures
        report_on(ctx, f) is None,
{
}

/// They do so only if the function is called with such accounts.
pub proof fn law_only_contexts_pin(list: Seq<Node>, f: Node)
    requires
        contexts(f).len() == 0,
    ensures
        !context_pins(list, f),
{
}

/// An attribute marks a test if and only if its last word is one of these.
pub proof fn law_test_marks(a: Node, w: Seq<char>)
    requires
        a.last_word() == Some(w),
    ensures
        test_mark(a) == is_any(w, seq!["test", "rstest"]),
{
}

/// A context has a name.
pub proof fn law_contexts_are_named(ty: Seq<char>, name: Seq<char>)
    requires
        context_of(ty) == Some(name),
    ensures
        name.len() > 0,
{
}

} // verus!
