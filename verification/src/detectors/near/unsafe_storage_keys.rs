//! Storage keys that are pieced together from what a user says.
use vstd::prelude::*;
use crate::attributes::{carries_test, has_test_attribute, is_cfg_test, outside_functions_and_tests};
use crate::caller_identity::outside_macros;
use crate::calls::{get_macro_name, get_path_call, is_named, macro_name, path_call};
use crate::cfg::test_builds_only;
use crate::context::ScanContext;
use crate::detector::{Detector, Profile, raise, raised, RuleInfo, stamped};
use crate::finding::{Chain, Confidence, Finding, Report, Severity};
use crate::markers::NEAR_MARKERS;
use crate::patterns::{get_let_name, let_name};
use crate::syntax::{Kind, lemma_part_smaller, Node, Role, Token};
use crate::text::{
    alphabetic, any_text, begins, chars_of, contains_any, is_any, is_screaming_snake, join3,
    mentions_any, same_as_any, screaming, screaming_char, slice_of, some_text, starts_with, texts,
    trim_text, trimmed, until, until_text,
};
use crate::walk::{
    any_node, collect_findings, find_last_node, find_node, first_node, last_node, law_led_to_is_met,
    law_visits_meet_nodes_only, leads, leads_openly, lemma_reports_from, lemma_sealed,
    lemma_spoken_of, nodes, nodes_in, opt_report, reports_of, some, speaks_of, walk, walk_nodes,
};

verus! {

/// Reports functions that read or write storage under a key that `format!` builds
/// from something that is no constant.
pub struct UnsafeStorageKeysDetector;

/// The rule's description of itself.
pub open spec fn profile() -> Profile {
    Profile {
        id: "NEAR-009"@,
        name: "unsafe-storage-keys"@,
        description: "Detects storage key construction from user input (collision risk)"@,
        severity: Severity::Medium,
        confidence: Confidence::Medium,
        chain: Chain::Near,
    }
}

/// The rule's description of itself.
fn info() -> (r: RuleInfo)
    ensures
        r@ == profile(),
{
    RuleInfo {
        id: "NEAR-009",
        name: "unsafe-storage-keys",
        description: "Detects storage key construction from user input (collision risk)",
        severity: Severity::Medium,
        confidence: Confidence::Medium,
        chain: Chain::Near,
    }
}

/// Words of a body whose keys cannot collide.
pub const SAFE_KEYS: [&'static str; 4] = ["sha256", "keccak", "BorshSerialize", "borsh"];

/// The functions that take a storage key.
pub const STORAGE_CALLS: [&'static str; 2] = ["storage_write", "storage_read"];

/// What is known of a key.
#[derive(Clone, Copy, PartialEq, Eq, Structural)]
pub enum Verdict {
    /// It is built from something that is no constant.
    Flag,
    /// It is built from constants.
    Safe,
    /// Nothing is known.
    Unknown,
}

/// What ends a name inside the braces of a format template.
pub open spec fn name_end(c: char) -> bool {
    c == '}' || c == ':'
}

/// The place of the first closing brace at or behind `i`, or the end.
pub open spec fn close_from(s: Seq<char>, i: int) -> int
    decreases s.len() - i,
{
    if i >= s.len() {
        i
    } else if s[i] == '}' {
        i
    } else {
        close_from(s, i + 1)
    }
}

/// A name that a template can capture.
pub open spec fn capturable(name: Seq<char>) -> bool {
    name.len() > 0 && (alphabetic(name[0]) || name[0] == '_')
}

/// The name that stands at `i` in a template, behind an opening brace.
pub open spec fn name_at(s: Seq<char>, i: int) -> Seq<char> {
    until(s.skip(i), |c: char| name_end(c))
}

/// The names that a template captures from `i` on. Doubled braces stand for
/// themselves, and so do escapes, which a raw string does not have.
pub open spec fn captures_from(s: Seq<char>, raw: bool, i: int) -> Seq<Seq<char>>
    decreases s.len() - i,
{
    if i < 0 || i >= s.len() {
        Seq::empty()
    } else if s[i] == '\\' && !raw {
        if i + 1 < s.len() && s[i + 1] == 'u' {
            let close = close_from(s, i + 2);
            if i < close < s.len() { captures_from(s, raw, close + 1) } else { Seq::empty() }
        } else if i + 1 < s.len() {
            captures_from(s, raw, i + 2)
        } else {
            Seq::empty()
        }
    } else if s[i] == '{' {
        if i + 1 < s.len() && s[i + 1] == '{' {
            captures_from(s, raw, i + 2)
        } else {
            let name = name_at(s, i + 1);
            let close = close_from(s, i + 1 + name.len());
            let rest = if i < close < s.len() {
                captures_from(s, raw, close + 1)
            } else {
                Seq::empty()
            };
            if capturable(trimmed(name)) { seq![trimmed(name)] + rest } else { rest }
        }
    } else if s[i] == '}' && i + 1 < s.len() && s[i + 1] == '}' {
        captures_from(s, raw, i + 2)
    } else {
        captures_from(s, raw, i + 1)
    }
}

/// How many `#` stand at `i`.
pub open spec fn hashes(lit: Seq<char>, i: int) -> int
    decreases lit.len() - i,
{
    if 0 <= i < lit.len() && lit[i] == '#' { 1 + hashes(lit, i + 1) } else { 0 }
}

/// The literal is a raw string with `n` times `#` on either side.
pub open spec fn raw_string(lit: Seq<char>, n: int) -> bool {
    0 <= n && lit.len() >= 3 + 2 * n && lit[0] == 'r' && n == hashes(lit, 1) && lit[n + 1] == '"'
}

/// The names that a literal captures, if it is a string.
pub open spec fn captures(lit: Seq<char>) -> Seq<Seq<char>> {
    let n = hashes(lit, 1);
    if lit.len() >= 2 && lit[0] == '"' {
        captures_from(lit.subrange(1, lit.len() - 1), false, 0)
    } else if raw_string(lit, n) {
        captures_from(lit.subrange(2 + n, lit.len() - 1 - n), true, 0)
    } else {
        Seq::empty()
    }
}

/// The names that a `format!` refers to: identifiers, and names in its template.
pub open spec fn format_names(tokens: Seq<Token>) -> Seq<Seq<char>>
    decreases tokens,
{
    if tokens.len() == 0 {
        Seq::empty()
    } else {
        format_names(tokens.drop_last()) + token_names(tokens.last())
    }
}

/// The names that a token of a `format!` refers to.
pub open spec fn token_names(token: Token) -> Seq<Seq<char>>
    decreases token,
{
    match token {
        Token::Ident(name) => seq![name@],
        Token::Literal(text) => captures(text@),
        Token::Group { tokens, .. } => format_names(tokens@),
        Token::Punct { .. } => Seq::empty(),
    }
}

/// The `format!` refers to something that is no constant.
pub open spec fn dynamic(mac: Node) -> bool {
    some_text(format_names(mac.tokens@), |name: Seq<char>| !screaming(name))
}

/// The node is a `format!`.
pub open spec fn is_format(n: Node) -> bool {
    macro_name(n) == Some("format"@)
}

/// The first `format!` of an expression.
pub open spec fn format_in(e: Node) -> Option<Node> {
    first_node(walk(e, outside_macros()), |n: Node| is_format(n))
}

/// The identifier that a key comes from, behind whatever is done with it.
pub open spec fn base(e: Node) -> Option<Seq<char>>
    decreases e,
{
    proof {
        lemma_part_smaller(e, Role::Operand);
        lemma_part_smaller(e, Role::Receiver);
    }
    match e.kind {
        Kind::PathExpr => if e.part(Role::Type) is None && e.words@.len() == 1 {
            Some(e.words@[0]@)
        } else {
            None
        },
        Kind::MethodCall => match e.part(Role::Receiver) {
            Some(inner) => base(inner),
            None => None,
        },
        Kind::Reference { .. } | Kind::Paren | Kind::Group | Kind::Cast | Kind::Try => match e.part(
            Role::Operand,
        ) {
            Some(inner) => base(inner),
            None => None,
        },
        _ => None,
    }
}

/// The node is a `let` that binds `name` to a value.
pub open spec fn binds(n: Node, name: Seq<char>) -> bool {
    n.kind is Local && let_name(n) == Some(name) && n.part(Role::Init) is Some
}

/// The value that the last `let` of `name` in `list` binds.
pub open spec fn value_of(list: Seq<Node>, name: Seq<char>) -> Option<Node> {
    match last_node(list, |n: Node| binds(n, name)) {
        Some(n) => n.part(Role::Init),
        None => None,
    }
}

/// What is known of a key, following at most five `let`s of `list`.
pub open spec fn analyze(e: Node, list: Seq<Node>, depth: nat) -> Verdict
    decreases 6 - depth,
{
    if depth > 5 {
        Verdict::Unknown
    } else {
        match format_in(e) {
            Some(mac) => if dynamic(mac) { Verdict::Flag } else { Verdict::Safe },
            None => match base(e) {
                Some(name) => match value_of(list, name) {
                    Some(init) => analyze(init, list, depth + 1),
                    None => Verdict::Unknown,
                },
                None => Verdict::Unknown,
            },
        }
    }
}

/// The node reads or writes storage under a key that is built from something that
/// is no constant.
pub open spec fn unsafe_call(n: Node, list: Seq<Node>) -> bool {
    &&& path_call(n) matches Some(name) && is_any(name, STORAGE_CALLS@)
    &&& n.part(Role::Argument) matches Some(key) && analyze(key, list, 0) is Flag
}

/// The function is a test.
pub open spec fn test_fn(f: Node) -> bool {
    begins(f.name@, "test_"@) || carries_test(f)
}

/// `f` reads or writes storage under an unsafe key.
pub open spec fn unsafe_keys(f: Node) -> bool {
    &&& f.kind is Function
    &&& !test_fn(f)
    &&& !mentions_any(f.body_text(), SAFE_KEYS@)
    &&& f.part(Role::Body) matches Some(body) && some(
        nodes(body),
        |n: Node| unsafe_call(n, nodes(body)),
    )
}

/// The report on `f`, if there is one.
pub open spec fn report_on(ctx: ScanContext, f: Node) -> Option<Report> {
    if unsafe_keys(f) {
        Some(
            raised(
                profile(),
                ctx,
                Confidence::Medium,
                f.line,
                f.column,
                "Function '"@ + f.name@ + "' constructs storage keys from user input via format!()"@,
                "Use BorshSerialize or enum-based namespacing for storage keys to prevent collisions"@,
            ),
        )
    } else {
        None
    }
}

/// A closing brace at or behind `i` lies there, and not behind the end of the text.
proof fn lemma_close(s: Seq<char>, i: int)
    requires
        0 <= i <= s.len(),
    ensures
        i <= close_from(s, i) <= s.len(),
    decreases s.len() - i,
{
    if i < s.len() && s[i] != '}' {
        lemma_close(s, i + 1);
    }
}

/// What stands in front of a separator is no longer than the whole.
proof fn lemma_until_len(s: Seq<char>, sep: spec_fn(char) -> bool)
    ensures
        until(s, sep).len() <= s.len(),
    decreases s.len(),
{
    if s.len() > 0 && !sep(s[0]) {
        lemma_until_len(s.drop_first(), sep);
    }
}

/// The place of the first closing brace at or behind `i`, or the end.
fn find_close(s: &Vec<char>, i: usize) -> (r: usize)
    requires
        i <= s@.len(),
    ensures
        r == close_from(s@, i as int),
        i <= r <= s@.len(),
{
    let mut k: usize = i;
    while k < s.len() && s[k] != '}'
        invariant
            i <= k <= s@.len(),
            close_from(s@, i as int) == close_from(s@, k as int),
        decreases s@.len() - k,
    {
        k = k + 1;
    }
    k
}

/// Appends the names that a template captures.
fn collect_captures(chars: &Vec<char>, raw: bool, out: &mut Vec<String>)
    ensures
        texts(final(out)@) == texts(old(out)@) + captures_from(chars@, raw, 0),
{
    let ghost before = texts(out@);
    let ghost s = chars@;
    let total = chars.len();
    let mut i: usize = 0;
    while i < total
        invariant
            total == chars@.len(),
            s == chars@,
            texts(out@) + captures_from(s, raw, i as int) == before + captures_from(s, raw, 0),
        decreases total - i,
    {
        if chars[i] == '\\' && !raw {
            if i < total - 1 && chars[i + 1] == 'u' {
                let close = find_close(&chars, i + 2);
                if close == total {
                    i = total;
                } else {
                    i = close + 1;
                }
            } else if i < total - 1 {
                i = i + 2;
            } else {
                i = total;
            }
        } else if chars[i] == '{' {
            if i < total - 1 && chars[i + 1] == '{' {
                i = i + 2;
            } else {
                let found = until_text(
                    &chars,
                    i + 1,
                    |c: char| -> (b: bool)
                        ensures
                            b == name_end(c)
                    { c == '}' || c == ':' },
                    Ghost(|c: char| name_end(c)),
                );
                proof {
                    lemma_until_len(s.skip(i as int + 1), |c: char| name_end(c));
                    lemma_close(s, i as int + 1 + found@.len());
                }
                let close = find_close(&chars, i + 1 + found.len());
                let name = trim_text(&found);
                let first = chars_of(name.as_str());
                let ghost was = texts(out@);
                let ghost rest = captures_from(s, raw, close + 1);
                if first.len() > 0 && (first[0].is_alphabetic() || first[0] == '_') {
                    let ghost text = name@;
                    out.push(name);
                    assert(texts(out@) =~= was.push(text));
                    assert(captures_from(s, raw, i as int) == seq![text] + rest);
                    assert(was + (seq![text] + rest) =~= was.push(text) + rest);
                } else {
                    assert(captures_from(s, raw, i as int) == rest);
                }
                if close == total {
                    assert(rest =~= Seq::<Seq<char>>::empty());
                    i = total;
                } else {
                    i = close + 1;
                }
                assert(texts(out@) + captures_from(s, raw, i as int) == before + captures_from(s, raw, 0));
            }
        } else if chars[i] == '}' && i < total - 1 && chars[i + 1] == '}' {
            i = i + 2;
        } else {
            i = i + 1;
        }
    }
    assert(captures_from(s, raw, i as int) =~= Seq::<Seq<char>>::empty());
    assert(texts(out@) =~= before + captures_from(s, raw, 0));
}

/// How many `#` stand at `i`.
fn count_hashes(lit: &Vec<char>, i: usize) -> (r: usize)
    requires
        i <= lit@.len(),
    ensures
        r == hashes(lit@, i as int),
        i + r <= lit@.len(),
{
    let mut k: usize = i;
    while k < lit.len() && lit[k] == '#'
        invariant
            i <= k <= lit@.len(),
            hashes(lit@, i as int) == k - i + hashes(lit@, k as int),
        decreases lit@.len() - k,
    {
        k = k + 1;
    }
    k - i
}

/// Appends the names that a literal captures, if it is a string.
pub fn extract_captures(lit: &str, out: &mut Vec<String>)
    ensures
        texts(final(out)@) == texts(old(out)@) + captures(lit@),
{
    let ghost before = texts(out@);
    let whole = chars_of(lit);
    let total = whole.len();
    if total >= 2 && whole[0] == '"' {
        let inner = slice_of(&whole, 1, total - 1);
        collect_captures(&inner, false, out);
    } else if total >= 3 && whole[0] == 'r' {
        let n = count_hashes(&whole, 1);
        if n < total - 1 && whole[n + 1] == '"' && total - n - 2 > n {
            let inner = slice_of(&whole, n + 2, total - 1 - n);
            collect_captures(&inner, true, out);
        } else {
            assert(texts(out@) =~= before + captures(lit@));
        }
    } else {
        assert(texts(out@) =~= before + captures(lit@));
    }
}

/// Appends the names that a `format!` refers to.
fn collect_names_from_tokens(tokens: &Vec<Token>, out: &mut Vec<String>)
    ensures
        texts(final(out)@) == texts(old(out)@) + format_names(tokens@),
    decreases tokens,
{
    let ghost before = texts(out@);
    let mut i: usize = 0;
    while i < tokens.len()
        invariant
            i <= tokens@.len(),
            texts(out@) == before + format_names(tokens@.take(i as int)),
        decreases tokens@.len() - i,
    {
        assert(tokens@.take(i as int + 1).drop_last() =~= tokens@.take(i as int));
        assert(tokens@.take(i as int + 1).last() == tokens@[i as int]);
        collect_names_from_token(&tokens[i], out);
        assert(texts(out@) =~= before + format_names(tokens@.take(i as int + 1)));
        i = i + 1;
    }
    assert(tokens@.take(i as int) =~= tokens@);
}

/// Appends the names that a token of a `format!` refers to.
fn collect_names_from_token(token: &Token, out: &mut Vec<String>)
    ensures
        texts(final(out)@) == texts(old(out)@) + token_names(*token),
    decreases token,
{
    let ghost before = texts(out@);
    match token {
        Token::Ident(name) => {
            out.push(name.clone());
        },
        Token::Literal(text) => {
            extract_captures(text.as_str(), out);
        },
        Token::Group { tokens, .. } => {
            collect_names_from_tokens(tokens, out);
        },
        Token::Punct { .. } => {},
    }
    assert(texts(out@) =~= before + token_names(*token));
}

/// Whether an identifier is spelled like a constant.
pub fn is_const_like(n: &str) -> (b: bool)
    ensures
        b == screaming(n@),
{
    is_screaming_snake(n)
}

/// Whether the `format!` refers to something that is no constant.
pub fn format_is_dynamic(mac: &Node) -> (b: bool)
    ensures
        b == dynamic(*mac),
{
    let mut names: Vec<String> = Vec::new();
    collect_names_from_tokens(&mac.tokens, &mut names);
    assert(texts(names@) =~= format_names(mac.tokens@));
    any_text(
        &names,
        |name: &str| -> (r: bool)
            ensures
                r == (!screaming(name@))
        { !is_const_like(name) },
        Ghost(|name: Seq<char>| !screaming(name)),
    )
}

/// The first `format!` of an expression.
pub fn find_format_macro(e: &Node) -> (r: Option<&Node>)
    ensures
        r.is_some() == format_in(*e).is_some(),
        r.is_some() ==> Some(*r.unwrap()) == format_in(*e),
{
    let list = walk_nodes(
        e,
        |n: &Node| -> (b: bool)
            ensures
                b == outside_macros()(*n)
        { !matches!(n.kind, Kind::Macro) },
        Ghost(outside_macros()),
    );
    find_node(
        &list,
        |n: &Node| -> (b: bool)
            ensures
                b == is_format(*n)
        { is_named(get_macro_name(n), "format") },
        Ghost(|n: Node| is_format(n)),
    )
}

/// The identifier that a key comes from.
pub fn base_ident(e: &Node) -> (r: Option<&str>)
    ensures
        r.is_some() == base(*e).is_some(),
        r.is_some() ==> Some(r.unwrap()@) == base(*e),
    decreases e,
{
    proof {
        lemma_part_smaller(*e, Role::Operand);
        lemma_part_smaller(*e, Role::Receiver);
    }
    match e.kind {
        Kind::PathExpr => if e.get_part(Role::Type).is_none() && e.words.len() == 1 {
            Some(e.words[0].as_str())
        } else {
            None
        },
        Kind::MethodCall => match e.get_part(Role::Receiver) {
            Some(inner) => base_ident(inner),
            None => None,
        },
        Kind::Reference { .. } | Kind::Paren | Kind::Group | Kind::Cast | Kind::Try => {
            match e.get_part(Role::Operand) {
                Some(inner) => base_ident(inner),
                None => None,
            }
        },
        _ => None,
    }
}

/// The value that the last `let` of `name` in `list` binds.
fn get_value<'a>(list: &Vec<&'a Node>, name: &str) -> (r: Option<&'a Node>)
    ensures
        r.is_some() == value_of(list@.unref(), name@).is_some(),
        r.is_some() ==> Some(*r.unwrap()) == value_of(list@.unref(), name@),
{
    let found = find_last_node(
        list,
        |n: &Node| -> (b: bool)
            ensures
                b == binds(*n, name@)
        {
            matches!(n.kind, Kind::Local) && is_named(get_let_name(n), name) && n.get_part(
                Role::Init,
            ).is_some()
        },
        Ghost(|n: Node| binds(n, name@)),
    );
    match found {
        Some(n) => n.get_part(Role::Init),
        None => None,
    }
}

/// What is known of a key, following at most five `let`s of `list`.
pub fn analyze_key(e: &Node, list: &Vec<&Node>, depth: usize) -> (r: Verdict)
    ensures
        r == analyze(*e, list@.unref(), depth as nat),
    decreases 6 - depth,
{
    if depth > 5 {
        return Verdict::Unknown;
    }
    match find_format_macro(e) {
        Some(mac) => {
            if format_is_dynamic(mac) {
                Verdict::Flag
            } else {
                Verdict::Safe
            }
        },
        None => match base_ident(e) {
            Some(name) => match get_value(list, name) {
                Some(init) => analyze_key(init, list, depth + 1),
                None => Verdict::Unknown,
            },
            None => Verdict::Unknown,
        },
    }
}

/// Whether the body reads or writes storage under an unsafe key.
fn has_unsafe_call(body: &Node) -> (b: bool)
    ensures
        b == some(nodes(*body), |n: Node| unsafe_call(n, nodes(*body))),
{
    let list = nodes_in(body);
    any_node(
        &list,
        |n: &Node| -> (r: bool)
            ensures
                r == unsafe_call(*n, nodes(*body))
        {
            (match get_path_call(n) {
                Some(name) => same_as_any(name, STORAGE_CALLS.as_slice()),
                None => false,
            }) && (match n.get_part(Role::Argument) {
                Some(key) => matches!(analyze_key(key, &list, 0), Verdict::Flag),
                None => false,
            })
        },
        Ghost(|n: Node| unsafe_call(n, nodes(*body))),
    )
}

/// Whether the function is a test.
pub fn is_test_fn(f: &Node) -> (b: bool)
    ensures
        b == test_fn(*f),
{
    starts_with(f.name.as_str(), "test_") || has_test_attribute(f)
}

/// Whether `f` reads or writes storage under an unsafe key.
pub fn function_has_unsafe_storage_key(f: &Node) -> (b: bool)
    ensures
        b == (!mentions_any(f.body_text(), SAFE_KEYS@) && (f.part(
            Role::Body,
        ) matches Some(body) && some(nodes(body), |n: Node| unsafe_call(n, nodes(body))))),
{
    !contains_any(f.get_body_text(), SAFE_KEYS.as_slice()) && (match f.get_part(Role::Body) {
        Some(body) => has_unsafe_call(body),
        None => false,
    })
}

impl UnsafeStorageKeysDetector {
    /// The finding on `f`, if there is one.
    pub fn check(&self, ctx: &ScanContext, f: &Node) -> (r: Option<Finding>)
        ensures
            opt_report(r) == report_on(*ctx, *f),
    {
        match f.kind {
            Kind::Function => {},
            _ => {
                return None;
            },
        }
        if is_test_fn(f) || !function_has_unsafe_storage_key(f) {
            return None;
        }
        let text = join3(
            "Function '",
            f.name.as_str(),
            "' constructs storage keys from user input via format!()",
        );
        Some(
            raise(
                &info(),
                ctx,
                Confidence::Medium,
                f.line,
                f.column,
                text,
                "Use BorshSerialize or enum-based namespacing for storage keys to prevent collisions",
            ),
        )
    }
}

impl Detector for UnsafeStorageKeysDetector {
    open spec fn profile(&self) -> Profile {
        profile()
    }

    open spec fn reports_on(&self, ctx: ScanContext) -> Seq<Report> {
        if !mentions_any(ctx.source@, NEAR_MARKERS@) {
            Seq::empty()
        } else {
            reports_of(walk(ctx.ast, outside_functions_and_tests()), |f: Node| report_on(ctx, f))
        }
    }

    fn id(&self) -> (r: &'static str) {
        info().id
    }

    fn name(&self) -> (r: &'static str) {
        info().name
    }

    fn description(&self) -> (r: &'static str) {
        info().description
    }

    fn severity(&self) -> (r: Severity) {
        info().severity
    }

    fn confidence(&self) -> (r: Confidence) {
        info().confidence
    }

    fn chain(&self) -> (r: Chain) {
        info().chain
    }

    fn detect(&self, ctx: &ScanContext) -> (r: Vec<Finding>) {
        if !contains_any(ctx.source.as_str(), NEAR_MARKERS.as_slice()) {
            return Vec::new();
        }
        let list = walk_nodes(
            &ctx.ast,
            |n: &Node| -> (b: bool)
                ensures
                    b == outside_functions_and_tests()(*n)
            {
                !matches!(n.kind, Kind::Function)
                    && !(matches!(n.kind, Kind::Module) && is_cfg_test(n))
            },
            Ghost(outside_functions_and_tests()),
        );
        collect_findings(
            &list,
            |f: &Node| -> (s: Option<Finding>)
                ensures
                    opt_report(s) == report_on(*ctx, *f)
            { self.check(ctx, f) },
            Ghost(|f: Node| report_on(*ctx, f)),
        )
    }

    proof fn law_findings_are_stamped(&self, ctx: ScanContext) {
        assert forall|i: int| 0 <= i < self.reports_on(ctx).len() implies stamped(
            #[trigger] self.reports_on(ctx)[i],
            self.profile(),
            ctx,
        ) by {
            lemma_reports_from(walk(ctx.ast, outside_functions_and_tests()), |f: Node| report_on(ctx, f), i);
        }
    }
}

/// Every finding has the confidence that the rule states of itself.
pub proof fn law_confidence_is_the_rules_own(ctx: ScanContext)
    ensures
        forall|i: int|
            0 <= i < UnsafeStorageKeysDetector.reports_on(ctx).len() ==> (
            #[trigger] UnsafeStorageKeysDetector.reports_on(ctx)[i]).confidence == profile().confidence,
{
    assert forall|i: int| 0 <= i < UnsafeStorageKeysDetector.reports_on(ctx).len() implies (
        #[trigger] UnsafeStorageKeysDetector.reports_on(ctx)[i]).confidence == profile().confidence by {
        lemma_reports_from(walk(ctx.ast, outside_functions_and_tests()), |f: Node| report_on(ctx, f), i);
    }
}

/// Nothing is reported on a file that shows no mark of a NEAR contract.
pub proof fn law_out_of_scope_is_silent(ctx: ScanContext)
    requires
        !mentions_any(ctx.source@, NEAR_MARKERS@),
    ensures
        UnsafeStorageKeysDetector.reports_on(ctx).len() == 0,
{
}

/// Nothing is reported on a test function.
pub proof fn law_test_function_is_silent(ctx: ScanContext, f: Node)
    requires
        test_fn(f),
    ensures
        report_on(ctx, f) is None,
{
}

/// A test module contributes no report, whatever it holds.
pub proof fn law_test_module_is_silent(ctx: ScanContext, m: Node)
    requires
        m.kind is Module,
        test_builds_only(m),
    ensures
        reports_of(walk(m, outside_functions_and_tests()), |f: Node| report_on(ctx, f)) == Seq::<Report>::empty(),
{
    lemma_sealed(m, outside_functions_and_tests(), |f: Node| report_on(ctx, f));
}

/// What is reported on is spoken of, wherever in the file it stands.
proof fn lemma_reported(ctx: ScanContext, path: Seq<Node>, f: Node)
    requires
        leads_openly(path, ctx.ast, f),
        report_on(ctx, f) is Some,
        mentions_any(ctx.source@, seq!["near_sdk", "near_contract_standards", "#[near_bindgen]", "#[near(", "env::predecessor_account_id", "env::signer_account_id", "Promise::new"]),
    ensures
        speaks_of(UnsafeStorageKeysDetector.reports_on(ctx), f),
{
    lemma_spoken_of(path, outside_functions_and_tests(), |n: Node| report_on(ctx, n), "Function '"@, "' constructs storage keys from user input via format!()"@);
}

/// An identifier among the tokens is among the names that they refer to.
proof fn lemma_ident_is_named(tokens: Seq<Token>, k: int, name: Seq<char>)
    requires
        0 <= k < tokens.len(),
        tokens[k] matches Token::Ident(s) && s@ == name,
    ensures
        format_names(tokens).contains(name),
    decreases tokens.len(),
{
    let before = format_names(tokens.drop_last());
    let here = token_names(tokens.last());
    if k == tokens.len() - 1 {
        assert(here[0] == name);
        assert((before + here)[before.len() as int] == name);
    } else {
        assert(tokens.drop_last()[k] == tokens[k]);
        lemma_ident_is_named(tokens.drop_last(), k, name);
        let i = before.index_of(name);
        assert((before + here)[i] == name);
    }
}

/// The tokens hold an identifier that begins with a small letter.
pub open spec fn names_a_local(tokens: Seq<Token>) -> bool {
    exists|k: int|
        0 <= k < tokens.len() && (#[trigger] tokens[k] matches Token::Ident(s) && s@.len() > 0 && 'a'
            <= s@[0] && s@[0] <= 'z')
}

/// A `format!` that names a local is no constant.
proof fn lemma_local_is_dynamic(mac: Node)
    requires
        names_a_local(mac.tokens@),
    ensures
        dynamic(mac),
{
    let tokens = mac.tokens@;
    let k = choose|k: int|
        0 <= k < tokens.len() && (#[trigger] tokens[k] matches Token::Ident(s) && s@.len() > 0 && 'a'
            <= s@[0] && s@[0] <= 'z');
    let name = tokens[k]->Ident_0@;
    lemma_ident_is_named(tokens, k, name);
    let list = format_names(tokens);
    let i = list.index_of(name);
    let p = |name: Seq<char>| !screaming(name);
    assert(!screaming_char(name[0]));
    assert(p(list[i]));
}

/// A node that fits is found, and what is found fits and is one of the nodes.
proof fn lemma_first_node(list: Seq<Node>, p: spec_fn(Node) -> bool, k: int)
    requires
        0 <= k < list.len(),
        p(list[k]),
    ensures
        first_node(list, p) matches Some(n) && p(n) && list.contains(n),
    decreases list.len(),
{
    if k < list.len() - 1 {
        assert(list.drop_last()[k] == list[k]);
        lemma_first_node(list.drop_last(), p, k);
        let n = first_node(list.drop_last(), p)->0;
        let i = list.drop_last().index_of(n);
        assert(list[i] == n);
    } else {
        match first_node(list.drop_last(), p) {
            Some(n) => {
                lemma_found_fits(list.drop_last(), p);
                let i = list.drop_last().index_of(n);
                assert(list[i] == n);
            },
            None => {
                assert(list[list.len() - 1] == list.last());
            },
        }
    }
}

/// What is found fits and is one of the nodes.
proof fn lemma_found_fits(list: Seq<Node>, p: spec_fn(Node) -> bool)
    requires
        first_node(list, p) is Some,
    ensures
        p(first_node(list, p)->0),
        list.contains(first_node(list, p)->0),
    decreases list.len(),
{
    if first_node(list.drop_last(), p) is Some {
        lemma_found_fits(list.drop_last(), p);
        let i = list.drop_last().index_of(first_node(list, p)->0);
        assert(list[i] == first_node(list, p)->0);
    } else {
        assert(list[list.len() - 1] == list.last());
    }
}

/// The expression holds a `format!`, and each that it holds names a local.
pub open spec fn formats_a_local(e: Node, path: Seq<Node>) -> bool {
    &&& leads(path)
    &&& path[0] == e
    &&& path.last().kind is Macro
    &&& path.last().last_word() == Some("format"@)
    &&& forall|i: int| 0 <= i < path.len() - 1 ==> !((#[trigger] path[i]).kind is Macro)
    &&& forall|k: int|
        0 <= k < nodes(e).len() && (#[trigger] nodes(e)[k]).kind is Macro ==> names_a_local(
            nodes(e)[k].tokens@,
        )
}

/// An expression that formats a local is flagged.
proof fn lemma_formats_a_local(e: Node, path: Seq<Node>, list: Seq<Node>, depth: nat)
    requires
        formats_a_local(e, path),
        depth <= 5,
    ensures
        analyze(e, list, depth) is Flag,
{
    law_led_to_is_met(path, outside_macros());
    let met = walk(e, outside_macros());
    let k = met.index_of(path.last());
    let p = |n: Node| is_format(n);
    assert(p(met[k]));
    lemma_first_node(met, p, k);
    let mac = first_node(met, p)->0;
    law_visits_meet_nodes_only(e, outside_macros(), mac);
    let i = nodes(e).index_of(mac);
    assert(nodes(e)[i] == mac);
    lemma_local_is_dynamic(mac);
}

/// Where one node alone fits, it is the last that does.
proof fn lemma_only_one(list: Seq<Node>, p: spec_fn(Node) -> bool, n: Node)
    requires
        list.contains(n),
        p(n),
        forall|k: int| 0 <= k < list.len() && p(#[trigger] list[k]) ==> list[k] == n,
    ensures
        last_node(list, p) == Some(n),
    decreases list.len(),
{
    if p(list.last()) {
        assert(list[list.len() - 1] == n);
    } else {
        let i = list.index_of(n);
        assert(list.drop_last()[i] == n);
        assert forall|k: int| 0 <= k < list.drop_last().len() && p(
            #[trigger] list.drop_last()[k],
        ) implies list.drop_last()[k] == n by {
            assert(list[k] == list.drop_last()[k]);
        }
        lemma_only_one(list.drop_last(), p, n);
    }
}

/// A function that reads or writes storage under a key in which a `format!` names a
/// local is reported, unless the body hashes or serializes its keys.
pub proof fn law_formatted_key_is_reported(ctx: ScanContext, path: Seq<Node>, f: Node, body: Node, n: Node, key: Node, inner: Seq<Node>)
    requires
        mentions_any(ctx.source@, seq!["near_sdk", "near_contract_standards", "#[near_bindgen]", "#[near(", "env::predecessor_account_id", "env::signer_account_id", "Promise::new"]),
        leads_openly(path, ctx.ast, f),
        f.kind is Function,
        f.parts(Role::Attribute).len() == 0,
        !begins(f.name@, "test_"@),
        f.part(Role::Body) == Some(body),
        !mentions_any(body.text@, seq!["sha256", "keccak", "BorshSerialize", "borsh"]),
        nodes(body).contains(n),
        path_call(n) == Some("storage_write"@) || path_call(n) == Some("storage_read"@),
        n.part(Role::Argument) == Some(key),
        formats_a_local(key, inner),
    ensures
        speaks_of(UnsafeStorageKeysDetector.reports_on(ctx), f),
{
    let list = nodes(body);
    lemma_formats_a_local(key, inner, list, 0);
    let p = |m: Node| unsafe_call(m, list);
    assert(p(list[list.index_of(n)]));
    lemma_reported(ctx, path, f);
}

/// It makes no difference if the key is bound to a name first: what the one `let` of
/// that name binds is followed.
pub proof fn law_bound_key_is_followed(ctx: ScanContext, path: Seq<Node>, f: Node, body: Node, n: Node, key: Node, bound: Node, init: Node, inner: Seq<Node>)
    requires
        mentions_any(ctx.source@, seq!["near_sdk", "near_contract_standards", "#[near_bindgen]", "#[near(", "env::predecessor_account_id", "env::signer_account_id", "Promise::new"]),
        leads_openly(path, ctx.ast, f),
        f.kind is Function,
        f.parts(Role::Attribute).len() == 0,
        !begins(f.name@, "test_"@),
        f.part(Role::Body) == Some(body),
        !mentions_any(body.text@, seq!["sha256", "keccak", "BorshSerialize", "borsh"]),
        nodes(body).contains(n),
        path_call(n) == Some("storage_write"@) || path_call(n) == Some("storage_read"@),
        n.part(Role::Argument) == Some(key),
        key.kind is PathExpr,
        key.part(Role::Type) is None,
        key.words@.len() == 1,
        forall|k: int| 0 <= k < nodes(key).len() ==> !((#[trigger] nodes(key)[k]).kind is Macro),
        nodes(body).contains(bound),
        bound.kind is Local,
        let_name(bound) == Some(key.words@[0]@),
        bound.part(Role::Init) == Some(init),
        forall|k: int| 0 <= k < nodes(body).len() && (#[trigger] nodes(body)[k]).kind is Local ==> nodes(body)[k] == bound,
        formats_a_local(init, inner),
    ensures
        speaks_of(UnsafeStorageKeysDetector.reports_on(ctx), f),
{
    let list = nodes(body);
    lemma_formats_a_local(init, inner, list, 1);
    let met = walk(key, outside_macros());
    let is_mac = |m: Node| is_format(m);
    if first_node(met, is_mac) is Some {
        lemma_found_fits(met, is_mac);
        law_visits_meet_nodes_only(key, outside_macros(), first_node(met, is_mac)->0);
        let i = nodes(key).index_of(first_node(met, is_mac)->0);
        assert(!(nodes(key)[i].kind is Macro));
    }
    let fits = |m: Node| binds(m, key.words@[0]@);
    lemma_only_one(list, fits, bound);
    assert(analyze(key, list, 0) is Flag);
    let p = |m: Node| unsafe_call(m, list);
    assert(p(list[list.index_of(n)]));
    lemma_reported(ctx, path, f);
}

/// What is reported reads or writes storage, and neither hashes nor serializes its
/// keys.
pub proof fn law_reported_key_is_used(ctx: ScanContext, f: Node)
    requires
        report_on(ctx, f) is Some,
    ensures
        f.kind is Function,
        !begins(f.name@, "test_"@),
        !mentions_any(f.body_text(), seq!["sha256", "keccak", "BorshSerialize", "borsh"]),
        f.part(Role::Body) matches Some(body) && exists|k: int| 0 <= k < nodes(body).len() && (path_call(#[trigger] nodes(body)[k]) == Some("storage_write"@) || path_call(nodes(body)[k]) == Some("storage_read"@)),
{
    let body = f.part(Role::Body)->0;
    let list = nodes(body);
    let p = |m: Node| unsafe_call(m, list);
    let k = choose|k: int| 0 <= k < list.len() && #[trigger] p(list[k]);
    assert(path_call(nodes(body)[k]) is Some);
}

/// Characters that mean nothing in a template are passed over.
proof fn lemma_plain_is_passed(s: Seq<char>, raw: bool, i: int, k: int)
    requires
        0 <= i <= k < s.len(),
        forall|j: int| i <= j < k ==> #[trigger] s[j] != '{' && s[j] != '}' && s[j] != '\\',
    ensures
        captures_from(s, raw, i) == captures_from(s, raw, k),
    decreases k - i,
{
    if i < k {
        assert(s[i] != '{' && s[i] != '}' && s[i] != '\\');
        lemma_plain_is_passed(s, raw, i + 1, k);
    }
}

/// What stands in front of the closing brace, or of a format, is the name.
proof fn lemma_name_up_to_brace(name: Seq<char>, rest: Seq<char>)
    requires
        rest.len() > 0 && (rest[0] == '}' || rest[0] == ':'),
        forall|j: int| 0 <= j < name.len() ==> #[trigger] name[j] != '}' && name[j] != ':',
    ensures
        until(name + rest, |c: char| name_end(c)) == name,
    decreases name.len(),
{
    let whole = name + rest;
    if name.len() == 0 {
        assert(whole =~= rest);
    } else {
        assert(whole[0] == name[0]);
        assert(name[0] != '}' && name[0] != ':');
        assert(whole.drop_first() =~= name.drop_first() + rest);
        assert forall|j: int| 0 <= j < name.drop_first().len() implies #[trigger] name.drop_first()[j]
            != '}' && name.drop_first()[j] != ':' by {
            assert(name.drop_first()[j] == name[j + 1]);
        }
        lemma_name_up_to_brace(name.drop_first(), rest);
        assert(seq![name[0]] + name.drop_first() =~= name);
    }
}

/// A name of small letters between braces is captured by a template, wherever behind
/// plain text it stands.
pub proof fn law_braces_capture(front: Seq<char>, name: Seq<char>, rest: Seq<char>, raw: bool)
    requires
        forall|j: int| 0 <= j < front.len() ==> #[trigger] front[j] != '{' && front[j] != '}' && front[j] != '\\',
        name.len() > 0,
        forall|j: int| 0 <= j < name.len() ==> 'a' <= #[trigger] name[j] && name[j] <= 'z',
        rest.len() > 0 && (rest[0] == '}' || rest[0] == ':'),
    ensures
        captures_from(front + seq!['{'] + name + rest, raw, 0).contains(name),
{
    let s = front + seq!['{'] + name + rest;
    let k = front.len() as int;
    assert(s[k] == '{');
    assert forall|j: int| 0 <= j < k implies #[trigger] s[j] != '{' && s[j] != '}' && s[j] != '\\' by {
        assert(s[j] == front[j]);
    }
    lemma_plain_is_passed(s, raw, 0, k);
    assert(s[k + 1] == name[0]);
    assert('a' <= name[0] && name[0] <= 'z');
    assert(s.skip(k + 1) =~= name + rest);
    assert forall|j: int| 0 <= j < name.len() implies #[trigger] name[j] != '}' && name[j] != ':' by {
        assert('a' <= name[j] && name[j] <= 'z');
    }
    lemma_name_up_to_brace(name, rest);
    assert('a' <= name[name.len() - 1] && name[name.len() - 1] <= 'z');
    assert(name.first() == name[0] && name.last() == name[name.len() - 1]);
    assert(trimmed(name) == name);
    assert(capturable(name));
    assert(captures_from(s, raw, k)[0] == name);
}

/// Doubled braces capture nothing.
pub proof fn law_doubled_braces_do_not_capture(front: Seq<char>, rest: Seq<char>, raw: bool)
    requires
        forall|j: int| 0 <= j < front.len() ==> #[trigger] front[j] != '{' && front[j] != '}' && front[j] != '\\',
    ensures
        captures_from(front + seq!['{', '{'] + rest, raw, 0) == captures_from(front + seq!['{', '{'] + rest, raw, front.len() as int + 2),
{
    let s = front + seq!['{', '{'] + rest;
    let k = front.len() as int;
    assert(s[k] == '{' && s[k + 1] == '{');
    assert forall|j: int| 0 <= j < k implies #[trigger] s[j] != '{' && s[j] != '}' && s[j] != '\\' by {
        assert(s[j] == front[j]);
    }
    lemma_plain_is_passed(s, raw, 0, k);
}

/// A `format!` whose template captures a name of small letters is no constant key, and
/// one that refers to nothing is.
pub proof fn law_captured_name_is_dynamic(mac: Node, k: int, front: Seq<char>, name: Seq<char>, rest: Seq<char>, text: Seq<char>)
    requires
        0 <= k < mac.tokens@.len(),
        mac.tokens@[k] matches Token::Literal(s) && s@ == text,
        text == seq!['"'] + (front + seq!['{'] + name + rest) + seq!['"'],
        forall|j: int| 0 <= j < front.len() ==> #[trigger] front[j] != '{' && front[j] != '}' && front[j] != '\\',
        name.len() > 0,
        forall|j: int| 0 <= j < name.len() ==> 'a' <= #[trigger] name[j] && name[j] <= 'z',
        rest.len() > 0 && (rest[0] == '}' || rest[0] == ':'),
    ensures
        dynamic(mac),
{
    law_braces_capture(front, name, rest, false);
    let inner = front + seq!['{'] + name + rest;
    assert(text.subrange(1, text.len() - 1) =~= inner);
    assert(text[0] == '"');
    assert(captures(text).contains(name));
    lemma_captured_is_named(mac.tokens@, k, text, name);
    let list = format_names(mac.tokens@);
    let p = |n: Seq<char>| !screaming(n);
    assert('a' <= name[0] && name[0] <= 'z');
    assert(!screaming_char(name[0]));
    assert(p(list[list.index_of(name)]));
}

/// What a literal among the tokens captures is among the names that they refer to.
proof fn lemma_captured_is_named(tokens: Seq<Token>, k: int, text: Seq<char>, name: Seq<char>)
    requires
        0 <= k < tokens.len(),
        tokens[k] matches Token::Literal(s) && s@ == text,
        captures(text).contains(name),
    ensures
        format_names(tokens).contains(name),
    decreases tokens.len(),
{
    let before = format_names(tokens.drop_last());
    let here = token_names(tokens.last());
    if k == tokens.len() - 1 {
        let i = here.index_of(name);
        assert((before + here)[before.len() + i] == name);
    } else {
        assert(tokens.drop_last()[k] == tokens[k]);
        lemma_captured_is_named(tokens.drop_last(), k, text, name);
        let i = before.index_of(name);
        assert((before + here)[i] == name);
    }
}

/// A function that carries a test attribute of whatever framework is not reported.
pub proof fn law_marked_test_is_silent(ctx: ScanContext, f: Node, k: int)
    requires
        0 <= k < f.parts(Role::Attribute).len(),
        f.parts(Role::Attribute)[k].last_word() == Some("test"@),
    ensures
        report_on(ctx, f) is None,
{
    let p = |a: Node| a.last_word() == Some("test"@);
    assert(p(f.parts(Role::Attribute)[k]));
}

/// A function named as a test is not reported.
pub proof fn law_test_by_name_is_silent(ctx: ScanContext, f: Node)
    requires
        begins(f.name@, "test_"@),
    ensures
        report_on(ctx, f) is None,
{
}

/// Only strings capture names, plain ones and raw ones.
pub proof fn law_only_strings_capture(lit: Seq<char>)
    requires
        lit.len() > 0,
        lit[0] != '"',
        lit[0] != 'r',
    ensures
        captures(lit).len() == 0,
{
}

/// A captured name begins as an identifier does.
pub proof fn law_captured_names_are_identifiers(name: Seq<char>)
    requires
        capturable(name),
    ensures
        name.len() > 0 && (alphabetic(name[0]) || name[0] == '_'),
{
}

/// Only number signs in a row are counted.
pub proof fn law_only_number_signs_count(lit: Seq<char>, i: int)
    requires
        0 <= i < lit.len(),
    ensures
        lit[i] != '#' ==> hashes(lit, i) == 0,
        lit[i] == '#' ==> hashes(lit, i) == 1 + hashes(lit, i + 1),
{
}

/// In a raw template a backslash is a character like others.
pub proof fn law_backslashes_of_raw_templates(s: Seq<char>, i: int)
    requires
        0 <= i < s.len(),
        s[i] == '\\',
    ensures
        captures_from(s, true, i) == captures_from(s, true, i + 1),
{
}

} // verus!
