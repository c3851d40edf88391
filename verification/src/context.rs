//! The source file under audit.
use vstd::prelude::*;
use crate::call_graph::CallGraph;
use crate::finding::Chain;
use crate::syntax::Node;
use crate::text::{
    any_text, chars_of, same, some_text, split, split_text, texts, trim_text, trimmed, trimmed_end,
    trimmed_start, whitespace,
};

verus! {

/// A parsed source file, with what is known of its calls.
pub struct ScanContext {
    pub file_path: String,
    pub source: String,
    pub ast: Node,
    pub chain: Chain,
    pub call_graph: CallGraph,
}

impl ScanContext {
    /// Puts a context together.
    pub fn new(
        file_path: String,
        source: String,
        ast: Node,
        chain: Chain,
        call_graph: CallGraph,
    ) -> (ctx: ScanContext)
        ensures
            ctx == (ScanContext { file_path, source, ast, chain, call_graph }),
    {
        ScanContext { file_path, source, ast, chain, call_graph }
    }
}

/// The lines of a source text.
pub open spec fn source_lines(source: Seq<char>) -> Seq<Seq<char>> {
    split(source, |c: char| c == '\n')
}

/// The line numbered `line`, counting from one, without the white space around
/// it; nothing where there is no such line.
pub open spec fn snippet(source: Seq<char>, line: usize) -> Seq<char> {
    let index = if line > 0 { line - 1 } else { 0 };
    if index < source_lines(source).len() {
        trimmed(source_lines(source)[index])
    } else {
        Seq::empty()
    }
}

/// Splits a source text into its lines.
pub fn lines_of(source: &str) -> (r: Vec<String>)
    ensures
        texts(r@) == source_lines(source@),
{
    split_text(
        source,
        |c: char| -> (b: bool)
            ensures
                b == (c == '\n')
        { c == '\n' },
        Ghost(|c: char| c == '\n'),
    )
}

/// Reads the line numbered `line`, counting from one, without the white space
/// around it.
pub fn snippet_at_line(source: &str, line: usize) -> (r: String)
    ensures
        r@ == snippet(source@, line),
{
    let lines = lines_of(source);
    let index: usize = if line > 0 { line - 1 } else { 0 };
    assert(texts(lines@).len() == lines@.len());
    if index < lines.len() {
        assert(texts(lines@)[index as int] == lines@[index as int]@);
        trim_text(&chars_of(lines[index].as_str()))
    } else {
        String::new()
    }
}

/// What stands between the names of a path.
pub open spec fn path_separator(c: char) -> bool {
    c == '/' || c == '\\'
}

/// The file at `path` lies in a directory named `dir`, at whatever depth.
pub open spec fn lies_in(path: Seq<char>, dir: Seq<char>) -> bool {
    some_text(split(path, |c: char| path_separator(c)).drop_last(), |name: Seq<char>| name == dir)
}

/// Whether the file at `path` lies in a directory named `dir`, at whatever depth.
pub fn is_in_directory(path: &str, dir: &str) -> (b: bool)
    ensures
        b == lies_in(path@, dir@),
{
    let mut names = split_text(
        path,
        |c: char| -> (b: bool)
            ensures
                b == path_separator(c)
        { c == '/' || c == '\\' },
        Ghost(|c: char| path_separator(c)),
    );
    proof {
        lemma_pieces(path@, |c: char| path_separator(c));
        assert(texts(names@).len() == names@.len());
    }
    let ghost all = names@;
    names.pop();
    assert(texts(names@) =~= texts(all).drop_last());
    any_text(
        &names,
        |name: &str| -> (r: bool)
            ensures
                r == (name@ == dir@)
        { same(name, dir) },
        Ghost(|name: Seq<char>| name == dir@),
    )
}

/// A snippet is a single line without white space around it.
pub proof fn law_snippet_is_one_line(source: Seq<char>, line: usize)
    ensures
        !snippet(source, line).contains('\n'),
        snippet(source, line).len() > 0 ==> !whitespace(snippet(source, line).first())
            && !whitespace(snippet(source, line).last()),
{
    let sep = |c: char| c == '\n';
    let lines = source_lines(source);
    let index = if line > 0 { line - 1 } else { 0 };
    if index < lines.len() {
        lemma_pieces(source, sep);
        let piece = lines[index];
        lemma_trimmed(piece);
        if snippet(source, line).contains('\n') {
            let k = snippet(source, line).index_of('\n');
            assert(piece.contains(snippet(source, line)[k]));
            let j = piece.index_of('\n');
            assert(sep(piece[j]));
        }
    }
}

/// No piece of a text holds a separator.
proof fn lemma_pieces(s: Seq<char>, sep: spec_fn(char) -> bool)
    ensures
        split(s, sep).len() > 0,
        forall|i: int, j: int|
            0 <= i < split(s, sep).len() && 0 <= j < split(s, sep)[i].len() ==> !sep(
                #[trigger] split(s, sep)[i][j],
            ),
    decreases s.len(),
{
    if s.len() > 0 {
        lemma_pieces(s.drop_last(), sep);
        let before = split(s.drop_last(), sep);
        let now = split(s, sep);
        assert forall|i: int, j: int| 0 <= i < now.len() && 0 <= j < now[i].len() implies !sep(
            #[trigger] now[i][j],
        ) by {
            if sep(s.last()) {
                if i < before.len() {
                    assert(now[i] == before[i]);
                }
            } else if i < before.len() - 1 {
                assert(now[i] == before[i]);
            } else {
                assert(now[i] == before.last().push(s.last()));
                if j < before.last().len() {
                    assert(now[i][j] == before[before.len() - 1][j]);
                }
            }
        }
    }
}

/// Trimming keeps characters of the text, and leaves no white space at the ends.
proof fn lemma_trimmed(s: Seq<char>)
    ensures
        trimmed(s).len() > 0 ==> !whitespace(trimmed(s).first()) && !whitespace(trimmed(s).last()),
        forall|i: int| 0 <= i < trimmed(s).len() ==> s.contains(#[trigger] trimmed(s)[i]),
{
    lemma_trimmed_start(s);
    let t = trimmed_start(s);
    lemma_trimmed_end(t);
    assert forall|i: int| 0 <= i < trimmed(s).len() implies s.contains(#[trigger] trimmed(s)[i]) by {
        assert(t[i] == trimmed(s)[i]);
    }
}

/// What trimming at the start leaves.
proof fn lemma_trimmed_start(s: Seq<char>)
    ensures
        trimmed_start(s).len() > 0 ==> !whitespace(trimmed_start(s).first()),
        forall|i: int|
            0 <= i < trimmed_start(s).len() ==> s.contains(#[trigger] trimmed_start(s)[i]),
    decreases s.len(),
{
    if s.len() > 0 && whitespace(s.first()) {
        lemma_trimmed_start(s.drop_first());
        let t = trimmed_start(s);
        assert forall|i: int| 0 <= i < t.len() implies s.contains(#[trigger] t[i]) by {
            let k = s.drop_first().index_of(t[i]);
            assert(s[k + 1] == t[i]);
        }
    }
}

/// What trimming at the end leaves.
proof fn lemma_trimmed_end(s: Seq<char>)
    ensures
        trimmed_end(s).len() > 0 ==> !whitespace(trimmed_end(s).last()),
        trimmed_end(s).len() <= s.len(),
        forall|i: int| 0 <= i < trimmed_end(s).len() ==> #[trigger] trimmed_end(s)[i] == s[i],
    decreases s.len(),
{
    if s.len() > 0 && whitespace(s.last()) {
        lemma_trimmed_end(s.drop_last());
    }
}

} // verus!
