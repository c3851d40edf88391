//! Questions about token streams.
use vstd::prelude::*;
use crate::syntax::{Delimiter, Token};
use crate::text::{contains, is_any, mentions, same_as_any, texts};

verus! {

/// The identifiers in a token stream, those inside groups too, in order.
pub open spec fn idents(tokens: Seq<Token>) -> Seq<Seq<char>>
    decreases tokens,
{
    if tokens.len() == 0 {
        Seq::empty()
    } else {
        idents(tokens.drop_last()) + token_idents(tokens.last())
    }
}

/// The identifiers in one token.
pub open spec fn token_idents(token: Token) -> Seq<Seq<char>>
    decreases token,
{
    match token {
        Token::Ident(name) => seq![name@],
        Token::Group { tokens, .. } => idents(tokens@),
        _ => Seq::empty(),
    }
}

/// Appends the identifiers in a token stream.
fn push_idents(tokens: &Vec<Token>, out: &mut Vec<String>)
    ensures
        texts(final(out)@) == texts(old(out)@) + idents(tokens@),
    decreases tokens,
{
    let ghost before = texts(out@);
    let mut i: usize = 0;
    while i < tokens.len()
        invariant
            i <= tokens@.len(),
            texts(out@) == before + idents(tokens@.take(i as int)),
        decreases tokens@.len() - i,
    {
        proof {
            assert(tokens@.take(i as int + 1).drop_last() =~= tokens@.take(i as int));
            assert(tokens@.take(i as int + 1).last() == tokens@[i as int]);
        }
        let ghost was = out@;
        match &tokens[i] {
            Token::Ident(name) => {
                out.push(name.clone());
                assert(token_idents(tokens@[i as int]) == seq![name@]);
                assert(texts(out@) =~= texts(was) + seq![name@]);
            },
            Token::Group { tokens: inner, .. } => {
                push_idents(inner, out);
                assert(token_idents(tokens@[i as int]) == idents(inner@));
            },
            _ => {
                assert(token_idents(tokens@[i as int]) == Seq::<Seq<char>>::empty());
            },
        }
        assert(texts(out@) =~= before + idents(tokens@.take(i as int + 1)));
        i = i + 1;
    }
    assert(tokens@.take(i as int) =~= tokens@);
}

/// The identifiers in a token stream, those inside groups too, in order.
pub fn get_idents(tokens: &Vec<Token>) -> (r: Vec<String>)
    ensures
        texts(r@) == idents(tokens@),
{
    let mut r: Vec<String> = Vec::new();
    push_idents(tokens, &mut r);
    assert(texts(r@) =~= idents(tokens@));
    r
}

/// One of `names` is an identifier in the token stream.
pub open spec fn holds_ident(tokens: Seq<Token>, names: Seq<&str>) -> bool {
    exists|i: int| 0 <= i < idents(tokens).len() && is_any(#[trigger] idents(tokens)[i], names)
}

/// Whether one of `names` is an identifier in the token stream.
pub fn tokens_contain_ident(tokens: &Vec<Token>, names: &[&str]) -> (b: bool)
    ensures
        b == holds_ident(tokens@, names@),
{
    let list = get_idents(tokens);
    let mut i: usize = 0;
    while i < list.len()
        invariant
            i <= list@.len(),
            texts(list@) == idents(tokens@),
            forall|j: int| 0 <= j < i ==> !is_any(#[trigger] idents(tokens@)[j], names@),
        decreases list@.len() - i,
    {
        assert(texts(list@)[i as int] == list@[i as int]@);
        if same_as_any(list[i].as_str(), names) {
            return true;
        }
        i = i + 1;
    }
    false
}

/// The literal is written with quotes: a string, a character, or bytes.
pub open spec fn quoted_literal(text: Seq<char>) -> bool {
    text.len() > 0 && (text[0] == '"' || text[0] == '\'' || text[0] == 'b' || text[0] == 'c'
        || text[0] == 'r')
}

/// What opens a group.
pub open spec fn opening(delimiter: Delimiter) -> Seq<char> {
    match delimiter {
        Delimiter::Parenthesis => "("@,
        Delimiter::Brace => "{ "@,
        Delimiter::Bracket => "["@,
        Delimiter::Invisible => ""@,
    }
}

/// What closes a group that is empty or not.
pub open spec fn closing(delimiter: Delimiter, empty: bool) -> Seq<char> {
    match delimiter {
        Delimiter::Parenthesis => ")"@,
        Delimiter::Brace => if empty { "}"@ } else { " }"@ },
        Delimiter::Bracket => "]"@,
        Delimiter::Invisible => ""@,
    }
}

/// What stands between the tokens of `before` and the next one.
pub open spec fn spacing(before: Seq<Token>) -> Seq<char> {
    if before.len() == 0 {
        ""@
    } else {
        match before.last() {
            Token::Punct { joint, .. } => if joint { ""@ } else { " "@ },
            _ => " "@,
        }
    }
}

/// What becomes of literals when tokens are printed.
#[derive(Clone, Copy, Debug, PartialEq, Eq, Structural)]
pub enum Fill {
    /// Those written with quotes are printed as empty strings.
    Emptied,
    /// Those with a double quote are printed as a mark.
    Marked,
}

/// A printed literal.
pub open spec fn printed_literal(text: Seq<char>, fill: Fill) -> Seq<char> {
    match fill {
        Fill::Emptied => if quoted_literal(text) { "\"\""@ } else { text },
        Fill::Marked => if mentions(text, "\""@) { " __STRLIT__ "@ } else { text },
    }
}

/// A printed token stream.
pub open spec fn printed(tokens: Seq<Token>, fill: Fill) -> Seq<char>
    decreases tokens,
{
    if tokens.len() == 0 {
        Seq::empty()
    } else {
        printed(tokens.drop_last(), fill) + spacing(tokens.drop_last()) + printed_token(
            tokens.last(),
            fill,
        )
    }
}

/// A printed token.
pub open spec fn printed_token(token: Token, fill: Fill) -> Seq<char>
    decreases token,
{
    match token {
        Token::Ident(name) => name@,
        Token::Punct { mark, .. } => seq![mark],
        Token::Literal(text) => printed_literal(text@, fill),
        Token::Group { delimiter, tokens } => opening(delimiter) + printed(tokens@, fill)
            + closing(delimiter, tokens@.len() == 0),
    }
}

/// Whether the literal is written with quotes.
fn is_quoted_literal(text: &str) -> (b: bool)
    ensures
        b == quoted_literal(text@),
{
    if text.is_empty() {
        false
    } else {
        let c = text.get_char(0);
        c == '"' || c == '\'' || c == 'b' || c == 'c' || c == 'r'
    }
}

/// What stands between the first `i` tokens of a stream and the next one.
fn get_spacing(tokens: &Vec<Token>, i: usize) -> (r: &'static str)
    requires
        i <= tokens@.len(),
    ensures
        r@ == spacing(tokens@.take(i as int)),
{
    if i == 0 {
        ""
    } else {
        assert(tokens@.take(i as int).last() == tokens@[i - 1]);
        match &tokens[i - 1] {
            Token::Punct { joint, .. } => if *joint {
                ""
            } else {
                " "
            },
            _ => " ",
        }
    }
}

/// Appends a printed token.
fn push_token(token: &Token, fill: Fill, out: &mut String)
    ensures
        final(out)@ == old(out)@ + printed_token(*token, fill),
    decreases token,
{
    let ghost before = out@;
    match token {
        Token::Ident(name) => {
            out.append(name.as_str());
        },
        Token::Punct { mark, .. } => {
            out.push(*mark);
            assert(out@ =~= before + seq![*mark]);
        },
        Token::Literal(text) => {
            let blanked = match fill {
                Fill::Emptied => is_quoted_literal(text.as_str()),
                Fill::Marked => contains(text.as_str(), "\""),
            };
            if !blanked {
                out.append(text.as_str());
            } else {
                match fill {
                    Fill::Emptied => out.append("\"\""),
                    Fill::Marked => out.append(" __STRLIT__ "),
                }
            }
        },
        Token::Group { delimiter, tokens } => {
            let (open, close): (&str, &str) = match delimiter {
                Delimiter::Parenthesis => ("(", ")"),
                Delimiter::Brace => ("{ ", if tokens.len() == 0 { "}" } else { " }" }),
                Delimiter::Bracket => ("[", "]"),
                Delimiter::Invisible => ("", ""),
            };
            out.append(open);
            push_printed(tokens, fill, out);
            out.append(close);
            assert(out@ =~= before + (open@ + printed(tokens@, fill) + close@));
        },
    }
}

/// One token further, a printed stream is what was printed before it, the space
/// between, and the token.
proof fn lemma_printed_step(tokens: Seq<Token>, i: int, fill: Fill)
    requires
        0 <= i < tokens.len(),
    ensures
        printed(tokens.take(i + 1), fill) == printed(tokens.take(i), fill) + spacing(
            tokens.take(i),
        ) + printed_token(tokens[i], fill),
{
    assert(tokens.take(i + 1).drop_last() =~= tokens.take(i));
    assert(tokens.take(i + 1).last() == tokens[i]);
}

/// Appends a printed token stream.
fn push_printed(tokens: &Vec<Token>, fill: Fill, out: &mut String)
    ensures
        final(out)@ == old(out)@ + printed(tokens@, fill),
    decreases tokens,
{
    let ghost before = out@;
    let mut i: usize = 0;
    while i < tokens.len()
        invariant
            i <= tokens@.len(),
            out@ == before + printed(tokens@.take(i as int), fill),
        decreases tokens@.len() - i,
    {
        proof {
            lemma_printed_step(tokens@, i as int, fill);
        }
        out.append(get_spacing(tokens, i));
        push_token(&tokens[i], fill, out);
        assert(out@ =~= before + printed(tokens@.take(i as int + 1), fill));
        i = i + 1;
    }
    assert(tokens@.take(i as int) =~= tokens@);
}

/// Prints a token stream.
pub fn print_tokens(tokens: &Vec<Token>, fill: Fill) -> (r: String)
    ensures
        r@ == printed(tokens@, fill),
{
    let mut r = String::new();
    push_printed(tokens, fill, &mut r);
    assert(r@ =~= printed(tokens@, fill));
    r
}

/// A printed token stream, in which literals that are written with quotes are
/// empty strings.
pub fn code_string_of(tokens: &Vec<Token>) -> (r: String)
    ensures
        r@ == printed(tokens@, Fill::Emptied),
{
    print_tokens(tokens, Fill::Emptied)
}

/// Two token streams differ in what their strings say, and in nothing else.
pub open spec fn alike(one: Seq<Token>, other: Seq<Token>) -> bool
    decreases one,
{
    &&& one.len() == other.len()
    &&& one.len() > 0 ==> alike(one.drop_last(), other.drop_last()) && alike_tokens(
        one.last(),
        other.last(),
    )
}

/// Two tokens differ in what their strings say, and in nothing else.
pub open spec fn alike_tokens(one: Token, other: Token) -> bool
    decreases one,
{
    match (one, other) {
        (Token::Ident(a), Token::Ident(b)) => a@ == b@,
        (Token::Punct { .. }, Token::Punct { .. }) => one == other,
        (Token::Literal(a), Token::Literal(b)) => a@ == b@ || (mentions(a@, "\""@) && mentions(
            b@,
            "\""@,
        )),
        (
            Token::Group { delimiter: d, tokens: a },
            Token::Group { delimiter: e, tokens: b },
        ) => d == e && alike(a@, b@),
        _ => false,
    }
}

/// What strings say does not matter where they are printed as marks: token streams
/// that differ in that alone are printed alike.
pub proof fn law_strings_do_not_matter(one: Seq<Token>, other: Seq<Token>)
    requires
        alike(one, other),
    ensures
        printed(one, Fill::Marked) == printed(other, Fill::Marked),
    decreases one,
{
    if one.len() > 0 {
        law_strings_do_not_matter(one.drop_last(), other.drop_last());
        lemma_alike_token(one.last(), other.last());
        lemma_alike_spacing(one.drop_last(), other.drop_last());
    }
}

/// What stands behind token streams that are alike is the same.
proof fn lemma_alike_spacing(one: Seq<Token>, other: Seq<Token>)
    requires
        alike(one, other),
    ensures
        spacing(one) == spacing(other),
{
    if one.len() > 0 {
        assert(alike_tokens(one.last(), other.last()));
    }
}

/// Tokens that are alike are printed alike.
proof fn lemma_alike_token(one: Token, other: Token)
    requires
        alike_tokens(one, other),
    ensures
        printed_token(one, Fill::Marked) == printed_token(other, Fill::Marked),
    decreases one,
{
    match (one, other) {
        (
            Token::Group { delimiter: d, tokens: a },
            Token::Group { delimiter: e, tokens: b },
        ) => {
            law_strings_do_not_matter(a@, b@);
            assert(a@.len() == b@.len());
        },
        _ => {},
    }
}

} // verus!
