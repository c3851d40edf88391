//! Text predicates and rewrites, stated over sequences of characters.
use vstd::prelude::*;
use vstd::utf8::{encode_utf8, encode_utf8_decode_utf8};
use crate::search::{find_from, lemma_first_match, matches_at};

verus! {

/// `needle` occurs in `hay` at position `i`.
pub open spec fn occurs_at(hay: Seq<char>, needle: Seq<char>, i: int) -> bool {
    0 <= i <= hay.len() - needle.len() && hay.subrange(i, i + needle.len()) == needle
}

/// `needle` occurs somewhere in `hay`.
pub open spec fn mentions(hay: Seq<char>, needle: Seq<char>) -> bool {
    exists|i: int| #[trigger] occurs_at(hay, needle, i)
}

/// `s` starts with `head`.
pub open spec fn begins(s: Seq<char>, head: Seq<char>) -> bool {
    occurs_at(s, head, 0)
}

/// `s` ends with `tail`.
pub open spec fn ends(s: Seq<char>, tail: Seq<char>) -> bool {
    occurs_at(s, tail, s.len() - tail.len())
}

/// Some entry of `list` occurs in `hay`.
pub open spec fn mentions_any(hay: Seq<char>, list: Seq<&str>) -> bool {
    exists|i: int| 0 <= i < list.len() && mentions(hay, #[trigger] list[i]@)
}

/// `s` starts with some entry of `list`.
pub open spec fn begins_any(s: Seq<char>, list: Seq<&str>) -> bool {
    exists|i: int| 0 <= i < list.len() && begins(s, #[trigger] list[i]@)
}

/// `s` ends with some entry of `list`.
pub open spec fn ends_any(s: Seq<char>, list: Seq<&str>) -> bool {
    exists|i: int| 0 <= i < list.len() && ends(s, #[trigger] list[i]@)
}

/// `s` is one of the entries of `list`.
pub open spec fn is_any(s: Seq<char>, list: Seq<&str>) -> bool {
    exists|i: int| 0 <= i < list.len() && s == #[trigger] list[i]@
}

/// The texts of a list of strings.
pub open spec fn texts(list: Seq<String>) -> Seq<Seq<char>> {
    Seq::new(list.len(), |i: int| list[i]@)
}

/// Some text of `list` satisfies `p`.
pub open spec fn some_text(list: Seq<Seq<char>>, p: spec_fn(Seq<char>) -> bool) -> bool {
    exists|i: int| 0 <= i < list.len() && #[trigger] p(list[i])
}

/// An ASCII letter or digit.
pub open spec fn ascii_alphanumeric(c: char) -> bool {
    ('a' <= c && c <= 'z') || ('A' <= c && c <= 'Z') || ('0' <= c && c <= '9')
}

/// An ASCII capital letter, digit or underscore.
pub open spec fn screaming_char(c: char) -> bool {
    ('A' <= c && c <= 'Z') || ('0' <= c && c <= '9') || c == '_'
}

/// What `char::is_alphanumeric` answers beyond ASCII.
pub uninterp spec fn unicode_alphanumeric(c: char) -> bool;

/// What `char::is_alphabetic` answers beyond ASCII.
pub uninterp spec fn unicode_alphabetic(c: char) -> bool;

/// What `char::is_whitespace` answers beyond ASCII.
pub uninterp spec fn unicode_whitespace(c: char) -> bool;

/// What `str::to_lowercase` answers on text that is not all ASCII.
pub uninterp spec fn unicode_lowercase(s: Seq<char>) -> Seq<char>;

/// What `str::to_uppercase` answers on text that is not all ASCII.
pub uninterp spec fn unicode_uppercase(s: Seq<char>) -> Seq<char>;

/// An ASCII character.
pub open spec fn ascii(c: char) -> bool {
    (c as u32) < 128
}

/// A letter or a number.
pub open spec fn alphanumeric(c: char) -> bool {
    if ascii(c) { ascii_alphanumeric(c) } else { unicode_alphanumeric(c) }
}

/// A letter.
pub open spec fn alphabetic(c: char) -> bool {
    if ascii(c) {
        ('a' <= c && c <= 'z') || ('A' <= c && c <= 'Z')
    } else {
        unicode_alphabetic(c)
    }
}

/// White space.
pub open spec fn whitespace(c: char) -> bool {
    if ascii(c) {
        c as u32 == 32 || (9 <= c as u32 && c as u32 <= 13)
    } else {
        unicode_whitespace(c)
    }
}

/// A character that can stand inside an identifier.
pub open spec fn word_char(c: char) -> bool {
    alphanumeric(c) || c == '_'
}

/// A character that cannot stand inside an identifier.
pub open spec fn gap_char(c: char) -> bool {
    !word_char(c)
}

/// A character that stands in no ASCII identifier.
pub open spec fn ascii_gap(c: char) -> bool {
    !(ascii_alphanumeric(c) || c == '_')
}

/// The ASCII lower case of a character.
pub open spec fn ascii_lower_char(c: char) -> char {
    if 'A' <= c && c <= 'Z' { ((c as u32) + 32) as char } else { c }
}

/// The ASCII upper case of a character.
pub open spec fn ascii_upper_char(c: char) -> char {
    if 'a' <= c && c <= 'z' { ((c as u32) - 32) as char } else { c }
}

/// ASCII letters in lower case, everything else kept.
pub open spec fn ascii_lower(s: Seq<char>) -> Seq<char> {
    Seq::new(s.len(), |i: int| ascii_lower_char(s[i]))
}

/// ASCII letters in upper case, everything else kept.
pub open spec fn ascii_upper(s: Seq<char>) -> Seq<char> {
    Seq::new(s.len(), |i: int| ascii_upper_char(s[i]))
}

/// Every character of `s` is ASCII.
pub open spec fn all_ascii(s: Seq<char>) -> bool {
    forall|i: int| 0 <= i < s.len() ==> ascii(#[trigger] s[i])
}

/// The lower case of a text.
pub open spec fn lower(s: Seq<char>) -> Seq<char> {
    if all_ascii(s) { ascii_lower(s) } else { unicode_lowercase(s) }
}

/// The upper case of a text.
pub open spec fn upper(s: Seq<char>) -> Seq<char> {
    if all_ascii(s) { ascii_upper(s) } else { unicode_uppercase(s) }
}

/// The pieces of `s` between the characters that `sep` accepts, in order.
pub open spec fn split(s: Seq<char>, sep: spec_fn(char) -> bool) -> Seq<Seq<char>>
    decreases s.len(),
{
    if s.len() == 0 {
        seq![Seq::<char>::empty()]
    } else {
        let before = split(s.drop_last(), sep);
        if sep(s.last()) {
            before.push(Seq::<char>::empty())
        } else {
            before.drop_last().push(before.last().push(s.last()))
        }
    }
}

/// What of `s` stands in front of the first character that `sep` accepts.
pub open spec fn until(s: Seq<char>, sep: spec_fn(char) -> bool) -> Seq<char>
    decreases s.len(),
{
    if s.len() == 0 || sep(s[0]) {
        Seq::empty()
    } else {
        seq![s[0]] + until(s.drop_first(), sep)
    }
}

/// The last text of `list` that is not empty.
pub open spec fn last_nonempty(list: Seq<Seq<char>>) -> Option<Seq<char>>
    decreases list.len(),
{
    if list.len() == 0 {
        None
    } else if list.last().len() > 0 {
        Some(list.last())
    } else {
        last_nonempty(list.drop_last())
    }
}

/// The pieces of `s` between the characters that cannot stand in an identifier.
pub open spec fn words(s: Seq<char>) -> Seq<Seq<char>> {
    split(s, |c: char| gap_char(c))
}

/// `s` without its white space.
pub open spec fn compact(s: Seq<char>) -> Seq<char> {
    s.filter(|c: char| !whitespace(c))
}

/// `s` without the white space it ends with.
pub open spec fn trimmed_end(s: Seq<char>) -> Seq<char>
    decreases s.len(),
{
    if s.len() > 0 && whitespace(s.last()) { trimmed_end(s.drop_last()) } else { s }
}

/// `s` without the white space it starts with.
pub open spec fn trimmed_start(s: Seq<char>) -> Seq<char>
    decreases s.len(),
{
    if s.len() > 0 && whitespace(s.first()) { trimmed_start(s.drop_first()) } else { s }
}

/// `s` without the white space around it.
pub open spec fn trimmed(s: Seq<char>) -> Seq<char> {
    trimmed_end(trimmed_start(s))
}

/// A constant's spelling: capitals, digits and underscores, with at least one capital.
pub open spec fn screaming(s: Seq<char>) -> bool {
    &&& forall|i: int| 0 <= i < s.len() ==> screaming_char(#[trigger] s[i])
    &&& exists|i: int| 0 <= i < s.len() && 'A' <= #[trigger] s[i] && s[i] <= 'Z'
}

/// The decimal digit of a number below ten.
pub open spec fn digit(n: nat) -> char {
    ('0' as nat + n) as char
}

/// A number in decimal.
pub open spec fn numeral(n: nat) -> Seq<char>
    decreases n,
{
    if n < 10 {
        seq![digit(n)]
    } else {
        numeral(n / 10).push(digit(n % 10))
    }
}

/// Whether `needle` occurs in `hay`.
pub fn has_part(hay: &Vec<char>, needle: &Vec<char>) -> (b: bool)
    ensures
        b == mentions(hay@, needle@),
{
    proof {
        lemma_first_match(hay@, needle@, 0);
    }
    find_from(hay, needle, 0).is_some()
}

/// Whether `needle` occurs in `hay`.
pub fn contains(hay: &str, needle: &str) -> (b: bool)
    ensures
        b == mentions(hay@, needle@),
{
    has_part(&chars_of(hay), &chars_of(needle))
}

/// Whether `s` starts with `head`.
pub fn starts_with(s: &str, head: &str) -> (b: bool)
    ensures
        b == begins(s@, head@),
{
    let whole = chars_of(s);
    let part = chars_of(head);
    part.len() <= whole.len() && matches_at(&whole, &part, 0)
}

/// Whether `s` ends with `tail`.
pub fn ends_with(s: &str, tail: &str) -> (b: bool)
    ensures
        b == ends(s@, tail@),
{
    let whole = chars_of(s);
    let part = chars_of(tail);
    part.len() <= whole.len() && matches_at(&whole, &part, whole.len() - part.len())
}

/// Whether two texts hold the same characters.
pub fn same(a: &str, b: &str) -> (r: bool)
    ensures
        r == (a@ == b@),
{
    let left = a.as_bytes();
    let right = b.as_bytes();
    if left.len() != right.len() {
        return false;
    }
    let mut i: usize = 0;
    while i < left.len()
        invariant
            i <= left@.len(),
            left@ == encode_utf8(a@),
            right@ == encode_utf8(b@),
            left@.len() == right@.len(),
            forall|k: int| 0 <= k < i ==> left@[k] == right@[k],
        decreases left@.len() - i,
    {
        if left[i] != right[i] {
            return false;
        }
        i = i + 1;
    }
    proof {
        assert(left@ =~= right@);
        encode_utf8_decode_utf8(a@);
        encode_utf8_decode_utf8(b@);
    }
    true
}

/// `str::to_lowercase`: ASCII text has its capitals lowered one by one; what the
/// standard library's tables say of other text is left to `unicode_lowercase`.
#[verifier::external_body]
pub(crate) fn to_lowercase(s: &str) -> (r: String)
    ensures
        r@ == lower(s@),
        !all_ascii(s@) ==> r@ == unicode_lowercase(s@),
{
    s.to_lowercase()
}

/// `str::to_uppercase`: ASCII text has its small letters raised one by one; what the
/// standard library's tables say of other text is left to `unicode_uppercase`.
#[verifier::external_body]
pub(crate) fn to_uppercase(s: &str) -> (r: String)
    ensures
        r@ == upper(s@),
        !all_ascii(s@) ==> r@ == unicode_uppercase(s@),
{
    s.to_uppercase()
}

/// A text with its ASCII capitals lowered and everything else kept.
pub fn to_ascii_lowercase(s: &str) -> (r: String)
    ensures
        r@ == ascii_lower(s@),
{
    let chars = chars_of(s);
    let mut r = String::new();
    let mut i: usize = 0;
    while i < chars.len()
        invariant
            i <= chars@.len(),
            r@ == ascii_lower(chars@.take(i as int)),
        decreases chars@.len() - i,
    {
        let c = chars[i];
        if 'A' <= c && c <= 'Z' {
            r.push((c as u8 + 32) as char);
        } else {
            r.push(c);
        }
        i = i + 1;
        assert(r@ =~= ascii_lower(chars@.take(i as int)));
    }
    assert(chars@.take(i as int) =~= s@);
    r
}

/// `char::is_alphanumeric`: exact on ASCII, `unicode_alphanumeric` beyond it.
pub assume_specification[ char::is_alphanumeric ](c: char) -> (b: bool)
    ensures
        b == alphanumeric(c),
        !ascii(c) ==> b == unicode_alphanumeric(c),
;

/// `char::is_alphabetic`: exact on ASCII, `unicode_alphabetic` beyond it.
pub assume_specification[ char::is_alphabetic ](c: char) -> (b: bool)
    ensures
        b == alphabetic(c),
        !ascii(c) ==> b == unicode_alphabetic(c),
;

/// `char::is_whitespace`: exact on ASCII, `unicode_whitespace` beyond it.
pub assume_specification[ char::is_whitespace ](c: char) -> (b: bool)
    ensures
        b == whitespace(c),
        !ascii(c) ==> b == unicode_whitespace(c),
;

/// `String::push`: the character is appended.
pub assume_specification[ String::push ](s: &mut String, c: char)
    ensures
        final(s)@ == old(s)@.push(c),
;

/// Whether some entry of `list` occurs in `hay`.
pub fn contains_any(hay: &str, list: &[&str]) -> (b: bool)
    ensures
        b == mentions_any(hay@, list@),
{
    let chars = chars_of(hay);
    let mut i: usize = 0;
    while i < list.len()
        invariant
            i <= list@.len(),
            chars@ == hay@,
            forall|j: int| 0 <= j < i ==> !mentions(hay@, #[trigger] list@[j]@),
        decreases list@.len() - i,
    {
        if has_part(&chars, &chars_of(list[i])) {
            return true;
        }
        i = i + 1;
    }
    false
}

/// Whether `s` starts with some entry of `list`.
pub fn starts_with_any(s: &str, list: &[&str]) -> (b: bool)
    ensures
        b == begins_any(s@, list@),
{
    let mut i: usize = 0;
    while i < list.len()
        invariant
            i <= list@.len(),
            forall|j: int| 0 <= j < i ==> !begins(s@, #[trigger] list@[j]@),
        decreases list@.len() - i,
    {
        if starts_with(s, list[i]) {
            return true;
        }
        i = i + 1;
    }
    false
}

/// Whether `s` ends with some entry of `list`.
pub fn ends_with_any(s: &str, list: &[&str]) -> (b: bool)
    ensures
        b == ends_any(s@, list@),
{
    let mut i: usize = 0;
    while i < list.len()
        invariant
            i <= list@.len(),
            forall|j: int| 0 <= j < i ==> !ends(s@, #[trigger] list@[j]@),
        decreases list@.len() - i,
    {
        if ends_with(s, list[i]) {
            return true;
        }
        i = i + 1;
    }
    false
}

/// Whether `s` is one of the entries of `list`.
pub fn same_as_any(s: &str, list: &[&str]) -> (b: bool)
    ensures
        b == is_any(s@, list@),
{
    let mut i: usize = 0;
    while i < list.len()
        invariant
            i <= list@.len(),
            forall|j: int| 0 <= j < i ==> s@ != #[trigger] list@[j]@,
        decreases list@.len() - i,
    {
        if same(s, list[i]) {
            return true;
        }
        i = i + 1;
    }
    false
}

/// Whether `s` is one of the strings in `list`.
pub fn listed(list: &Vec<String>, s: &str) -> (b: bool)
    ensures
        b == texts(list@).contains(s@),
{
    let mut i: usize = 0;
    while i < list.len()
        invariant
            i <= list@.len(),
            forall|j: int| 0 <= j < i ==> list@[j]@ != s@,
        decreases list@.len() - i,
    {
        if same(list[i].as_str(), s) {
            assert(texts(list@)[i as int] == s@);
            return true;
        }
        i = i + 1;
    }
    false
}

/// Whether some string of `list` satisfies `p`.
pub(crate) fn any_text<F: Fn(&str) -> bool>(
    list: &Vec<String>,
    test: F,
    Ghost(p): Ghost<spec_fn(Seq<char>) -> bool>,
) -> (b: bool)
    requires
        forall|s: &str| #[trigger] call_requires(test, (s,)),
        forall|s: &str, r: bool| #[trigger] call_ensures(test, (s,), r) ==> r == p(s@),
    ensures
        b == some_text(texts(list@), p),
{
    let mut i: usize = 0;
    while i < list.len()
        invariant
            i <= list@.len(),
            forall|s: &str| #[trigger] call_requires(test, (s,)),
            forall|s: &str, r: bool| #[trigger] call_ensures(test, (s,), r) ==> r == p(s@),
            forall|j: int| 0 <= j < i ==> !#[trigger] p(texts(list@)[j]),
        decreases list@.len() - i,
    {
        if test(list[i].as_str()) {
            assert(p(texts(list@)[i as int]));
            return true;
        }
        i = i + 1;
    }
    false
}

/// The characters of a text.
pub fn chars_of(s: &str) -> (r: Vec<char>)
    ensures
        r@ == s@,
{
    let mut r: Vec<char> = Vec::new();
    for c in it: s.chars()
        invariant
            r@ == it.seq().take(it.index() as int),
            it.seq() == s@,
    {
        r.push(c);
    }
    r
}

/// The text made of some characters.
pub fn text_of(chars: &Vec<char>) -> (r: String)
    ensures
        r@ == chars@,
{
    let mut r = String::new();
    let mut i: usize = 0;
    while i < chars.len()
        invariant
            i <= chars@.len(),
            r@ == chars@.take(i as int),
        decreases chars@.len() - i,
    {
        r.push(chars[i]);
        i = i + 1;
    }
    assert(chars@.take(i as int) =~= chars@);
    r
}

/// The pieces of `s` between the characters that `sep` accepts, in order.
pub(crate) fn split_text<F: Fn(char) -> bool>(
    s: &str,
    sep: F,
    Ghost(p): Ghost<spec_fn(char) -> bool>,
) -> (r: Vec<String>)
    requires
        forall|c: char| #[trigger] call_requires(sep, (c,)),
        forall|c: char, b: bool| #[trigger] call_ensures(sep, (c,), b) ==> b == p(c),
    ensures
        texts(r@) == split(s@, p),
{
    let chars = chars_of(s);
    let mut done: Vec<String> = Vec::new();
    let mut last = String::new();
    let mut i: usize = 0;
    assert(split(s@.take(0), p) =~= seq![Seq::<char>::empty()]);
    while i < chars.len()
        invariant
            i <= chars@.len(),
            chars@ == s@,
            forall|c: char| #[trigger] call_requires(sep, (c,)),
            forall|c: char, b: bool| #[trigger] call_ensures(sep, (c,), b) ==> b == p(c),
            texts(done@).push(last@) == split(s@.take(i as int), p),
        decreases chars@.len() - i,
    {
        let c = chars[i];
        let ghost before = split(s@.take(i as int), p);
        assert(s@.take(i as int + 1).drop_last() =~= s@.take(i as int));
        assert(before.drop_last() =~= texts(done@));
        if sep(c) {
            done.push(last);
            assert(texts(done@) =~= before);
            last = String::new();
        } else {
            last.push(c);
        }
        assert(texts(done@).push(last@) =~= split(s@.take(i as int + 1), p));
        i = i + 1;
    }
    assert(s@.take(i as int) =~= s@);
    done.push(last);
    assert(texts(done@) =~= split(s@, p));
    done
}

/// The identifier-like words of a text, with the empty pieces between them.
pub fn words_of(s: &str) -> (r: Vec<String>)
    ensures
        texts(r@) == words(s@),
{
    split_text(
        s,
        |c: char| -> (b: bool)
            ensures
                b == gap_char(c)
        {
            !(c.is_alphanumeric() || c == '_')
        },
        Ghost(|c: char| gap_char(c)),
    )
}

/// The ASCII identifiers of a text, with the empty pieces between them.
pub fn ascii_words_of(s: &str) -> (r: Vec<String>)
    ensures
        texts(r@) == split(s@, |c: char| ascii_gap(c)),
{
    split_text(
        s,
        |c: char| -> (b: bool)
            ensures
                b == ascii_gap(c)
        {
            !(('a' <= c && c <= 'z') || ('A' <= c && c <= 'Z') || ('0' <= c && c <= '9') || c
                == '_')
        },
        Ghost(|c: char| ascii_gap(c)),
    )
}

/// `s` without its white space.
pub fn compacted(s: &str) -> (r: String)
    ensures
        r@ == compact(s@),
{
    let chars = chars_of(s);
    let mut r = String::new();
    let mut i: usize = 0;
    let ghost keep = |c: char| !whitespace(c);
    assert(s@.take(0).filter(keep) =~= Seq::<char>::empty()) by {
        reveal(Seq::filter);
    }
    while i < chars.len()
        invariant
            i <= chars@.len(),
            chars@ == s@,
            keep == (|c: char| !whitespace(c)),
            r@ == s@.take(i as int).filter(keep),
        decreases chars@.len() - i,
    {
        proof {
            reveal(Seq::filter);
            assert(s@.take(i as int + 1).drop_last() =~= s@.take(i as int));
            assert(s@.take(i as int + 1).last() == chars@[i as int]);
        }
        if !chars[i].is_whitespace() {
            r.push(chars[i]);
        }
        i = i + 1;
    }
    assert(s@.take(i as int) =~= s@);
    r
}

/// `s` without the white space around it.
pub fn trim_text(s: &Vec<char>) -> (r: String)
    ensures
        r@ == trimmed(s@),
{
    let mut from: usize = 0;
    assert(s@.skip(0) =~= s@);
    while from < s.len() && s[from].is_whitespace()
        invariant
            from <= s@.len(),
            trimmed_start(s@) == trimmed_start(s@.skip(from as int)),
        decreases s@.len() - from,
    {
        assert(s@.skip(from as int).drop_first() =~= s@.skip(from as int + 1));
        from = from + 1;
        assert(trimmed_start(s@) == trimmed_start(s@.skip(from as int)));
    }
    let ghost body = s@.skip(from as int);
    assert(trimmed_start(s@) == body);
    let mut to: usize = s.len();
    assert(s@.subrange(from as int, to as int) =~= body);
    while to > from && s[to - 1].is_whitespace()
        invariant
            from <= to <= s@.len(),
            trimmed_end(body) == trimmed_end(s@.subrange(from as int, to as int)),
        decreases to,
    {
        assert(s@.subrange(from as int, to as int).drop_last() =~= s@.subrange(
            from as int,
            to as int - 1,
        ));
        to = to - 1;
    }
    let mut r = String::new();
    let mut i: usize = from;
    while i < to
        invariant
            from <= i <= to <= s@.len(),
            r@ == s@.subrange(from as int, i as int),
        decreases to - i,
    {
        r.push(s[i]);
        i = i + 1;
    }
    r
}

/// The text of `a` followed by that of `b`.
pub fn join2(a: &str, b: &str) -> (r: String)
    ensures
        r@ == a@ + b@,
{
    let mut r = a.to_owned();
    r.append(b);
    r
}

/// Three texts in a row.
pub fn join3(a: &str, b: &str, c: &str) -> (r: String)
    ensures
        r@ == a@ + b@ + c@,
{
    let mut r = a.to_owned();
    r.append(b);
    r.append(c);
    r
}

/// Five texts in a row.
pub fn join5(a: &str, b: &str, c: &str, d: &str, e: &str) -> (r: String)
    ensures
        r@ == a@ + b@ + c@ + d@ + e@,
{
    let mut r = join3(a, b, c);
    r.append(d);
    r.append(e);
    r
}

/// Whether `s` is spelled like a constant.
pub fn is_screaming_snake(s: &str) -> (b: bool)
    ensures
        b == screaming(s@),
{
    let chars = chars_of(s);
    let mut capital = false;
    let mut i: usize = 0;
    while i < chars.len()
        invariant
            i <= chars@.len(),
            chars@ == s@,
            forall|j: int| 0 <= j < i ==> screaming_char(#[trigger] s@[j]),
            capital == exists|j: int| 0 <= j < i && 'A' <= #[trigger] s@[j] && s@[j] <= 'Z',
        decreases chars@.len() - i,
    {
        let c = chars[i];
        if 'A' <= c && c <= 'Z' {
            assert('A' <= s@[i as int] && s@[i as int] <= 'Z');
            capital = true;
        } else if !('0' <= c && c <= '9') && c != '_' {
            assert(!screaming_char(s@[i as int]));
            return false;
        }
        i = i + 1;
    }
    capital
}

/// What of `s`, from `from` on, stands in front of the first character that `sep`
/// accepts.
pub(crate) fn until_text<F: Fn(char) -> bool>(
    s: &Vec<char>,
    from: usize,
    sep: F,
    Ghost(p): Ghost<spec_fn(char) -> bool>,
) -> (r: Vec<char>)
    requires
        from <= s@.len(),
        forall|c: char| #[trigger] call_requires(sep, (c,)),
        forall|c: char, b: bool| #[trigger] call_ensures(sep, (c,), b) ==> b == p(c),
    ensures
        r@ == until(s@.skip(from as int), p),
{
    let mut r: Vec<char> = Vec::new();
    let mut i: usize = from;
    let ghost whole = until(s@.skip(from as int), p);
    while i < s.len()
        invariant
            from <= i <= s@.len(),
            forall|c: char| #[trigger] call_requires(sep, (c,)),
            forall|c: char, b: bool| #[trigger] call_ensures(sep, (c,), b) ==> b == p(c),
            whole == until(s@.skip(from as int), p),
            whole == r@ + until(s@.skip(i as int), p),
        decreases s@.len() - i,
    {
        let ghost rest = s@.skip(i as int);
        assert(rest.drop_first() =~= s@.skip(i as int + 1));
        assert(rest[0] == s@[i as int]);
        if sep(s[i]) {
            assert(r@ =~= whole);
            return r;
        }
        let ghost was = r@;
        r.push(s[i]);
        assert(whole =~= r@ + until(s@.skip(i as int + 1), p));
        i = i + 1;
    }
    assert(r@ =~= whole);
    r
}

/// Writes a number in decimal.
pub fn number_text(n: usize) -> (r: String)
    ensures
        r@ == numeral(n as nat),
    decreases n,
{
    let last: usize = n % 10;
    let mut r: String = if n < 10 { String::new() } else { number_text(n / 10) };
    r.push((48 + last as u8) as char);
    assert(r@ =~= numeral(n as nat));
    r
}

/// The characters from `from` up to `to`.
pub(crate) fn slice_of(s: &Vec<char>, from: usize, to: usize) -> (r: Vec<char>)
    requires
        from <= to <= s@.len(),
    ensures
        r@ == s@.subrange(from as int, to as int),
{
    let mut r: Vec<char> = Vec::new();
    let mut i: usize = from;
    while i < to
        invariant
            from <= i <= to <= s@.len(),
            r@ == s@.subrange(from as int, i as int),
        decreases to - i,
    {
        r.push(s[i]);
        i = i + 1;
    }
    r
}

/// A text made of three holds the middle one.
pub proof fn lemma_holds_middle(whole: Seq<char>, a: Seq<char>, b: Seq<char>, c: Seq<char>)
    requires
        whole == a + b + c,
    ensures
        mentions(whole, b),
{
    assert(whole.subrange(a.len() as int, a.len() as int + b.len()) =~= b);
    assert(occurs_at(whole, b, a.len() as int));
}

/// What occurs in a part of a text occurs in the text: to mention something is never
/// undone by what stands around it.
pub proof fn law_mentions_grow(a: Seq<char>, b: Seq<char>, c: Seq<char>, needle: Seq<char>)
    requires
        mentions(b, needle),
    ensures
        mentions(a + b + c, needle),
{
    let i = choose|i: int| #[trigger] occurs_at(b, needle, i);
    let whole = a + b + c;
    let k = a.len() as int + i;
    assert(whole.subrange(k, k + needle.len()) =~= b.subrange(i, i + needle.len()));
    assert(occurs_at(whole, needle, k));
}

} // verus!
