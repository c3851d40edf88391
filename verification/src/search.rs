//! Left-to-right search in a text.
use vstd::prelude::*;
use crate::text::{chars_of, occurs_at, text_of, whitespace, word_char};

verus! {

/// The first place, at or behind `from`, where `needle` occurs in `hay`.
pub open spec fn first_match(hay: Seq<char>, needle: Seq<char>, from: int) -> Option<int>
    decreases hay.len() - from + 1,
{
    if from < 0 || from > hay.len() - needle.len() {
        None
    } else if occurs_at(hay, needle, from) {
        Some(from)
    } else {
        first_match(hay, needle, from + 1)
    }
}

/// What stands at `i`, `n` characters long, is no part of a longer identifier.
pub open spec fn stands_alone(s: Seq<char>, i: int, n: int) -> bool {
    &&& i == 0 || !word_char(s[i - 1])
    &&& i + n == s.len() || !word_char(s[i + n])
}

/// Going from left to right through the occurrences of `needle` that do not
/// overlap, from `from` on, one stands alone.
pub open spec fn match_alone(hay: Seq<char>, needle: Seq<char>, from: int) -> bool
    decreases hay.len() - from,
{
    if needle.len() == 0 {
        false
    } else {
        match first_match(hay, needle, from) {
            Some(i) => if from <= i <= hay.len() - needle.len() {
                stands_alone(hay, i, needle.len() as int) || match_alone(
                    hay,
                    needle,
                    i + needle.len(),
                )
            } else {
                false
            },
            None => false,
        }
    }
}

/// What is left of `s` from `from` on when each occurrence of `needle`, taken
/// from left to right without overlap, is replaced by `with`.
pub open spec fn replaced(s: Seq<char>, needle: Seq<char>, with: Seq<char>, from: int) -> Seq<char>
    decreases s.len() - from,
{
    match first_match(s, needle, from) {
        Some(i) => if needle.len() > 0 && from <= i <= s.len() - needle.len() {
            s.subrange(from, i) + with + replaced(s, needle, with, i + needle.len())
        } else {
            s.subrange(from, s.len() as int)
        },
        None => s.subrange(from, s.len() as int),
    }
}

/// A first match lies at or behind the place where the search starts, and is one.
pub proof fn lemma_first_match(hay: Seq<char>, needle: Seq<char>, from: int)
    ensures
        first_match(hay, needle, from) matches Some(i) ==> from <= i && occurs_at(hay, needle, i),
        first_match(hay, needle, from) matches Some(i) ==> forall|k: int|
            from <= k < i ==> !#[trigger] occurs_at(hay, needle, k),
        from >= 0 && first_match(hay, needle, from) is None ==> forall|k: int|
            from <= k ==> !#[trigger] occurs_at(hay, needle, k),
    decreases hay.len() - from + 1,
{
    if from < 0 || from > hay.len() - needle.len() {
    } else if occurs_at(hay, needle, from) {
    } else {
        lemma_first_match(hay, needle, from + 1);
    }
}

/// Whether `needle` occurs in `hay` at `i`.
pub fn matches_at(hay: &Vec<char>, needle: &Vec<char>, i: usize) -> (b: bool)
    requires
        i + needle@.len() <= hay@.len(),
    ensures
        b == occurs_at(hay@, needle@, i as int),
{
    let total = hay.len();
    let mut k: usize = 0;
    while k < needle.len()
        invariant
            k <= needle@.len(),
            total == hay@.len(),
            i + needle@.len() <= hay@.len(),
            forall|j: int| 0 <= j < k ==> hay@[i + j] == #[trigger] needle@[j],
        decreases needle@.len() - k,
    {
        if hay[i + k] != needle[k] {
            assert(hay@.subrange(i as int, i + needle@.len())[k as int] != needle@[k as int]);
            return false;
        }
        k = k + 1;
    }
    assert(hay@.subrange(i as int, i + needle@.len()) =~= needle@);
    true
}

/// Finds the first place, at or behind `from`, where `needle` occurs in `hay`.
pub fn find_from(hay: &Vec<char>, needle: &Vec<char>, from: usize) -> (r: Option<usize>)
    ensures
        match r {
            Some(i) => first_match(hay@, needle@, from as int) == Some(i as int),
            None => first_match(hay@, needle@, from as int) is None,
        },
{
    if needle.len() > hay.len() {
        return None;
    }
    let last: usize = hay.len() - needle.len();
    let mut i: usize = from;
    while i <= last
        invariant
            last == hay@.len() - needle@.len(),
            from <= i,
            first_match(hay@, needle@, from as int) == first_match(hay@, needle@, i as int),
        decreases last + 1 - i,
    {
        if matches_at(hay, needle, i) {
            return Some(i);
        }
        if i == usize::MAX {
            assert(first_match(hay@, needle@, i + 1) is None);
            return None;
        }
        i = i + 1;
    }
    None
}

/// `s` with each occurrence of `needle`, taken from left to right without
/// overlap, replaced by `with`.
pub fn replace_all(s: &str, needle: &str, with: &str) -> (r: String)
    requires
        needle@.len() > 0,
    ensures
        r@ == replaced(s@, needle@, with@, 0),
{
    let hay = chars_of(s);
    let sought = chars_of(needle);
    let fill = chars_of(with);
    let total = hay.len();
    let mut out: Vec<char> = Vec::new();
    let mut from: usize = 0;
    loop
        invariant
            hay@ == s@,
            total == hay@.len(),
            sought@ == needle@,
            fill@ == with@,
            sought@.len() > 0,
            from <= hay@.len(),
            replaced(s@, needle@, with@, 0) == out@ + replaced(s@, needle@, with@, from as int),
        decreases hay@.len() - from,
    {
        proof {
            lemma_first_match(hay@, sought@, from as int);
        }
        let found = find_from(&hay, &sought, from);
        let stop: usize = match found {
            Some(i) => i,
            None => hay.len(),
        };
        let ghost before = out@;
        let mut k: usize = from;
        while k < stop
            invariant
                from <= k <= stop <= hay@.len(),
                out@ == before + hay@.subrange(from as int, k as int),
            decreases stop - k,
        {
            out.push(hay[k]);
            k = k + 1;
        }
        match found {
            Some(i) => {
                let ghost middle = out@;
                let mut f: usize = 0;
                while f < fill.len()
                    invariant
                        f <= fill@.len(),
                        out@ == middle + fill@.take(f as int),
                    decreases fill@.len() - f,
                {
                    out.push(fill[f]);
                    f = f + 1;
                }
                assert(fill@.take(f as int) =~= fill@);
                let next: usize = i + sought.len();
                assert(out@ + replaced(s@, needle@, with@, next as int) =~= before + replaced(
                    s@,
                    needle@,
                    with@,
                    from as int,
                ));
                from = next;
            },
            None => {
                return text_of(&out);
            },
        }
    }
}

/// Whether, going from left to right through the occurrences of `needle` that do
/// not overlap, one stands alone.
pub fn finds_alone(s: &str, needle: &str) -> (b: bool)
    ensures
        b == match_alone(s@, needle@, 0),
{
    let hay = chars_of(s);
    let sought = chars_of(needle);
    if sought.len() == 0 {
        return false;
    }
    let total = hay.len();
    let mut from: usize = 0;
    loop
        invariant
            hay@ == s@,
            total == hay@.len(),
            sought@ == needle@,
            sought@.len() > 0,
            from <= hay@.len(),
            match_alone(s@, needle@, 0) == match_alone(s@, needle@, from as int),
        decreases hay@.len() - from,
    {
        proof {
            lemma_first_match(hay@, sought@, from as int);
        }
        match find_from(&hay, &sought, from) {
            Some(i) => {
                let end: usize = i + sought.len();
                let left = i == 0 || !(hay[i - 1].is_alphanumeric() || hay[i - 1] == '_');
                let right = end == hay.len() || !(hay[end].is_alphanumeric() || hay[end] == '_');
                if left && right {
                    return true;
                }
                from = end;
            },
            None => {
                return false;
            },
        }
    }
}

/// `needle` occurs in `hay` at `i`, and no identifier goes on behind it.
pub open spec fn ended_at(hay: Seq<char>, needle: Seq<char>, i: int) -> bool {
    &&& occurs_at(hay, needle, i)
    &&& i + needle.len() == hay.len() || !word_char(hay[i + needle.len()])
}

/// `needle` occurs somewhere in `hay` with no identifier going on behind it.
pub open spec fn mentions_ended(hay: Seq<char>, needle: Seq<char>) -> bool {
    exists|i: int| #[trigger] ended_at(hay, needle, i)
}

/// Whether `needle` occurs somewhere in `s` with no identifier going on behind it.
pub fn finds_ended(s: &str, needle: &str) -> (b: bool)
    ensures
        b == mentions_ended(s@, needle@),
{
    let hay = chars_of(s);
    let sought = chars_of(needle);
    if sought.len() > hay.len() {
        return false;
    }
    let last: usize = hay.len() - sought.len();
    let mut i: usize = 0;
    while i <= last
        invariant
            hay@ == s@,
            sought@ == needle@,
            last == hay@.len() - sought@.len(),
            hay@.len() <= usize::MAX,
            forall|j: int| 0 <= j < i ==> !#[trigger] ended_at(s@, needle@, j),
        decreases last + 1 - i,
    {
        if matches_at(&hay, &sought, i) {
            let end: usize = i + sought.len();
            if end == hay.len() || !(hay[end].is_alphanumeric() || hay[end] == '_') {
                assert(ended_at(s@, needle@, i as int));
                return true;
            }
        }
        if i == usize::MAX {
            return false;
        }
        i = i + 1;
    }
    false
}

/// The first character at or behind `i` that is no white space.
pub open spec fn next_mark(s: Seq<char>, i: int) -> Option<char>
    decreases s.len() - i,
{
    if i < 0 || i >= s.len() {
        None
    } else if whitespace(s[i]) {
        next_mark(s, i + 1)
    } else {
        Some(s[i])
    }
}

/// The last character in front of `i` that is no white space.
pub open spec fn previous_mark(s: Seq<char>, i: int) -> Option<char>
    decreases i,
{
    if i <= 0 || i > s.len() {
        None
    } else if whitespace(s[i - 1]) {
        previous_mark(s, i - 1)
    } else {
        Some(s[i - 1])
    }
}

/// The first character at or behind `i` that is no white space.
pub fn get_next_mark(s: &Vec<char>, i: usize) -> (r: Option<char>)
    ensures
        r == next_mark(s@, i as int),
{
    let mut k: usize = i;
    while k < s.len()
        invariant
            next_mark(s@, i as int) == next_mark(s@, k as int),
        decreases s@.len() - k,
    {
        if !s[k].is_whitespace() {
            return Some(s[k]);
        }
        k = k + 1;
    }
    None
}

/// The last character in front of `i` that is no white space.
pub fn get_previous_mark(s: &Vec<char>, i: usize) -> (r: Option<char>)
    requires
        i <= s@.len(),
    ensures
        r == previous_mark(s@, i as int),
{
    let mut k: usize = i;
    while k > 0
        invariant
            k <= s@.len(),
            previous_mark(s@, i as int) == previous_mark(s@, k as int),
        decreases k,
    {
        if !s[k - 1].is_whitespace() {
            return Some(s[k - 1]);
        }
        k = k - 1;
    }
    None
}

/// `needle` occurs in `hay` at `i`, and is no part of a longer identifier there.
pub open spec fn alone_at(hay: Seq<char>, needle: Seq<char>, i: int) -> bool {
    occurs_at(hay, needle, i) && stands_alone(hay, i, needle.len() as int)
}

/// The text could be an identifier.
pub open spec fn wordlike(s: Seq<char>) -> bool {
    s.len() > 0 && forall|i: int| 0 <= i < s.len() ==> word_char(#[trigger] s[i])
}

/// An identifier is found exactly where it stands alone somewhere: that the search
/// takes occurrences from left to right without overlap loses none that counts.
pub proof fn law_whole_identifiers(hay: Seq<char>, needle: Seq<char>)
    requires
        wordlike(needle),
    ensures
        match_alone(hay, needle, 0) <==> exists|i: int| #[trigger] alone_at(hay, needle, i),
{
    if match_alone(hay, needle, 0) {
        lemma_alone_found(hay, needle, 0);
    }
    if exists|i: int| #[trigger] alone_at(hay, needle, i) {
        let i = choose|i: int| #[trigger] alone_at(hay, needle, i);
        lemma_alone_not_missed(hay, needle, 0, i);
    }
}

/// What the search finds stands alone.
proof fn lemma_alone_found(hay: Seq<char>, needle: Seq<char>, from: int)
    requires
        match_alone(hay, needle, from),
    ensures
        exists|i: int| #[trigger] alone_at(hay, needle, i),
    decreases hay.len() - from,
{
    lemma_first_match(hay, needle, from);
    let i = first_match(hay, needle, from)->0;
    if stands_alone(hay, i, needle.len() as int) {
        assert(alone_at(hay, needle, i));
    } else {
        lemma_alone_found(hay, needle, i + needle.len());
    }
}

/// The search does not miss what stands alone.
proof fn lemma_alone_not_missed(hay: Seq<char>, needle: Seq<char>, from: int, k: int)
    requires
        wordlike(needle),
        0 <= from <= k,
        alone_at(hay, needle, k),
    ensures
        match_alone(hay, needle, from),
    decreases hay.len() - from,
{
    lemma_first_match(hay, needle, from);
    let i = first_match(hay, needle, from)->0;
    if i < k {
        if k < i + needle.len() {
            assert(hay.subrange(i, i + needle.len())[k - 1 - i] == needle[k - 1 - i]);
            assert(word_char(hay[k - 1]));
        }
        lemma_alone_not_missed(hay, needle, i + needle.len(), k);
    }
}

/// The identifier `word` stands at `i`, and the next character that is no white
/// space is `mark`.
pub open spec fn marked_at(code: Seq<char>, word: Seq<char>, mark: char, i: int) -> bool {
    alone_at(code, word, i) && next_mark(code, i + word.len()) == Some(mark)
}

/// The identifier `word` stands somewhere in front of `mark`.
pub open spec fn marked(code: Seq<char>, word: Seq<char>, mark: char) -> bool {
    exists|i: int| #[trigger] marked_at(code, word, mark, i)
}

/// The identifier `word` stands at `i` in front of `mark`, and does so nowhere before.
pub open spec fn first_marked_at(code: Seq<char>, word: Seq<char>, mark: char, i: int) -> bool {
    &&& marked_at(code, word, mark, i)
    &&& forall|j: int| j < i ==> !#[trigger] marked_at(code, word, mark, j)
}

/// The first place where the identifier `word` stands in front of `mark`.
pub open spec fn first_marked(code: Seq<char>, word: Seq<char>, mark: char) -> Option<int> {
    if marked(code, word, mark) {
        Some(choose|i: int| #[trigger] first_marked_at(code, word, mark, i))
    } else {
        None
    }
}

/// Finds the first place where the identifier `word` stands in front of `mark`.
pub fn find_marked(code: &Vec<char>, word: &Vec<char>, mark: char) -> (r: Option<usize>)
    ensures
        match r {
            Some(i) => first_marked(code@, word@, mark) == Some(i as int) && i + word@.len()
                <= code@.len(),
            None => first_marked(code@, word@, mark) is None,
        },
{
    if word.len() > code.len() {
        return None;
    }
    let last: usize = code.len() - word.len();
    let mut i: usize = 0;
    while i <= last
        invariant
            last == code@.len() - word@.len(),
            code@.len() <= usize::MAX,
            forall|j: int| j < i ==> !#[trigger] marked_at(code@, word@, mark, j),
        decreases last + 1 - i,
    {
        if matches_at(code, word, i) {
            let end: usize = i + word.len();
            let left = i == 0 || !(code[i - 1].is_alphanumeric() || code[i - 1] == '_');
            let right = end == code.len() || !(code[end].is_alphanumeric() || code[end] == '_');
            let follows = match get_next_mark(code, end) {
                Some(c) => c == mark,
                None => false,
            };
            if left && right && follows {
                proof {
                    let first = choose|k: int| #[trigger] first_marked_at(code@, word@, mark, k);
                    assert(first_marked_at(code@, word@, mark, i as int));
                    assert(first_marked_at(code@, word@, mark, first));
                    assert(first == i);
                }
                return Some(i);
            }
        }
        assert(!marked_at(code@, word@, mark, i as int));
        if i == usize::MAX {
            return None;
        }
        i = i + 1;
    }
    None
}

/// Whether the identifier `word` stands somewhere in front of `mark`.
pub fn finds_marked(code: &str, word: &str, mark: char) -> (b: bool)
    ensures
        b == marked(code@, word@, mark),
{
    find_marked(&chars_of(code), &chars_of(word), mark).is_some()
}

} // verus!
