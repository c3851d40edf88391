//! Printed code without what its literals say.
use vstd::prelude::*;
use vstd::utf8::{encode_scalar, encode_utf8};
use crate::text::{chars_of, is_any, same_as_any, text_of, word_char};

verus! {

/// Where a scan through printed code stands.
#[derive(Clone, Copy, Debug, PartialEq, Eq, Structural)]
pub enum Mode {
    /// Outside of every literal.
    Code,
    /// Inside a string; `escaped` says that a backslash stands in front.
    Text { escaped: bool },
    /// Inside a raw string with so many marks behind its closing quote.
    Raw { hashes: usize },
    /// Behind a quote inside a raw string, with so many marks still to come.
    RawEnd { hashes: usize, left: usize },
    /// Behind a single quote, which opens a character or a lifetime.
    Tick,
    /// One character further.
    Ticked,
    /// Inside a character; `escaped` says that a backslash stands in front.
    Letter { escaped: bool },
}

/// The state of a scan: the code kept so far, and where the scan stands.
pub struct Scan {
    pub kept: Seq<char>,
    pub mode: Mode,
}

/// What stands in front of the quote of a raw string, but for the marks.
pub const RAW_PREFIXES: [&'static str; 3] = ["r", "br", "cr"];

/// What stands in front of the quote of any other string or character.
pub const PREFIXES: [&'static str; 2] = ["b", "c"];

/// The number of marks that `s` ends with.
pub open spec fn hashes(s: Seq<char>) -> nat
    decreases s.len(),
{
    if s.len() > 0 && s.last() == '#' { hashes(s.drop_last()) + 1 } else { 0 }
}

/// The identifier that `s` ends with.
pub open spec fn last_ident(s: Seq<char>) -> Seq<char>
    decreases s.len(),
{
    if s.len() > 0 && word_char(s.last()) {
        last_ident(s.drop_last()).push(s.last())
    } else {
        Seq::empty()
    }
}

/// `s` without its last `n` characters.
pub open spec fn shortened(s: Seq<char>, n: int) -> Seq<char> {
    if 0 <= n <= s.len() { s.take(s.len() - n) } else { Seq::empty() }
}

/// The identifier that `s` ends with, if it is not the name of a lifetime.
pub open spec fn free_ident(s: Seq<char>) -> Seq<char> {
    let word = last_ident(s);
    if word.len() < s.len() && s[s.len() - word.len() - 1] == '\'' { Seq::empty() } else { word }
}

/// The identifier in front of the marks that `s` ends with, if it is not the name of a
/// lifetime.
pub open spec fn marked_ident(s: Seq<char>) -> Seq<char> {
    free_ident(shortened(s, hashes(s) as int))
}

/// A string opens behind the code `kept`. Its prefix is no code.
pub open spec fn opened(kept: Seq<char>) -> Scan {
    if marked_ident(kept).len() > 0 && is_any(marked_ident(kept), RAW_PREFIXES@) {
        Scan {
            kept: shortened(kept, (hashes(kept) + marked_ident(kept).len()) as int),
            mode: Mode::Raw { hashes: hashes(kept) as usize },
        }
    } else {
        Scan { kept: unprefixed(kept), mode: Mode::Text { escaped: false } }
    }
}

/// The code without the prefix of a literal that opens behind it.
pub open spec fn unprefixed(kept: Seq<char>) -> Seq<char> {
    if free_ident(kept).len() > 0 && is_any(free_ident(kept), PREFIXES@) {
        shortened(kept, free_ident(kept).len() as int)
    } else {
        kept
    }
}

/// One more character of code.
pub open spec fn code_step(kept: Seq<char>, c: char) -> Scan {
    if c == '"' {
        opened(kept)
    } else if c == '\'' {
        Scan { kept: kept.push(c), mode: Mode::Tick }
    } else {
        Scan { kept: kept.push(c), mode: Mode::Code }
    }
}

/// A literal closes behind the code `kept`, and leaves a blank.
pub open spec fn closed(kept: Seq<char>) -> Scan {
    Scan { kept: kept.push(' '), mode: Mode::Code }
}

/// One more character. Where `letters` is set, characters are code, and only
/// strings are literals.
pub open spec fn step(scan: Scan, c: char, letters: bool) -> Scan {
    match scan.mode {
        Mode::Code => code_step(scan.kept, c),
        Mode::Text { escaped } => if escaped {
            Scan { mode: Mode::Text { escaped: false }, ..scan }
        } else if c == '"' {
            closed(scan.kept)
        } else {
            Scan { mode: Mode::Text { escaped: c == '\\' }, ..scan }
        },
        Mode::Raw { hashes } => if c != '"' {
            scan
        } else if hashes == 0 {
            closed(scan.kept)
        } else {
            Scan { mode: Mode::RawEnd { hashes, left: hashes }, ..scan }
        },
        Mode::RawEnd { hashes, left } => if c == '"' {
            Scan { mode: Mode::RawEnd { hashes, left: hashes }, ..scan }
        } else if c != '#' {
            Scan { mode: Mode::Raw { hashes }, ..scan }
        } else if left <= 1 {
            closed(scan.kept)
        } else {
            Scan { mode: Mode::RawEnd { hashes, left: (left - 1) as usize }, ..scan }
        },
        Mode::Tick => if c == '\\' || c == '"' {
            Scan {
                kept: if letters { scan.kept.push(c) } else { scan.kept },
                mode: Mode::Letter { escaped: c == '\\' },
            }
        } else {
            Scan { kept: scan.kept.push(c), mode: Mode::Ticked }
        },
        Mode::Ticked => if c != '\'' {
            code_step(scan.kept, c)
        } else if letters {
            Scan { kept: scan.kept.push(c), mode: Mode::Code }
        } else {
            closed(unprefixed(shortened(scan.kept, 2)))
        },
        Mode::Letter { escaped } => if escaped || c != '\'' {
            Scan {
                kept: if letters { scan.kept.push(c) } else { scan.kept },
                mode: Mode::Letter { escaped: !escaped && c == '\\' },
            }
        } else if letters {
            Scan { kept: scan.kept.push(c), mode: Mode::Code }
        } else {
            closed(unprefixed(shortened(scan.kept, 1)))
        },
    }
}

/// The state of the scan behind the last character of `s`.
pub open spec fn scan(s: Seq<char>, letters: bool) -> Scan
    decreases s.len(),
{
    if s.len() == 0 {
        Scan { kept: Seq::empty(), mode: Mode::Code }
    } else {
        step(scan(s.drop_last(), letters), s.last(), letters)
    }
}

/// The printed code, with a blank in the place of each literal with quotes.
pub open spec fn outside_literals(s: Seq<char>) -> Seq<char> {
    scan(s, false).kept
}

/// The printed code, with a blank in the place of each string.
pub open spec fn outside_strings(s: Seq<char>) -> Seq<char> {
    scan(s, true).kept
}

/// A text without quotes is kept as it is.
pub proof fn law_unquoted_is_kept(s: Seq<char>, letters: bool)
    requires
        !s.contains('"'),
        !s.contains('\''),
    ensures
        scan(s, letters) == (Scan { kept: s, mode: Mode::Code }),
    decreases s.len(),
{
    if s.len() > 0 {
        assert forall|i: int| 0 <= i < s.drop_last().len() implies s.drop_last()[i] != '"'
            && s.drop_last()[i] != '\'' by {
            assert(s.contains(s[i]));
        }
        assert(s.contains(s[s.len() - 1]));
        law_unquoted_is_kept(s.drop_last(), letters);
        assert(s.drop_last().push(s.last()) =~= s);
    } else {
        assert(s =~= Seq::<char>::empty());
    }
}

/// No double quote is in the text.
pub open spec fn unquoted(s: Seq<char>) -> bool {
    forall|i: int| 0 <= i < s.len() ==> #[trigger] s[i] != '"'
}

/// What is kept outside of literals holds no double quote.
pub proof fn law_kept_holds_no_quote(s: Seq<char>)
    ensures
        unquoted(outside_literals(s)),
    decreases s.len(),
{
    if s.len() > 0 {
        law_kept_holds_no_quote(s.drop_last());
    }
}

/// The scan of `s` reads the character at `i` inside a character literal.
pub open spec fn in_letter(s: Seq<char>, i: int) -> bool {
    let mode = scan(s.take(i), true).mode;
    mode is Tick || mode is Letter
}

/// Every double quote of `s` stands inside a character literal.
pub open spec fn quotes_are_letters(s: Seq<char>) -> bool {
    forall|i: int| 0 <= i < s.len() && #[trigger] s[i] == '"' ==> in_letter(s, i)
}

/// No double quote of `s` stands inside a character literal.
pub open spec fn quotes_are_strings(s: Seq<char>) -> bool {
    forall|i: int| 0 <= i < s.len() && #[trigger] s[i] == '"' ==> !in_letter(s, i)
}

/// A text without double quotes is kept as it is where characters are code.
pub proof fn law_without_strings_all_is_kept(s: Seq<char>)
    requires
        unquoted(s),
    ensures
        outside_strings(s) == s,
{
    lemma_all_kept(s);
}

/// What is kept is no longer than the text, and shorter inside a string.
pub proof fn law_kept_is_no_longer(s: Seq<char>, letters: bool)
    ensures
        scan(s, letters).kept.len() <= s.len(),
        in_string(scan(s, letters).mode) ==> scan(s, letters).kept.len() < s.len(),
    decreases s.len(),
{
    if s.len() > 0 {
        law_kept_is_no_longer(s.drop_last(), letters);
        lemma_step_adds_one(scan(s.drop_last(), letters), s.last(), letters);
    }
}

/// What is kept has no more bytes than the text, and fewer inside a string.
pub proof fn law_kept_has_no_more_bytes(s: Seq<char>, letters: bool)
    ensures
        encode_utf8(scan(s, letters).kept).len() <= encode_utf8(s).len(),
        in_string(scan(s, letters).mode) ==> encode_utf8(scan(s, letters).kept).len()
            < encode_utf8(s).len(),
    decreases s.len(),
{
    if s.len() > 0 {
        let before = scan(s.drop_last(), letters);
        law_kept_has_no_more_bytes(s.drop_last(), letters);
        assert(s.drop_last().push(s.last()) =~= s);
        lemma_bytes_pushed(s.drop_last(), s.last());
        lemma_step_adds_bytes(before, s.last(), letters);
    }
}

/// Where no character literal holds a double quote, what is kept outside of strings
/// holds none.
pub proof fn law_no_quote_outside_of_strings(s: Seq<char>)
    requires
        quotes_are_strings(s),
    ensures
        unquoted(outside_strings(s)),
    decreases s.len(),
{
    if s.len() > 0 {
        let front = s.drop_last();
        assert forall|i: int| 0 <= i < front.len() && #[trigger] front[i] == '"' implies !in_letter(
            front,
            i,
        ) by {
            assert(s[i] == '"');
            assert(front.take(i) =~= s.take(i));
        }
        law_no_quote_outside_of_strings(front);
        assert(s.take(s.len() - 1) =~= front);
        if s.last() == '"' {
            assert(s[s.len() - 1] == '"');
            assert(!in_letter(s, s.len() - 1));
        }
    }
}

/// A second pass over what is kept outside of strings keeps all of it.
pub proof fn law_second_pass_changes_nothing(s: Seq<char>)
    ensures
        outside_strings(outside_strings(s)) == outside_strings(s),
{
    lemma_second_pass(s);
}

/// Every double quote that is kept outside of strings stands inside a character
/// literal.
pub proof fn law_kept_quotes_are_letters(s: Seq<char>)
    ensures
        quotes_are_letters(outside_strings(s)),
{
    let kept = outside_strings(s);
    lemma_second_pass(s);
    assert forall|i: int| 0 <= i < kept.len() && #[trigger] kept[i] == '"' implies in_letter(
        kept,
        i,
    ) by {
        let before = scan(kept.take(i), true);
        let here = kept.take(i + 1);
        assert(here.drop_last() =~= kept.take(i));
        law_kept_is_no_longer(kept.take(i), true);
        lemma_loss_stays(here, kept.skip(i + 1), true);
        assert(here + kept.skip(i + 1) =~= kept);
        lemma_opened_keeps_no_more(before.kept);
    }
}

/// Inside a string.
pub open spec fn in_string(mode: Mode) -> bool {
    mode is Text || mode is Raw || mode is RawEnd
}

/// A text without double quotes is kept whole.
proof fn lemma_all_kept(s: Seq<char>)
    requires
        unquoted(s),
    ensures
        scan(s, true).kept == s,
        !in_string(scan(s, true).mode),
    decreases s.len(),
{
    if s.len() > 0 {
        assert forall|i: int| 0 <= i < s.drop_last().len() implies #[trigger] s.drop_last()[i]
            != '"' by {
            assert(s[i] != '"');
        }
        assert(s[s.len() - 1] != '"');
        lemma_all_kept(s.drop_last());
        assert(s.drop_last().push(s.last()) =~= s);
    } else {
        assert(s =~= Seq::<char>::empty());
    }
}

/// Opening a string keeps no more than there was.
proof fn lemma_opened_keeps_no_more(kept: Seq<char>)
    ensures
        opened(kept).kept.len() <= kept.len(),
        unprefixed(kept).len() <= kept.len(),
{
}

/// One more character keeps at most one more, and none where it opens a string.
proof fn lemma_step_adds_one(scan: Scan, c: char, letters: bool)
    ensures
        step(scan, c, letters).kept.len() <= scan.kept.len() + 1,
        in_string(step(scan, c, letters).mode) ==> step(scan, c, letters).kept.len()
            <= scan.kept.len(),
{
    lemma_opened_keeps_no_more(scan.kept);
    lemma_opened_keeps_no_more(shortened(scan.kept, 2));
    lemma_opened_keeps_no_more(shortened(scan.kept, 1));
}

/// The bytes of a character follow those of the text that it is put behind.
proof fn lemma_bytes_pushed(s: Seq<char>, c: char)
    ensures
        encode_utf8(s.push(c)).len() == encode_utf8(s).len() + encode_scalar(c as u32).len(),
    decreases s.len(),
{
    if s.len() == 0 {
        assert(s.push(c).drop_first() =~= s);
        assert(encode_utf8(s).len() == 0);
    } else {
        lemma_bytes_pushed(s.drop_first(), c);
        assert(s.push(c).drop_first() =~= s.drop_first().push(c));
        assert(s.push(c)[0] == s[0]);
    }
}

/// The first characters of a text have no more bytes than all of them.
proof fn lemma_bytes_taken(s: Seq<char>, n: int)
    requires
        0 <= n <= s.len(),
    ensures
        encode_utf8(s.take(n)).len() <= encode_utf8(s).len(),
    decreases s.len(),
{
    if n == s.len() {
        assert(s.take(n) =~= s);
    } else {
        lemma_bytes_taken(s.drop_last(), n);
        assert(s.drop_last().take(n) =~= s.take(n));
        assert(s.drop_last().push(s.last()) =~= s);
        lemma_bytes_pushed(s.drop_last(), s.last());
    }
}

/// A text without its last characters has no more bytes than it had.
proof fn lemma_bytes_shortened(s: Seq<char>, n: int)
    ensures
        encode_utf8(shortened(s, n)).len() <= encode_utf8(s).len(),
{
    if 0 <= n <= s.len() {
        lemma_bytes_taken(s, s.len() - n);
    } else {
        assert(encode_utf8(Seq::<char>::empty()).len() == 0);
    }
}

/// One more character keeps at most its bytes more, and none where it opens a string or
/// stands inside one.
proof fn lemma_step_adds_bytes(scan: Scan, c: char, letters: bool)
    ensures
        encode_scalar(c as u32).len() >= 1,
        encode_utf8(step(scan, c, letters).kept).len() <= encode_utf8(scan.kept).len()
            + encode_scalar(c as u32).len(),
        in_string(step(scan, c, letters).mode) ==> encode_utf8(step(scan, c, letters).kept).len()
            <= encode_utf8(scan.kept).len(),
{
    let one = shortened(scan.kept, 1);
    let two = shortened(scan.kept, 2);
    lemma_bytes_shortened(scan.kept, 1);
    lemma_bytes_shortened(scan.kept, 2);
    lemma_bytes_shortened(one, free_ident(one).len() as int);
    lemma_bytes_shortened(two, free_ident(two).len() as int);
    lemma_bytes_shortened(scan.kept, free_ident(scan.kept).len() as int);
    lemma_bytes_shortened(
        scan.kept,
        (hashes(scan.kept) + marked_ident(scan.kept).len()) as int,
    );
    lemma_bytes_pushed(scan.kept, c);
    lemma_bytes_pushed(scan.kept, ' ');
    lemma_bytes_pushed(unprefixed(one), ' ');
    lemma_bytes_pushed(unprefixed(two), ' ');
    assert(encode_scalar(' ' as u32).len() == 1);
}

/// What is lost is not won back: where less is kept than there was, it stays less.
proof fn lemma_loss_stays(head: Seq<char>, tail: Seq<char>, letters: bool)
    ensures
        scan(head + tail, letters).kept.len() <= scan(head, letters).kept.len() + tail.len(),
    decreases tail.len(),
{
    if tail.len() == 0 {
        assert(head + tail =~= head);
    } else {
        lemma_loss_stays(head, tail.drop_last(), letters);
        assert((head + tail).drop_last() =~= head + tail.drop_last());
        assert((head + tail).last() == tail.last());
        lemma_step_adds_one(scan(head + tail.drop_last(), letters), tail.last(), letters);
    }
}

/// Reading code, or behind the first character of what may be a lifetime.
pub open spec fn reads_code(mode: Mode) -> bool {
    mode is Code || mode is Ticked
}

/// A scan over what is kept keeps all of it, and ends where the scan of the text stands,
/// or, where that stands inside a string, in front of the string.
proof fn lemma_second_pass(s: Seq<char>)
    ensures
        scan(scan(s, true).kept, true).kept == scan(s, true).kept,
        if in_string(scan(s, true).mode) {
            reads_code(scan(scan(s, true).kept, true).mode)
        } else {
            scan(scan(s, true).kept, true).mode == scan(s, true).mode
        },
    decreases s.len(),
{
    if s.len() > 0 {
        let before = scan(s.drop_last(), true);
        let after = scan(s, true);
        let c = s.last();
        lemma_second_pass(s.drop_last());
        assert(before.kept.push(c).drop_last() =~= before.kept);
        assert(before.kept.push(' ').drop_last() =~= before.kept);
        if reads_code(before.mode) && c == '"' {
            lemma_opened_again(before.kept);
        }
    }
}

/// What is left without its last `n` characters is read as code again, where these hold
/// no quote and none stands in front of them.
proof fn lemma_shortened_again(kept: Seq<char>, n: int)
    requires
        scan(kept, true).kept == kept,
        reads_code(scan(kept, true).mode),
        0 <= n <= kept.len(),
        forall|i: int|
            kept.len() - n <= i < kept.len() ==> #[trigger] kept[i] != '"' && kept[i] != '\'',
        n < kept.len() ==> kept[kept.len() - n - 1] != '\'',
    ensures
        scan(shortened(kept, n), true).kept == shortened(kept, n),
        reads_code(scan(shortened(kept, n), true).mode),
{
    let front = shortened(kept, n);
    let back = kept.skip(kept.len() - n);
    assert(front + back =~= kept);
    assert forall|i: int| 0 <= i < back.len() implies #[trigger] back[i] != '"' && back[i]
        != '\'' by {
        assert(kept[kept.len() - n + i] != '"');
    }
    lemma_prefix_is_code(front, back);
}

/// The characters of the marks that a text ends with, and of the identifier in front of
/// them, are no quotes.
proof fn lemma_prefix_has_no_quotes(kept: Seq<char>)
    ensures
        hashes(kept) + marked_ident(kept).len() <= kept.len(),
        forall|i: int|
            kept.len() - hashes(kept) - marked_ident(kept).len() <= i < kept.len()
                ==> #[trigger] kept[i] != '"' && kept[i] != '\'',
        marked_ident(kept).len() > 0 && hashes(kept) + marked_ident(kept).len() < kept.len()
            ==> kept[kept.len() - hashes(kept) - marked_ident(kept).len() - 1] != '\'',
{
    let bare = shortened(kept, hashes(kept) as int);
    lemma_hashes(kept);
    lemma_last_ident_short(bare);
    lemma_last_ident_chars(bare);
    assert forall|i: int|
        kept.len() - hashes(kept) - marked_ident(kept).len() <= i < kept.len() implies
        #[trigger] kept[i] != '"' && kept[i] != '\'' by {
        if i < bare.len() {
            assert(word_char(bare[i]));
            assert(bare[i] == kept[i]);
        } else {
            assert(kept[i] == '#');
        }
    }
    if hashes(kept) + marked_ident(kept).len() < kept.len() {
        let k = bare.len() - marked_ident(kept).len() - 1;
        assert(bare[k] == kept[k]);
    }
}

/// The characters of the identifier that a text ends with are no quotes.
proof fn lemma_ident_has_no_quotes(kept: Seq<char>)
    ensures
        free_ident(kept).len() <= kept.len(),
        forall|i: int|
            kept.len() - free_ident(kept).len() <= i < kept.len() ==> #[trigger] kept[i] != '"'
                && kept[i] != '\'',
        free_ident(kept).len() > 0 && free_ident(kept).len() < kept.len() ==> kept[kept.len()
            - free_ident(kept).len() - 1] != '\'',
{
    lemma_last_ident_short(kept);
    lemma_last_ident_chars(kept);
    assert forall|i: int| kept.len() - free_ident(kept).len() <= i < kept.len() implies
        #[trigger] kept[i] != '"' && kept[i] != '\'' by {
        assert(word_char(kept[i]));
    }
}

/// What stands in front of a string that opens is read as code again.
proof fn lemma_opened_again(kept: Seq<char>)
    requires
        scan(kept, true).kept == kept,
        reads_code(scan(kept, true).mode),
    ensures
        scan(opened(kept).kept, true).kept == opened(kept).kept,
        reads_code(scan(opened(kept).kept, true).mode),
        in_string(opened(kept).mode),
{
    lemma_prefix_has_no_quotes(kept);
    lemma_ident_has_no_quotes(kept);
    if marked_ident(kept).len() > 0 {
        lemma_shortened_again(kept, (hashes(kept) + marked_ident(kept).len()) as int);
    }
    if free_ident(kept).len() > 0 {
        lemma_shortened_again(kept, free_ident(kept).len() as int);
    }
}

/// The marks that a text ends with are marks, and no more than there are characters.
proof fn lemma_hashes(s: Seq<char>)
    ensures
        hashes(s) <= s.len(),
        forall|i: int| s.len() - hashes(s) <= i < s.len() ==> #[trigger] s[i] == '#',
    decreases s.len(),
{
    if s.len() > 0 && s.last() == '#' {
        lemma_hashes(s.drop_last());
        assert forall|i: int| s.len() - hashes(s) <= i < s.len() implies #[trigger] s[i] == '#' by {
            if i < s.len() - 1 {
                assert(s.drop_last()[i] == '#');
            }
        }
    }
}

/// The identifier that a text ends with consists of characters of identifiers.
proof fn lemma_last_ident_chars(s: Seq<char>)
    ensures
        forall|i: int|
            s.len() - last_ident(s).len() <= i < s.len() ==> word_char(#[trigger] s[i]),
    decreases s.len(),
{
    if s.len() > 0 && word_char(s.last()) {
        lemma_last_ident_short(s);
        lemma_last_ident_chars(s.drop_last());
        assert forall|i: int| s.len() - last_ident(s).len() <= i < s.len() implies word_char(
            #[trigger] s[i],
        ) by {
            if i < s.len() - 1 {
                assert(word_char(s.drop_last()[i]));
            }
        }
    }
}

/// No quote, neither double nor single, is in the text.
pub open spec fn quoteless(s: Seq<char>) -> bool {
    forall|i: int| 0 <= i < s.len() ==> #[trigger] s[i] != '"' && s[i] != '\''
}

/// Text without quotes behind code is code, and is kept whole.
proof fn lemma_code_goes_on(head: Seq<char>, tail: Seq<char>)
    requires
        reads_code(scan(head, true).mode),
        quoteless(tail),
    ensures
        scan(head + tail, true).kept == scan(head, true).kept + tail,
        reads_code(scan(head + tail, true).mode),
    decreases tail.len(),
{
    if tail.len() == 0 {
        assert(head + tail =~= head);
        assert(scan(head, true).kept + tail =~= scan(head, true).kept);
    } else {
        let front = tail.drop_last();
        assert forall|i: int| 0 <= i < front.len() implies #[trigger] front[i] != '"' && front[i]
            != '\'' by {
            assert(tail[i] != '"');
        }
        lemma_code_goes_on(head, front);
        assert((head + tail).drop_last() =~= head + front);
        assert((head + tail).last() == tail[tail.len() - 1]);
        assert(scan(head, true).kept + tail =~= (scan(head, true).kept + front).push(tail.last()));
    }
}

/// Text without quotes does not end a character literal.
proof fn lemma_letter_goes_on(head: Seq<char>, tail: Seq<char>)
    requires
        scan(head, true).mode is Letter,
        quoteless(tail),
    ensures
        scan(head + tail, true).mode is Letter,
    decreases tail.len(),
{
    if tail.len() == 0 {
        assert(head + tail =~= head);
    } else {
        let front = tail.drop_last();
        assert forall|i: int| 0 <= i < front.len() implies #[trigger] front[i] != '"' && front[i]
            != '\'' by {
            assert(tail[i] != '"');
        }
        lemma_letter_goes_on(head, front);
        assert((head + tail).drop_last() =~= head + front);
        assert((head + tail).last() == tail[tail.len() - 1]);
    }
}

/// A scan that stands behind a single quote has just read it.
proof fn lemma_tick_is_last(s: Seq<char>)
    requires
        scan(s, true).mode is Tick,
    ensures
        s.len() > 0,
        s.last() == '\'',
{
}

/// What stands in front of text without quotes that is kept as code is code itself,
/// unless it ends with a single quote.
proof fn lemma_prefix_is_code(head: Seq<char>, tail: Seq<char>)
    requires
        scan(head + tail, true).kept == head + tail,
        reads_code(scan(head + tail, true).mode),
        quoteless(tail),
        head.len() == 0 || head.last() != '\'',
    ensures
        scan(head, true).kept == head,
        reads_code(scan(head, true).mode),
{
    law_kept_is_no_longer(head, true);
    lemma_loss_stays(head, tail, true);
    let mode = scan(head, true).mode;
    if mode is Letter {
        lemma_letter_goes_on(head, tail);
    }
    if mode is Tick {
        lemma_tick_is_last(head);
    }
    lemma_code_goes_on(head, tail);
    assert(scan(head, true).kept =~= (scan(head, true).kept + tail).take(head.len() as int));
    assert(head =~= (head + tail).take(head.len() as int));
}

/// Neither a quote nor a backslash is in the text.
pub open spec fn plain(s: Seq<char>) -> bool {
    forall|i: int| 0 <= i < s.len() ==> #[trigger] s[i] != '"' && s[i] != '\\'
}

/// A text with a literal that says `inner` between `head` and `tail`.
pub open spec fn quoting(head: Seq<char>, inner: Seq<char>, tail: Seq<char>) -> Seq<char> {
    head.push('"') + inner.push('"') + tail
}

/// A quote behind `head` opens a string that the next quote closes.
pub open spec fn opens_string(head: Seq<char>, letters: bool) -> bool {
    let mode = scan(head.push('"'), letters).mode;
    mode == (Mode::Text { escaped: false }) || mode == (Mode::Raw { hashes: 0 })
}

/// What a string says does not matter: two texts that differ inside a string only
/// are kept alike.
pub proof fn law_literals_do_not_matter(
    head: Seq<char>,
    one: Seq<char>,
    other: Seq<char>,
    tail: Seq<char>,
    letters: bool,
)
    requires
        opens_string(head, letters),
        plain(one),
        plain(other),
    ensures
        scan(quoting(head, one, tail), letters) == scan(quoting(head, other, tail), letters),
{
    lemma_literal(head, one, letters);
    lemma_literal(head, other, letters);
    lemma_append(
        head.push('"') + one.push('"'),
        head.push('"') + other.push('"'),
        tail,
        letters,
    );
}

/// The scan inside a string keeps nothing.
proof fn lemma_inside(head: Seq<char>, inner: Seq<char>, letters: bool)
    requires
        opens_string(head, letters),
        plain(inner),
    ensures
        scan(head.push('"') + inner, letters) == scan(head.push('"'), letters),
    decreases inner.len(),
{
    let s = head.push('"') + inner;
    if inner.len() == 0 {
        assert(s =~= head.push('"'));
    } else {
        assert forall|i: int| 0 <= i < inner.drop_last().len() implies #[trigger] inner.drop_last()[i]
            != '"' && inner.drop_last()[i] != '\\' by {
            assert(inner[i] != '"');
        }
        lemma_inside(head, inner.drop_last(), letters);
        assert(s.drop_last() =~= head.push('"') + inner.drop_last());
        assert(s.last() == inner[inner.len() - 1]);
    }
}

/// A whole string is kept as a blank.
proof fn lemma_literal(head: Seq<char>, inner: Seq<char>, letters: bool)
    requires
        opens_string(head, letters),
        plain(inner),
    ensures
        scan(head.push('"') + inner.push('"'), letters) == closed(
            scan(head.push('"'), letters).kept,
        ),
{
    lemma_inside(head, inner, letters);
    let s = head.push('"') + inner.push('"');
    assert(s.drop_last() =~= head.push('"') + inner);
    assert(s.last() == '"');
}

/// What follows is kept alike where the scans in front of it agree.
#[verifier::spinoff_prover]
proof fn lemma_append(one: Seq<char>, other: Seq<char>, tail: Seq<char>, letters: bool)
    requires
        scan(one, letters) == scan(other, letters),
    ensures
        scan(one + tail, letters) == scan(other + tail, letters),
    decreases tail.len(),
{
    if tail.len() == 0 {
        assert(one + tail =~= one);
        assert(other + tail =~= other);
    } else {
        lemma_append(one, other, tail.drop_last(), letters);
        assert((one + tail).drop_last() =~= one + tail.drop_last());
        assert((other + tail).drop_last() =~= other + tail.drop_last());
        assert((one + tail).last() == tail.last());
        assert((other + tail).last() == tail.last());
        let before = scan(one + tail.drop_last(), letters);
        assert(scan(one + tail, letters) == step(before, tail.last(), letters));
        assert(scan(other + tail, letters) == step(before, tail.last(), letters));
    }
}

/// Takes the last `n` characters away.
fn shorten(s: &mut Vec<char>, n: usize)
    ensures
        final(s)@ == shortened(old(s)@, n as int),
{
    let len = s.len();
    if n <= len {
        s.truncate(len - n);
    } else {
        s.truncate(0);
    }
    assert(s@ =~= shortened(old(s)@, n as int));
}

/// Counts the marks that `s` ends with.
fn count_hashes(s: &Vec<char>) -> (n: usize)
    ensures
        n == hashes(s@),
        n <= s@.len(),
{
    let mut k: usize = s.len();
    assert(s@.take(k as int) =~= s@);
    while k > 0 && s[k - 1] == '#'
        invariant
            k <= s@.len(),
            hashes(s@) == hashes(s@.take(k as int)) + (s@.len() - k),
        decreases k,
    {
        assert(s@.take(k as int).drop_last() =~= s@.take(k as int - 1));
        k = k - 1;
    }
    s.len() - k
}

/// The identifier that the first `end` characters of `s` end with.
pub(crate) fn get_last_ident(s: &Vec<char>, end: usize) -> (r: String)
    requires
        end <= s@.len(),
    ensures
        r@ == last_ident(s@.take(end as int)),
{
    let ghost whole = last_ident(s@.take(end as int));
    let mut k: usize = end;
    while k > 0 && (s[k - 1].is_alphanumeric() || s[k - 1] == '_')
        invariant
            k <= end <= s@.len(),
            whole == last_ident(s@.take(k as int)) + s@.subrange(k as int, end as int),
        decreases k,
    {
        assert(s@.take(k as int).drop_last() =~= s@.take(k as int - 1));
        k = k - 1;
        assert(whole =~= last_ident(s@.take(k as int)) + s@.subrange(k as int, end as int));
    }
    let mut word: Vec<char> = Vec::new();
    let mut i: usize = k;
    while i < end
        invariant
            k <= i <= end <= s@.len(),
            word@ == s@.subrange(k as int, i as int),
        decreases end - i,
    {
        word.push(s[i]);
        i = i + 1;
    }
    assert(word@ =~= whole);
    text_of(&word)
}

/// The identifier that the first `end` characters of `s` end with, if it is not the
/// name of a lifetime.
fn get_free_ident(s: &Vec<char>, end: usize) -> (r: String)
    requires
        end <= s@.len(),
    ensures
        r@ == free_ident(s@.take(end as int)),
{
    let word = get_last_ident(s, end);
    proof {
        lemma_last_ident_short(s@.take(end as int));
    }
    let n = chars_of(word.as_str()).len();
    if n < end && s[end - n - 1] == '\'' {
        let none = String::new();
        assert(none@ =~= Seq::<char>::empty());
        none
    } else {
        word
    }
}

/// Takes the prefix of a literal that opens behind the code away.
fn drop_prefix(kept: &mut Vec<char>)
    ensures
        final(kept)@ == unprefixed(old(kept)@),
{
    let len = kept.len();
    assert(kept@.take(len as int) =~= kept@);
    let word = get_free_ident(kept, len);
    if !word.as_str().is_empty() && same_as_any(word.as_str(), PREFIXES.as_slice()) {
        let n = chars_of(word.as_str()).len();
        shorten(kept, n);
    }
}

/// Opens a string behind the code.
fn open_string(kept: &mut Vec<char>) -> (mode: Mode)
    ensures
        (Scan { kept: final(kept)@, mode }) == opened(old(kept)@),
{
    let marks = count_hashes(kept);
    let word = get_free_ident(kept, kept.len() - marks);
    assert(word@ == marked_ident(kept@));
    if !word.as_str().is_empty() && same_as_any(word.as_str(), RAW_PREFIXES.as_slice()) {
        proof {
            lemma_last_ident_short(shortened(kept@, marks as int));
        }
        let n = chars_of(word.as_str()).len();
        shorten(kept, marks + n);
        Mode::Raw { hashes: marks }
    } else {
        drop_prefix(kept);
        Mode::Text { escaped: false }
    }
}

/// The identifier that a text ends with is no longer than the text.
proof fn lemma_last_ident_short(s: Seq<char>)
    ensures
        last_ident(s).len() <= s.len(),
    decreases s.len(),
{
    if s.len() > 0 && word_char(s.last()) {
        lemma_last_ident_short(s.drop_last());
    }
}

/// Takes one more character of code.
fn take_code(kept: &mut Vec<char>, c: char) -> (mode: Mode)
    ensures
        (Scan { kept: final(kept)@, mode }) == code_step(old(kept)@, c),
{
    if c == '"' {
        open_string(kept)
    } else {
        kept.push(c);
        if c == '\'' {
            Mode::Tick
        } else {
            Mode::Code
        }
    }
}

/// Takes one more character.
fn take_step(kept: &mut Vec<char>, mode: Mode, c: char, letters: bool) -> (next: Mode)
    ensures
        (Scan { kept: final(kept)@, mode: next }) == step(
            Scan { kept: old(kept)@, mode },
            c,
            letters,
        ),
{
    match mode {
        Mode::Code => take_code(kept, c),
        Mode::Text { escaped } => if escaped {
            Mode::Text { escaped: false }
        } else if c == '"' {
            kept.push(' ');
            Mode::Code
        } else {
            Mode::Text { escaped: c == '\\' }
        },
        Mode::Raw { hashes } => if c != '"' {
            mode
        } else if hashes == 0 {
            kept.push(' ');
            Mode::Code
        } else {
            Mode::RawEnd { hashes, left: hashes }
        },
        Mode::RawEnd { hashes, left } => if c == '"' {
            Mode::RawEnd { hashes, left: hashes }
        } else if c != '#' {
            Mode::Raw { hashes }
        } else if left <= 1 {
            kept.push(' ');
            Mode::Code
        } else {
            Mode::RawEnd { hashes, left: left - 1 }
        },
        Mode::Tick => if c == '\\' || c == '"' {
            if letters {
                kept.push(c);
            }
            Mode::Letter { escaped: c == '\\' }
        } else {
            kept.push(c);
            Mode::Ticked
        },
        Mode::Ticked => if c != '\'' {
            take_code(kept, c)
        } else if letters {
            kept.push(c);
            Mode::Code
        } else {
            shorten(kept, 2);
            drop_prefix(kept);
            kept.push(' ');
            Mode::Code
        },
        Mode::Letter { escaped } => if escaped || c != '\'' {
            if letters {
                kept.push(c);
            }
            Mode::Letter { escaped: !escaped && c == '\\' }
        } else if letters {
            kept.push(c);
            Mode::Code
        } else {
            shorten(kept, 1);
            drop_prefix(kept);
            kept.push(' ');
            Mode::Code
        },
    }
}

/// The code that a scan through `s` keeps.
fn get_kept(s: &str, letters: bool) -> (r: String)
    ensures
        r@ == scan(s@, letters).kept,
{
    let chars = chars_of(s);
    let mut kept: Vec<char> = Vec::new();
    let mut mode = Mode::Code;
    let mut i: usize = 0;
    while i < chars.len()
        invariant
            i <= chars@.len(),
            chars@ == s@,
            scan(s@.take(i as int), letters) == (Scan { kept: kept@, mode }),
        decreases chars@.len() - i,
    {
        assert(s@.take(i as int + 1).drop_last() =~= s@.take(i as int));
        mode = take_step(&mut kept, mode, chars[i], letters);
        i = i + 1;
    }
    assert(s@.take(i as int) =~= s@);
    text_of(&kept)
}

/// The printed code, with a blank in the place of each literal with quotes.
pub fn blank_literals(s: &str) -> (r: String)
    ensures
        r@ == outside_literals(s@),
{
    get_kept(s, false)
}

/// The printed code, with a blank in the place of each string.
pub fn blank_strings(s: &str) -> (r: String)
    ensures
        r@ == outside_strings(s@),
{
    get_kept(s, true)
}

} // verus!
