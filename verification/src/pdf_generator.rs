//! The document layout engine: it turns one batch of messages into the pages
//! of one document. Lengths are whole millimetres, font sizes whole points.

use vstd::prelude::*;
use vstd::string::*;
use crate::directory_validator::{DirectoryFacts, DirectoryProbe};
use crate::errors::{IoFailure, IoFault, PdfError, PdfFault};
use crate::text::{
    char_width, collapse_whitespace, decimal, is_ascii_punct, is_ascii_punctuation,
    is_white_space, join, join_with, lemma_decimal_injective, lemma_joined_characters,
    lemma_same_middle, lemma_utf8_len_concat, lemma_utf8_len_push, lemma_words_come_from_text,
    measure, push_decimal, split_words, utf8_len, utf8_width, words,
};
use crate::time::{display_stamp, file_stamp, LocalInstant, LocalTimestamp};
use crate::types::{Attachment, AttachmentModel, Email, EmailModel};

verus! {

/// How many characters from the start of `s` fit into `budget` bytes of
/// UTF-8.
pub open spec fn fitting_chars(s: Seq<char>, budget: nat) -> nat
    decreases s.len(),
{
    if s.len() == 0 || utf8_width(s[0]) > budget {
        0
    } else {
        1 + fitting_chars(s.drop_first(), (budget - utf8_width(s[0])) as nat)
    }
}

/// `s` as it is where it takes at most `max` bytes; else its longest start
/// that leaves room for three dots within `max` bytes, and the three dots.
pub open spec fn truncated(s: Seq<char>, max: nat) -> Seq<char> {
    if utf8_len(s) <= max {
        s
    } else {
        let room = if max >= 3 {
            (max - 3) as nat
        } else {
            0
        };
        s.take(fitting_chars(s, room) as int) + "..."@
    }
}

/// The characters that fit are a start of `s`, they do fit, and one more
/// character would not.
pub proof fn lemma_fitting_chars_fit(s: Seq<char>, budget: nat)
    ensures
        fitting_chars(s, budget) <= s.len(),
        utf8_len(s.take(fitting_chars(s, budget) as int)) <= budget,
        fitting_chars(s, budget) < s.len() ==> utf8_len(
            s.take(fitting_chars(s, budget) as int + 1),
        ) > budget,
    decreases s.len(),
{
    if s.len() == 0 {
        assert(s.take(0) =~= Seq::<char>::empty());
    } else {
        let first = seq![s[0]];
        assert(first =~= Seq::<char>::empty().push(s[0]));
        lemma_utf8_len_push(Seq::<char>::empty(), s[0]);
        if utf8_width(s[0]) > budget {
            assert(s.take(0) =~= Seq::<char>::empty());
            assert(s.take(1) =~= first);
        } else {
            let rest = s.drop_first();
            let left = (budget - utf8_width(s[0])) as nat;
            lemma_fitting_chars_fit(rest, left);
            let k = fitting_chars(rest, left) as int;
            assert(s.take(k + 1) =~= first + rest.take(k));
            lemma_utf8_len_concat(first, rest.take(k));
            if k < rest.len() {
                assert(s.take(k + 2) =~= first + rest.take(k + 1));
                lemma_utf8_len_concat(first, rest.take(k + 1));
            }
        }
    }
}

/// A truncated text keeps to its cap, once the cap has room for the three
/// dots.
pub proof fn lemma_truncated_within_cap(s: Seq<char>, max: nat)
    requires
        max >= 3,
    ensures
        utf8_len(truncated(s, max)) <= max,
{
    if utf8_len(s) > max {
        let room = (max - 3) as nat;
        lemma_fitting_chars_fit(s, room);
        let head = s.take(fitting_chars(s, room) as int);
        lemma_utf8_len_concat(head, "..."@);
        lemma_three_dots();
    }
}

proof fn lemma_three_dots()
    ensures
        "..."@ == seq!['.', '.', '.'],
        utf8_len("..."@) == 3,
{
    reveal_strlit("...");
    let dots = seq!['.', '.', '.'];
    assert("..."@ =~= dots);
    assert(dots.drop_last() =~= seq!['.', '.']);
    assert(seq!['.', '.'].drop_last() =~= seq!['.']);
    assert(seq!['.'].drop_last() =~= Seq::<char>::empty());
    reveal_with_fuel(utf8_len, 4);
}

/// Cuts `text` down to `max_length` bytes, the three dots that mark the cut
/// included.
pub fn truncate_text(text: &str, max_length: usize) -> (out: String)
    ensures
        out@ == truncated(text@, max_length as nat),
{
    if measure(text, max_length).is_some() {
        return String::from_str(text);
    }
    let room: usize = if max_length >= 3 {
        max_length - 3
    } else {
        0
    };
    let mut out = String::new();
    let mut used: usize = 0;
    let mut stopped = false;
    proof {
        assert(text@.skip(0) =~= text@);
    }
    for c in it: text.chars()
        invariant
            it.seq() == text@,
            used <= room,
            out@ == text@.take(if stopped {
                fitting_chars(text@, room as nat) as int
            } else {
                it.index() as int
            }),
            !stopped ==> fitting_chars(text@, room as nat) == it.index() + fitting_chars(
                text@.skip(it.index() as int),
                (room - used) as nat,
            ),
    {
        if !stopped {
            let w: usize = char_width(c);
            proof {
                let i = it.index() as int;
                assert(text@.skip(i)[0] == text@[i]);
                assert(text@.skip(i).drop_first() =~= text@.skip(i + 1));
                assert(text@.take(i + 1) =~= text@.take(i).push(text@[i]));
            }
            if w > room - used {
                stopped = true;
            } else {
                out.push(c);
                used = used + w;
            }
        }
    }
    out.append("...");
    out
}

/// Where the removal of markup stands: the text kept so far, whether a tag
/// is open, and whether a tag has just been closed.
pub struct StripScan {
    pub kept: Seq<char>,
    pub in_tag: bool,
    pub after_tag: bool,
}

/// One character further. `<` opens a tag and `>` closes one; neither is
/// kept, nor anything between them. Text that directly follows a tag is set
/// off by a space, unless it starts with whitespace or punctuation, nothing
/// has been kept yet, or a space is there already.
pub open spec fn strip_step(st: StripScan, c: char) -> StripScan {
    if c == '<' {
        StripScan { kept: st.kept, in_tag: true, after_tag: false }
    } else if c == '>' {
        StripScan { kept: st.kept, in_tag: false, after_tag: true }
    } else if !st.in_tag {
        let spaced = if st.after_tag && !is_white_space(c) && !is_ascii_punct(c) && st.kept.len()
            > 0 && st.kept.last() != ' ' {
            st.kept.push(' ')
        } else {
            st.kept
        };
        StripScan { kept: spaced.push(c), in_tag: false, after_tag: false }
    } else {
        st
    }
}

/// Where the removal of markup stands after all of `html`.
pub open spec fn strip_scan(html: Seq<char>) -> StripScan
    decreases html.len(),
{
    if html.len() == 0 {
        StripScan { kept: Seq::empty(), in_tag: false, after_tag: false }
    } else {
        strip_step(strip_scan(html.drop_last()), html.last())
    }
}

/// `html` without its tags, with whitespace collapsed.
pub open spec fn stripped(html: Seq<char>) -> Seq<char> {
    collapse_whitespace(strip_scan(html).kept)
}

/// Text without its markup holds no tag boundary: neither `<` nor `>`.
pub proof fn lemma_stripped_holds_no_bracket(html: Seq<char>)
    ensures
        !stripped(html).contains('<'),
        !stripped(html).contains('>'),
{
    let kept = strip_scan(html).kept;
    lemma_strip_scan_keeps_no_bracket(html);
    lemma_words_come_from_text(kept);
    let parts = words(kept);
    assert forall|c: char| c == '<' || c == '>' implies !stripped(html).contains(c) by {
        if stripped(html).contains(c) {
            lemma_joined_characters(parts, seq![' '], c);
            assert(!seq![' '].contains(c));
            let k = choose|k: int| 0 <= k < parts.len() && (#[trigger] parts[k]).contains(c);
            let j = choose|j: int| 0 <= j < parts[k].len() && parts[k][j] == c;
            assert(kept.contains(parts[k][j]));
        }
    }
}

proof fn lemma_strip_scan_keeps_no_bracket(html: Seq<char>)
    ensures
        !strip_scan(html).kept.contains('<'),
        !strip_scan(html).kept.contains('>'),
    decreases html.len(),
{
    if html.len() > 0 {
        lemma_strip_scan_keeps_no_bracket(html.drop_last());
        let before = strip_scan(html.drop_last());
        let after = strip_scan(html);
        assert(after == strip_step(before, html.last()));
        assert forall|i: int| 0 <= i < after.kept.len() implies after.kept[i] != '<'
            && after.kept[i] != '>' by {
            if i < before.kept.len() {
                assert(before.kept.contains(before.kept[i]));
                assert(after.kept[i] == before.kept[i]);
            }
        }
    }
}

/// Removes the tags from `html` and collapses its whitespace.
pub fn strip_html_tags(html: &str) -> (out: String)
    ensures
        out@ == stripped(html@),
        !out@.contains('<'),
        !out@.contains('>'),
{
    proof {
        lemma_stripped_holds_no_bracket(html@);
    }
    let mut kept = String::new();
    let mut in_tag = false;
    let mut after_tag = false;
    let mut last_is_space = false;
    for c in it: html.chars()
        invariant
            it.seq() == html@,
            strip_scan(html@.take(it.index() as int)) == (StripScan {
                kept: kept@,
                in_tag,
                after_tag,
            }),
            last_is_space == (kept@.len() > 0 && kept@.last() == ' '),
    {
        proof {
            let i = it.index() as int;
            assert(html@.take(i + 1).drop_last() =~= html@.take(i));
        }
        if c == '<' {
            in_tag = true;
            after_tag = false;
        } else if c == '>' {
            in_tag = false;
            after_tag = true;
        } else if !in_tag {
            if after_tag && !c.is_whitespace() && !is_ascii_punctuation(c)
                && !kept.as_str().is_empty() && !last_is_space {
                kept.push(' ');
            }
            kept.push(c);
            last_is_space = c == ' ';
            after_tag = false;
        }
    }
    proof {
        assert(html@.take(html@.len() as int) =~= html@);
        reveal_strlit(" ");
        assert(" "@ =~= seq![' ']);
    }
    let parts = split_words(kept.as_str());
    join(&parts, " ")
}

/// Where the wrapping of words stands: the lines that are full, and the
/// line that is still open.
pub struct WrapScan {
    pub lines: Seq<Seq<char>>,
    pub open: Seq<char>,
}

/// One word further: it joins the open line, behind a space, where the line
/// then still takes at most `max` bytes; else the open line is closed, if
/// there is one, and the word starts the next.
pub open spec fn wrap_step(st: WrapScan, word: Seq<char>, max: nat) -> WrapScan {
    let longer = if st.open.len() == 0 {
        word
    } else {
        st.open.push(' ') + word
    };
    if utf8_len(longer) <= max {
        WrapScan { lines: st.lines, open: longer }
    } else if st.open.len() > 0 {
        WrapScan { lines: st.lines.push(st.open), open: word }
    } else {
        WrapScan { lines: st.lines, open: word }
    }
}

/// Where the wrapping stands after all of the words.
pub open spec fn wrap_scan(ws: Seq<Seq<char>>, max: nat) -> WrapScan
    decreases ws.len(),
{
    if ws.len() == 0 {
        WrapScan { lines: Seq::empty(), open: Seq::empty() }
    } else {
        wrap_step(wrap_scan(ws.drop_last(), max), ws.last(), max)
    }
}

/// The words set greedily into lines of at most `max` bytes. A word that is
/// longer than that has a line to itself.
pub open spec fn wrapped(ws: Seq<Seq<char>>, max: nat) -> Seq<Seq<char>> {
    let st = wrap_scan(ws, max);
    if st.open.len() > 0 {
        st.lines.push(st.open)
    } else {
        st.lines
    }
}

/// Whether the line keeps to `max` bytes or is a single one of the words.
pub open spec fn fits_or_is_word(line: Seq<char>, ws: Seq<Seq<char>>, max: nat) -> bool {
    utf8_len(line) <= max || ws.contains(line)
}

/// Every line of wrapped words keeps to the limit, but for a word that is
/// longer than the limit by itself, which has a line of its own.
pub proof fn lemma_wrapped_lines_fit(ws: Seq<Seq<char>>, max: nat)
    ensures
        forall|i: int|
            0 <= i < wrapped(ws, max).len() ==> fits_or_is_word(
                #[trigger] wrapped(ws, max)[i],
                ws,
                max,
            ),
{
    lemma_wrap_scan_fits(ws, max);
}

proof fn lemma_wrap_scan_fits(ws: Seq<Seq<char>>, max: nat)
    ensures
        fits_or_is_word(wrap_scan(ws, max).open, ws, max),
        forall|i: int|
            0 <= i < wrap_scan(ws, max).lines.len() ==> fits_or_is_word(
                #[trigger] wrap_scan(ws, max).lines[i],
                ws,
                max,
            ),
    decreases ws.len(),
{
    if ws.len() > 0 {
        let front = ws.drop_last();
        lemma_wrap_scan_fits(front, max);
        let before = wrap_scan(front, max);
        let after = wrap_scan(ws, max);
        let word = ws.last();
        assert(after == wrap_step(before, word, max));
        assert(ws.contains(word)) by {
            assert(ws[ws.len() - 1] == word);
        }
        assert forall|line: Seq<char>| fits_or_is_word(line, front, max) implies fits_or_is_word(
            line,
            ws,
            max,
        ) by {
            if front.contains(line) {
                let k = choose|k: int| 0 <= k < front.len() && front[k] == line;
                assert(ws[k] == line);
            }
        }
        assert forall|i: int| 0 <= i < after.lines.len() implies fits_or_is_word(
            #[trigger] after.lines[i],
            ws,
            max,
        ) by {
            if i < before.lines.len() {
                assert(after.lines[i] == before.lines[i]);
                assert(fits_or_is_word(before.lines[i], front, max));
            } else {
                assert(after.lines[i] == before.open);
                assert(fits_or_is_word(before.open, front, max));
            }
        }
    } else {
        assert(wrap_scan(ws, max).open =~= Seq::<char>::empty());
    }
}

/// The lines of a message body: its markup removed, its words wrapped.
pub open spec fn body_lines(body: Seq<char>, max: nat) -> Seq<Seq<char>> {
    wrapped(words(stripped(body)), max)
}

/// Removes the markup from `body` and wraps its words into lines of at most
/// `max_line_length` bytes.
pub fn prepare_body_text(body: &str, max_line_length: usize) -> (lines: Vec<String>)
    ensures
        lines.deep_view() == body_lines(body@, max_line_length as nat),
{
    let cleaned = strip_html_tags(body);
    let parts = split_words(cleaned.as_str());
    let mut lines: Vec<String> = Vec::new();
    let mut open = String::new();
    // The bytes that the open line takes, where they are at most the limit.
    let mut open_len: Option<usize> = Some(0);
    let mut i: usize = 0;
    proof {
        assert(lines.deep_view() =~= Seq::empty());
        assert(parts.deep_view().take(0) =~= Seq::empty());
    }
    while i < parts.len()
        invariant
            i <= parts.len(),
            parts.deep_view() == words(stripped(body@)),
            wrap_scan(parts.deep_view().take(i as int), max_line_length as nat) == (WrapScan {
                lines: lines.deep_view(),
                open: open@,
            }),
            match open_len {
                Some(n) => n == utf8_len(open@) && n <= max_line_length,
                None => utf8_len(open@) > max_line_length,
            },
        decreases parts.len() - i,
    {
        let word: &str = parts[i].as_str();
        let word_len = measure(word, max_line_length);
        let ghost all = parts.deep_view();
        proof {
            assert(all.take(i + 1).drop_last() =~= all.take(i as int));
            assert(all.take(i + 1).last() == word@);
            lemma_utf8_len_push(open@, ' ');
            lemma_utf8_len_concat(open@.push(' '), word@);
            crate::text::lemma_utf8_len_bounds(open@);
        }
        if open.as_str().is_empty() {
            open.append(word);
            open_len = word_len;
        } else {
            let fits: Option<usize> = match (open_len, word_len) {
                (Some(a), Some(b)) => {
                    if b < max_line_length && a <= max_line_length - 1 - b {
                        Some(a + 1 + b)
                    } else {
                        None
                    }
                },
                _ => None,
            };
            match fits {
                Some(n) => {
                    open.push(' ');
                    open.append(word);
                    open_len = Some(n);
                },
                None => {
                    let ghost before = lines.deep_view();
                    let ghost closed = open@;
                    lines.push(open);
                    proof {
                        assert(lines.deep_view() =~= before.push(closed));
                    }
                    open = String::from_str(word);
                    open_len = word_len;
                },
            }
        }
        i += 1;
    }
    proof {
        assert(parts.deep_view().take(parts.len() as int) =~= parts.deep_view());
    }
    if !open.as_str().is_empty() {
        let ghost before = lines.deep_view();
        let ghost closed = open@;
        lines.push(open);
        proof {
            assert(lines.deep_view() =~= before.push(closed));
        }
    }
    lines
}

/// `n` divided by `d` and rounded to the nearest whole number; of two that
/// are equally near, the even one.
pub open spec fn rounded_div(n: nat, d: nat) -> nat {
    let q = n / d;
    let r = n % d;
    if 2 * r > d || (2 * r == d && q % 2 == 1) {
        q + 1
    } else {
        q
    }
}

/// The step between neighbouring double-precision numbers around `size`: one
/// up to 2^53, and twice as much with every doubling beyond.
pub open spec fn granule(size: nat) -> nat
    decreases size,
{
    if size < 0x20_0000_0000_0000 {
        1
    } else {
        2 * granule(size / 2)
    }
}

/// `size` as a double-precision number holds it: the nearest multiple of the
/// granule.
pub open spec fn as_double(size: nat) -> nat {
    rounded_div(size, granule(size)) * granule(size)
}

/// The text for a file size: bytes as they are, larger sizes in KB, MB or GB
/// (each 1024 of the one before) with one decimal, rounded to the nearest.
pub open spec fn file_size_text(size: nat) -> Seq<char> {
    if size < 1024 {
        decimal(size) + " B"@
    } else if size < 1024 * 1024 {
        scaled_size_text(size, 1024, "KB"@)
    } else if size < 1024 * 1024 * 1024 {
        scaled_size_text(size, 1024 * 1024, "MB"@)
    } else {
        scaled_size_text(size, 1024 * 1024 * 1024, "GB"@)
    }
}

/// The text for a size in units of `unit` bytes: the number of tenths of a
/// unit that is nearest to the size, as a double-precision number holds it,
/// written with one decimal, and the name of the unit.
pub open spec fn scaled_size_text(size: nat, unit: nat, name: Seq<char>) -> Seq<char> {
    let tenths = rounded_div(as_double(size) * 10, unit);
    decimal(tenths / 10) + "."@ + decimal(tenths % 10) + " "@ + name
}

fn round_div(n: u128, d: u128) -> (q: u128)
    requires
        0 < d <= 0x1_0000_0000_0000_0000,
        n <= 0x1_0000_0000_0000_0000_0000,
    ensures
        q == rounded_div(n as nat, d as nat),
        q <= n / d + 1,
{
    let q: u128 = n / d;
    let r: u128 = n % d;
    if 2 * r > d || (2 * r == d && q % 2 == 1) {
        q + 1
    } else {
        q
    }
}

fn to_double(size: u64) -> (v: u128)
    ensures
        v == as_double(size as nat),
        v <= 0x2_0000_0000_0000_0000,
        size < 0x20_0000_0000_0000 ==> v == size,
{
    let mut unit: u64 = 1;
    let mut rest: u64 = size;
    while rest >= 0x20_0000_0000_0000
        invariant
            1 <= unit,
            unit == 1 || unit * 0x10_0000_0000_0000 <= size,
            size < 0x20_0000_0000_0000 ==> unit == 1,
            rest == size / unit,
            unit * rest <= size,
            granule(size as nat) == unit * granule(rest as nat),
        decreases rest,
    {
        proof {
            assert(unit * 0x20_0000_0000_0000 <= size) by (nonlinear_arith)
                requires
                    unit * rest <= size,
                    rest >= 0x20_0000_0000_0000,
                    1 <= unit,
            ;
            vstd::arithmetic::div_mod::lemma_div_denominator(size as int, unit as int, 2);
            assert((unit * 2) * (rest / 2) <= size) by (nonlinear_arith)
                requires
                    unit * rest <= size,
                    rest >= 0,
                    unit >= 1,
            ;
            assert(unit * (2 * granule((rest / 2) as nat)) == (unit * 2) * granule(
                (rest / 2) as nat,
            )) by (nonlinear_arith);
        }
        rest = rest / 2;
        unit = unit * 2;
    }
    proof {
        assert(granule(rest as nat) == 1);
        assert(granule(size as nat) == unit) by (nonlinear_arith)
            requires
                granule(size as nat) == unit * granule(rest as nat),
                granule(rest as nat) == 1,
        ;
        assert(unit < 4096);
    }
    let q = round_div(size as u128, unit as u128);
    proof {
        assert(q <= 0x20_0000_0000_0000);
        assert(q * unit <= 0x2_0000_0000_0000_0000) by (nonlinear_arith)
            requires
                q <= 0x20_0000_0000_0000,
                unit < 4096,
        ;
    }
    q * (unit as u128)
}

fn scaled_size(size: u64, unit: u128, name: &str) -> (out: String)
    requires
        unit == 1024 || unit == 1024 * 1024 || unit == 1024 * 1024 * 1024,
    ensures
        out@ == scaled_size_text(size as nat, unit as nat, name@),
{
    let v = to_double(size);
    let tenths = round_div(v * 10, unit);
    proof {
        vstd::arithmetic::div_mod::lemma_div_is_ordered_by_denominator(
            (v * 10) as int,
            1024,
            unit as int,
        );
        assert(tenths <= 0x1000_0000_0000_0000);
    }
    let mut out = String::new();
    push_decimal(&mut out, (tenths / 10) as u64);
    out.append(".");
    push_decimal(&mut out, (tenths % 10) as u64);
    out.append(" ");
    out.append(name);
    out
}

/// The text for a file size, as the attachment line shows it.
pub fn format_file_size(size: usize) -> (out: String)
    ensures
        out@ == file_size_text(size as nat),
{
    let bytes: u64 = size as u64;
    if bytes < 1024 {
        let mut out = String::new();
        push_decimal(&mut out, bytes);
        out.append(" B");
        out
    } else if bytes < 1024 * 1024 {
        scaled_size(bytes, 1024, "KB")
    } else if bytes < 1024 * 1024 * 1024 {
        scaled_size(bytes, 1024 * 1024, "MB")
    } else {
        scaled_size(bytes, 1024 * 1024 * 1024, "GB")
    }
}

/// The height at which a page starts, in millimetres from its lower edge.
pub const PAGE_TOP: i32 = 280;

/// Where text and rules start, in millimetres from the left edge.
pub const MARGIN_LEFT: i32 = 20;

/// Where rules end, in millimetres from the left edge.
pub const MARGIN_RIGHT: i32 = 190;

/// Where the lines of a message body start, in millimetres from the left
/// edge.
pub const BODY_INDENT: i32 = 25;

/// The distance between two lines of a message's header.
pub const LINE_HEIGHT: i32 = 6;

/// The distance between two lines of a message's body.
pub const BODY_LINE_HEIGHT: i32 = 4;

/// A message starts on a new page where less height than this is left.
pub const RECORD_LOW_WATER: i32 = 50;

/// A body line goes to a new page where less height than this is left, and a
/// separating rule is only drawn above it.
pub const BODY_LOW_WATER: i32 = 30;

/// The lowest height at which anything is ever drawn.
pub const LOWEST_DRAWN: i32 = 14;

/// The cap on the header fields of a message, in bytes.
pub const FIELD_CAP: usize = 80;

/// The cap on a line of a message body, in bytes.
pub const BODY_LINE_CAP: usize = 90;

/// The cap on the number of body lines that are shown of a message.
pub const MAX_BODY_LINES: usize = 10;

/// The two cuts of the one typeface that the documents use.
#[derive(Clone, Copy, Debug, PartialEq, Eq)]
pub enum FontStyle {
    Regular,
    Bold,
}

/// One thing to draw on a page: a line of text that starts at a point, or a
/// horizontal rule at a height.
#[derive(Debug)]
pub enum DrawOp {
    Text { text: String, size: u32, x: i32, y: i32, font: FontStyle },
    Rule { from_x: i32, to_x: i32, y: i32 },
}

/// What a `DrawOp` stands for.
pub enum DrawOpModel {
    Text { text: Seq<char>, size: int, x: int, y: int, font: FontStyle },
    Rule { from_x: int, to_x: int, y: int },
}

impl DrawOpModel {
    /// The height at which the thing is drawn.
    pub open spec fn height(self) -> int {
        match self {
            DrawOpModel::Text { y, .. } => y,
            DrawOpModel::Rule { y, .. } => y,
        }
    }

    /// Whether the thing is drawn between the lowest height and the top of
    /// the page.
    pub open spec fn on_page(self) -> bool {
        LOWEST_DRAWN <= self.height() <= PAGE_TOP
    }
}

impl View for DrawOp {
    type V = DrawOpModel;

    open spec fn view(&self) -> DrawOpModel {
        match self {
            DrawOp::Text { text, size, x, y, font } => DrawOpModel::Text {
                text: text@,
                size: *size as int,
                x: *x as int,
                y: *y as int,
                font: *font,
            },
            DrawOp::Rule { from_x, to_x, y } => DrawOpModel::Rule {
                from_x: *from_x as int,
                to_x: *to_x as int,
                y: *y as int,
            },
        }
    }
}

impl DeepView for DrawOp {
    type V = DrawOpModel;

    open spec fn deep_view(&self) -> DrawOpModel {
        self@
    }
}

/// One page: what is drawn on it, in the order of drawing.
#[derive(Debug)]
pub struct Page {
    pub ops: Vec<DrawOp>,
}

impl View for Page {
    type V = Seq<DrawOpModel>;

    open spec fn view(&self) -> Seq<DrawOpModel> {
        self.ops.deep_view()
    }
}

impl DeepView for Page {
    type V = Seq<DrawOpModel>;

    open spec fn deep_view(&self) -> Seq<DrawOpModel> {
        self@
    }
}

/// One document, laid out: the name of its file, its title, and its pages.
#[derive(Debug)]
pub struct DocumentLayout {
    pub file_name: String,
    pub title: String,
    pub pages: Vec<Page>,
}

/// What a `DocumentLayout` stands for.
pub struct DocumentModel {
    pub file_name: Seq<char>,
    pub title: Seq<char>,
    pub pages: Seq<Seq<DrawOpModel>>,
}

impl View for DocumentLayout {
    type V = DocumentModel;

    open spec fn view(&self) -> DocumentModel {
        DocumentModel {
            file_name: self.file_name@,
            title: self.title@,
            pages: self.pages.deep_view(),
        }
    }
}

/// Whether everything on the page is drawn between the lowest height and
/// the top.
pub open spec fn ops_on_page(ops: Seq<DrawOpModel>) -> bool {
    forall|i: int| 0 <= i < ops.len() ==> (#[trigger] ops[i]).on_page()
}

/// Whether that holds of every page.
pub open spec fn pages_on_page(pages: Seq<Seq<DrawOpModel>>) -> bool {
    forall|p: int| 0 <= p < pages.len() ==> ops_on_page(#[trigger] pages[p])
}

/// Where the layout stands: the pages that are full, the page that is being
/// filled, and the height of the next line on it.
pub struct Cursor {
    pub done: Seq<Seq<DrawOpModel>>,
    pub page: Seq<DrawOpModel>,
    pub y: int,
}

impl Cursor {
    /// The top of the first page, with nothing drawn.
    pub open spec fn start() -> Cursor {
        Cursor { done: Seq::empty(), page: Seq::empty(), y: PAGE_TOP as int }
    }

    /// A line of text at the cursor's height.
    pub open spec fn text(self, text: Seq<char>, size: int, x: int, font: FontStyle) -> Cursor {
        Cursor {
            done: self.done,
            page: self.page.push(DrawOpModel::Text { text, size, x, y: self.y, font }),
            y: self.y,
        }
    }

    /// A rule from margin to margin at the cursor's height.
    pub open spec fn rule(self) -> Cursor {
        Cursor {
            done: self.done,
            page: self.page.push(
                DrawOpModel::Rule {
                    from_x: MARGIN_LEFT as int,
                    to_x: MARGIN_RIGHT as int,
                    y: self.y,
                },
            ),
            y: self.y,
        }
    }

    /// The cursor `drop` millimetres further down.
    pub open spec fn lower(self, drop: int) -> Cursor {
        Cursor { done: self.done, page: self.page, y: self.y - drop }
    }

    /// The top of a new page, where less height than `mark` is left on this
    /// one.
    pub open spec fn break_below(self, mark: int) -> Cursor {
        if self.y < mark {
            Cursor { done: self.done.push(self.page), page: Seq::empty(), y: PAGE_TOP as int }
        } else {
            self
        }
    }

    /// All the pages, the one that is being filled last.
    pub open spec fn pages(self) -> Seq<Seq<DrawOpModel>> {
        self.done.push(self.page)
    }

    /// Whether everything drawn so far is on its page.
    pub open spec fn tidy(self) -> bool {
        pages_on_page(self.done) && ops_on_page(self.page)
    }
}

/// The line that opens message number `index`, counted from zero, of
/// `total`.
pub open spec fn record_heading(index: nat, total: nat) -> Seq<char> {
    "Email "@ + decimal(index + 1) + " of "@ + decimal(total)
}

/// What the attachment line says of one attachment: its name, and its size
/// in brackets.
pub open spec fn attachment_label(a: AttachmentModel) -> Seq<char> {
    a.name + " ("@ + file_size_text(a.size) + ")"@
}

/// What the attachment line says of each attachment, in their order.
pub open spec fn attachment_labels(attachments: Seq<AttachmentModel>) -> Seq<Seq<char>> {
    Seq::new(attachments.len(), |i: int| attachment_label(attachments[i]))
}

/// The first `n` of the lines, each at the cursor and the cursor then a body
/// line further down; a line for which too little height is left goes to a
/// new page.
pub open spec fn place_lines(c: Cursor, lines: Seq<Seq<char>>, n: nat) -> Cursor
    decreases n,
{
    if n == 0 {
        c
    } else {
        place_lines(c, lines, (n - 1) as nat).break_below(BODY_LOW_WATER as int).text(
            lines[n - 1],
            9,
            BODY_INDENT as int,
            FontStyle::Regular,
        ).lower(BODY_LINE_HEIGHT as int)
    }
}

/// The header of one message: its number, subject, sender and recipient,
/// those in copy if there are any, the date, and the attachments if there are
/// any; on a new page where too little height is left.
pub open spec fn place_header(c: Cursor, e: EmailModel, index: nat, total: nat) -> Cursor {
    let h = LINE_HEIGHT as int;
    let x = MARGIN_LEFT as int;
    let cap = FIELD_CAP as nat;
    let c1 = c.break_below(RECORD_LOW_WATER as int).text(
        record_heading(index, total),
        12,
        x,
        FontStyle::Bold,
    ).lower(h).text("Subject: "@ + truncated(e.subject, cap), 10, x, FontStyle::Bold).lower(
        h,
    ).text("From: "@ + truncated(e.sender, cap), 10, x, FontStyle::Regular).lower(h).text(
        "To: "@ + truncated(e.recipient, cap),
        10,
        x,
        FontStyle::Regular,
    ).lower(h);
    let c2 = if e.cc_recipients.len() > 0 {
        c1.text(
            "CC: "@ + truncated(join_with(e.cc_recipients, ", "@), cap),
            10,
            x,
            FontStyle::Regular,
        ).lower(h)
    } else {
        c1
    };
    let c3 = c2.text(
        "Date: "@ + display_stamp(e.date.secs, e.date.nanos, 0),
        10,
        x,
        FontStyle::Regular,
    ).lower(h);
    if e.attachments.len() > 0 {
        c3.text(
            "Attachments: "@ + truncated(
                join_with(attachment_labels(e.attachments), ", "@),
                cap,
            ),
            10,
            x,
            FontStyle::Regular,
        ).lower(h)
    } else {
        c3
    }
}

/// How many of `count` body lines are shown.
pub open spec fn shown_lines(count: nat) -> nat {
    if count < MAX_BODY_LINES {
        count
    } else {
        MAX_BODY_LINES as nat
    }
}

/// One message: its header, half a line of room, the body lines that are
/// shown, and a rule to part it from the next where height is left for one.
pub open spec fn place_email(c: Cursor, e: EmailModel, index: nat, total: nat) -> Cursor {
    let lines = body_lines(e.body, BODY_LINE_CAP as nat);
    let body = place_lines(
        place_header(c, e, index, total).lower(LINE_HEIGHT as int / 2),
        lines,
        shown_lines(lines.len()),
    ).lower(LINE_HEIGHT as int);
    let parted = if body.y > BODY_LOW_WATER {
        body.rule()
    } else {
        body
    };
    parted.lower(LINE_HEIGHT as int)
}

/// The first `n` of the messages, one after the other.
pub open spec fn place_emails(c: Cursor, emails: Seq<EmailModel>, n: nat) -> Cursor
    decreases n,
{
    if n == 0 {
        c
    } else {
        place_email(
            place_emails(c, emails, (n - 1) as nat),
            emails[n - 1],
            (n - 1) as nat,
            emails.len(),
        )
    }
}

/// The title of the documents of an archive.
pub open spec fn document_title(base_name: Seq<char>) -> Seq<char> {
    "Email Archive - "@ + base_name
}

/// The line under the title: when the run began, how many messages the
/// document holds, and which document of the run it is.
pub open spec fn generation_info(stamp: LocalInstant, count: nat, sequence: nat) -> Seq<char> {
    "Generated: "@ + display_stamp(stamp.secs, stamp.nanos, stamp.offset) + " | Emails: "@
        + decimal(count) + " | Sequence: "@ + decimal(sequence)
}

/// The top of a document: title, generation line and a rule.
pub open spec fn place_heading(title: Seq<char>, info: Seq<char>) -> Cursor {
    Cursor::start().text(title, 16, MARGIN_LEFT as int, FontStyle::Bold).lower(
        2 * LINE_HEIGHT,
    ).text(info, 10, MARGIN_LEFT as int, FontStyle::Regular).lower(2 * LINE_HEIGHT).rule().lower(
        LINE_HEIGHT as int,
    )
}

/// The name of the file of document number `sequence`: the moment the run
/// began, the base name and the number.
pub open spec fn document_file_name(
    stamp: LocalInstant,
    base_name: Seq<char>,
    sequence: nat,
) -> Seq<
    char,
> {
    file_stamp(stamp.secs, stamp.nanos, stamp.offset) + "_"@ + base_name + "_"@ + decimal(sequence)
        + ".pdf"@
}

/// Within one run, documents of different numbers have files of different
/// names, and a number has the same name whenever it is asked for.
pub proof fn lemma_file_names_tell_documents_apart(
    stamp: LocalInstant,
    base_name: Seq<char>,
    a: nat,
    b: nat,
)
    ensures
        document_file_name(stamp, base_name, a) == document_file_name(stamp, base_name, b) <==> a
            == b,
{
    if document_file_name(stamp, base_name, a) == document_file_name(stamp, base_name, b) {
        let start = file_stamp(stamp.secs, stamp.nanos, stamp.offset) + "_"@ + base_name + "_"@;
        lemma_same_middle(start, decimal(a), decimal(b), ".pdf"@);
        lemma_decimal_injective(a, b);
    }
}

/// The pen that fills the pages.
struct Pen {
    done: Vec<Page>,
    page: Vec<DrawOp>,
    y: i32,
}

impl View for Pen {
    type V = Cursor;

    closed spec fn view(&self) -> Cursor {
        Cursor { done: self.done.deep_view(), page: self.page.deep_view(), y: self.y as int }
    }
}

impl Pen {
    fn start() -> (pen: Pen)
        ensures
            pen@ == Cursor::start(),
            pen@.tidy(),
    {
        let pen = Pen { done: Vec::new(), page: Vec::new(), y: PAGE_TOP };
        proof {
            assert(pen.done.deep_view() =~= Seq::empty());
            assert(pen.page.deep_view() =~= Seq::empty());
        }
        pen
    }

    fn height(&self) -> (y: i32)
        ensures
            y == self@.y,
    {
        self.y
    }

    fn text(&mut self, text: String, size: u32, x: i32, font: FontStyle)
        ensures
            final(self)@ == old(self)@.text(text@, size as int, x as int, font),
            old(self)@.tidy() && LOWEST_DRAWN <= old(self)@.y <= PAGE_TOP ==> final(self)@.tidy(),
    {
        let ghost before = self.page.deep_view();
        let op = DrawOp::Text { text, size, x, y: self.y, font };
        let ghost model = op@;
        self.page.push(op);
        proof {
            assert(self.page.deep_view() =~= before.push(model));
        }
    }

    fn rule(&mut self)
        ensures
            final(self)@ == old(self)@.rule(),
            old(self)@.tidy() && LOWEST_DRAWN <= old(self)@.y <= PAGE_TOP ==> final(self)@.tidy(),
    {
        let ghost before = self.page.deep_view();
        let op = DrawOp::Rule { from_x: MARGIN_LEFT, to_x: MARGIN_RIGHT, y: self.y };
        let ghost model = op@;
        self.page.push(op);
        proof {
            assert(self.page.deep_view() =~= before.push(model));
        }
    }

    fn lower(&mut self, drop: i32)
        requires
            0 <= drop <= 100,
            -100 <= old(self)@.y <= PAGE_TOP,
        ensures
            final(self)@ == old(self)@.lower(drop as int),
            old(self)@.tidy() ==> final(self)@.tidy(),
    {
        self.y = self.y - drop;
    }

    fn break_below(&mut self, mark: i32)
        ensures
            final(self)@ == old(self)@.break_below(mark as int),
            old(self)@.tidy() ==> final(self)@.tidy(),
    {
        if self.y < mark {
            let ghost before = self.done.deep_view();
            let ghost filled = self.page.deep_view();
            let mut fresh: Vec<DrawOp> = Vec::new();
            std::mem::swap(&mut self.page, &mut fresh);
            self.done.push(Page { ops: fresh });
            self.y = PAGE_TOP;
            proof {
                assert(self.done.deep_view() =~= before.push(filled));
                assert(self.page.deep_view() =~= Seq::empty());
            }
        }
    }

    fn finish(self) -> (pages: Vec<Page>)
        ensures
            pages.deep_view() == self@.pages(),
            self@.tidy() ==> pages_on_page(pages.deep_view()),
    {
        let ghost before = self.done.deep_view();
        let ghost filled = self.page.deep_view();
        let mut pages = self.done;
        pages.push(Page { ops: self.page });
        proof {
            assert(pages.deep_view() =~= before.push(filled));
        }
        pages
    }
}

fn labelled(label: &str, value: &str) -> (out: String)
    ensures
        out@ == label@ + value@,
{
    String::from_str(label).concat(value)
}

fn capped_field(label: &str, value: &str) -> (out: String)
    ensures
        out@ == label@ + truncated(value@, FIELD_CAP as nat),
{
    let short = truncate_text(value, FIELD_CAP);
    labelled(label, short.as_str())
}

fn attachment_line(attachments: &Vec<Attachment>) -> (out: String)
    ensures
        out@ == "Attachments: "@ + truncated(
            join_with(attachment_labels(attachments.deep_view()), ", "@),
            FIELD_CAP as nat,
        ),
{
    let mut labels: Vec<String> = Vec::new();
    let mut i: usize = 0;
    proof {
        assert(labels.deep_view() =~= attachment_labels(attachments.deep_view()).take(0));
    }
    while i < attachments.len()
        invariant
            i <= attachments.len(),
            labels.deep_view() == attachment_labels(attachments.deep_view()).take(i as int),
        decreases attachments.len() - i,
    {
        let a = &attachments[i];
        let size = format_file_size(a.size);
        let label = String::from_str(a.name.as_str()).concat(" (").concat(size.as_str()).concat(
            ")",
        );
        let ghost before = labels.deep_view();
        let ghost added = label@;
        labels.push(label);
        proof {
            let all = attachment_labels(attachments.deep_view());
            assert(attachments.deep_view()[i as int] == a@);
            assert(all[i as int] == added);
            assert(labels.deep_view() =~= before.push(added));
            assert(all.take(i + 1) =~= all.take(i as int).push(all[i as int]));
        }
        i += 1;
    }
    proof {
        let all = attachment_labels(attachments.deep_view());
        assert(all.take(attachments.len() as int) =~= all);
    }
    let joined = join(&labels, ", ");
    capped_field("Attachments: ", joined.as_str())
}

fn place_header_of(pen: &mut Pen, email: &Email, index: usize, total: usize)
    requires
        index < total,
        -100 <= old(pen)@.y <= PAGE_TOP,
    ensures
        final(pen)@ == place_header(old(pen)@, email@, index as nat, total as nat),
        old(pen)@.tidy() ==> final(pen)@.tidy(),
        8 <= final(pen)@.y <= PAGE_TOP,
{
    pen.break_below(RECORD_LOW_WATER);
    let mut heading = String::from_str("Email ");
    push_decimal(&mut heading, (index + 1) as u64);
    heading.append(" of ");
    push_decimal(&mut heading, total as u64);
    pen.text(heading, 12, MARGIN_LEFT, FontStyle::Bold);
    pen.lower(LINE_HEIGHT);
    pen.text(capped_field("Subject: ", email.subject.as_str()), 10, MARGIN_LEFT, FontStyle::Bold);
    pen.lower(LINE_HEIGHT);
    pen.text(capped_field("From: ", email.sender.as_str()), 10, MARGIN_LEFT, FontStyle::Regular);
    pen.lower(LINE_HEIGHT);
    pen.text(capped_field("To: ", email.recipient.as_str()), 10, MARGIN_LEFT, FontStyle::Regular);
    pen.lower(LINE_HEIGHT);
    if !email.cc_recipients.is_empty() {
        let list = join(&email.cc_recipients, ", ");
        pen.text(capped_field("CC: ", list.as_str()), 10, MARGIN_LEFT, FontStyle::Regular);
        pen.lower(LINE_HEIGHT);
    }
    let date = email.formatted_date();
    pen.text(labelled("Date: ", date.as_str()), 10, MARGIN_LEFT, FontStyle::Regular);
    pen.lower(LINE_HEIGHT);
    if email.has_attachments() {
        pen.text(attachment_line(&email.attachments), 10, MARGIN_LEFT, FontStyle::Regular);
        pen.lower(LINE_HEIGHT);
    }
}

fn place_email_of(pen: &mut Pen, email: &Email, index: usize, total: usize)
    requires
        index < total,
        -100 <= old(pen)@.y <= PAGE_TOP,
    ensures
        final(pen)@ == place_email(old(pen)@, email@, index as nat, total as nat),
        old(pen)@.tidy() ==> final(pen)@.tidy(),
        -7 <= final(pen)@.y <= PAGE_TOP,
{
    place_header_of(pen, email, index, total);
    pen.lower(LINE_HEIGHT / 2);
    let lines = prepare_body_text(email.body.as_str(), BODY_LINE_CAP);
    let shown: usize = if lines.len() < MAX_BODY_LINES {
        lines.len()
    } else {
        MAX_BODY_LINES
    };
    let ghost top = pen@;
    let mut k: usize = 0;
    while k < shown
        invariant
            k <= shown <= lines.len(),
            pen@ == place_lines(top, lines.deep_view(), k as nat),
            top.tidy() ==> pen@.tidy(),
            5 <= pen@.y <= PAGE_TOP,
        decreases shown - k,
    {
        pen.break_below(BODY_LOW_WATER);
        pen.text(lines[k].clone(), 9, BODY_INDENT, FontStyle::Regular);
        pen.lower(BODY_LINE_HEIGHT);
        k += 1;
    }
    pen.lower(LINE_HEIGHT);
    if pen.height() > BODY_LOW_WATER {
        pen.rule();
    }
    pen.lower(LINE_HEIGHT);
}

/// The layout engine of one run: where the documents go, what they are
/// called, and the moment the run began, which all their names carry.
#[derive(Debug)]
pub struct PdfGenerator {
    output_dir: String,
    base_name: String,
    session_timestamp: LocalTimestamp,
}

/// What a `PdfGenerator` stands for.
pub struct GeneratorModel {
    pub output_dir: Seq<char>,
    pub base_name: Seq<char>,
    pub session_timestamp: LocalInstant,
}

impl View for PdfGenerator {
    type V = GeneratorModel;

    closed spec fn view(&self) -> GeneratorModel {
        GeneratorModel {
            output_dir: self.output_dir@,
            base_name: self.base_name@,
            session_timestamp: self.session_timestamp@,
        }
    }
}

impl GeneratorModel {
    /// The name of the file of document number `sequence`.
    pub open spec fn file_name(self, sequence: nat) -> Seq<char> {
        document_file_name(self.session_timestamp, self.base_name, sequence)
    }

    /// Document number `sequence`, made of `emails`.
    pub open spec fn document(self, emails: Seq<EmailModel>, sequence: nat) -> DocumentModel {
        DocumentModel {
            file_name: self.file_name(sequence),
            title: document_title(self.base_name),
            pages: place_emails(
                place_heading(
                    document_title(self.base_name),
                    generation_info(self.session_timestamp, emails.len(), sequence),
                ),
                emails,
                emails.len(),
            ).pages(),
        }
    }
}

/// Why a generator cannot work with a directory: nothing there, no
/// directory, or no way to write into it.
pub open spec fn generator_fault(output_dir: Seq<char>, facts: DirectoryFacts) -> Option<PdfFault> {
    if !facts.exists {
        Some(PdfFault::InvalidOutputDirectory("Directory does not exist: "@ + output_dir))
    } else if facts.is_directory != Ok::<bool, IoFault>(true) {
        Some(PdfFault::InvalidOutputDirectory("Path is not a directory: "@ + output_dir))
    } else {
        write_test_fault(output_dir, facts.write_test)
    }
}

/// Why a generator cannot write into its directory, if it cannot.
pub open spec fn write_test_fault(output_dir: Seq<char>, write_test: Result<(), IoFault>) -> Option<
    PdfFault,
> {
    match write_test {
        Ok(()) => None,
        Err(fault) => Some(
            PdfFault::PermissionDenied(
                "Cannot write to directory "@ + output_dir + ": "@ + fault.detail,
            ),
        ),
    }
}

fn check_write_test(output_dir: &str, write_test: &Result<(), IoFailure>) -> (r: Result<
    (),
    PdfError,
>)
    ensures
        match r {
            Ok(()) => *write_test is Ok,
            Err(e) => *write_test matches Err(failure) && write_test_fault(
                output_dir@,
                Err(failure@),
            ) == Some(e@),
        },
{
    match write_test {
        Ok(()) => Ok(()),
        Err(failure) => {
            let e = PdfError::PermissionDenied(
                String::from_str("Cannot write to directory ").concat(output_dir).concat(
                    ": ",
                ).concat(failure.detail.as_str()),
            );
            Err(e)
        },
    }
}

impl PdfGenerator {
    /// A generator for the directory, where the probe found it to be a
    /// directory that can be written to. The moment of the call becomes the
    /// moment the run began.
    pub fn new(output_dir: String, base_name: String, probe: &DirectoryProbe) -> (r: Result<
        PdfGenerator,
        PdfError,
    >)
        ensures
            match r {
                Ok(g) => {
                    &&& generator_fault(output_dir@, probe@) is None
                    &&& g@.output_dir == output_dir@
                    &&& g@.base_name == base_name@
                },
                Err(e) => generator_fault(output_dir@, probe@) == Some(e@),
            },
    {
        Self::new_at(output_dir, base_name, probe, LocalTimestamp::now())
    }

    /// A generator for a run that began at `session_timestamp`.
    pub fn new_at(
        output_dir: String,
        base_name: String,
        probe: &DirectoryProbe,
        session_timestamp: LocalTimestamp,
    ) -> (r: Result<PdfGenerator, PdfError>)
        ensures
            match r {
                Ok(g) => {
                    &&& generator_fault(output_dir@, probe@) is None
                    &&& g@ == (GeneratorModel {
                        output_dir: output_dir@,
                        base_name: base_name@,
                        session_timestamp: session_timestamp@,
                    })
                },
                Err(e) => generator_fault(output_dir@, probe@) == Some(e@),
            },
    {
        if !probe.exists {
            let e = PdfError::InvalidOutputDirectory(
                String::from_str("Directory does not exist: ").concat(output_dir.as_str()),
            );
            return Err(e);
        }
        let is_directory = match &probe.is_directory {
            Ok(b) => *b,
            Err(_) => false,
        };
        if !is_directory {
            let e = PdfError::InvalidOutputDirectory(
                String::from_str("Path is not a directory: ").concat(output_dir.as_str()),
            );
            return Err(e);
        }
        if let Err(e) = check_write_test(output_dir.as_str(), &probe.write_test) {
            return Err(e);
        }
        Ok(PdfGenerator { output_dir, base_name, session_timestamp })
    }

    /// Lays out document number `sequence` of the run, made of `emails` in
    /// their order. A batch without messages makes no document.
    pub fn generate_pdf(&self, emails: Vec<Email>, sequence: u32) -> (r: Result<
        DocumentLayout,
        PdfError,
    >)
        ensures
            match r {
                Ok(doc) => {
                    &&& emails.len() > 0
                    &&& doc@ == self@.document(emails.deep_view(), sequence as nat)
                    &&& pages_on_page(doc@.pages)
                },
                Err(e) => {
                    &&& emails.len() == 0
                    &&& e@ == PdfFault::GenerationFailed(
                        "Cannot generate PDF from empty email list"@,
                    )
                },
            },
    {
        if emails.is_empty() {
            let e = PdfError::GenerationFailed(
                String::from_str("Cannot generate PDF from empty email list"),
            );
            return Err(e);
        }
        let file_name = self.generate_filename(sequence);
        let title = labelled("Email Archive - ", self.base_name.as_str());
        let stamp = self.session_timestamp.formatted();
        let mut info = String::from_str("Generated: ").concat(stamp.as_str());
        info.append(" | Emails: ");
        push_decimal(&mut info, emails.len() as u64);
        info.append(" | Sequence: ");
        push_decimal(&mut info, sequence as u64);

        let mut pen = Pen::start();
        pen.text(title.clone(), 16, MARGIN_LEFT, FontStyle::Bold);
        pen.lower(2 * LINE_HEIGHT);
        pen.text(info, 10, MARGIN_LEFT, FontStyle::Regular);
        pen.lower(2 * LINE_HEIGHT);
        pen.rule();
        pen.lower(LINE_HEIGHT);
        let ghost top = pen@;
        let mut i: usize = 0;
        while i < emails.len()
            invariant
                i <= emails.len(),
                pen@ == place_emails(top, emails.deep_view(), i as nat),
                pen@.tidy(),
                -7 <= pen@.y <= PAGE_TOP,
            decreases emails.len() - i,
        {
            proof {
                assert(emails.deep_view()[i as int] == emails@[i as int]@);
            }
            place_email_of(&mut pen, &emails[i], i, emails.len());
            i += 1;
        }
        let pages = pen.finish();
        Ok(DocumentLayout { file_name, title, pages })
    }

    /// The name of the file of document number `sequence`. The same number
    /// gives the same name for as long as the generator lives.
    pub fn generate_filename(&self, sequence: u32) -> (name: String)
        ensures
            name@ == self@.file_name(sequence as nat),
    {
        let mut name = self.session_timestamp.file_stamp();
        name.append("_");
        name.append(self.base_name.as_str());
        name.append("_");
        push_decimal(&mut name, sequence as u64);
        name.append(".pdf");
        name
    }

    /// Cuts `text` down to `max_length` bytes, the three dots that mark the
    /// cut included.
    pub fn truncate_text(&self, text: &str, max_length: usize) -> (out: String)
        ensures
            out@ == truncated(text@, max_length as nat),
    {
        truncate_text(text, max_length)
    }

    /// Removes the markup from `body` and wraps its words into lines of at
    /// most `max_line_length` bytes.
    pub fn prepare_body_text(&self, body: &str, max_line_length: usize) -> (lines: Vec<String>)
        ensures
            lines.deep_view() == body_lines(body@, max_line_length as nat),
    {
        prepare_body_text(body, max_line_length)
    }

    /// Removes the tags from `html` and collapses its whitespace.
    pub fn strip_html_tags(&self, html: &str) -> (out: String)
        ensures
            out@ == stripped(html@),
            !out@.contains('<'),
            !out@.contains('>'),
    {
        strip_html_tags(html)
    }

    /// The text for a file size, as the attachment line shows it.
    pub fn format_file_size(&self, size: usize) -> (out: String)
        ensures
            out@ == file_size_text(size as nat),
    {
        format_file_size(size)
    }

    /// Reads the outcome of an attempt to write into the generator's
    /// directory.
    pub fn validate_output_directory(&self, write_test: &Result<(), IoFailure>) -> (r: Result<
        (),
        PdfError,
    >)
        ensures
            match r {
                Ok(()) => *write_test is Ok,
                Err(e) => *write_test matches Err(failure) && write_test_fault(
                    self@.output_dir,
                    Err(failure@),
                ) == Some(e@),
            },
    {
        check_write_test(self.output_dir.as_str(), write_test)
    }

    /// The moment the run began.
    pub fn get_session_timestamp(&self) -> (t: LocalTimestamp)
        ensures
            t@ == self@.session_timestamp,
    {
        self.session_timestamp
    }

    /// The directory that the documents go to.
    pub fn output_dir(&self) -> (dir: &str)
        ensures
            dir@ == self@.output_dir,
    {
        self.output_dir.as_str()
    }

    /// The name that every document of the run carries.
    pub fn base_name(&self) -> (name: &str)
        ensures
            name@ == self@.base_name,
    {
        self.base_name.as_str()
    }
}

} // verus!
