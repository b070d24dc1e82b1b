//! Text helpers shared by the layout engine, the validators and the error
//! messages: decimal numbers, UTF-8 lengths, words and whitespace.
//!
//! A string is modelled by its view, the sequence of its characters.

use vstd::prelude::*;
use vstd::string::*;

verus! {

/// `String::push` appends one character to the end of the string.
pub assume_specification[ String::push ](s: &mut String, c: char)
    ensures
        final(s)@ == old(s)@.push(c),
;

/// Whether `c` has the Unicode property `White_Space`: the controls from tab
/// to carriage return, the space, next line, the no-break space, the Ogham
/// space mark, the spaces from en quad to hair space, the line and paragraph
/// separators, the narrow no-break space, the medium mathematical space and
/// the ideographic space.
pub open spec fn is_white_space(c: char) -> bool {
    let v = c as u32;
    (0x09 <= v <= 0x0D) || v == 0x20 || v == 0x85 || v == 0xA0 || v == 0x1680 || (0x2000 <= v
        <= 0x200A) || v == 0x2028 || v == 0x2029 || v == 0x202F || v == 0x205F || v == 0x3000
}

/// `char::is_whitespace` tells whether the character has the Unicode property
/// `White_Space`, which is the list of 25 characters above.
pub assume_specification[ char::is_whitespace ](c: char) -> (b: bool)
    ensures
        b == is_white_space(c),
;

/// The ASCII punctuation characters: `!` to `/`, `:` to `@`, `[` to `` ` ``
/// and `{` to `~`.
pub open spec fn is_ascii_punct(c: char) -> bool {
    let v = c as u32;
    (0x21 <= v <= 0x2F) || (0x3A <= v <= 0x40) || (0x5B <= v <= 0x60) || (0x7B <= v <= 0x7E)
}

/// Whether `c` is an ASCII punctuation character.
pub fn is_ascii_punctuation(c: char) -> (b: bool)
    ensures
        b == is_ascii_punct(c),
{
    let v: u32 = c as u32;
    (0x21 <= v && v <= 0x2F) || (0x3A <= v && v <= 0x40) || (0x5B <= v && v <= 0x60) || (0x7B <= v
        && v <= 0x7E)
}

/// The number of bytes that the UTF-8 encoding of `c` takes.
pub open spec fn utf8_width(c: char) -> nat {
    let v = c as u32;
    if v < 0x80 {
        1
    } else if v < 0x800 {
        2
    } else if v < 0x1_0000 {
        3
    } else {
        4
    }
}

/// The number of bytes that the UTF-8 encoding of `s` takes.
pub open spec fn utf8_len(s: Seq<char>) -> nat
    decreases s.len(),
{
    if s.len() == 0 {
        0
    } else {
        utf8_len(s.drop_last()) + utf8_width(s.last())
    }
}

/// The number of bytes that the UTF-8 encoding of `c` takes.
pub fn char_width(c: char) -> (w: usize)
    ensures
        w == utf8_width(c),
        1 <= w <= 4,
{
    let v: u32 = c as u32;
    if v < 0x80 {
        1
    } else if v < 0x800 {
        2
    } else if v < 0x1_0000 {
        3
    } else {
        4
    }
}

/// One character more takes its width more.
pub proof fn lemma_utf8_len_push(s: Seq<char>, c: char)
    ensures
        utf8_len(s.push(c)) == utf8_len(s) + utf8_width(c),
{
    assert(s.push(c).drop_last() =~= s);
}

/// Two texts in a row take the bytes of both.
pub proof fn lemma_utf8_len_concat(a: Seq<char>, b: Seq<char>)
    ensures
        utf8_len(a + b) == utf8_len(a) + utf8_len(b),
    decreases b.len(),
{
    if b.len() == 0 {
        assert(a + b =~= a);
    } else {
        lemma_utf8_len_concat(a, b.drop_last());
        assert((a + b).drop_last() =~= a + b.drop_last());
    }
}

/// Every character takes at least one byte and at most four.
pub proof fn lemma_utf8_len_bounds(s: Seq<char>)
    ensures
        s.len() <= utf8_len(s) <= 4 * s.len(),
    decreases s.len(),
{
    if s.len() > 0 {
        lemma_utf8_len_bounds(s.drop_last());
    }
}

/// The byte length of `s` where it is at most `budget`, and `None` where it
/// is more.
pub fn measure(s: &str, budget: usize) -> (len: Option<usize>)
    ensures
        match len {
            Some(n) => n == utf8_len(s@) && n <= budget,
            None => utf8_len(s@) > budget,
        },
{
    let mut used: usize = 0;
    for c in it: s.chars()
        invariant
            it.seq() == s@,
            used == utf8_len(s@.take(it.index() as int)),
            used <= budget,
    {
        let w: usize = char_width(c);
        proof {
            let i = it.index() as int;
            assert(s@.take(i + 1) =~= s@.take(i).push(s@[i]));
            lemma_utf8_len_push(s@.take(i), s@[i]);
            if w > budget - used {
                assert(s@ =~= s@.take(i + 1) + s@.skip(i + 1));
                lemma_utf8_len_concat(s@.take(i + 1), s@.skip(i + 1));
            }
        }
        if w > budget - used {
            return None;
        }
        used = used + w;
    }
    proof {
        assert(s@.take(s@.len() as int) =~= s@);
    }
    Some(used)
}

/// The decimal digit for `d`, which is meant to be below ten.
pub open spec fn digit_char(d: int) -> char {
    if d == 0 {
        '0'
    } else if d == 1 {
        '1'
    } else if d == 2 {
        '2'
    } else if d == 3 {
        '3'
    } else if d == 4 {
        '4'
    } else if d == 5 {
        '5'
    } else if d == 6 {
        '6'
    } else if d == 7 {
        '7'
    } else if d == 8 {
        '8'
    } else {
        '9'
    }
}

/// The decimal notation of `n`, without sign or leading zeros.
pub open spec fn decimal(n: nat) -> Seq<char>
    decreases n,
{
    if n < 10 {
        seq![digit_char(n as int)]
    } else {
        decimal(n / 10).push(digit_char((n % 10) as int))
    }
}

fn digit_of(d: u64) -> (c: char)
    requires
        d < 10,
    ensures
        c == digit_char(d as int),
{
    if d == 0 {
        '0'
    } else if d == 1 {
        '1'
    } else if d == 2 {
        '2'
    } else if d == 3 {
        '3'
    } else if d == 4 {
        '4'
    } else if d == 5 {
        '5'
    } else if d == 6 {
        '6'
    } else if d == 7 {
        '7'
    } else if d == 8 {
        '8'
    } else {
        '9'
    }
}

/// Appends the decimal notation of `n` to `out`.
pub fn push_decimal(out: &mut String, n: u64)
    ensures
        final(out)@ == old(out)@ + decimal(n as nat),
    decreases n,
{
    if n >= 10 {
        push_decimal(out, n / 10);
    }
    out.push(digit_of(n % 10));
}

/// The decimal notation of `n`.
pub fn decimal_string(n: u64) -> (out: String)
    ensures
        out@ == decimal(n as nat),
{
    let mut out = String::new();
    push_decimal(&mut out, n);
    out
}

/// A decimal notation is made of digits only, at least one of them.
pub proof fn lemma_decimal_digits(n: nat)
    ensures
        decimal(n).len() >= 1,
        forall|i: int| 0 <= i < decimal(n).len() ==> '0' <= #[trigger] decimal(n)[i] <= '9',
    decreases n,
{
    if n >= 10 {
        lemma_decimal_digits(n / 10);
    }
}

/// Whether `path` is one plain name on every platform: it holds none of
/// `/`, `\` and `:`, which part the names of a path or mark a drive.
pub open spec fn is_plain_name(path: Seq<char>) -> bool {
    !path.contains('/') && !path.contains('\\') && !path.contains(':')
}

/// The place of the last dot in `path`; below zero where it has none.
pub open spec fn last_dot(path: Seq<char>) -> int
    decreases path.len(),
{
    if path.len() == 0 {
        -1
    } else if path.last() == '.' {
        path.len() - 1
    } else {
        last_dot(path.drop_last())
    }
}

/// Whether `s` ends with `suffix`.
pub open spec fn ends_with(s: Seq<char>, suffix: Seq<char>) -> bool {
    s.len() >= suffix.len() && s.skip(s.len() - suffix.len()) == suffix
}

/// Whether `s` starts with `prefix`.
pub open spec fn starts_with(s: Seq<char>, prefix: Seq<char>) -> bool {
    s.len() >= prefix.len() && s.take(prefix.len() as int) == prefix
}

/// Copies the characters of `s` into a vector, in order.
pub fn chars_of(s: &str) -> (out: Vec<char>)
    ensures
        out@ == s@,
{
    let mut out: Vec<char> = Vec::new();
    for c in it: s.chars()
        invariant
            it.seq() == s@,
            out@ == s@.take(it.index() as int),
    {
        out.push(c);
    }
    out
}

/// Whether `s` ends with `suffix`.
pub fn has_suffix(s: &str, suffix: &str) -> (b: bool)
    ensures
        b == ends_with(s@, suffix@),
{
    let text = chars_of(s);
    let tail = chars_of(suffix);
    if text.len() < tail.len() {
        return false;
    }
    let offset: usize = text.len() - tail.len();
    let mut i: usize = 0;
    while i < tail.len()
        invariant
            i <= tail.len(),
            offset + tail.len() == text.len(),
            text@ == s@,
            tail@ == suffix@,
            forall|j: int| 0 <= j < i ==> text@[offset + j] == tail@[j],
        decreases tail.len() - i,
    {
        if text[offset + i] != tail[i] {
            proof {
                assert(s@.skip(offset as int)[i as int] != suffix@[i as int]);
            }
            return false;
        }
        i += 1;
    }
    proof {
        assert(s@.skip(offset as int) =~= suffix@);
    }
    true
}

/// Whether `s` starts with `prefix`.
pub fn has_prefix(s: &str, prefix: &str) -> (b: bool)
    ensures
        b == starts_with(s@, prefix@),
{
    let head = chars_of(prefix);
    let mut i: usize = 0;
    for c in it: s.chars()
        invariant
            it.seq() == s@,
            head@ == prefix@,
            i == it.index(),
            i <= head.len(),
            forall|j: int| 0 <= j < i ==> s@[j] == head@[j],
    {
        if i == head.len() {
            proof {
                assert(s@.take(prefix@.len() as int) =~= prefix@);
            }
            return true;
        }
        if c != head[i] {
            proof {
                if s@.len() >= prefix@.len() {
                    assert(s@.take(prefix@.len() as int)[i as int] != prefix@[i as int]);
                }
            }
            return false;
        }
        i += 1;
    }
    proof {
        if i == head.len() {
            assert(s@.take(prefix@.len() as int) =~= prefix@);
        }
    }
    i == head.len()
}

/// Whether `c` occurs in `s`.
pub fn contains_char(s: &str, c: char) -> (b: bool)
    ensures
        b == s@.contains(c),
{
    for d in it: s.chars()
        invariant
            it.seq() == s@,
            forall|j: int| 0 <= j < it.index() ==> s@[j] != c,
    {
        if d == c {
            return true;
        }
    }
    false
}

/// Where a scan for words stands: the words that are complete, and the
/// characters of the word that is still open.
pub struct WordScan {
    pub done: Seq<Seq<char>>,
    pub open: Seq<char>,
}

/// One character further: whitespace closes the open word, if there is one,
/// and any other character lengthens it.
pub open spec fn word_scan_step(st: WordScan, c: char) -> WordScan {
    if is_white_space(c) {
        if st.open.len() > 0 {
            WordScan { done: st.done.push(st.open), open: Seq::empty() }
        } else {
            st
        }
    } else {
        WordScan { done: st.done, open: st.open.push(c) }
    }
}

/// Where the scan for words stands after all of `s`.
pub open spec fn word_scan(s: Seq<char>) -> WordScan
    decreases s.len(),
{
    if s.len() == 0 {
        WordScan { done: Seq::empty(), open: Seq::empty() }
    } else {
        word_scan_step(word_scan(s.drop_last()), s.last())
    }
}

/// The words of `s`: its maximal runs of characters that are not whitespace,
/// in order.
pub open spec fn words(s: Seq<char>) -> Seq<Seq<char>> {
    let st = word_scan(s);
    if st.open.len() > 0 {
        st.done.push(st.open)
    } else {
        st.done
    }
}

/// `s` with every run of whitespace turned into one space, and none left at
/// either end.
pub open spec fn collapse_whitespace(s: Seq<char>) -> Seq<char> {
    join_with(words(s), seq![' '])
}

/// No word is empty, and none holds whitespace.
pub proof fn lemma_words_are_solid(s: Seq<char>)
    ensures
        forall|k: int|
            0 <= k < words(s).len() ==> {
                &&& (#[trigger] words(s)[k]).len() > 0
                &&& forall|j: int| 0 <= j < words(s)[k].len() ==> !is_white_space(words(s)[k][j])
            },
{
    lemma_word_scan_solid(s);
}

proof fn lemma_word_scan_solid(s: Seq<char>)
    ensures
        forall|j: int| 0 <= j < word_scan(s).open.len() ==> !is_white_space(word_scan(s).open[j]),
        forall|k: int|
            0 <= k < word_scan(s).done.len() ==> {
                &&& (#[trigger] word_scan(s).done[k]).len() > 0
                &&& forall|j: int|
                    0 <= j < word_scan(s).done[k].len() ==> !is_white_space(word_scan(s).done[k][j])
            },
    decreases s.len(),
{
    if s.len() > 0 {
        lemma_word_scan_solid(s.drop_last());
        let before = word_scan(s.drop_last());
        let after = word_scan(s);
        let c = s.last();
        assert(after == word_scan_step(before, c));
        if is_white_space(c) {
            if before.open.len() > 0 {
                assert forall|k: int| 0 <= k < after.done.len() implies {
                    &&& (#[trigger] after.done[k]).len() > 0
                    &&& forall|j: int|
                        0 <= j < after.done[k].len() ==> !is_white_space(after.done[k][j])
                } by {
                    if k < before.done.len() {
                        assert(after.done[k] == before.done[k]);
                    } else {
                        assert(after.done[k] == before.open);
                    }
                }
            }
        } else {
            assert forall|j: int| 0 <= j < after.open.len() implies !is_white_space(
                after.open[j],
            ) by {
                if j < before.open.len() {
                    assert(after.open[j] == before.open[j]);
                }
            }
        }
    }
}

/// Splits `s` into its words.
pub fn split_words(s: &str) -> (out: Vec<String>)
    ensures
        out.deep_view() == words(s@),
{
    let mut out: Vec<String> = Vec::new();
    let mut open = String::new();
    for c in it: s.chars()
        invariant
            it.seq() == s@,
            out.deep_view() == word_scan(s@.take(it.index() as int)).done,
            open@ == word_scan(s@.take(it.index() as int)).open,
    {
        proof {
            let i = it.index() as int;
            assert(s@.take(i + 1).drop_last() =~= s@.take(i));
        }
        if c.is_whitespace() {
            if !open.as_str().is_empty() {
                let ghost before = out.deep_view();
                out.push(open);
                open = String::new();
                proof {
                    assert(out.deep_view() =~= before.push(
                        word_scan(s@.take(it.index() as int)).open,
                    ));
                }
            }
        } else {
            open.push(c);
        }
    }
    proof {
        assert(s@.take(s@.len() as int) =~= s@);
    }
    if !open.as_str().is_empty() {
        let ghost before = out.deep_view();
        let ghost last = open@;
        out.push(open);
        proof {
            assert(out.deep_view() =~= before.push(last));
        }
    }
    out
}

/// Joins `items` with `sep` between neighbours.
pub open spec fn join_with(items: Seq<Seq<char>>, sep: Seq<char>) -> Seq<char>
    decreases items.len(),
{
    if items.len() == 0 {
        Seq::empty()
    } else if items.len() == 1 {
        items[0]
    } else {
        join_with(items.drop_last(), sep) + sep + items.last()
    }
}

/// The items in a row, with `sep` between neighbours.
pub fn join(items: &Vec<String>, sep: &str) -> (out: String)
    ensures
        out@ == join_with(items.deep_view(), sep@),
{
    let mut out = String::new();
    let mut i: usize = 0;
    while i < items.len()
        invariant
            i <= items.len(),
            out@ == join_with(items.deep_view().take(i as int), sep@),
        decreases items.len() - i,
    {
        proof {
            let all = items.deep_view();
            assert(all.take(i + 1).drop_last() =~= all.take(i as int));
            assert(all.take(i + 1).last() == items@[i as int]@);
        }
        if i > 0 {
            out.append(sep);
        }
        out.append(items[i].as_str());
        i += 1;
    }
    proof {
        assert(items.deep_view().take(items.len() as int) =~= items.deep_view());
    }
    out
}

/// `s` in lower case, as `str::to_lowercase` gives it by the rules of
/// Unicode.
pub uninterp spec fn lowercase_text(s: Seq<char>) -> Seq<char>;

/// `str::to_lowercase` returns the text in lower case; the contract only
/// gives that text its name.
pub assume_specification[ str::to_lowercase ](s: &str) -> (lower: String)
    ensures
        lower@ == lowercase_text(s@),
;

/// `s` in upper case, as `str::to_uppercase` gives it by the rules of
/// Unicode.
pub uninterp spec fn uppercase_text(s: Seq<char>) -> Seq<char>;

/// `str::to_uppercase` returns the text in upper case; the contract only
/// gives that text its name.
pub assume_specification[ str::to_uppercase ](s: &str) -> (upper: String)
    ensures
        upper@ == uppercase_text(s@),
;

/// Whether the two texts are the same.
pub fn same_text(a: &str, b: &str) -> (same: bool)
    ensures
        same == (a@ == b@),
{
    let left = chars_of(a);
    let right = chars_of(b);
    if left.len() != right.len() {
        return false;
    }
    let mut i: usize = 0;
    while i < left.len()
        invariant
            i <= left.len(),
            left.len() == right.len(),
            left@ == a@,
            right@ == b@,
            forall|j: int| 0 <= j < i ==> left@[j] == right@[j],
        decreases left.len() - i,
    {
        if left[i] != right[i] {
            return false;
        }
        i += 1;
    }
    proof {
        assert(a@ =~= b@);
    }
    true
}

/// Ten to the power of `k`.
pub open spec fn pow10(k: nat) -> nat
    decreases k,
{
    if k == 0 {
        1
    } else {
        10 * pow10((k - 1) as nat)
    }
}

/// A number below ten to the power of `k`, with `k` at least one, has at
/// most `k` digits.
pub proof fn lemma_decimal_len(n: nat, k: nat)
    requires
        k >= 1,
        n < pow10(k),
    ensures
        decimal(n).len() <= k,
    decreases k,
{
    if n >= 10 {
        assert(pow10(1) == 10) by {
            reveal_with_fuel(pow10, 2);
        }
        assert(k >= 2);
        assert(n / 10 < pow10((k - 1) as nat));
        lemma_decimal_len(n / 10, (k - 1) as nat);
    }
}

/// A number that fits 64 bits has at most twenty digits.
pub proof fn lemma_decimal_len_u64(n: nat)
    requires
        n <= u64::MAX,
    ensures
        1 <= decimal(n).len() <= 20,
{
    assert(pow10(20) == 100_000_000_000_000_000_000) by {
        reveal_with_fuel(pow10, 21);
    }
    lemma_decimal_len(n, 20);
    lemma_decimal_digits(n);
}

/// Every character of a word of `s` is a character of `s`.
pub proof fn lemma_words_come_from_text(s: Seq<char>)
    ensures
        forall|k: int, j: int|
            0 <= k < words(s).len() && 0 <= j < words(s)[k].len() ==> s.contains(
                #[trigger] words(s)[k][j],
            ),
{
    lemma_word_scan_comes_from_text(s);
}

proof fn lemma_word_scan_comes_from_text(s: Seq<char>)
    ensures
        forall|j: int|
            0 <= j < word_scan(s).open.len() ==> s.contains(#[trigger] word_scan(s).open[j]),
        forall|k: int, j: int|
            0 <= k < word_scan(s).done.len() && 0 <= j < word_scan(s).done[k].len() ==> s.contains(
                #[trigger] word_scan(s).done[k][j],
            ),
    decreases s.len(),
{
    if s.len() > 0 {
        let front = s.drop_last();
        lemma_word_scan_comes_from_text(front);
        let before = word_scan(front);
        let after = word_scan(s);
        let c = s.last();
        assert(after == word_scan_step(before, c));
        assert forall|x: char| front.contains(x) implies s.contains(x) by {
            let i = choose|i: int| 0 <= i < front.len() && front[i] == x;
            assert(s[i] == x);
        }
        assert(s.contains(c)) by {
            assert(s[s.len() - 1] == c);
        }
        assert forall|j: int| 0 <= j < after.open.len() implies s.contains(
            #[trigger] after.open[j],
        ) by {
            if !is_white_space(c) {
                if j < before.open.len() {
                    assert(after.open[j] == before.open[j]);
                    assert(front.contains(before.open[j]));
                }
            }
        }
        assert forall|k: int, j: int|
            0 <= k < after.done.len() && 0 <= j < after.done[k].len() implies s.contains(
            #[trigger] after.done[k][j],
        ) by {
            if k < before.done.len() {
                assert(after.done[k] == before.done[k]);
                assert(front.contains(before.done[k][j]));
            } else {
                assert(after.done[k] == before.open);
                assert(front.contains(before.open[j]));
            }
        }
    }
}

/// Every character of joined items is a character of one of the items or of
/// the separator.
pub proof fn lemma_joined_characters(items: Seq<Seq<char>>, sep: Seq<char>, c: char)
    requires
        join_with(items, sep).contains(c),
    ensures
        sep.contains(c) || exists|k: int| 0 <= k < items.len() && (#[trigger] items[k]).contains(c),
    decreases items.len(),
{
    if items.len() == 1 {
        assert(items[0].contains(c));
    } else if items.len() > 1 {
        let front = items.drop_last();
        let head = join_with(front, sep);
        let whole = head + sep + items.last();
        let i = choose|i: int| 0 <= i < whole.len() && whole[i] == c;
        if i < head.len() {
            assert(head[i] == c);
            lemma_joined_characters(front, sep, c);
            if !sep.contains(c) {
                let k = choose|k: int| 0 <= k < front.len() && (#[trigger] front[k]).contains(c);
                assert(items[k] == front[k]);
            }
        } else if i < head.len() + sep.len() {
            assert(sep[i - head.len()] == c);
        } else {
            assert(items.last()[i - head.len() - sep.len()] == c);
            assert(items[items.len() - 1].contains(c));
        }
    }
}

/// The bytes counted are those of the UTF-8 encoding, as `str::len` counts
/// them.
pub proof fn lemma_utf8_len_is_encoded_length(s: Seq<char>)
    ensures
        utf8_len(s) == vstd::utf8::encode_utf8(s).len(),
    decreases s.len(),
{
    if s.len() > 0 {
        let first = seq![s[0]];
        let rest = s.drop_first();
        lemma_utf8_len_is_encoded_length(rest);
        assert(s =~= first + rest);
        lemma_utf8_len_concat(first, rest);
        assert(first =~= Seq::<char>::empty().push(s[0]));
        lemma_utf8_len_push(Seq::<char>::empty(), s[0]);
        vstd::utf8::char_is_scalar(s[0]);
        assert(vstd::utf8::encode_scalar(s[0] as u32).len() == utf8_width(s[0]));
    }
}

/// Different numbers have different decimal notations.
pub proof fn lemma_decimal_injective(a: nat, b: nat)
    requires
        decimal(a) == decimal(b),
    ensures
        a == b,
    decreases a,
{
    lemma_decimal_digits(a / 10);
    lemma_decimal_digits(b / 10);
    if a >= 10 && b >= 10 {
        let da = decimal(a / 10);
        let db = decimal(b / 10);
        assert(decimal(a).drop_last() =~= da);
        assert(decimal(b).drop_last() =~= db);
        assert(decimal(a).last() == digit_char((a % 10) as int));
        assert(decimal(b).last() == digit_char((b % 10) as int));
        lemma_decimal_injective(a / 10, b / 10);
    } else if a < 10 && b < 10 {
        assert(decimal(a)[0] == digit_char(a as int));
        assert(decimal(b)[0] == digit_char(b as int));
    } else if a < 10 {
        assert(decimal(a).len() == 1);
        assert(decimal(b).len() == decimal(b / 10).len() + 1);
    } else {
        assert(decimal(b).len() == 1);
        assert(decimal(a).len() == decimal(a / 10).len() + 1);
    }
}

/// Texts that are equal with the same start and the same end around them are
/// equal.
pub proof fn lemma_same_middle(start: Seq<char>, a: Seq<char>, b: Seq<char>, end: Seq<char>)
    requires
        start + a + end == start + b + end,
    ensures
        a == b,
{
    let left = start + a + end;
    let right = start + b + end;
    assert(left.len() == start.len() + a.len() + end.len());
    assert(right.len() == start.len() + b.len() + end.len());
    assert(a.len() == b.len());
    assert forall|i: int| 0 <= i < a.len() implies a[i] == b[i] by {
        assert(left[start.len() + i] == a[i]);
        assert(right[start.len() + i] == b[i]);
    }
    assert(a =~= b);
}

} // verus!
