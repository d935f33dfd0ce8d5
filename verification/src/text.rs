//! Text building blocks: decimal numbers, trimming, searching, replacing,
//! and splitting into lines.

use vstd::prelude::*;

verus! {

/// Appends one character to a string, by `String::push`: the string grows by
/// exactly that character.
#[verifier::external_body]
pub(crate) fn push_char(out: &mut String, c: char)
    ensures
        final(out)@ == old(out)@.push(c),
{
    out.push(c);
}

/// The character that stands for a decimal digit.
pub open spec fn digit_char(d: nat) -> char {
    if d == 0 {
        '0'
    } else if d == 1 {
        '1'
    } else if d == 2 {
        '2'
    } else if d == 3 {
        '3'
    } else if d == 4 {
        '4'
    } else if d == 5 {
        '5'
    } else if d == 6 {
        '6'
    } else if d == 7 {
        '7'
    } else if d == 8 {
        '8'
    } else {
        '9'
    }
}

/// A number in decimal, without sign or leading zeros.
pub open spec fn decimal(n: nat) -> Seq<char>
    decreases n,
{
    if n < 10 {
        seq![digit_char(n)]
    } else {
        decimal(n / 10).push(digit_char(n % 10))
    }
}

fn digit(d: u64) -> (c: char)
    requires
        d < 10,
    ensures
        c == digit_char(d as nat),
{
    if d == 0 {
        '0'
    } else if d == 1 {
        '1'
    } else if d == 2 {
        '2'
    } else if d == 3 {
        '3'
    } else if d == 4 {
        '4'
    } else if d == 5 {
        '5'
    } else if d == 6 {
        '6'
    } else if d == 7 {
        '7'
    } else if d == 8 {
        '8'
    } else {
        '9'
    }
}

/// Appends a number in decimal.
pub fn append_decimal(out: &mut String, n: u64)
    ensures
        final(out)@ == old(out)@ + decimal(n as nat),
    decreases n,
{
    if n >= 10 {
        append_decimal(out, n / 10);
    }
    push_char(out, digit(n % 10));
    proof {
        let head = old(out)@;
        if n >= 10 {
            assert((head + decimal((n / 10) as nat)).push(digit_char((n % 10) as nat)) =~= head
                + decimal(n as nat));
        } else {
            assert(head.push(digit_char(n as nat)) =~= head + decimal(n as nat));
        }
    }
}

/// A number in decimal, as a string of its own.
pub fn decimal_string(n: u64) -> (out: String)
    ensures
        out@ == decimal(n as nat),
{
    let mut out = String::new();
    append_decimal(&mut out, n);
    assert(Seq::<char>::empty() + decimal(n as nat) =~= decimal(n as nat));
    out
}

/// Tells whether two texts hold the same characters.
pub fn same_text(a: &str, b: &str) -> (same: bool)
    ensures
        same == (a@ == b@),
{
    let left = String::from_str(a);
    let right = String::from_str(b);
    left == right
}

/// The text with every occurrence of `from` replaced by `to`.
pub open spec fn replaced(text: Seq<char>, from: char, to: char) -> Seq<char> {
    text.map_values(|c: char| if c == from { to } else { c })
}

pub fn replace_char(text: &str, from: char, to: char) -> (out: String)
    ensures
        out@ == replaced(text@, from, to),
{
    broadcast use vstd::string::group_string_axioms;

    let mut out = String::new();
    for c in it: text.chars()
        invariant
            it.seq() == text@,
            out@ == replaced(text@.take(it.index() as int), from, to),
    {
        let d = if c == from { to } else { c };
        push_char(&mut out, d);
        assert(text@.take(it.index() + 1) =~= text@.take(it.index() as int).push(c));
    }
    assert(text@.take(text@.len() as int) =~= text@);
    out
}

pub fn contains_char(text: &str, wanted: char) -> (found: bool)
    ensures
        found == text@.contains(wanted),
{
    broadcast use vstd::string::group_string_axioms;

    let mut found = false;
    for c in it: text.chars()
        invariant
            it.seq() == text@,
            found == text@.take(it.index() as int).contains(wanted),
    {
        proof {
            let before = text@.take(it.index() as int);
            let after = text@.take(it.index() + 1);
            assert(after =~= before.push(c));
            if before.contains(wanted) {
                let k = choose|k: int| 0 <= k < before.len() && before[k] == wanted;
                assert(after[k] == wanted);
            }
            if c == wanted {
                assert(after[it.index() as int] == wanted);
            }
        }
        if c == wanted {
            found = true;
        }
    }
    assert(text@.take(text@.len() as int) =~= text@);
    found
}

/// The number of characters left when every `c` at the end is cut off.
pub open spec fn trimmed_len(text: Seq<char>, c: char) -> nat
    decreases text.len(),
{
    if text.len() > 0 && text.last() == c {
        trimmed_len(text.drop_last(), c)
    } else {
        text.len()
    }
}

/// The text without the run of `c` at its end.
pub open spec fn trimmed_end(text: Seq<char>, c: char) -> Seq<char> {
    text.take(trimmed_len(text, c) as int)
}

pub proof fn lemma_trimmed_len(text: Seq<char>, c: char)
    ensures
        trimmed_len(text, c) <= text.len(),
        trimmed_len(text, c) > 0 ==> text[trimmed_len(text, c) - 1] != c,
        forall|k: int| trimmed_len(text, c) <= k < text.len() ==> text[k] == c,
    decreases text.len(),
{
    if text.len() > 0 && text.last() == c {
        let front = text.drop_last();
        lemma_trimmed_len(front, c);
        assert forall|k: int| trimmed_len(text, c) <= k < text.len() implies text[k] == c by {
            if k < front.len() {
                assert(front[k] == c);
            }
        }
    }
}

/// The one length that ends at a character other than `c`, or at 0, and has
/// only `c` behind it.
proof fn lemma_trimmed_len_unique(text: Seq<char>, c: char, keep: nat)
    requires
        keep <= text.len(),
        keep > 0 ==> text[keep - 1] != c,
        forall|k: int| keep <= k < text.len() ==> text[k] == c,
    ensures
        trimmed_len(text, c) == keep,
    decreases text.len(),
{
    if text.len() > 0 && text.last() == c {
        let front = text.drop_last();
        assert forall|k: int| keep <= k < front.len() implies front[k] == c by {
            assert(text[k] == c);
        }
        lemma_trimmed_len_unique(front, c, keep);
    }
}

pub fn trim_end_char(text: &str, c: char) -> (out: String)
    ensures
        out@ == trimmed_end(text@, c),
{
    broadcast use vstd::string::group_string_axioms;

    let total = text.unicode_len();
    let mut keep: usize = 0;
    let mut seen: usize = 0;
    for d in it: text.chars()
        invariant
            it.seq() == text@,
            total == text@.len(),
            seen == it.index(),
            keep <= seen,
            keep > 0 ==> text@[keep - 1] != c,
            forall|k: int| keep <= k < seen ==> text@[k] == c,
    {
        seen = seen + 1;
        if d != c {
            keep = seen;
        }
    }
    proof {
        lemma_trimmed_len_unique(text@, c, keep as nat);
    }
    text.substring_char(0, keep).to_owned()
}

/// The characters of a text, one by one.
pub fn chars_of(text: &str) -> (chars: Vec<char>)
    ensures
        chars@ == text@,
{
    broadcast use vstd::string::group_string_axioms;

    let mut chars: Vec<char> = Vec::new();
    for c in it: text.chars()
        invariant
            it.seq() == text@,
            chars@ == text@.take(it.index() as int),
    {
        chars.push(c);
        assert(text@.take(it.index() + 1) =~= text@.take(it.index() as int).push(c));
    }
    assert(text@.take(text@.len() as int) =~= text@);
    chars
}

/// The text made of the characters from `from` on.
pub(crate) fn text_from(chars: &Vec<char>, from: usize) -> (out: String)
    requires
        from <= chars@.len(),
    ensures
        out@ == chars@.skip(from as int),
{
    let mut out = String::new();
    let mut i: usize = from;
    assert(chars@.subrange(from as int, from as int) =~= Seq::<char>::empty());
    while i < chars.len()
        invariant
            from <= i <= chars@.len(),
            out@ == chars@.subrange(from as int, i as int),
        decreases chars@.len() - i,
    {
        push_char(&mut out, chars[i]);
        assert(chars@.subrange(from as int, i + 1) =~= chars@.subrange(from as int, i as int).push(
            chars@[i as int],
        ));
        i = i + 1;
    }
    assert(chars@.subrange(from as int, chars@.len() as int) =~= chars@.skip(from as int));
    out
}

/// `pattern` stands in `text` at position `at`.
pub open spec fn occurs_at(text: Seq<char>, pattern: Seq<char>, at: int) -> bool {
    &&& 0 <= at
    &&& at + pattern.len() <= text.len()
    &&& text.subrange(at, at + pattern.len()) == pattern
}

/// `pattern` stands somewhere in `text`.
pub open spec fn occurs_in(text: Seq<char>, pattern: Seq<char>) -> bool {
    exists|at: int| occurs_at(text, pattern, at)
}

pub(crate) fn matches_at(text: &Vec<char>, pattern: &Vec<char>, at: usize) -> (found: bool)
    requires
        at + pattern@.len() <= text@.len(),
    ensures
        found == occurs_at(text@, pattern@, at as int),
{
    let total = text.len();
    let mut k: usize = 0;
    while k < pattern.len()
        invariant
            k <= pattern@.len(),
            at + pattern@.len() <= text@.len(),
            total == text@.len(),
            forall|j: int| 0 <= j < k ==> text@[at + j] == pattern@[j],
        decreases pattern@.len() - k,
    {
        if text[at + k] != pattern[k] {
            proof {
                let part = text@.subrange(at as int, at + pattern@.len());
                assert(part[k as int] == text@[at + k]);
            }
            return false;
        }
        k = k + 1;
    }
    assert(text@.subrange(at as int, at + pattern@.len()) =~= pattern@);
    true
}

/// Tells whether a text begins with a prefix.
pub fn starts_with(text: &str, prefix: &str) -> (found: bool)
    ensures
        found == occurs_at(text@, prefix@, 0),
{
    let text = chars_of(text);
    let prefix = chars_of(prefix);
    if prefix.len() > text.len() {
        return false;
    }
    matches_at(&text, &prefix, 0)
}

/// Tells whether a text holds a pattern.
pub fn contains_text(text: &str, pattern: &str) -> (found: bool)
    ensures
        found == occurs_in(text@, pattern@),
{
    let hay = chars_of(text);
    let needle = chars_of(pattern);
    if needle.len() > hay.len() {
        return false;
    }
    if needle.len() == 0 {
        assert(hay@.subrange(0, 0) =~= needle@);
        assert(occurs_at(hay@, needle@, 0));
        return true;
    }
    let last: usize = hay.len() - needle.len();
    let mut at: usize = 0;
    while at <= last
        invariant
            hay@ == text@,
            needle@ == pattern@,
            needle@.len() > 0,
            last + needle@.len() <= usize::MAX,
            last + needle@.len() == hay@.len(),
            at <= last + 1,
            forall|j: int| 0 <= j < at ==> !occurs_at(hay@, needle@, j),
        decreases last + 1 - at,
    {
        if matches_at(&hay, &needle, at) {
            return true;
        }
        at = at + 1;
    }
    false
}

/// The text without a prefix; the whole text where it does not begin with
/// the prefix.
pub open spec fn without_prefix(text: Seq<char>, prefix: Seq<char>) -> Seq<char> {
    if occurs_at(text, prefix, 0) {
        text.skip(prefix.len() as int)
    } else {
        text
    }
}

/// The rest of a text behind a prefix; `None` where the text does not begin
/// with the prefix.
pub fn strip_prefix(text: &str, prefix: &str) -> (rest: Option<String>)
    ensures
        match rest {
            Some(r) => occurs_at(text@, prefix@, 0) && r@ == text@.skip(prefix@.len() as int),
            None => !occurs_at(text@, prefix@, 0),
        },
{
    let chars = chars_of(text);
    let head = chars_of(prefix);
    if head.len() > chars.len() {
        return None;
    }
    if matches_at(&chars, &head, 0) {
        Some(text_from(&chars, head.len()))
    } else {
        None
    }
}

/// The value of a decimal digit.
pub open spec fn digit_value(c: char) -> Option<nat> {
    if c == '0' {
        Some(0)
    } else if c == '1' {
        Some(1)
    } else if c == '2' {
        Some(2)
    } else if c == '3' {
        Some(3)
    } else if c == '4' {
        Some(4)
    } else if c == '5' {
        Some(5)
    } else if c == '6' {
        Some(6)
    } else if c == '7' {
        Some(7)
    } else if c == '8' {
        Some(8)
    } else if c == '9' {
        Some(9)
    } else {
        None
    }
}

/// The number that a run of decimal digits stands for; `None` where the
/// run is empty or holds anything but digits.
pub open spec fn digits_value(digits: Seq<char>) -> Option<nat>
    decreases digits.len(),
{
    if digits.len() == 0 {
        None
    } else if digits.len() == 1 {
        digit_value(digits[0])
    } else {
        match (digits_value(digits.drop_last()), digit_value(digits.last())) {
            (Some(value), Some(d)) => Some(10 * value + d),
            _ => None,
        }
    }
}

/// The number that a text stands for: digits, which a plus sign may
/// precede, and a value that 32 bits hold.
pub open spec fn parsed_u32(text: Seq<char>) -> Option<u32> {
    let digits = if text.len() > 0 && text[0] == '+' {
        text.skip(1)
    } else {
        text
    };
    match digits_value(digits) {
        Some(value) => if value <= u32::MAX {
            Some(value as u32)
        } else {
            None
        },
        None => None,
    }
}

fn digit_of(c: char) -> (d: Option<u64>)
    ensures
        match d {
            Some(v) => digit_value(c) == Some(v as nat) && v < 10,
            None => digit_value(c) is None,
        },
{
    if c == '0' {
        Some(0)
    } else if c == '1' {
        Some(1)
    } else if c == '2' {
        Some(2)
    } else if c == '3' {
        Some(3)
    } else if c == '4' {
        Some(4)
    } else if c == '5' {
        Some(5)
    } else if c == '6' {
        Some(6)
    } else if c == '7' {
        Some(7)
    } else if c == '8' {
        Some(8)
    } else if c == '9' {
        Some(9)
    } else {
        None
    }
}

/// A run of digits has a value only if each part of it from the start has
/// one, and that value is no larger.
proof fn lemma_digits_prefix(digits: Seq<char>, n: int)
    requires
        0 < n <= digits.len(),
        digits_value(digits) is Some,
    ensures
        digits_value(digits.take(n)) is Some,
        digits_value(digits.take(n))->0 <= digits_value(digits)->0,
    decreases digits.len(),
{
    if n == digits.len() {
        assert(digits.take(n) =~= digits);
    } else {
        assert(digits.drop_last().take(n) =~= digits.take(n));
        lemma_digits_prefix(digits.drop_last(), n);
    }
}

/// Reads a number as `parsed_u32` says.
pub fn parse_u32(text: &str) -> (number: Option<u32>)
    ensures
        number == parsed_u32(text@),
{
    let chars = chars_of(text);
    let start: usize = if chars.len() > 0 && chars[0] == '+' {
        1
    } else {
        0
    };
    let ghost digits = chars@.skip(start as int);
    assert(chars@.skip(0) =~= chars@);
    if start == chars.len() {
        assert(digits.len() == 0);
        return None;
    }
    let mut value: u64 = 0;
    let mut i: usize = start;
    while i < chars.len()
        invariant
            start <= i <= chars@.len(),
            start < chars@.len(),
            digits == chars@.skip(start as int),
            digits == if text@.len() > 0 && text@[0] == '+' {
                text@.skip(1)
            } else {
                text@
            },
            value <= u32::MAX,
            i > start ==> digits_value(digits.take(i - start)) == Some(value as nat),
            i == start ==> value == 0,
        decreases chars@.len() - i,
    {
        let ghost seen = digits.take(i - start);
        let ghost next = digits.take(i + 1 - start);
        proof {
            assert(next.drop_last() =~= seen);
            assert(next.last() == chars@[i as int]);
        }
        match digit_of(chars[i]) {
            None => {
                proof {
                    if digits_value(digits) is Some {
                        lemma_digits_prefix(digits, i + 1 - start);
                    }
                }
                return None;
            },
            Some(d) => {
                let larger: u64 = value * 10 + d;
                proof {
                    if i == start {
                        assert(next.len() == 1);
                    }
                    assert(digits_value(next) == Some(larger as nat));
                }
                if larger > 0xffff_ffff {
                    proof {
                        if digits_value(digits) is Some {
                            lemma_digits_prefix(digits, i + 1 - start);
                        }
                    }
                    return None;
                }
                value = larger;
            },
        }
        i = i + 1;
    }
    assert(digits.take(i - start) =~= digits);
    Some(value as u32)
}

/// Every number is read back from its decimal form.
pub proof fn lemma_parse_decimal(n: nat)
    ensures
        digits_value(decimal(n)) == Some(n),
        decimal(n).len() > 0,
        decimal(n)[0] != '+',
        n <= u32::MAX ==> parsed_u32(decimal(n)) == Some(n as u32),
    decreases n,
{
    if n >= 10 {
        lemma_parse_decimal(n / 10);
        let front = decimal(n / 10);
        let whole = decimal(n);
        assert(whole.drop_last() =~= front);
        assert(whole.last() == digit_char(n % 10));
        assert(whole[0] == front[0]);
    }
}

/// A number in decimal, with a minus sign where it is negative.
pub open spec fn signed_decimal(n: int) -> Seq<char> {
    if n < 0 {
        seq!['-'] + decimal((-n) as nat)
    } else {
        decimal(n as nat)
    }
}

/// Appends a number in decimal, with its sign where it is negative.
pub fn append_signed_decimal(out: &mut String, n: i32)
    ensures
        final(out)@ == old(out)@ + signed_decimal(n as int),
{
    if n < 0 {
        push_char(out, '-');
        let magnitude: u64 = (-(n as i64)) as u64;
        append_decimal(out, magnitude);
        assert(out@ =~= old(out)@ + signed_decimal(n as int));
    } else {
        append_decimal(out, n as u64);
    }
}

/// Where the line that starts at `from` ends: at the next line feed, or at
/// the end of the text.
pub open spec fn line_end(text: Seq<char>, from: int) -> int
    decreases text.len() - from,
{
    if from < 0 || from >= text.len() || text[from] == '\n' {
        from
    } else {
        line_end(text, from + 1)
    }
}

/// The lines of a text from a position on.
pub open spec fn lines_from(text: Seq<char>, from: int) -> Seq<Seq<char>>
    decreases text.len() - from,
{
    if from < 0 || from >= text.len() {
        Seq::empty()
    } else {
        let end = line_end(text, from);
        if from <= end < text.len() {
            seq![text.subrange(from, end)] + lines_from(text, end + 1)
        } else {
            seq![text.subrange(from, text.len() as int)]
        }
    }
}

/// The lines of a text: what stands between its line feeds. A text that
/// ends with a line feed has no empty line behind it, and an empty text has
/// no line.
pub open spec fn lines_of(text: Seq<char>) -> Seq<Seq<char>> {
    lines_from(text, 0)
}

pub proof fn lemma_line_end(text: Seq<char>, from: int)
    requires
        0 <= from <= text.len(),
    ensures
        from <= line_end(text, from) <= text.len(),
        line_end(text, from) < text.len() ==> text[line_end(text, from)] == '\n',
        forall|k: int| from <= k < line_end(text, from) ==> text[k] != '\n',
    decreases text.len() - from,
{
    if from < text.len() && text[from] != '\n' {
        lemma_line_end(text, from + 1);
    }
}

/// The views of a list of strings.
pub open spec fn texts(list: Seq<String>) -> Seq<Seq<char>> {
    list.map_values(|s: String| s@)
}

/// The text made of the characters from `from` up to `to`.
pub(crate) fn text_between(chars: &Vec<char>, from: usize, to: usize) -> (out: String)
    requires
        from <= to <= chars@.len(),
    ensures
        out@ == chars@.subrange(from as int, to as int),
{
    let mut out = String::new();
    let mut i: usize = from;
    assert(chars@.subrange(from as int, from as int) =~= Seq::<char>::empty());
    while i < to
        invariant
            from <= i <= to <= chars@.len(),
            out@ == chars@.subrange(from as int, i as int),
        decreases to - i,
    {
        push_char(&mut out, chars[i]);
        assert(chars@.subrange(from as int, i + 1) =~= chars@.subrange(from as int, i as int).push(
            chars@[i as int],
        ));
        i = i + 1;
    }
    out
}

/// Splits a text into its lines.
pub fn split_lines(text: &str) -> (lines: Vec<String>)
    ensures
        texts(lines@) == lines_of(text@),
{
    let chars = chars_of(text);
    let total = chars.len();
    let mut lines: Vec<String> = Vec::new();
    let mut from: usize = 0;
    assert(texts(lines@) =~= Seq::<Seq<char>>::empty());
    assert(Seq::<Seq<char>>::empty() + lines_from(chars@, 0) =~= lines_from(chars@, 0));
    while from < total
        invariant
            chars@ == text@,
            total == chars@.len(),
            from <= total + 1,
            texts(lines@) + lines_from(chars@, from as int) == lines_of(chars@),
        decreases total + 1 - from,
    {
        let mut end: usize = from;
        while end < total && chars[end] != '\n'
            invariant
                total == chars@.len(),
                from <= end <= total,
                line_end(chars@, end as int) == line_end(chars@, from as int),
            decreases total - end,
        {
            end = end + 1;
        }
        proof {
            lemma_line_end(chars@, from as int);
        }
        let line = text_between(&chars, from, end);
        let ghost before = lines@;
        lines.push(line);
        proof {
            assert(texts(lines@) =~= texts(before).push(line@));
            assert(texts(before).push(line@) + lines_from(chars@, end + 1) =~= texts(before) + (
            seq![line@] + lines_from(chars@, end + 1)));
            assert(texts(before).push(line@) + Seq::<Seq<char>>::empty() =~= texts(before)
                + seq![line@]);
        }
        from = if end < total {
            end + 1
        } else {
            total
        };
    }
    assert(texts(lines@) + Seq::<Seq<char>>::empty() =~= texts(lines@));
    lines
}

/// A text in lower case.
pub uninterp spec fn lowercase(text: Seq<char>) -> Seq<char>;

/// Turns a text into lower case, by `str::to_lowercase` of the standard
/// library. The contract names the result and says nothing of what it is.
#[verifier::external_body]
pub(crate) fn to_lowercase(text: &str) -> (lower: String)
    ensures
        lower@ == lowercase(text@),
{
    text.to_lowercase()
}

/// A text in upper case.
pub uninterp spec fn uppercase(text: Seq<char>) -> Seq<char>;

/// Turns a text into upper case, by `str::to_uppercase` of the standard
/// library. The contract names the result and says nothing of what it is.
#[verifier::external_body]
pub(crate) fn to_uppercase(text: &str) -> (upper: String)
    ensures
        upper@ == uppercase(text@),
{
    text.to_uppercase()
}

/// The character is white space: a tab, a line feed, a vertical tab, a
/// form feed, a carriage return, a space, or one of the spaces, line
/// separators and paragraph separators beyond ASCII.
pub open spec fn is_space(c: char) -> bool {
    let u = c as u32;
    ||| 0x9 <= u <= 0xD
    ||| u == 0x20
    ||| u == 0x85
    ||| u == 0xA0
    ||| u == 0x1680
    ||| 0x2000 <= u <= 0x200A
    ||| u == 0x2028
    ||| u == 0x2029
    ||| u == 0x202F
    ||| u == 0x205F
    ||| u == 0x3000
}

/// Tells whether a character is white space.
pub fn char_is_space(c: char) -> (space: bool)
    ensures
        space == is_space(c),
{
    let u = c as u32;
    (0x9 <= u && u <= 0xD) || u == 0x20 || u == 0x85 || u == 0xA0 || u == 0x1680 || (0x2000 <= u
        && u <= 0x200A) || u == 0x2028 || u == 0x2029 || u == 0x202F || u == 0x205F || u == 0x3000
}

/// Where the text starts behind the white space at its start.
pub open spec fn space_lead(text: Seq<char>, from: int) -> int
    decreases text.len() - from,
{
    if 0 <= from < text.len() && is_space(text[from]) {
        space_lead(text, from + 1)
    } else {
        from
    }
}

/// Where the text ends before the white space at its end, for a text that
/// starts at `from`.
pub open spec fn space_trail(text: Seq<char>, from: int, to: int) -> int
    decreases to - from,
{
    if 0 <= from < to <= text.len() && is_space(text[to - 1]) {
        space_trail(text, from, to - 1)
    } else {
        to
    }
}

/// The text without the white space at its start and at its end.
pub open spec fn trimmed(text: Seq<char>) -> Seq<char> {
    let from = space_lead(text, 0);
    let to = space_trail(text, from, text.len() as int);
    if 0 <= from <= to <= text.len() {
        text.subrange(from, to)
    } else {
        Seq::empty()
    }
}

fn trim_chars(chars: &Vec<char>) -> (out: String)
    ensures
        out@ == trimmed(chars@),
{
    let total = chars.len();
    let mut from: usize = 0;
    while from < total && char_is_space(chars[from])
        invariant
            total == chars@.len(),
            from <= total,
            space_lead(chars@, from as int) == space_lead(chars@, 0),
        decreases total - from,
    {
        from = from + 1;
    }
    let mut to: usize = total;
    while from < to && char_is_space(chars[to - 1])
        invariant
            total == chars@.len(),
            from <= to <= total,
            space_trail(chars@, from as int, to as int) == space_trail(
                chars@,
                from as int,
                total as int,
            ),
        decreases to,
    {
        to = to - 1;
    }
    text_between(chars, from, to)
}

/// Cuts the white space off both ends of a text.
pub fn trim(text: &str) -> (out: String)
    ensures
        out@ == trimmed(text@),
{
    let chars = chars_of(text);
    trim_chars(&chars)
}

/// `suffix` stands at the end of `text`.
pub open spec fn ends_in(text: Seq<char>, suffix: Seq<char>) -> bool {
    occurs_at(text, suffix, text.len() - suffix.len())
}

/// Tells whether a text ends with a suffix.
pub fn ends_with(text: &str, suffix: &str) -> (found: bool)
    ensures
        found == ends_in(text@, suffix@),
{
    let chars = chars_of(text);
    let tail = chars_of(suffix);
    if tail.len() > chars.len() {
        return false;
    }
    matches_at(&chars, &tail, chars.len() - tail.len())
}

/// The first position from `from` on at which `pattern` stands in `text`.
pub open spec fn first_occurrence(text: Seq<char>, pattern: Seq<char>, from: int) -> Option<int>
    decreases text.len() - from,
{
    if from < 0 || from + pattern.len() > text.len() {
        None
    } else if occurs_at(text, pattern, from) {
        Some(from)
    } else if from >= text.len() {
        None
    } else {
        first_occurrence(text, pattern, from + 1)
    }
}

/// The last position at which `pattern` stands in `text` before `to`.
pub open spec fn last_occurrence(text: Seq<char>, pattern: Seq<char>, to: int) -> Option<int>
    decreases to,
{
    if to <= 0 {
        None
    } else if occurs_at(text, pattern, to - 1) {
        Some(to - 1)
    } else {
        last_occurrence(text, pattern, to - 1)
    }
}

pub(crate) fn find_from(text: &Vec<char>, pattern: &Vec<char>, from: usize) -> (found: Option<usize>)
    ensures
        match found {
            Some(at) => first_occurrence(text@, pattern@, from as int) == Some(at as int) && from
                <= at && at + pattern@.len() <= text@.len(),
            None => first_occurrence(text@, pattern@, from as int) is None,
        },
{
    let total = text.len();
    let width = pattern.len();
    if width > total || from > total - width {
        return None;
    }
    if width == 0 {
        assert(text@.subrange(from as int, from as int) =~= pattern@);
        return Some(from);
    }
    let mut at: usize = from;
    while at <= total - width
        invariant
            total == text@.len(),
            width == pattern@.len(),
            0 < width <= total,
            from <= at <= total - width + 1,
            first_occurrence(text@, pattern@, at as int) == first_occurrence(
                text@,
                pattern@,
                from as int,
            ),
        decreases total - at,
    {
        if matches_at(text, pattern, at) {
            return Some(at);
        }
        at = at + 1;
    }
    None
}

pub(crate) fn find_last(text: &Vec<char>, pattern: &Vec<char>) -> (found: Option<usize>)
    ensures
        match found {
            Some(at) => last_occurrence(text@, pattern@, text@.len() as int) == Some(at as int)
                && at + pattern@.len() <= text@.len(),
            None => last_occurrence(text@, pattern@, text@.len() as int) is None,
        },
{
    let total = text.len();
    let width = pattern.len();
    let mut to: usize = total;
    while to > 0
        invariant
            total == text@.len(),
            width == pattern@.len(),
            to <= total,
            last_occurrence(text@, pattern@, to as int) == last_occurrence(
                text@,
                pattern@,
                total as int,
            ),
        decreases to,
    {
        if width <= total - (to - 1) && matches_at(text, pattern, to - 1) {
            return Some(to - 1);
        }
        to = to - 1;
    }
    None
}

/// The text with `with` in the place of every `pattern`, found from left
/// to right, from a position on. An empty pattern is found nowhere.
pub open spec fn replaced_from(
    text: Seq<char>,
    pattern: Seq<char>,
    with: Seq<char>,
    from: int,
) -> Seq<char>
    decreases text.len() - from,
{
    if from < 0 || from >= text.len() {
        Seq::empty()
    } else if pattern.len() > 0 && occurs_at(text, pattern, from) {
        with + replaced_from(text, pattern, with, from + pattern.len())
    } else {
        seq![text[from]] + replaced_from(text, pattern, with, from + 1)
    }
}

/// The text with `with` in the place of every `pattern`.
pub open spec fn replaced_text(text: Seq<char>, pattern: Seq<char>, with: Seq<char>) -> Seq<char> {
    replaced_from(text, pattern, with, 0)
}

/// Puts `with` in the place of every `pattern` of a text.
pub fn replace_text(text: &str, pattern: &str, with: &str) -> (out: String)
    ensures
        out@ == replaced_text(text@, pattern@, with@),
{
    let chars = chars_of(text);
    let needle = chars_of(pattern);
    let total = chars.len();
    let width = needle.len();
    let mut out = String::new();
    let mut at: usize = 0;
    assert(out@ + replaced_from(chars@, needle@, with@, 0) =~= replaced_text(
        text@,
        pattern@,
        with@,
    ));
    while at < total
        invariant
            chars@ == text@,
            needle@ == pattern@,
            total == chars@.len(),
            width == needle@.len(),
            at <= total,
            out@ + replaced_from(chars@, needle@, with@, at as int) == replaced_text(
                text@,
                pattern@,
                with@,
            ),
        decreases total - at,
    {
        let ghost before = out@;
        if width > 0 && width <= total - at && matches_at(&chars, &needle, at) {
            out.append(with);
            assert(out@ + replaced_from(chars@, needle@, with@, at + width) =~= before + (with@
                + replaced_from(chars@, needle@, with@, at + width)));
            at = at + width;
        } else {
            push_char(&mut out, chars[at]);
            assert(out@ + replaced_from(chars@, needle@, with@, at + 1) =~= before + (
            seq![chars@[at as int]] + replaced_from(chars@, needle@, with@, at + 1)));
            at = at + 1;
        }
    }
    assert(out@ + Seq::<char>::empty() =~= out@);
    out
}

/// How many bytes a text takes.
pub fn byte_len(text: &str) -> (bytes: usize)
    ensures
        bytes == vstd::utf8::encode_utf8(text@).len(),
{
    text.as_bytes().len()
}

} // verus!
