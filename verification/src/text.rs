//! Characters and decimal numbers in user-supplied text.
//!
//! Text is handled as the sequence of its characters. The functions here
//! classify characters, strip surrounding white space, compare against
//! keywords without regard to case, read signed decimal numbers and split
//! comma-separated lists.

use vstd::prelude::*;

verus! {

/// `c` has the Unicode property `White_Space`.
pub open spec fn is_whitespace(c: char) -> bool {
    let n = c as u32;
    ||| 0x09 <= n <= 0x0D
    ||| n == 0x20
    ||| n == 0x85
    ||| n == 0xA0
    ||| n == 0x1680
    ||| 0x2000 <= n <= 0x200A
    ||| n == 0x2028
    ||| n == 0x2029
    ||| n == 0x202F
    ||| n == 0x205F
    ||| n == 0x3000
}

/// Tells whether `c` has the Unicode property `White_Space`.
pub fn char_is_whitespace(c: char) -> (b: bool)
    ensures
        b == is_whitespace(c),
{
    let n: u32 = c as u32;
    (0x09 <= n && n <= 0x0D) || n == 0x20 || n == 0x85 || n == 0xA0 || n == 0x1680 || (0x2000 <= n
        && n <= 0x200A) || n == 0x2028 || n == 0x2029 || n == 0x202F || n == 0x205F || n == 0x3000
}

/// Every character of `s` is white space; the empty text is blank.
pub open spec fn is_blank(s: Seq<char>) -> bool {
    forall|i: int| 0 <= i < s.len() ==> is_whitespace(#[trigger] s[i])
}

/// `c` is a character that Unicode lower-cases to the lower-case ASCII
/// letter `letter`: the letter itself, its upper-case form, or the Kelvin
/// sign where the letter is `k`. For any other `letter`, `c` equals it.
pub open spec fn is_letter_ignoring_case(c: char, letter: char) -> bool {
    ||| c == letter
    ||| ('a' <= letter <= 'z' && c as u32 + 32 == letter as u32)
    ||| (letter == 'k' && c as u32 == 0x212A)
}

/// Tells whether Unicode lower-cases `c` to the lower-case ASCII letter
/// `letter`, or `c` equals `letter`.
pub fn char_is_letter_ignoring_case(c: char, letter: char) -> (b: bool)
    ensures
        b == is_letter_ignoring_case(c, letter),
{
    let n: u32 = c as u32;
    let m: u32 = letter as u32;
    c == letter || ('a' <= letter && letter <= 'z' && n <= 0xFFFF && n + 32 == m) || (letter == 'k'
        && n == 0x212A)
}

/// `s` spells `keyword` when case is ignored.
pub open spec fn is_keyword(s: Seq<char>, keyword: Seq<char>) -> bool {
    &&& s.len() == keyword.len()
    &&& forall|i: int| 0 <= i < s.len() ==> is_letter_ignoring_case(#[trigger] s[i], keyword[i])
}

/// `s` ends in `keyword` when case is ignored.
pub open spec fn ends_with_keyword(s: Seq<char>, keyword: Seq<char>) -> bool {
    &&& keyword.len() <= s.len()
    &&& is_keyword(s.subrange(s.len() - keyword.len(), s.len() as int), keyword)
}

/// The characters of `text`, in order.
pub fn chars_of(text: &str) -> (chars: Vec<char>)
    ensures
        chars@ == text@,
{
    let mut chars: Vec<char> = Vec::new();
    for c in it: text.chars()
        invariant
            chars@ == it.seq().take(it.index()),
    {
        chars.push(c);
    }
    chars
}

/// Tells whether `chars[start..end]` spells `keyword` when case is ignored.
pub fn spells_keyword(chars: &Vec<char>, start: usize, end: usize, keyword: &str) -> (b: bool)
    requires
        start <= end <= chars.len(),
    ensures
        b == is_keyword(chars@.subrange(start as int, end as int), keyword@),
{
    let letters = chars_of(keyword);
    if end - start != letters.len() {
        return false;
    }
    let ghost s = chars@.subrange(start as int, end as int);
    let mut i: usize = 0;
    while i < letters.len()
        invariant
            start <= end <= chars.len(),
            end - start == letters.len(),
            i <= letters.len(),
            letters@ == keyword@,
            s == chars@.subrange(start as int, end as int),
            forall|j: int| 0 <= j < i ==> is_letter_ignoring_case(#[trigger] s[j], keyword@[j]),
        decreases letters.len() - i,
    {
        if !char_is_letter_ignoring_case(chars[start + i], letters[i]) {
            assert(!is_letter_ignoring_case(s[i as int], keyword@[i as int]));
            return false;
        }
        i += 1;
    }
    true
}

/// Tells whether every character of `text` is white space.
pub fn text_is_blank(text: &str) -> (b: bool)
    ensures
        b == is_blank(text@),
{
    let chars = chars_of(text);
    let mut i: usize = 0;
    while i < chars.len()
        invariant
            i <= chars.len(),
            chars@ == text@,
            forall|j: int| 0 <= j < i ==> is_whitespace(#[trigger] chars@[j]),
        decreases chars.len() - i,
    {
        if !char_is_whitespace(chars[i]) {
            assert(!is_whitespace(text@[i as int]));
            return false;
        }
        i += 1;
    }
    true
}

/// `s` without the white space at its start.
pub open spec fn trim_start(s: Seq<char>) -> Seq<char>
    decreases s.len(),
{
    if s.len() > 0 && is_whitespace(s[0]) {
        trim_start(s.drop_first())
    } else {
        s
    }
}

/// `s` without the white space at its end.
pub open spec fn trim_end(s: Seq<char>) -> Seq<char>
    decreases s.len(),
{
    if s.len() > 0 && is_whitespace(s.last()) {
        trim_end(s.drop_last())
    } else {
        s
    }
}

/// `s` without the white space at either end.
pub open spec fn trim(s: Seq<char>) -> Seq<char> {
    trim_end(trim_start(s))
}

/// Finds the part of `chars[start..end]` that is left when the white space
/// at either end is stripped.
pub fn trim_bounds(chars: &Vec<char>, start: usize, end: usize) -> (bounds: (usize, usize))
    requires
        start <= end <= chars.len(),
    ensures
        start <= bounds.0 <= bounds.1 <= end,
        chars@.subrange(bounds.0 as int, bounds.1 as int) == trim(
            chars@.subrange(start as int, end as int),
        ),
{
    let mut lo: usize = start;
    while lo < end && char_is_whitespace(chars[lo])
        invariant
            start <= lo <= end <= chars.len(),
            trim_start(chars@.subrange(start as int, end as int)) == trim_start(
                chars@.subrange(lo as int, end as int),
            ),
        decreases end - lo,
    {
        assert(chars@.subrange(lo as int, end as int).drop_first() == chars@.subrange(
            lo + 1,
            end as int,
        ));
        lo += 1;
    }
    let mut hi: usize = end;
    while lo < hi && char_is_whitespace(chars[hi - 1])
        invariant
            lo <= hi <= end <= chars.len(),
            trim_end(chars@.subrange(lo as int, end as int)) == trim_end(
                chars@.subrange(lo as int, hi as int),
            ),
        decreases hi - lo,
    {
        assert(chars@.subrange(lo as int, hi as int).drop_last() == chars@.subrange(
            lo as int,
            hi - 1,
        ));
        hi -= 1;
    }
    (lo, hi)
}

/// `c` is one of the ten ASCII digits.
pub open spec fn is_digit(c: char) -> bool {
    '0' <= c <= '9'
}

/// The number that the ASCII digit `c` stands for.
pub open spec fn digit_value(c: char) -> int {
    c as u32 - '0' as u32
}

/// Every character of `s` is an ASCII digit.
pub open spec fn all_digits(s: Seq<char>) -> bool {
    forall|i: int| 0 <= i < s.len() ==> is_digit(#[trigger] s[i])
}

/// The number that the digits `s` spell in base ten; the empty text spells zero.
pub open spec fn digits_value(s: Seq<char>) -> int
    decreases s.len(),
{
    if s.len() == 0 {
        0
    } else {
        digits_value(s.drop_last()) * 10 + digit_value(s.last())
    }
}

/// The integer that `s` spells: an optional `+` or `-`, then one or more
/// ASCII digits and nothing else. `None` where `s` has another shape.
pub open spec fn signed_decimal(s: Seq<char>) -> Option<int> {
    if s.len() > 0 && (s[0] == '+' || s[0] == '-') {
        let digits = s.drop_first();
        if digits.len() > 0 && all_digits(digits) {
            if s[0] == '-' {
                Some(-digits_value(digits))
            } else {
                Some(digits_value(digits))
            }
        } else {
            None
        }
    } else if s.len() > 0 && all_digits(s) {
        Some(digits_value(s))
    } else {
        None
    }
}

/// The integer that `s` spells, where it fits in 64 signed bits.
pub open spec fn decimal_i64(s: Seq<char>) -> Option<i64> {
    match signed_decimal(s) {
        Some(v) => if i64::MIN <= v <= i64::MAX {
            Some(v as i64)
        } else {
            None
        },
        None => None,
    }
}

/// Digits spell a number that is not negative, and appending digits never
/// makes the number smaller.
pub proof fn lemma_digits_value_grows(s: Seq<char>, n: int)
    requires
        all_digits(s),
        0 <= n <= s.len(),
    ensures
        0 <= digits_value(s.take(n)) <= digits_value(s),
    decreases s.len() - n,
{
    lemma_digits_value_nonnegative(s.take(n));
    if n < s.len() {
        lemma_digits_value_grows(s, n + 1);
        assert(s.take(n + 1).drop_last() == s.take(n));
        assert(is_digit(s.take(n + 1).last()));
    } else {
        assert(s.take(n) == s);
    }
}

/// Digits spell a number that is not negative.
pub proof fn lemma_digits_value_nonnegative(s: Seq<char>)
    requires
        all_digits(s),
    ensures
        0 <= digits_value(s),
    decreases s.len(),
{
    if s.len() > 0 {
        lemma_digits_value_nonnegative(s.drop_last());
        assert(is_digit(s.last()));
    }
}

/// Reads `chars[start..end]` as a signed decimal number of 64 bits.
#[verifier::loop_isolation(false)]
pub fn parse_decimal_i64(chars: &Vec<char>, start: usize, end: usize) -> (value: Option<i64>)
    requires
        start <= end <= chars.len(),
    ensures
        value == decimal_i64(chars@.subrange(start as int, end as int)),
{
    let ghost s = chars@.subrange(start as int, end as int);
    if start == end {
        return None;
    }
    let first = chars[start];
    assert(first == s[0]);
    let negative = first == '-';
    let from: usize = if first == '+' || first == '-' {
        start + 1
    } else {
        start
    };
    let ghost digits = chars@.subrange(from as int, end as int);
    assert(from > start ==> digits == s.drop_first());
    assert(from == start ==> digits == s);
    if from == end {
        return None;
    }
    // The magnitude read so far; it stops growing once it cannot fit any more.
    let limit: i128 = 0x8000_0000_0000_0000;
    let mut magnitude: i128 = 0;
    let mut i: usize = from;
    while i < end
        invariant
            from <= i <= end <= chars.len(),
            all_digits(digits.take(i - from)),
            magnitude == digits_value(digits.take(i - from)),
            0 <= magnitude <= limit,
        decreases end - i,
    {
        let c = chars[i];
        assert(c == digits[i - from]);
        if !('0' <= c && c <= '9') {
            assert(!all_digits(digits));
            return None;
        }
        let d: i128 = (c as u32 - '0' as u32) as i128;
        assert(digits.take(i - from + 1).drop_last() == digits.take(i - from));
        assert(digits.take(i - from + 1).last() == c);
        magnitude = magnitude * 10 + d;
        i += 1;
        if magnitude > limit {
            // Whatever follows, the number is out of range or the text is no number.
            proof {
                if all_digits(digits) {
                    lemma_digits_value_grows(digits, i - from);
                }
            }
            return None;
        }
    }
    assert(digits.take(i - from) == digits);
    if negative {
        Some((-magnitude) as i64)
    } else if magnitude < limit {
        Some(magnitude as i64)
    } else {
        None
    }
}

/// The pieces into which the commas of `s` cut it: one more piece than
/// `s` has commas, some of them empty.
pub open spec fn pieces(s: Seq<char>) -> Seq<Seq<char>>
    decreases s.len(),
{
    if s.len() == 0 {
        seq![Seq::<char>::empty()]
    } else {
        let front = pieces(s.drop_last());
        if s.last() == ',' {
            front.push(Seq::<char>::empty())
        } else {
            front.drop_last().push(front.last().push(s.last()))
        }
    }
}

/// Each of `parts` without the white space at its ends, the empty ones left out.
pub open spec fn trimmed_items(parts: Seq<Seq<char>>) -> Seq<Seq<char>> {
    parts.map_values(|part: Seq<char>| trim(part)).filter(|item: Seq<char>| item.len() > 0)
}

/// The items of a comma-separated list: the pieces between the commas
/// without the white space at their ends; empty items do not count.
pub open spec fn list_items(s: Seq<char>) -> Seq<Seq<char>> {
    trimmed_items(pieces(s))
}

/// Adding a part adds its trimmed form to the items, unless that is empty.
pub proof fn lemma_trimmed_items_push(parts: Seq<Seq<char>>, part: Seq<char>)
    ensures
        trimmed_items(parts.push(part)) == if trim(part).len() > 0 {
            trimmed_items(parts).push(trim(part))
        } else {
            trimmed_items(parts)
        },
{
    let trimmed = |part: Seq<char>| trim(part);
    let kept = |item: Seq<char>| item.len() > 0;
    assert(parts.push(part).map_values(trimmed) =~= parts.map_values(trimmed).push(trim(part)));
    parts.map_values(trimmed).lemma_filter_push(trim(part), kept);
}

/// The characters of an optional text.
pub open spec fn text_view(text: Option<String>) -> Option<Seq<char>> {
    match text {
        Some(t) => Some(t@),
        None => None,
    }
}

/// The characters of each text of `texts`, in order.
pub open spec fn texts_view(texts: Seq<String>) -> Seq<Seq<char>> {
    texts.map_values(|t: String| t@)
}

/// Splits a comma-separated list into its items.
pub fn split_list(text: &str) -> (items: Vec<String>)
    ensures
        texts_view(items@) == list_items(text@),
{
    let chars = chars_of(text);
    let mut items: Vec<String> = Vec::new();
    let ghost mut done: Seq<Seq<char>> = Seq::empty();
    let mut start: usize = 0;
    let mut i: usize = 0;
    proof {
        assert(chars@.take(0) =~= Seq::<char>::empty());
        assert(chars@.subrange(0, 0) =~= Seq::<char>::empty());
        assert(pieces(chars@.take(0)) =~= done.push(chars@.subrange(0, 0)));
        assert(trimmed_items(done) =~= Seq::<Seq<char>>::empty()) by {
            reveal(Seq::filter);
        }
    }
    while i < chars.len()
        invariant
            start <= i <= chars.len(),
            chars@ == text@,
            pieces(chars@.take(i as int)) == done.push(chars@.subrange(start as int, i as int)),
            texts_view(items@) == trimmed_items(done),
        decreases chars.len() - i,
    {
        let ghost piece = chars@.subrange(start as int, i as int);
        proof {
            assert(chars@.take(i + 1).drop_last() =~= chars@.take(i as int));
            assert(done.push(piece).drop_last() =~= done);
        }
        if chars[i] == ',' {
            let (lo, hi) = trim_bounds(&chars, start, i);
            proof {
                lemma_trimmed_items_push(done, piece);
            }
            if lo < hi {
                let ghost before = items@;
                let item = text.substring_char(lo, hi).to_owned();
                items.push(item);
                assert(texts_view(items@) =~= texts_view(before).push(trim(piece)));
            } else {
                assert(trim(piece).len() == 0);
            }
            proof {
                done = done.push(piece);
                assert(chars@.subrange(i + 1, i + 1) =~= Seq::<char>::empty());
            }
            start = i + 1;
        } else {
            assert(piece.push(chars@[i as int]) =~= chars@.subrange(start as int, i + 1));
        }
        i += 1;
    }
    let ghost piece = chars@.subrange(start as int, i as int);
    let (lo, hi) = trim_bounds(&chars, start, i);
    proof {
        assert(chars@.take(i as int) =~= chars@);
        lemma_trimmed_items_push(done, piece);
    }
    if lo < hi {
        let ghost before = items@;
        let item = text.substring_char(lo, hi).to_owned();
        items.push(item);
        assert(texts_view(items@) =~= texts_view(before).push(trim(piece)));
    } else {
        assert(trim(piece).len() == 0);
    }
    items
}

} // verus!
