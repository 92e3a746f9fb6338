//! Small helpers on text.

use vstd::prelude::*;
use vstd::string::StringExecFns;

verus! {

/// Whether two texts are made of the same characters.
pub fn same_text(a: &str, b: &str) -> (same: bool)
    ensures
        same == (a@ == b@),
{
    a.to_owned() == b.to_owned()
}

/// The characters of a text, in order.
pub fn chars_of(text: &str) -> (chars: Vec<char>)
    ensures
        chars@ == text@,
{
    let mut chars: Vec<char> = Vec::new();
    for c in it: text.chars()
        invariant
            chars@ == it.seq().take(it.index() as int),
            it.seq() == text@,
    {
        chars.push(c);
    }
    chars
}

/// Whether the text can be handed over as a C string: it has no NUL character
/// in it.
pub open spec fn nul_free(text: Seq<char>) -> bool {
    forall|i: int| 0 <= i < text.len() ==> text[i] != '\0'
}

/// Whether the text has no NUL character in it.
pub fn is_nul_free(text: &str) -> (free: bool)
    ensures
        free == nul_free(text@),
{
    let chars = chars_of(text);
    let mut i: usize = 0;
    while i < chars.len()
        invariant
            i <= chars@.len(),
            chars@ == text@,
            forall|j: int| 0 <= j < i ==> text@[j] != '\0',
        decreases chars@.len() - i,
    {
        if chars[i] == '\0' {
            return false;
        }
        i += 1;
    }
    true
}

/// Whether the character is white space: one of the characters with the
/// Unicode property `White_Space`.
pub open spec fn is_space(c: char) -> bool {
    let code = c as u32;
    ||| 0x09 <= code <= 0x0d
    ||| code == 0x20
    ||| code == 0x85
    ||| code == 0xa0
    ||| code == 0x1680
    ||| 0x2000 <= code <= 0x200a
    ||| code == 0x2028
    ||| code == 0x2029
    ||| code == 0x202f
    ||| code == 0x205f
    ||| code == 0x3000
}

/// Whether the character is white space.
pub fn is_whitespace(c: char) -> (space: bool)
    ensures
        space == is_space(c),
{
    let code: u32 = c as u32;
    (0x09 <= code && code <= 0x0d) || code == 0x20 || code == 0x85 || code == 0xa0 || code == 0x1680
        || (0x2000 <= code && code <= 0x200a) || code == 0x2028 || code == 0x2029 || code == 0x202f
        || code == 0x205f || code == 0x3000
}

/// The first place at or after `from` where a word begins in `text`, that is
/// where no white space stands, or the length of `text` where only white space
/// follows.
pub open spec fn word_start(text: Seq<char>, from: int) -> int
    decreases text.len() - from,
{
    if from < 0 || from >= text.len() {
        text.len() as int
    } else if !is_space(text[from]) {
        from
    } else {
        word_start(text, from + 1)
    }
}

/// The first place at or after `from` where white space stands in `text`, or
/// the length of `text` where none follows.
pub open spec fn word_end(text: Seq<char>, from: int) -> int
    decreases text.len() - from,
{
    if from < 0 || from >= text.len() {
        text.len() as int
    } else if is_space(text[from]) {
        from
    } else {
        word_end(text, from + 1)
    }
}

/// The place where the next word begins.
pub fn find_word_start(text: &Vec<char>, from: usize) -> (start: usize)
    requires
        from <= text@.len(),
    ensures
        start == word_start(text@, from as int),
        from <= start <= text@.len(),
{
    let mut i: usize = from;
    while i < text.len() && is_whitespace(text[i])
        invariant
            from <= i <= text@.len(),
            word_start(text@, from as int) == word_start(text@, i as int),
        decreases text@.len() - i,
    {
        i += 1;
    }
    i
}

/// The place where the word that begins at `from` ends.
pub fn find_word_end(text: &Vec<char>, from: usize) -> (end: usize)
    requires
        from <= text@.len(),
    ensures
        end == word_end(text@, from as int),
        from <= end <= text@.len(),
{
    let mut i: usize = from;
    while i < text.len() && !is_whitespace(text[i])
        invariant
            from <= i <= text@.len(),
            word_end(text@, from as int) == word_end(text@, i as int),
        decreases text@.len() - i,
    {
        i += 1;
    }
    i
}

/// The pieces of `text` that the separator `sep` stands between, in order. A
/// text with n separators has n + 1 pieces, some of which may be empty.
pub open spec fn split(text: Seq<char>, sep: char) -> Seq<Seq<char>>
    decreases text.len(),
{
    if text.len() == 0 {
        seq![Seq::empty()]
    } else {
        let before = split(text.drop_last(), sep);
        if text.last() == sep {
            before.push(Seq::empty())
        } else {
            before.update(before.len() - 1, before.last().push(text.last()))
        }
    }
}

/// A text has at least one piece.
pub proof fn lemma_split_nonempty(text: Seq<char>, sep: char)
    ensures
        split(text, sep).len() >= 1,
    decreases text.len(),
{
    if text.len() > 0 {
        lemma_split_nonempty(text.drop_last(), sep);
    }
}

/// The pieces put together again, with the separator `sep` between them.
pub open spec fn join(parts: Seq<Seq<char>>, sep: char) -> Seq<char>
    decreases parts.len(),
{
    if parts.len() == 0 {
        Seq::empty()
    } else if parts.len() == 1 {
        parts[0]
    } else {
        join(parts.drop_last(), sep).push(sep) + parts.last()
    }
}

/// The pieces of a text, put together again, are the text.
pub proof fn lemma_join_split(text: Seq<char>, sep: char)
    ensures
        join(split(text, sep), sep) == text,
    decreases text.len(),
{
    if text.len() == 0 {
        assert(join(split(text, sep), sep) =~= text);
    } else {
        let before = split(text.drop_last(), sep);
        lemma_split_nonempty(text.drop_last(), sep);
        lemma_join_split(text.drop_last(), sep);
        assert(text.drop_last().push(text.last()) =~= text);
        if text.last() == sep {
            assert(before.push(Seq::empty()).drop_last() =~= before);
            assert(join(before, sep).push(sep) + Seq::<char>::empty() =~= text);
        } else {
            let longer = before.update(before.len() - 1, before.last().push(text.last()));
            if before.len() == 1 {
                assert(join(before, sep) == before[0]);
                assert(join(longer, sep) =~= text);
            } else {
                assert(longer.drop_last() =~= before.drop_last());
                assert(join(before.drop_last(), sep).push(sep) + before.last().push(text.last())
                    =~= (join(before.drop_last(), sep).push(sep) + before.last()).push(text.last()));
            }
        }
    }
}

/// No piece of a text has the separator in it.
pub proof fn lemma_split_without_separator(text: Seq<char>, sep: char, k: int, j: int)
    requires
        0 <= k < split(text, sep).len(),
        0 <= j < split(text, sep)[k].len(),
    ensures
        split(text, sep)[k][j] != sep,
    decreases text.len(),
{
    if text.len() > 0 {
        let before = split(text.drop_last(), sep);
        lemma_split_nonempty(text.drop_last(), sep);
        if text.last() == sep {
            if k < before.len() {
                lemma_split_without_separator(text.drop_last(), sep, k, j);
            }
        } else {
            if k < before.len() - 1 || j < before.last().len() {
                lemma_split_without_separator(text.drop_last(), sep, k, j);
            }
        }
    }
}

/// The parts of `text` that `ranges` cut out, in order.
pub open spec fn pieces(text: Seq<char>, ranges: Seq<(usize, usize)>) -> Seq<Seq<char>> {
    Seq::new(ranges.len(), |k: int| text.subrange(ranges[k].0 as int, ranges[k].1 as int))
}

/// Whether each of `ranges` lies within a text of the length `len`.
pub open spec fn ranges_within(ranges: Seq<(usize, usize)>, len: nat) -> bool {
    forall|k: int| 0 <= k < ranges.len() ==> (#[trigger] ranges[k]).0 <= ranges[k].1 <= len
}

/// Cuts `text` at each separator and says where each piece begins and ends.
pub fn split_ranges(text: &Vec<char>, sep: char) -> (ranges: Vec<(usize, usize)>)
    ensures
        ranges_within(ranges@, text@.len()),
        pieces(text@, ranges@) == split(text@, sep),
{
    let mut done: Vec<(usize, usize)> = Vec::new();
    let mut start: usize = 0;
    let mut i: usize = 0;
    proof {
        assert(text@.take(0) =~= Seq::<char>::empty());
    }
    while i < text.len()
        invariant
            start <= i <= text@.len(),
            ranges_within(done@, text@.len()),
            split(text@.take(i as int), sep) == pieces(text@, done@).push(
                text@.subrange(start as int, i as int),
            ),
        decreases text@.len() - i,
    {
        proof {
            assert(text@.take(i + 1).drop_last() =~= text@.take(i as int));
        }
        if text[i] == sep {
            proof {
                assert(text@.subrange(i + 1, i + 1) =~= Seq::<char>::empty());
                assert(pieces(text@, done@.push((start, i))) =~= pieces(text@, done@).push(
                    text@.subrange(start as int, i as int),
                ));
            }
            done.push((start, i));
            start = i + 1;
        } else {
            proof {
                let before = pieces(text@, done@).push(text@.subrange(start as int, i as int));
                assert(text@.subrange(start as int, i as int).push(text@[i as int])
                    =~= text@.subrange(start as int, i + 1));
                assert(before.update(
                    before.len() - 1,
                    before.last().push(text@[i as int]),
                ) =~= pieces(text@, done@).push(text@.subrange(start as int, i + 1)));
            }
        }
        i += 1;
    }
    proof {
        assert(text@.take(i as int) =~= text@);
        assert(pieces(text@, done@.push((start, i))) =~= pieces(text@, done@).push(
            text@.subrange(start as int, i as int),
        ));
    }
    done.push((start, i));
    done
}

/// Whether `pattern` stands in `text` at the place `at`.
pub open spec fn occurs_at(text: Seq<char>, pattern: Seq<char>, at: int) -> bool {
    0 <= at && at + pattern.len() <= text.len() && text.subrange(at, at + pattern.len()) == pattern
}

/// The first place at or after `from` where `pattern` stands in `text`.
pub open spec fn find_from(text: Seq<char>, pattern: Seq<char>, from: int) -> Option<int>
    decreases text.len() - from + 1,
{
    if from < 0 || from + pattern.len() > text.len() {
        None
    } else if occurs_at(text, pattern, from) {
        Some(from)
    } else {
        find_from(text, pattern, from + 1)
    }
}

/// What is found is the first place at or after `from` where the pattern
/// stands; where nothing is found, it stands nowhere from there on.
pub proof fn lemma_find_from_first(text: Seq<char>, pattern: Seq<char>, from: int)
    requires
        0 <= from,
    ensures
        match find_from(text, pattern, from) {
            Some(at) => from <= at && occurs_at(text, pattern, at) && forall|j: int|
                from <= j < at ==> !occurs_at(text, pattern, j),
            None => forall|j: int| from <= j ==> !occurs_at(text, pattern, j),
        },
    decreases text.len() - from + 1,
{
    if from + pattern.len() <= text.len() && !occurs_at(text, pattern, from) {
        lemma_find_from_first(text, pattern, from + 1);
    }
}

/// Whether `pattern` stands in `text` at the place `at`.
pub fn matches_at(text: &Vec<char>, pattern: &Vec<char>, at: usize) -> (found: bool)
    ensures
        found == occurs_at(text@, pattern@, at as int),
{
    if pattern.len() > text.len() || at > text.len() - pattern.len() {
        return false;
    }
    let mut k: usize = 0;
    while k < pattern.len()
        invariant
            k <= pattern@.len(),
            at + pattern@.len() <= text@.len() <= usize::MAX,
            forall|j: int| 0 <= j < k ==> text@[at + j] == pattern@[j],
        decreases pattern@.len() - k,
    {
        if text[at + k] != pattern[k] {
            return false;
        }
        k += 1;
    }
    proof {
        assert(text@.subrange(at as int, at + pattern@.len()) =~= pattern@);
    }
    true
}

/// The first place where `pattern` stands in `text`.
pub fn find_text(text: &Vec<char>, pattern: &Vec<char>) -> (found: Option<usize>)
    ensures
        match found {
            Some(at) => find_from(text@, pattern@, 0) == Some(at as int) && occurs_at(
                text@,
                pattern@,
                at as int,
            ),
            None => find_from(text@, pattern@, 0) is None,
        },
{
    if pattern.len() > text.len() {
        return None;
    }
    let last = text.len() - pattern.len();
    let mut i: usize = 0;
    while i < last
        invariant
            i <= last,
            last == text@.len() - pattern@.len(),
            find_from(text@, pattern@, 0) == find_from(text@, pattern@, i as int),
        decreases last - i,
    {
        if matches_at(text, pattern, i) {
            return Some(i);
        }
        i += 1;
    }
    if matches_at(text, pattern, last) {
        Some(last)
    } else {
        proof {
            assert(find_from(text@, pattern@, last + 1) is None);
        }
        None
    }
}

/// Whether `text` begins with `prefix`.
pub open spec fn starts_with(text: Seq<char>, prefix: Seq<char>) -> bool {
    occurs_at(text, prefix, 0)
}

/// The place behind the last character of `text` before `upto` that is no white
/// space, or 0 where only white space stands before `upto`.
pub open spec fn trimmed_end(text: Seq<char>, upto: int) -> int
    decreases upto,
{
    if upto <= 0 || upto > text.len() {
        0
    } else if !is_space(text[upto - 1]) {
        upto
    } else {
        trimmed_end(text, upto - 1)
    }
}

/// `text` without the white space that it begins and ends with.
pub open spec fn trimmed(text: Seq<char>) -> Seq<char> {
    let start = word_start(text, 0);
    if start >= text.len() {
        Seq::empty()
    } else {
        text.subrange(start, trimmed_end(text, text.len() as int))
    }
}

/// Where the part of `text` between `from` and `to` begins and ends once the
/// white space around it is left out.
pub fn trim_range(text: &Vec<char>, from: usize, to: usize) -> (range: (usize, usize))
    requires
        from <= to <= text@.len(),
    ensures
        from <= range.0 <= range.1 <= to,
        text@.subrange(range.0 as int, range.1 as int) == trimmed(
            text@.subrange(from as int, to as int),
        ),
{
    let ghost part = text@.subrange(from as int, to as int);
    let mut start: usize = from;
    while start < to && is_whitespace(text[start])
        invariant
            from <= start <= to <= text@.len(),
            part == text@.subrange(from as int, to as int),
            word_start(part, 0) == word_start(part, start - from),
        decreases to - start,
    {
        start += 1;
    }
    if start == to {
        return (start, start);
    }
    let mut end: usize = to;
    while end > start && is_whitespace(text[end - 1])
        invariant
            from <= start < to <= text@.len(),
            start < end <= to,
            part == text@.subrange(from as int, to as int),
            !is_space(text@[start as int]),
            trimmed_end(part, part.len() as int) == trimmed_end(part, end - from),
        decreases end,
    {
        end -= 1;
    }
    (start, end)
}

/// Whether the character is one of the digits `0` to `9`.
pub open spec fn is_digit(c: char) -> bool {
    '0' <= c <= '9'
}

/// The number that the digits spell in base ten.
pub open spec fn digits_value(digits: Seq<char>) -> nat
    decreases digits.len(),
{
    if digits.len() == 0 {
        0
    } else {
        (digits_value(digits.drop_last()) * 10 + (digits.last() as u32 - '0' as u32)) as nat
    }
}

/// Whether `digits` is made of digits only, and of one at least.
pub open spec fn is_number(digits: Seq<char>) -> bool {
    digits.len() > 0 && forall|i: int| 0 <= i < digits.len() ==> is_digit(#[trigger] digits[i])
}

/// The number that `text` spells, if it is at most `max`: `text` is digits, or
/// a plus sign and digits.
pub open spec fn number_of(text: Seq<char>, max: nat) -> Option<nat> {
    if text.len() > 0 && text[0] == '+' {
        unsigned_number_of(text.drop_first(), max)
    } else {
        unsigned_number_of(text, max)
    }
}

/// The number that `digits` spell, if they are digits and it is at most `max`.
pub open spec fn unsigned_number_of(digits: Seq<char>, max: nat) -> Option<nat> {
    if is_number(digits) && digits_value(digits) <= max {
        Some(digits_value(digits))
    } else {
        None
    }
}

/// More digits spell no smaller a number.
pub proof fn lemma_digits_value_grows(digits: Seq<char>, k: int)
    requires
        0 <= k <= digits.len(),
        forall|i: int| 0 <= i < digits.len() ==> is_digit(#[trigger] digits[i]),
    ensures
        digits_value(digits.take(k)) <= digits_value(digits),
    decreases digits.len() - k,
{
    if k == digits.len() {
        assert(digits.take(k) =~= digits);
    } else {
        assert(digits.drop_last().take(k) =~= digits.take(k));
        lemma_digits_value_grows(digits.drop_last(), k);
    }
}

/// The number that the part of `text` between `from` and `to` spells, if it is
/// at most `max`.
pub fn parse_number(text: &Vec<char>, from: usize, to: usize, max: u64) -> (number: Option<u64>)
    requires
        from <= to <= text@.len(),
    ensures
        match number {
            Some(n) => number_of(text@.subrange(from as int, to as int), max as nat) == Some(
                n as nat,
            ),
            None => number_of(text@.subrange(from as int, to as int), max as nat) is None,
        },
{
    let ghost part = text@.subrange(from as int, to as int);
    let first: usize = if from < to && text[from] == '+' {
        from + 1
    } else {
        from
    };
    let ghost digits = text@.subrange(first as int, to as int);
    proof {
        if first == from + 1 {
            assert(part.drop_first() =~= digits);
        }
    }
    if first == to {
        return None;
    }
    let mut value: u64 = 0;
    let mut i: usize = first;
    while i < to
        invariant
            from <= first <= i <= to <= text@.len(),
            digits == text@.subrange(first as int, to as int),
            number_of(text@.subrange(from as int, to as int), max as nat) == unsigned_number_of(
                digits,
                max as nat,
            ),
            forall|j: int| 0 <= j < i - first ==> is_digit(#[trigger] digits[j]),
            value == digits_value(digits.take(i - first)),
            value <= max,
        decreases to - i,
    {
        let c = text[i];
        proof {
            assert(digits.take(i - first + 1).drop_last() =~= digits.take(i - first));
        }
        if !('0' <= c && c <= '9') {
            proof {
                assert(!is_digit(digits[i - first]));
            }
            return None;
        }
        let digit: u64 = (c as u32 - '0' as u32) as u64;
        if digit > max || value > (max - digit) / 10 {
            proof {
                if is_number(digits) {
                    lemma_digits_value_grows(digits, i - first + 1);
                }
            }
            return None;
        }
        value = value * 10 + digit;
        i += 1;
    }
    proof {
        assert(digits.take(i - first) =~= digits);
    }
    Some(value)
}

/// The character of the digit `digit`.
pub open spec fn digit_char(digit: int) -> char {
    if digit == 0 {
        '0'
    } else if digit == 1 {
        '1'
    } else if digit == 2 {
        '2'
    } else if digit == 3 {
        '3'
    } else if digit == 4 {
        '4'
    } else if digit == 5 {
        '5'
    } else if digit == 6 {
        '6'
    } else if digit == 7 {
        '7'
    } else if digit == 8 {
        '8'
    } else {
        '9'
    }
}

/// The digits of `n` in base ten, without leading zeros.
pub open spec fn digits_of(n: nat) -> Seq<char>
    decreases n,
{
    if n < 10 {
        seq![digit_char(n as int)]
    } else {
        digits_of(n / 10).push(digit_char((n % 10) as int))
    }
}

/// The number `n` in base ten, with a minus sign where it is negative.
pub open spec fn decimal(n: int) -> Seq<char> {
    if n < 0 {
        seq!['-'] + digits_of((-n) as nat)
    } else {
        digits_of(n as nat)
    }
}

/// Reading what was written gives the number back: the digits of a number are
/// digits, and they spell the number.
pub proof fn lemma_digits_spell_the_number(n: nat)
    ensures
        is_number(digits_of(n)),
        digits_value(digits_of(n)) == n,
    decreases n,
{
    if n < 10 {
        assert(digits_of(n).drop_last() =~= Seq::<char>::empty());
        assert(digits_value(digits_of(n).drop_last()) == 0);
    } else {
        lemma_digits_spell_the_number(n / 10);
        let shorter = digits_of(n / 10);
        assert(digits_of(n).drop_last() =~= shorter);
        assert forall|i: int| 0 <= i < digits_of(n).len() implies is_digit(
            #[trigger] digits_of(n)[i],
        ) by {
            if i < shorter.len() {
                assert(is_digit(shorter[i]));
            }
        }
    }
}

/// The text of one digit.
fn digit_text(digit: u64) -> (text: &'static str)
    requires
        digit < 10,
    ensures
        text@ == seq![digit_char(digit as int)],
{
    proof {
        reveal_strlit("0");
        reveal_strlit("1");
        reveal_strlit("2");
        reveal_strlit("3");
        reveal_strlit("4");
        reveal_strlit("5");
        reveal_strlit("6");
        reveal_strlit("7");
        reveal_strlit("8");
        reveal_strlit("9");
    }
    if digit == 0 {
        "0"
    } else if digit == 1 {
        "1"
    } else if digit == 2 {
        "2"
    } else if digit == 3 {
        "3"
    } else if digit == 4 {
        "4"
    } else if digit == 5 {
        "5"
    } else if digit == 6 {
        "6"
    } else if digit == 7 {
        "7"
    } else if digit == 8 {
        "8"
    } else {
        "9"
    }
}

/// Writes the digits of `n` behind `out`.
fn push_digits(out: &mut String, n: u64)
    ensures
        final(out)@ == old(out)@ + digits_of(n as nat),
    decreases n,
{
    if n >= 10 {
        push_digits(out, n / 10);
    }
    let ghost before = out@;
    out.append(digit_text(n % 10));
    proof {
        if n >= 10 {
            assert(before + seq![digit_char((n % 10) as int)] =~= old(out)@ + digits_of(
                (n / 10) as nat,
            ).push(digit_char((n % 10) as int)));
        }
    }
}

/// The number `n` in base ten.
pub fn decimal_text(n: i64) -> (text: String)
    ensures
        text@ == decimal(n as int),
{
    let mut text = String::new();
    if n < 0 {
        proof {
            reveal_strlit("-");
        }
        text.append("-");
        let magnitude: u64 = if n == i64::MIN {
            9223372036854775808u64
        } else {
            (-n) as u64
        };
        push_digits(&mut text, magnitude);
        proof {
            assert(Seq::<char>::empty() + seq!['-'] + digits_of(magnitude as nat) =~= decimal(
                n as int,
            ));
        }
    } else {
        push_digits(&mut text, n as u64);
    }
    text
}

} // verus!
