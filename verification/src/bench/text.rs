//! Text: numbers in decimal, lines, and fields.

use vstd::prelude::*;

verus! {

/// Specifies `String::push`, which appends one character.
pub assume_specification[ String::push ](text: &mut String, c: char)
    ensures
        final(text)@ == old(text)@.push(c),
;

/// The characters of a list of strings.
pub open spec fn texts(strings: Seq<String>) -> Seq<Seq<char>> {
    strings.map_values(|s: String| s@)
}

/// The characters of `text`.
pub fn chars_of(text: &str) -> (r: Vec<char>)
    ensures
        r@ == text@,
{
    let mut r: Vec<char> = Vec::new();
    for c in it: text.chars()
        invariant
            r@ == it.seq().take(it.index()),
            it.seq() == text@,
    {
        r.push(c);
        assert(r@ =~= it.seq().take(it.index() + 1));
    }
    assert(r@ =~= text@);
    r
}

/// The text of the characters from `from` up to `to`.
pub fn text_of(chars: &Vec<char>, from: usize, to: usize) -> (r: String)
    requires
        from <= to <= chars@.len(),
    ensures
        r@ == chars@.subrange(from as int, to as int),
{
    let mut r = String::new();
    let mut i: usize = from;
    assert(r@ =~= chars@.subrange(from as int, from as int));
    while i < to
        invariant
            from <= i <= to <= chars@.len(),
            r@ == chars@.subrange(from as int, i as int),
        decreases to - i,
    {
        r.push(chars[i]);
        i += 1;
        assert(r@ =~= chars@.subrange(from as int, i as int));
    }
    r
}

// Numbers in decimal.

/// The character of a decimal digit.
pub open spec fn digit(d: int) -> char {
    (48 + d) as char
}

/// A number in decimal, without leading zeros.
pub open spec fn decimal(n: nat) -> Seq<char>
    decreases n,
{
    if n < 10 {
        seq![digit(n as int)]
    } else {
        decimal(n / 10).push(digit((n % 10) as int))
    }
}

/// Appends `n` in decimal.
pub fn push_decimal(out: &mut String, n: u128)
    ensures
        final(out)@ == old(out)@ + decimal(n as nat),
    decreases n,
{
    if n >= 10 {
        push_decimal(out, n / 10);
    }
    let d = (n % 10) as u8;
    out.push((48u8 + d) as char);
    assert(out@ =~= old(out)@ + decimal(n as nat));
}

/// A number with its sign, a plus for zero.
pub open spec fn signed_decimal(n: int) -> Seq<char> {
    if n < 0 {
        seq!['-'] + decimal((-n) as nat)
    } else {
        seq!['+'] + decimal(n as nat)
    }
}

/// Whether a character is a decimal digit.
pub open spec fn is_digit(c: char) -> bool {
    48 <= c as int <= 57
}

/// Whether all of `s` are decimal digits.
pub open spec fn all_digits(s: Seq<char>) -> bool {
    forall|i: int| 0 <= i < s.len() ==> is_digit(#[trigger] s[i])
}

/// The value of decimal digits.
pub open spec fn digits_value(s: Seq<char>) -> nat
    decreases s.len(),
{
    if s.len() == 0 {
        0
    } else {
        (digits_value(s.drop_last()) * 10 + (s.last() as int - 48)) as nat
    }
}

/// The number that `s` writes: one or more decimal digits, behind a plus sign or
/// not.
pub open spec fn parse_number(s: Seq<char>) -> Option<nat> {
    let digits = if s.len() > 0 && s[0] == '+' {
        s.skip(1)
    } else {
        s
    };
    if digits.len() > 0 && all_digits(digits) {
        Some(digits_value(digits))
    } else {
        None
    }
}

/// The number that `s` writes, if it is at most `max`.
pub open spec fn parse_up_to(s: Seq<char>, max: nat) -> Option<nat> {
    match parse_number(s) {
        Some(n) => if n <= max {
            Some(n)
        } else {
            None
        },
        None => None,
    }
}

/// More digits never make a smaller number.
proof fn lemma_digits_value_grows(s: Seq<char>, k: int)
    requires
        0 <= k <= s.len(),
        all_digits(s),
    ensures
        digits_value(s.take(k)) <= digits_value(s),
    decreases s.len() - k,
{
    if k < s.len() {
        let longer = s.take(k + 1);
        assert(longer.drop_last() =~= s.take(k));
        assert(is_digit(s[k]));
        lemma_digits_value_grows(s, k + 1);
    } else {
        assert(s.take(k) =~= s);
    }
}

/// Reads a number of at most `max`.
pub fn read_number(text: &str, max: u64) -> (r: Option<u64>)
    ensures
        r is Some <==> parse_up_to(text@, max as nat) is Some,
        r matches Some(n) ==> parse_up_to(text@, max as nat) == Some(n as nat),
{
    let chars = chars_of(text);
    let start: usize = if chars.len() > 0 && chars[0] == '+' {
        1
    } else {
        0
    };
    let ghost digits = text@.skip(start as int);
    assert(start == 0 ==> digits =~= text@);
    if start == chars.len() {
        return None;
    }
    let mut value: u64 = 0;
    let mut i: usize = start;
    while i < chars.len()
        invariant
            start <= i <= chars@.len(),
            chars@ == text@,
            start == (if text@.len() > 0 && text@[0] == '+' {
                1int
            } else {
                0
            }),
            digits == text@.skip(start as int),
            start == 0 ==> digits == text@,
            all_digits(digits.take(i - start)),
            value == digits_value(digits.take(i - start)),
            value <= max,
            digits.len() > 0,
        decreases chars@.len() - i,
    {
        let c = chars[i];
        let ghost k = i - start;
        assert(c == digits[k]);
        if !('0' <= c && c <= '9') {
            return None;
        }
        let d = (c as u64) - 48;
        proof {
            let longer = digits.take(k + 1);
            assert(longer.drop_last() =~= digits.take(k));
            assert(forall|j: int| 0 <= j < k ==> longer[j] == digits.take(k)[j]);
            assert(digits_value(longer) == value * 10 + d);
            if all_digits(digits) {
                lemma_digits_value_grows(digits, k + 1);
            }
        }
        if value > (u64::MAX - d) / 10 || value * 10 + d > max {
            return None;
        }
        value = value * 10 + d;
        i += 1;
    }
    assert(digits.take(i - start) =~= digits);
    Some(value)
}

/// A number in decimal is read back as the number.
pub proof fn law_decimal_reads_back(n: nat)
    ensures
        decimal(n).len() > 0,
        all_digits(decimal(n)),
        parse_number(decimal(n)) == Some(n),
{
    lemma_decimal_digits(n);
    assert(is_digit(decimal(n)[0]));
}

/// A number in decimal is made of digits, and their value is the number.
proof fn lemma_decimal_digits(n: nat)
    ensures
        decimal(n).len() > 0,
        all_digits(decimal(n)),
        digits_value(decimal(n)) == n,
    decreases n,
{
    let s = decimal(n);
    if n < 10 {
        assert(s.drop_last() =~= seq![]);
        assert(digits_value(s.drop_last()) == 0);
        assert(s.last() as int == 48 + n);
    } else {
        lemma_decimal_digits(n / 10);
        assert(s.drop_last() =~= decimal(n / 10));
        assert(s.last() as int == 48 + n % 10);
        assert forall|i: int| 0 <= i < s.len() implies is_digit(#[trigger] s[i]) by {
            if i < s.len() - 1 {
                assert(s[i] == decimal(n / 10)[i]);
            }
        }
    }
}

// Lines and fields.

/// Where `c` first stands in `s`, or the length of `s` if it does not.
pub open spec fn position(s: Seq<char>, c: char) -> int
    decreases s.len(),
{
    if s.len() == 0 || s[0] == c {
        0
    } else {
        1 + position(s.skip(1), c)
    }
}

/// What tells that `k` is the position of `c`.
pub proof fn lemma_position(s: Seq<char>, c: char, k: int)
    requires
        0 <= k <= s.len(),
        forall|i: int| 0 <= i < k ==> s[i] != c,
        k < s.len() ==> s[k] == c,
    ensures
        position(s, c) == k,
    decreases k,
{
    if k > 0 {
        assert(s[0] != c);
        assert forall|i: int| 0 <= i < k - 1 implies s.skip(1)[i] != c by {
            assert(s.skip(1)[i] == s[i + 1]);
        }
        lemma_position(s.skip(1), c, k - 1);
    }
}

/// What the position of `c` tells.
pub proof fn lemma_position_is_first(s: Seq<char>, c: char)
    ensures
        0 <= position(s, c) <= s.len(),
        forall|i: int| 0 <= i < position(s, c) ==> s[i] != c,
        position(s, c) < s.len() ==> s[position(s, c)] == c,
    decreases s.len(),
{
    if s.len() > 0 && s[0] != c {
        lemma_position_is_first(s.skip(1), c);
        assert forall|i: int| 0 <= i < position(s, c) implies s[i] != c by {
            if i > 0 {
                assert(s.skip(1)[i - 1] == s[i]);
            }
        }
    }
}

/// A line without the carriage return at its end.
pub open spec fn strip_return(line: Seq<char>) -> Seq<char> {
    if line.len() > 0 && line.last() == '\r' {
        line.drop_last()
    } else {
        line
    }
}

/// The lines of `s`. A line ends with a newline, or a carriage return and a
/// newline, or with the text.
pub open spec fn lines(s: Seq<char>) -> Seq<Seq<char>>
    decreases s.len(),
    via lines_decreases
{
    let k = position(s, '\n');
    if s.len() == 0 {
        seq![]
    } else if k == s.len() {
        seq![s]
    } else {
        seq![strip_return(s.take(k))] + lines(s.skip(k + 1))
    }
}

#[via_fn]
proof fn lines_decreases(s: Seq<char>) {
    lemma_position_is_first(s, '\n');
}

/// The fields of `s`: what stands between its commas.
pub open spec fn fields(s: Seq<char>) -> Seq<Seq<char>>
    decreases s.len(),
    via fields_decreases
{
    let k = position(s, ',');
    if k == s.len() {
        seq![s]
    } else {
        seq![s.take(k)] + fields(s.skip(k + 1))
    }
}

#[via_fn]
proof fn fields_decreases(s: Seq<char>) {
    lemma_position_is_first(s, ',');
}

/// The lines of `text`.
pub fn split_lines(text: &str) -> (r: Vec<String>)
    ensures
        texts(r@) == lines(text@),
{
    let chars = chars_of(text);
    let ghost all = text@;
    let mut r: Vec<String> = Vec::new();
    let mut start: usize = 0;
    let mut i: usize = 0;
    proof {
        assert(all.skip(0) =~= all);
        assert(texts(r@) + lines(all.skip(0)) =~= lines(all));
    }
    while i < chars.len()
        invariant
            start <= i <= chars@.len(),
            chars@ == all,
            lines(all) == texts(r@) + lines(all.skip(start as int)),
            forall|j: int| start <= j < i ==> all[j] != '\n',
        decreases chars@.len() - i,
    {
        if chars[i] == '\n' {
            let ghost rest = all.skip(start as int);
            let ghost before = texts(r@);
            let ghost line = all.subrange(start as int, i as int);
            let end = if i > start && chars[i - 1] == '\r' {
                i - 1
            } else {
                i
            };
            let piece = text_of(&chars, start, end);
            proof {
                lemma_position(rest, '\n', i - start);
                assert(rest.take(i - start) =~= line);
                assert(piece@ =~= strip_return(line));
                assert(rest.skip(i - start + 1) =~= all.skip(i + 1));
            }
            r.push(piece);
            proof {
                assert(texts(r@) =~= before.push(piece@));
                assert(before + (seq![piece@] + lines(all.skip(i + 1))) =~= before.push(piece@)
                    + lines(all.skip(i + 1)));
            }
            start = i + 1;
        }
        i += 1;
    }
    let ghost rest = all.skip(start as int);
    let ghost before = texts(r@);
    if start < chars.len() {
        proof {
            lemma_position(rest, '\n', rest.len() as int);
            assert(all.subrange(start as int, i as int) =~= rest);
        }
        let piece = text_of(&chars, start, i);
        r.push(piece);
        assert(texts(r@) =~= before + seq![piece@]);
    } else {
        assert(before + lines(rest) =~= before);
    }
    r
}

/// The fields of `text`.
pub fn split_fields(text: &str) -> (r: Vec<String>)
    ensures
        texts(r@) == fields(text@),
{
    let chars = chars_of(text);
    let ghost all = text@;
    let mut r: Vec<String> = Vec::new();
    let mut start: usize = 0;
    let mut i: usize = 0;
    proof {
        assert(all.skip(0) =~= all);
        assert(texts(r@) + fields(all.skip(0)) =~= fields(all));
    }
    while i < chars.len()
        invariant
            start <= i <= chars@.len(),
            chars@ == all,
            fields(all) == texts(r@) + fields(all.skip(start as int)),
            forall|j: int| start <= j < i ==> all[j] != ',',
        decreases chars@.len() - i,
    {
        if chars[i] == ',' {
            let ghost rest = all.skip(start as int);
            let ghost before = texts(r@);
            let piece = text_of(&chars, start, i);
            proof {
                lemma_position(rest, ',', i - start);
                assert(rest.take(i - start) =~= piece@);
                assert(rest.skip(i - start + 1) =~= all.skip(i + 1));
            }
            r.push(piece);
            proof {
                assert(texts(r@) =~= before.push(piece@));
                assert(before + (seq![piece@] + fields(all.skip(i + 1))) =~= before.push(piece@)
                    + fields(all.skip(i + 1)));
            }
            start = i + 1;
        }
        i += 1;
    }
    let ghost rest = all.skip(start as int);
    let ghost before = texts(r@);
    proof {
        lemma_position(rest, ',', rest.len() as int);
        assert(all.subrange(start as int, i as int) =~= rest);
    }
    let piece = text_of(&chars, start, i);
    r.push(piece);
    assert(texts(r@) =~= before + seq![piece@]);
    r
}

/// Whether a character is white space, as Unicode has it.
pub open spec fn is_space(c: char) -> bool {
    let n = c as int;
    ||| 0x9 <= n <= 0xd
    ||| n == 0x20
    ||| n == 0x85
    ||| n == 0xa0
    ||| n == 0x1680
    ||| 0x2000 <= n <= 0x200a
    ||| n == 0x2028
    ||| n == 0x2029
    ||| n == 0x202f
    ||| n == 0x205f
    ||| n == 0x3000
}

/// `s` without the white space at its ends.
pub open spec fn trimmed(s: Seq<char>) -> Seq<char>
    decreases s.len(),
{
    if s.len() == 0 {
        s
    } else if is_space(s[0]) {
        trimmed(s.skip(1))
    } else if is_space(s.last()) {
        trimmed(s.drop_last())
    } else {
        s
    }
}

/// Whether `c` is white space.
fn space(c: char) -> (r: bool)
    ensures
        r == is_space(c),
{
    let n = c as u32;
    (0x9 <= n && n <= 0xd) || n == 0x20 || n == 0x85 || n == 0xa0 || n == 0x1680 || (0x2000 <= n
        && n <= 0x200a) || n == 0x2028 || n == 0x2029 || n == 0x202f || n == 0x205f || n == 0x3000
}

/// `text` without the white space at its ends.
pub fn trim(text: &str) -> (r: String)
    ensures
        r@ == trimmed(text@),
{
    let chars = chars_of(text);
    let mut from: usize = 0;
    let mut to: usize = chars.len();
    assert(chars@.subrange(0, to as int) =~= text@);
    while from < to && space(chars[from])
        invariant
            from <= to <= chars@.len(),
            trimmed(chars@.subrange(from as int, to as int)) == trimmed(text@),
        ensures
            from == to || !is_space(chars@[from as int]),
        decreases to - from,
    {
        let ghost s = chars@.subrange(from as int, to as int);
        assert(s.skip(1) =~= chars@.subrange(from + 1, to as int));
        from += 1;
    }
    while from < to && space(chars[to - 1])
        invariant
            from <= to <= chars@.len(),
            trimmed(chars@.subrange(from as int, to as int)) == trimmed(text@),
            from == to || !is_space(chars@[from as int]),
        ensures
            from == to || !is_space(chars@[to - 1]),
        decreases to - from,
    {
        let ghost s = chars@.subrange(from as int, to as int);
        assert(s.drop_last() =~= chars@.subrange(from as int, to - 1));
        to -= 1;
    }
    text_of(&chars, from, to)
}

// What numbers, fields, lines and trimmed texts are.

/// A number in decimal has no needless zeros.
pub proof fn law_decimals_are_short(n: nat)
    ensures
        decimal(n).len() == 1 || decimal(n)[0] != '0',
        decimal(n)[0] == '0' <==> n == 0,
    decreases n,
{
    if n >= 10 {
        law_decimals_are_short(n / 10);
        lemma_decimal_digits(n / 10);
        assert(decimal(n)[0] == decimal(n / 10)[0]);
    }
}

/// What a number is: digits, where each further digit counts for itself and makes those
/// before it count tenfold, with a plus sign before them or not; and nothing else.
pub proof fn law_numbers(s: Seq<char>, d: int)
    requires
        0 <= d <= 9,
    ensures
        parse_number(seq![]) is None,
        parse_number(seq![('0' as int + d) as char]) == Some(d as nat),
        parse_number(s) matches Some(n) ==> parse_number(s.push(('0' as int + d) as char)) == Some(
            (10 * n + d) as nat,
        ),
        s.len() > 0 && s[0] != '+' ==> parse_number(seq!['+'] + s) == parse_number(s),
        (exists|i: int| 0 < i < s.len() && !('0' <= #[trigger] s[i] && s[i] <= '9'))
            ==> parse_number(s) is None,
        s.len() > 0 && s[0] != '+' && !('0' <= s[0] && s[0] <= '9') ==> parse_number(s) is None,
        parse_number(seq!['+']) is None,
{
    let c = ('0' as int + d) as char;
    let none = Seq::<char>::empty();
    let one = seq![c];
    assert(one.drop_last() =~= none);
    assert(digits_value(one.drop_last()) == 0);
    assert(is_digit(one[0]));
    if parse_number(s) is Some {
        let longer = s.push(c);
        if s[0] == '+' {
            assert(longer.skip(1) =~= s.skip(1).push(c));
            assert(longer.skip(1).drop_last() =~= s.skip(1));
            assert(all_digits(longer.skip(1)));
        } else {
            assert(longer.drop_last() =~= s);
            assert(all_digits(longer));
        }
    }
    assert((seq!['+'] + s).skip(1) =~= s);
    assert(seq!['+'].skip(1) =~= none);
    if exists|i: int| 0 < i < s.len() && !('0' <= #[trigger] s[i] && s[i] <= '9') {
        let i = choose|i: int| 0 < i < s.len() && !('0' <= #[trigger] s[i] && s[i] <= '9');
        if s[0] == '+' {
            assert(s.skip(1)[i - 1] == s[i]);
            assert(!is_digit(s.skip(1)[i - 1]));
        } else {
            assert(!is_digit(s[i]));
        }
    }
}

/// Texts with commas between them.
pub open spec fn joined(parts: Seq<Seq<char>>) -> Seq<char>
    decreases parts.len(),
{
    if parts.len() == 0 {
        seq![]
    } else if parts.len() == 1 {
        parts[0]
    } else {
        parts[0] + seq![','] + joined(parts.skip(1))
    }
}

/// The fields of a text are the texts without commas that make it up, with commas
/// between them.
pub proof fn law_fields_join_to_the_text(s: Seq<char>)
    ensures
        fields(s).len() > 0,
        joined(fields(s)) == s,
        forall|i: int| 0 <= i < fields(s).len() ==> !(#[trigger] fields(s)[i]).contains(','),
    decreases s.len(),
{
    let k = position(s, ',');
    lemma_position_is_first(s, ',');
    if k < s.len() {
        let rest = s.skip(k + 1);
        law_fields_join_to_the_text(rest);
        assert(fields(s).skip(1) =~= fields(rest));
        assert(s =~= s.take(k) + seq![','] + rest);
        assert forall|i: int| 0 <= i < fields(s).len() implies !(
        #[trigger] fields(s)[i]).contains(',') by {
            if i > 0 {
                assert(fields(s)[i] == fields(rest)[i - 1]);
            }
        }
    }
}

/// A line ends with a newline, with or without a carriage return before it, or with the
/// text; a text without a newline is one line, and the empty text has none.
pub proof fn law_lines(line: Seq<char>, rest: Seq<char>)
    requires
        !line.contains('\n'),
    ensures
        lines(seq![]) == Seq::<Seq<char>>::empty(),
        line.len() > 0 ==> lines(line) == seq![line],
        lines(line + seq!['\r', '\n'] + rest) == seq![line] + lines(rest),
        (line.len() > 0 ==> line.last() != '\r') ==> lines(line + seq!['\n'] + rest) == seq![line]
            + lines(rest),
{
    assert forall|i: int| 0 <= i < line.len() implies line[i] != '\n' by {
        assert(line.contains(line[i]));
    }
    lemma_position(line, '\n', line.len() as int);
    let a = line + seq!['\r', '\n'] + rest;
    lemma_position(a, '\n', line.len() as int + 1);
    assert(a.take(line.len() as int + 1) =~= line.push('\r'));
    assert(line.push('\r').drop_last() =~= line);
    assert(a.skip(line.len() as int + 2) =~= rest);
    let b = line + seq!['\n'] + rest;
    lemma_position(b, '\n', line.len() as int);
    assert(b.take(line.len() as int) =~= line);
    assert(b.skip(line.len() as int + 1) =~= rest);
}

/// Whether all of `s` is white space.
pub open spec fn all_space(s: Seq<char>) -> bool {
    forall|i: int| 0 <= i < s.len() ==> is_space(#[trigger] s[i])
}

/// A trimmed text is the text without white space before it and behind it, and neither
/// starts nor ends with white space.
pub proof fn law_trimmed(s: Seq<char>)
    ensures
        exists|before: Seq<char>, behind: Seq<char>|
            all_space(before) && all_space(behind) && s == #[trigger] (before + trimmed(s)
                + behind),
        trimmed(s).len() > 0 ==> !is_space(trimmed(s)[0]) && !is_space(trimmed(s).last()),
    decreases s.len(),
{
    let none = Seq::<char>::empty();
    if s.len() == 0 {
        assert(s =~= none + trimmed(s) + none);
    } else if is_space(s[0]) {
        law_trimmed(s.skip(1));
        let (before, behind) = choose|before: Seq<char>, behind: Seq<char>|
            all_space(before) && all_space(behind) && s.skip(1) == #[trigger] (before + trimmed(
                s.skip(1),
            ) + behind);
        assert(s =~= seq![s[0]] + s.skip(1));
        assert(all_space(seq![s[0]] + before));
        assert(s =~= (seq![s[0]] + before) + trimmed(s) + behind);
    } else if is_space(s.last()) {
        law_trimmed(s.drop_last());
        let (before, behind) = choose|before: Seq<char>, behind: Seq<char>|
            all_space(before) && all_space(behind) && s.drop_last() == #[trigger] (before
                + trimmed(s.drop_last()) + behind);
        assert(s =~= s.drop_last().push(s.last()));
        assert(all_space(behind.push(s.last())));
        assert(s =~= before + trimmed(s) + behind.push(s.last()));
    } else {
        assert(s =~= none + trimmed(s) + none);
    }
}

/// White space is the tab, the line breaks and the spaces of Unicode, and no visible
/// character of ASCII.
pub proof fn law_white_space(c: char)
    ensures
        c == ' ' || c == '\t' || c == '\n' || c == '\r' ==> is_space(c),
        '!' <= c && c <= '~' ==> !is_space(c),
        is_space(c) <==> {
            let n = c as int;
            ||| n == 0x20 || 0x9 <= n < 0xe || n == 0x85 || n == 0xa0
            ||| n == 0x1680 || 0x2000 <= n < 0x200b || n == 0x2028 || n == 0x2029
            ||| n == 0x202f || n == 0x205f || n == 0x3000
        },
{
}

/// A number of at most `max` is a number, and at most `max`.
pub proof fn law_bounded_numbers(s: Seq<char>, max: nat, n: nat)
    ensures
        parse_up_to(s, max) == Some(n) <==> parse_number(s) == Some(n) && n <= max,
        parse_up_to(s, max) is None <==> parse_number(s) is None || parse_number(s)->0 > max,
{
}

} // verus!
