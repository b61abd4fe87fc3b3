//! Text: numbers written in digits and read back, strings taken apart at a
//! separator and trimmed at both ends.

use vstd::prelude::*;
use vstd::string::*;

verus! {

/// The characters of a string that may be missing.
pub open spec fn text_view(s: Option<String>) -> Option<Seq<char>> {
    match s {
        Some(text) => Some(text@),
        None => None,
    }
}

/// The characters of a string slice that may be missing.
pub open spec fn str_view(s: Option<&str>) -> Option<Seq<char>> {
    match s {
        Some(text) => Some(text@),
        None => None,
    }
}

/// The character for the digit `d`, for `d` below ten.
pub open spec fn digit_char(d: nat) -> char {
    (48 + d) as char
}

/// `n` written in `base`, most significant digit first, without leading zeros.
pub open spec fn digits(n: nat, base: nat) -> Seq<char>
    decreases n,
{
    if base < 2 || n < base {
        seq![digit_char(n)]
    } else {
        proof {
            assert(n / base < n) by (nonlinear_arith)
                requires
                    2 <= base <= n,
            ;
        }
        digits(n / base, base).push(digit_char(n % base))
    }
}

/// `n` written in decimal.
pub open spec fn decimal(n: nat) -> Seq<char> {
    digits(n, 10)
}

/// Appends the digit `d` to `out`.
fn push_digit(out: &mut String, d: u64)
    requires
        d < 10,
    ensures
        final(out)@ == old(out)@.push(digit_char(d as nat)),
{
    proof {
        reveal_strlit("0");
        reveal_strlit("1");
        reveal_strlit("2");
        reveal_strlit("3");
        reveal_strlit("4");
        reveal_strlit("5");
        reveal_strlit("6");
        reveal_strlit("7");
        reveal_strlit("8");
        reveal_strlit("9");
    }
    let digit: &str = match d {
        0 => "0",
        1 => "1",
        2 => "2",
        3 => "3",
        4 => "4",
        5 => "5",
        6 => "6",
        7 => "7",
        8 => "8",
        _ => "9",
    };
    assert(digit@ =~= seq![digit_char(d as nat)]);
    out.append(digit);
    assert(out@ =~= old(out)@.push(digit_char(d as nat)));
}

/// Appends `n`, written in `base`, to `out`.
pub fn push_number(out: &mut String, n: u64, base: u64)
    requires
        2 <= base <= 10,
    ensures
        final(out)@ == old(out)@ + digits(n as nat, base as nat),
    decreases n,
{
    if n >= base {
        assert(n / base < n) by (nonlinear_arith)
            requires
                2 <= base <= n,
        ;
        push_number(out, n / base, base);
    }
    proof {
        if n < base {
            assert(n % base == n) by (nonlinear_arith)
                requires
                    n < base,
            ;
        }
        assert(n % base < base) by (nonlinear_arith)
            requires
                2 <= base,
        ;
    }
    push_digit(out, n % base);
    assert(out@ =~= old(out)@ + digits(n as nat, base as nat));
}

/// `n` in decimal.
pub fn decimal_string(n: u64) -> (r: String)
    ensures
        r@ == decimal(n as nat),
{
    let mut out = String::new();
    push_number(&mut out, n, 10);
    assert(out@ =~= decimal(n as nat));
    out
}

/// Whether `c` is one of the ten decimal digits.
pub open spec fn is_digit(c: char) -> bool {
    '0' <= c <= '9'
}

/// The number that a sequence of decimal digits denotes.
pub open spec fn digits_value(s: Seq<char>) -> nat
    decreases s.len(),
{
    if s.len() == 0 {
        0
    } else {
        digits_value(s.drop_last()) * 10 + (s.last() as nat - 48) as nat
    }
}

/// `s` without a leading plus sign.
pub open spec fn without_plus(s: Seq<char>) -> Seq<char> {
    if s.len() > 0 && s[0] == '+' {
        s.skip(1)
    } else {
        s
    }
}

/// The number that `s` denotes: one or more decimal digits, after an optional
/// plus sign, of a value up to `max`.
pub open spec fn unsigned_value(s: Seq<char>, max: nat) -> Option<nat> {
    let body = without_plus(s);
    if body.len() > 0 && (forall|i: int| 0 <= i < body.len() ==> is_digit(#[trigger] body[i]))
        && digits_value(body) <= max {
        Some(digits_value(body))
    } else {
        None
    }
}

/// The characters of `s`.
pub fn chars_of(s: &str) -> (r: Vec<char>)
    ensures
        r@ == s@,
{
    let mut out: Vec<char> = Vec::new();
    for c in it: s.chars()
        invariant
            out@ == s@.take(it.index()),
            it.seq() == s@,
    {
        out.push(c);
        assert(s@.take(it.index() + 1) =~= s@.take(it.index()).push(c));
    }
    assert(s@.take(s@.len() as int) =~= s@);
    out
}

proof fn lemma_digits_value_grows(s: Seq<char>, i: int)
    requires
        0 <= i <= s.len(),
        forall|k: int| 0 <= k < s.len() ==> is_digit(#[trigger] s[k]),
    ensures
        digits_value(s.take(i)) <= digits_value(s),
    decreases s.len(),
{
    if i < s.len() {
        lemma_digits_value_grows(s.drop_last(), i);
        assert(s.drop_last().take(i) =~= s.take(i));
    } else {
        assert(s.take(i) =~= s);
    }
}

/// Reads an unsigned number of at most `max`.
pub fn parse_unsigned(s: &str, max: u64) -> (r: Option<u64>)
    ensures
        r matches Some(n) ==> unsigned_value(s@, max as nat) == Some(n as nat),
        r is None ==> unsigned_value(s@, max as nat) is None,
{
    let chars = chars_of(s);
    let start: usize = if chars.len() > 0 && chars[0] == '+' { 1 } else { 0 };
    let ghost body = without_plus(s@);
    assert(body =~= chars@.skip(start as int));
    if chars.len() == start {
        return None;
    }
    let mut n: u64 = 0;
    let mut i: usize = start;
    while i < chars.len()
        invariant
            start <= i <= chars.len(),
            body == chars@.skip(start as int),
            forall|k: int| 0 <= k < i - start ==> is_digit(#[trigger] body[k]),
            n == digits_value(body.take(i - start)),
            n <= max,
            body == without_plus(s@),
        decreases chars.len() - i,
    {
        let c = chars[i];
        assert(c == body[i - start]);
        if c < '0' || c > '9' {
            return None;
        }
        let d: u64 = c as u64 - 48;
        let ghost longer = body.take(i - start + 1);
        assert(longer.drop_last() =~= body.take(i - start));
        assert(digits_value(longer) == n * 10 + d);
        if d > max || n > max / 10 || n * 10 > max - d {
            proof {
                if forall|k: int| 0 <= k < body.len() ==> is_digit(#[trigger] body[k]) {
                    lemma_digits_value_grows(body, i - start + 1);
                }
            }
            return None;
        }
        n = n * 10 + d;
        i = i + 1;
    }
    assert(body.take(body.len() as int) =~= body);
    Some(n)
}

/// `s` taken apart at every `sep`: one more part than there are separators.
pub open spec fn split(s: Seq<char>, sep: char) -> Seq<Seq<char>>
    decreases s.len(),
{
    if s.len() == 0 {
        seq![Seq::empty()]
    } else {
        let before = split(s.drop_last(), sep);
        if s.last() == sep {
            before.push(Seq::empty())
        } else {
            before.drop_last().push(before.last().push(s.last()))
        }
    }
}

/// There is at least one part.
pub proof fn lemma_split_nonempty(s: Seq<char>, sep: char)
    ensures
        split(s, sep).len() >= 1,
    decreases s.len(),
{
    if s.len() > 0 {
        lemma_split_nonempty(s.drop_last(), sep);
    }
}

/// A string without the separator is its own only part.
pub proof fn lemma_split_single(s: Seq<char>, sep: char)
    requires
        !s.contains(sep),
    ensures
        split(s, sep) == seq![s],
    decreases s.len(),
{
    if s.len() > 0 {
        assert forall|i: int| 0 <= i < s.drop_last().len() implies s.drop_last()[i] != sep by {
            assert(s.contains(s[i]));
        }
        lemma_split_single(s.drop_last(), sep);
        assert(s.contains(s.last()));
        assert(s.drop_last().push(s.last()) =~= s);
        assert(split(s, sep) =~= seq![s]);
    } else {
        assert(s =~= Seq::empty());
    }
}

/// The part before the first separator comes first.
pub proof fn lemma_split_first(head: Seq<char>, sep: char, tail: Seq<char>)
    requires
        !head.contains(sep),
    ensures
        split(head + seq![sep] + tail, sep) == seq![head] + split(tail, sep),
    decreases tail.len(),
{
    let whole = head + seq![sep] + tail;
    if tail.len() == 0 {
        assert(whole.drop_last() =~= head);
        lemma_split_single(head, sep);
        assert(split(whole, sep) =~= seq![head] + split(tail, sep));
    } else {
        assert(whole.drop_last() =~= head + seq![sep] + tail.drop_last());
        lemma_split_first(head, sep, tail.drop_last());
        lemma_split_nonempty(tail.drop_last(), sep);
        assert(split(whole, sep) =~= seq![head] + split(tail, sep));
    }
}

/// Takes `s` apart at every `sep`.
pub fn split_string(s: &str, sep: char) -> (r: Vec<String>)
    ensures
        r.deep_view() == split(s@, sep),
{
    let chars = chars_of(s);
    let mut parts: Vec<String> = Vec::new();
    let mut start: usize = 0;
    let mut i: usize = 0;
    assert(chars@.take(0) =~= Seq::empty());
    assert(parts.deep_view().push(s@.subrange(0, 0)) =~= split(s@.take(0), sep));
    while i < chars.len()
        invariant
            chars@ == s@,
            start <= i <= chars.len(),
            parts.deep_view().push(s@.subrange(start as int, i as int)) == split(
                s@.take(i as int),
                sep,
            ),
        decreases chars.len() - i,
    {
        let ghost before = parts.deep_view();
        let ghost current = s@.subrange(start as int, i as int);
        assert(s@.take(i + 1).drop_last() =~= s@.take(i as int));
        assert(before.push(current).drop_last() =~= before);
        if chars[i] == sep {
            let part = s.substring_char(start, i);
            parts.push(part.to_string());
            assert(parts.deep_view() =~= before.push(current));
            start = i + 1;
            assert(s@.subrange(start as int, i + 1) =~= Seq::empty());
        } else {
            assert(s@.subrange(start as int, i + 1) =~= current.push(chars@[i as int]));
        }
        i = i + 1;
    }
    let ghost before = parts.deep_view();
    let part = s.substring_char(start, i);
    parts.push(part.to_string());
    assert(s@.take(i as int) =~= s@);
    assert(parts.deep_view() =~= before.push(s@.subrange(start as int, i as int)));
    parts
}

/// Whether `c` is white space: the characters of the Unicode property
/// `White_Space`.
pub open spec fn white_space(c: char) -> bool {
    let code = c as u32;
    ||| 9 <= code <= 13
    ||| code == 0x20
    ||| code == 0x85
    ||| code == 0xa0
    ||| code == 0x1680
    ||| 0x2000 <= code <= 0x200a
    ||| code == 0x2028
    ||| code == 0x2029
    ||| code == 0x202f
    ||| code == 0x205f
    ||| code == 0x3000
}

/// Whether `c` is white space.
fn is_white_space(c: char) -> (r: bool)
    ensures
        r == white_space(c),
{
    let code: u32 = c as u32;
    (9 <= code && code <= 13) || code == 0x20 || code == 0x85 || code == 0xa0 || code == 0x1680 || (
    0x2000 <= code && code <= 0x200a) || code == 0x2028 || code == 0x2029 || code == 0x202f
        || code == 0x205f || code == 0x3000
}

/// `s` from its first character that is not white space.
pub open spec fn trimmed_start(s: Seq<char>) -> Seq<char>
    decreases s.len(),
{
    if s.len() > 0 && white_space(s[0]) {
        trimmed_start(s.skip(1))
    } else {
        s
    }
}

/// `s` up to its last character that is not white space.
pub open spec fn trimmed_end(s: Seq<char>) -> Seq<char>
    decreases s.len(),
{
    if s.len() > 0 && white_space(s.last()) {
        trimmed_end(s.drop_last())
    } else {
        s
    }
}

/// `s` without the white space at its two ends.
pub open spec fn trimmed(s: Seq<char>) -> Seq<char> {
    trimmed_end(trimmed_start(s))
}

/// `s` without the white space at its two ends.
pub fn trim(s: &str) -> (r: &str)
    ensures
        r@ == trimmed(s@),
{
    let chars = chars_of(s);
    let mut start: usize = 0;
    assert(s@.skip(0) =~= s@);
    while start < chars.len() && is_white_space(chars[start])
        invariant
            chars@ == s@,
            start <= chars.len(),
            trimmed_start(s@) == trimmed_start(s@.skip(start as int)),
        decreases chars.len() - start,
    {
        assert(s@.skip(start as int).skip(1) =~= s@.skip(start + 1));
        start = start + 1;
    }
    assert(trimmed_start(s@) == s@.skip(start as int));
    let mut end: usize = chars.len();
    assert(s@.subrange(start as int, end as int) =~= s@.skip(start as int));
    while start < end && is_white_space(chars[end - 1])
        invariant
            chars@ == s@,
            start <= end <= chars.len(),
            trimmed(s@) == trimmed_end(s@.subrange(start as int, end as int)),
        decreases end,
    {
        assert(s@.subrange(start as int, end as int).drop_last() =~= s@.subrange(
            start as int,
            end - 1,
        ));
        end = end - 1;
    }
    s.substring_char(start, end)
}

/// Every character of `s` is white space.
pub open spec fn is_blank(s: Seq<char>) -> bool {
    forall|i: int| 0 <= i < s.len() ==> white_space(#[trigger] s[i])
}

proof fn lemma_trimmed_start_of_blank(s: Seq<char>)
    requires
        is_blank(s),
    ensures
        trimmed_start(s).len() == 0,
    decreases s.len(),
{
    if s.len() > 0 {
        assert(is_blank(s.skip(1)));
        lemma_trimmed_start_of_blank(s.skip(1));
    }
}

proof fn lemma_trimmed_start_skips(margin: Seq<char>, s: Seq<char>)
    requires
        is_blank(margin),
    ensures
        trimmed_start(margin + s) == trimmed_start(s),
    decreases margin.len(),
{
    if margin.len() > 0 {
        assert(white_space(margin[0]));
        assert(is_blank(margin.skip(1)));
        assert((margin + s).skip(1) =~= margin.skip(1) + s);
        lemma_trimmed_start_skips(margin.skip(1), s);
    } else {
        assert(margin + s =~= s);
    }
}

proof fn lemma_trimmed_start_keeps(s: Seq<char>, rest: Seq<char>)
    requires
        !is_blank(s),
    ensures
        trimmed_start(s + rest) == trimmed_start(s) + rest,
        trimmed_start(s).len() > 0,
    decreases s.len(),
{
    assert((s + rest)[0] == s[0]);
    if white_space(s[0]) {
        assert(!is_blank(s.skip(1))) by {
            let i = choose|i: int| 0 <= i < s.len() && !white_space(#[trigger] s[i]);
            assert(s.skip(1)[i - 1] == s[i]);
        }
        assert((s + rest).skip(1) =~= s.skip(1) + rest);
        lemma_trimmed_start_keeps(s.skip(1), rest);
    }
}

proof fn lemma_trimmed_end_skips(s: Seq<char>, margin: Seq<char>)
    requires
        is_blank(margin),
    ensures
        trimmed_end(s + margin) == trimmed_end(s),
    decreases margin.len(),
{
    if margin.len() > 0 {
        assert(white_space(margin.last()));
        assert((s + margin).last() == margin.last());
        assert(is_blank(margin.drop_last()));
        assert((s + margin).drop_last() =~= s + margin.drop_last());
        lemma_trimmed_end_skips(s, margin.drop_last());
    } else {
        assert(s + margin =~= s);
    }
}

/// White space around a text is trimmed away.
pub proof fn lemma_trimmed_ignores_margins(before: Seq<char>, s: Seq<char>, after: Seq<char>)
    requires
        is_blank(before),
        is_blank(after),
    ensures
        trimmed(before + s + after) == trimmed(s),
{
    assert(before + s + after =~= before + (s + after));
    lemma_trimmed_start_skips(before, s + after);
    if is_blank(s) {
        assert(is_blank(s + after)) by {
            assert forall|i: int| 0 <= i < (s + after).len() implies white_space(
                #[trigger] (s + after)[i],
            ) by {
                if i < s.len() {
                    assert(white_space(s[i]));
                } else {
                    assert(white_space(after[i - s.len()]));
                }
            }
        }
        lemma_trimmed_start_of_blank(s);
        lemma_trimmed_start_of_blank(s + after);
        assert(trimmed_start(s) =~= trimmed_start(s + after));
    } else {
        lemma_trimmed_start_keeps(s, after);
        lemma_trimmed_end_skips(trimmed_start(s), after);
    }
}

/// The number that the digits `s` denote in `base`.
pub open spec fn value_in_base(s: Seq<char>, base: nat) -> nat
    decreases s.len(),
{
    if s.len() == 0 {
        0
    } else {
        value_in_base(s.drop_last(), base) * base + (s.last() as nat - 48) as nat
    }
}

/// A number that is written in a base of at most ten has one or more digits of
/// that base, no needless zero in front, and the value of the number.
pub proof fn law_written_number_has_its_value(n: nat, base: nat)
    requires
        2 <= base <= 10,
    ensures
        digits(n, base).len() >= 1,
        forall|i: int|
            0 <= i < digits(n, base).len() ==> 48 <= #[trigger] digits(n, base)[i] < 48 + base,
        n > 0 ==> digits(n, base)[0] != '0',
        value_in_base(digits(n, base), base) == n,
    decreases n,
{
    let s = digits(n, base);
    if n < base {
        assert(s =~= seq![digit_char(n)]);
        assert(s.drop_last() =~= Seq::empty());
        assert(value_in_base(s.drop_last(), base) == 0);
        assert(0 * base == 0) by (nonlinear_arith);
    } else {
        assert(n / base < n && n / base > 0) by (nonlinear_arith)
            requires
                2 <= base <= n,
        ;
        assert(n % base < base) by (nonlinear_arith)
            requires
                2 <= base,
        ;
        assert((n / base) * base + n % base == n) by (nonlinear_arith)
            requires
                2 <= base,
        ;
        law_written_number_has_its_value(n / base, base);
        assert(s.drop_last() =~= digits(n / base, base));
        assert forall|i: int| 0 <= i < s.len() implies 48 <= #[trigger] s[i] < 48 + base by {
            if i < s.len() - 1 {
                assert(s[i] == digits(n / base, base)[i]);
            }
        }
        assert(s[0] == digits(n / base, base)[0]);
    }
}

proof fn lemma_values_agree(s: Seq<char>)
    ensures
        digits_value(s) == value_in_base(s, 10),
    decreases s.len(),
{
    if s.len() > 0 {
        lemma_values_agree(s.drop_last());
    }
}

/// A number in decimal is read back as that number, with or without a plus sign in
/// front, exactly if it is not above the limit.
pub proof fn law_decimal_is_read_back(n: nat, max: nat)
    ensures
        n <= max ==> unsigned_value(decimal(n), max) == Some(n),
        n <= max ==> unsigned_value(seq!['+'] + decimal(n), max) == Some(n),
        n > max ==> unsigned_value(decimal(n), max) is None,
{
    law_written_number_has_its_value(n, 10);
    lemma_values_agree(decimal(n));
    assert(decimal(n)[0] != '+');
    assert(without_plus(decimal(n)) == decimal(n));
    assert((seq!['+'] + decimal(n)).skip(1) =~= decimal(n));
    assert forall|i: int| 0 <= i < decimal(n).len() implies is_digit(#[trigger] decimal(n)[i]) by {
        assert(48 <= decimal(n)[i]);
    }
}

/// What is read as a number is one or more digits, after at most one plus sign, and
/// the number is not above the limit.
pub proof fn law_only_digits_are_numbers(s: Seq<char>, max: nat)
    ensures
        unsigned_value(s, max) matches Some(n) ==> n <= max && s.len() > 0 && (forall|i: int|
            0 <= i < s.len() ==> '0' <= #[trigger] s[i] <= '9' || (i == 0 && s[i] == '+'
                && s.len() > 1)),
{
    if unsigned_value(s, max) is Some {
        let body = without_plus(s);
        assert forall|i: int| 0 <= i < s.len() implies '0' <= #[trigger] s[i] <= '9' || (i == 0
            && s[i] == '+' && s.len() > 1) by {
            if s[0] == '+' {
                if i > 0 {
                    assert(is_digit(body[i - 1]));
                }
            } else {
                assert(is_digit(body[i]));
            }
        }
    }
}

/// Another digit behind a number makes ten times the number plus the digit.
pub proof fn law_digits_are_decimal(s: Seq<char>, c: char, max: nat)
    requires
        '0' <= c <= '9',
        unsigned_value(s, max) is Some,
    ensures
        ({
            let n = unsigned_value(s, max)->0 * 10 + (c as nat - 48) as nat;
            unsigned_value(s.push(c), max) == if n <= max {
                Some(n)
            } else {
                None
            }
        }),
{
    let body = without_plus(s);
    assert(without_plus(s.push(c)) =~= body.push(c));
    assert(body.push(c).drop_last() =~= body);
    assert forall|i: int| 0 <= i < body.push(c).len() implies is_digit(
        #[trigger] body.push(c)[i],
    ) by {
        if i < body.len() {
            assert(is_digit(body[i]));
        }
    }
}

/// Parts in a row, with `sep` between them.
pub open spec fn rejoined(parts: Seq<Seq<char>>, sep: char) -> Seq<char>
    decreases parts.len(),
{
    if parts.len() == 0 {
        Seq::empty()
    } else if parts.len() == 1 {
        parts[0]
    } else {
        rejoined(parts.drop_last(), sep).push(sep) + parts.last()
    }
}

/// A text that is taken apart is whole again once the parts are joined, and no part
/// holds the separator.
pub proof fn law_split_is_undone_by_joining(s: Seq<char>, sep: char)
    ensures
        split(s, sep).len() >= 1,
        rejoined(split(s, sep), sep) == s,
        forall|i: int| 0 <= i < split(s, sep).len() ==> !(#[trigger] split(s, sep)[i]).contains(sep),
    decreases s.len(),
{
    let parts = split(s, sep);
    if s.len() == 0 {
        assert(parts[0].len() == 0);
        assert(rejoined(parts, sep) =~= s);
    } else {
        let before = split(s.drop_last(), sep);
        law_split_is_undone_by_joining(s.drop_last(), sep);
        assert(s =~= s.drop_last().push(s.last()));
        if s.last() == sep {
            assert(parts.drop_last() =~= before);
            assert(rejoined(parts, sep) =~= s);
        } else {
            assert(parts.drop_last() =~= before.drop_last());
            assert(parts.last() == before.last().push(s.last()));
            assert(!parts.last().contains(sep)) by {
                if parts.last().contains(sep) {
                    let i = choose|i: int| 0 <= i < parts.last().len() && parts.last()[i] == sep;
                    assert(before.last()[i] == sep);
                    assert(before[before.len() - 1].contains(sep));
                }
            }
            if before.len() == 1 {
                assert(rejoined(parts, sep) =~= s);
            } else {
                assert(rejoined(parts, sep) =~= rejoined(before, sep).push(s.last()));
            }
        }
        assert forall|i: int| 0 <= i < parts.len() implies !(#[trigger] parts[i]).contains(sep) by {
            if i < parts.len() - 1 {
                assert(parts[i] == before[i]);
            }
        }
    }
}

/// Trimming takes white space off the two ends of a text and nothing else, until
/// there is none at either end.
pub proof fn law_trimming_takes_all_margins(s: Seq<char>)
    ensures
        exists|from: int, to: int|
            0 <= from <= to <= s.len() && trimmed(s) == #[trigger] s.subrange(from, to) && is_blank(
                s.take(from),
            ) && is_blank(s.skip(to)),
        trimmed(s).len() > 0 ==> !white_space(trimmed(s)[0]) && !white_space(trimmed(s).last()),
{
    let from = lemma_trimmed_start_is_suffix(s);
    let core = s.skip(from);
    let to = lemma_trimmed_end_is_prefix(core);
    assert(trimmed(s) =~= s.subrange(from, from + to));
    assert(s.skip(from + to) =~= core.skip(to));
}

proof fn lemma_trimmed_start_is_suffix(s: Seq<char>) -> (from: int)
    ensures
        0 <= from <= s.len(),
        trimmed_start(s) == s.skip(from),
        is_blank(s.take(from)),
        from < s.len() ==> !white_space(s[from]),
    decreases s.len(),
{
    if s.len() > 0 && white_space(s[0]) {
        let rest = lemma_trimmed_start_is_suffix(s.skip(1));
        assert(s.skip(1).skip(rest) =~= s.skip(rest + 1));
        assert forall|i: int| 0 <= i < rest + 1 implies white_space(
            #[trigger] s.take(rest + 1)[i],
        ) by {
            if i > 0 {
                assert(white_space(s.skip(1).take(rest)[i - 1]));
            }
        }
        rest + 1
    } else {
        assert(s.skip(0) =~= s);
        0
    }
}

proof fn lemma_trimmed_end_is_prefix(s: Seq<char>) -> (to: int)
    ensures
        0 <= to <= s.len(),
        trimmed_end(s) == s.take(to),
        is_blank(s.skip(to)),
        to > 0 ==> !white_space(s[to - 1]),
    decreases s.len(),
{
    if s.len() > 0 && white_space(s.last()) {
        let to = lemma_trimmed_end_is_prefix(s.drop_last());
        assert(s.drop_last().take(to) =~= s.take(to));
        assert forall|i: int| 0 <= i < s.len() - to implies white_space(
            #[trigger] s.skip(to)[i],
        ) by {
            if i < s.len() - 1 - to {
                assert(white_space(s.drop_last().skip(to)[i]));
            }
        }
        to
    } else {
        assert(s.take(s.len() as int) =~= s);
        s.len() as int
    }
}

/// A text that may be missing is missing exactly if its view is, and decimal is base
/// ten.
pub proof fn law_text_views_keep_the_text(text: String, slice: &str, n: nat)
    ensures
        text_view(Some(text)) == Some(text@),
        text_view(None) is None,
        str_view(Some(slice)) == Some(slice@),
        str_view(None) is None,
        decimal(n) == digits(n, 10),
{
}

} // verus!
