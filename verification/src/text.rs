//! Text as a sequence of characters: building it, cutting it up, and the decimal numbers in it.
use vstd::prelude::*;

verus! {

/// `String::push` appends one character at the end and leaves what was there as it is.
pub assume_specification[ String::push ](s: &mut String, c: char)
    ensures
        final(s)@ == old(s)@.push(c),
;

/// The characters of `s`, in order.
pub fn chars_of(s: &str) -> (chars: Vec<char>)
    ensures
        chars@ == s@,
{
    let mut chars: Vec<char> = Vec::new();
    for c in it: s.chars()
        invariant
            it.seq() == s@,
            chars@ == s@.take(it.index()),
    {
        chars.push(c);
        assert(s@.take(it.index() + 1) =~= s@.take(it.index()).push(c));
    }
    assert(s@.take(s@.len() as int) =~= s@);
    chars
}

/// The text made of the characters of `chars` from index `from` up to, not including, `to`.
pub fn string_between(chars: &Vec<char>, from: usize, to: usize) -> (s: String)
    requires
        from <= to <= chars@.len(),
    ensures
        s@ == chars@.subrange(from as int, to as int),
{
    let mut s = String::new();
    let mut i: usize = from;
    while i < to
        invariant
            from <= i <= to <= chars@.len(),
            s@ == chars@.subrange(from as int, i as int),
        decreases to - i,
    {
        s.push(chars[i]);
        assert(chars@.subrange(from as int, i + 1) =~= chars@.subrange(from as int, i as int).push(
            chars@[i as int],
        ));
        i += 1;
    }
    s
}

/// Whether two texts are the same, character for character.
pub fn same_text(a: &str, b: &str) -> (same: bool)
    ensures
        same == (a@ == b@),
{
    a.to_owned() == b.to_owned()
}

/// The views of a list of texts.
pub open spec fn views(list: Seq<String>) -> Seq<Seq<char>> {
    list.map_values(|s: String| s@)
}

/// A list that holds the first texts of `column` holds one more of them after one more `push`.
pub proof fn lemma_views_grow(list: Seq<String>, s: String, column: Seq<Seq<char>>, i: int)
    requires
        0 <= i < column.len(),
        views(list) == column.take(i),
        s@ == column[i],
    ensures
        views(list.push(s)) == column.take(i + 1),
{
    assert(views(list.push(s)) =~= views(list).push(s@));
    assert(column.take(i + 1) =~= column.take(i).push(column[i]));
}

/// The view of a text that may be missing.
pub open spec fn optional_view(s: Option<String>) -> Option<Seq<char>> {
    match s {
        Some(s) => Some(s@),
        None => None,
    }
}

/// A copy of a text that may be missing.
pub fn copy_optional(s: &Option<String>) -> (copy: Option<String>)
    ensures
        optional_view(copy) == optional_view(*s),
{
    match s {
        Some(s) => Some(s.clone()),
        None => None,
    }
}

/// A copy of a list of texts.
pub fn copy_list(list: &Vec<String>) -> (copy: Vec<String>)
    ensures
        views(copy@) == views(list@),
{
    let mut copy: Vec<String> = Vec::new();
    let mut i: usize = 0;
    while i < list.len()
        invariant
            i <= list@.len(),
            views(copy@) == views(list@.take(i as int)),
        decreases list@.len() - i,
    {
        let ghost before = copy@;
        copy.push(list[i].clone());
        assert(views(copy@) =~= views(before).push(list@[i as int]@));
        assert(views(list@.take(i + 1)) =~= views(list@.take(i as int)).push(list@[i as int]@));
        i += 1;
    }
    assert(list@.take(i as int) =~= list@);
    copy
}

// ---------------------------------------------------------------------------------------------
// decimal and hexadecimal numbers
// ---------------------------------------------------------------------------------------------

/// The digit character for `d`, which is below sixteen; letters are lower case.
pub open spec fn digit(d: nat) -> char {
    if d < 10 {
        (48 + d) as char
    } else {
        (87 + d) as char
    }
}

/// `n` in decimal, without leading zeros.
pub open spec fn dec(n: nat) -> Seq<char>
    decreases n,
{
    if n < 10 {
        seq![digit(n)]
    } else {
        dec(n / 10).push(digit(n % 10))
    }
}

/// `n` in hexadecimal, without leading zeros, in lower case.
pub open spec fn hex(n: nat) -> Seq<char>
    decreases n,
{
    if n < 16 {
        seq![digit(n)]
    } else {
        hex(n / 16).push(digit(n % 16))
    }
}

/// The digit character for `d`.
pub fn digit_char(d: u8) -> (c: char)
    requires
        d < 16,
    ensures
        c == digit(d as nat),
{
    if d < 10 {
        (48 + d) as char
    } else {
        (87 + d) as char
    }
}

/// `n` in decimal.
pub fn decimal(n: u64) -> (s: String)
    ensures
        s@ == dec(n as nat),
    decreases n,
{
    if n < 10 {
        let mut s = String::new();
        s.push(digit_char(n as u8));
        s
    } else {
        let mut s = decimal(n / 10);
        s.push(digit_char((n % 10) as u8));
        s
    }
}

/// `n` in decimal, with a minus sign when it is negative.
pub open spec fn signed_dec(n: int) -> Seq<char> {
    if n < 0 {
        seq!['-'] + dec((-n) as nat)
    } else {
        dec(n as nat)
    }
}

/// `n` in decimal, with a minus sign when it is negative.
pub fn signed_decimal(n: i32) -> (s: String)
    ensures
        s@ == signed_dec(n as int),
{
    if n < 0 {
        let mut s = String::new();
        s.push('-');
        s.append(decimal((-(n as i64)) as u64).as_str());
        s
    } else {
        decimal(n as u64)
    }
}

/// `n` in hexadecimal.
pub fn hexadecimal(n: u32) -> (s: String)
    ensures
        s@ == hex(n as nat),
    decreases n,
{
    if n < 16 {
        let mut s = String::new();
        s.push(digit_char(n as u8));
        s
    } else {
        let mut s = hexadecimal(n / 16);
        s.push(digit_char((n % 16) as u8));
        s
    }
}

/// Whether `c` is one of `0` to `9`.
pub open spec fn is_digit(c: char) -> bool {
    '0' <= c && c <= '9'
}

/// Whether every character is a decimal digit.
pub open spec fn all_digits(s: Seq<char>) -> bool {
    forall|i: int| 0 <= i < s.len() ==> is_digit(#[trigger] s[i])
}

/// What a run of decimal digits stands for.
pub open spec fn digits_value(s: Seq<char>) -> nat
    decreases s.len(),
{
    if s.len() == 0 {
        0
    } else {
        (digits_value(s.drop_last()) * 10 + (s.last() as int - 48)) as nat
    }
}

/// The number that `s` spells: decimal digits, at least one, after at most one plus sign.
pub open spec fn number_of(s: Seq<char>) -> Option<nat> {
    let digits = if s.len() > 0 && s[0] == '+' {
        s.skip(1)
    } else {
        s
    };
    if digits.len() > 0 && all_digits(digits) {
        Some(digits_value(digits))
    } else {
        None
    }
}

/// The number that `s` spells, if it spells one that is no larger than `max`.
pub open spec fn number_up_to(s: Seq<char>, max: nat) -> Option<nat> {
    match number_of(s) {
        Some(n) => if n <= max {
            Some(n)
        } else {
            None
        },
        None => None,
    }
}

proof fn lemma_digits_value_grows(s: Seq<char>, i: int)
    requires
        0 <= i <= s.len(),
        all_digits(s),
    ensures
        digits_value(s.take(i)) <= digits_value(s),
    decreases s.len(),
{
    if i == s.len() {
        assert(s.take(i) =~= s);
    } else {
        assert(s.take(i) =~= s.drop_last().take(i));
        lemma_digits_value_grows(s.drop_last(), i);
        assert(is_digit(s[s.len() - 1]));
    }
}

/// Read a number that is no larger than `max`.
pub fn parse_number(text: &str, max: u64) -> (n: Option<u64>)
    requires
        max <= u64::MAX / 10 - 1,
    ensures
        match n {
            Some(n) => number_up_to(text@, max as nat) == Some(n as nat),
            None => number_up_to(text@, max as nat) is None,
        },
{
    let chars = chars_of(text);
    let start: usize = if chars.len() > 0 && chars[0] == '+' {
        1
    } else {
        0
    };
    let ghost digits = chars@.skip(start as int);
    assert(start == 0 ==> digits =~= chars@);
    if chars.len() == start {
        return None;
    }
    let mut n: u64 = 0;
    let mut i: usize = start;
    while i < chars.len()
        invariant
            start <= i <= chars@.len(),
            digits == chars@.skip(start as int),
            chars@ == text@,
            digits == (if text@.len() > 0 && text@[0] == '+' {
                text@.skip(1)
            } else {
                text@
            }),
            digits.len() > 0,
            all_digits(digits.take(i - start)),
            n == digits_value(digits.take(i - start)),
            n <= max,
            max <= u64::MAX / 10 - 1,
        decreases chars@.len() - i,
    {
        let c = chars[i];
        assert(digits[i - start] == c);
        if !('0' <= c && c <= '9') {
            return None;
        }
        let ghost now = digits.take(i - start);
        let ghost next = digits.take(i + 1 - start);
        assert(next.drop_last() =~= now);
        assert(all_digits(next)) by {
            assert forall|j: int| 0 <= j < next.len() implies is_digit(#[trigger] next[j]) by {
                if j < now.len() {
                    assert(next[j] == now[j]);
                }
            }
        }
        n = n * 10 + (c as u64 - 48);
        if n > max {
            proof {
                if all_digits(digits) {
                    lemma_digits_value_grows(digits, i + 1 - start);
                }
            }
            return None;
        }
        i += 1;
    }
    assert(digits.take(chars@.len() - start) =~= digits);
    Some(n)
}

/// Read a `u32` in decimal.
pub fn parse_u32(text: &str) -> (n: Option<u32>)
    ensures
        match n {
            Some(n) => number_up_to(text@, u32::MAX as nat) == Some(n as nat),
            None => number_up_to(text@, u32::MAX as nat) is None,
        },
{
    match parse_number(text, 0xffff_ffff) {
        Some(n) => Some(n as u32),
        None => None,
    }
}

pub proof fn lemma_dec_digits(n: nat)
    ensures
        dec(n).len() > 0,
        all_digits(dec(n)),
        digits_value(dec(n)) == n,
    decreases n,
{
    if n < 10 {
        reveal_with_fuel(digits_value, 2);
        assert(dec(n).drop_last() =~= Seq::<char>::empty());
    } else {
        lemma_dec_digits(n / 10);
        assert(dec(n).drop_last() =~= dec(n / 10));
        assert forall|i: int| 0 <= i < dec(n).len() implies is_digit(#[trigger] dec(n)[i]) by {
            if i < dec(n / 10).len() {
                assert(dec(n)[i] == dec(n / 10)[i]);
            }
        }
    }
}

/// Reading back a number written in decimal gives the number.
pub proof fn law_decimal_reads_back(n: nat)
    ensures
        number_of(dec(n)) == Some(n),
{
    lemma_dec_digits(n);
    assert(is_digit(dec(n)[0]));
}

/// The digits are `0` to `9` and, beyond those, `a` to `f`; a number is written as the digits of
/// its tenth part, or its sixteenth in hexadecimal, followed by one more digit.
pub proof fn law_numbers_are_positional(n: nat, d: nat)
    ensures
        d < 16 ==> digit(d) == "0123456789abcdef"@[d as int],
        d < 10 ==> dec(d) == seq!["0123456789abcdef"@[d as int]],
        d < 10 && n > 0 ==> dec(10 * n + d) == dec(n).push("0123456789abcdef"@[d as int]),
        d < 16 ==> hex(d) == seq!["0123456789abcdef"@[d as int]],
        d < 16 && n > 0 ==> hex(16 * n + d) == hex(n).push("0123456789abcdef"@[d as int]),
        n > 0 ==> signed_dec(-n) == seq!['-'] + dec(n),
        signed_dec(n as int) == dec(n),
{
    reveal_strlit("0123456789abcdef");
    if d < 10 && n > 0 {
        assert((10 * n + d) / 10 == n && (10 * n + d) % 10 == d);
    }
    if d < 16 && n > 0 {
        assert((16 * n + d) / 16 == n && (16 * n + d) % 16 == d);
    }
}

/// One more digit at the end of a number makes it ten times as large and adds the digit; a zero or
/// one plus sign before it change nothing; and a text with anything but digits in it, after at most
/// one plus sign, is no number, nor is one without a digit.
pub proof fn law_numbers_are_read_digit_by_digit(s: Seq<char>, n: nat, d: nat, i: int, max: nat)
    ensures
        s.len() > 0 && all_digits(s) && number_of(s) == Some(n) && d < 10 ==> number_of(
            s.push("0123456789"@[d as int]),
        ) == Some((10 * n + d) as nat),
        d < 10 ==> number_of(seq!["0123456789"@[d as int]]) == Some(d),
        s.len() > 0 && all_digits(s) ==> number_of(seq!['0'] + s) == number_of(s) && number_of(
            seq!['+'] + s,
        ) == number_of(s),
        1 <= i < s.len() && !('0' <= s[i] <= '9') ==> number_of(s) is None,
        s.len() > 0 && !('0' <= s[0] <= '9') && s[0] != '+' ==> number_of(s) is None,
        number_of(seq![]) is None && number_of(seq!['+']) is None,
        number_up_to(s, max) == Some(n) <==> number_of(s) == Some(n) && n <= max,
{
    reveal_strlit("0123456789");
    reveal_with_fuel(digits_value, 2);
    let empty = Seq::<char>::empty();
    if d < 10 {
        let c = "0123456789"@[d as int];
        assert(is_digit(c) && c as int == 48 + d);
        assert(seq![c].drop_last() =~= empty);
        assert(all_digits(seq![c]));
        if s.len() > 0 && all_digits(s) {
            assert(is_digit(s[0]));
            let longer = s.push(c);
            assert(longer.drop_last() =~= s);
            assert forall|k: int| 0 <= k < longer.len() implies is_digit(#[trigger] longer[k]) by {
                if k < s.len() {
                    assert(is_digit(s[k]));
                }
            }
            assert(longer[0] == s[0]);
        }
    }
    if s.len() > 0 && all_digits(s) {
        assert(is_digit(s[0]));
        lemma_leading_zero(s);
        let signed = seq!['+'] + s;
        assert(signed.skip(1) =~= s);
        let zero = seq!['0'] + s;
        assert forall|k: int| 0 <= k < zero.len() implies is_digit(#[trigger] zero[k]) by {
            if k > 0 {
                assert(is_digit(s[k - 1]));
            }
        }
    }
    if 1 <= i < s.len() && !('0' <= s[i] <= '9') {
        assert(s.skip(1)[i - 1] == s[i]);
        assert(!is_digit(s[i]));
    }
    if s.len() > 0 && !('0' <= s[0] <= '9') {
        assert(!is_digit(s[0]));
    }
    assert(seq!['+'].skip(1) =~= empty);
}

proof fn lemma_leading_zero(s: Seq<char>)
    ensures
        digits_value(seq!['0'] + s) == digits_value(s),
    decreases s.len(),
{
    let zero = seq!['0'] + s;
    if s.len() == 0 {
        reveal_with_fuel(digits_value, 2);
        assert(zero.drop_last() =~= Seq::<char>::empty());
    } else {
        lemma_leading_zero(s.drop_last());
        assert(zero.drop_last() =~= seq!['0'] + s.drop_last());
    }
}

// ---------------------------------------------------------------------------------------------
// looking inside a text
// ---------------------------------------------------------------------------------------------

/// Whether `s` begins with `prefix`.
pub open spec fn has_prefix(s: Seq<char>, prefix: Seq<char>) -> bool {
    prefix.len() <= s.len() && s.take(prefix.len() as int) == prefix
}

/// Whether `s` ends with `suffix`.
pub open spec fn has_suffix(s: Seq<char>, suffix: Seq<char>) -> bool {
    suffix.len() <= s.len() && s.skip(s.len() - suffix.len()) == suffix
}

/// Whether `s` begins with `prefix`.
pub fn starts_with(s: &str, prefix: &str) -> (b: bool)
    ensures
        b == has_prefix(s@, prefix@),
{
    let n: usize = prefix.unicode_len();
    if n > s.unicode_len() {
        return false;
    }
    same_text(s.substring_char(0, n), prefix)
}

/// Whether `s` ends with `suffix`.
pub fn ends_with(s: &str, suffix: &str) -> (b: bool)
    ensures
        b == has_suffix(s@, suffix@),
{
    let n: usize = suffix.unicode_len();
    let len: usize = s.unicode_len();
    if n > len {
        return false;
    }
    assert(s@.subrange(len - n, len as int) =~= s@.skip(len - n));
    same_text(s.substring_char(len - n, len), suffix)
}

/// What follows `prefix` in `s`, if `s` begins with it.
pub open spec fn after_prefix(s: Seq<char>, prefix: Seq<char>) -> Option<Seq<char>> {
    if has_prefix(s, prefix) {
        Some(s.skip(prefix.len() as int))
    } else {
        None
    }
}

/// What follows `prefix` in `s`, if `s` begins with it.
pub fn strip_prefix<'a>(s: &'a str, prefix: &str) -> (rest: Option<&'a str>)
    ensures
        match rest {
            Some(rest) => after_prefix(s@, prefix@) == Some(rest@),
            None => after_prefix(s@, prefix@) is None,
        },
{
    if starts_with(s, prefix) {
        let n: usize = prefix.unicode_len();
        let len: usize = s.unicode_len();
        assert(s@.subrange(n as int, len as int) =~= s@.skip(n as int));
        Some(s.substring_char(n, len))
    } else {
        None
    }
}

/// A text begins with exactly those texts that something can be put after to make it up, and ends
/// with those that something can be put before; what follows a beginning is the rest of the text.
pub proof fn law_beginnings_and_ends(s: Seq<char>, part: Seq<char>, rest: Seq<char>)
    ensures
        has_prefix(part + rest, part),
        after_prefix(part + rest, part) == Some(rest),
        has_prefix(s, part) ==> s == part + s.skip(part.len() as int) && after_prefix(s, part)
            == Some(s.skip(part.len() as int)),
        !has_prefix(s, part) ==> after_prefix(s, part) is None && s != part + rest,
        has_suffix(rest + part, part),
        has_suffix(s, part) ==> s == s.take(s.len() - part.len()) + part,
        !has_suffix(s, part) ==> s != rest + part,
{
    assert((part + rest).take(part.len() as int) =~= part);
    assert((part + rest).skip(part.len() as int) =~= rest);
    assert((rest + part).skip(rest.len() as int) =~= part);
    if has_prefix(s, part) {
        assert(s =~= s.take(part.len() as int) + s.skip(part.len() as int));
    }
    if has_suffix(s, part) {
        assert(s =~= s.take(s.len() - part.len()) + s.skip(s.len() - part.len()));
    }
}

/// The first index at which `c` stands in `s`, or the length of `s` where it stands nowhere.
pub open spec fn position(s: Seq<char>, c: char) -> int
    decreases s.len(),
{
    if s.len() == 0 || s[0] == c {
        0
    } else {
        1 + position(s.skip(1), c)
    }
}

pub proof fn lemma_position(s: Seq<char>, c: char)
    ensures
        0 <= position(s, c) <= s.len(),
        position(s, c) < s.len() ==> s[position(s, c)] == c,
        forall|i: int| 0 <= i < position(s, c) ==> s[i] != c,
    decreases s.len(),
{
    if s.len() > 0 && s[0] != c {
        lemma_position(s.skip(1), c);
        assert forall|i: int| 0 <= i < position(s, c) implies s[i] != c by {
            if i > 0 {
                assert(s[i] == s.skip(1)[i - 1]);
            }
        }
    }
}

pub proof fn lemma_position_is(s: Seq<char>, c: char, k: int)
    requires
        0 <= k <= s.len(),
        k < s.len() ==> s[k] == c,
        forall|i: int| 0 <= i < k ==> s[i] != c,
    ensures
        position(s, c) == k,
{
    lemma_position(s, c);
    if position(s, c) < k {
        assert(s[position(s, c)] != c);
    } else if k < position(s, c) {
        assert(s[k] != c);
    }
}

/// The first index, at or after `from`, at which `c` stands in `chars`.
pub fn find_from(chars: &Vec<char>, from: usize, c: char) -> (k: usize)
    requires
        from <= chars@.len(),
    ensures
        from <= k <= chars@.len(),
        k == from + position(chars@.skip(from as int), c),
{
    let mut k: usize = from;
    while k < chars.len() && chars[k] != c
        invariant
            from <= k <= chars@.len(),
            forall|i: int| from <= i < k ==> chars@[i] != c,
        decreases chars@.len() - k,
    {
        k += 1;
    }
    proof {
        lemma_position_is(chars@.skip(from as int), c, k - from);
    }
    k
}

/// What stands before and after the first `c`, if there is one.
pub open spec fn split_at_first(s: Seq<char>, c: char) -> Option<(Seq<char>, Seq<char>)> {
    if position(s, c) < s.len() {
        Some((s.take(position(s, c)), s.skip(position(s, c) + 1)))
    } else {
        None
    }
}

/// A text is cut at its first separator: what stands before it holds none, and the two parts with
/// the separator between them are the text. A text without the separator is not cut.
pub proof fn law_cut_at_the_first(s: Seq<char>, before: Seq<char>, c: char, after: Seq<char>)
    ensures
        !before.contains(c) ==> split_at_first(before.push(c) + after, c) == Some((before, after)),
        !before.contains(c) ==> position(before.push(c) + after, c) == before.len(),
        split_at_first(s, c) is None <==> !s.contains(c),
        split_at_first(s, c) matches Some((b, a)) ==> s == b.push(c) + a && !b.contains(c),
{
    let whole = before.push(c) + after;
    if !before.contains(c) {
        assert forall|i: int| 0 <= i < before.len() implies whole[i] != c by {
            assert(before.contains(before[i]));
        }
        lemma_position_is(whole, c, before.len() as int);
        assert(whole.take(before.len() as int) =~= before);
        assert(whole.skip(before.len() as int + 1) =~= after);
    }
    lemma_position(s, c);
    let k = position(s, c);
    if k < s.len() {
        assert(s[k] == c);
        assert(s.contains(c));
        assert(s =~= s.take(k).push(c) + s.skip(k + 1));
    }
}

/// What stands before and after the first `c`, if there is one.
pub fn split_once(s: &str, c: char) -> (parts: Option<(String, String)>)
    ensures
        match parts {
            Some((before, after)) => split_at_first(s@, c) == Some((before@, after@)),
            None => split_at_first(s@, c) is None,
        },
{
    let chars = chars_of(s);
    assert(chars@.skip(0) =~= chars@);
    let k: usize = find_from(&chars, 0, c);
    if k < chars.len() {
        let before = string_between(&chars, 0, k);
        let after = string_between(&chars, k + 1, chars.len());
        assert(before@ =~= s@.take(k as int));
        assert(after@ =~= s@.skip(k + 1));
        Some((before, after))
    } else {
        None
    }
}

/// The characters with the Unicode property `White_Space`.
pub open spec fn is_white(c: char) -> bool {
    ||| '\u{9}' <= c && c <= '\u{d}'
    ||| c == ' '
    ||| c == '\u{85}'
    ||| c == '\u{a0}'
    ||| c == '\u{1680}'
    ||| '\u{2000}' <= c && c <= '\u{200a}'
    ||| c == '\u{2028}'
    ||| c == '\u{2029}'
    ||| c == '\u{202f}'
    ||| c == '\u{205f}'
    ||| c == '\u{3000}'
}

/// Whether `c` has the Unicode property `White_Space`.
pub fn is_whitespace(c: char) -> (b: bool)
    ensures
        b == is_white(c),
{
    ('\u{9}' <= c && c <= '\u{d}') || c == ' ' || c == '\u{85}' || c == '\u{a0}' || c == '\u{1680}'
        || ('\u{2000}' <= c && c <= '\u{200a}') || c == '\u{2028}' || c == '\u{2029}' || c
        == '\u{202f}' || c == '\u{205f}' || c == '\u{3000}'
}

/// `s` without the white space at its start.
pub open spec fn trimmed_start(s: Seq<char>) -> Seq<char>
    decreases s.len(),
{
    if s.len() > 0 && is_white(s[0]) {
        trimmed_start(s.skip(1))
    } else {
        s
    }
}

/// `s` without the white space at its end.
pub open spec fn trimmed_end(s: Seq<char>) -> Seq<char>
    decreases s.len(),
{
    if s.len() > 0 && is_white(s.last()) {
        trimmed_end(s.drop_last())
    } else {
        s
    }
}

/// `s` without the white space at its two ends.
pub open spec fn trimmed(s: Seq<char>) -> Seq<char> {
    trimmed_end(trimmed_start(s))
}

/// `s` without the white space at its two ends.
pub fn trim(s: &str) -> (t: String)
    ensures
        t@ == trimmed(s@),
{
    let chars = chars_of(s);
    let mut from: usize = 0;
    assert(chars@.skip(0) =~= chars@);
    while from < chars.len() && is_whitespace(chars[from])
        invariant
            from <= chars@.len(),
            trimmed_start(chars@.skip(from as int)) == trimmed_start(chars@),
        decreases chars@.len() - from,
    {
        assert(chars@.skip(from as int).skip(1) =~= chars@.skip(from + 1));
        from += 1;
    }
    let ghost rest = chars@.skip(from as int);
    let mut to: usize = chars.len();
    assert(chars@.subrange(from as int, to as int) =~= rest);
    while from < to && is_whitespace(chars[to - 1])
        invariant
            from <= to <= chars@.len(),
            trimmed_end(chars@.subrange(from as int, to as int)) == trimmed_end(rest),
        decreases to - from,
    {
        assert(chars@.subrange(from as int, to as int).drop_last() =~= chars@.subrange(
            from as int,
            to - 1,
        ));
        to -= 1;
    }
    string_between(&chars, from, to)
}

/// Exactly these characters are white space: the tab, the line feed and the three characters after
/// it, the blank, and seventeen characters beyond ASCII.
pub proof fn law_white_space(c: char)
    ensures
        is_white(c) <==> {
            let n = c as u32;
            9 <= n <= 13 || n == 32 || n == 0x85 || n == 0xa0 || n == 0x1680 || 0x2000 <= n
                <= 0x200a || n == 0x2028 || n == 0x2029 || n == 0x202f || n == 0x205f || n == 0x3000
        },
{
}

/// Trimming takes away the white space at the two ends and nothing else: what is left of a text
/// that does not begin or end in white space, with white space put around it, is that text.
pub proof fn law_trimming_takes_white_space_only(left: Seq<char>, s: Seq<char>, right: Seq<char>)
    requires
        forall|i: int| 0 <= i < left.len() ==> is_white(#[trigger] left[i]),
        forall|i: int| 0 <= i < right.len() ==> is_white(#[trigger] right[i]),
        s.len() > 0 ==> !is_white(s[0]) && !is_white(s[s.len() - 1]),
    ensures
        trimmed(left + s + right) == s,
    decreases left.len(), right.len(),
{
    let whole = left + s + right;
    if left.len() > 0 {
        assert(is_white(left[0]));
        let rest = left.skip(1);
        assert forall|i: int| 0 <= i < rest.len() implies is_white(#[trigger] rest[i]) by {
            assert(is_white(left[i + 1]));
        }
        law_trimming_takes_white_space_only(rest, s, right);
        assert(whole.skip(1) =~= rest + s + right);
    } else if s.len() == 0 {
        lemma_white_text_is_trimmed_away(right);
        assert(whole =~= right);
    } else {
        assert(trimmed_start(whole) == whole);
        if right.len() > 0 {
            let rest = right.drop_last();
            assert(is_white(right[right.len() - 1]));
            assert forall|i: int| 0 <= i < rest.len() implies is_white(#[trigger] rest[i]) by {
                assert(is_white(right[i]));
            }
            law_trimming_takes_white_space_only(left, s, rest);
            assert(whole.drop_last() =~= left + s + rest);
            assert(trimmed_start(left + s + rest) == left + s + rest);
        } else {
            assert(whole =~= s);
        }
    }
}

proof fn lemma_white_text_is_trimmed_away(s: Seq<char>)
    requires
        forall|i: int| 0 <= i < s.len() ==> is_white(#[trigger] s[i]),
    ensures
        trimmed_start(s).len() == 0,
        trimmed(s) == Seq::<char>::empty(),
    decreases s.len(),
{
    if s.len() > 0 {
        assert(is_white(s[0]));
        let rest = s.skip(1);
        assert forall|i: int| 0 <= i < rest.len() implies is_white(#[trigger] rest[i]) by {
            assert(is_white(s[i + 1]));
        }
        lemma_white_text_is_trimmed_away(rest);
    }
}

/// `s` without a carriage return at its end.
pub open spec fn without_cr(s: Seq<char>) -> Seq<char> {
    if s.len() > 0 && s.last() == '\r' {
        s.drop_last()
    } else {
        s
    }
}

/// The lines of `s`: each ends at a line feed, or at a carriage return and a line feed, which are
/// not part of it. The last one may lack its line feed.
pub open spec fn lines_of(s: Seq<char>) -> Seq<Seq<char>>
    decreases s.len(),
    via lines_of_decreases
{
    if s.len() == 0 {
        seq![]
    } else if position(s, '\n') < s.len() {
        seq![without_cr(s.take(position(s, '\n')))] + lines_of(s.skip(position(s, '\n') + 1))
    } else {
        seq![s]
    }
}

#[via_fn]
proof fn lines_of_decreases(s: Seq<char>) {
    lemma_position(s, '\n');
}

/// The lines of `s`.
pub fn lines(s: &str) -> (list: Vec<String>)
    ensures
        views(list@) == lines_of(s@),
{
    let chars = chars_of(s);
    let mut list: Vec<String> = Vec::new();
    let mut from: usize = 0;
    assert(chars@.skip(0) =~= chars@);
    assert(views(list@) + lines_of(chars@) =~= lines_of(chars@));
    while from < chars.len()
        invariant
            from <= chars@.len(),
            views(list@) + lines_of(chars@.skip(from as int)) == lines_of(chars@),
        decreases chars@.len() - from,
    {
        let ghost rest = chars@.skip(from as int);
        let ghost before = views(list@);
        proof {
            lemma_position(rest, '\n');
        }
        let k: usize = find_from(&chars, from, '\n');
        if k < chars.len() {
            let to: usize = if k > from && chars[k - 1] == '\r' {
                k - 1
            } else {
                k
            };
            let line = string_between(&chars, from, to);
            assert(line@ =~= without_cr(rest.take(k - from)));
            assert(rest.skip(k - from + 1) =~= chars@.skip(k + 1));
            list.push(line);
            assert(views(list@) =~= before.push(line@));
            assert(views(list@) + lines_of(chars@.skip(k + 1)) =~= before + (seq![line@]
                + lines_of(chars@.skip(k + 1))));
            from = k + 1;
        } else {
            let line = string_between(&chars, from, k);
            assert(line@ =~= rest);
            list.push(line);
            from = k;
            assert(views(list@) =~= before.push(line@));
            assert(views(list@) + lines_of(chars@.skip(from as int)) =~= before + seq![line@]);
        }
    }
    assert(views(list@) + lines_of(chars@.skip(from as int)) =~= views(list@));
    list
}

/// A line ends at a line feed, and what stands after it are further lines; a carriage return before
/// the line feed is not part of the line, any other is. A last line without a line feed is a line
/// where it holds anything at all.
pub proof fn law_lines_end_at_line_feeds(line: Seq<char>, rest: Seq<char>)
    requires
        !line.contains('\n'),
    ensures
        line.len() == 0 || line.last() != '\r' ==> lines_of(line.push('\n') + rest) == seq![line]
            + lines_of(rest),
        lines_of(line.push('\r').push('\n') + rest) == seq![line] + lines_of(rest),
        line.len() > 0 ==> lines_of(line) == seq![line],
        lines_of(seq![]) == Seq::<Seq<char>>::empty(),
{
    let ended = line.push('\n') + rest;
    law_cut_at_the_first(ended, line, '\n', rest);
    assert(ended.take(line.len() as int) =~= line);
    assert(ended.skip(line.len() as int + 1) =~= rest);
    let returned = line.push('\r');
    assert forall|i: int| 0 <= i < returned.len() implies returned[i] != '\n' by {
        if i < line.len() {
            assert(line.contains(line[i]));
        }
    }
    let other = returned.push('\n') + rest;
    law_cut_at_the_first(other, returned, '\n', rest);
    assert(other.take(returned.len() as int) =~= returned);
    assert(other.skip(returned.len() as int + 1) =~= rest);
    assert(returned.drop_last() =~= line);
    law_cut_at_the_first(line, line, '\n', rest);
    lemma_position(line, '\n');
}

/// A line at the end of a text that is made of whole lines is its last line, and the lines before
/// it are those that it had.
pub proof fn law_a_line_at_the_end_is_the_last(s: Seq<char>, line: Seq<char>)
    requires
        s.len() == 0 || s.last() == '\n',
        !line.contains('\n'),
        line.len() == 0 || line.last() != '\r',
    ensures
        lines_of(s + line.push('\n')) == lines_of(s).push(line),
    decreases s.len(),
{
    let none = Seq::<char>::empty();
    let whole = s + line.push('\n');
    law_lines_end_at_line_feeds(line, none);
    assert(line.push('\n') + none =~= line.push('\n'));
    if s.len() == 0 {
        assert(whole =~= line.push('\n'));
        assert(lines_of(whole) =~= lines_of(s).push(line));
    } else {
        lemma_position(s, '\n');
        let k = position(s, '\n');
        assert(k < s.len()) by {
            if k == s.len() {
                assert(s[s.len() - 1] != '\n');
            }
        }
        let rest = s.skip(k + 1);
        lemma_position_is(whole, '\n', k);
        assert(whole.take(k) =~= s.take(k));
        assert(whole.skip(k + 1) =~= rest + line.push('\n'));
        law_a_line_at_the_end_is_the_last(rest, line);
        assert(lines_of(whole) =~= lines_of(s).push(line));
    }
}

/// The pieces of `s` between the separators `c`; a text without a separator is one piece.
pub open spec fn pieces(s: Seq<char>, c: char) -> Seq<Seq<char>>
    decreases s.len(),
    via pieces_decreases
{
    if position(s, c) < s.len() {
        seq![s.take(position(s, c))] + pieces(s.skip(position(s, c) + 1), c)
    } else {
        seq![s]
    }
}

#[via_fn]
proof fn pieces_decreases(s: Seq<char>, c: char) {
    lemma_position(s, c);
}

/// The pieces of `s` between the separators `c`.
pub fn split(s: &str, c: char) -> (list: Vec<String>)
    ensures
        views(list@) == pieces(s@, c),
{
    let chars = chars_of(s);
    let mut list: Vec<String> = Vec::new();
    let mut from: usize = 0;
    assert(chars@.skip(0) =~= chars@);
    assert(views(list@) + pieces(chars@, c) =~= pieces(chars@, c));
    loop
        invariant
            from <= chars@.len(),
            chars@ == s@,
            views(list@) + pieces(chars@.skip(from as int), c) == pieces(s@, c),
        decreases chars@.len() - from,
    {
        let ghost rest = chars@.skip(from as int);
        let ghost before = views(list@);
        let k: usize = find_from(&chars, from, c);
        let piece = string_between(&chars, from, k);
        assert(piece@ =~= rest.take(k - from));
        list.push(piece);
        assert(views(list@) =~= before.push(piece@));
        if k == chars.len() {
            assert(piece@ =~= rest);
            assert(views(list@) =~= before + seq![rest]);
            return list;
        }
        assert(rest.skip(k - from + 1) =~= chars@.skip(k + 1));
        assert(views(list@) + pieces(chars@.skip(k + 1), c) =~= before + (seq![piece@] + pieces(
            chars@.skip(k + 1),
            c,
        )));
        from = k + 1;
    }
}

/// The texts of `list` with the separator `c` between each two.
pub open spec fn joined_by(list: Seq<Seq<char>>, c: char) -> Seq<char>
    decreases list.len(),
{
    if list.len() == 0 {
        seq![]
    } else if list.len() == 1 {
        list[0]
    } else {
        list[0].push(c) + joined_by(list.skip(1), c)
    }
}

/// The texts of `list` with the separator `c` between each two.
pub fn join(list: &Vec<String>, c: char) -> (s: String)
    ensures
        s@ == joined_by(views(list@), c),
{
    let ghost v = views(list@);
    if list.len() == 0 {
        return String::new();
    }
    let mut i: usize = list.len() - 1;
    let mut s = list[i].clone();
    assert(v.skip(i as int) =~= seq![v[i as int]]);
    while i > 0
        invariant
            i < list@.len(),
            v == views(list@),
            s@ == joined_by(v.skip(i as int), c),
        decreases i,
    {
        i -= 1;
        let mut front = list[i].clone();
        front.push(c);
        front.append(s.as_str());
        assert(v.skip(i as int).skip(1) =~= v.skip(i + 1));
        s = front;
    }
    assert(v.skip(0) =~= v);
    s
}

/// Joining brings in no character but the separator.
pub proof fn lemma_joined_lacks(list: Seq<Seq<char>>, c: char, x: char)
    requires
        x != c,
        forall|i: int| 0 <= i < list.len() ==> !(#[trigger] list[i]).contains(x),
    ensures
        !joined_by(list, c).contains(x),
    decreases list.len(),
{
    let s = joined_by(list, c);
    if list.len() > 1 {
        let rest = list.skip(1);
        assert forall|i: int| 0 <= i < rest.len() implies !(#[trigger] rest[i]).contains(x) by {
            assert(rest[i] == list[i + 1]);
        }
        lemma_joined_lacks(rest, c, x);
        assert forall|i: int| 0 <= i < s.len() implies s[i] != x by {
            if i < list[0].len() {
                assert(list[0].contains(s[i]));
            } else if i > list[0].len() {
                assert(s[i] == joined_by(rest, c)[i - list[0].len() - 1]);
                assert(joined_by(rest, c).contains(s[i]));
            }
        }
    }
}

/// Cutting at a separator undoes joining with it, when no text of the list holds it.
pub proof fn law_split_undoes_join(list: Seq<Seq<char>>, c: char)
    requires
        list.len() > 0,
        forall|i: int| 0 <= i < list.len() ==> !(#[trigger] list[i]).contains(c),
    ensures
        pieces(joined_by(list, c), c) == list,
    decreases list.len(),
{
    let s = joined_by(list, c);
    let first = list[0];
    assert forall|i: int| 0 <= i < first.len() implies first[i] != c by {
        assert(first.contains(first[i]));
    }
    lemma_position_is(s, c, first.len() as int);
    if list.len() == 1 {
        assert(list =~= seq![first]);
    } else {
        let rest = list.skip(1);
        assert forall|i: int| 0 <= i < rest.len() implies !(#[trigger] rest[i]).contains(c) by {
            assert(rest[i] == list[i + 1]);
        }
        law_split_undoes_join(rest, c);
        assert(s.take(first.len() as int) =~= first);
        assert(s.skip(first.len() as int + 1) =~= joined_by(rest, c));
        assert(seq![first] + rest =~= list);
    }
}

/// Joining the pieces of a text gives back the text, and no piece holds the separator.
pub proof fn law_join_undoes_split(s: Seq<char>, c: char)
    ensures
        joined_by(pieces(s, c), c) == s,
        pieces(s, c).len() > 0,
        forall|i: int| 0 <= i < pieces(s, c).len() ==> !(#[trigger] pieces(s, c)[i]).contains(c),
    decreases s.len(),
{
    let all = pieces(s, c);
    lemma_position(s, c);
    let k = position(s, c);
    if k < s.len() {
        let rest = pieces(s.skip(k + 1), c);
        law_join_undoes_split(s.skip(k + 1), c);
        assert(all.skip(1) =~= rest);
        assert(s =~= s.take(k).push(c) + s.skip(k + 1));
        assert forall|i: int| 0 <= i < all.len() implies !(#[trigger] all[i]).contains(c) by {
            if i > 0 {
                assert(all[i] == rest[i - 1]);
            }
        }
    }
}

/// Joining two lists one after the other puts one separator between them; one text is joined to
/// itself, and no text to nothing.
pub proof fn law_joining_a_list_in_two_parts(
    a: Seq<Seq<char>>,
    b: Seq<Seq<char>>,
    one: Seq<char>,
    c: char,
    sep: Seq<char>,
)
    ensures
        a.len() > 0 && b.len() > 0 ==> joined_by(a + b, c) == joined_by(a, c).push(c) + joined_by(
            b,
            c,
        ),
        a.len() > 0 && b.len() > 0 ==> joined_with(a + b, sep) == joined_with(a, sep) + sep
            + joined_with(b, sep),
        joined_by(seq![one], c) == one,
        joined_with(seq![one], sep) == one,
        joined_by(seq![], c) == Seq::<char>::empty(),
        joined_with(seq![], sep) == Seq::<char>::empty(),
{
    if a.len() > 0 && b.len() > 0 {
        lemma_joined_by_in_two_parts(a, b, c);
        lemma_joined_with_in_two_parts(a, b, sep);
    }
}

proof fn lemma_joined_by_in_two_parts(a: Seq<Seq<char>>, b: Seq<Seq<char>>, c: char)
    requires
        a.len() > 0,
        b.len() > 0,
    ensures
        joined_by(a + b, c) == joined_by(a, c).push(c) + joined_by(b, c),
    decreases a.len(),
{
    let whole = a + b;
    if a.len() == 1 {
        assert(whole.skip(1) =~= b);
    } else {
        let rest = a.skip(1);
        lemma_joined_by_in_two_parts(rest, b, c);
        assert(whole.skip(1) =~= rest + b);
        assert(joined_by(whole, c) =~= joined_by(a, c).push(c) + joined_by(b, c));
    }
}

proof fn lemma_joined_with_in_two_parts(a: Seq<Seq<char>>, b: Seq<Seq<char>>, sep: Seq<char>)
    requires
        a.len() > 0,
        b.len() > 0,
    ensures
        joined_with(a + b, sep) == joined_with(a, sep) + sep + joined_with(b, sep),
    decreases b.len(),
{
    let whole = a + b;
    if b.len() == 1 {
        assert(whole.drop_last() =~= a);
    } else {
        let front = b.drop_last();
        lemma_joined_with_in_two_parts(a, front, sep);
        assert(whole.drop_last() =~= a + front);
        assert(joined_with(whole, sep) =~= joined_with(a, sep) + sep + joined_with(b, sep));
    }
}

/// How many characters stand before the first white space.
pub open spec fn word_len(s: Seq<char>) -> int
    decreases s.len(),
{
    if s.len() == 0 || is_white(s[0]) {
        0
    } else {
        1 + word_len(s.skip(1))
    }
}

/// The words of `s`: the longest runs without white space.
pub open spec fn words_of(s: Seq<char>) -> Seq<Seq<char>>
    decreases s.len(),
    via words_of_decreases
{
    let t = trimmed_start(s);
    if t.len() == 0 {
        seq![]
    } else {
        seq![t.take(word_len(t))] + words_of(t.skip(word_len(t)))
    }
}

proof fn lemma_word_len(s: Seq<char>)
    ensures
        0 <= word_len(s) <= s.len(),
        s.len() > 0 && !is_white(s[0]) ==> word_len(s) > 0,
    decreases s.len(),
{
    if s.len() > 0 && !is_white(s[0]) {
        lemma_word_len(s.skip(1));
    }
}

proof fn lemma_trimmed_start(s: Seq<char>)
    ensures
        trimmed_start(s).len() <= s.len(),
        trimmed_start(s).len() > 0 ==> !is_white(trimmed_start(s)[0]),
    decreases s.len(),
{
    if s.len() > 0 && is_white(s[0]) {
        lemma_trimmed_start(s.skip(1));
    }
}

#[via_fn]
proof fn words_of_decreases(s: Seq<char>) {
    lemma_trimmed_start(s);
    lemma_word_len(trimmed_start(s));
}

/// The words of `s`.
pub fn split_whitespace(s: &str) -> (list: Vec<String>)
    ensures
        views(list@) == words_of(s@),
{
    let chars = chars_of(s);
    let mut list: Vec<String> = Vec::new();
    let mut from: usize = 0;
    assert(chars@.skip(0) =~= chars@);
    assert(views(list@) + words_of(chars@) =~= words_of(chars@));
    loop
        invariant
            from <= chars@.len(),
            chars@ == s@,
            views(list@) + words_of(chars@.skip(from as int)) == words_of(s@),
        decreases chars@.len() - from,
    {
        let ghost rest = chars@.skip(from as int);
        let ghost before = views(list@);
        let mut start: usize = from;
        while start < chars.len() && is_whitespace(chars[start])
            invariant
                from <= start <= chars@.len(),
                trimmed_start(chars@.skip(start as int)) == trimmed_start(rest),
            decreases chars@.len() - start,
        {
            assert(chars@.skip(start as int).skip(1) =~= chars@.skip(start + 1));
            start += 1;
        }
        let ghost t = chars@.skip(start as int);
        assert(trimmed_start(rest) == t);
        if start == chars.len() {
            assert(t.len() == 0);
            assert(views(list@) + words_of(rest) =~= views(list@));
            return list;
        }
        let mut end: usize = start;
        while end < chars.len() && !is_whitespace(chars[end])
            invariant
                start <= end <= chars@.len(),
                t == chars@.skip(start as int),
                word_len(t) == end - start + word_len(chars@.skip(end as int)),
            decreases chars@.len() - end,
        {
            assert(chars@.skip(end as int).skip(1) =~= chars@.skip(end + 1));
            end += 1;
        }
        proof {
            lemma_word_len(t);
        }
        let word = string_between(&chars, start, end);
        assert(word@ =~= t.take(word_len(t)));
        assert(t.skip(word_len(t)) =~= chars@.skip(end as int));
        list.push(word);
        assert(views(list@) =~= before.push(word@));
        assert(views(list@) + words_of(chars@.skip(end as int)) =~= before + (seq![word@]
            + words_of(chars@.skip(end as int))));
        from = end;
    }
}

/// A word is what stands between white space: with white space before it, and after it white space
/// or nothing, it comes first, and the words of what follows come after it. White space alone holds
/// no word.
pub proof fn law_words_stand_between_white_space(
    left: Seq<char>,
    word: Seq<char>,
    rest: Seq<char>,
)
    requires
        forall|i: int| 0 <= i < left.len() ==> is_white(#[trigger] left[i]),
        forall|i: int| 0 <= i < word.len() ==> !is_white(#[trigger] word[i]),
        rest.len() > 0 ==> is_white(rest[0]),
    ensures
        word.len() > 0 ==> words_of(left + word + rest) == seq![word] + words_of(rest),
        words_of(left) == Seq::<Seq<char>>::empty(),
{
    lemma_white_text_is_trimmed_away(left);
    if word.len() > 0 {
        let t = word + rest;
        assert(!is_white(word[0]));
        lemma_trimmed_start_of(left, t);
        assert(left + word + rest =~= left + t);
        lemma_word_len_is(word, rest);
        assert(t.take(word.len() as int) =~= word);
        assert(t.skip(word.len() as int) =~= rest);
    }
}

proof fn lemma_trimmed_start_of(left: Seq<char>, t: Seq<char>)
    requires
        forall|i: int| 0 <= i < left.len() ==> is_white(#[trigger] left[i]),
        t.len() > 0 ==> !is_white(t[0]),
    ensures
        trimmed_start(left + t) == t,
    decreases left.len(),
{
    if left.len() == 0 {
        assert(left + t =~= t);
    } else {
        assert(is_white(left[0]));
        let rest = left.skip(1);
        assert forall|i: int| 0 <= i < rest.len() implies is_white(#[trigger] rest[i]) by {
            assert(is_white(left[i + 1]));
        }
        lemma_trimmed_start_of(rest, t);
        assert((left + t).skip(1) =~= rest + t);
    }
}

proof fn lemma_word_len_is(word: Seq<char>, rest: Seq<char>)
    requires
        forall|i: int| 0 <= i < word.len() ==> !is_white(#[trigger] word[i]),
        rest.len() > 0 ==> is_white(rest[0]),
    ensures
        word_len(word + rest) == word.len(),
    decreases word.len(),
{
    if word.len() == 0 {
        assert(word + rest =~= rest);
    } else {
        assert(!is_white(word[0]));
        let tail = word.skip(1);
        assert forall|i: int| 0 <= i < tail.len() implies !is_white(#[trigger] tail[i]) by {
            assert(!is_white(word[i + 1]));
        }
        lemma_word_len_is(tail, rest);
        assert((word + rest).skip(1) =~= tail + rest);
    }
}

/// The texts of `list` with the separator `sep` between each two.
pub open spec fn joined_with(list: Seq<Seq<char>>, sep: Seq<char>) -> Seq<char>
    decreases list.len(),
{
    if list.len() == 0 {
        seq![]
    } else if list.len() == 1 {
        list[0]
    } else {
        joined_with(list.drop_last(), sep) + sep + list.last()
    }
}

/// The texts of `list` with the separator `sep` between each two.
pub fn join_with(list: &Vec<String>, sep: &str) -> (s: String)
    ensures
        s@ == joined_with(views(list@), sep@),
{
    let ghost v = views(list@);
    if list.len() == 0 {
        return String::new();
    }
    let mut s = list[0].clone();
    let mut i: usize = 1;
    assert(v.take(1) =~= seq![v[0]]);
    while i < list.len()
        invariant
            1 <= i <= list@.len(),
            v == views(list@),
            s@ == joined_with(v.take(i as int), sep@),
        decreases list@.len() - i,
    {
        s.append(sep);
        s.append(list[i].as_str());
        assert(v.take(i + 1).drop_last() =~= v.take(i as int));
        i += 1;
    }
    assert(v.take(i as int) =~= v);
    s
}

/// This many blanks.
pub open spec fn blanks(n: nat) -> Seq<char> {
    Seq::new(n, |i: int| ' ')
}

/// `s` followed by as many blanks as it lacks to `width` characters.
pub open spec fn padded(s: Seq<char>, width: nat) -> Seq<char> {
    if s.len() < width {
        s + blanks((width - s.len()) as nat)
    } else {
        s
    }
}

/// A padded text is the text, then nothing but blanks, up to the width; a text that is wider is
/// left as it is.
pub proof fn law_padding_fills_the_width(s: Seq<char>, width: nat, i: int)
    ensures
        padded(s, width).len() == (if s.len() < width {
            width
        } else {
            s.len()
        }),
        padded(s, width).take(s.len() as int) == s,
        s.len() <= i < padded(s, width).len() ==> padded(s, width)[i] == ' ',
{
    assert(padded(s, width).take(s.len() as int) =~= s);
}

/// `s` followed by as many blanks as it lacks to `width` characters.
pub fn pad(s: &str, width: usize) -> (t: String)
    ensures
        t@ == padded(s@, width as nat),
{
    let len: usize = s.unicode_len();
    let mut t = s.to_string();
    let mut i: usize = len;
    assert(s@ + blanks(0) =~= s@);
    while i < width
        invariant
            len == s@.len(),
            len <= i,
            i <= width || i == len,
            t@ == s@ + blanks((i - len) as nat),
        decreases width - i,
    {
        t.push(' ');
        assert(t@ =~= s@ + blanks((i + 1 - len) as nat));
        i += 1;
    }
    t
}

// ---------------------------------------------------------------------------------------------
// rewriting a text
// ---------------------------------------------------------------------------------------------

/// `c` in lower case where it is an ASCII letter, else `c`.
pub open spec fn lower_char(c: char) -> char {
    if 'A' <= c && c <= 'Z' {
        (c as int + 32) as char
    } else {
        c
    }
}

/// `s` with its ASCII letters in lower case.
pub open spec fn lowered(s: Seq<char>) -> Seq<char> {
    s.map_values(|c: char| lower_char(c))
}

/// Lowering turns the letters `A` to `Z` into `a` to `z`, each into its own, and leaves every other
/// character alone.
pub proof fn law_lowering_touches_capitals_only(s: Seq<char>, i: int, k: int)
    ensures
        lowered(s).len() == s.len(),
        0 <= i < s.len() && 0 <= k < 26 && s[i] == "ABCDEFGHIJKLMNOPQRSTUVWXYZ"@[k] ==> lowered(
            s,
        )[i] == "abcdefghijklmnopqrstuvwxyz"@[k],
        0 <= i < s.len() && !('A' <= s[i] <= 'Z') ==> lowered(s)[i] == s[i],
{
    reveal_strlit("ABCDEFGHIJKLMNOPQRSTUVWXYZ");
    reveal_strlit("abcdefghijklmnopqrstuvwxyz");
}

/// `s` with its ASCII letters in lower case.
pub fn to_ascii_lowercase(s: &str) -> (t: String)
    ensures
        t@ == lowered(s@),
{
    let chars = chars_of(s);
    let mut t = String::new();
    let mut i: usize = 0;
    while i < chars.len()
        invariant
            i <= chars@.len(),
            t@ == lowered(chars@.take(i as int)),
        decreases chars@.len() - i,
    {
        let c = chars[i];
        let lower: char = if 'A' <= c && c <= 'Z' {
            (c as u8 + 32) as char
        } else {
            c
        };
        t.push(lower);
        assert(lowered(chars@.take(i + 1)) =~= lowered(chars@.take(i as int)).push(lower_char(c)));
        i += 1;
    }
    assert(chars@.take(i as int) =~= chars@);
    t
}

// ---------------------------------------------------------------------------------------------
// the order of texts
// ---------------------------------------------------------------------------------------------

/// Whether `a` comes before `b` in the dictionary, or is `b`: the first character in which they
/// differ decides, and a text comes before what it is continued to.
pub open spec fn not_after(a: Seq<char>, b: Seq<char>) -> bool
    decreases a.len(),
{
    if a.len() == 0 {
        true
    } else if b.len() == 0 {
        false
    } else if a[0] == b[0] {
        not_after(a.skip(1), b.skip(1))
    } else {
        a[0] < b[0]
    }
}

pub proof fn lemma_order_is_total(a: Seq<char>, b: Seq<char>)
    ensures
        not_after(a, b) || not_after(b, a),
    decreases a.len(),
{
    if a.len() > 0 && b.len() > 0 && a[0] == b[0] {
        lemma_order_is_total(a.skip(1), b.skip(1));
    }
}

pub proof fn lemma_order_is_transitive(a: Seq<char>, b: Seq<char>, c: Seq<char>)
    requires
        not_after(a, b),
        not_after(b, c),
    ensures
        not_after(a, c),
    decreases a.len(),
{
    if a.len() > 0 && b.len() > 0 && c.len() > 0 && a[0] == b[0] && b[0] == c[0] {
        lemma_order_is_transitive(a.skip(1), b.skip(1), c.skip(1));
    }
}

/// The first character in which two texts differ decides which comes first, and a text comes before
/// every longer one that begins with it; no two different texts each come before the other.
pub proof fn law_first_difference_decides(
    common: Seq<char>,
    x: char,
    y: char,
    u: Seq<char>,
    v: Seq<char>,
)
    ensures
        x < y ==> not_after(common.push(x) + u, common.push(y) + v) && !not_after(
            common.push(y) + v,
            common.push(x) + u,
        ),
        not_after(common, common + u),
        u.len() > 0 ==> !not_after(common + u, common),
        not_after(u, v) && not_after(v, u) ==> u == v,
    decreases common.len(), u.len(),
{
    let a = common.push(x) + u;
    let b = common.push(y) + v;
    if common.len() > 0 {
        let rest = common.skip(1);
        law_first_difference_decides(rest, x, y, u, v);
        assert(a.skip(1) =~= rest.push(x) + u);
        assert(b.skip(1) =~= rest.push(y) + v);
        assert((common + u).skip(1) =~= rest + u);
        assert(a[0] == common[0] && b[0] == common[0] && (common + u)[0] == common[0]);
    } else {
        assert(a[0] == x && b[0] == y);
        assert(common + u =~= u);
        if u.len() > 0 && v.len() > 0 && u[0] == v[0] {
            law_first_difference_decides(common, x, y, u.skip(1), v.skip(1));
            if not_after(u, v) && not_after(v, u) {
                assert(u =~= seq![u[0]] + u.skip(1));
                assert(v =~= seq![v[0]] + v.skip(1));
            }
        }
    }
}

/// Whether `a` comes before `b` in the dictionary, or is `b`.
pub fn is_not_after(a: &str, b: &str) -> (r: bool)
    ensures
        r == not_after(a@, b@),
{
    let x = chars_of(a);
    let y = chars_of(b);
    let mut i: usize = 0;
    assert(x@.skip(0) =~= x@);
    assert(y@.skip(0) =~= y@);
    while i < x.len() && i < y.len()
        invariant
            i <= x@.len(),
            i <= y@.len(),
            x@ == a@,
            y@ == b@,
            not_after(a@, b@) == not_after(x@.skip(i as int), y@.skip(i as int)),
        decreases x@.len() - i,
    {
        assert(x@.skip(i as int)[0] == x@[i as int]);
        assert(y@.skip(i as int)[0] == y@[i as int]);
        if x[i] != y[i] {
            return x[i] < y[i];
        }
        assert(x@.skip(i as int).skip(1) =~= x@.skip(i + 1));
        assert(y@.skip(i as int).skip(1) =~= y@.skip(i + 1));
        i += 1;
    }
    i == x.len()
}

/// A number is read back from its decimal text, and a text that is read as a number below a limit
/// is that number's.
pub proof fn law_written_numbers_are_read(
    n: u32,
    m: u64,
    written: String,
    text: &str,
    read: Option<u32>,
    limited: Option<u64>,
    max: u64,
)
    requires
        call_ensures(decimal, (m,), written),
        call_ensures(parse_u32, (text,), read),
        call_ensures(parse_number, (text, max), limited),
    ensures
        m == n && text@ == written@ ==> read == Some(n),
        m <= max && text@ == written@ ==> limited == Some(m),
        read matches Some(k) ==> number_of(text@) == Some(k as nat),
        limited matches Some(k) ==> number_of(text@) == Some(k as nat) && k <= max,
{
    law_decimal_reads_back(m as nat);
}

/// Splitting a text and joining the pieces gives the text back; its parts around the first
/// separator make it up.
pub proof fn law_split_text_is_joined_again(
    s: &str,
    c: char,
    list: Vec<String>,
    joined: String,
    parts: Option<(String, String)>,
)
    requires
        call_ensures(split, (s, c), list),
        call_ensures(join, (&list, c), joined),
        call_ensures(split_once, (s, c), parts),
    ensures
        joined@ == s@,
        parts is Some <==> s@.contains(c),
        parts matches Some((before, after)) ==> s@ == before@.push(c) + after@
            && !before@.contains(c),
{
    law_join_undoes_split(s@, c);
    law_cut_at_the_first(s@, s@, c, s@);
}

/// A list of texts is seen text by text, each in its place; a text that may be missing is seen
/// exactly where it is there.
pub proof fn law_texts_are_seen_one_by_one(list: Seq<String>, i: int, one: Option<String>)
    ensures
        views(list).len() == list.len(),
        0 <= i < list.len() ==> views(list)[i] == list[i]@,
        optional_view(one) is Some <==> one is Some,
        one matches Some(s) ==> optional_view(one) == Some(s@),
{
}

} // verus!
