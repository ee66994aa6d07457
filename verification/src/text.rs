//! Text as a sequence of characters: whitespace, tokens and decimal numbers.

use vstd::prelude::*;
use crate::errors::IntParseFailure;

verus! {

/// The characters that separate tokens: those with the Unicode property
/// `White_Space`.
pub open spec fn is_whitespace_char(c: char) -> bool {
    let n = c as u32;
    ||| 0x09 <= n <= 0x0D
    ||| n == 0x20
    ||| n == 0x85
    ||| n == 0xA0
    ||| n == 0x1680
    ||| 0x2000 <= n <= 0x200A
    ||| n == 0x2028
    ||| n == 0x2029
    ||| n == 0x202F
    ||| n == 0x205F
    ||| n == 0x3000
}

/// Whether `c` separates tokens.
pub fn is_whitespace(c: char) -> (b: bool)
    ensures
        b == is_whitespace_char(c),
{
    let n = c as u32;
    (0x09 <= n && n <= 0x0D) || n == 0x20 || n == 0x85 || n == 0xA0 || n == 0x1680 || (0x2000 <= n && n
        <= 0x200A) || n == 0x2028 || n == 0x2029 || n == 0x202F || n == 0x205F || n == 0x3000
}

/// The characters of `s`.
pub fn chars_of(s: &str) -> (chars: Vec<char>)
    ensures
        chars@ == s@,
{
    let mut chars: Vec<char> = Vec::new();
    for c in it: s.chars()
        invariant
            it.seq() == s@,
            chars@ == it.seq().take(it.index()),
    {
        chars.push(c);
    }
    chars
}

/// `String::push`: appends one character to a string.
#[verifier::external_body]
fn push_char(s: &mut String, c: char)
    ensures
        final(s)@ == old(s)@.push(c),
{
    s.push(c)
}

/// The string that holds `chars`.
pub fn string_of(chars: &Vec<char>) -> (s: String)
    ensures
        s@ == chars@,
{
    let mut s = String::new();
    let mut i: usize = 0;
    while i < chars.len()
        invariant
            i <= chars.len(),
            s@ == chars@.take(i as int),
        decreases chars.len() - i,
    {
        push_char(&mut s, chars[i]);
        i += 1;
    }
    s
}


/// Every character of `s` is whitespace.
pub open spec fn all_whitespace(s: Seq<char>) -> bool {
    forall|i: int| 0 <= i < s.len() ==> is_whitespace_char(#[trigger] s[i])
}

/// Whether `chars` holds nothing but whitespace.
pub fn is_all_whitespace(chars: &Vec<char>) -> (b: bool)
    ensures
        b == all_whitespace(chars@),
{
    let mut i: usize = 0;
    while i < chars.len()
        invariant
            i <= chars.len(),
            forall|k: int| 0 <= k < i ==> is_whitespace_char(#[trigger] chars@[k]),
        decreases chars.len() - i,
    {
        if !is_whitespace(chars[i]) {
            return false;
        }
        i += 1;
    }
    true
}

/// Whether `c` occurs in `chars`.
pub fn contains_char(chars: &Vec<char>, c: char) -> (b: bool)
    ensures
        b == chars@.contains(c),
{
    let mut i: usize = 0;
    while i < chars.len()
        invariant
            i <= chars.len(),
            forall|k: int| 0 <= k < i ==> chars@[k] != c,
        decreases chars.len() - i,
    {
        if chars[i] == c {
            return true;
        }
        i += 1;
    }
    false
}

/// `s` without the whitespace at its start.
pub open spec fn trim_start(s: Seq<char>) -> Seq<char>
    decreases s.len(),
{
    if s.len() > 0 && is_whitespace_char(s[0]) {
        trim_start(s.drop_first())
    } else {
        s
    }
}

/// `s` without the whitespace at its end.
pub open spec fn trim_end(s: Seq<char>) -> Seq<char>
    decreases s.len(),
{
    if s.len() > 0 && is_whitespace_char(s.last()) {
        trim_end(s.drop_last())
    } else {
        s
    }
}

/// `s` without the whitespace at its start and at its end.
pub open spec fn trimmed(s: Seq<char>) -> Seq<char> {
    trim_end(trim_start(s))
}

/// `chars` without the whitespace at its start and at its end.
pub fn trim(chars: &Vec<char>) -> (r: Vec<char>)
    ensures
        r@ == trimmed(chars@),
{
    let mut start: usize = 0;
    assert(chars@.subrange(0, chars@.len() as int) == chars@);
    while start < chars.len() && is_whitespace(chars[start])
        invariant
            start <= chars.len(),
            trim_start(chars@) == trim_start(chars@.subrange(start as int, chars@.len() as int)),
        decreases chars.len() - start,
    {
        proof {
            let rest = chars@.subrange(start as int, chars@.len() as int);
            assert(rest.drop_first() == chars@.subrange(start + 1, chars@.len() as int));
        }
        start += 1;
    }
    let mut end: usize = chars.len();
    proof {
        let rest = chars@.subrange(start as int, chars@.len() as int);
        assert(trim_start(rest) == rest);
    }
    while end > start && is_whitespace(chars[end - 1])
        invariant
            start <= end <= chars.len(),
            trimmed(chars@) == trim_end(chars@.subrange(start as int, end as int)),
        decreases end - start,
    {
        proof {
            let rest = chars@.subrange(start as int, end as int);
            assert(rest.drop_last() == chars@.subrange(start as int, end - 1));
        }
        end -= 1;
    }
    let mut r: Vec<char> = Vec::new();
    let mut i: usize = start;
    while i < end
        invariant
            start <= i <= end <= chars.len(),
            r@ == chars@.subrange(start as int, i as int),
        decreases end - i,
    {
        r.push(chars[i]);
        i += 1;
    }
    proof {
        let rest = chars@.subrange(start as int, end as int);
        assert(trim_end(rest) == rest);
    }
    r
}

/// The tokens of `s`: its longest runs of characters that are no
/// whitespace, in their order.
pub open spec fn tokens(s: Seq<char>) -> Seq<Seq<char>>
    decreases s.len(),
{
    if s.len() == 0 {
        Seq::empty()
    } else {
        let before = tokens(s.drop_last());
        if is_whitespace_char(s.last()) {
            before
        } else if s.len() >= 2 && !is_whitespace_char(s[s.len() - 2]) && before.len() > 0 {
            before.drop_last().push(before.last().push(s.last()))
        } else {
            before.push(seq![s.last()])
        }
    }
}

/// What each of `lists` holds.
pub open spec fn views_of(lists: Seq<Vec<char>>) -> Seq<Seq<char>> {
    Seq::new(lists.len(), |i: int| lists[i]@)
}

/// The tokens of `chars`.
pub fn split_whitespace(chars: &Vec<char>) -> (r: Vec<Vec<char>>)
    ensures
        views_of(r@) == tokens(chars@),
{
    let mut r: Vec<Vec<char>> = Vec::new();
    let mut current: Vec<char> = Vec::new();
    let mut i: usize = 0;
    while i < chars.len()
        invariant
            i <= chars.len(),
            current@.len() > 0 <==> i > 0 && !is_whitespace_char(chars@[i - 1]),
            tokens(chars@.take(i as int)) == if current@.len() > 0 {
                views_of(r@).push(current@)
            } else {
                views_of(r@)
            },
        decreases chars.len() - i,
    {
        let c = chars[i];
        proof {
            let next = chars@.take(i + 1);
            assert(next.drop_last() == chars@.take(i as int));
            assert(next.last() == c);
            if i > 0 {
                assert(next[next.len() - 2] == chars@[i - 1]);
            }
        }
        let ghost prefix = chars@.take(i as int);
        let ghost next = chars@.take(i + 1);
        if is_whitespace(c) {
            if current.len() > 0 {
                let ghost before = views_of(r@);
                let ghost token = current@;
                r.push(current);
                current = Vec::new();
                assert(views_of(r@) == before.push(token));
            }
            assert(tokens(next) == tokens(prefix));
        } else {
            let ghost before = current@;
            let ghost done = views_of(r@);
            current.push(c);
            proof {
                if before.len() > 0 {
                    let old_tokens = done.push(before);
                    assert(tokens(prefix) == old_tokens);
                    assert(old_tokens.drop_last() == done);
                    assert(old_tokens.last() == before);
                    assert(tokens(next) == done.push(before.push(c)));
                } else {
                    assert(tokens(prefix) == done);
                    assert(tokens(next) == done.push(seq![c]));
                    assert(current@ == seq![c]);
                }
            }
        }
        i += 1;
    }
    assert(chars@.take(i as int) == chars@);
    if current.len() > 0 {
        let ghost before = views_of(r@);
        let ghost token = current@;
        r.push(current);
        assert(views_of(r@) == before.push(token));
    }
    r
}


/// The value of a decimal digit; `None` for any other character.
pub open spec fn digit_value(c: char) -> Option<int> {
    if '0' <= c <= '9' {
        Some(c as u32 - '0' as u32)
    } else {
        None
    }
}

/// Reading the digits `s` from the left onto the number `acc`, added where
/// `negative` is false and subtracted where it is true. The first character
/// that is no digit ends the reading with `InvalidDigit`; the first digit
/// that takes the number out of `lo ..= hi` ends it with an overflow.
pub open spec fn read_digits(s: Seq<char>, acc: int, negative: bool, lo: int, hi: int) -> Result<
    int,
    IntParseFailure,
>
    decreases s.len(),
{
    if s.len() == 0 {
        Ok(acc)
    } else {
        match digit_value(s[0]) {
            None => Err(IntParseFailure::InvalidDigit),
            Some(d) => {
                let next = if negative {
                    acc * 10 - d
                } else {
                    acc * 10 + d
                };
                if next > hi {
                    Err(IntParseFailure::PosOverflow)
                } else if next < lo {
                    Err(IntParseFailure::NegOverflow)
                } else {
                    read_digits(s.drop_first(), next, negative, lo, hi)
                }
            },
        }
    }
}

/// The number that the token `s` stands for in decimal notation, where it
/// lies in `lo ..= hi`.
///
/// A token is an optional sign and at least one digit; `-` is a sign only
/// where `lo` is below zero.
pub open spec fn parse_decimal(s: Seq<char>, lo: int, hi: int) -> Result<int, IntParseFailure> {
    if s.len() == 0 {
        Err(IntParseFailure::Empty)
    } else {
        let negative = s[0] == '-' && lo < 0;
        let digits = if s[0] == '+' || negative {
            s.drop_first()
        } else {
            s
        };
        if digits.len() == 0 {
            Err(IntParseFailure::InvalidDigit)
        } else {
            read_digits(digits, 0, negative, lo, hi)
        }
    }
}

/// Reads a token as a decimal number between `lo` and `hi`.
pub fn parse_integer(token: &Vec<char>, lo: i64, hi: i64) -> (r: Result<i64, IntParseFailure>)
    requires
        -0x8000_0000 <= lo <= 0 <= hi <= 0xffff_ffff,
    ensures
        match r {
            Ok(n) => parse_decimal(token@, lo as int, hi as int) == Ok::<int, IntParseFailure>(n as int),
            Err(e) => parse_decimal(token@, lo as int, hi as int) == Err::<int, IntParseFailure>(e),
        },
{
    if token.len() == 0 {
        return Err(IntParseFailure::Empty);
    }
    let negative = token[0] == '-' && lo < 0;
    let start: usize = if token[0] == '+' || negative {
        1
    } else {
        0
    };
    if start == token.len() {
        return Err(IntParseFailure::InvalidDigit);
    }
    let ghost digits = token@.subrange(start as int, token@.len() as int);
    proof {
        if start == 1 {
            assert(digits == token@.drop_first());
        } else {
            assert(digits == token@);
        }
    }
    let mut acc: i64 = 0;
    let mut i: usize = start;
    while i < token.len()
        invariant
            start <= i <= token.len(),
            -0x8000_0000 <= lo <= 0 <= hi <= 0xffff_ffff,
            lo <= acc <= hi,
            parse_decimal(token@, lo as int, hi as int) == read_digits(
                token@.subrange(i as int, token@.len() as int),
                acc as int,
                negative,
                lo as int,
                hi as int,
            ),
        decreases token.len() - i,
    {
        let c = token[i];
        proof {
            let rest = token@.subrange(i as int, token@.len() as int);
            assert(rest[0] == c);
            assert(rest.drop_first() == token@.subrange(i + 1, token@.len() as int));
        }
        if c < '0' || c > '9' {
            return Err(IntParseFailure::InvalidDigit);
        }
        let d: i64 = (c as u32 - '0' as u32) as i64;
        let next: i64 = if negative {
            acc * 10 - d
        } else {
            acc * 10 + d
        };
        if next > hi {
            return Err(IntParseFailure::PosOverflow);
        }
        if next < lo {
            return Err(IntParseFailure::NegOverflow);
        }
        acc = next;
        i += 1;
    }
    Ok(acc)
}

/// The number that a token stands for, where it is at most 65535.
pub open spec fn parse_u16_spec(s: Seq<char>) -> Result<u16, IntParseFailure> {
    match parse_decimal(s, 0, 0xffff) {
        Ok(n) => Ok(n as u16),
        Err(e) => Err(e),
    }
}

/// Reads a token as a `u16`.
pub fn parse_u16(token: &Vec<char>) -> (r: Result<u16, IntParseFailure>)
    ensures
        r == parse_u16_spec(token@),
{
    match parse_integer(token, 0, 0xffff) {
        Ok(n) => Ok(n as u16),
        Err(e) => Err(e),
    }
}

/// The number that a token stands for, where an `i32` holds it.
pub open spec fn parse_i32_spec(s: Seq<char>) -> Result<i32, IntParseFailure> {
    match parse_decimal(s, -0x8000_0000, 0x7fff_ffff) {
        Ok(n) => Ok(n as i32),
        Err(e) => Err(e),
    }
}

/// Reads a token as an `i32`.
pub fn parse_i32(token: &Vec<char>) -> (r: Result<i32, IntParseFailure>)
    ensures
        r == parse_i32_spec(token@),
{
    match parse_integer(token, -0x8000_0000, 0x7fff_ffff) {
        Ok(n) => Ok(n as i32),
        Err(e) => Err(e),
    }
}


/// The numbers that `tokens` stand for, read from the left; the first token
/// that is no `u16`, or that is zero where `nonzero` is asked for, ends the
/// reading with its failure.
pub open spec fn parse_each(tokens: Seq<Seq<char>>, nonzero: bool) -> Result<Seq<u16>, IntParseFailure>
    decreases tokens.len(),
{
    if tokens.len() == 0 {
        Ok(Seq::empty())
    } else {
        match parse_each(tokens.drop_last(), nonzero) {
            Err(e) => Err(e),
            Ok(before) => match parse_u16_spec(tokens.last()) {
                Err(e) => Err(e),
                Ok(n) => if nonzero && n == 0 {
                    Err(IntParseFailure::Zero)
                } else {
                    Ok(before.push(n))
                },
            },
        }
    }
}

/// The numbers that a text of tokens between whitespace stands for.
pub open spec fn parse_u16_list(s: Seq<char>, nonzero: bool) -> Result<Seq<u16>, IntParseFailure> {
    parse_each(tokens(s), nonzero)
}

/// Reads a text such as `1 2 3` as a list of numbers.
pub fn u16s_from_str(s: &str, nonzero: bool) -> (r: Result<Vec<u16>, IntParseFailure>)
    ensures
        match r {
            Ok(v) => parse_u16_list(s@, nonzero) == Ok::<Seq<u16>, IntParseFailure>(v@),
            Err(e) => parse_u16_list(s@, nonzero) == Err::<Seq<u16>, IntParseFailure>(e),
        },
{
    let chars = chars_of(s);
    let words = split_whitespace(&chars);
    let mut v: Vec<u16> = Vec::new();
    let mut i: usize = 0;
    while i < words.len()
        invariant
            i <= words.len(),
            views_of(words@) == tokens(s@),
            parse_each(views_of(words@).take(i as int), nonzero) == Ok::<Seq<u16>, IntParseFailure>(v@),
        decreases words.len() - i,
    {
        proof {
            let next = views_of(words@).take(i + 1);
            assert(next.drop_last() == views_of(words@).take(i as int));
            assert(next.last() == words@[i as int]@);
            lemma_failure_stays(views_of(words@), i + 1, nonzero);
        }
        match parse_u16(&words[i]) {
            Err(e) => {
                return Err(e);
            },
            Ok(n) => {
                if nonzero && n == 0 {
                    return Err(IntParseFailure::Zero);
                }
                v.push(n);
            },
        }
        i += 1;
    }
    assert(views_of(words@).take(i as int) == views_of(words@));
    Ok(v)
}

/// A failure on the first `n` tokens is the failure on all of them.
pub proof fn lemma_failure_stays(tokens: Seq<Seq<char>>, n: int, nonzero: bool)
    requires
        0 <= n <= tokens.len(),
    ensures
        parse_each(tokens.take(n), nonzero) is Err ==> parse_each(tokens, nonzero) == parse_each(
            tokens.take(n),
            nonzero,
        ),
    decreases tokens.len() - n,
{
    if n < tokens.len() {
        assert(tokens.take(n + 1).drop_last() == tokens.take(n));
        lemma_failure_stays(tokens, n + 1, nonzero);
    } else {
        assert(tokens.take(n) == tokens);
    }
}


/// The character that stands for the digit `d`.
pub open spec fn digit_char(d: int) -> char {
    if d == 0 {
        '0'
    } else if d == 1 {
        '1'
    } else if d == 2 {
        '2'
    } else if d == 3 {
        '3'
    } else if d == 4 {
        '4'
    } else if d == 5 {
        '5'
    } else if d == 6 {
        '6'
    } else if d == 7 {
        '7'
    } else if d == 8 {
        '8'
    } else {
        '9'
    }
}

/// The character that stands for a digit.
pub fn digit_to_char(d: u64) -> (c: char)
    requires
        d < 10,
    ensures
        c == digit_char(d as int),
        digit_value(c) == Some(d as int),
{
    if d == 0 {
        '0'
    } else if d == 1 {
        '1'
    } else if d == 2 {
        '2'
    } else if d == 3 {
        '3'
    } else if d == 4 {
        '4'
    } else if d == 5 {
        '5'
    } else if d == 6 {
        '6'
    } else if d == 7 {
        '7'
    } else if d == 8 {
        '8'
    } else {
        '9'
    }
}

/// The decimal notation of `n`, without leading zeros.
pub open spec fn decimal_digits(n: nat) -> Seq<char>
    decreases n,
{
    if n < 10 {
        seq![digit_char(n as int)]
    } else {
        decimal_digits(n / 10).push(digit_char((n % 10) as int))
    }
}

/// Appends the decimal notation of `n` to `out`.
pub fn push_decimal(out: &mut Vec<char>, n: u64)
    ensures
        final(out)@ == old(out)@ + decimal_digits(n as nat),
    decreases n,
{
    if n >= 10 {
        push_decimal(out, n / 10);
    }
    out.push(digit_to_char(n % 10));
}

/// The tokens `list` with one space between each two.
pub open spec fn join_tokens(list: Seq<Seq<char>>) -> Seq<char>
    decreases list.len(),
{
    if list.len() == 0 {
        Seq::empty()
    } else if list.len() == 1 {
        list[0]
    } else {
        join_tokens(list.drop_last()).push(' ') + list.last()
    }
}

/// The decimal notations of the numbers `v`.
pub open spec fn decimal_tokens(v: Seq<u16>) -> Seq<Seq<char>> {
    Seq::new(v.len(), |i: int| decimal_digits(v[i] as nat))
}

/// The numbers `v` written in decimal notation with one space between each
/// two.
pub open spec fn list_text(v: Seq<u16>) -> Seq<char> {
    join_tokens(decimal_tokens(v))
}

/// Writes numbers in decimal notation with one space between each two.
pub fn u16s_to_string(values: &Vec<u16>) -> (s: String)
    ensures
        s@ == list_text(values@),
{
    let mut out: Vec<char> = Vec::new();
    let mut i: usize = 0;
    while i < values.len()
        invariant
            i <= values.len(),
            out@ == list_text(values@.take(i as int)),
        decreases values.len() - i,
    {
        proof {
            let before = decimal_tokens(values@.take(i as int));
            let after = decimal_tokens(values@.take(i + 1));
            assert(after.drop_last() == before);
            assert(after.last() == decimal_digits(values@[i as int] as nat));
        }
        if i > 0 {
            out.push(' ');
        }
        push_decimal(&mut out, values[i] as u64);
        i += 1;
    }
    assert(values@.take(i as int) == values@);
    string_of(&out)
}

/// Reading on after one more digit is one step from what was read before.
proof fn lemma_read_digits_push(s: Seq<char>, c: char, acc: int, negative: bool, lo: int, hi: int)
    ensures
        read_digits(s.push(c), acc, negative, lo, hi) == match read_digits(s, acc, negative, lo, hi) {
            Err(e) => Err(e),
            Ok(v) => read_digits(seq![c], v, negative, lo, hi),
        },
    decreases s.len(),
{
    if s.len() == 0 {
        assert(s.push(c) == seq![c]);
    } else {
        assert(s.push(c).drop_first() == s.drop_first().push(c));
        assert(s.push(c)[0] == s[0]);
        match digit_value(s[0]) {
            None => {},
            Some(d) => {
                let next = if negative {
                    acc * 10 - d
                } else {
                    acc * 10 + d
                };
                if lo <= next <= hi {
                    lemma_read_digits_push(s.drop_first(), c, next, negative, lo, hi);
                }
            },
        }
    }
}

/// The decimal notation of a number is made of digits, and reads as that
/// number.
pub proof fn lemma_decimal_digits(n: nat, lo: int, hi: int)
    requires
        lo <= 0,
        n <= hi,
    ensures
        decimal_digits(n).len() > 0,
        forall|i: int| 0 <= i < decimal_digits(n).len() ==> digit_value(#[trigger] decimal_digits(n)[i]) is Some,
        read_digits(decimal_digits(n), 0, false, lo, hi) == Ok::<int, IntParseFailure>(n as int),
        parse_decimal(decimal_digits(n), lo, hi) == Ok::<int, IntParseFailure>(n as int),
    decreases n,
{
    let digits = decimal_digits(n);
    if n < 10 {
        let c = digit_char(n as int);
        assert(digit_value(c) == Some(n as int));
        assert(digits == seq![c]);
        assert(digits.drop_first() == Seq::<char>::empty());
        assert(read_digits(digits.drop_first(), n as int, false, lo, hi) == Ok::<int, IntParseFailure>(n as int));
    } else {
        let c = digit_char((n % 10) as int);
        assert(digit_value(c) == Some((n % 10) as int));
        lemma_decimal_digits(n / 10, lo, hi);
        lemma_read_digits_push(decimal_digits(n / 10), c, 0, false, lo, hi);
        assert(seq![c].drop_first() == Seq::<char>::empty());
        assert(read_digits(seq![c].drop_first(), n as int, false, lo, hi) == Ok::<int, IntParseFailure>(
            n as int,
        ));
        assert(read_digits(seq![c], (n / 10) as int, false, lo, hi) == Ok::<int, IntParseFailure>(n as int));
    }
    assert(digit_value(digits[0]) is Some);
}

/// A run of characters that are no whitespace, after a text that is empty
/// or ends in whitespace, is one more token.
proof fn lemma_tokens_after_gap(s: Seq<char>, t: Seq<char>)
    requires
        s.len() == 0 || is_whitespace_char(s.last()),
        t.len() > 0,
        forall|i: int| 0 <= i < t.len() ==> !is_whitespace_char(#[trigger] t[i]),
    ensures
        tokens(s + t) == tokens(s).push(t),
    decreases t.len(),
{
    let all = s + t;
    assert(all.last() == t.last());
    if t.len() == 1 {
        assert(all.drop_last() == s);
        if s.len() > 0 {
            assert(all[all.len() - 2] == s.last());
        }
        assert(t == seq![t.last()]);
    } else {
        let shorter = t.drop_last();
        assert(all.drop_last() == s + shorter);
        lemma_tokens_after_gap(s, shorter);
        assert(all[all.len() - 2] == t[t.len() - 2]);
        let before = tokens(s).push(shorter);
        assert(before.drop_last() == tokens(s));
        assert(before.last() == shorter);
        assert(shorter.push(t.last()) == t);
    }
}

/// Tokens without whitespace, joined by spaces, are the tokens of what
/// they are joined to.
pub proof fn lemma_tokens_of_join(list: Seq<Seq<char>>)
    requires
        forall|i: int| 0 <= i < list.len() ==> (#[trigger] list[i]).len() > 0,
        forall|i: int, j: int|
            0 <= i < list.len() && 0 <= j < list[i].len() ==> !is_whitespace_char(#[trigger] list[i][j]),
    ensures
        tokens(join_tokens(list)) == list,
    decreases list.len(),
{
    if list.len() == 0 {
        assert(tokens(join_tokens(list)) == list);
    } else if list.len() == 1 {
        lemma_tokens_after_gap(Seq::empty(), list[0]);
        assert(Seq::<char>::empty() + list[0] == list[0]);
        assert(tokens(Seq::<char>::empty()).push(list[0]) == list);
    } else {
        let before = list.drop_last();
        lemma_tokens_of_join(before);
        let gap = join_tokens(before).push(' ');
        assert(gap.drop_last() == join_tokens(before));
        assert(tokens(gap) == before);
        lemma_tokens_after_gap(gap, list.last());
        assert(before.push(list.last()) == list);
    }
}

/// Numbers that were written as a text are read back from it as they were.
pub proof fn lemma_list_text_reads_back(v: Seq<u16>, nonzero: bool)
    requires
        nonzero ==> !v.contains(0u16),
    ensures
        parse_u16_list(list_text(v), nonzero) == Ok::<Seq<u16>, IntParseFailure>(v),
{
    let list = decimal_tokens(v);
    assert forall|i: int| 0 <= i < list.len() implies (#[trigger] list[i]).len() > 0 by {
        lemma_decimal_digits(v[i] as nat, 0, 0xffff);
    }
    assert forall|i: int, j: int| 0 <= i < list.len() && 0 <= j < list[i].len() implies !is_whitespace_char(
        #[trigger] list[i][j],
    ) by {
        lemma_decimal_digits(v[i] as nat, 0, 0xffff);
        assert(digit_value(decimal_digits(v[i] as nat)[j]) is Some);
    }
    lemma_tokens_of_join(list);
    lemma_decimal_tokens_read(v, nonzero);
}

/// The decimal notations of numbers read as those numbers.
proof fn lemma_decimal_tokens_read(v: Seq<u16>, nonzero: bool)
    requires
        nonzero ==> !v.contains(0u16),
    ensures
        parse_each(decimal_tokens(v), nonzero) == Ok::<Seq<u16>, IntParseFailure>(v),
    decreases v.len(),
{
    let list = decimal_tokens(v);
    if v.len() == 0 {
        assert(v == Seq::<u16>::empty());
    } else {
        let shorter = v.drop_last();
        assert(list.drop_last() == decimal_tokens(shorter));
        if nonzero {
            assert forall|x: u16| shorter.contains(x) implies x != 0 by {
                let k = choose|k: int| 0 <= k < shorter.len() && shorter[k] == x;
                assert(v[k] == x);
                assert(v.contains(x));
            }
            assert(v.contains(v.last()));
        }
        lemma_decimal_tokens_read(shorter, nonzero);
        lemma_decimal_digits(v.last() as nat, 0, 0xffff);
        assert(list.last() == decimal_digits(v.last() as nat));
        assert(shorter.push(v.last()) == v);
    }
}


/// The number of bytes that `c` takes in UTF-8.
pub open spec fn utf8_width(c: char) -> nat {
    let n = c as u32;
    if n < 0x80 {
        1
    } else if n < 0x800 {
        2
    } else if n < 0x10000 {
        3
    } else {
        4
    }
}

/// The number of bytes that `s` takes in UTF-8.
pub open spec fn byte_len(s: Seq<char>) -> nat
    decreases s.len(),
{
    if s.len() == 0 {
        0
    } else {
        byte_len(s.drop_last()) + utf8_width(s.last())
    }
}

/// Whether `chars` takes more than `limit` bytes in UTF-8.
pub fn exceeds_bytes(chars: &Vec<char>, limit: usize) -> (b: bool)
    requires
        limit <= 0x7fff_ffff,
    ensures
        b == (byte_len(chars@) > limit),
{
    let mut total: usize = 0;
    let mut i: usize = 0;
    while i < chars.len()
        invariant
            i <= chars.len(),
            limit <= 0x7fff_ffff,
            total == byte_len(chars@.take(i as int)),
            total <= limit,
        decreases chars.len() - i,
    {
        let n = chars[i] as u32;
        let width: usize = if n < 0x80 {
            1
        } else if n < 0x800 {
            2
        } else if n < 0x10000 {
            3
        } else {
            4
        };
        proof {
            assert(chars@.take(i + 1).drop_last() == chars@.take(i as int));
            lemma_byte_len_grows(chars@, i + 1);
        }
        total = total + width;
        if total > limit {
            return true;
        }
        i += 1;
    }
    assert(chars@.take(i as int) == chars@);
    false
}

/// A text takes at least as many bytes as any of its beginnings.
pub proof fn lemma_byte_len_grows(s: Seq<char>, n: int)
    requires
        0 <= n <= s.len(),
    ensures
        byte_len(s.take(n)) <= byte_len(s),
    decreases s.len() - n,
{
    if n < s.len() {
        assert(s.take(n + 1).drop_last() == s.take(n));
        lemma_byte_len_grows(s, n + 1);
    } else {
        assert(s.take(n) == s);
    }
}


/// Whether two texts hold the same characters.
pub fn str_eq(a: &str, b: &str) -> (r: bool)
    ensures
        r == (a@ == b@),
{
    let a = a.to_owned();
    let b = b.to_owned();
    a == b
}

/// The lower-case form of a text.
pub uninterp spec fn lowercase(s: Seq<char>) -> Seq<char>;

/// `str::to_lowercase`: the lower-case form of a text, as Unicode defines
/// it. The contract gives it a name.
#[verifier::external_body]
pub(crate) fn to_lowercase(s: &str) -> (r: String)
    ensures
        r@ == lowercase(s@),
{
    s.to_lowercase()
}


/// The notation of a whole number: a minus sign where it is below zero,
/// and its decimal digits.
pub open spec fn integer_digits(n: int) -> Seq<char> {
    if n < 0 {
        seq!['-'] + decimal_digits((-n) as nat)
    } else {
        decimal_digits(n as nat)
    }
}

/// Appends the notation of `n` to `out`.
pub fn push_integer(out: &mut Vec<char>, n: i64)
    ensures
        final(out)@ == old(out)@ + integer_digits(n as int),
{
    if n < 0 {
        out.push('-');
        let magnitude: u64 = if n == i64::MIN {
            0x8000_0000_0000_0000
        } else {
            (-n) as u64
        };
        let ghost before = out@;
        push_decimal(out, magnitude);
        assert(out@ == old(out)@ + (seq!['-'] + decimal_digits(magnitude as nat)));
    } else {
        push_decimal(out, n as u64);
    }
}

/// Whether `part` stands in `text` at the position `at`.
pub fn stands_at(text: &Vec<char>, part: &Vec<char>, at: usize) -> (b: bool)
    requires
        at <= text.len(),
    ensures
        b == (at + part.len() <= text.len() && text@.subrange(at as int, at + part.len()) == part@),
{
    if part.len() > text.len() - at {
        return false;
    }
    let mut i: usize = 0;
    while i < part.len()
        invariant
            i <= part.len(),
            at + part.len() <= text.len(),
            forall|k: int| 0 <= k < i ==> text@[at + k] == part@[k],
        decreases part.len() - i,
    {
        if text[at + i] != part[i] {
            assert(text@.subrange(at as int, at + part.len())[i as int] != part@[i as int]);
            return false;
        }
        i += 1;
    }
    assert(text@.subrange(at as int, at + part.len()) =~= part@);
    true
}

/// `s` with each `from` in it replaced by `to`, read from the left; a
/// `from` that begins within one that was replaced is not looked for.
pub open spec fn replaced(s: Seq<char>, from: Seq<char>, to: Seq<char>) -> Seq<char>
    decreases s.len(),
{
    if from.len() == 0 || s.len() < from.len() {
        s
    } else if s.subrange(0, from.len() as int) == from {
        to + replaced(s.subrange(from.len() as int, s.len() as int), from, to)
    } else {
        seq![s[0]] + replaced(s.drop_first(), from, to)
    }
}

/// Replaces each `from` in `text` by `to`.
pub fn replace(text: &Vec<char>, from: &Vec<char>, to: &Vec<char>) -> (r: Vec<char>)
    requires
        from.len() > 0,
    ensures
        r@ == replaced(text@, from@, to@),
{
    let mut r: Vec<char> = Vec::new();
    let mut i: usize = 0;
    assert(text@.subrange(0, text@.len() as int) == text@);
    while i < text.len()
        invariant
            i <= text.len(),
            from.len() > 0,
            replaced(text@, from@, to@) == r@ + replaced(text@.subrange(i as int, text@.len() as int), from@, to@),
        decreases text.len() - i,
    {
        let ghost rest = text@.subrange(i as int, text@.len() as int);
        let ghost done = r@;
        if stands_at(text, from, i) {
            proof {
                assert(rest.subrange(0, from@.len() as int) == text@.subrange(i as int, i + from@.len()));
                assert(rest.subrange(from@.len() as int, rest.len() as int) == text@.subrange(
                    i + from@.len(),
                    text@.len() as int,
                ));
            }
            let mut k: usize = 0;
            while k < to.len()
                invariant
                    k <= to.len(),
                    r@ == done + to@.take(k as int),
                decreases to.len() - k,
            {
                r.push(to[k]);
                k += 1;
            }
            proof {
                assert(to@.take(k as int) == to@);
                let after = replaced(rest.subrange(from@.len() as int, rest.len() as int), from@, to@);
                assert(done + (to@ + after) == (done + to@) + after);
            }
            i += from.len();
        } else {
            proof {
                if rest.len() >= from@.len() {
                    assert(rest.subrange(0, from@.len() as int) == text@.subrange(i as int, i + from@.len()));
                }
                assert(rest.drop_first() == text@.subrange(i + 1, text@.len() as int));
                assert(rest[0] == text@[i as int]);
            }
            if text.len() - i < from.len() {
                let mut k: usize = i;
                while k < text.len()
                    invariant
                        i <= k <= text.len(),
                        r@ == done + text@.subrange(i as int, k as int),
                    decreases text.len() - k,
                {
                    r.push(text[k]);
                    k += 1;
                }
                proof {
                    assert(text@.subrange(text@.len() as int, text@.len() as int) == Seq::<char>::empty());
                    assert(replaced(Seq::<char>::empty(), from@, to@) == Seq::<char>::empty());
                    assert(r@ + Seq::<char>::empty() == r@);
                }
                i = text.len();
            } else {
                r.push(text[i]);
                proof {
                    let after = replaced(rest.drop_first(), from@, to@);
                    assert(done + (seq![rest[0]] + after) == done.push(rest[0]) + after);
                }
                i += 1;
            }
        }
    }
    proof {
        assert(text@.subrange(i as int, text@.len() as int) == Seq::<char>::empty());
        assert(r@ + Seq::<char>::empty() == r@);
    }
    r
}

} // verus!
