use vstd::prelude::*;

verus! {

/// The ASCII digit for a value below ten.
pub open spec fn digit_char(d: nat) -> char {
    (('0' as nat) + d) as char
}

/// The base-ten rendering of `n`, without leading zeros (`0` renders as "0").
pub open spec fn decimal(n: nat) -> Seq<char>
    decreases n,
{
    if n < 10 {
        seq![digit_char(n)]
    } else {
        decimal(n / 10).push(digit_char(n % 10))
    }
}

/// The ten digit characters in order, as the literal used to render them.
proof fn lemma_digit_literal()
    ensures
        "0123456789"@.len() == 10,
        forall|d: int| 0 <= d < 10 ==> #[trigger] "0123456789"@[d] == digit_char(d as nat),
{
    reveal_strlit("0123456789");
    assert forall|d: int| 0 <= d < 10 implies #[trigger] "0123456789"@[d] == digit_char(d as nat) by {
        assert('0' as nat == 48);
        if d == 0 { assert('0' as nat == 48); }
        else if d == 1 { assert('1' as nat == 49); }
        else if d == 2 { assert('2' as nat == 50); }
        else if d == 3 { assert('3' as nat == 51); }
        else if d == 4 { assert('4' as nat == 52); }
        else if d == 5 { assert('5' as nat == 53); }
        else if d == 6 { assert('6' as nat == 54); }
        else if d == 7 { assert('7' as nat == 55); }
        else if d == 8 { assert('8' as nat == 56); }
        else { assert('9' as nat == 57); }
    }
}

/// Renders `n` in base ten.
pub fn decimal_string(n: u64) -> (s: String)
    ensures
        s@ == decimal(n as nat),
{
    let digits = "0123456789";
    proof {
        lemma_digit_literal();
    }
    // digits of n, least significant first
    let mut rev: Vec<usize> = Vec::new();
    let mut m: u64 = n;
    let ghost mut suffix: Seq<char> = Seq::empty();
    while m >= 10
        invariant
            decimal(n as nat) == decimal(m as nat) + suffix,
            rev@.len() == suffix.len(),
            forall|i: int| 0 <= i < rev@.len() ==> rev@[i] < 10 && suffix[suffix.len() - 1 - i] == digit_char(rev@[i] as nat),
        decreases m,
    {
        let d: u64 = m % 10;
        proof {
            assert(decimal(m as nat) == decimal((m / 10) as nat).push(digit_char(d as nat)));
            assert(decimal(m as nat) + suffix == decimal((m / 10) as nat) + (seq![digit_char(d as nat)] + suffix));
            suffix = seq![digit_char(d as nat)] + suffix;
        }
        rev.push(d as usize);
        m = m / 10;
    }
    rev.push(m as usize);
    proof {
        assert(decimal(m as nat) == seq![digit_char(m as nat)]);
        suffix = seq![digit_char(m as nat)] + suffix;
    }
    assert(decimal(n as nat) == suffix);
    let mut s = String::new();
    let mut k: usize = rev.len();
    while k > 0
        invariant
            k <= rev@.len(),
            rev@.len() == suffix.len(),
            forall|i: int| 0 <= i < rev@.len() ==> rev@[i] < 10 && suffix[suffix.len() - 1 - i] == digit_char(rev@[i] as nat),
            s@ == suffix.subrange(0, rev@.len() - k),
            digits@ == "0123456789"@,
            "0123456789"@.len() == 10,
            forall|d: int| 0 <= d < 10 ==> #[trigger] "0123456789"@[d] == digit_char(d as nat),
        decreases k,
    {
        k = k - 1;
        let d = rev[k];
        let piece = digits.substring_char(d, d + 1);
        assert(piece@ =~= seq![digit_char(d as nat)]);
        s.append(piece);
        assert(s@ =~= suffix.subrange(0, rev@.len() - k));
    }
    assert(s@ =~= suffix);
    s
}

/// An ASCII decimal digit.
pub open spec fn is_digit(c: char) -> bool {
    '0' <= c && c <= '9'
}

/// The numeric value of a decimal digit character.
pub open spec fn digit_value(c: char) -> nat {
    ((c as int) - ('0' as int)) as nat
}

/// Every character of `s` is a decimal digit.
pub open spec fn all_digits(s: Seq<char>) -> bool {
    forall|i: int| 0 <= i < s.len() ==> #[trigger] is_digit(s[i])
}

/// The value of a string of decimal digits, most significant first (the empty
/// string has value 0).
pub open spec fn digits_value(s: Seq<char>) -> nat
    decreases s.len(),
{
    if s.len() == 0 {
        0
    } else {
        digits_value(s.drop_last()) * 10 + digit_value(s.last())
    }
}

/// What parsing `s` as a `u32` gives: an optional leading `+`, then one or more
/// decimal digits whose value fits in 32 bits; anything else is rejected.
pub open spec fn parse_u32_spec(s: Seq<char>) -> Option<u32> {
    let body = if s.len() > 0 && s[0] == '+' { s.drop_first() } else { s };
    if body.len() > 0 && all_digits(body) && digits_value(body) <= u32::MAX {
        Some(digits_value(body) as u32)
    } else {
        None
    }
}

/// A longer run of digits is worth at least as much as any of its prefixes.
proof fn lemma_digits_value_prefix(s: Seq<char>, i: int)
    requires
        0 <= i <= s.len(),
    ensures
        digits_value(s.take(i)) <= digits_value(s),
    decreases s.len() - i,
{
    if i < s.len() {
        lemma_digits_value_prefix(s, i + 1);
        assert(s.take(i + 1).drop_last() =~= s.take(i));
        assert(digits_value(s.take(i + 1)) == digits_value(s.take(i)) * 10 + digit_value(s.take(i + 1).last()));
    } else {
        assert(s.take(i) =~= s);
    }
}

/// Parses `s` as a `u32` the way `str::parse::<u32>` does.
pub fn parse_u32(s: &str) -> (r: Option<u32>)
    ensures
        r == parse_u32_spec(s@),
{
    let n = s.unicode_len();
    let mut start: usize = 0;
    if n > 0 && s.get_char(0) == '+' {
        start = 1;
    }
    let ghost body = if s@.len() > 0 && s@[0] == '+' { s@.drop_first() } else { s@ };
    assert(body =~= s@.skip(start as int));
    if start >= n {
        return None;
    }
    let mut value: u64 = 0;
    let mut i: usize = start;
    while i < n
        invariant
            start <= i <= n,
            n == s@.len(),
            body == (if s@.len() > 0 && s@[0] == '+' { s@.drop_first() } else { s@ }),
            body =~= s@.skip(start as int),
            all_digits(body.take(i - start)),
            value == digits_value(body.take(i - start)),
            value <= u32::MAX,
        decreases n - i,
    {
        let c = s.get_char(i);
        let ghost pre = body.take(i - start);
        assert(body.take(i + 1 - start).drop_last() =~= pre);
        assert(body.take(i + 1 - start).last() == c);
        if !('0' <= c && c <= '9') {
            proof {
                assert(!is_digit(body[i - start]));
            }
            return None;
        }
        let d: u64 = ((c as u32) - ('0' as u32)) as u64;
        value = value * 10 + d;
        assert(value == digits_value(body.take(i + 1 - start)));
        if value > 0xffff_ffff {
            proof {
                lemma_digits_value_prefix(body, i + 1 - start);
            }
            return None;
        }
        i = i + 1;
    }
    assert(body.take(n - start) =~= body);
    Some(value as u32)
}

/// The rendering of a number is a non-empty run of digits with that value.
pub proof fn lemma_decimal_digits(n: nat)
    ensures
        decimal(n).len() > 0,
        all_digits(decimal(n)),
        digits_value(decimal(n)) == n,
    decreases n,
{
    if n < 10 {
        assert(digit_value(digit_char(n)) == n);
        assert(decimal(n).drop_last() =~= Seq::<char>::empty());
        assert(digits_value(Seq::<char>::empty()) == 0);
        assert(digits_value(decimal(n)) == digits_value(decimal(n).drop_last()) * 10 + digit_value(decimal(n).last()));
    } else {
        lemma_decimal_digits(n / 10);
        let d = decimal(n);
        assert(d.drop_last() =~= decimal(n / 10));
        assert(digit_value(digit_char(n % 10)) == n % 10);
        assert(digits_value(d) == digits_value(decimal(n / 10)) * 10 + digit_value(d.last()));
        assert forall|i: int| 0 <= i < d.len() implies #[trigger] is_digit(d[i]) by {
            if i < d.len() - 1 {
                assert(d[i] == decimal(n / 10)[i]);
            }
        }
    }
}

/// Rendering a `u32` in base ten and parsing the text back gives the number.
pub proof fn lemma_parse_decimal_roundtrip(n: u32)
    ensures
        parse_u32_spec(decimal(n as nat)) == Some(n),
{
    lemma_decimal_digits(n as nat);
    assert(is_digit(decimal(n as nat)[0]));
}

/// `prefix` is an initial segment of `s`.
pub open spec fn starts_with(s: Seq<char>, prefix: Seq<char>) -> bool {
    prefix.len() <= s.len() && s.take(prefix.len() as int) == prefix
}

/// What `str::strip_prefix` gives: the rest of `s` after `prefix`, or nothing
/// when `s` does not start with it.
pub open spec fn strip_prefix_spec(s: Seq<char>, prefix: Seq<char>) -> Option<Seq<char>> {
    if starts_with(s, prefix) {
        Some(s.skip(prefix.len() as int))
    } else {
        None
    }
}

/// Removes `prefix` from the front of `s`, if `s` starts with it.
pub fn strip_prefix<'a>(s: &'a str, prefix: &str) -> (r: Option<&'a str>)
    ensures
        r matches Some(rest) ==> strip_prefix_spec(s@, prefix@) == Some(rest@),
        r is None ==> strip_prefix_spec(s@, prefix@) is None,
{
    let n = s.unicode_len();
    let m = prefix.unicode_len();
    if m > n {
        return None;
    }
    let mut i: usize = 0;
    while i < m
        invariant
            i <= m <= n,
            n == s@.len(),
            m == prefix@.len(),
            forall|j: int| 0 <= j < i ==> s@[j] == prefix@[j],
        decreases m - i,
    {
        if s.get_char(i) != prefix.get_char(i) {
            assert(s@.take(m as int)[i as int] != prefix@[i as int]);
            return None;
        }
        i = i + 1;
    }
    assert(s@.take(m as int) =~= prefix@);
    Some(s.substring_char(m, n))
}

/// How parsing behaves on every input: a single digit reads as its value; a
/// digit appended to a readable number multiplies it by ten and adds the
/// digit (as long as the result fits); a leading `+` changes nothing; the
/// empty text, a lone `+`, and any text with a character that is not a digit
/// (other than one leading `+`, so a `-` sign too) are refused.
pub proof fn lemma_parse_behaviour(s: Seq<char>, c: char)
    ensures
        '0' <= c <= '9' ==> parse_u32_spec(seq![c]) == Some((c as int - '0' as int) as u32),
        ('0' <= c <= '9' && s.len() > 0 && s[0] != '+' && parse_u32_spec(s) is Some
            && parse_u32_spec(s)->0 * 10 + (c as int - '0' as int) <= u32::MAX)
            ==> parse_u32_spec(s.push(c)) == Some((parse_u32_spec(s)->0 * 10 + (c as int - '0' as int)) as u32),
        (s.len() > 0 && s[0] != '+') ==> parse_u32_spec(seq!['+'] + s) == parse_u32_spec(s),
        parse_u32_spec(Seq::empty()) is None,
        parse_u32_spec(seq!['+']) is None,
        (exists|i: int| 0 <= i < s.len() && !('0' <= #[trigger] s[i] <= '9') && !(i == 0 && s[i] == '+'))
            ==> parse_u32_spec(s) is None,
{
    if '0' <= c <= '9' {
        let one = seq![c];
        assert(one.drop_last() =~= Seq::<char>::empty());
        assert(digits_value(Seq::<char>::empty()) == 0);
        assert(digits_value(one) == digits_value(one.drop_last()) * 10 + digit_value(one.last()));
        assert(all_digits(one));
    }
    if '0' <= c <= '9' && s.len() > 0 && s[0] != '+' && parse_u32_spec(s) is Some {
        let t = s.push(c);
        assert(t.drop_last() =~= s);
        assert(t[0] == s[0]);
        assert(all_digits(t)) by {
            assert forall|i: int| 0 <= i < t.len() implies #[trigger] is_digit(t[i]) by {
                if i < s.len() {
                    assert(t[i] == s[i]);
                    assert(is_digit(s[i]));
                }
            }
        }
    }
    if s.len() > 0 && s[0] != '+' {
        let t = seq!['+'] + s;
        assert(t.drop_first() =~= s);
    }
    if exists|i: int| 0 <= i < s.len() && !('0' <= #[trigger] s[i] <= '9') && !(i == 0 && s[i] == '+') {
        let i = choose|i: int| 0 <= i < s.len() && !('0' <= #[trigger] s[i] <= '9') && !(i == 0 && s[i] == '+');
        if s.len() > 0 && s[0] == '+' {
            assert(s.drop_first()[i - 1] == s[i]);
            assert(!is_digit(s.drop_first()[i - 1]));
        } else {
            assert(!is_digit(s[i]));
        }
    }
}

/// A number renders without leading zeros: only 0 itself starts with `0`,
/// and 0 renders as the single character `0`.
pub proof fn lemma_decimal_no_leading_zero(n: nat)
    ensures
        decimal(n).len() > 0,
        decimal(n)[0] == '0' <==> n == 0,
        n == 0 ==> decimal(n) == seq!['0'],
    decreases n,
{
    if n >= 10 {
        lemma_decimal_no_leading_zero(n / 10);
        assert(decimal(n)[0] == decimal(n / 10)[0]);
    } else {
        assert(digit_char(n) == '0' <==> n == 0);
    }
}

/// Stripping a prefix from text that starts with it gives the rest; text that
/// is shorter than the prefix, or differs from it somewhere within it, has
/// nothing stripped.
pub proof fn lemma_strip_prefix(prefix: Seq<char>, rest: Seq<char>, s: Seq<char>)
    ensures
        strip_prefix_spec(prefix + rest, prefix) == Some(rest),
        s.len() < prefix.len() ==> strip_prefix_spec(s, prefix) is None,
        (exists|i: int| 0 <= i < prefix.len() && i < s.len() && #[trigger] s[i] != prefix[i])
            ==> strip_prefix_spec(s, prefix) is None,
{
    assert((prefix + rest).take(prefix.len() as int) =~= prefix);
    assert((prefix + rest).skip(prefix.len() as int) =~= rest);
    if exists|i: int| 0 <= i < prefix.len() && i < s.len() && #[trigger] s[i] != prefix[i] {
        let i = choose|i: int| 0 <= i < prefix.len() && i < s.len() && #[trigger] s[i] != prefix[i];
        if prefix.len() <= s.len() {
            assert(s.take(prefix.len() as int)[i] == s[i]);
        }
    }
}

} // verus!
