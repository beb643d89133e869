//! Character-level helpers shared by the line filters: decimal digits,
//! whitespace, and conversions between `String` and `Vec<char>`.

use vstd::prelude::*;

verus! {

/// `c` is an ASCII decimal digit.
pub open spec fn is_digit(c: char) -> bool {
    48 <= c as int && c as int <= 57
}

/// The numeric value of one digit.
pub open spec fn digit_val(c: char) -> int {
    c as int - 48
}

/// Every character of `s` is an ASCII decimal digit.
pub open spec fn all_digits(s: Seq<char>) -> bool {
    forall|i: int| 0 <= i < s.len() ==> is_digit(s[i])
}

/// The value of `s` read as a decimal numeral.
pub open spec fn decimal_value(s: Seq<char>) -> int
    decreases s.len(),
{
    if s.len() == 0 {
        0
    } else {
        decimal_value(s.drop_last()) * 10 + digit_val(s.last())
    }
}

/// `c` has Unicode's White_Space property, as `char::is_whitespace` decides it.
pub open spec fn is_whitespace_char(c: char) -> bool {
    ||| c as int == 0x20
    ||| (0x9 <= c as int && c as int <= 0xD)
    ||| c as int == 0x85
    ||| c as int == 0xA0
    ||| c as int == 0x1680
    ||| (0x2000 <= c as int && c as int <= 0x200A)
    ||| c as int == 0x2028
    ||| c as int == 0x2029
    ||| c as int == 0x202F
    ||| c as int == 0x205F
    ||| c as int == 0x3000
}

/// How many characters a left-to-right trim removes.
pub open spec fn leading_ws(s: Seq<char>) -> int
    decreases s.len(),
{
    if s.len() == 0 {
        0
    } else if is_whitespace_char(s[0]) {
        1 + leading_ws(s.drop_first())
    } else {
        0
    }
}

/// The length `s` keeps after a right-to-left trim.
pub open spec fn trimmed_end(s: Seq<char>) -> int
    decreases s.len(),
{
    if s.len() == 0 {
        0
    } else if is_whitespace_char(s.last()) {
        trimmed_end(s.drop_last())
    } else {
        s.len() as int
    }
}

/// `s` with leading and trailing whitespace removed.
pub open spec fn trim_spec(s: Seq<char>) -> Seq<char> {
    let kept = s.take(trimmed_end(s));
    kept.skip(leading_ws(kept))
}

proof fn lemma_leading_ws_bounds(s: Seq<char>)
    ensures
        0 <= leading_ws(s) <= s.len(),
        forall|i: int| 0 <= i < leading_ws(s) ==> is_whitespace_char(s[i]),
        leading_ws(s) < s.len() ==> !is_whitespace_char(s[leading_ws(s)]),
    decreases s.len(),
{
    if s.len() > 0 && is_whitespace_char(s[0]) {
        lemma_leading_ws_bounds(s.drop_first());
        assert forall|i: int| 0 <= i < leading_ws(s) implies is_whitespace_char(s[i]) by {
            if i > 0 {
                assert(s[i] == s.drop_first()[i - 1]);
            }
        }
    }
}

proof fn lemma_trimmed_end_bounds(s: Seq<char>)
    ensures
        0 <= trimmed_end(s) <= s.len(),
        forall|i: int| trimmed_end(s) <= i < s.len() ==> is_whitespace_char(s[i]),
        trimmed_end(s) > 0 ==> !is_whitespace_char(s[trimmed_end(s) - 1]),
    decreases s.len(),
{
    if s.len() > 0 && is_whitespace_char(s.last()) {
        lemma_trimmed_end_bounds(s.drop_last());
        assert forall|i: int| trimmed_end(s) <= i < s.len() implies is_whitespace_char(s[i]) by {
            if i < s.len() - 1 {
                assert(s[i] == s.drop_last()[i]);
            }
        }
    }
}

/// Whether `c` is an ASCII decimal digit.
pub fn digit_exec(c: char) -> (r: bool)
    ensures
        r == is_digit(c),
{
    let u = c as u32;
    48 <= u && u <= 57
}

/// Whether `c` counts as whitespace for trimming, exactly as
/// `char::is_whitespace` decides it.
pub fn whitespace_exec(c: char) -> (r: bool)
    ensures
        r == is_whitespace_char(c),
{
    let u = c as u32;
    u == 0x20 || (0x9 <= u && u <= 0xD) || u == 0x85 || u == 0xA0 || u == 0x1680 || (0x2000 <= u
        && u <= 0x200A) || u == 0x2028 || u == 0x2029 || u == 0x202F || u == 0x205F || u == 0x3000
}

/// `s` with leading and trailing whitespace removed, as `str::trim` removes it.
pub fn trim_chars(s: &Vec<char>) -> (r: Vec<char>)
    ensures
        r@ == trim_spec(s@),
{
    proof {
        lemma_trimmed_end_bounds(s@);
    }
    let mut end: usize = s.len();
    while end > 0 && whitespace_exec(s[end - 1])
        invariant
            0 <= end <= s@.len(),
            forall|i: int| end <= i < s@.len() ==> is_whitespace_char(s@[i]),
            trimmed_end(s@) <= end,
        decreases end,
    {
        assert(trimmed_end(s@) != end) by {
            if trimmed_end(s@) == end {
                lemma_trimmed_end_bounds(s@);
            }
        }
        end = end - 1;
    }
    assert(end == trimmed_end(s@)) by {
        lemma_trimmed_end_bounds(s@);
    }
    let ghost kept = s@.take(trimmed_end(s@));
    proof {
        lemma_leading_ws_bounds(kept);
    }
    let mut start: usize = 0;
    while start < end && whitespace_exec(s[start])
        invariant
            0 <= start <= end <= s@.len(),
            end == trimmed_end(s@),
            kept == s@.take(end as int),
            forall|i: int| 0 <= i < start ==> is_whitespace_char(kept[i]),
            start <= leading_ws(kept),
        decreases end - start,
    {
        assert(leading_ws(kept) != start) by {
            if leading_ws(kept) == start {
                lemma_leading_ws_bounds(kept);
            }
        }
        start = start + 1;
    }
    assert(start == leading_ws(kept)) by {
        lemma_leading_ws_bounds(kept);
        if start < end {
            assert(kept[start as int] == s@[start as int]);
        }
    }
    let mut r: Vec<char> = Vec::new();
    let mut i: usize = start;
    while i < end
        invariant
            start <= i <= end <= s@.len(),
            r@ == s@.subrange(start as int, i as int),
        decreases end - i,
    {
        r.push(s[i]);
        assert(r@ =~= s@.subrange(start as int, i + 1 as int));
        i = i + 1;
    }
    assert(r@ =~= trim_spec(s@));
    r
}

/// Parses `s[from..to]` as a decimal `u64`; `None` when the value does not fit.
pub fn parse_decimal(s: &Vec<char>, from: usize, to: usize) -> (r: Option<u64>)
    requires
        from <= to <= s@.len(),
        all_digits(s@.subrange(from as int, to as int)),
    ensures
        r is Some <==> decimal_value(s@.subrange(from as int, to as int)) <= u64::MAX,
        r is Some ==> r->0 == decimal_value(s@.subrange(from as int, to as int)),
{
    let ghost whole = s@.subrange(from as int, to as int);
    let mut acc: u64 = 0;
    let mut i: usize = from;
    while i < to
        invariant
            from <= i <= to <= s@.len(),
            all_digits(whole),
            whole == s@.subrange(from as int, to as int),
            acc == decimal_value(s@.subrange(from as int, i as int)),
        decreases to - i,
    {
        let ghost prefix = s@.subrange(from as int, i as int);
        let ghost next_prefix = s@.subrange(from as int, i + 1 as int);
        proof {
            assert(next_prefix.drop_last() =~= prefix);
            assert(whole[i - from] == s@[i as int]);
            assert(is_digit(s@[i as int]));
        }
        let c = s[i];
        let d: u64 = (c as u32 as u64) - 48;
        if acc > (u64::MAX - d) / 10 {
            proof {
                lemma_decimal_prefix_monotone(whole, i + 1 - from);
                assert(whole.take(i + 1 - from) =~= next_prefix);
                assert(decimal_value(next_prefix) == acc * 10 + d);
                assert(decimal_value(next_prefix) > u64::MAX);
            }
            return None;
        }
        acc = acc * 10 + d;
        i = i + 1;
    }
    assert(s@.subrange(from as int, to as int) =~= whole);
    Some(acc)
}

/// The decimal value of a longer digit prefix is at least that of a shorter one.
proof fn lemma_decimal_prefix_monotone(s: Seq<char>, n: int)
    requires
        0 <= n <= s.len(),
        all_digits(s),
    ensures
        decimal_value(s) >= decimal_value(s.take(n)),
        decimal_value(s) >= 0,
    decreases s.len(),
{
    if s.len() == 0 {
    } else if n == s.len() {
        assert(s.take(n) =~= s);
        lemma_decimal_prefix_monotone(s.drop_last(), n - 1);
    } else {
        lemma_decimal_prefix_monotone(s.drop_last(), n);
        assert(s.drop_last().take(n) =~= s.take(n));
        assert(is_digit(s.last()));
        assert(decimal_value(s) == decimal_value(s.drop_last()) * 10 + digit_val(s.last()));
        assert(decimal_value(s.drop_last()) * 10 >= decimal_value(s.drop_last())) by {
            assert(decimal_value(s.drop_last()) >= 0);
        }
    }
}

/// Relies on `String`'s `FromIterator` impl: collecting characters yields the
/// string of exactly those characters, in order.
#[verifier::external_body]
pub(crate) fn collect_string(chars: &Vec<char>) -> (r: String)
    ensures
        r@ == chars@,
{
    chars.iter().collect()
}

/// Relies on `str::chars`: it yields the string's characters in order.
#[verifier::external_body]
pub(crate) fn string_chars(s: &str) -> (r: Vec<char>)
    ensures
        r@ == s@,
{
    s.chars().collect()
}

} // verus!
