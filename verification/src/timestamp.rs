//! The success-record codec of the staleness monitor.
//!
//! The time of the last successful dyndns update is persisted as a decimal
//! number of seconds since the Unix epoch. This module defines that record
//! format: a verified formatter, a verified parser that degrades to `None` on
//! malformed text, and the proof that the two invert each other.

use vstd::prelude::*;

verus! {

/// A character between `'0'` and `'9'`.
pub open spec fn is_dec_digit(c: char) -> bool {
    48 <= c as int <= 57
}

/// The numeric value of a decimal digit character.
pub open spec fn digit_val(c: char) -> nat {
    ((c as int) - 48) as nat
}

/// The decimal digit character for a value below ten.
pub open spec fn digit_char(d: nat) -> char {
    if d == 0 {
        '0'
    } else if d == 1 {
        '1'
    } else if d == 2 {
        '2'
    } else if d == 3 {
        '3'
    } else if d == 4 {
        '4'
    } else if d == 5 {
        '5'
    } else if d == 6 {
        '6'
    } else if d == 7 {
        '7'
    } else if d == 8 {
        '8'
    } else {
        '9'
    }
}

/// The decimal digit string of `n`, most significant digit first, without
/// leading zeros (`0` itself is the single digit `'0'`).
pub open spec fn dec_digits(n: nat) -> Seq<char>
    decreases n,
{
    if n < 10 {
        seq![digit_char(n)]
    } else {
        dec_digits(n / 10).push(digit_char(n % 10))
    }
}

/// The value of a digit string, read most significant digit first.
pub open spec fn digits_value(s: Seq<char>) -> nat
    decreases s.len(),
{
    if s.len() == 0 {
        0
    } else {
        digits_value(s.drop_last()) * 10 + digit_val(s.last())
    }
}

/// Every character of `s` is a decimal digit.
pub open spec fn all_dec_digits(s: Seq<char>) -> bool {
    forall|i: int| 0 <= i < s.len() ==> is_dec_digit(#[trigger] s[i])
}

/// `s` with every newline removed: a hand-edited record may carry a
/// trailing newline, which does not change what it records.
pub open spec fn strip_newlines(s: Seq<char>) -> Seq<char>
    decreases s.len(),
{
    if s.len() == 0 {
        Seq::empty()
    } else if s[0] == '\n' {
        strip_newlines(s.drop_first())
    } else {
        seq![s[0]] + strip_newlines(s.drop_first())
    }
}

/// What a success record means: after dropping newlines it must be a
/// non-empty, in-range string of decimal digits; anything else is no record.
pub open spec fn spec_parse_timestamp(s: Seq<char>) -> Option<u64> {
    let t = strip_newlines(s);
    if t.len() > 0 && all_dec_digits(t) && digits_value(t) <= u64::MAX {
        Some(digits_value(t) as u64)
    } else {
        None
    }
}

/// Appends the single digit character for `d` to `out`.
fn append_digit(d: u64, out: &mut String)
    requires
        d < 10,
    ensures
        final(out)@ == old(out)@ + seq![digit_char(d as nat)],
{
    if d == 0 {
        out.append("0");
        proof {
            reveal_strlit("0");
            assert("0"@ =~= seq![digit_char(d as nat)]);
        }
    } else if d == 1 {
        out.append("1");
        proof {
            reveal_strlit("1");
            assert("1"@ =~= seq![digit_char(d as nat)]);
        }
    } else if d == 2 {
        out.append("2");
        proof {
            reveal_strlit("2");
            assert("2"@ =~= seq![digit_char(d as nat)]);
        }
    } else if d == 3 {
        out.append("3");
        proof {
            reveal_strlit("3");
            assert("3"@ =~= seq![digit_char(d as nat)]);
        }
    } else if d == 4 {
        out.append("4");
        proof {
            reveal_strlit("4");
            assert("4"@ =~= seq![digit_char(d as nat)]);
        }
    } else if d == 5 {
        out.append("5");
        proof {
            reveal_strlit("5");
            assert("5"@ =~= seq![digit_char(d as nat)]);
        }
    } else if d == 6 {
        out.append("6");
        proof {
            reveal_strlit("6");
            assert("6"@ =~= seq![digit_char(d as nat)]);
        }
    } else if d == 7 {
        out.append("7");
        proof {
            reveal_strlit("7");
            assert("7"@ =~= seq![digit_char(d as nat)]);
        }
    } else if d == 8 {
        out.append("8");
        proof {
            reveal_strlit("8");
            assert("8"@ =~= seq![digit_char(d as nat)]);
        }
    } else {
        out.append("9");
        proof {
            reveal_strlit("9");
            assert("9"@ =~= seq![digit_char(d as nat)]);
        }
    }
}

/// Appends the decimal digits of `n` to `out`, most significant first.
fn push_dec_digits(n: u64, out: &mut String)
    ensures
        final(out)@ == old(out)@ + dec_digits(n as nat),
    decreases n,
{
    if n >= 10 {
        push_dec_digits(n / 10, out);
    }
    append_digit(n % 10, out);
    proof {
        if n < 10 {
            assert(dec_digits(n as nat) =~= seq![digit_char((n % 10) as nat)]);
        } else {
            assert(dec_digits(n as nat) =~= dec_digits((n / 10) as nat) + seq![
                digit_char((n % 10) as nat),
            ]);
            assert(final(out)@ =~= old(out)@ + dec_digits(n as nat));
        }
    }
}

/// Formats `t` as its decimal success record.
pub fn format_timestamp(t: u64) -> (r: String)
    ensures
        r@ == dec_digits(t as nat),
{
    let mut out = String::new();
    push_dec_digits(t, &mut out);
    proof {
        assert(out@ =~= dec_digits(t as nat));
    }
    out
}

/// The digit value of `c`, or `None` if `c` is no decimal digit.
fn digit_of_char(c: char) -> (r: Option<u64>)
    ensures
        match r {
            Some(d) => is_dec_digit(c) && d < 10 && d as nat == digit_val(c),
            None => !is_dec_digit(c),
        },
{
    match c {
        '0' => Some(0),
        '1' => Some(1),
        '2' => Some(2),
        '3' => Some(3),
        '4' => Some(4),
        '5' => Some(5),
        '6' => Some(6),
        '7' => Some(7),
        '8' => Some(8),
        '9' => Some(9),
        _ => None,
    }
}

/// Removing a final character commutes with newline stripping.
proof fn lemma_strip_newlines_snoc(s: Seq<char>, c: char)
    ensures
        strip_newlines(s.push(c)) == if c == '\n' {
            strip_newlines(s)
        } else {
            strip_newlines(s).push(c)
        },
    decreases s.len(),
{
    assert(strip_newlines(Seq::<char>::empty()) =~= Seq::<char>::empty());
    if s.len() == 0 {
        assert(s.push(c).drop_first() =~= Seq::<char>::empty());
        assert(s.push(c)[0] == c);
        if c == '\n' {
            assert(strip_newlines(s.push(c)) =~= strip_newlines(s));
        } else {
            assert(strip_newlines(s.push(c)) =~= seq![c] + Seq::<char>::empty());
            assert(strip_newlines(s.push(c)) =~= strip_newlines(s).push(c));
        }
    } else {
        assert(s.push(c).drop_first() =~= s.drop_first().push(c));
        assert(s.push(c)[0] == s[0]);
        lemma_strip_newlines_snoc(s.drop_first(), c);
        if s[0] == '\n' {
            assert(strip_newlines(s.push(c)) == strip_newlines(s.drop_first().push(c)));
        } else if c == '\n' {
            assert(strip_newlines(s.push(c)) =~= seq![s[0]] + strip_newlines(s.drop_first()));
            assert(strip_newlines(s.push(c)) =~= strip_newlines(s));
        } else {
            assert(strip_newlines(s.push(c)) =~= seq![s[0]] + strip_newlines(
                s.drop_first(),
            ).push(c));
            assert(strip_newlines(s.push(c)) =~= strip_newlines(s).push(c));
        }
    }
}

/// Newline stripping distributes over concatenation.
proof fn lemma_strip_newlines_append(a: Seq<char>, b: Seq<char>)
    ensures
        strip_newlines(a + b) == strip_newlines(a) + strip_newlines(b),
    decreases a.len(),
{
    if a.len() == 0 {
        assert(a + b =~= b);
        assert(strip_newlines(a) + strip_newlines(b) =~= strip_newlines(b));
    } else {
        assert((a + b).drop_first() =~= a.drop_first() + b);
        lemma_strip_newlines_append(a.drop_first(), b);
        if a[0] != '\n' {
            assert(seq![a[0]] + (strip_newlines(a.drop_first()) + strip_newlines(b)) =~= (seq![
                a[0],
            ] + strip_newlines(a.drop_first())) + strip_newlines(b));
        }
    }
}

/// A digit-string prefix never exceeds the value of the whole string.
proof fn lemma_digits_value_take_le(s: Seq<char>, k: int)
    requires
        0 <= k <= s.len(),
    ensures
        digits_value(s.take(k)) <= digits_value(s),
    decreases s.len() - k,
{
    if k == s.len() {
        assert(s.take(k) =~= s);
    } else {
        assert(s.take(k + 1).drop_last() =~= s.take(k));
        assert(digits_value(s.take(k + 1)) == digits_value(s.take(k)) * 10 + digit_val(
            s.take(k + 1).last(),
        ));
        lemma_digits_value_take_le(s, k + 1);
    }
}

/// The decimal digits of `n` are digits and read back as `n`.
proof fn lemma_dec_digits_value(n: nat)
    ensures
        dec_digits(n).len() > 0,
        all_dec_digits(dec_digits(n)),
        digits_value(dec_digits(n)) == n,
    decreases n,
{
    assert(digits_value(Seq::<char>::empty()) == 0);
    assert forall|d: nat| d < 10 implies is_dec_digit(digit_char(d)) && digit_val(digit_char(d))
        == d by {
        if d == 0 {
        } else if d == 1 {
        } else if d == 2 {
        } else if d == 3 {
        } else if d == 4 {
        } else if d == 5 {
        } else if d == 6 {
        } else if d == 7 {
        } else if d == 8 {
        } else {
        }
    }
    if n < 10 {
        assert(seq![digit_char(n)].drop_last() =~= Seq::<char>::empty());
        assert(seq![digit_char(n)].last() == digit_char(n));
        assert(digits_value(dec_digits(n)) == 0 * 10 + digit_val(digit_char(n)));
    } else {
        lemma_dec_digits_value(n / 10);
        let a = dec_digits(n / 10);
        let c = digit_char(n % 10);
        assert(a.push(c).drop_last() =~= a);
        assert(a.push(c).last() == c);
        assert(forall|i: int|
            0 <= i < a.push(c).len() ==> is_dec_digit(#[trigger] a.push(c)[i]));
        assert(digit_val(c) == n % 10);
        assert(digits_value(a.push(c)) == digits_value(a) * 10 + digit_val(c));
        assert(digits_value(a.push(c)) == (n / 10) * 10 + (n % 10));
    }
}

/// Newline stripping leaves a newline-free string unchanged.
proof fn lemma_strip_newlines_id(s: Seq<char>)
    requires
        forall|i: int| 0 <= i < s.len() ==> #[trigger] s[i] != '\n',
    ensures
        strip_newlines(s) == s,
    decreases s.len(),
{
    if s.len() == 0 {
        assert(strip_newlines(s) =~= s);
    } else {
        lemma_strip_newlines_id(s.drop_first());
        assert(seq![s[0]] + s.drop_first() =~= s);
    }
}

/// The record codec round-trips: parsing a formatted timestamp gives the
/// timestamp back.
pub proof fn lemma_timestamp_round_trip(t: u64)
    ensures
        spec_parse_timestamp(dec_digits(t as nat)) == Some(t),
{
    lemma_dec_digits_value(t as nat);
    let s = dec_digits(t as nat);
    assert forall|i: int| 0 <= i < s.len() implies #[trigger] s[i] != '\n' by {
        assert(is_dec_digit(s[i]));
    }
    lemma_strip_newlines_id(s);
}

/// Parses a success record; `None` on anything but a non-empty, in-range
/// decimal digit string (newlines are ignored).
pub fn parse_timestamp(s: &str) -> (r: Option<u64>)
    ensures
        r == spec_parse_timestamp(s@),
{
    let n = s.unicode_len();
    let mut val: u64 = 0;
    let mut seen: bool = false;
    let ghost mut acc: Seq<char> = Seq::empty();
    let mut i: usize = 0;
    proof {
        assert(acc =~= strip_newlines(s@.take(0)));
    }
    while i < n
        invariant
            n == s@.len(),
            i <= n,
            acc == strip_newlines(s@.take(i as int)),
            all_dec_digits(acc),
            digits_value(acc) == val as nat,
            seen == (acc.len() > 0),
        decreases n - i,
    {
        let c = s.get_char(i);
        proof {
            assert(s@.take(i as int).push(c) =~= s@.take(i + 1));
            lemma_strip_newlines_snoc(s@.take(i as int), c);
        }
        if c != '\n' {
            let d_opt = digit_of_char(c);
            proof {
                assert(s@.take(i + 1) + s@.skip(i + 1) =~= s@);
                lemma_strip_newlines_append(s@.take(i + 1), s@.skip(i + 1));
            }
            match d_opt {
                Option::None => {
                    proof {
                        let t = strip_newlines(s@);
                        assert(t[acc.len() as int] == c);
                        assert(!all_dec_digits(t));
                    }
                    return None;
                },
                Option::Some(d) => {
                    proof {
                        assert(acc.push(c).drop_last() =~= acc);
                        assert(acc.push(c).last() == c);
                        assert(digits_value(acc.push(c)) == (val as nat) * 10 + digit_val(c));
                    }
                    if val > (u64::MAX - d) / 10 {
                        proof {
                            let t = strip_newlines(s@);
                            assert(t.take(acc.len() as int + 1) =~= acc.push(c));
                            lemma_digits_value_take_le(t, acc.len() as int + 1);
                            assert((u64::MAX - d) / 10 * 10 + (u64::MAX - d) % 10 == u64::MAX - d);
                            assert((val as nat) * 10 + (d as nat) > u64::MAX);
                            assert(digits_value(t) > u64::MAX);
                        }
                        return None;
                    }
                    proof {
                        assert((val as nat) * 10 + (d as nat) <= u64::MAX);
                    }
                    val = val * 10 + d;
                    seen = true;
                    proof {
                        acc = acc.push(c);
                    }
                },
            }
        }
        i += 1;
    }
    proof {
        assert(s@.take(n as int) =~= s@);
    }
    if seen {
        Some(val)
    } else {
        None
    }
}

} // verus!
