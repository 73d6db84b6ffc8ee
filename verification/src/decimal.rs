//! Decimal text for the numeric store attribute. The store carries numbers
//! as decimal strings; the creation instant is written with [`format_i64`]
//! and read back with [`parse_i64`], both against an exact grammar:
//! an optional sign, one or more digits, and a value that fits in `i64`.

use vstd::prelude::*;

verus! {

/// The magnitude of `i64::MIN`, the largest magnitude a parsed value may have.
pub const MIN_MAGNITUDE: u128 = 9223372036854775808;

/// Whether `c` is an ASCII decimal digit.
pub open spec fn is_digit(c: char) -> bool {
    48 <= c as int <= 57
}

/// The numeric value of an ASCII decimal digit.
pub open spec fn digit_val(c: char) -> int {
    c as int - 48
}

/// The digit character for a value between 0 and 9.
pub open spec fn digit_char(d: int) -> char {
    if d == 0 {
        '0'
    } else if d == 1 {
        '1'
    } else if d == 2 {
        '2'
    } else if d == 3 {
        '3'
    } else if d == 4 {
        '4'
    } else if d == 5 {
        '5'
    } else if d == 6 {
        '6'
    } else if d == 7 {
        '7'
    } else if d == 8 {
        '8'
    } else {
        '9'
    }
}

/// Whether every character of `s` is an ASCII decimal digit.
pub open spec fn all_digits(s: Seq<char>) -> bool {
    forall|i: int| 0 <= i < s.len() ==> is_digit(s[i])
}

/// The value of a sequence of digits read in base ten.
pub open spec fn dec_val(s: Seq<char>) -> int
    decreases s.len(),
{
    if s.len() == 0 {
        0
    } else {
        dec_val(s.drop_last()) * 10 + digit_val(s.last())
    }
}

/// What parsing a decimal string as an `i64` yields: `Some` exactly when the
/// text is an optional `+` or `-` sign followed by one or more digits and the
/// signed value fits in `i64`.
pub open spec fn parse_i64_spec(s: Seq<char>) -> Option<int> {
    let digits = if s.len() > 0 && (s[0] == '-' || s[0] == '+') {
        s.subrange(1, s.len() as int)
    } else {
        s
    };
    if digits.len() == 0 || !all_digits(digits) {
        None
    } else {
        let v = if s.len() > 0 && s[0] == '-' {
            -dec_val(digits)
        } else {
            dec_val(digits)
        };
        if i64::MIN <= v <= i64::MAX {
            Some(v)
        } else {
            None
        }
    }
}

/// The decimal digits of a non-negative value, most significant first.
pub open spec fn dec_digits(n: nat) -> Seq<char>
    decreases n,
{
    if n < 10 {
        seq![digit_char(n as int)]
    } else {
        dec_digits(n / 10) + seq![digit_char((n % 10) as int)]
    }
}

/// The decimal text of a value: a `-` sign for negative values, then digits.
pub open spec fn dec_str(v: int) -> Seq<char> {
    if v < 0 {
        seq!['-'] + dec_digits((-v) as nat)
    } else {
        dec_digits(v as nat)
    }
}

/// A digit sequence has a non-negative value.
proof fn lemma_dec_val_nonneg(s: Seq<char>)
    requires
        all_digits(s),
    ensures
        dec_val(s) >= 0,
    decreases s.len(),
{
    if s.len() > 0 {
        assert(all_digits(s.drop_last()));
        lemma_dec_val_nonneg(s.drop_last());
    }
}

/// Extending a digit sequence by one digit multiplies its value by ten and
/// adds that digit.
proof fn lemma_dec_val_snoc(s: Seq<char>, c: char)
    ensures
        dec_val(s + seq![c]) == dec_val(s) * 10 + digit_val(c),
{
    let t = s + seq![c];
    assert(t.drop_last() =~= s);
    assert(t.last() == c);
}

/// The value of a digit sequence is at least the value of any of its
/// prefixes.
proof fn lemma_dec_val_prefix_le(s: Seq<char>, k: int)
    requires
        all_digits(s),
        0 <= k <= s.len(),
    ensures
        dec_val(s.subrange(0, k)) <= dec_val(s),
    decreases s.len() - k,
{
    if k == s.len() {
        assert(s.subrange(0, k) =~= s);
    } else {
        let p = s.subrange(0, k);
        let q = s.subrange(0, k + 1);
        assert(q =~= p + seq![s[k]]);
        lemma_dec_val_snoc(p, s[k]);
        assert(all_digits(p));
        lemma_dec_val_nonneg(p);
        lemma_dec_val_prefix_le(s, k + 1);
    }
}

/// Parses a decimal string as an `i64`, accepting exactly the strings that
/// [`parse_i64_spec`] accepts.
pub fn parse_i64(s: &str) -> (r: Option<i64>)
    ensures
        r is Some <==> parse_i64_spec(s@) is Some,
        r matches Some(v) ==> parse_i64_spec(s@) == Some(v as int),
{
    let len = s.unicode_len();
    if len == 0 {
        return None;
    }
    let first = s.get_char(0);
    let fc = first as u32;
    let neg = fc == 45;
    let start: usize = if fc == 45 || fc == 43 {
        1
    } else {
        0
    };
    let ghost digits: Seq<char> = if start == 1 {
        s@.subrange(1, s@.len() as int)
    } else {
        s@
    };
    if start == len {
        return None;
    }
    let mut i = start;
    let mut acc: u128 = 0;
    while i < len
        invariant
            start <= i <= len,
            len == s@.len(),
            start == 0 || start == 1,
            start == 1 ==> (s@[0] == '-' || s@[0] == '+'),
            start == 0 ==> !(s@[0] == '-' || s@[0] == '+'),
            neg <==> (s@[0] == '-'),
            digits == (if start == 1 {
                s@.subrange(1, s@.len() as int)
            } else {
                s@
            }),
            all_digits(s@.subrange(start as int, i as int)),
            acc == dec_val(s@.subrange(start as int, i as int)),
            acc <= MIN_MAGNITUDE,
        decreases len - i,
    {
        let c = s.get_char(i);
        let d = c as u32;
        let ghost pre = s@.subrange(start as int, i as int);
        let ghost cur = s@.subrange(start as int, i as int + 1);
        proof {
            assert(cur =~= pre + seq![s@[i as int]]);
            lemma_dec_val_snoc(pre, s@[i as int]);
        }
        if d < 48 || d > 57 {
            proof {
                assert(digits[i - start] == s@[i as int]);
                assert(!is_digit(digits[i - start]));
            }
            return None;
        }
        acc = acc * 10 + ((d - 48) as u128);
        if acc > MIN_MAGNITUDE {
            proof {
                assert(dec_val(cur) == acc);
                if all_digits(digits) {
                    assert(cur =~= digits.subrange(0, i as int + 1 - start as int));
                    lemma_dec_val_prefix_le(digits, i as int + 1 - start as int);
                    lemma_dec_val_nonneg(digits);
                    assert(dec_val(digits) >= acc > MIN_MAGNITUDE);
                }
            }
            return None;
        }
        i += 1;
    }
    proof {
        assert(s@.subrange(start as int, len as int) =~= digits);
        lemma_dec_val_nonneg(digits);
    }
    if neg {
        if acc == MIN_MAGNITUDE {
            Some(i64::MIN)
        } else {
            Some(-(acc as i64))
        }
    } else {
        if acc == MIN_MAGNITUDE {
            None
        } else {
            Some(acc as i64)
        }
    }
}

/// Appends the decimal digits of `m` to `out`, most significant first.
fn push_digits(out: &mut String, m: u64)
    ensures
        final(out)@ == old(out)@ + dec_digits(m as nat),
    decreases m,
{
    if m < 10 {
        out.append(digit_str(m));
    } else {
        proof {
            assert(m / 10 < m) by (nonlinear_arith)
                requires
                    m >= 10,
            ;
        }
        push_digits(out, m / 10);
        out.append(digit_str(m % 10));
        proof {
            assert(old(out)@ + dec_digits((m / 10) as nat) + seq![digit_char((m % 10) as int)]
                =~= old(out)@ + dec_digits(m as nat));
        }
    }
}

/// The one-character string for a digit value.
fn digit_str(d: u64) -> (r: &'static str)
    requires
        d < 10,
    ensures
        r@ =~= seq![digit_char(d as int)],
{
    proof {
        reveal_strlit("0");
        reveal_strlit("1");
        reveal_strlit("2");
        reveal_strlit("3");
        reveal_strlit("4");
        reveal_strlit("5");
        reveal_strlit("6");
        reveal_strlit("7");
        reveal_strlit("8");
        reveal_strlit("9");
    }
    match d {
        0 => "0",
        1 => "1",
        2 => "2",
        3 => "3",
        4 => "4",
        5 => "5",
        6 => "6",
        7 => "7",
        8 => "8",
        _ => "9",
    }
}

/// Renders a value as decimal text, exactly [`dec_str`].
pub fn format_i64(v: i64) -> (r: String)
    ensures
        r@ == dec_str(v as int),
{
    let mut out = String::new();
    if v < 0 {
        proof {
            reveal_strlit("-");
            assert("-"@ =~= seq!['-']);
        }
        out.append("-");
        let m: u64 = if v == i64::MIN {
            9223372036854775808u64
        } else {
            (-v) as u64
        };
        push_digits(&mut out, m);
        proof {
            assert(Seq::<char>::empty() + seq!['-'] + dec_digits(m as nat)
                =~= seq!['-'] + dec_digits((-(v as int)) as nat));
        }
    } else {
        push_digits(&mut out, v as u64);
        proof {
            assert(Seq::<char>::empty() + dec_digits((v as u64) as nat)
                =~= dec_digits((v as int) as nat));
        }
    }
    out
}

/// Every character produced by [`dec_digits`] is a digit.
proof fn lemma_dec_digits_all_digits(n: nat)
    ensures
        all_digits(dec_digits(n)),
        dec_digits(n).len() >= 1,
    decreases n,
{
    if n >= 10 {
        lemma_dec_digits_all_digits(n / 10);
        assert(forall|i: int| 0 <= i < dec_digits(n).len() ==> is_digit(
            #[trigger] dec_digits(n)[i],
        )) by {
            assert(forall|i: int| 0 <= i < dec_digits(n / 10).len() ==> is_digit(
                #[trigger] dec_digits(n / 10)[i],
            ));
            assert(dec_digits(n).last() == digit_char((n % 10) as int));
        }
    }
}

/// Reading the digits of `n` back in base ten yields `n`.
proof fn lemma_dec_val_of_dec_digits(n: nat)
    ensures
        dec_val(dec_digits(n)) == n,
    decreases n,
{
    if n < 10 {
        assert(dec_digits(n) =~= Seq::<char>::empty() + seq![digit_char(n as int)]);
        lemma_dec_val_snoc(Seq::<char>::empty(), digit_char(n as int));
    } else {
        lemma_dec_val_of_dec_digits(n / 10);
        lemma_dec_val_snoc(dec_digits(n / 10), digit_char((n % 10) as int));
    }
}

/// Round trip: parsing the decimal text of any `i64` value yields that value.
pub proof fn lemma_parse_dec_str(v: int)
    requires
        i64::MIN <= v <= i64::MAX,
    ensures
        parse_i64_spec(dec_str(v)) == Some(v),
{
    if v < 0 {
        let mag = (-v) as nat;
        let s = seq!['-'] + dec_digits(mag);
        lemma_dec_digits_all_digits(mag);
        lemma_dec_val_of_dec_digits(mag);
        assert(s[0] == '-');
        assert(s.subrange(1, s.len() as int) =~= dec_digits(mag));
    } else {
        let mag = v as nat;
        let s = dec_digits(mag);
        lemma_dec_digits_all_digits(mag);
        lemma_dec_val_of_dec_digits(mag);
        assert(is_digit(s[0]));
        assert(s[0] != '-' && s[0] != '+');
    }
}

} // verus!
