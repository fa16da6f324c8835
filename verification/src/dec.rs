use vstd::prelude::*;
use vstd::string::*;

verus! {

/// An ASCII decimal digit.
pub open spec fn is_dec_digit(c: char) -> bool {
    48 <= c as int <= 57
}

/// The numeric value of a decimal digit character.
pub open spec fn dec_digit_val(c: char) -> int {
    c as int - 48
}

/// The digit character for a value below 10.
pub open spec fn dec_char(v: int) -> char
    recommends
        0 <= v <= 9,
{
    if v == 0 {
        '0'
    } else if v == 1 {
        '1'
    } else if v == 2 {
        '2'
    } else if v == 3 {
        '3'
    } else if v == 4 {
        '4'
    } else if v == 5 {
        '5'
    } else if v == 6 {
        '6'
    } else if v == 7 {
        '7'
    } else if v == 8 {
        '8'
    } else {
        '9'
    }
}

/// A non-empty string of decimal digits.
pub open spec fn valid_dec(s: Seq<char>) -> bool {
    s.len() > 0 && forall|i: int| 0 <= i < s.len() ==> is_dec_digit(#[trigger] s[i])
}

/// The number a digit string denotes, most significant digit first.
pub open spec fn dec_value(s: Seq<char>) -> int
    recommends
        valid_dec(s),
    decreases s.len(),
{
    if s.len() == 0 {
        0
    } else {
        dec_value(s.drop_last()) * 10 + dec_digit_val(s.last())
    }
}

/// What parsing a string as a `u64` yields: the denoted number, when the
/// string is all digits, non-empty, and the number fits.
pub open spec fn parse_u64_spec(s: Seq<char>) -> Option<u64> {
    if valid_dec(s) && dec_value(s) <= u64::MAX {
        Some(dec_value(s) as u64)
    } else {
        None
    }
}

/// The canonical decimal rendering of a non-negative number: no sign, no
/// leading zero except for zero itself.
pub open spec fn u64_to_dec(n: int) -> Seq<char>
    recommends
        0 <= n,
    decreases n,
{
    if n <= 9 {
        seq![dec_char(n)]
    } else {
        u64_to_dec(n / 10).push(dec_char(n % 10))
    }
}

/// The value of every digit prefix is at most the value of the whole digit
/// string.
proof fn lemma_dec_value_take_le(s: Seq<char>, k: int)
    requires
        0 <= k <= s.len(),
        forall|i: int| 0 <= i < s.len() ==> is_dec_digit(#[trigger] s[i]),
    ensures
        0 <= dec_value(s.take(k)) <= dec_value(s),
    decreases s.len() - k,
{
    if k == s.len() {
        assert(s.take(k) =~= s);
        lemma_dec_value_nonneg(s);
    } else {
        lemma_dec_value_take_le(s, k + 1);
        assert(s.take(k + 1).drop_last() =~= s.take(k));
        assert(dec_value(s.take(k + 1)) == dec_value(s.take(k)) * 10 + dec_digit_val(
            s.take(k + 1).last(),
        ));
        lemma_dec_value_nonneg(s.take(k));
    }
}

/// The value of a digit string is never negative.
proof fn lemma_dec_value_nonneg(s: Seq<char>)
    requires
        forall|i: int| 0 <= i < s.len() ==> is_dec_digit(#[trigger] s[i]),
    ensures
        0 <= dec_value(s),
    decreases s.len(),
{
    if s.len() > 0 {
        lemma_dec_value_nonneg(s.drop_last());
    }
}

/// Parses a string as a `u64`: all decimal digits, non-empty, in range.
pub fn parse_u64(s: &str) -> (r: Option<u64>)
    ensures
        r == parse_u64_spec(s@),
{
    let n = s.unicode_len();
    if n == 0 {
        return None;
    }
    let mut acc: u64 = 0;
    let mut i: usize = 0;
    while i < n
        invariant
            n == s@.len(),
            0 < n,
            i <= n,
            forall|j: int| 0 <= j < i ==> is_dec_digit(#[trigger] s@[j]),
            acc == dec_value(s@.take(i as int)),
        decreases n - i,
    {
        let c = s.get_char(i);
        let cv = c as u32;
        if cv < 48 || cv > 57 {
            return None;
        }
        let d: u64 = (cv - 48) as u64;
        proof {
            assert(s@.take(i as int + 1).drop_last() =~= s@.take(i as int));
            lemma_dec_value_nonneg(s@.take(i as int));
        }
        if acc > (u64::MAX - d) / 10 {
            proof {
                assert(dec_value(s@.take(i as int + 1)) == acc * 10 + d);
                assert(acc * 10 + d > u64::MAX) by (nonlinear_arith)
                    requires
                        acc > (u64::MAX - d) / 10,
                        d <= 9,
                ;
                if valid_dec(s@) && dec_value(s@) <= u64::MAX {
                    lemma_dec_value_take_le(s@, i as int + 1);
                }
            }
            return None;
        }
        proof {
            assert(acc * 10 + d <= u64::MAX) by (nonlinear_arith)
                requires
                    acc <= (u64::MAX - d) / 10,
                    d <= 9,
            ;
        }
        acc = acc * 10 + d;
        i += 1;
    }
    proof {
        assert(s@.take(n as int) =~= s@);
    }
    Some(acc)
}

fn dec_char_str(v: u64) -> (r: &'static str)
    requires
        v <= 9,
    ensures
        r@ =~= seq![dec_char(v as int)],
{
    proof {
        reveal_strlit("0");
        reveal_strlit("1");
        reveal_strlit("2");
        reveal_strlit("3");
        reveal_strlit("4");
        reveal_strlit("5");
        reveal_strlit("6");
        reveal_strlit("7");
        reveal_strlit("8");
        reveal_strlit("9");
    }
    if v == 0 {
        "0"
    } else if v == 1 {
        "1"
    } else if v == 2 {
        "2"
    } else if v == 3 {
        "3"
    } else if v == 4 {
        "4"
    } else if v == 5 {
        "5"
    } else if v == 6 {
        "6"
    } else if v == 7 {
        "7"
    } else if v == 8 {
        "8"
    } else {
        "9"
    }
}

/// Renders a number in decimal, most significant digit first.
pub fn u64_to_dec_string(n: u64) -> (r: String)
    ensures
        r@ == u64_to_dec(n as int),
{
    let mut digits: Vec<u64> = Vec::new();
    let mut m: u64 = n;
    loop
        invariant_except_break
            digits@.len() == 0 || m > 0,
            digits@.len() == 0 ==> u64_to_dec(n as int) == u64_to_dec(m as int),
            digits@.len() > 0 && m > 0 ==> u64_to_dec(n as int) == u64_to_dec(m as int)
                + Seq::new(
                digits@.len(),
                |p: int| dec_char(digits@[digits@.len() - 1 - p] as int),
            ),
        invariant
            forall|j: int| 0 <= j < digits@.len() ==> 0 <= #[trigger] digits@[j] <= 9,
            m == 0 && digits@.len() > 0 ==> u64_to_dec(n as int) == Seq::new(
                digits@.len(),
                |p: int| dec_char(digits@[digits@.len() - 1 - p] as int),
            ),
        ensures
            digits@.len() > 0,
            forall|j: int| 0 <= j < digits@.len() ==> 0 <= #[trigger] digits@[j] <= 9,
            u64_to_dec(n as int) == Seq::new(
                digits@.len(),
                |p: int| dec_char(digits@[digits@.len() - 1 - p] as int),
            ),
        decreases m, (if digits@.len() == 0 { 1int } else { 0int }),
    {
        let d = m % 10;
        let m2 = m / 10;
        proof {
            let k = digits@.len() as int;
            let olddigits = digits@;
            let newdigits = digits@.push(d);
            let disp_old = Seq::new(k as nat, |p: int| dec_char(olddigits[k - 1 - p] as int));
            let disp_new = Seq::new(
                (k + 1) as nat,
                |p: int| dec_char(newdigits[k - p] as int),
            );
            assert(disp_new =~= seq![dec_char(d as int)] + disp_old);
            if m > 9 {
                assert(u64_to_dec(m as int) == u64_to_dec(m2 as int).push(dec_char(d as int)));
                assert(u64_to_dec(m2 as int).push(dec_char(d as int)) =~= u64_to_dec(m2 as int)
                    + seq![dec_char(d as int)]);
                if k == 0 {
                    assert(u64_to_dec(n as int) == u64_to_dec(m as int));
                    assert(u64_to_dec(m as int) =~= u64_to_dec(m2 as int) + disp_new);
                } else {
                    assert(u64_to_dec(n as int) == u64_to_dec(m as int) + disp_old);
                    assert((u64_to_dec(m2 as int) + seq![dec_char(d as int)]) + disp_old
                        =~= u64_to_dec(m2 as int) + disp_new);
                }
            } else {
                assert(u64_to_dec(m as int) == seq![dec_char(d as int)]);
                if k == 0 {
                    assert(u64_to_dec(n as int) =~= disp_new);
                } else {
                    assert(u64_to_dec(n as int) == u64_to_dec(m as int) + disp_old);
                    assert(seq![dec_char(d as int)] + disp_old =~= disp_new);
                }
            }
        }
        digits.push(d);
        m = m2;
        if m == 0 {
            break;
        }
    }
    let mut out = String::new();
    let mut i: usize = digits.len();
    let ghost target = u64_to_dec(n as int);
    proof {
        assert(target.take(0) =~= out@);
    }
    while i > 0
        invariant
            target == u64_to_dec(n as int),
            target == Seq::new(
                digits@.len(),
                |p: int| dec_char(digits@[digits@.len() - 1 - p] as int),
            ),
            forall|j: int| 0 <= j < digits@.len() ==> 0 <= #[trigger] digits@[j] <= 9,
            i <= digits@.len(),
            out@ == target.take(digits@.len() - i),
        decreases i,
    {
        let piece = dec_char_str(digits[i - 1]);
        out.append(piece);
        proof {
            assert(out@ =~= target.take(digits@.len() - (i as int - 1)));
        }
        i -= 1;
    }
    proof {
        assert(target.take(digits@.len() as int) =~= target);
    }
    out
}

/// The digit character of a value below 10 is a digit and denotes the value.
proof fn lemma_dec_char_val(v: int)
    requires
        0 <= v <= 9,
    ensures
        is_dec_digit(dec_char(v)),
        dec_digit_val(dec_char(v)) == v,
{
}

/// A rendered number is all digits and denotes the number again.
proof fn lemma_u64_to_dec_props(n: int)
    requires
        0 <= n,
    ensures
        valid_dec(u64_to_dec(n)),
        dec_value(u64_to_dec(n)) == n,
    decreases n,
{
    if n <= 9 {
        lemma_dec_char_val(n);
        let s = u64_to_dec(n);
        assert(s == seq![dec_char(n)]);
        assert(s.drop_last() =~= Seq::<char>::empty());
        assert(dec_value(s) == dec_value(s.drop_last()) * 10 + dec_digit_val(s.last()));
    } else {
        lemma_u64_to_dec_props(n / 10);
        lemma_dec_char_val(n % 10);
        let s = u64_to_dec(n);
        let pre = u64_to_dec(n / 10);
        assert(s == pre.push(dec_char(n % 10)));
        assert(s.drop_last() =~= pre);
        assert(s.last() == dec_char(n % 10));
        assert forall|i: int| 0 <= i < s.len() implies is_dec_digit(#[trigger] s[i]) by {
            if i < s.len() - 1 {
                assert(s[i] == pre[i]);
                assert(is_dec_digit(pre[i]));
            }
        }
        assert(dec_value(s) == dec_value(pre) * 10 + dec_digit_val(dec_char(n % 10)));
        assert(dec_value(s) == (n / 10) * 10 + n % 10);
    }
}

/// Round trip: parsing a rendered number gives the number back.
pub proof fn lemma_dec_round_trip(n: u64)
    ensures
        parse_u64_spec(u64_to_dec(n as int)) == Some(n),
{
    lemma_u64_to_dec_props(n as int);
}

} // verus!
