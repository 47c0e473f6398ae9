//! Decimal numerals: rendering integers the way `ToString` does and parsing
//! them the way `str::parse::<i64>` does.

use vstd::prelude::*;

verus! {

/// The decimal digit character for `d`.
pub open spec fn digit_char(d: int) -> char {
    if d == 0 {
        '0'
    } else if d == 1 {
        '1'
    } else if d == 2 {
        '2'
    } else if d == 3 {
        '3'
    } else if d == 4 {
        '4'
    } else if d == 5 {
        '5'
    } else if d == 6 {
        '6'
    } else if d == 7 {
        '7'
    } else if d == 8 {
        '8'
    } else {
        '9'
    }
}

/// Decimal numeral of a natural number, most significant digit first.
pub open spec fn dec_str_nat(n: nat) -> Seq<char>
    decreases n,
{
    if n < 10 {
        seq![digit_char(n as int)]
    } else {
        dec_str_nat(n / 10).push(digit_char((n % 10) as int))
    }
}

/// Decimal numeral of an integer: a leading `-` for negative values.
pub open spec fn dec_str_int(n: int) -> Seq<char> {
    if n < 0 {
        seq!['-'] + dec_str_nat((-n) as nat)
    } else {
        dec_str_nat(n as nat)
    }
}

/// The one-character string for decimal digit `d`.
fn digit_str(d: u8) -> (r: &'static str)
    requires
        d < 10,
    ensures
        r@ == seq![digit_char(d as int)],
{
    proof {
        reveal_strlit("0");
        reveal_strlit("1");
        reveal_strlit("2");
        reveal_strlit("3");
        reveal_strlit("4");
        reveal_strlit("5");
        reveal_strlit("6");
        reveal_strlit("7");
        reveal_strlit("8");
        reveal_strlit("9");
    }
    match d {
        0 => "0",
        1 => "1",
        2 => "2",
        3 => "3",
        4 => "4",
        5 => "5",
        6 => "6",
        7 => "7",
        8 => "8",
        _ => "9",
    }
}

/// Renders `u` in decimal, as `u64::to_string` does.
pub fn u64_to_dec(u: u64) -> (r: String)
    ensures
        r@ == dec_str_nat(u as nat),
    decreases u,
{
    if u < 10 {
        String::from_str(digit_str(u as u8))
    } else {
        let rest = u64_to_dec(u / 10);
        rest.concat(digit_str((u % 10) as u8))
    }
}

/// Renders `n` in decimal, as `i64::to_string` does.
pub fn i64_to_dec(n: i64) -> (r: String)
    ensures
        r@ == dec_str_int(n as int),
{
    if n >= 0 {
        u64_to_dec(n as u64)
    } else {
        let mag: u64 = (-(n as i128)) as u64;
        proof {
            reveal_strlit("-");
        }
        let s = String::from_str("-");
        s.concat(u64_to_dec(mag).as_str())
    }
}

/// Whether `c` is a decimal digit.
pub open spec fn is_digit(c: char) -> bool {
    0x30 <= c as u32 && c as u32 <= 0x39
}

/// The value of digit `c`.
pub open spec fn digit_val(c: char) -> int {
    c as u32 - 0x30
}

/// Whether every character of `s` is a decimal digit.
pub open spec fn all_digits(s: Seq<char>) -> bool {
    forall|i: int| 0 <= i < s.len() ==> is_digit(#[trigger] s[i])
}

/// The value of the digit string `s`.
pub open spec fn dec_val(s: Seq<char>) -> int
    decreases s.len(),
{
    if s.len() == 0 {
        0
    } else {
        dec_val(s.drop_last()) * 10 + digit_val(s.last())
    }
}

proof fn lemma_dec_val_nonneg(s: Seq<char>)
    requires
        all_digits(s),
    ensures
        dec_val(s) >= 0,
    decreases s.len(),
{
    if s.len() > 0 {
        assert(all_digits(s.drop_last())) by {
            assert(forall|i: int| 0 <= i < s.len() - 1 ==> s.drop_last()[i] == #[trigger] s[i]);
        }
        lemma_dec_val_nonneg(s.drop_last());
    }
}

/// Appending digits never shrinks the value of a digit string.
proof fn lemma_dec_val_extend(t: Seq<char>, k: int)
    requires
        all_digits(t),
        0 <= k <= t.len(),
    ensures
        dec_val(t) >= dec_val(t.subrange(0, k)),
    decreases t.len() - k,
{
    lemma_dec_val_nonneg(t);
    if k < t.len() {
        lemma_dec_val_extend(t, k + 1);
        let p = t.subrange(0, k + 1);
        assert(p.drop_last() =~= t.subrange(0, k));
        assert(all_digits(t.subrange(0, k))) by {
            assert(forall|i: int|
                0 <= i < k ==> t.subrange(0, k)[i] == #[trigger] t[i]);
        }
        lemma_dec_val_nonneg(t.subrange(0, k));
        assert(dec_val(p) == dec_val(t.subrange(0, k)) * 10 + digit_val(t[k]));
        assert(dec_val(t.subrange(0, k)) * 10 >= dec_val(t.subrange(0, k))) by (nonlinear_arith)
            requires
                dec_val(t.subrange(0, k)) >= 0,
        ;
    } else {
        assert(t.subrange(0, k) =~= t);
    }
}

/// What `str::parse::<i64>` returns on `s`: an optional ASCII sign followed
/// by at least one digit, the whole value within `i64` range.
pub open spec fn parse_i64_of(s: Seq<char>) -> Option<i64> {
    let neg = s.len() > 0 && s[0] == '-';
    let signed = s.len() > 0 && (s[0] == '-' || s[0] == '+');
    let ds = if signed {
        s.drop_first()
    } else {
        s
    };
    if ds.len() == 0 || !all_digits(ds) {
        None
    } else {
        let v = if neg {
            -dec_val(ds)
        } else {
            dec_val(ds)
        };
        if i64::MIN <= v <= i64::MAX {
            Some(v as i64)
        } else {
            None
        }
    }
}

/// Parses a decimal integer exactly as `str::parse::<i64>` does.
pub fn parse_i64(s: &str) -> (r: Option<i64>)
    ensures
        r == parse_i64_of(s@),
{
    let n = s.unicode_len();
    if n == 0 {
        return None;
    }
    let c0 = s.get_char(0);
    let neg = c0 == '-';
    let signed = neg || c0 == '+';
    let start: usize = if signed {
        1
    } else {
        0
    };
    let ghost ds = if signed {
        s@.drop_first()
    } else {
        s@
    };
    proof {
        assert(forall|i: int| 0 <= i < ds.len() ==> ds[i] == s@[i + start]);
    }
    if start == n {
        return None;
    }
    let bound: i128 = 9223372036854775808i128;
    let mut acc: i128 = 0;
    let mut i: usize = start;
    while i < n
        invariant
            start <= i <= n,
            n == s@.len(),
            n >= 1,
            neg == (s@[0] == '-'),
            signed == (s@[0] == '-' || s@[0] == '+'),
            start == if signed { 1int } else { 0int },
            ds == if signed { s@.drop_first() } else { s@ },
            ds.len() == n - start,
            forall|j: int| 0 <= j < ds.len() ==> ds[j] == s@[j + start],
            forall|j: int| 0 <= j < i - start ==> is_digit(#[trigger] ds[j]),
            acc == dec_val(ds.subrange(0, i - start)),
            0 <= acc <= bound,
            bound == 0x8000_0000_0000_0000,
        decreases n - i,
    {
        let c = s.get_char(i);
        let u = c as u32;
        if !(0x30 <= u && u <= 0x39) {
            proof {
                assert(ds[i - start] == s@[i as int]);
                assert(!is_digit(ds[i - start]));
                assert(!all_digits(ds));
            }
            return None;
        }
        let d = (u - 0x30) as i128;
        proof {
            let p = ds.subrange(0, i + 1 - start);
            assert(p.drop_last() =~= ds.subrange(0, i - start));
            assert(p.last() == ds[i - start]);
            assert(digit_val(p.last()) == u - 0x30);
            assert(dec_val(p) == dec_val(ds.subrange(0, i - start)) * 10 + (u - 0x30));
        }
        acc = acc * 10 + d;
        i = i + 1;
        proof {
            assert(acc == dec_val(ds.subrange(0, i - start)));
        }
        if acc > bound {
            // The digits seen already exceed every representable magnitude.
            proof {
                if all_digits(ds) {
                    lemma_dec_val_extend(ds, i - start);
                    assert(dec_val(ds) >= acc);
                    assert(dec_val(ds) > 0x8000_0000_0000_0000);
                    assert(parse_i64_of(s@) is None);
                } else {
                    assert(parse_i64_of(s@) is None);
                }
            }
            return None;
        }
    }
    proof {
        assert(ds.subrange(0, ds.len() as int) =~= ds);
    }
    if neg {
        let v = -acc;
        assert(i64::MIN <= v <= i64::MAX);
        Some(v as i64)
    } else {
        if acc == bound {
            return None;
        }
        Some(acc as i64)
    }
}

/// What `str::parse::<bool>` returns: `true` and `false` alone are accepted.
pub open spec fn parse_bool_of(s: Seq<char>) -> Option<bool> {
    if s == "true"@ {
        Some(true)
    } else if s == "false"@ {
        Some(false)
    } else {
        None
    }
}

/// Parses a boolean exactly as `str::parse::<bool>` does.
pub fn parse_bool(s: &str) -> (r: Option<bool>)
    ensures
        r == parse_bool_of(s@),
{
    if crate::text::str_eq(s, "true") {
        Some(true)
    } else if crate::text::str_eq(s, "false") {
        Some(false)
    } else {
        None
    }
}

} // verus!
