//! Decimal cursor strings. A record's externally visible id is the decimal
//! encoding of its cursor; a subscription's resume cursor arrives as such a
//! string and must parse back to a non-negative integer.

use vstd::prelude::*;
use vstd::string::*;
use vstd::arithmetic::div_mod::lemma_fundamental_div_mod;

verus! {

/// A decimal digit character.
pub open spec fn is_digit(c: char) -> bool {
    48 <= c as u32 && c as u32 <= 57
}

/// Numeric value of a decimal digit character.
pub open spec fn digit_val(c: char) -> nat {
    (c as u32 - 48) as nat
}

/// Every character of `s` is a decimal digit.
pub open spec fn all_digits(s: Seq<char>) -> bool {
    forall|i: int| 0 <= i < s.len() ==> is_digit(s[i])
}

/// The number a digit string denotes, most significant digit first.
pub open spec fn dec_value(s: Seq<char>) -> nat
    decreases s.len(),
{
    if s.len() == 0 {
        0
    } else {
        dec_value(s.drop_last()) * 10 + digit_val(s.last())
    }
}

/// The digit character of a value below ten.
pub open spec fn digit_char(d: nat) -> char {
    if d == 0 {
        '0'
    } else if d == 1 {
        '1'
    } else if d == 2 {
        '2'
    } else if d == 3 {
        '3'
    } else if d == 4 {
        '4'
    } else if d == 5 {
        '5'
    } else if d == 6 {
        '6'
    } else if d == 7 {
        '7'
    } else if d == 8 {
        '8'
    } else {
        '9'
    }
}

/// The canonical decimal encoding of a number: no sign, no leading zeros
/// (except for zero itself).
pub open spec fn dec_digits(n: nat) -> Seq<char>
    decreases n,
{
    if n < 10 {
        seq![digit_char(n)]
    } else {
        dec_digits(n / 10).push(digit_char(n % 10))
    }
}

/// What cursor-string parsing returns: the denoted number, provided the
/// string is a non-empty run of digits whose value fits in `usize`.
pub open spec fn parse_spec(s: Seq<char>) -> Option<usize> {
    if s.len() > 0 && all_digits(s) && dec_value(s) <= usize::MAX {
        Some(dec_value(s) as usize)
    } else {
        None
    }
}

/// A longer digit string never denotes a smaller number: the value of a
/// prefix is a lower bound for the value of the whole string.
proof fn lemma_dec_value_prefix(s: Seq<char>, j: int)
    requires
        0 <= j <= s.len(),
    ensures
        dec_value(s.take(j)) <= dec_value(s),
    decreases s.len() - j,
{
    if j == s.len() {
        assert(s.take(j) =~= s);
    } else {
        assert(s.take(j + 1).drop_last() =~= s.take(j));
        assert(dec_value(s.take(j + 1)) == dec_value(s.take(j)) * 10 + digit_val(s.take(j + 1).last()));
        lemma_dec_value_prefix(s, j + 1);
    }
}

/// Parse a cursor string: `Some(n)` exactly when the string is a non-empty
/// sequence of decimal digits denoting `n`, and `n` fits in `usize`.
pub fn parse_cursor(s: &str) -> (r: Option<usize>)
    ensures
        r == parse_spec(s@),
{
    let len = s.unicode_len();
    if len == 0 {
        return None;
    }
    let max_div: usize = usize::MAX / 10;
    let max_mod: usize = usize::MAX % 10;
    let mut acc: usize = 0;
    let mut i: usize = 0;
    while i < len
        invariant
            0 < len == s@.len(),
            i <= len,
            all_digits(s@.take(i as int)),
            acc == dec_value(s@.take(i as int)),
            max_div == usize::MAX / 10,
            max_mod == usize::MAX % 10,
        decreases len - i,
    {
        let c = s.get_char(i);
        let cv = c as u32;
        if cv < 48 || cv > 57 {
            assert(!is_digit(s@[i as int]));
            return None;
        }
        let d = (cv - 48) as usize;
        proof {
            assert(s@.take(i + 1).drop_last() =~= s@.take(i as int));
            assert(s@.take(i + 1).last() == s@[i as int]);
        }
        if acc > max_div || (acc == max_div && d > max_mod) {
            proof {
                assert(dec_value(s@.take(i + 1)) == acc * 10 + d);
                assert(acc * 10 + d > usize::MAX);
                lemma_dec_value_prefix(s@, i + 1);
            }
            return None;
        }
        assert(acc * 10 + d <= usize::MAX);
        acc = acc * 10 + d;
        i = i + 1;
    }
    proof {
        assert(s@.take(len as int) =~= s@);
    }
    Some(acc)
}

/// The single-character string of a decimal digit.
fn digit_str(d: usize) -> (r: &'static str)
    requires
        d < 10,
    ensures
        r@ == seq![digit_char(d as nat)],
{
    if d == 0 {
        proof { reveal_strlit("0"); }
        let r = "0";
        assert(r@ =~= seq![digit_char(0)]);
        r
    } else if d == 1 {
        proof { reveal_strlit("1"); }
        let r = "1";
        assert(r@ =~= seq![digit_char(1)]);
        r
    } else if d == 2 {
        proof { reveal_strlit("2"); }
        let r = "2";
        assert(r@ =~= seq![digit_char(2)]);
        r
    } else if d == 3 {
        proof { reveal_strlit("3"); }
        let r = "3";
        assert(r@ =~= seq![digit_char(3)]);
        r
    } else if d == 4 {
        proof { reveal_strlit("4"); }
        let r = "4";
        assert(r@ =~= seq![digit_char(4)]);
        r
    } else if d == 5 {
        proof { reveal_strlit("5"); }
        let r = "5";
        assert(r@ =~= seq![digit_char(5)]);
        r
    } else if d == 6 {
        proof { reveal_strlit("6"); }
        let r = "6";
        assert(r@ =~= seq![digit_char(6)]);
        r
    } else if d == 7 {
        proof { reveal_strlit("7"); }
        let r = "7";
        assert(r@ =~= seq![digit_char(7)]);
        r
    } else if d == 8 {
        proof { reveal_strlit("8"); }
        let r = "8";
        assert(r@ =~= seq![digit_char(8)]);
        r
    } else {
        proof { reveal_strlit("9"); }
        let r = "9";
        assert(r@ =~= seq![digit_char(9)]);
        r
    }
}

/// Encode a cursor as its decimal string.
pub fn cursor_to_id(n: usize) -> (r: String)
    ensures
        r@ == dec_digits(n as nat),
{
    if n == 0 {
        let r = String::from_str(digit_str(0));
        assert(r@ =~= dec_digits(0));
        return r;
    }
    let mut out = String::new();
    let mut m: usize = n;
    while m > 0
        invariant
            m > 0 ==> dec_digits(n as nat) =~= dec_digits(m as nat) + out@,
            m == 0 ==> dec_digits(n as nat) =~= out@,
        decreases m,
    {
        let d = m % 10;
        let ghost old_m = m as nat;
        let ghost old_out = out@;
        let ds = digit_str(d);
        let mut prefix = String::from_str(ds);
        prefix.append(out.as_str());
        out = prefix;
        m = m / 10;
        proof {
            if old_m < 10 {
                assert(dec_digits(old_m) =~= seq![digit_char(old_m)]);
                assert(dec_digits(n as nat) =~= out@);
            } else {
                assert(dec_digits(old_m) =~= dec_digits(old_m / 10).push(digit_char(old_m % 10)));
                assert(dec_digits(old_m) + old_out =~= dec_digits(m as nat) + out@);
                assert(dec_digits(n as nat) =~= dec_digits(m as nat) + out@);
            }
        }
    }
    assert(out@ =~= dec_digits(n as nat));
    out
}

/// The decimal encoding of a number is a non-empty digit string that denotes
/// exactly that number.
pub proof fn lemma_dec_digits_value(n: nat)
    ensures
        dec_digits(n).len() >= 1,
        all_digits(dec_digits(n)),
        dec_value(dec_digits(n)) == n,
    decreases n,
{
    if n < 10 {
        let s = dec_digits(n);
        assert(s =~= seq![digit_char(n)]);
        assert(s.drop_last() =~= Seq::<char>::empty());
        assert(dec_value(Seq::<char>::empty()) == 0);
        assert(s.last() == digit_char(n));
        assert(dec_value(s) == digit_val(digit_char(n)));
        assert(is_digit(digit_char(n)));
        assert(digit_val(digit_char(n)) == n);
    } else {
        lemma_dec_digits_value(n / 10);
        let s = dec_digits(n / 10);
        let w = s.push(digit_char(n % 10));
        assert(dec_digits(n) =~= w);
        assert(w.drop_last() =~= s);
        assert(w.last() == digit_char(n % 10));
        assert(is_digit(digit_char(n % 10)));
        assert(digit_val(digit_char(n % 10)) == n % 10);
        lemma_fundamental_div_mod(n as int, 10);
        assert(dec_value(w) == dec_value(s) * 10 + (n % 10));
        assert(forall|i: int| 0 <= i < w.len() ==> is_digit(w[i]));
    }
}

/// Round trip: a record's id string, handed back verbatim as a resume
/// cursor, parses to exactly the cursor it encodes.
pub proof fn lemma_id_round_trip(n: usize)
    ensures
        parse_spec(dec_digits(n as nat)) == Some(n),
{
    lemma_dec_digits_value(n as nat);
}

} // verus!
