//! Human-readable game codes.
//!
//! The game-code counter value `n` becomes the string `GAME` followed
//! by `n` in decimal, padded with leading zeros to at least four
//! digits, such as `GAME0001`.  Codes are assigned from a monotonic
//! counter, never from a row count, so they stay unique even after
//! deletions; [`lemma_code_seq_injective`] shows that distinct counter
//! values give distinct codes.

use vstd::prelude::*;

verus! {

/// The character for one decimal digit.
pub open spec fn digit_char(d: nat) -> char {
    if d == 0 {
        '0'
    } else if d == 1 {
        '1'
    } else if d == 2 {
        '2'
    } else if d == 3 {
        '3'
    } else if d == 4 {
        '4'
    } else if d == 5 {
        '5'
    } else if d == 6 {
        '6'
    } else if d == 7 {
        '7'
    } else if d == 8 {
        '8'
    } else {
        '9'
    }
}

/// The decimal digits of `n`, most significant first, no leading zeros
/// (except for `n == 0` itself).
pub open spec fn dec_digits(n: nat) -> Seq<char>
    decreases n,
{
    if n < 10 {
        seq![digit_char(n)]
    } else {
        dec_digits(n / 10).push(digit_char(n % 10))
    }
}

/// The digits of `n`, padded with leading zeros to at least four.
pub open spec fn padded_digits(n: nat) -> Seq<char> {
    if n < 10 {
        seq!['0', '0', '0'] + dec_digits(n)
    } else if n < 100 {
        seq!['0', '0'] + dec_digits(n)
    } else if n < 1000 {
        seq!['0'] + dec_digits(n)
    } else {
        dec_digits(n)
    }
}

/// The full code for counter value `n`.
pub open spec fn code_seq(n: nat) -> Seq<char> {
    seq!['G', 'A', 'M', 'E'] + padded_digits(n)
}

/// A one-character string slice for the digit `d`.
fn digit_str(d: u64) -> (r: &'static str)
    requires
        d < 10,
    ensures
        r@ == seq![digit_char(d as nat)],
{
    proof {
        reveal_strlit("0");
        reveal_strlit("1");
        reveal_strlit("2");
        reveal_strlit("3");
        reveal_strlit("4");
        reveal_strlit("5");
        reveal_strlit("6");
        reveal_strlit("7");
        reveal_strlit("8");
        reveal_strlit("9");
    }
    let r = if d == 0 {
        "0"
    } else if d == 1 {
        "1"
    } else if d == 2 {
        "2"
    } else if d == 3 {
        "3"
    } else if d == 4 {
        "4"
    } else if d == 5 {
        "5"
    } else if d == 6 {
        "6"
    } else if d == 7 {
        "7"
    } else if d == 8 {
        "8"
    } else {
        "9"
    };
    proof {
        assert(r@ =~= seq![digit_char(d as nat)]);
    }
    r
}

/// Appends the decimal digits of `n` to `s`.
fn append_dec(s: &mut String, n: u64)
    ensures
        final(s)@ == old(s)@ + dec_digits(n as nat),
    decreases n,
{
    if n < 10 {
        s.append(digit_str(n));
        proof {
            assert(final(s)@ =~= old(s)@ + dec_digits(n as nat));
        }
    } else {
        append_dec(s, n / 10);
        s.append(digit_str(n % 10));
        proof {
            assert(final(s)@ =~= old(s)@ + dec_digits(n as nat));
        }
    }
}

/// Builds the code string for counter value `n`.
pub fn game_code(n: u64) -> (r: String)
    ensures
        r@ == code_seq(n as nat),
{
    proof {
        reveal_strlit("GAME");
        reveal_strlit("000");
        reveal_strlit("00");
        reveal_strlit("0");
    }
    let mut s = String::from_str("GAME");
    if n < 10 {
        s.append("000");
    } else if n < 100 {
        s.append("00");
    } else if n < 1000 {
        s.append("0");
    }
    append_dec(&mut s, n);
    proof {
        assert(s@ =~= code_seq(n as nat));
    }
    s
}

/// `dec_digits(n)` has one digit per decimal order of magnitude.
proof fn lemma_dec_digits_len(n: nat)
    ensures
        n < 10 ==> dec_digits(n).len() == 1,
        10 <= n < 100 ==> dec_digits(n).len() == 2,
        100 <= n < 1000 ==> dec_digits(n).len() == 3,
        1000 <= n < 10000 ==> dec_digits(n).len() == 4,
        10000 <= n ==> dec_digits(n).len() >= 5,
    decreases n,
{
    if n >= 10 {
        lemma_dec_digits_len(n / 10);
    }
}

/// The leading digit of a positive number is not zero.
proof fn lemma_dec_digits_leading(n: nat)
    requires
        n >= 1,
    ensures
        dec_digits(n)[0] != '0',
    decreases n,
{
    if n >= 10 {
        lemma_dec_digits_leading(n / 10);
        lemma_dec_digits_len(n / 10);
    }
}

/// Distinct digits have distinct characters.
proof fn lemma_digit_char_injective(x: nat, y: nat)
    requires
        x < 10,
        y < 10,
        digit_char(x) == digit_char(y),
    ensures
        x == y,
{
}

/// Distinct numbers have distinct digit strings.
proof fn lemma_dec_digits_injective(a: nat, b: nat)
    requires
        dec_digits(a) == dec_digits(b),
    ensures
        a == b,
    decreases a,
{
    lemma_dec_digits_len(a);
    lemma_dec_digits_len(b);
    if a < 10 && b < 10 {
        assert(dec_digits(a) == seq![digit_char(a)]);
        assert(dec_digits(b) == seq![digit_char(b)]);
        assert(seq![digit_char(a)][0] == digit_char(a));
        assert(seq![digit_char(b)][0] == digit_char(b));
        assert(dec_digits(a)[0] == dec_digits(b)[0]);
        lemma_digit_char_injective(a, b);
    } else if a >= 10 && b >= 10 {
        assert(dec_digits(a) == dec_digits(a / 10).push(digit_char(a % 10)));
        assert(dec_digits(b) == dec_digits(b / 10).push(digit_char(b % 10)));
        assert(dec_digits(a).last() == digit_char(a % 10));
        assert(dec_digits(b).last() == digit_char(b % 10));
        assert(dec_digits(a).last() == dec_digits(b).last());
        lemma_digit_char_injective(a % 10, b % 10);
        assert(dec_digits(a).drop_last() =~= dec_digits(a / 10));
        assert(dec_digits(b).drop_last() =~= dec_digits(b / 10));
        lemma_dec_digits_injective(a / 10, b / 10);
        vstd::arithmetic::div_mod::lemma_fundamental_div_mod(a as int, 10);
        vstd::arithmetic::div_mod::lemma_fundamental_div_mod(b as int, 10);
    } else {
        // One has a single digit and the other has at least two, so
        // their lengths differ and the hypothesis is impossible.
        assert(dec_digits(a).len() == dec_digits(b).len());
        assert(false);
    }
}

/// Distinct numbers have distinct padded digit strings.
proof fn lemma_padded_digits_injective(a: nat, b: nat)
    requires
        padded_digits(a) == padded_digits(b),
    ensures
        a == b,
{
    lemma_dec_digits_len(a);
    lemma_dec_digits_len(b);
    if a != b {
        let pa = padded_digits(a);
        let pb = padded_digits(b);
        // In each padding class the digits sit at a fixed offset.
        let offa: int = if a < 10 {
            3
        } else if a < 100 {
            2
        } else if a < 1000 {
            1
        } else {
            0
        };
        let offb: int = if b < 10 {
            3
        } else if b < 100 {
            2
        } else if b < 1000 {
            1
        } else {
            0
        };
        if offa == offb {
            assert(dec_digits(a) =~= dec_digits(b)) by {
                assert(forall|i: int|
                    0 <= i < dec_digits(a).len() ==> dec_digits(a)[i] == pa[offa + i]
                        && dec_digits(b)[i] == pb[offb + i]);
            }
            lemma_dec_digits_injective(a, b);
        } else if offa < offb {
            // `b` has more padding: at index `offa` the code for `b`
            // still holds a padding zero, while the code for `a` holds
            // the leading digit of `a`, which is not zero because `a`
            // has at least two digits.
            assert(a >= 10);
            lemma_dec_digits_leading(a);
            assert(pa[offa] == dec_digits(a)[0]);
            assert(pb[offa] == '0');
        } else {
            assert(b >= 10);
            lemma_dec_digits_leading(b);
            assert(pb[offb] == dec_digits(b)[0]);
            assert(pa[offb] == '0');
        }
    }
}

/// Distinct counter values give distinct game codes.
pub proof fn lemma_code_seq_injective(a: nat, b: nat)
    requires
        code_seq(a) == code_seq(b),
    ensures
        a == b,
{
    assert(code_seq(a).len() == 4 + padded_digits(a).len());
    assert(code_seq(b).len() == 4 + padded_digits(b).len());
    assert forall|i: int| 0 <= i < padded_digits(a).len() implies padded_digits(a)[i]
        == padded_digits(b)[i] by {
        assert(code_seq(a)[4 + i] == padded_digits(a)[i]);
        assert(code_seq(b)[4 + i] == padded_digits(b)[i]);
    }
    assert(padded_digits(a) =~= padded_digits(b));
    lemma_padded_digits_injective(a, b);
}

} // verus!
