//! Generated entry keys. The store issues the key `entry_N` for the N-th
//! insertion, `N` written in decimal without leading zeros. Distinct counts
//! give distinct keys, which is what makes every issued key fresh.

use vstd::prelude::*;

verus! {

/// The decimal digit character for `d`, for `0 <= d < 10`.
pub open spec fn digit_char(d: int) -> char {
    if d == 0 {
        '0'
    } else if d == 1 {
        '1'
    } else if d == 2 {
        '2'
    } else if d == 3 {
        '3'
    } else if d == 4 {
        '4'
    } else if d == 5 {
        '5'
    } else if d == 6 {
        '6'
    } else if d == 7 {
        '7'
    } else if d == 8 {
        '8'
    } else {
        '9'
    }
}

/// The decimal digits of `n`, most significant first, without leading zeros.
pub open spec fn spec_digits(n: nat) -> Seq<char>
    decreases n,
{
    if n < 10 {
        seq![digit_char(n as int)]
    } else {
        spec_digits(n / 10).push(digit_char((n % 10) as int))
    }
}

/// The key issued for the `n`-th insertion: `entry_` then the digits of `n`.
pub open spec fn spec_key(n: nat) -> Seq<char> {
    seq!['e', 'n', 't', 'r', 'y', '_'] + spec_digits(n)
}

fn digit_str(d: u64) -> (r: &'static str)
    requires
        d < 10,
    ensures
        r@ == seq![digit_char(d as int)],
{
    if d == 0 {
        proof {
            reveal_strlit("0");
            assert("0"@ =~= seq![digit_char(0)]);
        }
        "0"
    } else if d == 1 {
        proof {
            reveal_strlit("1");
            assert("1"@ =~= seq![digit_char(1)]);
        }
        "1"
    } else if d == 2 {
        proof {
            reveal_strlit("2");
            assert("2"@ =~= seq![digit_char(2)]);
        }
        "2"
    } else if d == 3 {
        proof {
            reveal_strlit("3");
            assert("3"@ =~= seq![digit_char(3)]);
        }
        "3"
    } else if d == 4 {
        proof {
            reveal_strlit("4");
            assert("4"@ =~= seq![digit_char(4)]);
        }
        "4"
    } else if d == 5 {
        proof {
            reveal_strlit("5");
            assert("5"@ =~= seq![digit_char(5)]);
        }
        "5"
    } else if d == 6 {
        proof {
            reveal_strlit("6");
            assert("6"@ =~= seq![digit_char(6)]);
        }
        "6"
    } else if d == 7 {
        proof {
            reveal_strlit("7");
            assert("7"@ =~= seq![digit_char(7)]);
        }
        "7"
    } else if d == 8 {
        proof {
            reveal_strlit("8");
            assert("8"@ =~= seq![digit_char(8)]);
        }
        "8"
    } else {
        proof {
            reveal_strlit("9");
            assert("9"@ =~= seq![digit_char(9)]);
        }
        "9"
    }
}

/// The decimal rendering of `n`.
pub fn decimal_string(n: u64) -> (r: String)
    ensures
        r@ == spec_digits(n as nat),
    decreases n,
{
    if n < 10 {
        String::from_str(digit_str(n))
    } else {
        let mut s = decimal_string(n / 10);
        let d = digit_str(n % 10);
        s.append(d);
        proof {
            assert(s@ =~= spec_digits(n as nat));
        }
        s
    }
}

/// The key issued for the `n`-th insertion.
pub fn make_key(n: u64) -> (r: String)
    ensures
        r@ == spec_key(n as nat),
{
    let mut s = String::from_str("entry_");
    proof {
        reveal_strlit("entry_");
        assert(s@ =~= seq!['e', 'n', 't', 'r', 'y', '_']);
    }
    let d = decimal_string(n);
    s.append(d.as_str());
    proof {
        assert(s@ =~= spec_key(n as nat));
    }
    s
}

proof fn lemma_digit_char_injective(a: int, b: int)
    requires
        0 <= a < 10,
        0 <= b < 10,
        digit_char(a) == digit_char(b),
    ensures
        a == b,
{
}

/// Decimal renderings are injective: distinct counts render differently.
pub proof fn lemma_digits_injective(m: nat, n: nat)
    requires
        spec_digits(m) == spec_digits(n),
    ensures
        m == n,
    decreases m,
{
    if m < 10 && n < 10 {
        assert(spec_digits(m)[0] == digit_char(m as int));
        assert(spec_digits(n)[0] == digit_char(n as int));
        lemma_digit_char_injective(m as int, n as int);
    } else if m < 10 && n >= 10 {
        assert(spec_digits(m).len() == 1);
        assert(spec_digits(n).len() == spec_digits(n / 10).len() + 1);
        lemma_digits_len(n / 10);
        assert(false);
    } else if m >= 10 && n < 10 {
        assert(spec_digits(n).len() == 1);
        assert(spec_digits(m).len() == spec_digits(m / 10).len() + 1);
        lemma_digits_len(m / 10);
        assert(false);
    } else {
        let sm = spec_digits(m / 10);
        let sn = spec_digits(n / 10);
        assert(sm.push(digit_char((m % 10) as int)) == sn.push(digit_char((n % 10) as int)));
        lemma_digits_len(m / 10);
        lemma_digits_len(n / 10);
        assert(sm.push(digit_char((m % 10) as int)).last() == digit_char((m % 10) as int));
        assert(sn.push(digit_char((n % 10) as int)).last() == digit_char((n % 10) as int));
        lemma_digit_char_injective((m % 10) as int, (n % 10) as int);
        assert(sm =~= sm.push(digit_char((m % 10) as int)).drop_last());
        assert(sn =~= sn.push(digit_char((n % 10) as int)).drop_last());
        lemma_digits_injective(m / 10, n / 10);
    }
}

/// Every decimal rendering has at least one digit.
pub proof fn lemma_digits_len(n: nat)
    ensures
        spec_digits(n).len() >= 1,
    decreases n,
{
    if n >= 10 {
        lemma_digits_len(n / 10);
    }
}

/// Distinct insertion counts give distinct keys.
pub proof fn lemma_key_injective(m: nat, n: nat)
    requires
        m != n,
    ensures
        spec_key(m) != spec_key(n),
{
    if spec_key(m) == spec_key(n) {
        assert(spec_key(m).skip(6) =~= spec_digits(m));
        assert(spec_key(n).skip(6) =~= spec_digits(n));
        lemma_digits_injective(m, n);
    }
}

} // verus!
