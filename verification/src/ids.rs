//! Identifiers for post-purchase holdings.
//!
//! A purchase materializes the bought quantity as a new catalog record, and
//! that record needs an id that collides with no id already in the catalog.
//! The id is the purchased product's id plus a `#`-separated decimal counter;
//! freshness comes from the counter, so the encoding must be injective, which
//! is proved here through a decode round trip.

use vstd::prelude::*;

verus! {

/// The character for one decimal digit.
pub open spec fn spec_digit(d: int) -> char {
    if d == 0 {
        '0'
    } else if d == 1 {
        '1'
    } else if d == 2 {
        '2'
    } else if d == 3 {
        '3'
    } else if d == 4 {
        '4'
    } else if d == 5 {
        '5'
    } else if d == 6 {
        '6'
    } else if d == 7 {
        '7'
    } else if d == 8 {
        '8'
    } else {
        '9'
    }
}

/// The value of one decimal digit character.
pub open spec fn spec_digit_val(c: char) -> int {
    if c == '0' {
        0
    } else if c == '1' {
        1
    } else if c == '2' {
        2
    } else if c == '3' {
        3
    } else if c == '4' {
        4
    } else if c == '5' {
        5
    } else if c == '6' {
        6
    } else if c == '7' {
        7
    } else if c == '8' {
        8
    } else {
        9
    }
}

/// The decimal digit string of `n`, most significant digit first.
pub open spec fn spec_decimal(n: int) -> Seq<char>
    recommends
        n >= 0,
    decreases n,
{
    if n < 10 {
        seq![spec_digit(n)]
    } else {
        spec_decimal(n / 10).push(spec_digit(n % 10))
    }
}

/// Reads a digit string back into the number it encodes.
pub open spec fn spec_decode(s: Seq<char>) -> int
    decreases s.len(),
{
    if s.len() == 0 {
        0
    } else {
        10 * spec_decode(s.drop_last()) + spec_digit_val(s.last())
    }
}

/// Decoding undoes encoding, so the decimal encoding is injective.
pub proof fn lemma_decimal_round_trip(n: int)
    requires
        n >= 0,
    ensures
        spec_decode(spec_decimal(n)) == n,
    decreases n,
{
    if n < 10 {
        let s = spec_decimal(n);
        assert(s.drop_last() =~= Seq::<char>::empty());
        assert(spec_decode(Seq::<char>::empty()) == 0);
        assert(s.last() == spec_digit(n));
        assert(spec_digit_val(spec_digit(n)) == n);
    } else {
        lemma_decimal_round_trip(n / 10);
        vstd::arithmetic::div_mod::lemma_fundamental_div_mod(n, 10);
        let s = spec_decimal(n);
        assert(s.drop_last() =~= spec_decimal(n / 10));
        assert(s.last() == spec_digit(n % 10));
        assert(spec_digit_val(spec_digit(n % 10)) == n % 10);
    }
}

/// Two distinct numbers never share a decimal digit string.
pub proof fn lemma_decimal_injective(n1: int, n2: int)
    requires
        n1 >= 0,
        n2 >= 0,
        spec_decimal(n1) == spec_decimal(n2),
    ensures
        n1 == n2,
{
    lemma_decimal_round_trip(n1);
    lemma_decimal_round_trip(n2);
}

/// The id of the holding minted for the `counter`-th fresh-id candidate of a
/// purchase of the product with id `base`.
pub open spec fn spec_holding_id(base: Seq<char>, counter: int) -> Seq<char> {
    base + seq!['#'] + spec_decimal(counter)
}

/// Holding ids of one product with distinct counters are distinct.
pub proof fn lemma_holding_id_injective(base: Seq<char>, c1: int, c2: int)
    requires
        c1 >= 0,
        c2 >= 0,
        spec_holding_id(base, c1) == spec_holding_id(base, c2),
    ensures
        c1 == c2,
{
    let s1 = spec_holding_id(base, c1);
    let s2 = spec_holding_id(base, c2);
    assert(spec_decimal(c1) =~= s1.skip(base.len() + 1 as int));
    assert(spec_decimal(c2) =~= s2.skip(base.len() + 1 as int));
    lemma_decimal_injective(c1, c2);
}

/// One decimal digit as a string slice.
fn digit_str(d: usize) -> (r: &'static str)
    requires
        d < 10,
    ensures
        r@ == seq![spec_digit(d as int)],
{
    proof {
        reveal_strlit("0");
        reveal_strlit("1");
        reveal_strlit("2");
        reveal_strlit("3");
        reveal_strlit("4");
        reveal_strlit("5");
        reveal_strlit("6");
        reveal_strlit("7");
        reveal_strlit("8");
        reveal_strlit("9");
    }
    let r = match d {
        0 => "0",
        1 => "1",
        2 => "2",
        3 => "3",
        4 => "4",
        5 => "5",
        6 => "6",
        7 => "7",
        8 => "8",
        _ => "9",
    };
    proof {
        assert(r@ =~= seq![spec_digit(d as int)]);
    }
    r
}

/// The decimal digit string of `n`.
pub fn decimal_string(n: usize) -> (s: String)
    ensures
        s@ == spec_decimal(n as int),
    decreases n,
{
    if n < 10 {
        digit_str(n).to_owned()
    } else {
        let mut s = decimal_string(n / 10);
        s.append(digit_str(n % 10));
        proof {
            assert(s@ =~= spec_decimal(n as int));
        }
        s
    }
}

/// Builds the id of a holding from the purchased product's id and a counter.
pub fn holding_id(base: &String, counter: usize) -> (r: String)
    ensures
        r@ == spec_holding_id(base@, counter as int),
{
    proof {
        reveal_strlit("#");
    }
    let mut r = base.clone();
    r.append("#");
    let digits = decimal_string(counter);
    r.append(digits.as_str());
    proof {
        assert("#"@ =~= seq!['#']);
        assert(r@ =~= spec_holding_id(base@, counter as int));
    }
    r
}

} // verus!
