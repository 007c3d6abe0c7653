//! Match identifiers: the word `match-` followed by a UUID in text form.
//!
//! Identifiers are drawn at random. For the case that a drawn identifier is
//! already taken, there is a second, counted family of identifiers of the same
//! shape, one for every number.

use vstd::prelude::*;
use vstd::string::StringExecFns;

verus! {

/// A lower-case hexadecimal digit.
pub open spec fn is_hex_digit(c: char) -> bool {
    ('0' <= c && c <= '9') || ('a' <= c && c <= 'f')
}

/// The hyphenated text form of a UUID: 36 characters, hyphens after the 8th,
/// 12th, 16th and 20th digit, lower-case hexadecimal digits elsewhere.
pub open spec fn is_uuid_text(s: Seq<char>) -> bool {
    &&& s.len() == 36
    &&& forall|i: int|
        0 <= i < 36 ==> if i == 8 || i == 13 || i == 18 || i == 23 {
            s[i] == '-'
        } else {
            is_hex_digit(#[trigger] s[i])
        }
}

/// The shape of every identifier this crate generates.
pub open spec fn is_match_id(id: Seq<char>) -> bool {
    &&& id.len() == 42
    &&& id.subrange(0, 6) == "match-"@
    &&& is_uuid_text(id.subrange(6, 42))
}

/// Calls `uuid::Uuid::new_v4` and renders the result with its `Display` impl,
/// which writes the hyphenated lower-case form. The contract states that form
/// and nothing about which UUID came out: the value is drawn from the
/// operating system's random source, and `new_v4` panics if that source
/// cannot be read.
#[verifier::external_body]
fn random_uuid_text() -> (text: String)
    ensures
        is_uuid_text(text@),
{
    uuid::Uuid::new_v4().to_string()
}

/// A newly drawn match identifier.
///
/// Identifiers are random, not counted: two draws are equal only with
/// negligible probability, but nothing here rules it out.
pub fn fresh_match_id() -> (id: String)
    ensures
        is_match_id(id@),
{
    let token = random_uuid_text();
    let id = String::from_str("match-").concat(token.as_str());
    proof {
        reveal_strlit("match-");
        assert(id@.subrange(0, 6) =~= "match-"@);
        assert(id@.subrange(6, 42) =~= token@);
    }
    id
}

/// The value of a lower-case hexadecimal digit; zero for any other character.
pub open spec fn hex_value(c: char) -> nat {
    if c == '1' {
        1
    } else if c == '2' {
        2
    } else if c == '3' {
        3
    } else if c == '4' {
        4
    } else if c == '5' {
        5
    } else if c == '6' {
        6
    } else if c == '7' {
        7
    } else if c == '8' {
        8
    } else if c == '9' {
        9
    } else if c == 'a' {
        10
    } else if c == 'b' {
        11
    } else if c == 'c' {
        12
    } else if c == 'd' {
        13
    } else if c == 'e' {
        14
    } else if c == 'f' {
        15
    } else {
        0
    }
}

/// The number that `digits` writes in base 16, most significant digit first.
pub open spec fn hex_number(digits: Seq<char>) -> nat
    decreases digits.len(),
{
    if digits.len() == 0 {
        0
    } else {
        hex_number(digits.drop_last()) * 16 + hex_value(digits.last())
    }
}

/// The number written by the last sixteen digits of a match identifier.
pub open spec fn serial_of(id: Seq<char>) -> nat {
    hex_number(id.subrange(25, 29) + id.subrange(30, 42))
}

/// Sixteen to the power of `exponent`.
pub open spec fn pow16(exponent: nat) -> nat
    decreases exponent,
{
    if exponent == 0 {
        1
    } else {
        16 * pow16((exponent - 1) as nat)
    }
}

/// No power of sixteen is zero.
pub proof fn lemma_pow16_positive(exponent: nat)
    ensures
        pow16(exponent) > 0,
    decreases exponent,
{
    if exponent > 0 {
        lemma_pow16_positive((exponent - 1) as nat);
    }
}

/// Sixteen digits in layout: a hyphen goes between the fourth and the fifth.
pub open spec fn grouped(digits: Seq<char>) -> Seq<char> {
    if digits.len() <= 4 {
        digits
    } else {
        digits.take(4) + seq!['-'] + digits.skip(4)
    }
}

/// The lower-case hexadecimal digit for `value`.
fn hex_digit(value: u64) -> (text: &'static str)
    requires
        value < 16,
    ensures
        text@.len() == 1,
        is_hex_digit(text@[0]),
        hex_value(text@[0]) == value,
{
    proof {
        reveal_strlit("0");
        reveal_strlit("1");
        reveal_strlit("2");
        reveal_strlit("3");
        reveal_strlit("4");
        reveal_strlit("5");
        reveal_strlit("6");
        reveal_strlit("7");
        reveal_strlit("8");
        reveal_strlit("9");
        reveal_strlit("a");
        reveal_strlit("b");
        reveal_strlit("c");
        reveal_strlit("d");
        reveal_strlit("e");
        reveal_strlit("f");
    }
    if value == 0 {
        "0"
    } else if value == 1 {
        "1"
    } else if value == 2 {
        "2"
    } else if value == 3 {
        "3"
    } else if value == 4 {
        "4"
    } else if value == 5 {
        "5"
    } else if value == 6 {
        "6"
    } else if value == 7 {
        "7"
    } else if value == 8 {
        "8"
    } else if value == 9 {
        "9"
    } else if value == 10 {
        "a"
    } else if value == 11 {
        "b"
    } else if value == 12 {
        "c"
    } else if value == 13 {
        "d"
    } else if value == 14 {
        "e"
    } else {
        "f"
    }
}

/// The counted match identifier with the number `serial`: `match-`, a UUID text
/// whose first sixteen digits are zero and whose last sixteen write `serial` in
/// base 16. Different numbers give different identifiers.
pub fn numbered_match_id(serial: u64) -> (id: String)
    ensures
        is_match_id(id@),
        serial_of(id@) == serial,
{
    let mut id = String::from_str("match-00000000-0000-0000-");
    let ghost head = id@;
    let ghost mut digits: Seq<char> = Seq::empty();
    let mut divisor: u64 = 0x1000_0000_0000_0000;
    let mut i: usize = 0;
    proof {
        reveal_with_fuel(pow16, 17);
        assert(pow16(15) == 0x1000_0000_0000_0000);
        assert(pow16(16) == 0x1_0000_0000_0000_0000);
        assert(serial as int / 0x1_0000_0000_0000_0000 == 0);
        assert(head + grouped(digits) =~= head);
    }
    while i < 16
        invariant
            i <= 16,
            digits.len() == i,
            id@ == head + grouped(digits),
            forall|j: int| 0 <= j < i ==> is_hex_digit(#[trigger] digits[j]),
            i < 16 ==> divisor == pow16((15 - i) as nat),
            hex_number(digits) == serial as int / pow16((16 - i) as nat) as int,
        decreases 16 - i,
    {
        proof {
            lemma_pow16_positive((15 - i) as nat);
            assert(pow16((16 - i) as nat) == 16 * pow16((15 - i) as nat));
            if i < 15 {
                assert(pow16((15 - i) as nat) == 16 * pow16((14 - i) as nat));
            }
            vstd::arithmetic::div_mod::lemma_div_denominator(serial as int, divisor as int, 16);
            vstd::arithmetic::div_mod::lemma_fundamental_div_mod(
                serial as int / divisor as int,
                16,
            );
        }
        if i == 4 {
            id.append("-");
        }
        let digit = hex_digit((serial / divisor) % 16);
        id.append(digit);
        proof {
            reveal_strlit("-");
            let longer = digits.push(digit@[0]);
            assert(longer.drop_last() =~= digits);
            assert(digit@ =~= seq![digit@[0]]);
            assert(head + grouped(digits) + (if i == 4 {
                seq!['-']
            } else {
                Seq::<char>::empty()
            }) + digit@ =~= head + grouped(longer));
            digits = longer;
        }
        divisor = divisor / 16;
        i = i + 1;
    }
    proof {
        reveal_strlit("match-00000000-0000-0000-");
        reveal_strlit("match-");
        assert(i == 16);
        assert(pow16((16 - i) as nat) == 1);
        assert(hex_number(digits) == serial as int / 1);
        assert(id@.subrange(0, 6) =~= "match-"@);
        assert(id@.subrange(25, 29) + id@.subrange(30, 42) =~= digits);
        assert(serial_of(id@) == hex_number(digits));
        let token = id@.subrange(6, 42);
        assert forall|k: int| 0 <= k < 36 implies if k == 8 || k == 13 || k == 18 || k == 23 {
            token[k] == '-'
        } else {
            is_hex_digit(#[trigger] token[k])
        } by {
            if k < 19 {
                assert(token[k] == head[k + 6]);
            } else if k < 23 {
                assert(token[k] == digits[k - 19]);
            } else if k > 23 {
                assert(token[k] == digits[k - 20]);
            }
        }
    }
    id
}

} // verus!
