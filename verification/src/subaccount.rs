//! Ledger accounts given as text: a principal and a sub-address in
//! hexadecimal.

use crate::identity::{principal_of_text, Account, Identity};
use vstd::prelude::*;
use vstd::utf8::encode_utf8;

verus! {

/// The value of a hexadecimal digit, in either case.
pub open spec fn hex_digit(b: u8) -> Option<u8> {
    if 0x30 <= b <= 0x39 {
        Some((b - 0x30) as u8)
    } else if 0x61 <= b <= 0x66 {
        Some((b - 0x61 + 10) as u8)
    } else if 0x41 <= b <= 0x46 {
        Some((b - 0x41 + 10) as u8)
    } else {
        None
    }
}

/// The byte that two characters spell: two hexadecimal digits, or a plus
/// sign and one hexadecimal digit.
pub open spec fn hex_pair(first: u8, second: u8) -> Option<u8> {
    match hex_digit(second) {
        None => None,
        Some(low) => if first == 0x2b {
            Some(low)
        } else {
            match hex_digit(first) {
                Some(high) => Some((16 * high + low) as u8),
                None => None,
            }
        },
    }
}

/// The bytes that a text spells in hexadecimal, two characters to the byte;
/// `None` where the text has an odd length or a pair spells no byte.
pub open spec fn decode_hex(text: Seq<u8>) -> Option<Seq<u8>>
    decreases text.len(),
{
    if text.len() == 0 {
        Some(Seq::empty())
    } else if text.len() == 1 {
        None
    } else {
        match (hex_pair(text[0], text[1]), decode_hex(text.skip(2))) {
            (Some(byte), Some(rest)) => Some(seq![byte] + rest),
            _ => None,
        }
    }
}

/// The value of a hexadecimal digit.
fn hex_digit_value(b: u8) -> (r: Option<u8>)
    ensures
        r == hex_digit(b),
{
    if 0x30 <= b && b <= 0x39 {
        Some(b - 0x30)
    } else if 0x61 <= b && b <= 0x66 {
        Some(b - 0x61 + 10)
    } else if 0x41 <= b && b <= 0x46 {
        Some(b - 0x41 + 10)
    } else {
        None
    }
}

/// The byte that two characters spell.
fn hex_pair_value(first: u8, second: u8) -> (r: Option<u8>)
    ensures
        r == hex_pair(first, second),
{
    let low = match hex_digit_value(second) {
        Some(low) => low,
        None => {
            return None;
        },
    };
    if first == 0x2b {
        return Some(low);
    }
    match hex_digit_value(first) {
        Some(high) => Some(16 * high + low),
        None => None,
    }
}

/// Why a text is no account.
#[derive(Clone, Copy, Debug, PartialEq, Eq, Structural)]
pub enum AccountTextError {
    /// The owner is no principal.
    Owner,
    /// The sub-address has an odd number of characters.
    HexLength,
    /// The two characters of the sub-address from the byte `at` on spell no
    /// byte, and all pairs before them do.
    HexPair { at: usize },
}

/// Whether the pair at the even place `at` is the first of the text that
/// spells no byte.
pub open spec fn first_bad_pair(text: Seq<u8>, at: int) -> bool {
    &&& 0 <= at && at + 1 < text.len()
    &&& at % 2 == 0
    &&& hex_pair(text[at], text[at + 1]) is None
    &&& forall|j: int|
        0 <= j < at && j % 2 == 0 ==> hex_pair(#[trigger] text[j], text[j + 1]) is Some
}

/// A text of odd length spells no bytes.
proof fn lemma_odd_length_decodes_nothing(text: Seq<u8>)
    requires
        text.len() % 2 == 1,
    ensures
        decode_hex(text) is None,
    decreases text.len(),
{
    if text.len() > 1 {
        lemma_odd_length_decodes_nothing(text.skip(2));
    }
}

/// Decodes a sub-address written in hexadecimal.
///
/// The bytes are handed out exactly where the text spells bytes. Otherwise
/// the error says why it does not: its length is odd, or, with an even
/// length, which pair is the first that spells no byte.
pub fn parse_subaccount_hex(text: &str) -> (r: Result<Vec<u8>, AccountTextError>)
    ensures
        match r {
            Ok(bytes) => decode_hex(encode_utf8(text@)) == Some(bytes@),
            Err(AccountTextError::HexLength) => encode_utf8(text@).len() % 2 == 1,
            Err(AccountTextError::HexPair { at }) => encode_utf8(text@).len() % 2 == 0
                && first_bad_pair(encode_utf8(text@), at as int),
            Err(AccountTextError::Owner) => false,
        },
        r is Err ==> decode_hex(encode_utf8(text@)) is None,
{
    let bytes = text.as_bytes();
    if bytes.len() % 2 != 0 {
        proof {
            lemma_odd_length_decodes_nothing(bytes@);
        }
        return Err(AccountTextError::HexLength);
    }
    let mut out: Vec<u8> = Vec::new();
    let mut i: usize = 0;
    assert(bytes@.skip(0) =~= bytes@);
    while i < bytes.len()
        invariant
            i <= bytes.len(),
            i % 2 == 0,
            bytes.len() % 2 == 0,
            bytes@ == encode_utf8(text@),
            forall|j: int|
                0 <= j < i && j % 2 == 0 ==> hex_pair(#[trigger] bytes@[j], bytes@[j + 1]) is Some,
            decode_hex(bytes@) == match decode_hex(bytes@.skip(i as int)) {
                Some(rest) => Some(out@ + rest),
                None => None,
            },
        decreases bytes.len() - i,
    {
        let ghost tail = bytes@.skip(i as int);
        assert(tail[0] == bytes@[i as int] && tail[1] == bytes@[i + 1]);
        assert(tail.skip(2) =~= bytes@.skip(i + 2));
        match hex_pair_value(bytes[i], bytes[i + 1]) {
            Some(byte) => {
                proof {
                    match decode_hex(tail.skip(2)) {
                        Some(rest) => {
                            assert(out@.push(byte) + rest =~= out@ + (seq![byte] + rest));
                        },
                        None => {},
                    }
                }
                out.push(byte);
            },
            None => {
                return Err(AccountTextError::HexPair { at: i });
            },
        }
        i = i + 2;
    }
    assert(out@ + Seq::<u8>::empty() =~= out@);
    Ok(out)
}

/// The account that an owner's principal in text form, and a sub-address in
/// hexadecimal where one is given, stand for. The owner is looked at first.
pub fn ckbtc_account_from_text(owner: &str, subaccount_hex: Option<&str>) -> (r: Result<
    Account,
    AccountTextError,
>)
    ensures
        match r {
            Ok(account) => {
                &&& principal_of_text(owner@) == Some(account@.owner)
                &&& match subaccount_hex {
                    Some(hex) => decode_hex(encode_utf8(hex@)) == account@.subaccount
                        && account@.subaccount is Some,
                    None => account@.subaccount is None,
                }
            },
            Err(AccountTextError::Owner) => principal_of_text(owner@) is None,
            Err(AccountTextError::HexLength) => {
                &&& principal_of_text(owner@) is Some
                &&& subaccount_hex matches Some(hex)
                &&& encode_utf8(hex@).len() % 2 == 1
            },
            Err(AccountTextError::HexPair { at }) => {
                &&& principal_of_text(owner@) is Some
                &&& subaccount_hex matches Some(hex)
                &&& encode_utf8(hex@).len() % 2 == 0
                &&& first_bad_pair(encode_utf8(hex@), at as int)
            },
        },
{
    let identity = match Identity::from_text(owner) {
        Ok(identity) => identity,
        Err(_) => {
            return Err(AccountTextError::Owner);
        },
    };
    let subaccount = match subaccount_hex {
        Some(hex) => match parse_subaccount_hex(hex) {
            Ok(bytes) => Some(bytes),
            Err(e) => {
                return Err(e);
            },
        },
        None => None,
    };
    Ok(Account { owner: identity, subaccount })
}

} // verus!
