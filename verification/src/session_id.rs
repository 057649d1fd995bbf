//! The texts of session ids.

use crate::error::Error;
use crate::message::SessionID;
use std::str::FromStr;
use vstd::prelude::*;

verus! {

/// 16 to the power of `k`.
pub open spec fn pow16(k: nat) -> nat
    decreases k,
{
    if k == 0 {
        1
    } else {
        16 * pow16((k - 1) as nat)
    }
}

/// The character of a hexadecimal digit, in lower case.
pub open spec fn hex_char(d: nat) -> char {
    if d < 10 {
        (48 + d) as char
    } else {
        (87 + d) as char
    }
}

/// The value of a hexadecimal digit in lower or upper case.
pub open spec fn hex_digit(c: char) -> Option<nat> {
    if '0' <= c && c <= '9' {
        Some((c as nat - 48) as nat)
    } else if 'a' <= c && c <= 'f' {
        Some((c as nat - 87) as nat)
    } else if 'A' <= c && c <= 'F' {
        Some((c as nat - 55) as nat)
    } else {
        None
    }
}

/// The number that hexadecimal digits write, if they are such digits.
pub open spec fn hex_number(s: Seq<char>) -> Option<nat>
    decreases s.len(),
{
    if s.len() == 0 {
        Some(0)
    } else {
        match (hex_number(s.drop_last()), hex_digit(s.last())) {
            (Some(n), Some(d)) => Some(16 * n + d),
            _ => None,
        }
    }
}

/// The 32 hexadecimal digits of an id.
pub open spec fn hex_digits(id: SessionID) -> Seq<char> {
    Seq::new(32, |i: int| hex_char((id as nat / pow16((31 - i) as nat)) % 16))
}

/// The text of an id: its hexadecimal digits in five groups, joined by hyphens.
pub open spec fn session_id_text(id: SessionID) -> Seq<char> {
    let d = hex_digits(id);
    d.subrange(0, 8).push('-') + d.subrange(8, 12).push('-') + d.subrange(12, 16).push('-')
        + d.subrange(16, 20).push('-') + d.subrange(20, 32)
}

/// The digits of a text in five groups, joined by hyphens; nothing where the hyphens are not in
/// their places.
pub open spec fn ungrouped(s: Seq<char>) -> Option<Seq<char>> {
    if s.len() == 36 && s[8] == '-' && s[13] == '-' && s[18] == '-' && s[23] == '-' {
        Some(
            s.subrange(0, 8) + s.subrange(9, 13) + s.subrange(14, 18) + s.subrange(19, 23)
                + s.subrange(24, 36),
        )
    } else {
        None
    }
}

/// Whether a character is the lower case letter `c` in lower or upper case.
pub open spec fn letter(x: char, c: char) -> bool {
    x == c || x as nat == (c as nat - 32) as nat
}

/// Whether a text starts with `urn:uuid:`, in lower or upper case.
pub open spec fn is_urn(s: Seq<char>) -> bool {
    &&& s.len() >= 9
    &&& letter(s[0], 'u') && letter(s[1], 'r') && letter(s[2], 'n') && s[3] == ':'
    &&& letter(s[4], 'u') && letter(s[5], 'u') && letter(s[6], 'i') && letter(s[7], 'd')
    &&& s[8] == ':'
}

/// The id that a text writes: as 32 digits, as five groups of them, as such groups in curly
/// brackets, or as such groups behind `urn:uuid:`.
pub open spec fn session_id_value(s: Seq<char>) -> Option<SessionID> {
    let digits = if s.len() == 32 {
        Some(s)
    } else if s.len() == 38 && s[0] == '{' && s[37] == '}' {
        ungrouped(s.subrange(1, 37))
    } else if s.len() == 45 && is_urn(s) {
        ungrouped(s.subrange(9, 45))
    } else {
        ungrouped(s)
    };
    match digits {
        Some(digits) => match hex_number(digits) {
            Some(n) => Some(n as u128),
            None => None,
        },
        None => None,
    }
}

/// What the uuid crate says of a text that writes no id.
pub uninterp spec fn session_id_error(text: Seq<char>) -> Seq<char>;

/// Calls `uuid::Uuid::from_u128` and prints the id: the text is the 36 characters of the
/// hyphenated form in lower case.
#[verifier::external_body]
pub(crate) fn print_session_id(id: SessionID) -> (text: String)
    ensures
        text@ == session_id_text(id),
{
    uuid::Uuid::from_u128(id).to_string()
}

/// Calls `uuid::Uuid::from_str`: the id that the text writes in one of the four forms that the
/// crate reads, or, for any other text, how the crate describes what is wrong with it.
#[verifier::external_body]
fn uuid_from_str(text: &str) -> (id: Result<SessionID, String>)
    ensures
        match id {
            Ok(id) => session_id_value(text@) == Some(id),
            Err(e) => session_id_value(text@) is None && e@ == session_id_error(text@),
        },
{
    uuid::Uuid::from_str(text).map(|id| id.as_u128()).map_err(|e| format!("{:?}", e))
}

/// The id that a text writes.
pub fn parse_session_id(text: &str) -> (id: Result<SessionID, Error>)
    ensures
        match id {
            Ok(id) => session_id_value(text@) == Some(id),
            Err(e) => session_id_value(text@) is None && e@ == session_id_error(text@),
        },
{
    match uuid_from_str(text) {
        Ok(id) => Ok(id),
        Err(e) => Err(Error::new(e.as_str())),
    }
}

proof fn lemma_pow16(k: nat)
    ensures
        pow16(k) > 0,
    decreases k,
{
    if k > 0 {
        lemma_pow16((k - 1) as nat);
    }
}

proof fn lemma_hex_digit(d: nat)
    requires
        d < 16,
    ensures
        hex_digit(hex_char(d)) == Some(d),
{
}

/// The first digits of a number write the number without its last digits.
proof fn lemma_hex_prefix(id: SessionID, k: nat)
    requires
        k <= 32,
    ensures
        hex_number(hex_digits(id).take(k as int)) == Some(id as nat / pow16((32 - k) as nat)),
    decreases k,
{
    let n = id as nat;
    if k == 0 {
        assert(pow16(32) == 0x1_0000_0000_0000_0000_0000_0000_0000_0000nat) by {
            reveal_with_fuel(pow16, 33);
        }
        assert(n / pow16(32) == 0);
    } else {
        let before = (k - 1) as nat;
        lemma_hex_prefix(id, before);
        let s = hex_digits(id).take(k as int);
        assert(s.drop_last() =~= hex_digits(id).take(before as int));
        let p = pow16((32 - k) as nat);
        lemma_pow16((32 - k) as nat);
        assert(pow16((32 - before) as nat) == 16 * p);
        let q = n / p;
        assert(s.last() == hex_char(q % 16));
        lemma_hex_digit(q % 16);
        vstd::arithmetic::div_mod::lemma_div_denominator(n as int, p as int, 16);
        assert(n / (p * 16) == q / 16);
        assert(p * 16 == 16 * p);
        assert(16 * (q / 16) + q % 16 == q);
    }
}

/// The text of an id writes that id.
pub proof fn lemma_session_id_text_reads_back(id: SessionID)
    ensures
        session_id_value(session_id_text(id)) == Some(id),
{
    let d = hex_digits(id);
    let s = session_id_text(id);
    assert(s.len() == 36);
    assert(s.subrange(0, 8) =~= d.subrange(0, 8));
    assert(s.subrange(9, 13) =~= d.subrange(8, 12));
    assert(s.subrange(14, 18) =~= d.subrange(12, 16));
    assert(s.subrange(19, 23) =~= d.subrange(16, 20));
    assert(s.subrange(24, 36) =~= d.subrange(20, 32));
    assert(s[8] == '-' && s[13] == '-' && s[18] == '-' && s[23] == '-');
    assert(ungrouped(s) is Some);
    assert(ungrouped(s)->0 =~= d);
    lemma_hex_prefix(id, 32);
    assert(d.take(32) =~= d);
    assert(pow16(0) == 1);
    assert(id as nat / 1 == id as nat);
}

/// The text of an id has 36 characters: hyphens in four places, and digits in lower case elsewhere.
pub proof fn lemma_session_id_text(id: SessionID, i: int)
    requires
        0 <= i < 36,
    ensures
        session_id_text(id).len() == 36,
        i == 8 || i == 13 || i == 18 || i == 23 ==> session_id_text(id)[i] == '-',
        !(i == 8 || i == 13 || i == 18 || i == 23) ==> ('0' <= session_id_text(id)[i]
            && session_id_text(id)[i] <= '9') || ('a' <= session_id_text(id)[i] && session_id_text(
            id,
        )[i] <= 'f'),
{
    let d = hex_digits(id);
    let k = if i < 8 {
        i
    } else if i < 13 {
        i - 1
    } else if i < 18 {
        i - 2
    } else if i < 23 {
        i - 3
    } else {
        i - 4
    };
    if !(i == 8 || i == 13 || i == 18 || i == 23) {
        let digit = (id as nat / pow16((31 - k) as nat)) % 16;
        assert(session_id_text(id)[i] == d[k]);
        assert(d[k] == hex_char(digit));
        assert(hex_char(digit) as nat == if digit < 10 {
            48 + digit
        } else {
            87 + digit
        });
    }
}

/// Curly brackets around the groups, or `urn:uuid:` before them, change nothing in what is read.
pub proof fn lemma_session_id_forms(s: Seq<char>)
    requires
        s.len() == 36,
    ensures
        session_id_value(seq!['{'] + s + seq!['}']) == session_id_value(s),
        session_id_value("urn:uuid:"@ + s) == session_id_value(s),
{
    reveal_strlit("urn:uuid:");
    let braced = seq!['{'] + s + seq!['}'];
    let urn = "urn:uuid:"@ + s;
    assert(braced.subrange(1, 37) =~= s);
    assert("urn:uuid:"@.len() == 9);
    assert(urn.subrange(9, 45) =~= s);
    assert(urn.len() == 45);
    assert(is_urn(urn));
}

}
