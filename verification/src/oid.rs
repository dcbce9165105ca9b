//! Object IDs of commits.

use vstd::prelude::*;

use crate::text::chars_of;

verus! {

/// How many hexadecimal digits an object ID has.
pub const HEX_LEN: usize = 40;

/// Whether a character is a hexadecimal digit, in either case.
pub open spec fn is_hex_digit(ch: char) -> bool {
    ('0' <= ch && ch <= '9') || ('a' <= ch && ch <= 'f') || ('A' <= ch && ch <= 'F')
}

/// The lowercase form of a hexadecimal digit.
pub open spec fn hex_lower(ch: char) -> char {
    if 'A' <= ch && ch <= 'F' {
        ((ch as u8) + 32) as u8 as char
    } else {
        ch
    }
}

/// The digits of an object ID that is written with no more than all of them:
/// in lowercase, and with zeros in place of those left out at the end.
pub open spec fn full_hex(text: Seq<char>) -> Seq<char> {
    Seq::new(
        HEX_LEN as nat,
        |i: int|
            if i < text.len() {
                hex_lower(text[i])
            } else {
                '0'
            },
    )
}

/// Whether `text` is written as an object ID.
pub open spec fn is_oid_text(text: Seq<char>) -> bool {
    &&& 0 < text.len() <= HEX_LEN
    &&& forall|i: int| 0 <= i < text.len() ==> is_hex_digit(#[trigger] text[i])
}

/// The digits of the object ID that stands for no object.
pub open spec fn zero_hex() -> Seq<char> {
    Seq::new(HEX_LEN as nat, |i: int| '0')
}

/// Whether `hex` are the digits of an object ID other than the zero one.
pub open spec fn is_full_hex(hex: Seq<char>) -> bool {
    &&& hex.len() == HEX_LEN
    &&& hex != zero_hex()
    &&& forall|i: int|
        0 <= i < hex.len() ==> is_hex_digit(#[trigger] hex[i]) && hex_lower(hex[i]) == hex[i]
}

/// The digits of the object ID that `text` spells, unless it spells none or the
/// zero one.
pub open spec fn parsed_oid(text: Seq<char>) -> Option<Seq<char>> {
    if is_oid_text(text) && full_hex(text) != zero_hex() {
        Some(full_hex(text))
    } else {
        None
    }
}

/// The ID of an object. It is never the zero ID.
#[derive(Debug)]
pub struct NonZeroOid {
    hex: String,
}

impl View for NonZeroOid {
    type V = Seq<char>;

    closed spec fn view(&self) -> Seq<char> {
        self.hex@
    }
}

/// The digits of an object ID that may be missing.
pub open spec fn opt_oid(oid: Option<NonZeroOid>) -> Option<Seq<char>> {
    match oid {
        Some(oid) => Some(oid@),
        None => None,
    }
}

/// The digits of each object ID in turn.
pub open spec fn oid_texts(oids: Seq<NonZeroOid>) -> Seq<Seq<char>> {
    oids.map_values(|oid: NonZeroOid| oid@)
}

impl NonZeroOid {
    #[verifier::type_invariant]
    spec fn well_formed(&self) -> bool {
        is_full_hex(self.hex@)
    }

    /// The object ID that `text` spells: up to forty hexadecimal digits in
    /// either case, not all of them zero. Digits left out at the end are zero.
    pub fn parse(text: &str) -> (oid: Option<NonZeroOid>)
        ensures
            opt_oid(oid) == parsed_oid(text@),
    {
        let chars = chars_of(text);
        if chars.len() == 0 || chars.len() > HEX_LEN {
            return None;
        }
        let mut hex = String::new();
        let mut is_zero = true;
        let mut i: usize = 0;
        assert(hex@ =~= zero_hex().take(0));
        while i < HEX_LEN
            invariant
                chars@ == text@,
                0 < chars.len() <= HEX_LEN,
                i <= HEX_LEN,
                hex@ == full_hex(text@).take(i as int),
                forall|j: int| 0 <= j < i && j < text@.len() ==> is_hex_digit(#[trigger] text@[j]),
                is_zero == (hex@ == zero_hex().take(i as int)),
            decreases HEX_LEN - i,
        {
            let ghost before = hex@;
            let mut ch = '0';
            if i < chars.len() {
                ch = chars[i];
                if 'A' <= ch && ch <= 'F' {
                    ch = ((ch as u8) + 32) as char;
                } else if !(('0' <= ch && ch <= '9') || ('a' <= ch && ch <= 'f')) {
                    assert(!is_hex_digit(text@[i as int]));
                    return None;
                }
            }
            hex.push(ch);
            assert(hex@ =~= full_hex(text@).take(i + 1));
            if is_zero && ch == '0' {
                assert(hex@ =~= zero_hex().take(i + 1));
            } else {
                is_zero = false;
                proof {
                    if hex@ == zero_hex().take(i + 1) {
                        assert(before =~= zero_hex().take(i as int));
                        assert(hex@[i as int] == zero_hex().take(i + 1)[i as int]);
                    }
                }
            }
            i = i + 1;
        }
        assert(full_hex(text@).take(HEX_LEN as int) =~= full_hex(text@));
        assert(zero_hex().take(HEX_LEN as int) =~= zero_hex());
        if is_zero {
            return None;
        }
        assert forall|j: int| 0 <= j < hex@.len() implies is_hex_digit(#[trigger] hex@[j])
            && hex_lower(hex@[j]) == hex@[j] by {
            if j < text@.len() {
                assert(is_hex_digit(text@[j]));
            }
        }
        Some(NonZeroOid { hex })
    }

    /// The forty lowercase hexadecimal digits of this object ID.
    pub fn as_str(&self) -> (hex: &str)
        ensures
            hex@ == self@,
            is_full_hex(hex@),
    {
        proof {
            use_type_invariant(self);
        }
        self.hex.as_str()
    }

    /// Whether two object IDs are the same.
    pub fn is_same(&self, other: &NonZeroOid) -> (same: bool)
        ensures
            same == (self@ == other@),
    {
        self.hex == other.hex
    }
}

impl Clone for NonZeroOid {
    fn clone(&self) -> (copy: NonZeroOid)
        ensures
            copy@ == self@,
    {
        proof {
            use_type_invariant(self);
        }
        NonZeroOid { hex: self.hex.clone() }
    }
}

impl PartialEq for NonZeroOid {
    fn eq(&self, other: &NonZeroOid) -> (same: bool) {
        self.is_same(other)
    }
}

impl vstd::std_specs::cmp::PartialEqSpecImpl for NonZeroOid {
    open spec fn obeys_eq_spec() -> bool {
        true
    }

    open spec fn eq_spec(&self, other: &NonZeroOid) -> bool {
        self@ == other@
    }
}

impl Eq for NonZeroOid {

}

/// Writing an object ID out and reading it again gives it back.
pub proof fn parse_reads_back_digits(hex: Seq<char>)
    requires
        is_full_hex(hex),
    ensures
        parsed_oid(hex) == Some(hex),
{
    assert(full_hex(hex) =~= hex);
}

/// Whatever an object ID is read from, its digits are forty lowercase ones and
/// not all zero.
pub proof fn parsed_oid_is_full(text: Seq<char>)
    ensures
        parsed_oid(text) matches Some(hex) ==> is_full_hex(hex),
{
    if is_oid_text(text) {
        assert forall|j: int| 0 <= j < HEX_LEN implies is_hex_digit(#[trigger] full_hex(text)[j])
            && hex_lower(full_hex(text)[j]) == full_hex(text)[j] by {
            if j < text.len() {
                assert(is_hex_digit(text[j]));
            }
        }
    }
}

/// A text spells an object ID where it is one to forty hexadecimal digits, not all
/// of them zero; no other text does.
pub proof fn object_ids_are_spelled_in_digits(text: Seq<char>)
    ensures
        parsed_oid(text) is Some <==> {
            &&& 0 < text.len() <= 40
            &&& forall|i: int|
                0 <= i < text.len() ==> {
                    ||| 48 <= #[trigger] text[i] as int <= 57
                    ||| 65 <= text[i] as int <= 70
                    ||| 97 <= text[i] as int <= 102
                }
            &&& exists|i: int| 0 <= i < text.len() && #[trigger] text[i] != '0'
        },
{
    if is_oid_text(text) {
        if exists|i: int| 0 <= i < text.len() && #[trigger] text[i] != '0' {
            let i = choose|i: int| 0 <= i < text.len() && #[trigger] text[i] != '0';
            assert(is_hex_digit(text[i]));
            assert(full_hex(text)[i] != zero_hex()[i]);
        } else {
            assert(full_hex(text) =~= zero_hex());
        }
    }
    assert forall|i: int| 0 <= i < text.len() implies is_hex_digit(#[trigger] text[i]) == {
        ||| 48 <= text[i] as int <= 57
        ||| 65 <= text[i] as int <= 70
        ||| 97 <= text[i] as int <= 102
    } by {}
}

/// The digits of an object ID are those that spell it, with capital letters small,
/// and zeros up to forty digits.
pub proof fn object_ids_keep_their_digits(text: Seq<char>, i: int)
    requires
        parsed_oid(text) is Some,
        0 <= i < 40,
    ensures
        parsed_oid(text)->0.len() == 40,
        i >= text.len() ==> parsed_oid(text)->0[i] == '0',
        i < text.len() && !(65 <= text[i] as int <= 70) ==> parsed_oid(text)->0[i] == text[i],
        i < text.len() && 65 <= text[i] as int <= 70 ==> parsed_oid(text)->0[i] as int
            == text[i] as int + 32,
{
}

} // verus!
