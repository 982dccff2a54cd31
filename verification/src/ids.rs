//! 128-bit identifiers and their text.

use vstd::prelude::*;

verus! {

/// The lower-case hexadecimal digit of a value below sixteen.
pub open spec fn hex_digit(n: nat) -> char {
    if n < 10 {
        (('0' as u32 + n) as u32) as char
    } else {
        (('a' as u32 + n - 10) as u32) as char
    }
}

/// The last `count` hexadecimal digits of a number, most significant first.
pub open spec fn hex(n: nat, count: nat) -> Seq<char>
    decreases count,
{
    if count == 0 {
        Seq::empty()
    } else {
        hex(n / 16, (count - 1) as nat).push(hex_digit(n % 16))
    }
}

/// Sixteen to the given power.
pub open spec fn sixteens(count: nat) -> nat
    decreases count,
{
    if count == 0 {
        1
    } else {
        16 * sixteens((count - 1) as nat)
    }
}

/// The 32 hexadecimal digits of an identifier.
pub open spec fn simple_text(id: u128) -> Seq<char> {
    hex(id as nat, 32)
}

/// The hexadecimal digits of an identifier in groups of 8, 4, 4, 4 and 12.
pub open spec fn hyphenated_text(id: u128) -> Seq<char> {
    let h = simple_text(id);
    h.subrange(0, 8).push('-') + h.subrange(8, 12).push('-') + h.subrange(12, 16).push('-')
        + h.subrange(16, 20).push('-') + h.subrange(20, 32)
}

/// `hex` writes exactly the digits asked for.
pub proof fn lemma_hex_len(n: nat, count: nat)
    ensures
        hex(n, count).len() == count,
    decreases count,
{
    if count > 0 {
        lemma_hex_len(n / 16, (count - 1) as nat);
    }
}

/// Two numbers that fit in the digits and are written alike are equal.
pub proof fn lemma_hex_injective(a: nat, b: nat, count: nat)
    requires
        a < sixteens(count),
        b < sixteens(count),
        hex(a, count) == hex(b, count),
    ensures
        a == b,
    decreases count,
{
    if count > 0 {
        let short = (count - 1) as nat;
        let x = hex(a / 16, short);
        let y = hex(b / 16, short);
        lemma_hex_len(a / 16, short);
        lemma_hex_len(b / 16, short);
        assert(x.push(hex_digit(a % 16)).drop_last() =~= x);
        assert(y.push(hex_digit(b % 16)).drop_last() =~= y);
        assert(x.push(hex_digit(a % 16)).last() == hex_digit(a % 16));
        assert(y.push(hex_digit(b % 16)).last() == hex_digit(b % 16));
        assert(a % 16 == b % 16);
        assert(a / 16 < sixteens(short) && b / 16 < sixteens(short));
        lemma_hex_injective(a / 16, b / 16, short);
    }
}

/// Two identifiers with the same text are the same identifier.
pub proof fn lemma_simple_text_injective(a: u128, b: u128)
    requires
        simple_text(a) == simple_text(b),
    ensures
        a == b,
{
    reveal_with_fuel(sixteens, 33);
    lemma_hex_injective(a as nat, b as nat, 32);
}

/// `uuid::Uuid::new_v4` draws the identifier at random and fixes its version
/// nibble to 4 and its two variant bits to 10. It does not return when the
/// operating system has no random bytes to give.
#[verifier::external_body]
pub(crate) fn random_id() -> (id: u128)
    ensures
        id & 0xf000_c000_0000_0000_0000 == 0x4000_8000_0000_0000_0000,
{
    uuid::Uuid::new_v4().as_u128()
}

/// `uuid::Uuid::simple` displays the identifier as its 32 lower-case
/// hexadecimal digits.
#[verifier::external_body]
pub(crate) fn simple_form(id: u128) -> (out: String)
    ensures
        out@ == simple_text(id),
{
    uuid::Uuid::from_u128(id).simple().to_string()
}

/// `uuid::Uuid` itself displays the identifier with hyphens between the groups
/// of its digits.
#[verifier::external_body]
pub(crate) fn hyphenated_form(id: u128) -> (out: String)
    ensures
        out@ == hyphenated_text(id),
{
    uuid::Uuid::from_u128(id).to_string()
}

/// What `uuid::Uuid::parse_str` reads out of a text: the identifier that the
/// text writes in one of the forms that the crate accepts.
pub uninterp spec fn parsed_text(text: Seq<char>) -> Option<u128>;

/// `uuid::Uuid::parse_str` reads an identifier. Its result depends on the text
/// alone, and the 32 lower-case hexadecimal digits of an identifier read as that
/// identifier.
#[verifier::external_body]
pub(crate) fn parse_id(value: &str) -> (r: Option<u128>)
    ensures
        r == parsed_text(value@),
        forall|id: u128| value@ == simple_text(id) ==> r == Some(id),
{
    uuid::Uuid::parse_str(value).ok().map(|id| id.as_u128())
}

/// A random identifier is never nil.
pub(crate) proof fn lemma_random_is_not_nil(id: u128)
    requires
        id & 0xf000_c000_0000_0000_0000 == 0x4000_8000_0000_0000_0000,
    ensures
        id != 0,
{
    assert(id & 0xf000_c000_0000_0000_0000u128 == 0x4000_8000_0000_0000_0000u128 ==> id != 0)
        by (bit_vector);
}

/// An identifier is written with 32 digits of base sixteen, the last of which is what is
/// left over sixteen.
pub proof fn law_identifiers_are_written_in_base_sixteen(id: u128, i: int)
    requires
        0 <= i < 32,
    ensures
        simple_text(id).len() == 32,
        48 <= simple_text(id)[i] as u32 <= 57 || 97 <= simple_text(id)[i] as u32 <= 102,
        simple_text(id)[31] as u32 == (if id % 16 < 10 {
            48 + id % 16
        } else {
            87 + id % 16
        }),
{
    lemma_hex_len(id as nat, 32);
    lemma_hex_len(id as nat / 16, 31);
    lemma_hex_digits(id as nat, 32, i);
}

proof fn lemma_hex_digits(n: nat, count: nat, i: int)
    requires
        0 <= i < count,
    ensures
        48 <= hex(n, count)[i] as u32 <= 57 || 97 <= hex(n, count)[i] as u32 <= 102,
    decreases count,
{
    lemma_hex_len(n / 16, (count - 1) as nat);
    if i < count - 1 {
        lemma_hex_digits(n / 16, (count - 1) as nat, i);
    }
}

/// The long form has the same digits, with dashes after the eighth, twelfth, sixteenth
/// and twentieth.
pub proof fn law_the_long_form_has_four_dashes(id: u128)
    ensures
        ({
            let (long, short) = (hyphenated_text(id), simple_text(id));
            &&& long.len() == 36
            &&& long[8] == '-' && long[13] == '-' && long[18] == '-' && long[23] == '-'
            &&& forall|i: int| 0 <= i < 8 ==> long[i] == #[trigger] short[i]
            &&& forall|i: int| 8 <= i < 12 ==> long[i + 1] == #[trigger] short[i]
            &&& forall|i: int| 12 <= i < 16 ==> long[i + 2] == #[trigger] short[i]
            &&& forall|i: int| 16 <= i < 20 ==> long[i + 3] == #[trigger] short[i]
            &&& forall|i: int| 20 <= i < 32 ==> long[i + 4] == #[trigger] short[i]
        }),
{
    lemma_hex_len(id as nat, 32);
}

} // verus!
