//! Identities of Runs, daemons and Runtimes, and their text form.

use uuid::Uuid;
use vstd::arithmetic::div_mod::{
    lemma_div_denominator, lemma_div_is_ordered, lemma_fundamental_div_mod,
};
use vstd::arithmetic::power::{lemma_pow0, lemma_pow1, lemma_pow_adds, lemma_pow_positive, pow};
use vstd::prelude::*;

use crate::order::{lemma_text_order_is_reflexive, text_not_after};

verus! {

/// Identity of one Run.
#[derive(Debug, Clone, Copy, PartialEq, Eq, Structural)]
pub struct RunId {
    /// The 128 bits of the identity, most significant first in its text form.
    pub value: u128,
}

/// Identity of one daemon incarnation.
#[derive(Debug, Clone, Copy, PartialEq, Eq, Structural)]
pub struct DaemonInstanceId {
    /// The 128 bits of the identity, most significant first in its text form.
    pub value: u128,
}

/// Identity of one Runtime, which may outlive a daemon incarnation.
#[derive(Debug, Clone, Copy, PartialEq, Eq, Structural)]
pub struct RuntimeId {
    /// The 128 bits of the identity, most significant first in its text form.
    pub value: u128,
}

/// The lower-case hexadecimal digit `n`, for `n` below sixteen.
pub open spec fn hex_char(n: int) -> char {
    if n < 10 {
        (('0' as u32) + n) as char
    } else {
        (('a' as u32) + (n - 10)) as char
    }
}

/// Whether the hyphenated form has a hyphen at `i`.
pub open spec fn is_hyphen_place(i: int) -> bool {
    i == 8 || i == 13 || i == 18 || i == 23
}

/// How many hexadecimal digits stand before place `i` of the hyphenated form.
pub open spec fn digits_before(i: int) -> int {
    if i <= 8 {
        i
    } else if i <= 13 {
        i - 1
    } else if i <= 18 {
        i - 2
    } else if i <= 23 {
        i - 3
    } else {
        i - 4
    }
}

/// The `k`-th of the 32 hexadecimal digits of `value`, most significant first.
pub open spec fn hex_digit(value: u128, k: int) -> int {
    (value as int / pow(16, (31 - k) as nat)) % 16
}

/// The hyphenated lower-case text of an identity: groups of 8, 4, 4, 4 and 12
/// hexadecimal digits.
pub open spec fn uuid_text(value: u128) -> Seq<char> {
    Seq::new(
        36,
        |i: int|
            if is_hyphen_place(i) {
                '-'
            } else {
                hex_char(hex_digit(value, digits_before(i)))
            },
    )
}

/// What [`uuid::Uuid::parse_str`] makes of a text: the 128 bits of the identity
/// that it writes, or, where it is not the text of an identity, what the error
/// says.
pub uninterp spec fn parsed_uuid(text: Seq<char>) -> Result<u128, Seq<char>>;

/// The text that `uuid::Uuid` writes for 128 bits, by `Uuid::from_u128` and
/// its `Display` form: 32 lower-case hexadecimal digits with hyphens after the
/// 8th, 12th, 16th and 20th.
#[verifier::external_body]
fn format_uuid(value: u128) -> (r: String)
    ensures
        r@ == uuid_text(value),
{
    Uuid::from_u128(value).to_string()
}

/// Read an identity by `uuid::Uuid::parse_str`, with the error's `Display` form
/// where there is none. Besides the name of its result, the hyphenated text
/// that [`uuid_text`] describes is claimed to be read back as the identity that
/// it writes.
#[verifier::external_body]
fn parse_uuid(text: &str) -> (r: Result<u128, String>)
    ensures
        parsed_uuid(text@) == (match r {
            Ok(value) => Ok(value),
            Err(message) => Err(message@),
        }),
        forall|value: u128| #[trigger] uuid_text(value) == text@ ==> r is Ok && r->Ok_0 == value,
{
    Uuid::parse_str(text).map(|uuid| uuid.as_u128()).map_err(|error| error.to_string())
}

impl RunId {
    /// The text of this identity in messages and listings.
    pub open spec fn text(&self) -> Seq<char> {
        uuid_text(self.value)
    }

    /// Write this identity.
    pub fn to_text(&self) -> (r: String)
        ensures
            r@ == self.text(),
    {
        format_uuid(self.value)
    }
}

impl DaemonInstanceId {
    /// The text of this identity in messages and manifests.
    pub open spec fn text(&self) -> Seq<char> {
        uuid_text(self.value)
    }

    /// Write this identity.
    pub fn to_text(&self) -> (r: String)
        ensures
            r@ == self.text(),
    {
        format_uuid(self.value)
    }

    /// Read an identity. What [`Self::to_text`] wrote is read back; of any other
    /// text the error says what is wrong with it.
    pub fn parse(text: &str) -> (r: Result<DaemonInstanceId, String>)
        ensures
            match parsed_uuid(text@) {
                Ok(value) => r == Ok::<DaemonInstanceId, String>(DaemonInstanceId { value }),
                Err(message) => r matches Err(error) && error@ == message,
            },
            forall|id: DaemonInstanceId| #[trigger]
                id.text() == text@ ==> r == Ok::<DaemonInstanceId, String>(id),
    {
        match parse_uuid(text) {
            Ok(value) => Ok(DaemonInstanceId { value }),
            Err(message) => Err(message),
        }
    }
}

/// The text of an identity is made of lower-case hexadecimal digits and
/// hyphens.
pub proof fn lemma_uuid_text_is_hexadecimal(value: u128)
    ensures
        forall|i: int|
            0 <= i < uuid_text(value).len() ==> (#[trigger] uuid_text(value)[i] == '-' || '0'
                <= uuid_text(value)[i] <= '9' || 'a' <= uuid_text(value)[i] <= 'f'),
{
    assert forall|i: int| 0 <= i < uuid_text(value).len() implies (#[trigger] uuid_text(value)[i]
        == '-' || '0' <= uuid_text(value)[i] <= '9' || 'a' <= uuid_text(value)[i] <= 'f') by {
        if !is_hyphen_place(i) {
            let n = hex_digit(value, digits_before(i));
            assert(0 <= n < 16);
            assert(uuid_text(value)[i] == hex_char(n));
        }
    }
}

/// Whether two values agree in their first `k` hexadecimal digits.
spec fn agree(a: u128, b: u128, k: int) -> bool {
    a as int / pow(16, (32 - k) as nat) == b as int / pow(16, (32 - k) as nat)
}

proof fn lemma_first_difference(s: Seq<char>, t: Seq<char>, i: int)
    requires
        0 <= i < s.len(),
        i < t.len(),
        forall|j: int| 0 <= j < i ==> #[trigger] s[j] == t[j],
        s[i] < t[i],
    ensures
        text_not_after(s, t),
        !text_not_after(t, s),
    decreases i,
{
    if i > 0 {
        assert(s[0] == t[0]);
        lemma_first_difference(s.drop_first(), t.drop_first(), i - 1);
    }
}

proof fn lemma_pow16_step(n: nat)
    ensures
        pow(16, n + 1) == 16 * pow(16, n),
        pow(16, n) > 0,
{
    lemma_pow_adds(16, 1, n);
    lemma_pow1(16);
    lemma_pow_positive(16, n);
}

proof fn lemma_pow16_32()
    ensures
        pow(16, 32) == 0x1_0000_0000_0000_0000_0000_0000_0000_0000int,
{
    lemma_pow1(16);
    lemma_pow_adds(16, 1, 1);
    let p2 = pow(16, 2);
    assert(p2 == 16 * 16);
    lemma_pow_adds(16, 2, 2);
    let p4 = pow(16, 4);
    assert(p4 == 0x1_0000) by (nonlinear_arith)
        requires
            p2 == 256,
            p4 == p2 * p2,
    ;
    lemma_pow_adds(16, 4, 4);
    let p8 = pow(16, 8);
    assert(p8 == 0x1_0000_0000) by (nonlinear_arith)
        requires
            p4 == 0x1_0000,
            p8 == p4 * p4,
    ;
    lemma_pow_adds(16, 8, 8);
    let p16 = pow(16, 16);
    assert(p16 == 0x1_0000_0000_0000_0000) by (nonlinear_arith)
        requires
            p8 == 0x1_0000_0000,
            p16 == p8 * p8,
    ;
    lemma_pow_adds(16, 16, 16);
    let p32 = pow(16, 32);
    assert(p32 == 0x1_0000_0000_0000_0000_0000_0000_0000_0000int) by (nonlinear_arith)
        requires
            p16 == 0x1_0000_0000_0000_0000,
            p32 == p16 * p16,
    ;
}

/// The prefix of `k + 1` digits is the prefix of `k` digits and one digit more.
proof fn lemma_prefix_step(value: u128, k: int)
    requires
        0 <= k < 32,
    ensures
        value as int / pow(16, (31 - k) as nat) == 16 * (value as int / pow(16, (32 - k) as nat))
            + hex_digit(value, k),
        0 <= hex_digit(value, k) < 16,
{
    let small = pow(16, (31 - k) as nat);
    lemma_pow16_step((31 - k) as nat);
    lemma_div_denominator(value as int, small, 16);
    assert(small * 16 == 16 * small);
    lemma_fundamental_div_mod(value as int / small, 16);
}

/// The first digit in which two values differ, and that the smaller value has
/// the smaller digit there.
proof fn lemma_find_difference(a: u128, b: u128, k: int) -> (found: int)
    requires
        a < b,
        0 <= k <= 32,
        agree(a, b, k),
        forall|j: int| 0 <= j < k ==> hex_digit(a, j) == #[trigger] hex_digit(b, j),
    ensures
        0 <= found < 32,
        forall|j: int| 0 <= j < found ==> hex_digit(a, j) == #[trigger] hex_digit(b, j),
        hex_digit(a, found) < hex_digit(b, found),
    decreases 32 - k,
{
    if k == 32 {
        lemma_pow0(16);
        assert(a as int / 1 == a as int);
        assert(b as int / 1 == b as int);
        assert(false);
        0
    } else {
        lemma_prefix_step(a, k);
        lemma_prefix_step(b, k);
        lemma_pow_positive(16, (31 - k) as nat);
        lemma_div_is_ordered(a as int, b as int, pow(16, (31 - k) as nat));
        if hex_digit(a, k) == hex_digit(b, k) {
            assert(agree(a, b, k + 1));
            lemma_find_difference(a, b, k + 1)
        } else {
            k
        }
    }
}

proof fn lemma_smaller_text_comes_first(a: u128, b: u128)
    requires
        a < b,
    ensures
        text_not_after(uuid_text(a), uuid_text(b)),
        !text_not_after(uuid_text(b), uuid_text(a)),
{
    assert(agree(a, b, 0)) by {
        lemma_pow16_32();
        let bound = pow(16, 32);
        vstd::arithmetic::div_mod::lemma_basic_div(a as int, bound);
        vstd::arithmetic::div_mod::lemma_basic_div(b as int, bound);
    }
    let k = lemma_find_difference(a, b, 0);
    let place = if k < 8 {
        k
    } else if k < 12 {
        k + 1
    } else if k < 16 {
        k + 2
    } else if k < 20 {
        k + 3
    } else {
        k + 4
    };
    assert(digits_before(place) == k);
    lemma_prefix_step(a, k);
    lemma_prefix_step(b, k);
    let s = uuid_text(a);
    let t = uuid_text(b);
    assert forall|j: int| 0 <= j < place implies #[trigger] s[j] == t[j] by {
        if !is_hyphen_place(j) {
            assert(hex_digit(a, digits_before(j)) == hex_digit(b, digits_before(j)));
        }
    }
    assert(s[place] < t[place]);
    lemma_first_difference(s, t, place);
}

/// Identities are ordered as their texts are.
pub proof fn law_identities_are_ordered_as_their_texts(a: u128, b: u128)
    ensures
        text_not_after(uuid_text(a), uuid_text(b)) <==> a <= b,
{
    if a < b {
        lemma_smaller_text_comes_first(a, b);
    } else if b < a {
        lemma_smaller_text_comes_first(b, a);
    } else {
        lemma_text_order_is_reflexive(uuid_text(a));
    }
}

/// Different identities have different texts.
pub proof fn law_texts_identify(a: u128, b: u128)
    requires
        uuid_text(a) == uuid_text(b),
    ensures
        a == b,
{
    lemma_text_order_is_reflexive(uuid_text(a));
    law_identities_are_ordered_as_their_texts(a, b);
    law_identities_are_ordered_as_their_texts(b, a);
}

} // verus!
