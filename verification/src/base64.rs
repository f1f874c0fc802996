//! Payload bytes as text in a handoff manifest: base64 with padding.

use vstd::prelude::*;

verus! {

/// The symbol of a value below 64.
pub open spec fn symbol(value: int) -> u8 {
    if value < 26 {
        (65 + value) as u8
    } else if value < 52 {
        (71 + value) as u8
    } else if value < 62 {
        (value - 4) as u8
    } else if value == 62 {
        43
    } else {
        47
    }
}

/// What fills up an incomplete group.
pub const PADDING: u8 = 61;

/// Some bytes as text: four symbols for every three bytes.
pub open spec fn encoded(data: Seq<u8>) -> Seq<u8>
    decreases data.len(),
{
    if data.len() == 0 {
        seq![]
    } else if data.len() == 1 {
        let a = data[0] as int;
        seq![symbol(a / 4), symbol(a % 4 * 16), PADDING, PADDING]
    } else if data.len() == 2 {
        let (a, b) = (data[0] as int, data[1] as int);
        seq![symbol(a / 4), symbol(a % 4 * 16 + b / 16), symbol(b % 16 * 4), PADDING]
    } else {
        let (a, b, c) = (data[0] as int, data[1] as int, data[2] as int);
        seq![
            symbol(a / 4),
            symbol(a % 4 * 16 + b / 16),
            symbol(b % 16 * 4 + c / 64),
            symbol(c % 64),
        ] + encoded(data.skip(3))
    }
}

fn symbol_of(value: u8) -> (r: u8)
    requires
        value < 64,
    ensures
        r == symbol(value as int),
        r != PADDING,
{
    if value < 26 {
        65 + value
    } else if value < 52 {
        71 + value
    } else if value < 62 {
        value - 4
    } else if value == 62 {
        43
    } else {
        47
    }
}

/// The value of a symbol; zero where it is none.
pub open spec fn symbol_value(text: u8) -> int {
    if 65 <= text <= 90 {
        text - 65
    } else if 97 <= text <= 122 {
        text - 71
    } else if 48 <= text <= 57 {
        text + 4
    } else if text == 43 {
        62
    } else if text == 47 {
        63
    } else {
        0
    }
}

fn value_of(text: u8) -> (r: u8)
    ensures
        r == symbol_value(text),
        r < 64,
{
    if 65 <= text && text <= 90 {
        text - 65
    } else if 97 <= text && text <= 122 {
        text - 71
    } else if 48 <= text && text <= 57 {
        text + 4
    } else if text == 43 {
        62
    } else if text == 47 {
        63
    } else {
        0
    }
}

/// Write some bytes as text.
pub fn encode_base64(data: &Vec<u8>) -> (r: Vec<u8>)
    ensures
        r@ == encoded(data@),
{
    let mut r: Vec<u8> = Vec::new();
    let mut i: usize = 0;
    assert(data@.skip(0) =~= data@);
    assert(r@ + encoded(data@) =~= encoded(data@));
    while data.len() - i >= 3
        invariant
            i <= data@.len(),
            r@ + encoded(data@.skip(i as int)) == encoded(data@),
        decreases data@.len() - i,
    {
        let ghost rest = data@.skip(i as int);
        let ghost before = r@;
        let a: u8 = data[i];
        let b: u8 = data[i + 1];
        let c: u8 = data[i + 2];
        assert(rest[0] == a && rest[1] == b && rest[2] == c);
        r.push(symbol_of(a / 4));
        r.push(symbol_of(a % 4 * 16 + b / 16));
        r.push(symbol_of(b % 16 * 4 + c / 64));
        r.push(symbol_of(c % 64));
        i = i + 3;
        assert(rest.skip(3) =~= data@.skip(i as int));
        assert(r@ + encoded(data@.skip(i as int)) =~= before + encoded(rest));
    }
    let ghost rest = data@.skip(i as int);
    let ghost before = r@;
    if data.len() - i == 1 {
        let a: u8 = data[i];
        assert(rest[0] == a);
        r.push(symbol_of(a / 4));
        r.push(symbol_of(a % 4 * 16));
        r.push(PADDING);
        r.push(PADDING);
        assert(r@ =~= before + encoded(rest));
    } else if data.len() - i == 2 {
        let a: u8 = data[i];
        let b: u8 = data[i + 1];
        assert(rest[0] == a && rest[1] == b);
        r.push(symbol_of(a / 4));
        r.push(symbol_of(a % 4 * 16 + b / 16));
        r.push(symbol_of(b % 16 * 4));
        r.push(PADDING);
        assert(r@ =~= before + encoded(rest));
    } else {
        assert(rest =~= seq![]);
        assert(r@ =~= before + encoded(rest));
    }
    r
}

/// The first group of a text, and where its padding stands.
proof fn lemma_group(data: Seq<u8>)
    requires
        data.len() > 0,
    ensures
        encoded(data).len() >= 4,
        encoded(data)[0] == symbol(data[0] as int / 4),
        data.len() == 1 ==> encoded(data)[1] == symbol(data[0] as int % 4 * 16)
            && encoded(data)[2] == PADDING && encoded(data)[3] == PADDING,
        data.len() > 1 ==> encoded(data)[1] == symbol(
            data[0] as int % 4 * 16 + data[1] as int / 16,
        ) && encoded(data)[2] != PADDING,
        data.len() == 2 ==> encoded(data)[2] == symbol(data[1] as int % 16 * 4)
            && encoded(data)[3] == PADDING,
        data.len() > 2 ==> encoded(data)[2] == symbol(
            data[1] as int % 16 * 4 + data[2] as int / 64,
        ) && encoded(data)[3] == symbol(data[2] as int % 64) && encoded(data)[3] != PADDING
            && encoded(data).skip(4) == encoded(data.skip(3)),
{
    if data.len() > 2 {
        assert(encoded(data).skip(4) =~= encoded(data.skip(3)));
    }
}

/// The bytes that a text stands for, if it stands for any.
spec fn candidate(text: Seq<u8>) -> Seq<u8>
    decreases text.len(),
{
    if text.len() < 4 {
        seq![]
    } else {
        let (p, q) = (symbol_value(text[0]), symbol_value(text[1]));
        let (s, t) = (symbol_value(text[2]), symbol_value(text[3]));
        let first = (p * 4 + q / 16) as u8;
        let second = (q % 16 * 16 + s / 4) as u8;
        let third = (s % 4 * 64 + t) as u8;
        if text[2] == PADDING {
            seq![first]
        } else if text[3] == PADDING {
            seq![first, second]
        } else {
            seq![first, second, third] + candidate(text.skip(4))
        }
    }
}

proof fn lemma_candidate_is_the_only_one(data: Seq<u8>)
    ensures
        candidate(encoded(data)) == data,
    decreases data.len(),
{
    let text = encoded(data);
    if data.len() == 0 {
        assert(candidate(text) =~= data);
    } else {
        lemma_group(data);
        if data.len() > 2 {
            lemma_candidate_is_the_only_one(data.skip(3));
            assert(data =~= seq![data[0], data[1], data[2]] + data.skip(3));
        } else {
            assert(candidate(text) =~= data);
        }
    }
}

/// Read bytes back from their text. Any other text has none.
pub fn decode_base64(text: &Vec<u8>) -> (r: Option<Vec<u8>>)
    ensures
        match r {
            Some(data) => encoded(data@) == text@,
            None => forall|bytes: Seq<u8>| #[trigger] encoded(bytes) != text@,
        },
{
    let mut data: Vec<u8> = Vec::new();
    let mut i: usize = 0;
    let mut open = true;
    assert(text@.skip(0) =~= text@);
    assert(data@ + candidate(text@) =~= candidate(text@));
    while open && text.len() - i >= 4
        invariant
            i <= text@.len(),
            open ==> data@ + candidate(text@.skip(i as int)) == candidate(text@),
            !open ==> data@ == candidate(text@),
        decreases text@.len() - i,
    {
        let ghost rest = text@.skip(i as int);
        let ghost before = data@;
        assert(rest[0] == text@[i as int] && rest[1] == text@[i + 1] && rest[2] == text@[i + 2]
            && rest[3] == text@[i + 3]);
        let p: u8 = value_of(text[i]);
        let q: u8 = value_of(text[i + 1]);
        let s: u8 = value_of(text[i + 2]);
        let t: u8 = value_of(text[i + 3]);
        data.push(p * 4 + q / 16);
        if text[i + 2] == PADDING {
            open = false;
            assert(data@ =~= before + candidate(rest));
        } else {
            data.push(q % 16 * 16 + s / 4);
            if text[i + 3] == PADDING {
                open = false;
                assert(data@ =~= before + candidate(rest));
            } else {
                data.push(s % 4 * 64 + t);
                assert(rest.skip(4) =~= text@.skip(i + 4));
                assert(data@ + candidate(text@.skip(i + 4)) =~= before + candidate(rest));
            }
        }
        i = i + 4;
    }
    proof {
        if open {
            assert(candidate(text@.skip(i as int)) =~= seq![]);
            assert(data@ =~= candidate(text@));
        }
    }
    let again = encode_base64(&data);
    if same_bytes(&again, text) {
        Some(data)
    } else {
        proof {
            assert forall|other: Seq<u8>| #[trigger] encoded(other) != text@ by {
                lemma_candidate_is_the_only_one(other);
            }
        }
        None
    }
}

fn same_bytes(a: &Vec<u8>, b: &Vec<u8>) -> (r: bool)
    ensures
        r == (a@ == b@),
{
    if a.len() != b.len() {
        return false;
    }
    let mut i: usize = 0;
    while i < a.len()
        invariant
            i <= a@.len(),
            a@.len() == b@.len(),
            forall|k: int| 0 <= k < i ==> a@[k] == b@[k],
        decreases a@.len() - i,
    {
        if a[i] != b[i] {
            return false;
        }
        i = i + 1;
    }
    assert(a@ =~= b@);
    true
}

/// What is written as text is read back as it was, so different bytes are
/// different texts.
pub proof fn law_text_identifies_its_bytes(a: Seq<u8>, b: Seq<u8>)
    requires
        encoded(a) == encoded(b),
    ensures
        a == b,
{
    lemma_candidate_is_the_only_one(a);
    lemma_candidate_is_the_only_one(b);
}

} // verus!
