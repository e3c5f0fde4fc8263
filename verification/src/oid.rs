//! Twelve-byte record identifiers and their hexadecimal text form.

use vstd::prelude::*;

verus! {

/// The value of one hexadecimal digit, upper or lower case.
pub open spec fn hex_value(c: char) -> Option<int> {
    let v = c as int;
    if 48 <= v <= 57 {
        Some(v - 48)
    } else if 97 <= v <= 102 {
        Some(v - 87)
    } else if 65 <= v <= 70 {
        Some(v - 55)
    } else {
        None
    }
}

/// The lower-case hexadecimal digit for a value below sixteen.
pub open spec fn hex_char(n: int) -> char {
    if n < 10 {
        (48 + n) as char
    } else {
        (87 + n) as char
    }
}

/// A text is the hexadecimal form of an identifier when it has twenty-four
/// characters and each is a hexadecimal digit.
pub open spec fn is_id_hex(s: Seq<char>) -> bool {
    &&& s.len() == 24
    &&& forall|i: int| 0 <= i < 24 ==> hex_value(#[trigger] s[i]) is Some
}

/// The twelve bytes that twenty-four hexadecimal digits stand for.
pub open spec fn decode_hex(s: Seq<char>) -> Seq<u8> {
    Seq::new(12, |i: int| (16 * hex_value(s[2 * i]).unwrap() + hex_value(s[2 * i + 1]).unwrap()) as u8)
}

/// Two lower-case hexadecimal digits per byte, high nibble first.
pub open spec fn encode_hex(bytes: Seq<u8>) -> Seq<char> {
    Seq::new(
        2 * bytes.len(),
        |i: int|
            hex_char(
                if i % 2 == 0 {
                    bytes[i / 2] as int / 16
                } else {
                    bytes[i / 2] as int % 16
                },
            ),
    )
}

/// `bson::oid::Error`, the error of `ObjectId::parse_str`. Nothing is read
/// from it.
#[verifier::external_type_specification]
#[verifier::external_body]
pub struct ExOidError(bson::oid::Error);

/// `bson::oid::ObjectId::parse_str`, followed by `ObjectId::bytes`.
///
/// The contract claims that parsing succeeds exactly on twenty-four
/// hexadecimal digits of either case, and that each byte of the result is
/// sixteen times the first digit of its pair plus the second.
#[verifier::external_body]
fn parse_hex(s: &str) -> (r: Result<[u8; 12], bson::oid::Error>)
    ensures
        r is Ok <==> is_id_hex(s@),
        r matches Ok(bytes) ==> bytes@ == decode_hex(s@),
{
    match bson::oid::ObjectId::parse_str(s) {
        Ok(id) => Ok(id.bytes()),
        Err(e) => Err(e),
    }
}

/// `bson::oid::ObjectId::from_bytes`, followed by `ObjectId::to_hex`.
///
/// The contract claims that the text holds two lower-case hexadecimal digits
/// for each byte, in order, the high nibble first.
#[verifier::external_body]
fn format_hex(bytes: [u8; 12]) -> (r: String)
    ensures
        r@ == encode_hex(bytes@),
{
    bson::oid::ObjectId::from_bytes(bytes).to_hex()
}

/// `bson::oid::ObjectId::new`, followed by `ObjectId::bytes`.
///
/// The bytes depend on the clock, the process and a counter, so nothing is
/// claimed of them.
#[verifier::external_body]
fn generate_bytes() -> (r: [u8; 12]) {
    bson::oid::ObjectId::new().bytes()
}

/// An opaque record identifier: twelve bytes.
#[derive(Clone, Copy, Debug, PartialEq, Eq, Hash)]
pub struct ObjectId {
    bytes: [u8; 12],
}

impl View for ObjectId {
    type V = Seq<u8>;

    closed spec fn view(&self) -> Seq<u8> {
        self.bytes@
    }
}

/// The identifier with these bytes.
pub open spec fn id_of(bytes: Seq<u8>) -> ObjectId {
    choose|id: ObjectId| id@ == bytes
}

/// The identifier a text stands for, if it is the hexadecimal form of one.
pub open spec fn parse_id(s: Seq<char>) -> Option<ObjectId> {
    if is_id_hex(s) {
        Some(id_of(decode_hex(s)))
    } else {
        None
    }
}

impl ObjectId {
    /// An identifier from its raw bytes.
    pub fn from_bytes(bytes: [u8; 12]) -> (r: ObjectId)
        ensures
            r@ == bytes@,
    {
        ObjectId { bytes }
    }

    /// The raw bytes.
    pub fn bytes(&self) -> (r: [u8; 12])
        ensures
            r@ == self@,
    {
        self.bytes
    }

    /// A fresh identifier. Nothing is promised about its bytes.
    pub fn new() -> (r: ObjectId) {
        ObjectId { bytes: generate_bytes() }
    }

    /// Parses the hexadecimal form: `Some` exactly for twenty-four
    /// hexadecimal digits, with the bytes they stand for.
    pub fn parse_str(s: &str) -> (r: Option<ObjectId>)
        ensures
            r == parse_id(s@),
            r matches Some(id) ==> id@ == decode_hex(s@),
    {
        match parse_hex(s) {
            Ok(bytes) => {
                let id = ObjectId { bytes };
                proof {
                    lemma_id_bytes(id, id_of(decode_hex(s@)));
                }
                Some(id)
            },
            Err(_) => None,
        }
    }

    /// The lower-case hexadecimal form.
    pub fn to_hex(&self) -> (r: String)
        ensures
            r@ == encode_hex(self@),
    {
        format_hex(self.bytes)
    }

    /// Whether two identifiers hold the same bytes.
    pub fn same_as(&self, other: &ObjectId) -> (r: bool)
        ensures
            r == (*self == *other),
            r == (self@ == other@),
    {
        let mut i: usize = 0;
        while i < 12
            invariant
                i <= 12,
                forall|j: int| 0 <= j < i ==> self.bytes@[j] == other.bytes@[j],
            decreases 12 - i,
        {
            if self.bytes[i] != other.bytes[i] {
                return false;
            }
            i += 1;
        }
        proof {
            assert(self.bytes@ =~= other.bytes@);
            assert(self.bytes =~= other.bytes);
        }
        true
    }
}

/// Every identifier has twelve bytes, and identifiers with the same bytes are
/// the same identifier.
pub proof fn lemma_id_bytes(a: ObjectId, b: ObjectId)
    ensures
        a@.len() == 12,
        a@ == b@ ==> a == b,
{
    if a@ == b@ {
        assert(a.bytes =~= b.bytes);
    }
}

/// The hexadecimal form of an identifier reads back to the same identifier.
pub proof fn lemma_hex_round_trip(id: ObjectId)
    ensures
        is_id_hex(encode_hex(id@)),
        parse_id(encode_hex(id@)) == Some(id),
{
    let text = encode_hex(id@);
    lemma_id_bytes(id, id);
    assert forall|i: int| 0 <= i < 24 implies hex_value(#[trigger] text[i]) is Some by {
        lemma_hex_digit(id@[i / 2] as int / 16);
        lemma_hex_digit(id@[i / 2] as int % 16);
    }
    assert forall|k: int| 0 <= k < 12 implies decode_hex(text)[k] == id@[k] by {
        let byte = id@[k] as int;
        lemma_hex_digit(byte / 16);
        lemma_hex_digit(byte % 16);
        assert((2 * k) / 2 == k && (2 * k) % 2 == 0);
        assert((2 * k + 1) / 2 == k && (2 * k + 1) % 2 == 1);
        assert(text[2 * k] == hex_char(byte / 16));
        assert(text[2 * k + 1] == hex_char(byte % 16));
        assert(16 * (byte / 16) + byte % 16 == byte);
    }
    assert(decode_hex(text) =~= id@);
    lemma_id_bytes(id, id_of(decode_hex(text)));
}

/// The digit written for a value below sixteen has that value.
proof fn lemma_hex_digit(n: int)
    requires
        0 <= n < 16,
    ensures
        hex_value(hex_char(n)) == Some(n),
{
    if n < 10 {
        assert((48 + n) as char as int == 48 + n);
    } else {
        assert((87 + n) as char as int == 87 + n);
    }
}

} // verus!
