//! Deterministic record identifiers.
//!
//! An identifier is derived from the kind of a record and the field that is
//! unique among records of that kind, and from nothing else: the same
//! content always gets the same identifier.

use crate::text::push_char;
use crate::types::{ExpertiseRecord, RecordType};
use vstd::prelude::*;
use vstd::utf8::encode_utf8;

verus! {

/// The SHA-256 digest of `data`, as `sha2::Sha256` computes it.
pub uninterp spec fn sha256_digest(data: Seq<u8>) -> Seq<u8>;

/// `sha2::Digest::digest` for `sha2::Sha256`: the digest is a function of
/// the data alone and is 32 bytes long.
#[verifier::external_body]
pub(crate) fn sha256(data: &[u8]) -> (digest: Vec<u8>)
    ensures
        digest@ == sha256_digest(data@),
        digest@.len() == 32,
{
    <sha2::Sha256 as sha2::Digest>::digest(data).to_vec()
}

/// The lower-case hexadecimal digit for a value below sixteen.
pub open spec fn hex_digit(d: int) -> char {
    if d == 0 {
        '0'
    } else if d == 1 {
        '1'
    } else if d == 2 {
        '2'
    } else if d == 3 {
        '3'
    } else if d == 4 {
        '4'
    } else if d == 5 {
        '5'
    } else if d == 6 {
        '6'
    } else if d == 7 {
        '7'
    } else if d == 8 {
        '8'
    } else if d == 9 {
        '9'
    } else if d == 10 {
        'a'
    } else if d == 11 {
        'b'
    } else if d == 12 {
        'c'
    } else if d == 13 {
        'd'
    } else if d == 14 {
        'e'
    } else {
        'f'
    }
}

/// The bytes in lower-case hexadecimal, two digits each.
pub open spec fn hex_text(bytes: Seq<u8>) -> Seq<char>
    decreases bytes.len(),
{
    if bytes.len() == 0 {
        Seq::empty()
    } else {
        hex_text(bytes.drop_last()).push(hex_digit(bytes.last() as int / 16)).push(
            hex_digit(bytes.last() as int % 16),
        )
    }
}

/// What is hashed for a record: the name of its kind, a colon, and its
/// unique field.
pub open spec fn id_key(kind: RecordType, unique: Seq<char>) -> Seq<char> {
    kind.name() + ":"@ + unique
}

/// The first three bytes of the digest of what is hashed for a record.
pub open spec fn id_digest(kind: RecordType, unique: Seq<char>) -> Seq<u8> {
    sha256_digest(encode_utf8(id_key(kind, unique))).take(3)
}

/// The identifier for a kind and a unique field: `mx-` and six hexadecimal
/// digits.
pub open spec fn id_text(kind: RecordType, unique: Seq<char>) -> Seq<char> {
    "mx-"@ + hex_text(id_digest(kind, unique))
}

fn hex_digit_char(d: u8) -> (c: char)
    requires
        d < 16,
    ensures
        c == hex_digit(d as int),
{
    if d == 0 {
        '0'
    } else if d == 1 {
        '1'
    } else if d == 2 {
        '2'
    } else if d == 3 {
        '3'
    } else if d == 4 {
        '4'
    } else if d == 5 {
        '5'
    } else if d == 6 {
        '6'
    } else if d == 7 {
        '7'
    } else if d == 8 {
        '8'
    } else if d == 9 {
        '9'
    } else if d == 10 {
        'a'
    } else if d == 11 {
        'b'
    } else if d == 12 {
        'c'
    } else if d == 13 {
        'd'
    } else if d == 14 {
        'e'
    } else {
        'f'
    }
}

/// The bytes in lower-case hexadecimal.
pub fn hex_encode(bytes: &[u8]) -> (s: String)
    ensures
        s@ == hex_text(bytes@),
{
    let mut s = String::new();
    let mut i: usize = 0;
    assert(bytes@.take(0) =~= Seq::empty());
    while i < bytes.len()
        invariant
            i <= bytes@.len(),
            s@ == hex_text(bytes@.take(i as int)),
        decreases bytes.len() - i,
    {
        proof {
            assert(bytes@.take(i + 1).drop_last() =~= bytes@.take(i as int));
            assert(bytes@.take(i + 1).last() == bytes@[i as int]);
        }
        let b = bytes[i];
        push_char(&mut s, hex_digit_char(b / 16));
        push_char(&mut s, hex_digit_char(b % 16));
        i += 1;
    }
    assert(bytes@.take(bytes@.len() as int) =~= bytes@);
    s
}

/// The identifier of a record: a function of its kind and its unique field.
pub fn generate_record_id(record: &ExpertiseRecord) -> (id: String)
    ensures
        id@ == id_text(record.kind(), record.unique_key()),
        id@.len() == 9,
{
    let mut key = String::new();
    key.append(record.record_type().as_str());
    key.append(":");
    key.append(record.key_text());
    let digest = sha256(key.as_str().as_bytes());
    let mut head: Vec<u8> = Vec::new();
    head.push(digest[0]);
    head.push(digest[1]);
    head.push(digest[2]);
    assert(head@ =~= digest@.take(3));
    let mut id = String::new();
    id.append("mx-");
    id.append(hex_encode(head.as_slice()).as_str());
    proof {
        reveal_strlit("mx-");
        lemma_hex_len(digest@.take(3));
    }
    id
}

// ── Laws ───────────────────────────────────────────────────────────────────

/// The hexadecimal text has two digits for each byte.
pub proof fn lemma_hex_len(bytes: Seq<u8>)
    ensures
        hex_text(bytes).len() == 2 * bytes.len(),
    decreases bytes.len(),
{
    if bytes.len() > 0 {
        lemma_hex_len(bytes.drop_last());
    }
}

/// Different values below sixteen have different hexadecimal digits.
pub proof fn lemma_hex_digit_injective(a: int, b: int)
    requires
        0 <= a < 16,
        0 <= b < 16,
        hex_digit(a) == hex_digit(b),
    ensures
        a == b,
{
}

/// Byte sequences with the same hexadecimal text are the same.
pub proof fn lemma_hex_injective(a: Seq<u8>, b: Seq<u8>)
    requires
        hex_text(a) == hex_text(b),
    ensures
        a == b,
    decreases a.len(),
{
    lemma_hex_len(a);
    lemma_hex_len(b);
    if a.len() > 0 {
        let ha = hex_text(a.drop_last());
        let hb = hex_text(b.drop_last());
        let ta = hex_text(a);
        let tb = hex_text(b);
        lemma_hex_len(a.drop_last());
        lemma_hex_len(b.drop_last());
        assert(ta[ta.len() - 1] == hex_digit(a.last() as int % 16));
        assert(tb[tb.len() - 1] == hex_digit(b.last() as int % 16));
        assert(ta[ta.len() - 2] == hex_digit(a.last() as int / 16));
        assert(tb[tb.len() - 2] == hex_digit(b.last() as int / 16));
        lemma_hex_digit_injective(a.last() as int % 16, b.last() as int % 16);
        lemma_hex_digit_injective(a.last() as int / 16, b.last() as int / 16);
        assert(a.last() == b.last());
        assert(ha =~= ta.take(ta.len() - 2));
        assert(hb =~= tb.take(tb.len() - 2));
        lemma_hex_injective(a.drop_last(), b.drop_last());
        assert(a =~= a.drop_last().push(a.last()));
        assert(b =~= b.drop_last().push(b.last()));
    } else {
        assert(a =~= b);
    }
}

/// Two records of the same kind with the same unique field have the same
/// identifier, whatever else differs between them.
pub proof fn lemma_id_deterministic(a: ExpertiseRecord, b: ExpertiseRecord)
    requires
        a.kind() == b.kind(),
        a.unique_key() == b.unique_key(),
    ensures
        id_text(a.kind(), a.unique_key()) == id_text(b.kind(), b.unique_key()),
{
}

/// Two records have the same identifier exactly when the digests of what
/// is hashed for them agree in their first three bytes: a change of the
/// unique field changes the identifier unless those bytes collide.
pub proof fn lemma_id_differs(a: ExpertiseRecord, b: ExpertiseRecord)
    ensures
        id_text(a.kind(), a.unique_key()) == id_text(b.kind(), b.unique_key()) <==> id_digest(
            a.kind(),
            a.unique_key(),
        ) == id_digest(b.kind(), b.unique_key()),
{
    let da = id_digest(a.kind(), a.unique_key());
    let db = id_digest(b.kind(), b.unique_key());
    let ia = id_text(a.kind(), a.unique_key());
    let ib = id_text(b.kind(), b.unique_key());
    if ia == ib {
        assert(hex_text(da) =~= ia.subrange("mx-"@.len() as int, ia.len() as int));
        assert(hex_text(db) =~= ib.subrange("mx-"@.len() as int, ib.len() as int));
        lemma_hex_injective(da, db);
    }
}

} // verus!
