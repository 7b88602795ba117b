//! Identifiers of chat completions, built from random (version 4) UUIDs.

use vstd::prelude::*;
use crate::catalog::hex_digit;
use crate::text::{chars_of, push_char};

verus! {

#[verifier::external_type_specification]
#[verifier::external_body]
pub struct ExUuid(uuid::Uuid);

pub open spec fn is_lower_hex_digit(c: char) -> bool {
    ('0' <= c && c <= '9') || ('a' <= c && c <= 'f')
}

/// The positions of the hyphens in the hyphenated form of a UUID.
pub open spec fn is_uuid_hyphen_position(i: int) -> bool {
    i == 8 || i == 13 || i == 18 || i == 23
}

/// The hyphenated lower-case form of a UUID: 36 characters, hyphens at
/// positions 8, 13, 18 and 23, lower-case hex digits elsewhere.
pub open spec fn is_hyphenated_uuid(s: Seq<char>) -> bool {
    &&& s.len() == 36
    &&& forall|i: int|
        0 <= i < 36 ==> if is_uuid_hyphen_position(i) {
            #[trigger] s[i] == '-'
        } else {
            is_lower_hex_digit(s[i])
        }
}

/// The number of hex digits before position `i` of the hyphenated form.
pub open spec fn uuid_digit_index(i: int) -> int {
    i - (if i > 8 {
        1int
    } else {
        0int
    }) - (if i > 13 {
        1int
    } else {
        0int
    }) - (if i > 18 {
        1int
    } else {
        0int
    }) - (if i > 23 {
        1int
    } else {
        0int
    })
}

/// The `k`-th hex digit (high nibble first) of the bytes.
pub open spec fn nibble(bytes: Seq<u8>, k: int) -> nat {
    if k % 2 == 0 {
        (bytes[k / 2] / 16) as nat
    } else {
        (bytes[k / 2] % 16) as nat
    }
}

/// The hyphenated lower-case text of a UUID with the given 16 bytes.
pub open spec fn hyphenated_text(bytes: Seq<u8>) -> Seq<char> {
    Seq::new(
        36,
        |i: int|
            if is_uuid_hyphen_position(i) {
                '-'
            } else {
                hex_digit(nibble(bytes, uuid_digit_index(i)))
            },
    )
}

/// The 32 hex digits of the bytes, without hyphens.
pub open spec fn simple_text(bytes: Seq<u8>) -> Seq<char> {
    Seq::new(32, |k: int| hex_digit(nibble(bytes, k)))
}

/// The bytes of the version 4 UUID made from random bytes: the version
/// nibble set to 4 and the variant bits to `10`.
pub open spec fn v4_bytes(b: Seq<u8>) -> Seq<u8> {
    b.update(6, (b[6] & 0x0f) | 0x40).update(8, (b[8] & 0x3f) | 0x80)
}

/// A UUID together with its 16 bytes.
struct V4Uuid {
    bytes: [u8; 16],
    uuid: uuid::Uuid,
}

impl V4Uuid {
    spec fn bytes(&self) -> Seq<u8> {
        self.bytes@
    }
}

/// `getrandom::fill` on 16 bytes: random bytes from the operating system,
/// or `None` when its random source fails. Nothing is promised of the bytes.
#[verifier::external_body]
fn random_bytes() -> Option<[u8; 16]> {
    let mut bytes = [0u8; 16];
    match getrandom::fill(&mut bytes) {
        Ok(()) => Some(bytes),
        Err(_) => None,
    }
}

/// `uuid::Builder::from_random_bytes`: the version 4 UUID made from 16
/// random bytes, which keeps the bytes but sets the version nibble (byte 6)
/// to 4 and the variant bits (byte 8) to `10`.
#[verifier::external_body]
fn v4_from_random_bytes(b: [u8; 16]) -> (r: V4Uuid)
    ensures
        r.bytes() == v4_bytes(b@),
{
    let uuid = uuid::Builder::from_random_bytes(b).into_uuid();
    V4Uuid { bytes: *uuid.as_bytes(), uuid }
}

/// `Uuid`'s `Display`, which writes the bytes as lower-case hex digits in
/// groups of 8, 4, 4, 4 and 12, joined by hyphens.
#[verifier::external_body]
fn hyphenated(u: &V4Uuid) -> (r: String)
    ensures
        r@ == hyphenated_text(u.bytes()),
{
    u.uuid.to_string()
}

/// `s` with every `-` removed.
pub open spec fn without_hyphens(s: Seq<char>) -> Seq<char>
    decreases s.len(),
{
    if s.len() == 0 {
        seq![]
    } else if s.last() == '-' {
        without_hyphens(s.drop_last())
    } else {
        without_hyphens(s.drop_last()).push(s.last())
    }
}

/// The prefix of completion identifiers.
pub open spec fn completion_prefix() -> Seq<char> {
    "chatcmpl-"@
}

/// The completion identifier made from a UUID's text: `chatcmpl-` followed
/// by the text without its hyphens.
pub fn completion_id_from(uuid_text: &str) -> (r: String)
    ensures
        r@ == completion_prefix() + without_hyphens(uuid_text@),
{
    let cs = chars_of(uuid_text);
    let mut out = String::from_str("chatcmpl-");
    let ghost prefix = out@;
    let n = cs.len();
    for i in 0..n
        invariant
            n == cs.len(),
            prefix == completion_prefix(),
            out@ == prefix + without_hyphens(cs@.take(i as int)),
    {
        assert(cs@.take(i + 1).drop_last() =~= cs@.take(i as int));
        if cs[i] != '-' {
            push_char(&mut out, cs[i]);
        }
    }
    assert(cs@.take(n as int) =~= cs@);
    out
}

pub proof fn lemma_nibble_is_digit(bytes: Seq<u8>, k: int)
    requires
        bytes.len() == 16,
        0 <= k < 32,
    ensures
        nibble(bytes, k) < 16,
        is_lower_hex_digit(hex_digit(nibble(bytes, k))),
{
}

/// Removing the hyphens from the hyphenated text leaves the 32 hex digits.
pub proof fn lemma_without_hyphens_text(bytes: Seq<u8>, k: int)
    requires
        bytes.len() == 16,
        0 <= k <= 36,
    ensures
        without_hyphens(hyphenated_text(bytes).take(k)) == simple_text(bytes).take(
            uuid_digit_index(k),
        ),
    decreases k,
{
    let t = hyphenated_text(bytes);
    if k == 0 {
        assert(t.take(0) =~= Seq::<char>::empty());
        assert(simple_text(bytes).take(0) =~= Seq::<char>::empty());
    } else {
        lemma_without_hyphens_text(bytes, k - 1);
        assert(t.take(k).drop_last() =~= t.take(k - 1));
        assert(t.take(k).last() == t[k - 1]);
        if !is_uuid_hyphen_position(k - 1) {
            let d = uuid_digit_index(k - 1);
            assert(simple_text(bytes).take(d + 1) =~= simple_text(bytes).take(d).push(
                simple_text(bytes)[d],
            ));
            assert(t[k - 1] != '-') by {
                lemma_nibble_is_digit(bytes, d);
            }
        }
    }
}

/// The text of a version 4 UUID has the hyphenated form, with the version
/// digit `4` at position 14 and a variant digit among `8`, `9`, `a`, `b` at
/// position 19.
pub proof fn lemma_v4_text(b: Seq<u8>)
    requires
        b.len() == 16,
    ensures
        is_hyphenated_uuid(hyphenated_text(v4_bytes(b))),
        hyphenated_text(v4_bytes(b))[14] == '4',
        hyphenated_text(v4_bytes(b))[19] == '8' || hyphenated_text(v4_bytes(b))[19] == '9'
            || hyphenated_text(v4_bytes(b))[19] == 'a' || hyphenated_text(v4_bytes(b))[19] == 'b',
{
    let v = v4_bytes(b);
    let t = hyphenated_text(v);
    assert forall|i: int| 0 <= i < 36 implies if is_uuid_hyphen_position(i) {
        #[trigger] t[i] == '-'
    } else {
        is_lower_hex_digit(t[i])
    } by {
        if !is_uuid_hyphen_position(i) {
            lemma_nibble_is_digit(v, uuid_digit_index(i));
        }
    }
    let b6 = b[6];
    let b8 = b[8];
    assert(((b6 & 0x0f) | 0x40) / 16 == 4) by (bit_vector);
    assert(8 <= ((b8 & 0x3f) | 0x80) / 16 <= 11) by (bit_vector);
    assert(v[6] == (b6 & 0x0f) | 0x40);
    assert(v[8] == (b8 & 0x3f) | 0x80);
}

/// The completion identifier for the version 4 UUID made from `b`.
pub open spec fn completion_id_spec(b: Seq<u8>) -> Seq<char> {
    completion_prefix() + without_hyphens(hyphenated_text(v4_bytes(b)))
}

/// The completion identifier for the UUID made from the random bytes `b`.
pub fn completion_id_from_random_bytes(b: [u8; 16]) -> (r: String)
    ensures
        r@ == completion_id_spec(b@),
{
    let u = v4_from_random_bytes(b);
    let text = hyphenated(&u);
    completion_id_from(text.as_str())
}

/// A completion identifier is `chatcmpl-` followed by 32 lower-case hex
/// digits, with the version digit `4` at position 21 and a variant digit
/// among `8`, `9`, `a`, `b` at position 25.
pub proof fn lemma_completion_id_shape(b: Seq<u8>)
    requires
        b.len() == 16,
    ensures
        completion_id_spec(b).len() == 41,
        completion_id_spec(b).subrange(0, 9) == completion_prefix(),
        forall|i: int| 9 <= i < 41 ==> is_lower_hex_digit(#[trigger] completion_id_spec(b)[i]),
        completion_id_spec(b)[21] == '4',
        completion_id_spec(b)[25] == '8' || completion_id_spec(b)[25] == '9'
            || completion_id_spec(b)[25] == 'a' || completion_id_spec(b)[25] == 'b',
{
    reveal_strlit("chatcmpl-");
    let v = v4_bytes(b);
    let t = hyphenated_text(v);
    lemma_v4_text(b);
    lemma_without_hyphens_text(v, 36);
    assert(t.take(36) =~= t);
    let s = simple_text(v);
    assert(s.take(32) =~= s);
    let id = completion_id_spec(b);
    assert(id.subrange(0, 9) =~= completion_prefix());
    assert forall|i: int| 9 <= i < 41 implies is_lower_hex_digit(#[trigger] id[i]) by {
        assert(id[i] == s[i - 9]);
        lemma_nibble_is_digit(v, i - 9);
    }
    assert(id[21] == s[12]);
    assert(t[14] == s[12]);
    assert(id[25] == s[16]);
    assert(t[19] == s[16]);
}

/// A fresh completion identifier from operating-system randomness; `None`
/// when the random source fails.
pub fn new_completion_id() -> (r: Option<String>)
    ensures
        r matches Some(id) ==> exists|b: Seq<u8>| b.len() == 16 && id@ == completion_id_spec(b),
        r matches Some(id) ==> {
            &&& id@.len() == 41
            &&& id@.subrange(0, 9) == completion_prefix()
            &&& forall|i: int| 9 <= i < 41 ==> is_lower_hex_digit(#[trigger] id@[i])
        },
{
    match random_bytes() {
        Some(b) => {
            let id = completion_id_from_random_bytes(b);
            proof {
                lemma_completion_id_shape(b@);
            }
            Some(id)
        },
        None => None,
    }
}

} // verus!
