//! Peer identifiers.

use vstd::prelude::*;

verus! {

/// `c` is a lower-case hexadecimal digit.
pub open spec fn is_lower_hex(c: char) -> bool {
    ('0' <= c && c <= '9') || ('a' <= c && c <= 'f')
}

/// `s` is the hyphenated lower-case text of a random (version 4, RFC 4122
/// variant) UUID, such as `67e55044-10b1-426f-9247-bb680e5fe0c8`.
pub open spec fn is_v4_uuid_text(s: Seq<char>) -> bool {
    &&& s.len() == 36
    &&& forall|i: int|
        0 <= i < 36 ==> if i == 8 || i == 13 || i == 18 || i == 23 {
            #[trigger] s[i] == '-'
        } else {
            is_lower_hex(s[i])
        }
    &&& s[14] == '4'
    &&& (s[19] == '8' || s[19] == '9' || s[19] == 'a' || s[19] == 'b')
}

/// Calls `uuid::Uuid::new_v4` and formats the result with `Display`. The value is
/// random; what holds of every outcome is its shape: `new_v4` masks in the
/// version nibble 4 and the variant bits `10`, and `Display` writes the
/// hyphenated lower-case form.
#[verifier::external_body]
fn random_uuid_text() -> (s: String)
    ensures
        is_v4_uuid_text(s@),
{
    uuid::Uuid::new_v4().to_string()
}

/// The id under which a peer enters: the one it asked for, or else a fresh
/// random UUID.
pub fn resolve_peer_id(requested: Option<String>) -> (id: String)
    ensures
        match requested {
            Some(p) => id == p,
            None => is_v4_uuid_text(id@),
        },
{
    match requested {
        Some(p) => p,
        None => random_uuid_text(),
    }
}

} // verus!
