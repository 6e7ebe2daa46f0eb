//! Frame authentication: session keys and tags.

use crate::framing::push_bytes;
use hmac::Mac;
use vstd::prelude::*;
use vstd::slice::slice_to_vec;
use vstd::string::*;

verus! {

/// HMAC-SHA256 of a message under a key.
pub uninterp spec fn hmac_sha256(key: Seq<u8>, message: Seq<u8>) -> Seq<u8>;

/// The first 32 bytes of HKDF-SHA256 for a salt, a secret and an info text:
/// the first block of the expansion, under the key that is extracted.
pub open spec fn hkdf_sha256(salt: Seq<u8>, secret: Seq<u8>, info: Seq<u8>) -> Seq<u8> {
    hmac_sha256(hmac_sha256(salt, secret), info + seq![1u8])
}

/// The info text that session keys are bound to: a fixed label and the id
/// of the plugin.
pub open spec fn session_info(plugin_id: Seq<char>) -> Seq<u8> {
    vstd::utf8::encode_utf8("vynkor-frame-mac-v1|"@) + vstd::utf8::encode_utf8(plugin_id)
}

/// The key of a connection, from what both ends of it know.
pub open spec fn session_key(secret: Seq<u8>, nonce: Seq<u8>, plugin_id: Seq<char>) -> Seq<u8> {
    hkdf_sha256(nonce, secret, session_info(plugin_id))
}

/// Calls `Hmac::<Sha256>` of the crates `hmac` and `sha2`: `new_from_slice`,
/// `update` with the header, `update` with the payload, `finalize`. Claimed
/// of it: any key is accepted, and the 32 bytes that come out are a function
/// of the key and of header and payload one after the other. What bytes
/// these are is not stated.
#[verifier::external_body]
fn hmac_tag(key: &[u8], header: &[u8], payload: &[u8]) -> (tag: [u8; 32])
    ensures
        tag@ == hmac_sha256(key@, header@ + payload@),
{
    let mut mac = hmac::Hmac::<sha2::Sha256>::new_from_slice(key).expect("any key length is fine");
    mac.update(header);
    mac.update(payload);
    mac.finalize().into_bytes().into()
}

/// Calls `Mac::verify_slice` of the crate `hmac` on the state that
/// [`hmac_tag`] would finalize. Claimed of it: it accepts a tag exactly when
/// the tag is the one that `finalize` gives.
#[verifier::external_body]
fn hmac_matches(key: &[u8], header: &[u8], payload: &[u8], tag: &[u8]) -> (matches: bool)
    ensures
        matches == (tag@ == hmac_sha256(key@, header@ + payload@)),
{
    let mut mac = hmac::Hmac::<sha2::Sha256>::new_from_slice(key).expect("any key length is fine");
    mac.update(header);
    mac.update(payload);
    mac.verify_slice(tag).is_ok()
}

/// Calls `Hkdf::<Sha256>::new` and `expand` of the crate `hkdf`, for 32
/// bytes. Claimed of it: 32 bytes are within the length limit of `expand`,
/// and what comes out is the HMAC-SHA256 of the info text and the byte 1,
/// under the HMAC-SHA256 of the secret, under the salt.
#[verifier::external_body]
fn hkdf_key(salt: &[u8], secret: &[u8], info: &[u8]) -> (key: [u8; 32])
    ensures
        key@ == hkdf_sha256(salt@, secret@, info@),
{
    let mut key = [0u8; 32];
    let hkdf = hkdf::Hkdf::<sha2::Sha256>::new(Some(salt), secret);
    hkdf.expand(info, &mut key).expect("32 bytes are within the limit");
    key
}

/// Derives the key of a connection from the secret, the nonce of the
/// registration and the id of the plugin.
pub fn derive_session_key(secret: &[u8], nonce: &[u8], plugin_id: &str) -> (key: [u8; 32])
    ensures
        key@ == session_key(secret@, nonce@, plugin_id@),
{
    let mut info: Vec<u8> = slice_to_vec("vynkor-frame-mac-v1|".as_bytes());
    push_bytes(&mut info, plugin_id.as_bytes());
    assert(info@ =~= session_info(plugin_id@));
    hkdf_key(nonce, secret, &info)
}

/// The tag over a header and a payload.
pub fn compute_tag(key: &[u8; 32], header: &[u8], payload: &[u8]) -> (tag: [u8; 32])
    ensures
        tag@ == hmac_sha256(key@, header@ + payload@),
{
    hmac_tag(key, header, payload)
}

/// Whether `tag` is the tag over a header and a payload. The comparison
/// takes the same time wherever the tags differ.
pub fn verify_tag(key: &[u8; 32], header: &[u8], payload: &[u8], tag: &[u8]) -> (valid: bool)
    ensures
        valid == (tag@ == hmac_sha256(key@, header@ + payload@)),
{
    hmac_matches(key, header, payload, tag)
}

} // verus!
