//! HMAC-SHA256 webhook signature verification.
//!
//! A signature header is accepted exactly when it is `sha256=` followed by
//! the lowercase or uppercase hex encoding of the HMAC-SHA256 digest of the
//! raw request body under the shared secret. The digest comparison runs in
//! constant time.

use vstd::prelude::*;
use vstd::string::StringSliceAdditionalSpecFns;

verus! {

/// HMAC-SHA256 as computed by the `hmac`/`sha2` crates: a pure function of
/// key and message.
pub uninterp spec fn hmac_sha256_of(key: Seq<u8>, msg: Seq<u8>) -> Seq<u8>;

/// Relies on `hmac::Hmac<sha2::Sha256>`: the digest is a function of key and
/// message alone and is 32 bytes long. `new_from_slice` accepts keys of any
/// length for HMAC (its body returns `Ok` unconditionally), so the `expect`
/// cannot fire.
#[verifier::external_body]
fn hmac_sha256(key: &[u8], msg: &[u8]) -> (r: Vec<u8>)
    ensures
        r@ == hmac_sha256_of(key@, msg@),
        r@.len() == 32,
{
    let mut mac = <hmac::Hmac<sha2::Sha256> as hmac::Mac>::new_from_slice(key)
        .expect("HMAC accepts keys of any length");
    hmac::Mac::update(&mut mac, msg);
    hmac::Mac::finalize(mac).into_bytes().to_vec()
}

/// Relies on `subtle::ConstantTimeEq` for `[u8]`: the result is 1 exactly
/// when the slices have the same length and equal contents; the comparison
/// does not short-circuit on content.
#[verifier::external_body]
fn ct_eq_bytes(a: &[u8], b: &[u8]) -> (r: bool)
    ensures
        r == (a@ == b@),
{
    subtle::ConstantTimeEq::ct_eq(a, b).into()
}

/// An ASCII byte that is a hex digit (either case).
pub open spec fn is_hex_digit(b: u8) -> bool {
    (0x30 <= b <= 0x39) || (0x41 <= b <= 0x46) || (0x61 <= b <= 0x66)
}

/// Numeric value of a hex digit byte.
pub open spec fn hex_val(b: u8) -> u8
    recommends
        is_hex_digit(b),
{
    if 0x30 <= b <= 0x39 {
        (b - 0x30) as u8
    } else if 0x41 <= b <= 0x46 {
        (b - 0x41 + 10) as u8
    } else {
        (b - 0x61 + 10) as u8
    }
}

/// A byte string that `hex::decode` accepts: even length, hex digits only.
pub open spec fn valid_hex(s: Seq<u8>) -> bool {
    s.len() % 2 == 0 && (forall|i: int| 0 <= i < s.len() ==> is_hex_digit(#[trigger] s[i]))
}

/// The bytes a valid hex string decodes to: one byte for each digit pair.
pub open spec fn hex_decoded(s: Seq<u8>) -> Seq<u8>
    recommends
        valid_hex(s),
{
    Seq::new((s.len() / 2) as nat, |i: int| (16 * hex_val(s[2 * i]) + hex_val(s[2 * i + 1])) as u8)
}

/// Relies on `hex::decode`: succeeds exactly on even-length strings of hex
/// digits, and maps each digit pair to the byte `16 * hi + lo`.
#[verifier::external_body]
fn hex_decode(data: &[u8]) -> (r: Option<Vec<u8>>)
    ensures
        r is Some <==> valid_hex(data@),
        r matches Some(v) ==> v@ == hex_decoded(data@),
{
    hex::decode(data).ok()
}

/// The ASCII bytes of the mandatory `sha256=` signature prefix.
pub open spec fn sha256_prefix() -> Seq<u8> {
    seq![0x73u8, 0x68u8, 0x61u8, 0x32u8, 0x35u8, 0x36u8, 0x3du8]
}

/// When a signature header authenticates a payload: `sha256=` followed by
/// valid hex that decodes to the payload's HMAC-SHA256 digest under the
/// secret. Stated over the UTF-8 bytes of the secret and the header.
pub open spec fn spec_signature_valid(secret: Seq<u8>, payload: Seq<u8>, sig: Seq<u8>) -> bool {
    &&& sig.len() >= 7
    &&& sig.subrange(0, 7) == sha256_prefix()
    &&& valid_hex(sig.skip(7))
    &&& hex_decoded(sig.skip(7)) == hmac_sha256_of(secret, payload)
}

fn has_sha256_prefix(sig: &[u8]) -> (r: bool)
    ensures
        r == (sig@.len() >= 7 && sig@.subrange(0, 7) == sha256_prefix()),
{
    if sig.len() < 7 {
        return false;
    }
    let r = sig[0] == 0x73 && sig[1] == 0x68 && sig[2] == 0x61 && sig[3] == 0x32 && sig[4]
        == 0x35 && sig[5] == 0x36 && sig[6] == 0x3d;
    proof {
        if r {
            assert(sig@.subrange(0, 7) =~= sha256_prefix());
        } else {
            assert(sig@.subrange(0, 7) != sha256_prefix()) by {
                if sig@.subrange(0, 7) == sha256_prefix() {
                    assert(sig@[0] == sig@.subrange(0, 7)[0]);
                    assert(sig@[1] == sig@.subrange(0, 7)[1]);
                    assert(sig@[2] == sig@.subrange(0, 7)[2]);
                    assert(sig@[3] == sig@.subrange(0, 7)[3]);
                    assert(sig@[4] == sig@.subrange(0, 7)[4]);
                    assert(sig@[5] == sig@.subrange(0, 7)[5]);
                    assert(sig@[6] == sig@.subrange(0, 7)[6]);
                }
            }
        }
    }
    r
}

/// Checks a `sha256=<hex>` signature header against the HMAC-SHA256 digest
/// of the raw payload bytes under the shared secret. Returns false on any
/// other prefix, malformed hex, or digest mismatch; never panics and has no
/// side effects.
pub fn verify_github_signature(secret: &str, payload: &[u8], signature: &str) -> (r: bool)
    ensures
        r == spec_signature_valid(secret.spec_bytes(), payload@, signature.spec_bytes()),
{
    let sig = signature.as_bytes();
    if !has_sha256_prefix(sig) {
        return false;
    }
    let hex_part = &sig[7..sig.len()];
    assert(hex_part@ =~= sig@.skip(7));
    match hex_decode(hex_part) {
        None => false,
        Some(sig_bytes) => {
            let digest = hmac_sha256(secret.as_bytes(), payload);
            ct_eq_bytes(digest.as_slice(), sig_bytes.as_slice())
        },
    }
}

/// Lowercase hex digit byte for a value below 16, as `hex::encode` emits.
pub open spec fn hex_digit_lower(v: u8) -> u8
    recommends
        v < 16,
{
    if v < 10 {
        (0x30 + v) as u8
    } else {
        (0x61 + v - 10) as u8
    }
}

/// The lowercase hex encoding of a byte string: two digits per byte.
pub open spec fn hex_encoded(b: Seq<u8>) -> Seq<u8> {
    Seq::new(2 * b.len(), |i: int|
        if i % 2 == 0 {
            hex_digit_lower(b[i / 2] / 16)
        } else {
            hex_digit_lower(b[i / 2] % 16)
        })
}

/// Hex encoding round-trips: the encoding of any byte string is valid hex
/// and decodes back to the bytes that were encoded.
pub proof fn lemma_hex_round_trip(b: Seq<u8>)
    ensures
        valid_hex(hex_encoded(b)),
        hex_decoded(hex_encoded(b)) == b,
{
    let e = hex_encoded(b);
    assert forall|i: int| 0 <= i < e.len() implies is_hex_digit(#[trigger] e[i]) by {
        if i % 2 == 0 {
            assert(b[i / 2] / 16 < 16);
        } else {
            assert(b[i / 2] % 16 < 16);
        }
    }
    assert forall|i: int| 0 <= i < b.len() implies hex_decoded(e)[i] == b[i] by {
        assert(e[2 * i] == hex_digit_lower(b[i] / 16));
        assert(e[2 * i + 1] == hex_digit_lower(b[i] % 16));
        assert(hex_val(hex_digit_lower(b[i] / 16)) == b[i] / 16);
        assert(hex_val(hex_digit_lower(b[i] % 16)) == b[i] % 16);
        assert(16 * (b[i] / 16) + b[i] % 16 == b[i]) by (nonlinear_arith);
    }
    assert(hex_decoded(e) =~= b);
}

/// A correctly computed signature header always verifies: for any secret and
/// payload, `sha256=` followed by the lowercase hex encoding of the payload's
/// HMAC-SHA256 digest under that secret is accepted, and a header built the
/// same way from any other digest value is rejected.
pub proof fn lemma_signature_round_trip(secret: Seq<u8>, payload: Seq<u8>, digest: Seq<u8>)
    ensures
        spec_signature_valid(secret, payload, sha256_prefix() + hex_encoded(digest))
            <==> digest == hmac_sha256_of(secret, payload),
{
    let sig = sha256_prefix() + hex_encoded(digest);
    assert(sig.subrange(0, 7) =~= sha256_prefix());
    assert(sig.skip(7) =~= hex_encoded(digest));
    lemma_hex_round_trip(digest);
}

/// A header that does not begin with `sha256=` never verifies, whatever the
/// secret and payload.
pub proof fn lemma_prefix_required(secret: Seq<u8>, payload: Seq<u8>, sig: Seq<u8>)
    requires
        !(sig.len() >= 7 && sig.subrange(0, 7) == sha256_prefix()),
    ensures
        !spec_signature_valid(secret, payload, sig),
{
}

} // verus!
