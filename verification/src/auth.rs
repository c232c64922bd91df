//! Request authentication.
//!
//! A request is authentic when the Ed25519 signature carried in its
//! signature header (hex-encoded) verifies, under the configured public
//! key, over the timestamp header bytes concatenated with the raw body
//! bytes — exactly the bytes that were received, before any decoding. A
//! missing header, bad hex, or a failed verification all mean the request
//! is not authentic; none is fatal.

use vstd::prelude::*;

verus! {

/// Whether `b` is an ASCII hexadecimal digit.
pub open spec fn is_hex_digit(b: u8) -> bool {
    (48 <= b <= 57) || (97 <= b <= 102) || (65 <= b <= 70)
}

/// The value of an ASCII hexadecimal digit.
pub open spec fn hex_nibble(b: u8) -> u8
    recommends
        is_hex_digit(b),
{
    if 48 <= b <= 57 {
        (b - 48) as u8
    } else if 97 <= b <= 102 {
        (b - 87) as u8
    } else if 65 <= b <= 70 {
        (b - 55) as u8
    } else {
        0
    }
}

/// Hexadecimal decoding: defined exactly when the input has even length
/// and every byte is a hex digit; each digit pair gives one output byte.
pub open spec fn hex_decode_spec(s: Seq<u8>) -> Option<Seq<u8>> {
    if s.len() % 2 == 0 && (forall|i: int| 0 <= i < s.len() ==> is_hex_digit(#[trigger] s[i])) {
        Some(
            Seq::new(
                (s.len() / 2) as nat,
                |i: int| (hex_nibble(s[2 * i]) * 16 + hex_nibble(s[2 * i + 1])) as u8,
            ),
        )
    } else {
        None
    }
}

/// Decodes one ASCII hexadecimal digit.
fn hex_digit(b: u8) -> (r: Option<u8>)
    ensures
        r matches Some(v) ==> is_hex_digit(b) && v == hex_nibble(b),
        r is None ==> !is_hex_digit(b),
{
    if 48 <= b && b <= 57 {
        Some(b - 48)
    } else if 97 <= b && b <= 102 {
        Some(b - 87)
    } else if 65 <= b && b <= 70 {
        Some(b - 55)
    } else {
        None
    }
}

/// Decodes a hex-encoded byte string; fails exactly on odd length or a
/// non-hex byte.
pub fn hex_decode(s: &Vec<u8>) -> (r: Option<Vec<u8>>)
    ensures
        match r {
            Some(b) => hex_decode_spec(s@) == Some(b@),
            None => hex_decode_spec(s@) is None,
        },
{
    let n = s.len();
    if n % 2 != 0 {
        return None;
    }
    let mut out: Vec<u8> = Vec::new();
    let mut i: usize = 0;
    while i < n
        invariant
            n == s.len(),
            n % 2 == 0,
            i % 2 == 0,
            i <= n,
            out@.len() == i / 2,
            forall|j: int| 0 <= j < i ==> is_hex_digit(#[trigger] s@[j]),
            forall|k: int|
                0 <= k < out@.len() ==> out@[k] == (hex_nibble(s@[2 * k]) * 16 + hex_nibble(
                    s@[2 * k + 1],
                )) as u8,
        decreases n - i,
    {
        let hi = match hex_digit(s[i]) {
            Some(v) => v,
            None => {
                return None;
            },
        };
        let lo = match hex_digit(s[i + 1]) {
            Some(v) => v,
            None => {
                return None;
            },
        };
        out.push(hi * 16 + lo);
        i = i + 2;
    }
    proof {
        let decoded = hex_decode_spec(s@)->Some_0;
        assert(out@ =~= decoded);
    }
    Some(out)
}

/// Whether an Ed25519 signature over `msg`, given as raw signature bytes,
/// verifies under the raw public-key bytes. The scheme fixes this for every
/// byte combination; it is decided here by the outside implementation.
pub uninterp spec fn ed25519_valid(pk: Seq<u8>, msg: Seq<u8>, sig: Seq<u8>) -> bool;

/// Whether raw bytes form a well-formed Ed25519 public key.
pub uninterp spec fn ed25519_key_wf(pk: Seq<u8>) -> bool;

/// Relies on ed25519_dalek::VerifyingKey::from_bytes and
/// ed25519_dalek::VerifyingKey::verify: converts the raw key and signature
/// bytes and reports whether the signature verifies over `msg`. A signature
/// of a length other than 64 bytes never verifies
/// (ed25519_dalek::Signature::from_slice fails on it).
#[verifier::external_body]
fn ed25519_verify(pk: &Vec<u8>, msg: &Vec<u8>, sig: &Vec<u8>) -> (r: bool)
    requires
        pk@.len() == 32,
    ensures
        r == ed25519_valid(pk@, msg@, sig@),
{
    let key_bytes: &[u8; 32] = match pk.as_slice().try_into() {
        Ok(b) => b,
        Err(_) => return false,
    };
    let key = match ed25519_dalek::VerifyingKey::from_bytes(key_bytes) {
        Ok(k) => k,
        Err(_) => return false,
    };
    let signature = match ed25519_dalek::Signature::from_slice(sig.as_slice()) {
        Ok(s) => s,
        Err(_) => return false,
    };
    ed25519_dalek::Verifier::verify(&key, msg.as_slice(), &signature).is_ok()
}

/// Relies on ed25519_dalek::VerifyingKey::from_bytes: whether the raw bytes
/// form a well-formed public key (a decompressible curve point).
#[verifier::external_body]
fn ed25519_key_parses(pk: &Vec<u8>) -> (r: bool)
    requires
        pk@.len() == 32,
    ensures
        r == ed25519_key_wf(pk@),
{
    let key_bytes: &[u8; 32] = match pk.as_slice().try_into() {
        Ok(b) => b,
        Err(_) => return false,
    };
    ed25519_dalek::VerifyingKey::from_bytes(key_bytes).is_ok()
}

/// The configured Ed25519 public key: 32 raw key bytes, checked once at
/// startup. A malformed key is a configuration error, not a per-request
/// error.
pub struct VerifierKey {
    bytes: Vec<u8>,
}

impl View for VerifierKey {
    type V = Seq<u8>;

    closed spec fn view(&self) -> Seq<u8> {
        self.bytes@
    }
}

impl VerifierKey {
    /// A well-formed verifier key: 32 bytes forming a valid public key.
    pub open spec fn wf(self) -> bool {
        self@.len() == 32 && ed25519_key_wf(self@)
    }

    /// Decodes the configured public key from hex. Returns the key exactly
    /// when the hex is valid and decodes to 32 bytes forming a well-formed
    /// public key; anything else is a fatal configuration error.
    pub fn from_hex(hex: &Vec<u8>) -> (r: Option<VerifierKey>)
        ensures
            match r {
                Some(key) => {
                    &&& key.wf()
                    &&& hex_decode_spec(hex@) == Some(key@)
                },
                None => match hex_decode_spec(hex@) {
                    Some(b) => b.len() != 32 || !ed25519_key_wf(b),
                    None => true,
                },
            },
    {
        let bytes = match hex_decode(hex) {
            Some(b) => b,
            None => {
                return None;
            },
        };
        if bytes.len() != 32 {
            return None;
        }
        if !ed25519_key_parses(&bytes) {
            return None;
        }
        Some(VerifierKey { bytes })
    }

    /// The raw key bytes.
    pub fn as_bytes(&self) -> (r: &Vec<u8>)
        ensures
            r@ == self@,
    {
        &self.bytes
    }
}

/// The message whose signature is checked: the timestamp header bytes
/// concatenated with the raw body bytes, no delimiter.
pub open spec fn signed_message(timestamp: Seq<u8>, body: Seq<u8>) -> Seq<u8> {
    timestamp + body
}

/// Whether a request is authentic: both headers present, the signature
/// header valid hex, and the decoded signature valid over the signed
/// message under the public key.
pub open spec fn request_authentic(
    pk: Seq<u8>,
    timestamp: Option<Seq<u8>>,
    signature: Option<Seq<u8>>,
    body: Seq<u8>,
) -> bool {
    match (timestamp, signature) {
        (Some(ts), Some(sig)) => match hex_decode_spec(sig) {
            Some(sig_bytes) => ed25519_valid(pk, signed_message(ts, body), sig_bytes),
            None => false,
        },
        _ => false,
    }
}

/// Checks a request's authenticity: decodes the signature header from hex
/// and verifies the Ed25519 signature over the timestamp bytes followed by
/// the raw body bytes. Returns false — never an error — when a header is
/// missing, the hex is invalid, or the signature does not verify.
pub fn verify_request(
    key: &VerifierKey,
    timestamp: Option<&Vec<u8>>,
    signature: Option<&Vec<u8>>,
    body: &Vec<u8>,
) -> (r: bool)
    requires
        key.wf(),
    ensures
        r == request_authentic(
            key@,
            match timestamp {
                Some(t) => Some(t@),
                None => None,
            },
            match signature {
                Some(s) => Some(s@),
                None => None,
            },
            body@,
        ),
{
    let ts = match timestamp {
        Some(t) => t,
        None => {
            return false;
        },
    };
    let sig_hex = match signature {
        Some(s) => s,
        None => {
            return false;
        },
    };
    let sig_bytes = match hex_decode(sig_hex) {
        Some(b) => b,
        None => {
            return false;
        },
    };
    let mut message: Vec<u8> = Vec::new();
    message.extend_from_slice(ts.as_slice());
    message.extend_from_slice(body.as_slice());
    proof {
        assert(message@ =~= signed_message(ts@, body@));
    }
    ed25519_verify(key.as_bytes(), &message, &sig_bytes)
}

} // verus!
