//! The signed credential that authenticates a logon.
use vstd::prelude::*;
use vstd::utf8::encode_utf8;
use base64::Engine;
use ed25519_dalek::Signer;
use crate::message::{delimiter, push_signed_decimal, signed_decimal, soh};

verus! {

/// The 64-byte Ed25519 signature of `msg` under the 32-byte secret `secret`.
pub uninterp spec fn ed25519_signature(secret: Seq<u8>, msg: Seq<u8>) -> Seq<u8>;

/// The standard, padded base64 text of `bytes`.
pub uninterp spec fn base64_text(bytes: Seq<u8>) -> Seq<char>;

/// The bytes that standard base64 text decodes to, or `None` where it is not valid.
pub uninterp spec fn base64_decoded(text: Seq<char>) -> Option<Seq<u8>>;

/// Relies on ed25519_dalek's `SigningKey::from_bytes` and `Signer::sign`: a
/// deterministic signature of `msg` under the secret key, 64 bytes long.
#[verifier::external_body]
fn sign_ed25519(secret: &Vec<u8>, msg: &Vec<u8>) -> (r: Vec<u8>)
    requires
        secret@.len() == 32,
    ensures
        r@ == ed25519_signature(secret@, msg@),
        r@.len() == 64,
{
    let seed: [u8; 32] = secret.as_slice().try_into().unwrap();
    ed25519_dalek::SigningKey::from_bytes(&seed).sign(msg).to_bytes().to_vec()
}

/// Relies on base64's `STANDARD.encode`: the padded standard base64 text of `bytes`.
#[verifier::external_body]
fn encode_base64(bytes: &Vec<u8>) -> (r: String)
    ensures
        r@ == base64_text(bytes@),
{
    base64::engine::general_purpose::STANDARD.encode(bytes)
}

/// Relies on base64's `STANDARD.decode`: the decoded bytes, or `None` on a decode error.
#[verifier::external_body]
fn decode_base64(text: &str) -> (r: Option<Vec<u8>>)
    ensures
        match r {
            Some(b) => base64_decoded(text@) == Some(b@),
            None => base64_decoded(text@) is None,
        },
{
    base64::engine::general_purpose::STANDARD.decode(text).ok()
}

/// Why a private key could not be loaded.
#[derive(PartialEq, Eq, Structural, Clone, Copy, Debug)]
pub enum KeyError {
    /// The text is not valid base64.
    InvalidBase64,
    /// The decoded bytes are neither a raw 32-byte key nor a 48-byte PKCS#8 document.
    InvalidKeyFormat,
}

/// The 32-byte secret of an Ed25519 signing key.
pub struct SigningSecret {
    bytes: Vec<u8>,
}

/// The secret held in decoded key material: a 48-byte PKCS#8 document (first byte
/// `0x30`) carries it in bytes 16 to 48; 32 bytes are the secret itself.
pub open spec fn secret_of(b: Seq<u8>) -> Option<Seq<u8>> {
    if b.len() == 48 && b[0] == 0x30u8 {
        Some(b.subrange(16, 48))
    } else if b.len() == 32 {
        Some(b)
    } else {
        None
    }
}

impl SigningSecret {
    /// The secret's bytes.
    pub closed spec fn view(&self) -> Seq<u8> {
        self.bytes@
    }

    /// A secret is always 32 bytes.
    pub closed spec fn wf(&self) -> bool {
        self.bytes@.len() == 32
    }

    /// Reads a signing key from decoded key material.
    pub fn from_key_bytes(b: &Vec<u8>) -> (r: Result<SigningSecret, KeyError>)
        ensures
            match r {
                Ok(k) => k.wf() && secret_of(b@) == Some(k@),
                Err(e) => secret_of(b@) is None && e == KeyError::InvalidKeyFormat,
            },
    {
        if b.len() == 48 && b[0] == 0x30u8 {
            let mut bytes: Vec<u8> = Vec::new();
            let mut i: usize = 16;
            while i < 48
                invariant
                    b@.len() == 48,
                    16 <= i <= 48,
                    bytes@ == b@.subrange(16, i as int),
                decreases 48 - i,
            {
                bytes.push(b[i]);
                assert(bytes@ =~= b@.subrange(16, i + 1));
                i = i + 1;
            }
            Ok(SigningSecret { bytes })
        } else if b.len() == 32 {
            Ok(SigningSecret { bytes: b.clone() })
        } else {
            Err(KeyError::InvalidKeyFormat)
        }
    }

    /// Reads a signing key from its base64 text, before any connection is made.
    pub fn from_base64(text: &str) -> (r: Result<SigningSecret, KeyError>)
        ensures
            match base64_decoded(text@) {
                None => r == Err::<SigningSecret, KeyError>(KeyError::InvalidBase64),
                Some(b) => match r {
                    Ok(k) => k.wf() && secret_of(b) == Some(k@),
                    Err(e) => secret_of(b) is None && e == KeyError::InvalidKeyFormat,
                },
            },
    {
        match decode_base64(text) {
            Some(b) => SigningSecret::from_key_bytes(&b),
            None => Err(KeyError::InvalidBase64),
        }
    }
}

/// The payload a logon credential signs: `A`, sender, target, sequence number and
/// sending time, separated by the delimiter.
pub open spec fn auth_payload_text(
    sender: Seq<char>,
    target: Seq<char>,
    seq_num: int,
    sending_time: Seq<char>,
) -> Seq<char> {
    seq!['A', soh()] + sender + seq![soh()] + target + seq![soh()] + signed_decimal(seq_num)
        + seq![soh()] + sending_time
}

/// Builds the payload that the logon credential signs.
pub fn auth_payload(sender: &str, target: &str, seq_num: i32, sending_time: &str) -> (r: String)
    ensures
        r@ == auth_payload_text(sender@, target@, seq_num as int, sending_time@),
{
    proof {
        reveal_strlit("A");
    }
    let mut p = String::from_str("A");
    p.append(delimiter());
    p.append(sender);
    p.append(delimiter());
    p.append(target);
    p.append(delimiter());
    push_signed_decimal(&mut p, seq_num as i64);
    p.append(delimiter());
    p.append(sending_time);
    assert(p@ =~= auth_payload_text(sender@, target@, seq_num as int, sending_time@));
    p
}

/// The logon credential: the base64 text of the Ed25519 signature, under
/// `private_key`, of the UTF-8 bytes of the payload.
pub fn compute_raw_data(
    private_key: &SigningSecret,
    sender: &str,
    target: &str,
    seq_num: i32,
    sending_time: &str,
) -> (r: String)
    requires
        private_key.wf(),
    ensures
        r@ == base64_text(
            ed25519_signature(
                private_key@,
                encode_utf8(auth_payload_text(sender@, target@, seq_num as int, sending_time@)),
            ),
        ),
{
    let payload = auth_payload(sender, target, seq_num, sending_time);
    let bytes = payload.as_str().as_bytes_vec();
    let sig = sign_ed25519(&private_key.bytes, &bytes);
    encode_base64(&sig)
}

} // verus!
