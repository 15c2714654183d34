//! Content digests and binary signatures: SHA-256 digests in hexadecimal, and
//! Ed25519 signatures made with a PKCS#8 private key.
use vstd::prelude::*;
use base64::Engine;
use ed25519_dalek::pkcs8::DecodePrivateKey;
use ed25519_dalek::pkcs8::DecodePublicKey;
use ed25519_dalek::Signer;
use sha2::Digest;
use vstd::utf8::encode_utf8;

verus! {

/// The SHA-256 digest of the bytes, as computed by the `sha2` crate.
pub uninterp spec fn sha256_of(data: Seq<u8>) -> Seq<u8>;

/// Calls `sha2::Sha256::digest`; the contract claims that the result is the
/// digest of exactly the given bytes, which SHA-256 makes 32 bytes long.
#[verifier::external_body]
fn sha256(data: &[u8]) -> (d: Vec<u8>)
    ensures
        d@ == sha256_of(data@),
        d@.len() == 32,
{
    sha2::Sha256::digest(data).to_vec()
}

/// The secret key a PKCS#8 PEM document holds, or the text of the error the
/// `ed25519-dalek` crate gives for it.
pub uninterp spec fn pkcs8_pem_key(pem: Seq<char>) -> Result<Seq<u8>, Seq<char>>;

/// Calls `ed25519_dalek::SigningKey::from_pkcs8_pem` and takes the key's 32
/// secret bytes, or the error's text; the contract claims only that the result
/// is a function of the document.
#[verifier::external_body]
fn signing_key_from_pem(pem: &str) -> (r: Result<Vec<u8>, String>)
    ensures
        match r {
            Ok(k) => pkcs8_pem_key(pem@) == Ok::<Seq<u8>, Seq<char>>(k@) && k@.len() == 32,
            Err(e) => pkcs8_pem_key(pem@) == Err::<Seq<u8>, Seq<char>>(e@),
        },
{
    match ed25519_dalek::SigningKey::from_pkcs8_pem(pem) {
        Ok(key) => Ok(key.to_bytes().to_vec()),
        Err(e) => Err(e.to_string()),
    }
}

/// The Ed25519 signature of a message under a secret key: the bytes of R then s.
pub uninterp spec fn ed25519_signature(secret: Seq<u8>, message: Seq<u8>) -> Seq<u8>;

/// Calls `ed25519_dalek::SigningKey::sign` with the key made from the 32 secret
/// bytes, and takes the signature's bytes; Ed25519 signing is deterministic and
/// a signature is 64 bytes long.
#[verifier::external_body]
fn ed25519_sign(secret: &[u8], message: &[u8]) -> (sig: Vec<u8>)
    requires
        secret@.len() == 32,
    ensures
        sig@ == ed25519_signature(secret@, message@),
        sig@.len() == 64,
{
    let bytes: [u8; 32] = secret.try_into().unwrap();
    let key = ed25519_dalek::SigningKey::from_bytes(&bytes);
    key.sign(message).to_bytes().to_vec()
}

/// The hexadecimal digit for `d` (below sixteen), upper or lower case.
pub open spec fn hex_digit(d: int, upper: bool) -> char {
    if d < 10 {
        ((48 + d) as u8) as char
    } else if upper {
        ((55 + d) as u8) as char
    } else {
        ((87 + d) as u8) as char
    }
}

/// The bytes in hexadecimal, two digits per byte, high digit first.
pub open spec fn hex_of(bytes: Seq<u8>, upper: bool) -> Seq<char>
    decreases bytes.len(),
{
    if bytes.len() == 0 {
        Seq::empty()
    } else {
        hex_of(bytes.drop_last(), upper).push(hex_digit((bytes.last() / 16) as int, upper)).push(
            hex_digit((bytes.last() % 16) as int, upper),
        )
    }
}

fn digit(d: u8, upper: bool) -> (c: char)
    requires
        d < 16,
    ensures
        c == hex_digit(d as int, upper),
{
    if d < 10 {
        (48 + d) as char
    } else if upper {
        (55 + d) as char
    } else {
        (87 + d) as char
    }
}

/// The bytes in hexadecimal.
pub fn to_hex(bytes: &[u8], upper: bool) -> (s: String)
    ensures
        s@ == hex_of(bytes@, upper),
{
    let mut v: Vec<char> = Vec::new();
    let mut i: usize = 0;
    while i < bytes.len()
        invariant
            i <= bytes.len(),
            v@ == hex_of(bytes@.take(i as int), upper),
        decreases bytes.len() - i,
    {
        let b = bytes[i];
        v.push(digit(b / 16, upper));
        v.push(digit(b % 16, upper));
        assert(bytes@.take(i as int + 1).drop_last() =~= bytes@.take(i as int));
        i = i + 1;
    }
    assert(bytes@.take(bytes.len() as int) =~= bytes@);
    crate::text::string_of(v.as_slice())
}

/// The lowercase hexadecimal SHA-256 digest of the content, as the server
/// expects a binary's hash.
pub fn content_hash(data: &[u8]) -> (h: String)
    ensures
        h@ == hex_of(sha256_of(data@), false),
        h@.len() == 64,
{
    let d = sha256(data);
    let h = to_hex(d.as_slice(), false);
    proof {
        lemma_hex_len(d@, false);
    }
    h
}

/// A hexadecimal text has two digits per byte.
pub proof fn lemma_hex_len(bytes: Seq<u8>, upper: bool)
    ensures
        hex_of(bytes, upper).len() == 2 * bytes.len(),
    decreases bytes.len(),
{
    if bytes.len() > 0 {
        lemma_hex_len(bytes.drop_last(), upper);
    }
}

/// The message for a private key that cannot be read.
pub open spec fn key_error_text(key_path: Seq<char>, error: Seq<char>) -> Seq<char> {
    "Failed to parse private key from '"@ + key_path + "': "@ + error
}

/// Signs the hash of a binary's content with the PKCS#8 PEM private key read
/// from `key_path`: the uppercase hexadecimal Ed25519 signature of the hash's
/// text, or the message for a key that cannot be read.
pub fn sign_hash(private_key_pem: &str, key_path: &str, hash: &str) -> (r: Result<String, String>)
    ensures
        match pkcs8_pem_key(private_key_pem@) {
            Ok(k) => r matches Ok(s) && s@ == hex_of(ed25519_signature(k, encode_utf8(hash@)), true),
            Err(e) => r matches Err(m) && m@ == key_error_text(key_path@, e),
        },
{
    match signing_key_from_pem(private_key_pem) {
        Ok(secret) => {
            let sig = ed25519_sign(secret.as_slice(), hash.as_bytes());
            Ok(to_hex(sig.as_slice(), true))
        },
        Err(e) => {
            let mut v = crate::text::chars_of("Failed to parse private key from '");
            crate::text::extend_str(&mut v, key_path);
            crate::text::extend_str(&mut v, "': ");
            crate::text::extend_str(&mut v, e.as_str());
            Err(crate::text::string_of(v.as_slice()))
        },
    }
}

/// Signs a binary: with the hash given, or else with the digest of its content.
pub fn sign_binary_content(
    private_key_pem: &str,
    key_path: &str,
    known_hash: &Option<String>,
    content: &[u8],
) -> (r: Result<String, String>)
    ensures
        ({
            let hash = match known_hash {
                Some(h) => h@,
                None => hex_of(sha256_of(content@), false),
            };
            match pkcs8_pem_key(private_key_pem@) {
                Ok(k) => r matches Ok(s) && s@ == hex_of(ed25519_signature(k, encode_utf8(hash)), true),
                Err(e) => r matches Err(m) && m@ == key_error_text(key_path@, e),
            }
        }),
{
    let hash = match known_hash {
        Some(h) => h.clone(),
        None => content_hash(content),
    };
    sign_hash(private_key_pem, key_path, hash.as_str())
}


/// The standard Base64 text (with padding) of the bytes.
pub uninterp spec fn base64_of(data: Seq<u8>) -> Seq<char>;

/// Calls `base64::engine::general_purpose::STANDARD.encode`; the contract claims
/// only that the text is a function of the bytes.
#[verifier::external_body]
fn base64_encode(data: &[u8]) -> (s: String)
    ensures
        s@ == base64_of(data@),
{
    base64::engine::general_purpose::STANDARD.encode(data)
}

/// The checksum a part upload declares: the Base64 text of the SHA-256 digest
/// of the part's content.
pub fn checksum_header(content: &[u8]) -> (s: String)
    ensures
        s@ == base64_of(sha256_of(content@)),
{
    let d = sha256(content);
    base64_encode(d.as_slice())
}

/// The public key bytes a SubjectPublicKeyInfo PEM document holds, or the text
/// of the error the `ed25519-dalek` crate gives for it.
pub uninterp spec fn spki_pem_key(pem: Seq<char>) -> Result<Seq<u8>, Seq<char>>;

/// Calls `ed25519_dalek::VerifyingKey::from_public_key_pem` and takes the key's
/// bytes, or the error's text; the contract claims only that the result is a
/// function of the document.
#[verifier::external_body]
fn public_key_from_pem(pem: &str) -> (r: Result<Vec<u8>, String>)
    ensures
        match r {
            Ok(k) => spki_pem_key(pem@) == Ok::<Seq<u8>, Seq<char>>(k@),
            Err(e) => spki_pem_key(pem@) == Err::<Seq<u8>, Seq<char>>(e@),
        },
{
    match ed25519_dalek::VerifyingKey::from_public_key_pem(pem) {
        Ok(key) => Ok(key.as_bytes().to_vec()),
        Err(e) => Err(e.to_string()),
    }
}

/// The value a signing key is registered with: the Base64 text of its raw
/// public key bytes.
pub fn signing_key_value(public_key: &[u8]) -> (s: String)
    ensures
        s@ == base64_of(public_key@),
{
    base64_encode(public_key)
}

/// The value a signing key is registered with, from its public key PEM
/// document; fails with the parser's message for a document that holds no
/// Ed25519 public key.
pub fn signing_key_value_from_pem(pem: &str) -> (r: Result<String, String>)
    ensures
        match spki_pem_key(pem@) {
            Ok(k) => r matches Ok(s) && s@ == base64_of(k),
            Err(e) => r matches Err(m) && m@ == e,
        },
{
    match public_key_from_pem(pem) {
        Ok(k) => Ok(base64_encode(k.as_slice())),
        Err(e) => Err(e),
    }
}

} // verus!
