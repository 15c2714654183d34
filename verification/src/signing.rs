//! Signing keys and binary signatures: where a signature comes from, and
//! recording a generated key pair in the configuration.
use vstd::prelude::*;
use crate::config::{ConfigV2, SigningKeyPairV2, SigningKeyPairsV2};
use crate::styled::StyledStr;
use crate::x509::{missing_field_segments, resolve_signing_key_pair};

verus! {

/// Where the signature of a binary comes from.
#[derive(Debug)]
pub enum SignatureSource {
    /// Computed with the PKCS#8 private key stored at this path.
    KeyFile(String),
    /// Given on the command line.
    Given(String),
}

/// The signing key and signature source `binary-signatures create` uses: a key
/// pair of the configuration (its key signs the content when the content is
/// given, else the signature given is used), or a private key file with the
/// signing key named, or the signature given with the signing key named.
pub fn signature_plan(
    signing_key_pair: &Option<String>,
    signing_key_private: &Option<String>,
    signing_key_prn: &Option<String>,
    signature: &Option<String>,
    binary_content_path: &Option<String>,
    pairs: &Option<SigningKeyPairsV2>,
) -> (r: Result<(String, SignatureSource), StyledStr>)
    requires
        signing_key_pair is Some && binary_content_path is None ==> signature is Some,
        signing_key_pair is None ==> signing_key_prn is Some,
        signing_key_pair is None && signing_key_private is None ==> signature is Some,
    ensures
        match signing_key_pair {
            Some(name) => match pairs {
                None => r matches Err(m) && m@ == missing_field_segments("signing_key_pairs"@, "--signing-key-pair"@),
                Some(ps) => if ps.0@.contains_key(name@) {
                    r matches Ok((prn, src)) && prn == ps.0@[name@].signing_key_prn && match binary_content_path {
                        Some(_) => src matches SignatureSource::KeyFile(p) && p == ps.0@[name@].signing_key_private_path,
                        None => src matches SignatureSource::Given(s) && Some(s) == *signature,
                    }
                } else {
                    r matches Err(m) && m@ == missing_field_segments(
                        "signing_key_pairs."@ + name@,
                        "--signing-key-pair"@,
                    )
                },
            },
            None => match signing_key_private {
                Some(path) => r matches Ok((prn, SignatureSource::KeyFile(p))) && Some(prn) == *signing_key_prn
                    && p == path,
                None => r matches Ok((prn, SignatureSource::Given(s))) && Some(prn) == *signing_key_prn
                    && Some(s) == *signature,
            },
        },
{
    match signing_key_pair {
        Some(name) => {
            let (prn, path) = match resolve_signing_key_pair(name.as_str(), pairs) {
                Ok(p) => p,
                Err(m) => return Err(m),
            };
            match binary_content_path {
                Some(_) => Ok((prn, SignatureSource::KeyFile(path))),
                None => match signature {
                    Some(s) => Ok((prn, SignatureSource::Given(s.clone()))),
                    None => Ok((prn, SignatureSource::Given(String::new()))),
                },
            }
        },
        None => {
            let prn = match signing_key_prn {
                Some(p) => p.clone(),
                None => String::new(),
            };
            match signing_key_private {
                Some(path) => Ok((prn, SignatureSource::KeyFile(path.clone()))),
                None => match signature {
                    Some(s) => Ok((prn, SignatureSource::Given(s.clone()))),
                    None => Ok((prn, SignatureSource::Given(String::new()))),
                },
            }
        },
    }
}

/// Records a generated key pair in the configuration under `name`: the signing
/// key's resource name and the path of the private key. A configuration
/// without key pairs gets them; other pairs stay.
pub fn add_signing_key_pair(config: &mut ConfigV2, name: String, signing_key_prn: String, private_path: String)
    ensures
        final(config).version == old(config).version,
        final(config).profiles == old(config).profiles,
        final(config).certificate_authorities == old(config).certificate_authorities,
        final(config).signing_key_pairs matches Some(ps) && ps.0@ == (match old(config).signing_key_pairs {
            Some(o) => o.0@,
            None => Map::<Seq<char>, SigningKeyPairV2>::empty(),
        }).insert(name@, SigningKeyPairV2 { signing_key_prn, signing_key_private_path: private_path }),
{
    let mut pairs: Option<SigningKeyPairsV2> = None;
    std::mem::swap(&mut pairs, &mut config.signing_key_pairs);
    let mut ps = match pairs {
        Some(p) => p,
        None => SigningKeyPairsV2::default(),
    };
    ps.0.insert(name, SigningKeyPairV2 { signing_key_prn, signing_key_private_path: private_path });
    config.signing_key_pairs = Some(ps);
}

} // verus!
