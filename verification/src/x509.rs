//! Creating X.509 certificates: which key and certificate sign the new one,
//! the validity dates, and the names of the files written.
use vstd::prelude::*;
use crate::config::{CertificateAuthoritiesV2, SigningKeyPairsV2};
use crate::styled::{Style, StyledStr};
use crate::text::{chars_of, extend_str, string_of};

verus! {

/// The segments of the error for a configuration field a command option needs.
pub open spec fn missing_field_segments(field: Seq<char>, option: Seq<char>) -> Seq<(Option<Style>, Seq<char>)> {
    seq![
        (Some(Style::Error), "error: "@),
        (None::<Style>, "Config file field "@),
        (None::<Style>, "'"@),
        (Some(Style::Warning), field),
        (None::<Style>, "'"@),
        (None::<Style>, " is unset or null, but is required by the "@ + option + " option."@),
    ]
}

/// The error for a configuration field (non-empty) that the command option
/// needs and that is unset.
pub fn missing_config_field(field: String, option: &str) -> (m: StyledStr)
    requires
        field@.len() > 0,
    ensures
        m@ == missing_field_segments(field@, option@),
{
    let mut m = StyledStr::new();
    let mut tail = chars_of(" is unset or null, but is required by the ");
    extend_str(&mut tail, option);
    extend_str(&mut tail, " option.");
    let tail = string_of(tail.as_slice());
    proof {
        reveal_strlit("error: ");
        reveal_strlit("Config file field ");
        reveal_strlit("'");
        reveal_strlit(" is unset or null, but is required by the ");
    }
    m.push_str(Some(Style::Error), String::from_str("error: "));
    m.push_str(None, String::from_str("Config file field "));
    m.push_str(None, String::from_str("'"));
    m.push_str(Some(Style::Warning), field);
    m.push_str(None, String::from_str("'"));
    m.push_str(None, tail);
    assert(m@ =~= missing_field_segments(field@, option@));
    m
}

fn dotted(head: &str, name: &str) -> (s: String)
    ensures
        s@ == head@ + "."@ + name@,
{
    let mut v = chars_of(head);
    extend_str(&mut v, ".");
    extend_str(&mut v, name);
    string_of(v.as_slice())
}

/// What signs a new certificate.
#[derive(Debug)]
pub enum SignerSource {
    /// The certificate signs itself.
    SelfSigned,
    /// The private key and certificate at these paths sign it.
    Files { key_path: String, cert_path: String },
}

/// Chooses what signs a new certificate: the certificate authority named by
/// `--signer` in the configuration, else the key and certificate files given,
/// else the certificate itself. A named authority the configuration lacks is an
/// error naming the missing field.
pub fn resolve_signer(
    signer: &Option<String>,
    signer_key: &Option<String>,
    signer_cert: &Option<String>,
    authorities: &Option<CertificateAuthoritiesV2>,
) -> (r: Result<SignerSource, StyledStr>)
    ensures
        match signer {
            Some(name) => match authorities {
                None => r matches Err(m) && m@ == missing_field_segments("certificate_authorities"@, "--signer"@),
                Some(cas) => if cas.0@.contains_key(name@) {
                    r matches Ok(SignerSource::Files { key_path, cert_path })
                        && key_path == cas.0@[name@].private_key && cert_path == cas.0@[name@].certificate
                } else {
                    r matches Err(m) && m@ == missing_field_segments(
                        "certificate_authorities."@ + name@,
                        "--signer"@,
                    )
                },
            },
            None => match (signer_key, signer_cert) {
                (Some(k), Some(c)) => r matches Ok(SignerSource::Files { key_path, cert_path })
                    && key_path == k && cert_path == c,
                _ => r matches Ok(SignerSource::SelfSigned),
            },
        },
{
    proof {
        reveal_strlit("certificate_authorities");
        reveal_strlit("certificate_authorities.");
        reveal_strlit(".");
    }
    match signer {
        Some(name) => match authorities {
            None => Err(missing_config_field(String::from_str("certificate_authorities"), "--signer")),
            Some(cas) => match cas.0.get(name.as_str()) {
                Some(ca) => Ok(SignerSource::Files { key_path: ca.private_key.clone(), cert_path: ca.certificate.clone() }),
                None => {
                    let field = dotted("certificate_authorities", name.as_str());
                    assert(field@ =~= "certificate_authorities."@ + name@);
                    Err(missing_config_field(field, "--signer"))
                },
            },
        },
        None => match (signer_key, signer_cert) {
            (Some(k), Some(c)) => Ok(SignerSource::Files { key_path: k.clone(), cert_path: c.clone() }),
            _ => Ok(SignerSource::SelfSigned),
        },
    }
}

/// The key pair named by `--signing-key-pair`: the signing key's resource name
/// and the path of its private key. A pair the configuration lacks is an error
/// naming the missing field.
pub fn resolve_signing_key_pair(name: &str, pairs: &Option<SigningKeyPairsV2>) -> (r: Result<(String, String), StyledStr>)
    ensures
        match pairs {
            None => r matches Err(m) && m@ == missing_field_segments("signing_key_pairs"@, "--signing-key-pair"@),
            Some(ps) => if ps.0@.contains_key(name@) {
                r matches Ok((prn, path)) && prn == ps.0@[name@].signing_key_prn
                    && path == ps.0@[name@].signing_key_private_path
            } else {
                r matches Err(m) && m@ == missing_field_segments("signing_key_pairs."@ + name@, "--signing-key-pair"@)
            },
        },
{
    proof {
        reveal_strlit("signing_key_pairs");
        reveal_strlit("signing_key_pairs.");
        reveal_strlit(".");
    }
    match pairs {
        None => Err(missing_config_field(String::from_str("signing_key_pairs"), "--signing-key-pair")),
        Some(ps) => match ps.0.get(name) {
            Some(p) => Ok((p.signing_key_prn.clone(), p.signing_key_private_path.clone())),
            None => {
                let field = dotted("signing_key_pairs", name);
                assert(field@ =~= "signing_key_pairs."@ + name@);
                Err(missing_config_field(field, "--signing-key-pair"))
            },
        },
    }
}

/// The names of the files a new certificate and its private key are written to.
pub fn certificate_file_names(common_name: &str) -> (r: (String, String))
    ensures
        r.0@ == common_name@ + "-certificate.pem"@,
        r.1@ == common_name@ + "-private-key.pem"@,
{
    let mut c = chars_of(common_name);
    extend_str(&mut c, "-certificate.pem");
    let mut k = chars_of(common_name);
    extend_str(&mut k, "-private-key.pem");
    (string_of(c.as_slice()), string_of(k.as_slice()))
}

/// The calendar date a `YYYY-MM-DD` text names, as year, month and day, or the
/// text of the error the `time` crate gives for it.
pub uninterp spec fn ymd_date(text: Seq<char>) -> Result<(int, int, int), Seq<char>>;

/// Calls `time::Date::parse` with the description `[year]-[month]-[day]` and
/// takes the date's year, month number and day, or the error's text; the
/// contract claims only that the result is a function of the text.
#[verifier::external_body]
fn parse_date(date_str: &str) -> (r: Result<(i32, u8, u8), String>)
    ensures
        match r {
            Ok(d) => ymd_date(date_str@) == Ok::<(int, int, int), Seq<char>>((d.0 as int, d.1 as int, d.2 as int)),
            Err(e) => ymd_date(date_str@) == Err::<(int, int, int), Seq<char>>(e@),
        },
{
    let format = time::format_description::parse("[year]-[month]-[day]").unwrap();
    match time::Date::parse(date_str, &format) {
        Ok(d) => Ok((d.year(), u8::from(d.month()), d.day())),
        Err(e) => Err(e.to_string()),
    }
}

/// The validity period of a new certificate from its start and end dates, both
/// `YYYY-MM-DD`: the start's error when it does not read, else the end's.
pub fn validity_period(start_date: &str, end_date: &str) -> (r: Result<((i32, u8, u8), (i32, u8, u8)), String>)
    ensures
        match (ymd_date(start_date@), ymd_date(end_date@)) {
            (Err(e), _) => r matches Err(m) && m@ == e,
            (Ok(_), Err(e)) => r matches Err(m) && m@ == e,
            (Ok(s), Ok(t)) => r matches Ok((a, b)) && s == (a.0 as int, a.1 as int, a.2 as int)
                && t == (b.0 as int, b.1 as int, b.2 as int),
        },
{
    let start = match parse_date(start_date) {
        Ok(d) => d,
        Err(e) => return Err(e),
    };
    let end = match parse_date(end_date) {
        Ok(d) => d,
        Err(e) => return Err(e),
    };
    Ok((start, end))
}

} // verus!
