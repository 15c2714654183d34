//! Resource types and the check applied to resource-name arguments.
use vstd::prelude::*;
use crate::prn::{is_uuid, uuid_parses, prn_text, spec_build, spec_parse};
use crate::text::{chars_of, extend_str, split_on, split_str, str_eq, string_of};

verus! {

/// The kinds of resources a name can denote.
#[derive(Clone, Copy, PartialEq, Eq, Debug, Structural)]
pub enum PRNType {
    APIKey,
    Artifact,
    ArtifactVersion,
    AuditLog,
    Binary,
    BinaryPart,
    BinarySignature,
    Bundle,
    BundleOverride,
    CACertificate,
    Cohort,
    Deployment,
    Device,
    DeviceCertificate,
    Event,
    Firmware,
    OrgUser,
    Organization,
    Product,
    Release,
    ReleaseClaim,
    SigningKey,
    Tunnel,
    User,
    WebConsoleShell,
    Webhook,
}

/// The resource type a type name denotes, if any.
pub open spec fn prn_type_from(s: Seq<char>) -> Option<PRNType> {
    if s == "api_key"@ {
        Some(PRNType::APIKey)
    } else if s == "artifact"@ {
        Some(PRNType::Artifact)
    } else if s == "artifact_version"@ {
        Some(PRNType::ArtifactVersion)
    } else if s == "audit_log"@ {
        Some(PRNType::AuditLog)
    } else if s == "binary"@ {
        Some(PRNType::Binary)
    } else if s == "binary_part"@ {
        Some(PRNType::BinaryPart)
    } else if s == "binary_signature"@ {
        Some(PRNType::BinarySignature)
    } else if s == "bundle"@ {
        Some(PRNType::Bundle)
    } else if s == "bundle_override"@ {
        Some(PRNType::BundleOverride)
    } else if s == "ca_certificate"@ {
        Some(PRNType::CACertificate)
    } else if s == "cohort"@ {
        Some(PRNType::Cohort)
    } else if s == "deployment"@ {
        Some(PRNType::Deployment)
    } else if s == "device"@ {
        Some(PRNType::Device)
    } else if s == "device_certificate"@ {
        Some(PRNType::DeviceCertificate)
    } else if s == "event"@ {
        Some(PRNType::Event)
    } else if s == "firmware"@ {
        Some(PRNType::Firmware)
    } else if s == "org_user"@ {
        Some(PRNType::OrgUser)
    } else if s == "organization"@ {
        Some(PRNType::Organization)
    } else if s == "product"@ {
        Some(PRNType::Product)
    } else if s == "release"@ {
        Some(PRNType::Release)
    } else if s == "release_claim"@ {
        Some(PRNType::ReleaseClaim)
    } else if s == "signing_key"@ {
        Some(PRNType::SigningKey)
    } else if s == "tunnel"@ {
        Some(PRNType::Tunnel)
    } else if s == "user"@ {
        Some(PRNType::User)
    } else if s == "web_console_shell"@ {
        Some(PRNType::WebConsoleShell)
    } else if s == "webhook"@ {
        Some(PRNType::Webhook)
    } else {
        None
    }
}

/// The name of the variant, as the debug output shows it.
pub open spec fn debug_name(t: PRNType) -> Seq<char> {
    match t {
        PRNType::APIKey => "APIKey"@,
        PRNType::Artifact => "Artifact"@,
        PRNType::ArtifactVersion => "ArtifactVersion"@,
        PRNType::AuditLog => "AuditLog"@,
        PRNType::Binary => "Binary"@,
        PRNType::BinaryPart => "BinaryPart"@,
        PRNType::BinarySignature => "BinarySignature"@,
        PRNType::Bundle => "Bundle"@,
        PRNType::BundleOverride => "BundleOverride"@,
        PRNType::CACertificate => "CACertificate"@,
        PRNType::Cohort => "Cohort"@,
        PRNType::Deployment => "Deployment"@,
        PRNType::Device => "Device"@,
        PRNType::DeviceCertificate => "DeviceCertificate"@,
        PRNType::Event => "Event"@,
        PRNType::Firmware => "Firmware"@,
        PRNType::OrgUser => "OrgUser"@,
        PRNType::Organization => "Organization"@,
        PRNType::Product => "Product"@,
        PRNType::Release => "Release"@,
        PRNType::ReleaseClaim => "ReleaseClaim"@,
        PRNType::SigningKey => "SigningKey"@,
        PRNType::Tunnel => "Tunnel"@,
        PRNType::User => "User"@,
        PRNType::WebConsoleShell => "WebConsoleShell"@,
        PRNType::Webhook => "Webhook"@,
    }
}

impl PRNType {
    /// The resource type named by `value` (`"binary"`, `"signing_key"`, ...).
    pub fn try_from(value: String) -> (r: Result<PRNType, &'static str>)
        ensures
            match r {
                Ok(t) => prn_type_from(value@) == Some(t),
                Err(m) => prn_type_from(value@) is None && m@ == "Invalid PRN type"@,
            },
    {
        let v = value.as_str();
        if str_eq(v, "api_key") {
            Ok(PRNType::APIKey)
        } else if str_eq(v, "artifact") {
            Ok(PRNType::Artifact)
        } else if str_eq(v, "artifact_version") {
            Ok(PRNType::ArtifactVersion)
        } else if str_eq(v, "audit_log") {
            Ok(PRNType::AuditLog)
        } else if str_eq(v, "binary") {
            Ok(PRNType::Binary)
        } else if str_eq(v, "binary_part") {
            Ok(PRNType::BinaryPart)
        } else if str_eq(v, "binary_signature") {
            Ok(PRNType::BinarySignature)
        } else if str_eq(v, "bundle") {
            Ok(PRNType::Bundle)
        } else if str_eq(v, "bundle_override") {
            Ok(PRNType::BundleOverride)
        } else if str_eq(v, "ca_certificate") {
            Ok(PRNType::CACertificate)
        } else if str_eq(v, "cohort") {
            Ok(PRNType::Cohort)
        } else if str_eq(v, "deployment") {
            Ok(PRNType::Deployment)
        } else if str_eq(v, "device") {
            Ok(PRNType::Device)
        } else if str_eq(v, "device_certificate") {
            Ok(PRNType::DeviceCertificate)
        } else if str_eq(v, "event") {
            Ok(PRNType::Event)
        } else if str_eq(v, "firmware") {
            Ok(PRNType::Firmware)
        } else if str_eq(v, "org_user") {
            Ok(PRNType::OrgUser)
        } else if str_eq(v, "organization") {
            Ok(PRNType::Organization)
        } else if str_eq(v, "product") {
            Ok(PRNType::Product)
        } else if str_eq(v, "release") {
            Ok(PRNType::Release)
        } else if str_eq(v, "release_claim") {
            Ok(PRNType::ReleaseClaim)
        } else if str_eq(v, "signing_key") {
            Ok(PRNType::SigningKey)
        } else if str_eq(v, "tunnel") {
            Ok(PRNType::Tunnel)
        } else if str_eq(v, "user") {
            Ok(PRNType::User)
        } else if str_eq(v, "web_console_shell") {
            Ok(PRNType::WebConsoleShell)
        } else if str_eq(v, "webhook") {
            Ok(PRNType::Webhook)
        } else {
            Err("Invalid PRN type")
        }
    }

    /// The variant's name as its debug output shows it.
    pub fn debug_name(&self) -> (s: &'static str)
        ensures
            s@ == debug_name(*self),
    {
        match self {
            PRNType::APIKey => "APIKey",
            PRNType::Artifact => "Artifact",
            PRNType::ArtifactVersion => "ArtifactVersion",
            PRNType::AuditLog => "AuditLog",
            PRNType::Binary => "Binary",
            PRNType::BinaryPart => "BinaryPart",
            PRNType::BinarySignature => "BinarySignature",
            PRNType::Bundle => "Bundle",
            PRNType::BundleOverride => "BundleOverride",
            PRNType::CACertificate => "CACertificate",
            PRNType::Cohort => "Cohort",
            PRNType::Deployment => "Deployment",
            PRNType::Device => "Device",
            PRNType::DeviceCertificate => "DeviceCertificate",
            PRNType::Event => "Event",
            PRNType::Firmware => "Firmware",
            PRNType::OrgUser => "OrgUser",
            PRNType::Organization => "Organization",
            PRNType::Product => "Product",
            PRNType::Release => "Release",
            PRNType::ReleaseClaim => "ReleaseClaim",
            PRNType::SigningKey => "SigningKey",
            PRNType::Tunnel => "Tunnel",
            PRNType::User => "User",
            PRNType::WebConsoleShell => "WebConsoleShell",
            PRNType::Webhook => "Webhook",
        }
    }
}

/// The result of checking a resource-name argument: the argument itself, or the
/// reason it was refused.
pub open spec fn spec_value_parse(expected: PRNType, s: Seq<char>) -> Result<Seq<char>, Seq<char>> {
    let parts = split_on(s, ':');
    let n = parts.len();
    if n < 3 || n > 5 {
        Err("Invalid PRN"@)
    } else if parts[0] != "prn"@ {
        Err("Invalid PRN"@)
    } else if parts[1] != "1"@ {
        Err("Invalid PRN"@)
    } else if n == 3 {
        if expected != PRNType::Organization {
            Err("Invalid PRN type"@)
        } else if !uuid_parses(parts[2]) {
            Err("Invalid PRN UUID, expected 'organization' UUID in PRN"@)
        } else {
            Ok(s)
        }
    } else if n == 4 {
        if expected != PRNType::User {
            Err("Invalid PRN type"@)
        } else if prn_type_from(parts[2]) is None {
            Err("Invalid PRN type"@)
        } else if prn_type_from(parts[2]) != Some(PRNType::User) {
            Err("Invalid PRN type, expected 'user'"@)
        } else {
            Ok(s)
        }
    } else {
        if !uuid_parses(parts[2]) {
            Err("Invalid PRN UUID, expected valid UUID in PRN"@)
        } else if prn_type_from(parts[3]) is None {
            Err("Invalid PRN type"@)
        } else if prn_type_from(parts[3]) != Some(expected) {
            Err("Invalid PRN type, expected '"@ + debug_name(expected) + "' PRN"@)
        } else if !uuid_parses(parts[4]) {
            Err("Invalid PRN UUID, expected valid UUID in PRN"@)
        } else {
            Ok(s)
        }
    }
}

/// An organization name (three parts) is accepted only where an organization
/// is expected: any other expected type refuses a well-formed organization name
/// as a name of the wrong type. Whatever is accepted is the argument itself.
pub proof fn lemma_organization_names_only_for_organizations(expected: PRNType, s: Seq<char>)
    ensures
        spec_value_parse(expected, s) is Ok && split_on(s, ':').len() == 3 ==> expected == PRNType::Organization,
        ({
            let parts = split_on(s, ':');
            parts.len() == 3 && parts[0] == "prn"@ && parts[1] == "1"@ && expected != PRNType::Organization
                ==> spec_value_parse(expected, s) == Err::<Seq<char>, Seq<char>>("Invalid PRN type"@)
        }),
        spec_value_parse(expected, s) matches Ok(v) ==> v == s,
{
}

/// Checks that command-line arguments are resource names of one expected type.
#[derive(Clone, Copy, PartialEq, Eq)]
pub struct PRNValueParser(pub PRNType);

impl PRNValueParser {
    /// A check for names of the given type.
    pub fn new(prn_type: PRNType) -> (p: Self)
        ensures
            p.0 == prn_type,
    {
        PRNValueParser(prn_type)
    }

    /// The argument back when it is a name of the expected type, else the message
    /// explaining why it is refused.
    pub fn parse_ref(&self, value: &str) -> (r: Result<String, String>)
        ensures
            match r {
                Ok(v) => spec_value_parse(self.0, value@) == Ok::<Seq<char>, Seq<char>>(v@),
                Err(m) => spec_value_parse(self.0, value@) == Err::<Seq<char>, Seq<char>>(m@),
            },
            r is Ok && split_on(value@, ':').len() == 3 ==> self.0 == PRNType::Organization,
            ({
                let parts = split_on(value@, ':');
                parts.len() == 3 && parts[0] == "prn"@ && parts[1] == "1"@ && self.0 != PRNType::Organization
                    ==> (r matches Err(m) && m@ == "Invalid PRN type"@)
            }),
            r matches Ok(v) ==> v@ == value@,
    {
        let parts = split_str(value, ':');
        let n = parts.len();
        assert(n == split_on(value@, ':').len());
        if n < 3 || n > 5 {
            return Err(String::from_str("Invalid PRN"));
        }
        assert(parts@[0]@ == split_on(value@, ':')[0]);
        assert(parts@[1]@ == split_on(value@, ':')[1]);
        assert(parts@[2]@ == split_on(value@, ':')[2]);
        if !str_eq(parts[0].as_str(), "prn") {
            return Err(String::from_str("Invalid PRN"));
        }
        if !str_eq(parts[1].as_str(), "1") {
            return Err(String::from_str("Invalid PRN"));
        }
        if n == 3 {
            if self.0 != PRNType::Organization {
                return Err(String::from_str("Invalid PRN type"));
            }
            if !is_uuid(parts[2].as_str()) {
                return Err(String::from_str("Invalid PRN UUID, expected 'organization' UUID in PRN"));
            }
        } else if n == 4 {
            if self.0 != PRNType::User {
                return Err(String::from_str("Invalid PRN type"));
            }
            match PRNType::try_from(parts[2].clone()) {
                Err(_) => {
                    return Err(String::from_str("Invalid PRN type"));
                },
                Ok(t) => {
                    if t != PRNType::User {
                        return Err(String::from_str("Invalid PRN type, expected 'user'"));
                    }
                },
            }
        } else {
            assert(parts@[3]@ == split_on(value@, ':')[3]);
            assert(parts@[4]@ == split_on(value@, ':')[4]);
            if !is_uuid(parts[2].as_str()) {
                return Err(String::from_str("Invalid PRN UUID, expected valid UUID in PRN"));
            }
            match PRNType::try_from(parts[3].clone()) {
                Err(_) => {
                    return Err(String::from_str("Invalid PRN type"));
                },
                Ok(t) => {
                    if self.0 != t {
                        let mut msg = chars_of("Invalid PRN type, expected '");
                        extend_str(&mut msg, self.0.debug_name());
                        extend_str(&mut msg, "' PRN");
                        return Err(string_of(msg.as_slice()));
                    }
                },
            }
            if !is_uuid(parts[4].as_str()) {
                return Err(String::from_str("Invalid PRN UUID, expected valid UUID in PRN"));
            }
        }
        Ok(value.to_owned())
    }
}

/// A resource name built for a type is accepted as an argument of that type.
pub proof fn lemma_built_name_is_accepted(org: Seq<char>, ty: Seq<char>, id: Seq<char>, t: PRNType)
    requires
        spec_build(org, ty, id) is Ok,
        !org.contains(':'),
        !ty.contains(':'),
        !id.contains(':'),
        prn_type_from(ty) == Some(t),
    ensures
        spec_value_parse(t, prn_text(org, ty, id)) == Ok::<Seq<char>, Seq<char>>(prn_text(org, ty, id)),
{
    crate::prn::lemma_build_then_parse(org, ty, id);
}

/// A five-part argument accepted for a type parses as a resource name of that type.
pub proof fn lemma_accepted_name_parses(t: PRNType, s: Seq<char>)
    requires
        spec_value_parse(t, s) is Ok,
        split_on(s, ':').len() == 5,
    ensures
        spec_parse(s) is Ok,
        prn_type_from(spec_parse(s)->Ok_0.resource_type) == Some(t),
{
}

} // verus!
