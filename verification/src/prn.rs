//! Peridio resource names: `prn:1:<organization>:<type>:<id>` for resources and
//! `prn:1:<organization>` for organizations.
use vstd::prelude::*;
use crate::text::{chars_of, count_message, decimal, extend_str, join_with, split_on, split_str, str_eq, string_of};

verus! {

/// Whether `uuid` accepts the text as a UUID (simple, hyphenated, braced or URN form).
pub uninterp spec fn uuid_parses(s: Seq<char>) -> bool;

/// Asks `uuid::Uuid::try_parse` whether the text is a UUID. The contract claims only
/// that the answer depends on the text alone; which texts are accepted is left to the
/// `uuid` crate and named `uuid_parses`.
#[verifier::external_body]
pub(crate) fn is_uuid(s: &str) -> (ok: bool)
    ensures
        ok == uuid_parses(s@),
{
    uuid::Uuid::try_parse(s).is_ok()
}

/// A parsed resource name.
#[derive(Debug, Clone, PartialEq, Eq)]
pub struct PRN {
    pub version: String,
    pub organization_id: String,
    pub resource_type: String,
    pub resource_id: String,
}

/// The four components of a resource name.
pub struct PrnModel {
    pub version: Seq<char>,
    pub organization_id: Seq<char>,
    pub resource_type: Seq<char>,
    pub resource_id: Seq<char>,
}

impl View for PRN {
    type V = PrnModel;

    open spec fn view(&self) -> PrnModel {
        PrnModel {
            version: self.version@,
            organization_id: self.organization_id@,
            resource_type: self.resource_type@,
            resource_id: self.resource_id@,
        }
    }
}

/// Errors that can occur when parsing or building resource names.
#[derive(Debug, Clone, PartialEq, Eq)]
pub enum PRNError {
    InvalidFormat(String),
    InvalidPrefix(String),
    UnsupportedVersion(String),
    InvalidOrganizationId(String),
    InvalidResourceId(String),
}

/// An error with the text it carries.
pub enum PrnErrorModel {
    InvalidFormat(Seq<char>),
    InvalidPrefix(Seq<char>),
    UnsupportedVersion(Seq<char>),
    InvalidOrganizationId(Seq<char>),
    InvalidResourceId(Seq<char>),
}

impl View for PRNError {
    type V = PrnErrorModel;

    open spec fn view(&self) -> PrnErrorModel {
        match self {
            PRNError::InvalidFormat(m) => PrnErrorModel::InvalidFormat(m@),
            PRNError::InvalidPrefix(m) => PrnErrorModel::InvalidPrefix(m@),
            PRNError::UnsupportedVersion(m) => PrnErrorModel::UnsupportedVersion(m@),
            PRNError::InvalidOrganizationId(m) => PrnErrorModel::InvalidOrganizationId(m@),
            PRNError::InvalidResourceId(m) => PrnErrorModel::InvalidResourceId(m@),
        }
    }
}

/// The user-facing text of an error.
pub open spec fn prn_error_text(e: PrnErrorModel) -> Seq<char> {
    match e {
        PrnErrorModel::InvalidFormat(m) => "Invalid PRN format: "@ + m,
        PrnErrorModel::InvalidPrefix(m) => "Invalid PRN prefix: "@ + m,
        PrnErrorModel::UnsupportedVersion(m) => "Unsupported PRN version: "@ + m,
        PrnErrorModel::InvalidOrganizationId(m) => "Invalid organization ID: "@ + m,
        PrnErrorModel::InvalidResourceId(m) => "Invalid resource ID: "@ + m,
    }
}

impl PRNError {
    /// The message shown for this error.
    pub fn to_string(&self) -> (s: String)
        ensures
            s@ == prn_error_text(self@),
    {
        let (head, body) = match self {
            PRNError::InvalidFormat(m) => ("Invalid PRN format: ", m),
            PRNError::InvalidPrefix(m) => ("Invalid PRN prefix: ", m),
            PRNError::UnsupportedVersion(m) => ("Unsupported PRN version: ", m),
            PRNError::InvalidOrganizationId(m) => ("Invalid organization ID: ", m),
            PRNError::InvalidResourceId(m) => ("Invalid resource ID: ", m),
        };
        let mut v = chars_of(head);
        extend_str(&mut v, body.as_str());
        string_of(v.as_slice())
    }
}

/// The model of a result.
pub open spec fn result_view<T: View, E: View>(r: Result<T, E>) -> Result<T::V, E::V> {
    match r {
        Ok(t) => Ok(t@),
        Err(e) => Err(e@),
    }
}

/// The message for a name with the wrong number of colon-separated parts.
pub open spec fn format_message(expected: Seq<char>, n: nat) -> Seq<char> {
    expected + decimal(n) + " parts"@
}

/// What parsing a resource name gives, part by part.
pub open spec fn spec_parse(s: Seq<char>) -> Result<PrnModel, PrnErrorModel> {
    let parts = split_on(s, ':');
    if parts.len() != 5 {
        Err(PrnErrorModel::InvalidFormat(
            format_message("PRN must have 5 parts separated by colons, got "@, parts.len()),
        ))
    } else if parts[0] != "prn"@ {
        Err(PrnErrorModel::InvalidPrefix(parts[0]))
    } else if parts[1] != "1"@ {
        Err(PrnErrorModel::UnsupportedVersion(parts[1]))
    } else if !uuid_parses(parts[2]) {
        Err(PrnErrorModel::InvalidOrganizationId(parts[2]))
    } else if !uuid_parses(parts[4]) {
        Err(PrnErrorModel::InvalidResourceId(parts[4]))
    } else {
        Ok(PrnModel {
            version: parts[1],
            organization_id: parts[2],
            resource_type: parts[3],
            resource_id: parts[4],
        })
    }
}

/// What parsing an organization name gives.
pub open spec fn spec_parse_organization_id(s: Seq<char>) -> Result<Seq<char>, PrnErrorModel> {
    let parts = split_on(s, ':');
    if parts.len() != 3 {
        Err(PrnErrorModel::InvalidFormat(
            format_message(
                "Organization PRN must have 3 parts separated by colons, got "@,
                parts.len(),
            ),
        ))
    } else if parts[0] != "prn"@ {
        Err(PrnErrorModel::InvalidPrefix(parts[0]))
    } else if parts[1] != "1"@ {
        Err(PrnErrorModel::UnsupportedVersion(parts[1]))
    } else if !uuid_parses(parts[2]) {
        Err(PrnErrorModel::InvalidOrganizationId(parts[2]))
    } else {
        Ok(parts[2])
    }
}

impl PRN {
    /// Parses `prn:1:organization_id:resource_type:resource_id`.
    pub fn parse(prn: &str) -> (r: Result<PRN, PRNError>)
        ensures
            result_view(r) == spec_parse(prn@),
    {
        let parts = split_str(prn, ':');
        assert(parts@.len() == split_on(prn@, ':').len());
        if parts.len() != 5 {
            return Err(PRNError::InvalidFormat(
                count_message("PRN must have 5 parts separated by colons, got ", parts.len(), " parts"),
            ));
        }
        assert(parts@[0]@ == split_on(prn@, ':')[0]);
        assert(parts@[1]@ == split_on(prn@, ':')[1]);
        assert(parts@[2]@ == split_on(prn@, ':')[2]);
        assert(parts@[3]@ == split_on(prn@, ':')[3]);
        assert(parts@[4]@ == split_on(prn@, ':')[4]);
        if !str_eq(parts[0].as_str(), "prn") {
            return Err(PRNError::InvalidPrefix(parts[0].clone()));
        }
        if !str_eq(parts[1].as_str(), "1") {
            return Err(PRNError::UnsupportedVersion(parts[1].clone()));
        }
        if !is_uuid(parts[2].as_str()) {
            return Err(PRNError::InvalidOrganizationId(parts[2].clone()));
        }
        if !is_uuid(parts[4].as_str()) {
            return Err(PRNError::InvalidResourceId(parts[4].clone()));
        }
        Ok(PRN {
            version: parts[1].clone(),
            organization_id: parts[2].clone(),
            resource_type: parts[3].clone(),
            resource_id: parts[4].clone(),
        })
    }

    /// Parses `prn:1:organization_id` and gives the organization ID.
    pub fn parse_organization_id(prn: &str) -> (r: Result<String, PRNError>)
        ensures
            result_view(r) == spec_parse_organization_id(prn@),
    {
        let parts = split_str(prn, ':');
        assert(parts@.len() == split_on(prn@, ':').len());
        if parts.len() != 3 {
            return Err(PRNError::InvalidFormat(
                count_message(
                    "Organization PRN must have 3 parts separated by colons, got ",
                    parts.len(),
                    " parts",
                ),
            ));
        }
        assert(parts@[0]@ == split_on(prn@, ':')[0]);
        assert(parts@[1]@ == split_on(prn@, ':')[1]);
        assert(parts@[2]@ == split_on(prn@, ':')[2]);
        if !str_eq(parts[0].as_str(), "prn") {
            return Err(PRNError::InvalidPrefix(parts[0].clone()));
        }
        if !str_eq(parts[1].as_str(), "1") {
            return Err(PRNError::UnsupportedVersion(parts[1].clone()));
        }
        if !is_uuid(parts[2].as_str()) {
            return Err(PRNError::InvalidOrganizationId(parts[2].clone()));
        }
        Ok(parts[2].clone())
    }
}

/// The resource name with the given parts, joined by colons.
pub open spec fn prn_text(org: Seq<char>, ty: Seq<char>, id: Seq<char>) -> Seq<char> {
    join_with(seq!["prn"@, "1"@, org, ty, id], ':')
}

/// What building a resource name gives.
pub open spec fn spec_build(org: Seq<char>, ty: Seq<char>, id: Seq<char>) -> Result<Seq<char>, PrnErrorModel> {
    if !uuid_parses(org) {
        Err(PrnErrorModel::InvalidOrganizationId(org))
    } else if !uuid_parses(id) {
        Err(PrnErrorModel::InvalidResourceId(id))
    } else {
        Ok(prn_text(org, ty, id))
    }
}

/// The organization a builder is made for, read from an organization or resource name.
pub open spec fn spec_from_prn(s: Seq<char>) -> Result<Seq<char>, PrnErrorModel> {
    let n = split_on(s, ':').len();
    if n == 3 {
        spec_parse_organization_id(s)
    } else if n == 5 {
        match spec_parse(s) {
            Ok(m) => Ok(m.organization_id),
            Err(e) => Err(e),
        }
    } else {
        Err(PrnErrorModel::InvalidFormat(
            format_message("PRN must have 3 or 5 parts separated by colons, got "@, n),
        ))
    }
}

/// Builder for resource names within one organization.
#[derive(Debug, Clone)]
pub struct PRNBuilder {
    organization_id: String,
}

impl View for PRNBuilder {
    type V = Seq<char>;

    closed spec fn view(&self) -> Seq<char> {
        self.organization_id@
    }
}

/// The model of a builder result: the organization it is for, or the error.
pub open spec fn builder_result_view(r: Result<PRNBuilder, PRNError>) -> Result<Seq<char>, PrnErrorModel> {
    match r {
        Ok(b) => Ok(b@),
        Err(e) => Err(e@),
    }
}

/// The model of a name result.
pub open spec fn string_result_view(r: Result<String, PRNError>) -> Result<Seq<char>, PrnErrorModel> {
    match r {
        Ok(b) => Ok(b@),
        Err(e) => Err(e@),
    }
}

impl PRNBuilder {
    /// A builder for the given organization ID.
    pub fn new(organization_id: String) -> (b: Self)
        ensures
            b@ == organization_id@,
    {
        PRNBuilder { organization_id }
    }

    /// A builder for the organization of an existing organization or resource name.
    pub fn from_prn(prn: &str) -> (r: Result<Self, PRNError>)
        ensures
            builder_result_view(r) == spec_from_prn(prn@),
    {
        let parts = split_str(prn, ':');
        let n = parts.len();
        assert(n == split_on(prn@, ':').len());
        if n == 3 {
            match PRN::parse_organization_id(prn) {
                Ok(org) => Ok(Self::new(org)),
                Err(e) => Err(e),
            }
        } else if n == 5 {
            match PRN::parse(prn) {
                Ok(parsed) => Ok(Self::new(parsed.organization_id)),
                Err(e) => Err(e),
            }
        } else {
            Err(PRNError::InvalidFormat(
                count_message("PRN must have 3 or 5 parts separated by colons, got ", n, " parts"),
            ))
        }
    }

    /// The name of a binary.
    pub fn binary(&self, binary_id: &str) -> (r: Result<String, PRNError>)
        ensures
            string_result_view(r) == spec_build(self@, "binary"@, binary_id@),
    {
        self.build_prn("binary", binary_id)
    }

    /// The name of an artifact.
    pub fn artifact(&self, artifact_id: &str) -> (r: Result<String, PRNError>)
        ensures
            string_result_view(r) == spec_build(self@, "artifact"@, artifact_id@),
    {
        self.build_prn("artifact", artifact_id)
    }

    /// The name of an artifact version.
    pub fn artifact_version(&self, version_id: &str) -> (r: Result<String, PRNError>)
        ensures
            string_result_view(r) == spec_build(self@, "artifact_version"@, version_id@),
    {
        self.build_prn("artifact_version", version_id)
    }

    /// The name of a bundle.
    pub fn bundle(&self, bundle_id: &str) -> (r: Result<String, PRNError>)
        ensures
            string_result_view(r) == spec_build(self@, "bundle"@, bundle_id@),
    {
        self.build_prn("bundle", bundle_id)
    }

    /// The name of a resource of the given type.
    pub fn build_prn(&self, resource_type: &str, resource_id: &str) -> (r: Result<String, PRNError>)
        ensures
            string_result_view(r) == spec_build(self@, resource_type@, resource_id@),
    {
        if !is_uuid(self.organization_id.as_str()) {
            return Err(PRNError::InvalidOrganizationId(self.organization_id.clone()));
        }
        if !is_uuid(resource_id) {
            return Err(PRNError::InvalidResourceId(resource_id.to_owned()));
        }
        let mut v = chars_of("prn");
        let ghost a = v@;
        v.push(':');
        extend_str(&mut v, "1");
        let ghost b = v@;
        v.push(':');
        extend_str(&mut v, self.organization_id.as_str());
        let ghost c = v@;
        v.push(':');
        extend_str(&mut v, resource_type);
        let ghost d = v@;
        v.push(':');
        extend_str(&mut v, resource_id);
        proof {
            let p1 = seq!["prn"@];
            let p2 = p1.push("1"@);
            let p3 = p2.push(self.organization_id@);
            let p4 = p3.push(resource_type@);
            let p5 = p4.push(resource_id@);
            assert(join_with(p1, ':') == a);
            assert(p2.drop_last() =~= p1);
            assert(join_with(p2, ':') =~= b);
            assert(p3.drop_last() =~= p2);
            assert(join_with(p3, ':') =~= c);
            assert(p4.drop_last() =~= p3);
            assert(join_with(p4, ':') =~= d);
            assert(p5.drop_last() =~= p4);
            assert(join_with(p5, ':') =~= v@);
            assert(p5 =~= seq!["prn"@, "1"@, self.organization_id@, resource_type@, resource_id@]);
        }
        Ok(string_of(v.as_slice()))
    }
}

/// A name built from parts without colons parses back into those parts.
pub proof fn lemma_build_then_parse(org: Seq<char>, ty: Seq<char>, id: Seq<char>)
    requires
        spec_build(org, ty, id) is Ok,
        !org.contains(':'),
        !ty.contains(':'),
        !id.contains(':'),
    ensures
        spec_parse(prn_text(org, ty, id)) == Ok::<PrnModel, PrnErrorModel>(
            PrnModel { version: "1"@, organization_id: org, resource_type: ty, resource_id: id },
        ),
{
    reveal_strlit("prn");
    reveal_strlit("1");
    let ps = seq!["prn"@, "1"@, org, ty, id];
    assert(!"prn"@.contains(':')) by {
        if "prn"@.contains(':') {
            let k = choose|k: int| 0 <= k < "prn"@.len() && "prn"@[k] == ':';
        }
    }
    assert(!"1"@.contains(':')) by {
        if "1"@.contains(':') {
            let k = choose|k: int| 0 <= k < "1"@.len() && "1"@[k] == ':';
        }
    }
    assert forall|i: int| 0 <= i < ps.len() implies !(#[trigger] ps[i]).contains(':') by {
        if i == 0 {} else if i == 1 {} else if i == 2 {} else if i == 3 {} else {}
    }
    crate::text::lemma_split_join(ps, ':');
}

/// A name that parses is rebuilt exactly by a builder for its organization.
pub proof fn lemma_parse_then_build(s: Seq<char>)
    requires
        spec_parse(s) is Ok,
    ensures
        ({
            let m = spec_parse(s)->Ok_0;
            spec_build(m.organization_id, m.resource_type, m.resource_id) == Ok::<Seq<char>, PrnErrorModel>(s)
        }),
{
    let parts = split_on(s, ':');
    crate::text::lemma_join_split(s, ':');
    assert(parts =~= seq!["prn"@, "1"@, parts[2], parts[3], parts[4]]);
}

/// The builder made from a resource name works for the same organization as the name.
pub proof fn lemma_from_prn_of_resource(s: Seq<char>)
    requires
        spec_parse(s) is Ok,
    ensures
        spec_from_prn(s) == Ok::<Seq<char>, PrnErrorModel>(spec_parse(s)->Ok_0.organization_id),
{
}

} // verus!
