//! Creating a binary idempotently: whether an existing binary is reused, reset
//! or refused, and what follows once the binary is processed.
use vstd::prelude::*;
use crate::binary::{spec_plan, BinaryState, ProcessStep, ProcessError};
use crate::text::{chars_of, extend_str, string_of};

verus! {

/// What the server holds for a binary found by its target and artifact version.
#[derive(Debug)]
pub struct RemoteBinary {
    pub hash: Option<String>,
    pub size: Option<u64>,
    pub state: BinaryState,
}

/// What to do about the binary to be created.
#[derive(Clone, Copy, PartialEq, Eq, Debug, Structural)]
pub enum BinaryDecision {
    /// No single binary matched: create one.
    Create,
    /// The binary found has the same content: use it as it is.
    Reuse,
    /// The binary found has other content and is not signed: move it back to
    /// uploadable and give it the new hash and size.
    Reset,
    /// The binary found has other content and is signed: refuse.
    SignedConflict,
}

/// Whether the server's hash and size are those of the local content.
pub open spec fn same_content(remote: RemoteBinary, hash: Seq<char>, size: u64) -> bool {
    &&& remote.hash matches Some(h) && h@ == hash
    &&& remote.size == Some(size)
}

/// The decision for the binaries the search found, given the local content's
/// hash and size.
pub open spec fn spec_decide(found: Seq<RemoteBinary>, hash: Seq<char>, size: u64) -> BinaryDecision {
    if found.len() != 1 {
        BinaryDecision::Create
    } else if same_content(found[0], hash, size) {
        BinaryDecision::Reuse
    } else if found[0].state == BinaryState::Signed {
        BinaryDecision::SignedConflict
    } else {
        BinaryDecision::Reset
    }
}

/// Decides what to do with the binaries a search found: exactly one found is
/// reused when its content matches, refused when it is signed, reset otherwise;
/// anything else leads to a new binary.
pub fn decide_binary(found: &Vec<RemoteBinary>, hash: &str, size: u64) -> (d: BinaryDecision)
    ensures
        d == spec_decide(found@, hash@, size),
{
    if found.len() != 1 {
        return BinaryDecision::Create;
    }
    let remote = &found[0];
    let same = match &remote.hash {
        Some(h) => crate::text::str_eq(h.as_str(), hash) && remote.size == Some(size),
        None => false,
    };
    if same {
        BinaryDecision::Reuse
    } else if remote.state == BinaryState::Signed {
        BinaryDecision::SignedConflict
    } else {
        BinaryDecision::Reset
    }
}

/// A signed binary is never overwritten: a binary found with other content is
/// reset only when it is not signed, and one is reused only when its hash and
/// size are those of the local content.
pub proof fn lemma_signed_binaries_are_never_reset(found: Seq<RemoteBinary>, hash: Seq<char>, size: u64)
    ensures
        spec_decide(found, hash, size) == BinaryDecision::Reset ==> found.len() == 1 && found[0].state
            != BinaryState::Signed,
        spec_decide(found, hash, size) == BinaryDecision::Reuse ==> found.len() == 1 && same_content(
            found[0],
            hash,
            size,
        ),
        found.len() == 1 && found[0].state == BinaryState::Signed && !same_content(found[0], hash, size)
            ==> spec_decide(found, hash, size) == BinaryDecision::SignedConflict,
{
}

/// Creating a binary is idempotent: when the one binary found already has the
/// local content and is signed, it is reused and processing it has nothing
/// left to do.
pub proof fn lemma_create_is_idempotent(found: Seq<RemoteBinary>, hash: Seq<char>, size: u64, has_content: bool, signing: bool)
    requires
        found.len() == 1,
        same_content(found[0], hash, size),
        found[0].state == BinaryState::Signed,
    ensures
        spec_decide(found, hash, size) == BinaryDecision::Reuse,
        spec_plan(found[0].state, has_content, signing) == Ok::<Seq<ProcessStep>, ProcessError>(Seq::empty()),
{
}

/// The search that finds the binary of an artifact version for a target.
pub fn binary_search_query(target: &str, artifact_version_prn: &str) -> (s: String)
    ensures
        s@ == "target:'"@ + target@ + "' and artifact_version_prn:'"@ + artifact_version_prn@ + "'"@,
{
    let mut v = chars_of("target:'");
    extend_str(&mut v, target);
    extend_str(&mut v, "' and artifact_version_prn:'");
    extend_str(&mut v, artifact_version_prn);
    extend_str(&mut v, "'");
    string_of(v.as_slice())
}

/// The text of the refusal to overwrite a signed binary, naming the artifact and
/// version where they could be looked up, else the artifact version's name.
pub open spec fn conflict_text(
    artifact_version_prn: Seq<char>,
    target: Seq<char>,
    names: Option<(Seq<char>, Seq<char>)>,
) -> Seq<char> {
    match names {
        Some((artifact, version)) => "A signed binary already exists for artifact \""@ + artifact
            + "\" at version \""@ + version + "\" with target \""@ + target
            + "\". Once a binary is signed, it cannot be overwritten."@,
        None => "A signed binary already exists for \""@ + artifact_version_prn + "\" with a target of \""@
            + target + "\". Once a binary is signed, it cannot be overwritten."@,
    }
}

/// The refusal to overwrite a signed binary; `names` holds the artifact's name
/// and the version where both could be looked up.
pub fn signed_conflict_message(
    artifact_version_prn: &str,
    target: &str,
    names: &Option<(String, String)>,
) -> (s: String)
    ensures
        s@ == conflict_text(
            artifact_version_prn@,
            target@,
            match names {
                Some(p) => Some((p.0@, p.1@)),
                None => None,
            },
        ),
{
    match names {
        Some((artifact, version)) => {
            let mut v = chars_of("A signed binary already exists for artifact \"");
            extend_str(&mut v, artifact.as_str());
            extend_str(&mut v, "\" at version \"");
            extend_str(&mut v, version.as_str());
            extend_str(&mut v, "\" with target \"");
            extend_str(&mut v, target);
            extend_str(&mut v, "\". Once a binary is signed, it cannot be overwritten.");
            string_of(v.as_slice())
        },
        None => {
            let mut v = chars_of("A signed binary already exists for \"");
            extend_str(&mut v, artifact_version_prn);
            extend_str(&mut v, "\" with a target of \"");
            extend_str(&mut v, target);
            extend_str(&mut v, "\". Once a binary is signed, it cannot be overwritten.");
            string_of(v.as_slice())
        },
    }
}

/// What happens after a binary is processed, in order.
#[derive(Debug)]
pub enum FollowUp {
    /// Create a bundle holding the binary's artifact version.
    CreateBundle,
    /// Point the bundle override with this name at the new bundle.
    UpdateBundleOverride(String),
    /// Create a bundle override for the new bundle and add this device to it.
    StageForDevice(String),
    /// Create a release of the new bundle in this cohort.
    ReleaseToCohort(String),
}

/// The follow-ups, as models: a bundle first whenever anything else follows.
pub open spec fn spec_follow_ups(
    bundle_override_prn: Option<Seq<char>>,
    device_prn: Option<Seq<char>>,
    cohort_prn: Option<Seq<char>>,
) -> Seq<(int, Seq<char>)> {
    let any = bundle_override_prn is Some || device_prn is Some || cohort_prn is Some;
    let s0 = if any { seq![(0int, Seq::<char>::empty())] } else { Seq::empty() };
    let s1 = match bundle_override_prn { Some(p) => s0.push((1int, p)), None => s0 };
    let s2 = match device_prn { Some(p) => s1.push((2int, p)), None => s1 };
    match cohort_prn { Some(p) => s2.push((3int, p)), None => s2 }
}

/// The model of a follow-up: its kind as a number in the order above, and the
/// resource name it takes.
pub open spec fn follow_up_model(f: FollowUp) -> (int, Seq<char>) {
    match f {
        FollowUp::CreateBundle => (0, Seq::empty()),
        FollowUp::UpdateBundleOverride(p) => (1, p@),
        FollowUp::StageForDevice(p) => (2, p@),
        FollowUp::ReleaseToCohort(p) => (3, p@),
    }
}

fn opt_model(o: &Option<String>) -> (r: Option<String>)
    ensures
        r == *o,
{
    crate::config::clone_opt(o)
}

/// What follows the processing of a new binary, given the bundle override,
/// device and cohort the command named: a bundle whenever any of them was
/// named, then the update of the bundle override, the staging for the device
/// and the release to the cohort, each where it was named.
pub fn follow_ups(
    bundle_override_prn: &Option<String>,
    device_prn: &Option<String>,
    cohort_prn: &Option<String>,
) -> (v: Vec<FollowUp>)
    ensures
        v@.map_values(|f: FollowUp| follow_up_model(f)) == spec_follow_ups(
            crate::paths::opt_view(*bundle_override_prn),
            crate::paths::opt_view(*device_prn),
            crate::paths::opt_view(*cohort_prn),
        ),
{
    let mut v: Vec<FollowUp> = Vec::new();
    if bundle_override_prn.is_some() || device_prn.is_some() || cohort_prn.is_some() {
        v.push(FollowUp::CreateBundle);
    }
    let ghost s0 = v@.map_values(|f: FollowUp| follow_up_model(f));
    if let Some(p) = opt_model(bundle_override_prn) {
        v.push(FollowUp::UpdateBundleOverride(p));
    }
    let ghost s1 = v@.map_values(|f: FollowUp| follow_up_model(f));
    if let Some(p) = opt_model(device_prn) {
        v.push(FollowUp::StageForDevice(p));
    }
    let ghost s2 = v@.map_values(|f: FollowUp| follow_up_model(f));
    if let Some(p) = opt_model(cohort_prn) {
        v.push(FollowUp::ReleaseToCohort(p));
    }
    proof {
        let any = bundle_override_prn.is_some() || device_prn.is_some() || cohort_prn.is_some();
        let t0 = if any { seq![(0int, Seq::<char>::empty())] } else { Seq::<(int, Seq<char>)>::empty() };
        assert(s0 =~= t0);
        let t1 = match crate::paths::opt_view(*bundle_override_prn) { Some(p) => t0.push((1int, p)), None => t0 };
        assert(s1 =~= t1);
        let t2 = match crate::paths::opt_view(*device_prn) { Some(p) => t1.push((2int, p)), None => t1 };
        assert(s2 =~= t2);
        assert(v@.map_values(|f: FollowUp| follow_up_model(f)) =~= match crate::paths::opt_view(*cohort_prn) {
            Some(p) => t2.push((3int, p)),
            None => t2,
        });
    }
    v
}

/// The name of the bundle made for a binary: artifact, `@`, version, `/`, target.
pub fn bundle_name(artifact_name: &str, version: &str, target: &str) -> (s: String)
    ensures
        s@ == artifact_name@ + "@"@ + version@ + "/"@ + target@,
{
    let mut v = chars_of(artifact_name);
    extend_str(&mut v, "@");
    extend_str(&mut v, version);
    extend_str(&mut v, "/");
    extend_str(&mut v, target);
    string_of(v.as_slice())
}

/// `name` where the bundle has one, else `prefix` followed by its resource name.
pub open spec fn name_or(name: Option<Seq<char>>, prefix: Seq<char>, prn: Seq<char>) -> Seq<char> {
    match name {
        Some(n) => n,
        None => prefix + prn,
    }
}

/// The name of the bundle override made for a bundle: the bundle's name, or one
/// made from its resource name.
pub fn bundle_override_name(bundle_name: &Option<String>, bundle_prn: &str) -> (s: String)
    ensures
        s@ == name_or(crate::paths::opt_view(*bundle_name), "Bundle Override for "@, bundle_prn@),
{
    match bundle_name {
        Some(n) => n.clone(),
        None => {
            let mut v = chars_of("Bundle Override for ");
            extend_str(&mut v, bundle_prn);
            string_of(v.as_slice())
        },
    }
}

/// The description of the bundle override made for a bundle.
pub fn bundle_override_description(bundle_prn: &str) -> (s: String)
    ensures
        s@ == "Auto-created bundle override for bundle "@ + bundle_prn@,
{
    let mut v = chars_of("Auto-created bundle override for bundle ");
    extend_str(&mut v, bundle_prn);
    string_of(v.as_slice())
}

/// The name of the release made for a bundle: the bundle's name, or one made
/// from its resource name.
pub fn release_name(bundle_name: &Option<String>, bundle_prn: &str) -> (s: String)
    ensures
        s@ == name_or(crate::paths::opt_view(*bundle_name), "Release for "@, bundle_prn@),
{
    match bundle_name {
        Some(n) => n.clone(),
        None => {
            let mut v = chars_of("Release for ");
            extend_str(&mut v, bundle_prn);
            string_of(v.as_slice())
        },
    }
}

} // verus!
