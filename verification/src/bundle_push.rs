//! Pushing a bundle archive: the resource names of what it holds, which
//! binaries still need their content, the walk through the archive entries in
//! manifest order, and what happens to a binary the server already has.
use vstd::prelude::*;
use crate::binary::{BinaryProcessorConfig, BinaryState, SignatureConfig};
use crate::bundle_format::{ManifestItem, SignatureInfo, BinaryInfo};
use crate::digest::{content_hash, hex_of, sha256_of};
use crate::options::GlobalOptions;
use crate::prn::{prn_error_text, spec_build, spec_from_prn, PRNBuilder};
use crate::strmap::StrMap;
use crate::text::{chars_of, decimal, decimal_chars, extend_chars, extend_str, str_eq, string_of};

verus! {

/// Pushes a bundle archive: the archive's path, the upload's part size and
/// concurrency, and the signing options.
pub struct PushCommand {
    pub path: String,
    pub binary_part_size: Option<u64>,
    pub concurrency: Option<u8>,
    pub signing_key_pair: Option<String>,
    pub signing_key_private: Option<String>,
    pub signing_key_prn: Option<String>,
}

impl PushCommand {
    /// A push needs an API key.
    pub fn check_api_key(options: &GlobalOptions) -> (r: Result<(), String>)
        ensures
            options.api_key is Some <==> r is Ok,
            r matches Err(m) ==> m@ == "API key is required for bundle push operation"@,
    {
        if options.api_key.is_none() {
            Err(String::from_str("API key is required for bundle push operation"))
        } else {
            Ok(())
        }
    }
}

/// The resource name of a resource with id `id` and type `ty` in the
/// organization of `parent` (an organization or resource name), or the message
/// for the step that failed.
pub open spec fn spec_resource_prn(
    parent: Seq<char>,
    ty: Seq<char>,
    id: Seq<char>,
    parse_head: Seq<char>,
    build_head: Seq<char>,
) -> Result<Seq<char>, Seq<char>> {
    match spec_from_prn(parent) {
        Err(e) => Err(parse_head + parent + ": "@ + prn_error_text(e)),
        Ok(org) => match spec_build(org, ty, id) {
            Ok(p) => Ok(p),
            Err(e) => Err(build_head + prn_error_text(e)),
        },
    }
}

fn resource_prn(
    parent: &str,
    ty: &str,
    id: &str,
    parse_head: &str,
    build_head: &str,
) -> (r: Result<String, String>)
    ensures
        match r {
            Ok(p) => spec_resource_prn(parent@, ty@, id@, parse_head@, build_head@) == Ok::<Seq<char>, Seq<char>>(p@),
            Err(m) => spec_resource_prn(parent@, ty@, id@, parse_head@, build_head@) == Err::<Seq<char>, Seq<char>>(m@),
        },
{
    match PRNBuilder::from_prn(parent) {
        Err(e) => {
            let mut v = chars_of(parse_head);
            extend_str(&mut v, parent);
            extend_str(&mut v, ": ");
            let t = e.to_string();
            extend_str(&mut v, t.as_str());
            Err(string_of(v.as_slice()))
        },
        Ok(builder) => match builder.build_prn(ty, id) {
            Ok(p) => Ok(p),
            Err(e) => {
                let mut v = chars_of(build_head);
                let t = e.to_string();
                extend_str(&mut v, t.as_str());
                Err(string_of(v.as_slice()))
            },
        },
    }
}

/// The resource name of an artifact of the organization.
pub fn artifact_prn_for(organization_prn: &str, artifact_id: &str) -> (r: Result<String, String>)
    ensures
        match r {
            Ok(p) => spec_resource_prn(organization_prn@, "artifact"@, artifact_id@,
                "Failed to parse organization PRN "@, "Failed to construct artifact PRN: "@)
                == Ok::<Seq<char>, Seq<char>>(p@),
            Err(m) => spec_resource_prn(organization_prn@, "artifact"@, artifact_id@,
                "Failed to parse organization PRN "@, "Failed to construct artifact PRN: "@)
                == Err::<Seq<char>, Seq<char>>(m@),
        },
{
    resource_prn(organization_prn, "artifact", artifact_id, "Failed to parse organization PRN ",
        "Failed to construct artifact PRN: ")
}

/// The resource name of an artifact version of the organization.
pub fn artifact_version_prn_for(organization_prn: &str, version_id: &str) -> (r: Result<String, String>)
    ensures
        match r {
            Ok(p) => spec_resource_prn(organization_prn@, "artifact_version"@, version_id@,
                "Failed to parse organization PRN "@, "Failed to construct artifact version PRN: "@)
                == Ok::<Seq<char>, Seq<char>>(p@),
            Err(m) => spec_resource_prn(organization_prn@, "artifact_version"@, version_id@,
                "Failed to parse organization PRN "@, "Failed to construct artifact version PRN: "@)
                == Err::<Seq<char>, Seq<char>>(m@),
        },
{
    resource_prn(organization_prn, "artifact_version", version_id, "Failed to parse organization PRN ",
        "Failed to construct artifact version PRN: ")
}

/// The resource name of a binary in the organization of an artifact version.
pub fn construct_binary_prn(version_prn: &str, binary_id: &str) -> (r: Result<String, String>)
    ensures
        match r {
            Ok(p) => spec_resource_prn(version_prn@, "binary"@, binary_id@,
                "Failed to parse version PRN "@, "Failed to construct binary PRN: "@)
                == Ok::<Seq<char>, Seq<char>>(p@),
            Err(m) => spec_resource_prn(version_prn@, "binary"@, binary_id@,
                "Failed to parse version PRN "@, "Failed to construct binary PRN: "@)
                == Err::<Seq<char>, Seq<char>>(m@),
        },
{
    resource_prn(version_prn, "binary", binary_id, "Failed to parse version PRN ", "Failed to construct binary PRN: ")
}

/// Whether a binary on the server has the hash the manifest expects.
pub fn is_binary_hash_valid(existing_hash: &Option<String>, manifest_hash: &str) -> (b: bool)
    ensures
        b == (existing_hash matches Some(h) && h@ == manifest_hash@),
{
    match existing_hash {
        Some(h) => str_eq(h.as_str(), manifest_hash),
        None => false,
    }
}

/// What to do with a binary of the manifest.
#[derive(Clone, Copy, PartialEq, Eq, Debug, Structural)]
pub enum PushBinaryAction {
    /// Create the binary and process it.
    CreateNew,
    /// Take the binary on the server through its remaining states.
    Process,
    /// Use the binary on the server as it is.
    UseExisting,
}

/// The name of a state as the messages print it.
pub open spec fn state_name(s: BinaryState) -> Seq<char> {
    match s {
        BinaryState::Destroyed => "Destroyed"@,
        BinaryState::Hashable => "Hashable"@,
        BinaryState::Hashing => "Hashing"@,
        BinaryState::Signable => "Signable"@,
        BinaryState::Signed => "Signed"@,
        BinaryState::Uploadable => "Uploadable"@,
    }
}

fn state_name_text(s: BinaryState) -> (t: &'static str)
    ensures
        t@ == state_name(s),
{
    match s {
        BinaryState::Destroyed => "Destroyed",
        BinaryState::Hashable => "Hashable",
        BinaryState::Hashing => "Hashing",
        BinaryState::Signable => "Signable",
        BinaryState::Signed => "Signed",
        BinaryState::Uploadable => "Uploadable",
    }
}

/// The action for a manifest binary, given what the server holds under its
/// resource name (its hash and state), if anything.
pub open spec fn spec_push_action(
    existing: Option<(Option<Seq<char>>, BinaryState)>,
    manifest_hash: Seq<char>,
) -> Result<PushBinaryAction, Seq<char>> {
    match existing {
        None => Ok(PushBinaryAction::CreateNew),
        Some((hash, state)) => if hash != Some(manifest_hash) {
            Ok(PushBinaryAction::CreateNew)
        } else {
            match state {
                BinaryState::Uploadable | BinaryState::Hashable | BinaryState::Hashing => Ok(PushBinaryAction::Process),
                BinaryState::Signable | BinaryState::Signed => Ok(PushBinaryAction::UseExisting),
                _ => Err("Binary in unsupported state "@ + state_name(state) + " for processing"@),
            }
        },
    }
}

/// A binary the server holds with the manifest's hash is taken through the
/// rest of its processing while it is uploadable, hashable or hashing, used as
/// it is only once it is signable or signed, and refused once destroyed; one
/// the server lacks, or holds with another hash, is created anew.
pub proof fn lemma_push_action_follows_state(hash: Option<Seq<char>>, state: BinaryState, manifest_hash: Seq<char>)
    ensures
        spec_push_action(None, manifest_hash) == Ok::<PushBinaryAction, Seq<char>>(PushBinaryAction::CreateNew),
        hash != Some(manifest_hash) ==> spec_push_action(Some((hash, state)), manifest_hash) == Ok::<
            PushBinaryAction,
            Seq<char>,
        >(PushBinaryAction::CreateNew),
        hash == Some(manifest_hash) ==> {
            let r = spec_push_action(Some((hash, state)), manifest_hash);
            &&& (state == BinaryState::Uploadable || state == BinaryState::Hashable || state == BinaryState::Hashing)
                <==> r == Ok::<PushBinaryAction, Seq<char>>(PushBinaryAction::Process)
            &&& (state == BinaryState::Signable || state == BinaryState::Signed) <==> r == Ok::<
                PushBinaryAction,
                Seq<char>,
            >(PushBinaryAction::UseExisting)
            &&& state == BinaryState::Destroyed <==> r is Err
        },
{
}

/// Decides what happens to a binary of the manifest: one the server lacks, or
/// holds with another hash, is created; one with the right hash is processed
/// further, used as it is once signable, and refused when destroyed.
pub fn push_action(existing: &Option<(Option<String>, BinaryState)>, manifest_hash: &str) -> (r: Result<PushBinaryAction, String>)
    ensures
        match r {
            Ok(a) => spec_push_action(
                match existing { Some(e) => Some((crate::paths::opt_view(e.0), e.1)), None => None },
                manifest_hash@,
            ) == Ok::<PushBinaryAction, Seq<char>>(a),
            Err(m) => spec_push_action(
                match existing { Some(e) => Some((crate::paths::opt_view(e.0), e.1)), None => None },
                manifest_hash@,
            ) == Err::<PushBinaryAction, Seq<char>>(m@),
        },
        match existing {
            None => r == Ok::<PushBinaryAction, String>(PushBinaryAction::CreateNew),
            Some(e) => if e.0 matches Some(h) && h@ == manifest_hash@ {
                &&& (e.1 == BinaryState::Uploadable || e.1 == BinaryState::Hashable || e.1 == BinaryState::Hashing)
                    <==> r == Ok::<PushBinaryAction, String>(PushBinaryAction::Process)
                &&& (e.1 == BinaryState::Signable || e.1 == BinaryState::Signed) <==> r == Ok::<
                    PushBinaryAction,
                    String,
                >(PushBinaryAction::UseExisting)
                &&& e.1 == BinaryState::Destroyed <==> r is Err
            } else {
                r == Ok::<PushBinaryAction, String>(PushBinaryAction::CreateNew)
            },
        },
{
    match existing {
        None => Ok(PushBinaryAction::CreateNew),
        Some((hash, state)) => {
            if !is_binary_hash_valid(hash, manifest_hash) {
                return Ok(PushBinaryAction::CreateNew);
            }
            match state {
                BinaryState::Uploadable | BinaryState::Hashable | BinaryState::Hashing => Ok(PushBinaryAction::Process),
                BinaryState::Signable | BinaryState::Signed => Ok(PushBinaryAction::UseExisting),
                _ => {
                    let mut v = chars_of("Binary in unsupported state ");
                    extend_str(&mut v, state_name_text(*state));
                    extend_str(&mut v, " for processing");
                    Err(string_of(v.as_slice()))
                },
            }
        },
    }
}

/// The signatures of a bundle binary as signatures computed beforehand.
pub fn signature_configs(infos: &Vec<SignatureInfo>) -> (r: Vec<SignatureConfig>)
    ensures
        r@.len() == infos@.len(),
        forall|i: int| 0 <= i < infos@.len() ==> (#[trigger] r@[i]).keyid == infos@[i].keyid
            && r@[i].signature == infos@[i].sig && r@[i].signing_key_pair is None
            && r@[i].signing_key_private is None,
{
    let mut r: Vec<SignatureConfig> = Vec::new();
    let mut i: usize = 0;
    while i < infos.len()
        invariant
            i <= infos.len(),
            r@.len() == i,
            forall|j: int| 0 <= j < i ==> (#[trigger] r@[j]).keyid == infos@[j].keyid
                && r@[j].signature == infos@[j].sig && r@[j].signing_key_pair is None
                && r@[j].signing_key_private is None,
        decreases infos.len() - i,
    {
        r.push(SignatureConfig::pre_computed(infos[i].keyid.clone(), infos[i].sig.clone()));
        i = i + 1;
    }
    r
}

/// How a bundle binary is processed: the push's part size and concurrency, the
/// manifest's hash, the content at hand rather than on disk, and the binary's
/// signatures computed beforehand.
pub fn processor_config(
    command: &PushCommand,
    global_options: GlobalOptions,
    manifest_item: &ManifestItem,
    binary_info: &BinaryInfo,
) -> (c: BinaryProcessorConfig)
    ensures
        c.binary_part_size == command.binary_part_size,
        c.concurrency == command.concurrency,
        c.global_options == global_options,
        c.binary_content_hash matches Some(h) && h@ == manifest_item.hash@,
        c.content_path is None,
        c.signatures@.len() == binary_info.signatures@.len(),
        forall|i: int| 0 <= i < c.signatures@.len() ==> (#[trigger] c.signatures@[i]).keyid
            == binary_info.signatures@[i].keyid && c.signatures@[i].signature == binary_info.signatures@[i].sig
            && c.signatures@[i].signing_key_pair is None && c.signatures@[i].signing_key_private is None,
{
    BinaryProcessorConfig {
        binary_part_size: command.binary_part_size,
        concurrency: command.concurrency,
        global_options,
        binary_content_hash: Some(manifest_item.hash.clone()),
        content_path: None,
        signatures: signature_configs(&binary_info.signatures),
    }
}

/// What the first look at the manifest found: binaries already signable or
/// signed on the server, with their resource names, and those that still need
/// their content from the archive.
pub open spec fn spec_first_pass(
    ids: Seq<Seq<char>>,
    known: Seq<bool>,
    existing: Seq<Option<(Seq<char>, BinaryState)>>,
) -> (Map<Seq<char>, Seq<char>>, Set<Seq<char>>)
    decreases ids.len(),
{
    if ids.len() == 0 {
        (Map::empty(), Set::empty())
    } else {
        let n = ids.len() - 1;
        let (done, needing) = spec_first_pass(ids.drop_last(), known, existing);
        if !known[n] {
            (done, needing)
        } else {
            match existing[n] {
                Some((prn, state)) => if state == BinaryState::Signable || state == BinaryState::Signed {
                    (done.insert(ids[n], prn), needing)
                } else {
                    (done, needing.insert(ids[n]))
                },
                None => (done, needing.insert(ids[n])),
            }
        }
    }
}

/// The binary ids of a manifest, in order.
pub open spec fn manifest_ids(m: Seq<ManifestItem>) -> Seq<Seq<char>> {
    m.map_values(|i: ManifestItem| i.binary_id@)
}

/// The model of what the server holds for each manifest item.
pub open spec fn existing_view(e: Seq<Option<(String, BinaryState)>>) -> Seq<Option<(Seq<char>, BinaryState)>> {
    e.map_values(|o: Option<(String, BinaryState)>| match o {
        Some(p) => Some((p.0@, p.1)),
        None => None,
    })
}

/// Sorts the manifest's binaries before the archive is read: for each manifest
/// item in order whose binary the bundle describes (`known`), one the server
/// holds as signable or signed is done, with its resource name; any other still
/// needs its content.
pub fn first_pass(
    manifest: &Vec<ManifestItem>,
    known: &Vec<bool>,
    existing: &Vec<Option<(String, BinaryState)>>,
) -> (r: (StrMap<String>, StrMap<()>))
    requires
        known.len() == manifest.len(),
        existing.len() == manifest.len(),
    ensures
        r.0@.map_values(|p: String| p@) == spec_first_pass(manifest_ids(manifest@), known@, existing_view(existing@)).0,
        r.1@.dom() == spec_first_pass(manifest_ids(manifest@), known@, existing_view(existing@)).1,
{
    let mut done: StrMap<String> = StrMap::new();
    let mut needing: StrMap<()> = StrMap::new();
    let mut i: usize = 0;
    while i < manifest.len()
        invariant
            known.len() == manifest.len(),
            existing.len() == manifest.len(),
            i <= manifest.len(),
            done@.map_values(|p: String| p@) == spec_first_pass(
                manifest_ids(manifest@).take(i as int), known@, existing_view(existing@)).0,
            needing@.dom() == spec_first_pass(manifest_ids(manifest@).take(i as int), known@, existing_view(existing@)).1,
        decreases manifest.len() - i,
    {
        let ghost ids = manifest_ids(manifest@).take(i as int + 1);
        assert(ids.drop_last() =~= manifest_ids(manifest@).take(i as int));
        assert(ids[i as int] == manifest@[i as int].binary_id@);
        assert(existing_view(existing@)[i as int] == match existing@[i as int] {
            Some(p) => Some((p.0@, p.1)),
            None => None::<(Seq<char>, BinaryState)>,
        });
        let ghost before_done = done@;
        let ghost before_needing = needing@;
        if known[i] {
            let id = manifest[i].binary_id.clone();
            match &existing[i] {
                Some((prn, state)) => {
                    if *state == BinaryState::Signable || *state == BinaryState::Signed {
                        done.insert(id, prn.clone());
                        assert(done@.map_values(|p: String| p@) =~= before_done.map_values(|p: String| p@).insert(
                            ids[i as int], prn@));
                    } else {
                        needing.insert(id, ());
                        assert(needing@.dom() =~= before_needing.dom().insert(ids[i as int]));
                    }
                },
                None => {
                    needing.insert(id, ());
                    assert(needing@.dom() =~= before_needing.dom().insert(ids[i as int]));
                },
            }
        }
        i = i + 1;
    }
    assert(manifest_ids(manifest@).take(manifest.len() as int) =~= manifest_ids(manifest@));
    (done, needing)
}

/// What to do with an entry of the archive.
#[derive(Clone, Copy, PartialEq, Eq, Debug, Structural)]
pub enum EntryAction {
    /// Pass over the entry.
    Skip,
    /// Read the entry: it holds the content of the manifest item at this position.
    Process(usize),
    /// The archive ended after every manifest item had its entry.
    Finished,
}

/// The walk through the archive's entries, which come in manifest order: the
/// position of the manifest item the next binary entry belongs to.
pub struct ArchiveWalk {
    pub position: usize,
}

/// Whether an entry name is that of the bundle document.
pub open spec fn is_bundle_document(name: Seq<char>) -> bool {
    name.len() >= 11 && name.subrange(name.len() - 11, name.len() as int) == "bundle.json"@
}

/// The message for an archive with more binaries than the manifest.
pub open spec fn too_many_text(expected: nat, name: Seq<char>) -> Seq<char> {
    "Archive contains more binaries than manifest entries. Expected "@ + decimal(expected)
        + " binaries, found extra: "@ + name
}

/// The message for an archive with fewer binaries than the manifest.
pub open spec fn too_few_text(expected: nat, found: nat) -> Seq<char> {
    "Archive contains fewer binaries than manifest entries. Expected "@ + decimal(expected) + " binaries, found "@
        + decimal(found)
}

fn ends_with_bundle_document(name: &str) -> (b: bool)
    ensures
        b == is_bundle_document(name@),
{
    let cs = chars_of(name);
    let suffix = chars_of("bundle.json");
    proof {
        reveal_strlit("bundle.json");
    }
    if cs.len() < 11 {
        return false;
    }
    let mut i: usize = 0;
    while i < 11
        invariant
            cs@ == name@,
            suffix@ == "bundle.json"@,
            suffix@.len() == 11,
            cs.len() >= 11,
            i <= 11,
            forall|k: int| 0 <= k < i ==> cs@[cs.len() - 11 + k] == suffix@[k],
        decreases 11 - i,
    {
        if cs[cs.len() - 11 + i] != suffix[i] {
            assert(name@.subrange(name@.len() - 11, name@.len() as int)[i as int] != "bundle.json"@[i as int]);
            return false;
        }
        i = i + 1;
    }
    assert(name@.subrange(name@.len() - 11, name@.len() as int) =~= "bundle.json"@);
    true
}

impl ArchiveWalk {
    /// A walk before the first entry.
    pub fn new() -> (w: Self)
        ensures
            w.position == 0,
    {
        ArchiveWalk { position: 0 }
    }

    /// Takes the next entry of the archive (`trailer` marks its end): the trailer
    /// finishes the walk when every manifest item had its entry; the bundle
    /// document and nameless entries are passed over; any other entry belongs to
    /// the next manifest item and is read when that binary still needs its
    /// content and the bundle describes it. An entry beyond the manifest, or an
    /// end before it, is an error.
    pub fn next_entry(
        &mut self,
        name: &str,
        trailer: bool,
        manifest: &Vec<ManifestItem>,
        needing: &StrMap<()>,
        index: &StrMap<(String, BinaryInfo)>,
    ) -> (r: Result<EntryAction, String>)
        ensures
            trailer ==> final(self).position == old(self).position && match r {
                Ok(a) => a == EntryAction::Finished && old(self).position == manifest.len(),
                Err(m) => old(self).position != manifest.len()
                    && m@ == too_few_text(manifest.len() as nat, old(self).position as nat),
            },
            !trailer && (is_bundle_document(name@) || name@.len() == 0) ==> r == Ok::<EntryAction, String>(
                EntryAction::Skip) && final(self).position == old(self).position,
            !trailer && !(is_bundle_document(name@) || name@.len() == 0) && old(self).position >= manifest.len() ==> (
                r matches Err(m) && m@ == too_many_text(manifest.len() as nat, name@)
                && final(self).position == old(self).position),
            !trailer && !(is_bundle_document(name@) || name@.len() == 0) && old(self).position < manifest.len() ==> {
                let id = manifest@[old(self).position as int].binary_id@;
                &&& final(self).position == old(self).position + 1
                &&& (needing@.contains_key(id) && index@.contains_key(id)) ==> r == Ok::<EntryAction, String>(
                    EntryAction::Process(old(self).position))
                &&& !(needing@.contains_key(id) && index@.contains_key(id)) ==> r == Ok::<EntryAction, String>(
                    EntryAction::Skip)
            },
    {
        let n = manifest.len();
        if trailer {
            if self.position == n {
                return Ok(EntryAction::Finished);
            }
            let mut v = chars_of("Archive contains fewer binaries than manifest entries. Expected ");
            let d = decimal_chars(n);
            extend_chars(&mut v, d.as_slice());
            extend_str(&mut v, " binaries, found ");
            let f = decimal_chars(self.position);
            extend_chars(&mut v, f.as_slice());
            return Err(string_of(v.as_slice()));
        }
        if ends_with_bundle_document(name) || name.unicode_len() == 0 {
            return Ok(EntryAction::Skip);
        }
        if self.position >= n {
            let mut v = chars_of("Archive contains more binaries than manifest entries. Expected ");
            let d = decimal_chars(n);
            extend_chars(&mut v, d.as_slice());
            extend_str(&mut v, " binaries, found extra: ");
            extend_str(&mut v, name);
            return Err(string_of(v.as_slice()));
        }
        let p = self.position;
        let id = manifest[p].binary_id.as_str();
        let process = needing.contains_key(id) && index.contains_key(id);
        self.position = p + 1;
        if process {
            Ok(EntryAction::Process(p))
        } else {
            Ok(EntryAction::Skip)
        }
    }
}

/// The message for an archive entry whose content does not have the hash the
/// manifest gives for its position.
pub open spec fn ordering_text(name: Seq<char>, position: nat, computed: Seq<char>, expected: Seq<char>) -> Seq<char> {
    "Archive ordering mismatch! Binary "@ + name + " at position "@ + decimal(position) + " has hash "@ + computed
        + " but manifest expects "@ + expected + ". Archive binaries must match manifest order."@
}

/// Checks that the content read for the manifest item at `position` is the one
/// the manifest expects there: its SHA-256 digest in lowercase hexadecimal must
/// equal the manifest's hash.
pub fn check_entry_content(name: &str, position: usize, content: &[u8], expected_hash: &str) -> (r: Result<(), String>)
    ensures
        r is Ok <==> hex_of(sha256_of(content@), false) == expected_hash@,
        r matches Err(m) ==> m@ == ordering_text(name@, position as nat, hex_of(sha256_of(content@), false), expected_hash@),
{
    let computed = content_hash(content);
    if str_eq(computed.as_str(), expected_hash) {
        return Ok(());
    }
    let mut v = chars_of("Archive ordering mismatch! Binary ");
    extend_str(&mut v, name);
    extend_str(&mut v, " at position ");
    let d = decimal_chars(position);
    extend_chars(&mut v, d.as_slice());
    extend_str(&mut v, " has hash ");
    extend_str(&mut v, computed.as_str());
    extend_str(&mut v, " but manifest expects ");
    extend_str(&mut v, expected_hash);
    extend_str(&mut v, ". Archive binaries must match manifest order.");
    Err(string_of(v.as_slice()))
}

/// Whether an archive entry holds a binary (rather than the bundle document or
/// nothing).
pub open spec fn is_binary_entry(name: Seq<char>) -> bool {
    !(is_bundle_document(name) || name.len() == 0)
}

/// The number of binary entries among the names.
pub open spec fn binary_entry_count(names: Seq<Seq<char>>) -> int
    decreases names.len(),
{
    if names.len() == 0 {
        0
    } else {
        binary_entry_count(names.drop_first()) + if is_binary_entry(names[0]) { 1int } else { 0int }
    }
}

/// The position a walk reaches from `position` over the entries `names` (the
/// trailer not among them) for a manifest of `n` items, as `next_entry` moves
/// it; none when a binary entry comes after the last manifest item.
pub open spec fn walk_position(position: int, names: Seq<Seq<char>>, n: int) -> Option<int>
    decreases names.len(),
{
    if names.len() == 0 {
        Some(position)
    } else if !is_binary_entry(names[0]) {
        walk_position(position, names.drop_first(), n)
    } else if position >= n {
        None
    } else {
        walk_position(position + 1, names.drop_first(), n)
    }
}

proof fn lemma_walk_from(position: int, names: Seq<Seq<char>>, n: int)
    requires
        0 <= position <= n,
    ensures
        position + binary_entry_count(names) <= n ==> walk_position(position, names, n) == Some(
            position + binary_entry_count(names),
        ),
        position + binary_entry_count(names) > n ==> walk_position(position, names, n) is None,
        binary_entry_count(names) >= 0,
    decreases names.len(),
{
    if names.len() > 0 {
        if is_binary_entry(names[0]) {
            if position < n {
                lemma_walk_from(position + 1, names.drop_first(), n);
            } else {
                lemma_walk_from(position, names.drop_first(), n);
            }
        } else {
            lemma_walk_from(position, names.drop_first(), n);
        }
    }
}

/// A walk over an archive whose entries (before the trailer) are `names`
/// finishes at the trailer exactly when the archive holds as many binary
/// entries as the manifest has items; with more it stops at the first extra
/// one, and with fewer the trailer is refused.
pub proof fn lemma_walk_finishes_iff_counts_match(names: Seq<Seq<char>>, n: int)
    requires
        n >= 0,
    ensures
        walk_position(0, names, n) == Some(n) <==> binary_entry_count(names) == n,
        binary_entry_count(names) > n <==> walk_position(0, names, n) is None,
        binary_entry_count(names) < n ==> walk_position(0, names, n) == Some(binary_entry_count(names)),
{
    lemma_walk_from(0, names, n);
}

proof fn lemma_count_push(names: Seq<Seq<char>>, name: Seq<char>)
    ensures
        binary_entry_count(names.push(name)) == binary_entry_count(names) + if is_binary_entry(name) {
            1int
        } else {
            0int
        },
    decreases names.len(),
{
    if names.len() > 0 {
        lemma_count_push(names.drop_first(), name);
        assert(names.push(name).drop_first() =~= names.drop_first().push(name));
        assert(names.push(name)[0] == names[0]);
    } else {
        assert(names.push(name).drop_first() =~= Seq::<Seq<char>>::empty());
        assert(names.push(name)[0] == name);
        assert(binary_entry_count(Seq::<Seq<char>>::empty()) == 0);
    }
}

proof fn lemma_count_nonneg(names: Seq<Seq<char>>)
    ensures
        binary_entry_count(names) >= 0,
    decreases names.len(),
{
    if names.len() > 0 {
        lemma_count_nonneg(names.drop_first());
    }
}

/// Walks an archive whose entries (before the trailer) are named `names`: the
/// action for each entry in order, then the end of the walk. The walk succeeds
/// exactly when the archive holds one binary entry per manifest item.
pub fn walk_archive(
    names: &Vec<String>,
    manifest: &Vec<ManifestItem>,
    needing: &StrMap<()>,
    index: &StrMap<(String, BinaryInfo)>,
) -> (r: Result<Vec<EntryAction>, String>)
    ensures
        r is Ok <==> binary_entry_count(crate::text::views(names@)) == manifest@.len(),
        r matches Ok(actions) ==> actions@.len() == names@.len() + 1 && actions@[names@.len() as int]
            == EntryAction::Finished,
{
    let mut walk = ArchiveWalk::new();
    let mut actions: Vec<EntryAction> = Vec::new();
    let mut i: usize = 0;
    while i < names.len()
        invariant
            i <= names.len(),
            actions@.len() == i,
            walk.position == binary_entry_count(crate::text::views(names@).take(i as int)),
            walk.position <= manifest@.len(),
        decreases names.len() - i,
    {
        let ghost before = crate::text::views(names@).take(i as int);
        assert(crate::text::views(names@).take(i as int + 1) =~= before.push(names@[i as int]@));
        proof {
            lemma_count_push(before, names@[i as int]@);
        }
        match walk.next_entry(names[i].as_str(), false, manifest, needing, index) {
            Ok(a) => actions.push(a),
            Err(e) => {
                proof {
                    let all = crate::text::views(names@);
                    assert(all =~= all.take(i as int + 1) + all.skip(i as int + 1));
                    lemma_count_split(all.take(i as int + 1), all.skip(i as int + 1));
                    lemma_count_nonneg(all.skip(i as int + 1));
                }
                return Err(e);
            },
        }
        i = i + 1;
    }
    assert(crate::text::views(names@).take(names.len() as int) =~= crate::text::views(names@));
    match walk.next_entry("", true, manifest, needing, index) {
        Ok(a) => {
            actions.push(a);
            Ok(actions)
        },
        Err(e) => Err(e),
    }
}

proof fn lemma_count_split(a: Seq<Seq<char>>, b: Seq<Seq<char>>)
    ensures
        binary_entry_count(a + b) == binary_entry_count(a) + binary_entry_count(b),
    decreases a.len(),
{
    if a.len() > 0 {
        lemma_count_split(a.drop_first(), b);
        assert((a + b).drop_first() =~= a.drop_first() + b);
    } else {
        assert(a + b =~= b);
    }
}

} // verus!
