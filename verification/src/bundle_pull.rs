//! Pulling a bundle into an archive: the archive's file name, the manifest
//! built from the bundle's binaries, and the checks made while the archive is
//! written.
use vstd::prelude::*;
use crate::bundle_format::{
    duplicate_metadata, duplicate_signatures, ArtifactInfo, ArtifactVersionInfo, BinaryInfo, BundleInfo, BundleJson,
    ManifestItem, SignatureInfo,
};
use crate::config::clone_opt;
use crate::prn::{prn_error_text, spec_parse, PRN};
use crate::strmap::StrMap;
use crate::text::{chars_of, decimal, extend_chars, extend_str, string_of};

verus! {

/// The resource id of a resource name, or the message for a name that does not
/// parse.
pub open spec fn spec_extract_id(prn: Seq<char>) -> Result<Seq<char>, Seq<char>> {
    match spec_parse(prn) {
        Ok(m) => Ok(m.resource_id),
        Err(e) => Err("Failed to parse PRN "@ + prn + ": "@ + prn_error_text(e)),
    }
}

/// The resource id of a resource name.
pub fn extract_id_from_prn(prn: &str) -> (r: Result<String, String>)
    ensures
        match r {
            Ok(id) => spec_extract_id(prn@) == Ok::<Seq<char>, Seq<char>>(id@),
            Err(m) => spec_extract_id(prn@) == Err::<Seq<char>, Seq<char>>(m@),
        },
{
    match PRN::parse(prn) {
        Ok(parsed) => Ok(parsed.resource_id),
        Err(e) => {
            let mut v = chars_of("Failed to parse PRN ");
            extend_str(&mut v, prn);
            extend_str(&mut v, ": ");
            let t = e.to_string();
            extend_str(&mut v, t.as_str());
            Err(string_of(v.as_slice()))
        },
    }
}

/// Whether a character is alphanumeric, as `char::is_alphanumeric` decides.
pub uninterp spec fn alphanumeric(c: char) -> bool;

/// Calls `char::is_alphanumeric`; the contract claims only that the answer is
/// a function of the character.
#[verifier::external_body]
fn is_alphanumeric(c: char) -> (b: bool)
    ensures
        b == alphanumeric(c),
{
    c.is_alphanumeric()
}

/// The character kept in a file name: alphanumeric characters, `-` and `_`
/// stay, anything else becomes `_`.
pub open spec fn safe_char(c: char) -> char {
    if alphanumeric(c) || c == '-' || c == '_' { c } else { '_' }
}

/// The name of the archive a pulled bundle is written to, unless an output
/// path was given: the bundle's name (or resource name) made safe, with the
/// extension `.cpio.zst`.
pub open spec fn spec_output_path(output: Option<Seq<char>>, name: Option<Seq<char>>, prn: Seq<char>) -> Seq<char> {
    match output {
        Some(o) => o,
        None => {
            let base = match name { Some(n) => n, None => prn };
            base.map_values(|c: char| safe_char(c)) + ".cpio.zst"@
        },
    }
}

/// The path a pulled bundle is written to: the output path given, else a file
/// named after the bundle.
pub fn determine_output_path(output: &Option<String>, bundle_name: &Option<String>, bundle_prn: &str) -> (p: String)
    ensures
        p@ == spec_output_path(
            crate::paths::opt_view(*output),
            crate::paths::opt_view(*bundle_name),
            bundle_prn@,
        ),
{
    match output {
        Some(o) => return o.clone(),
        None => {},
    }
    let base = match bundle_name {
        Some(n) => chars_of(n.as_str()),
        None => chars_of(bundle_prn),
    };
    let mut v: Vec<char> = Vec::new();
    let mut i: usize = 0;
    while i < base.len()
        invariant
            i <= base.len(),
            v@ == base@.take(i as int).map_values(|c: char| safe_char(c)),
        decreases base.len() - i,
    {
        let c = base[i];
        let keep = is_alphanumeric(c) || c == '-' || c == '_';
        if keep {
            v.push(c);
        } else {
            v.push('_');
        }
        i = i + 1;
        assert(v@ =~= base@.take(i as int).map_values(|c: char| safe_char(c)));
    }
    assert(base@.take(base.len() as int) =~= base@);
    extend_str(&mut v, ".cpio.zst");
    string_of(v.as_slice())
}

/// What the server gives for a binary of the bundle, with its artifact
/// version and artifact, and the metadata the bundle gives it.
pub struct PulledBinary {
    pub prn: String,
    pub hash: Option<String>,
    pub size: Option<u64>,
    pub target: String,
    pub description: Option<String>,
    pub signatures: Option<Vec<SignatureInfo>>,
    pub artifact_version_prn: String,
    pub version: String,
    pub version_description: Option<String>,
    pub artifact_prn: String,
    pub artifact_name: String,
    pub artifact_description: Option<String>,
    pub custom_metadata: Option<Vec<(String, String)>>,
}

/// Whether a manifest item is the one for a pulled binary with the given ids.
pub open spec fn is_item_for(
    m: ManifestItem,
    b: PulledBinary,
    binary_id: Seq<char>,
    version_id: Seq<char>,
    artifact_id: Seq<char>,
) -> bool {
    &&& m.hash@ == (match b.hash { Some(h) => h@, None => Seq::<char>::empty() })
    &&& m.size == (match b.size { Some(s) => s, None => 0u64 })
    &&& m.binary_id@ == binary_id
    &&& m.target == b.target
    &&& m.artifact_version_id@ == version_id
    &&& m.artifact_id@ == artifact_id
    &&& m.custom_metadata@ == (match b.custom_metadata { Some(c) => c@, None => Seq::<(String, String)>::empty() })
}

/// The manifest item for a pulled binary, or the message for a resource name
/// that does not parse (the binary's first, then its version's, then its
/// artifact's).
pub fn manifest_item_for(b: &PulledBinary) -> (r: Result<ManifestItem, String>)
    ensures
        match (spec_extract_id(b.prn@), spec_extract_id(b.artifact_version_prn@), spec_extract_id(b.artifact_prn@)) {
            (Ok(bid), Ok(vid), Ok(aid)) => r matches Ok(m) && is_item_for(m, *b, bid, vid, aid),
            (Err(e), _, _) => r matches Err(m) && m@ == e,
            (Ok(_), Err(e), _) => r matches Err(m) && m@ == e,
            (Ok(_), Ok(_), Err(e)) => r matches Err(m) && m@ == e,
        },
        r matches Ok(m) ==> m.custom_metadata@ == (match b.custom_metadata {
            Some(c) => c@,
            None => Seq::<(String, String)>::empty(),
        }) && m.target == b.target && m.size == (match b.size { Some(x) => x, None => 0u64 }),
{
    let binary_id = match extract_id_from_prn(b.prn.as_str()) {
        Ok(i) => i,
        Err(e) => return Err(e),
    };
    let version_id = match extract_id_from_prn(b.artifact_version_prn.as_str()) {
        Ok(i) => i,
        Err(e) => return Err(e),
    };
    let artifact_id = match extract_id_from_prn(b.artifact_prn.as_str()) {
        Ok(i) => i,
        Err(e) => return Err(e),
    };
    let hash = match &b.hash {
        Some(h) => h.clone(),
        None => String::new(),
    };
    let size = match b.size {
        Some(s) => s,
        None => 0,
    };
    let custom_metadata = match &b.custom_metadata {
        Some(c) => duplicate_metadata(c),
        None => Vec::new(),
    };
    Ok(ManifestItem {
        hash,
        size,
        binary_id,
        target: b.target.clone(),
        artifact_version_id: version_id,
        artifact_id,
        custom_metadata,
    })
}

/// The binary info a pulled binary contributes: its description and its
/// signatures (none when the server lists none).
pub fn binary_info_for(b: &PulledBinary) -> (i: BinaryInfo)
    ensures
        i.description == b.description,
        i.signatures@ == (match b.signatures { Some(s) => s@, None => Seq::<SignatureInfo>::empty() }),
{
    let signatures = match &b.signatures {
        Some(s) => duplicate_signatures(s),
        None => Vec::new(),
    };
    BinaryInfo { description: crate::config::clone_opt(&b.description), signatures }
}

/// The manifest of a pulled bundle: the item of each binary, in the bundle's
/// order; the first resource name that does not parse stops it.
pub open spec fn manifest_ok(items: Seq<ManifestItem>, bs: Seq<PulledBinary>) -> bool {
    &&& items.len() == bs.len()
    &&& forall|i: int| 0 <= i < bs.len() ==> (#[trigger] spec_extract_id(bs[i].prn@)) is Ok
        && spec_extract_id(bs[i].artifact_version_prn@) is Ok && spec_extract_id(bs[i].artifact_prn@) is Ok
        && is_item_for(
            items[i],
            bs[i],
            spec_extract_id(bs[i].prn@)->Ok_0,
            spec_extract_id(bs[i].artifact_version_prn@)->Ok_0,
            spec_extract_id(bs[i].artifact_prn@)->Ok_0,
        )
}

/// A pulled manifest carries what the server gives for each binary: the item
/// at each position has that binary's metadata (empty only when the server
/// gives none), its target, its size (0 when unknown) and its hash (empty when
/// unknown), and the ids read from its resource names.
pub proof fn lemma_pulled_items_carry_server_data(items: Seq<ManifestItem>, bs: Seq<PulledBinary>)
    requires
        manifest_ok(items, bs),
    ensures
        items.len() == bs.len(),
        forall|i: int| 0 <= i < items.len() ==> {
            &&& (#[trigger] items[i]).custom_metadata@ == (match bs[i].custom_metadata {
                Some(c) => c@,
                None => Seq::<(String, String)>::empty(),
            })
            &&& items[i].target == bs[i].target
            &&& items[i].size == (match bs[i].size { Some(x) => x, None => 0u64 })
            &&& items[i].hash@ == (match bs[i].hash { Some(h) => h@, None => Seq::<char>::empty() })
            &&& spec_extract_id(bs[i].prn@) == Ok::<Seq<char>, Seq<char>>(items[i].binary_id@)
            &&& spec_extract_id(bs[i].artifact_version_prn@) == Ok::<Seq<char>, Seq<char>>(
                items[i].artifact_version_id@,
            )
            &&& spec_extract_id(bs[i].artifact_prn@) == Ok::<Seq<char>, Seq<char>>(items[i].artifact_id@)
        },
{
    assert forall|i: int| 0 <= i < items.len() implies {
        &&& (#[trigger] items[i]).custom_metadata@ == (match bs[i].custom_metadata {
            Some(c) => c@,
            None => Seq::<(String, String)>::empty(),
        })
        &&& items[i].target == bs[i].target
        &&& items[i].size == (match bs[i].size { Some(x) => x, None => 0u64 })
        &&& items[i].hash@ == (match bs[i].hash { Some(h) => h@, None => Seq::<char>::empty() })
        &&& spec_extract_id(bs[i].prn@) == Ok::<Seq<char>, Seq<char>>(items[i].binary_id@)
        &&& spec_extract_id(bs[i].artifact_version_prn@) == Ok::<Seq<char>, Seq<char>>(items[i].artifact_version_id@)
        &&& spec_extract_id(bs[i].artifact_prn@) == Ok::<Seq<char>, Seq<char>>(items[i].artifact_id@)
    } by {
        assert(spec_extract_id(bs[i].prn@) is Ok);
    }
}

/// Builds the manifest of a pulled bundle from its binaries, in order; a pull
/// supports only bundles of the second version.
pub fn build_manifest(is_v2: bool, binaries: &Vec<PulledBinary>) -> (r: Result<Vec<ManifestItem>, String>)
    ensures
        !is_v2 ==> (r matches Err(m) && m@ == "Bundle pull only supports V2 bundles"@),
        r matches Ok(items) ==> is_v2 && manifest_ok(items@, binaries@),
        r matches Ok(items) ==> items@.len() == binaries@.len() && forall|i: int| 0 <= i < items@.len()
            ==> (#[trigger] items@[i]).custom_metadata@ == (match binaries@[i].custom_metadata {
                Some(c) => c@,
                None => Seq::<(String, String)>::empty(),
            }) && items@[i].target == binaries@[i].target,
        is_v2 && (forall|i: int| 0 <= i < binaries@.len() ==> (#[trigger] spec_extract_id(binaries@[i].prn@)) is Ok
            && spec_extract_id(binaries@[i].artifact_version_prn@) is Ok
            && spec_extract_id(binaries@[i].artifact_prn@) is Ok) ==> r is Ok,
{
    if !is_v2 {
        return Err(String::from_str("Bundle pull only supports V2 bundles"));
    }
    let mut items: Vec<ManifestItem> = Vec::new();
    let mut i: usize = 0;
    while i < binaries.len()
        invariant
            is_v2,
            i <= binaries.len(),
            manifest_ok(items@, binaries@.take(i as int)),
        decreases binaries.len() - i,
    {
        match manifest_item_for(&binaries[i]) {
            Ok(m) => {
                items.push(m);
                assert forall|k: int| 0 <= k < i + 1 implies (#[trigger] spec_extract_id(
                    binaries@.take(i as int + 1)[k].prn@,
                )) is Ok && spec_extract_id(binaries@.take(i as int + 1)[k].artifact_version_prn@) is Ok
                    && spec_extract_id(binaries@.take(i as int + 1)[k].artifact_prn@) is Ok && is_item_for(
                    items@[k],
                    binaries@.take(i as int + 1)[k],
                    spec_extract_id(binaries@.take(i as int + 1)[k].prn@)->Ok_0,
                    spec_extract_id(binaries@.take(i as int + 1)[k].artifact_version_prn@)->Ok_0,
                    spec_extract_id(binaries@.take(i as int + 1)[k].artifact_prn@)->Ok_0,
                ) by {
                    if k < i {
                        assert(binaries@.take(i as int + 1)[k] == binaries@.take(i as int)[k]);
                    }
                }
            },
            Err(e) => {
                assert(spec_extract_id(binaries@[i as int].prn@) is Err
                    || spec_extract_id(binaries@[i as int].artifact_version_prn@) is Err
                    || spec_extract_id(binaries@[i as int].artifact_prn@) is Err);
                return Err(e);
            },
        }
        i = i + 1;
    }
    assert(binaries@.take(binaries.len() as int) =~= binaries@);
    proof {
        lemma_pulled_items_carry_server_data(items@, binaries@);
    }
    Ok(items)
}

/// The resource name of a manifest binary, looked up by its id.
pub fn binary_prn_for(prns: &StrMap<String>, binary_id: &str) -> (r: Result<String, String>)
    ensures
        prns@.contains_key(binary_id@) ==> (r matches Ok(p) && p == prns@[binary_id@]),
        !prns@.contains_key(binary_id@) ==> (r matches Err(m) && m@ == "PRN not found for binary_id: "@ + binary_id@),
{
    match prns.get(binary_id) {
        Some(p) => Ok(p.clone()),
        None => {
            let mut v = chars_of("PRN not found for binary_id: ");
            extend_str(&mut v, binary_id);
            Err(string_of(v.as_slice()))
        },
    }
}

/// Checks that the content fetched for a manifest binary has the size the
/// manifest gives.
pub fn check_size(binary_id: &str, expected: u64, actual: u64) -> (r: Result<(), String>)
    ensures
        r is Ok <==> expected == actual,
        r matches Err(m) ==> m@ == "Size mismatch for binary "@ + binary_id@ + ": expected "@ + decimal(expected as nat)
            + ", got "@ + decimal(actual as nat),
{
    if expected == actual {
        return Ok(());
    }
    let mut v = chars_of("Size mismatch for binary ");
    extend_str(&mut v, binary_id);
    extend_str(&mut v, ": expected ");
    let e = crate::text::decimal_u64(expected);
    extend_chars(&mut v, e.as_slice());
    extend_str(&mut v, ", got ");
    let a = crate::text::decimal_u64(actual);
    extend_chars(&mut v, a.as_slice());
    Err(string_of(v.as_slice()))
}

/// The names of the archive's entries, in order: the bundle document, then one
/// entry per manifest binary named after its target.
pub fn archive_entry_names(manifest: &Vec<ManifestItem>) -> (names: Vec<String>)
    ensures
        names@.len() == manifest@.len() + 1,
        names@[0]@ == "bundle.json"@,
        forall|i: int| 0 <= i < manifest@.len() ==> (#[trigger] names@[i + 1]) == manifest@[i].target,
{
    let mut names: Vec<String> = Vec::new();
    names.push(String::from_str("bundle.json"));
    let mut i: usize = 0;
    while i < manifest.len()
        invariant
            i <= manifest.len(),
            names@.len() == i + 1,
            names@[0]@ == "bundle.json"@,
            forall|k: int| 0 <= k < i ==> (#[trigger] names@[k + 1]) == manifest@[k].target,
        decreases manifest.len() - i,
    {
        names.push(manifest[i].target.clone());
        i = i + 1;
    }
    names
}

/// Whether the artifacts hold the binary `b` under version `v` of artifact `a`.
pub open spec fn tree_has(arts: Map<Seq<char>, ArtifactInfo>, a: Seq<char>, v: Seq<char>, b: Seq<char>) -> bool {
    &&& arts.contains_key(a)
    &&& arts[a].versions@.contains_key(v)
    &&& arts[a].versions@[v].binaries@.contains_key(b)
}

/// The position of the first of the first `e` items that belongs to artifact
/// `a`, or -1.
pub open spec fn first_of_artifact(items: Seq<ManifestItem>, e: int, a: Seq<char>) -> int
    decreases e,
{
    if e <= 0 {
        -1
    } else {
        let f = first_of_artifact(items, e - 1, a);
        if f >= 0 {
            f
        } else if items[e - 1].artifact_id@ == a {
            e - 1
        } else {
            -1
        }
    }
}

/// The position of the first of the first `e` items that belongs to version
/// `v` of artifact `a`, or -1.
pub open spec fn first_of_version(items: Seq<ManifestItem>, e: int, a: Seq<char>, v: Seq<char>) -> int
    decreases e,
{
    if e <= 0 {
        -1
    } else {
        let f = first_of_version(items, e - 1, a, v);
        if f >= 0 {
            f
        } else if items[e - 1].artifact_id@ == a && items[e - 1].artifact_version_id@ == v {
            e - 1
        } else {
            -1
        }
    }
}

/// The position of the last of the first `e` items that is binary `b` of
/// version `v` of artifact `a`, or -1.
pub open spec fn last_of_binary(items: Seq<ManifestItem>, e: int, a: Seq<char>, v: Seq<char>, b: Seq<char>) -> int
    decreases e,
{
    if e <= 0 {
        -1
    } else if items[e - 1].artifact_id@ == a && items[e - 1].artifact_version_id@ == v
        && items[e - 1].binary_id@ == b {
        e - 1
    } else {
        last_of_binary(items, e - 1, a, v, b)
    }
}

proof fn lemma_positions(items: Seq<ManifestItem>, e: int, a: Seq<char>, v: Seq<char>, b: Seq<char>)
    requires
        0 <= e <= items.len(),
    ensures
        -1 <= first_of_artifact(items, e, a) < e,
        first_of_artifact(items, e, a) >= 0 ==> items[first_of_artifact(items, e, a)].artifact_id@ == a,
        -1 <= first_of_version(items, e, a, v) < e,
        first_of_version(items, e, a, v) >= 0 ==> items[first_of_version(items, e, a, v)].artifact_id@ == a
            && items[first_of_version(items, e, a, v)].artifact_version_id@ == v,
        -1 <= last_of_binary(items, e, a, v, b) < e,
        last_of_binary(items, e, a, v, b) >= 0 ==> items[last_of_binary(items, e, a, v, b)].artifact_id@ == a
            && items[last_of_binary(items, e, a, v, b)].artifact_version_id@ == v
            && items[last_of_binary(items, e, a, v, b)].binary_id@ == b,
    decreases e,
{
    if e > 0 {
        lemma_positions(items, e - 1, a, v, b);
    }
}

/// Whether a binary info is the one a pulled binary contributes.
pub open spec fn info_from(i: BinaryInfo, b: PulledBinary) -> bool {
    &&& i.description == b.description
    &&& i.signatures@ == (match b.signatures { Some(s) => s@, None => Seq::<SignatureInfo>::empty() })
}

/// The facts the artifacts hold after the first `e` items: every artifact,
/// version and binary comes from those items, artifacts and versions take their
/// texts from the first item that names them, binaries their info from the
/// last.
pub open spec fn arranged(arts: Map<Seq<char>, ArtifactInfo>, items: Seq<ManifestItem>, bs: Seq<PulledBinary>, e: int) -> bool {
    &&& forall|a: Seq<char>| #[trigger] arts.contains_key(a) ==> first_of_artifact(items, e, a) >= 0
        && arts[a].name == bs[first_of_artifact(items, e, a)].artifact_name
        && arts[a].description == bs[first_of_artifact(items, e, a)].artifact_description
    &&& forall|a: Seq<char>, v: Seq<char>| arts.contains_key(a) && #[trigger] arts[a].versions@.contains_key(v)
        ==> first_of_version(items, e, a, v) >= 0
        && arts[a].versions@[v].version == bs[first_of_version(items, e, a, v)].version
        && arts[a].versions@[v].description == bs[first_of_version(items, e, a, v)].version_description
    &&& forall|a: Seq<char>, v: Seq<char>, b: Seq<char>| #[trigger] tree_has(arts, a, v, b)
        ==> last_of_binary(items, e, a, v, b) >= 0
        && info_from(arts[a].versions@[v].binaries@[b], bs[last_of_binary(items, e, a, v, b)])
}

/// Arranges the pulled binaries by artifact and version: every manifest item's
/// binary is found under its artifact and version; an artifact or version takes
/// its name, version text and description from the first binary that names it,
/// and a binary listed twice keeps the info of its last listing.
pub fn build_artifacts(items: &Vec<ManifestItem>, binaries: &Vec<PulledBinary>) -> (arts: StrMap<ArtifactInfo>)
    requires
        items.len() == binaries.len(),
    ensures
        forall|k: int| 0 <= k < items@.len() ==> #[trigger] tree_has(
            arts@,
            items@[k].artifact_id@,
            items@[k].artifact_version_id@,
            items@[k].binary_id@,
        ),
        arranged(arts@, items@, binaries@, items@.len() as int),
{
    let mut arts: StrMap<ArtifactInfo> = StrMap::new();
    let mut i: usize = 0;
    while i < items.len()
        invariant
            items.len() == binaries.len(),
            i <= items.len(),
            forall|k: int| 0 <= k < i ==> #[trigger] tree_has(
                arts@,
                items@[k].artifact_id@,
                items@[k].artifact_version_id@,
                items@[k].binary_id@,
            ),
            arranged(arts@, items@, binaries@, i as int),
        decreases items.len() - i,
    {
        let item = &items[i];
        let b = &binaries[i];
        let ghost old_arts = arts@;
        let ghost a = item.artifact_id@;
        let ghost v = item.artifact_version_id@;
        let ghost bid = item.binary_id@;
        let mut art = match arts.remove(item.artifact_id.as_str()) {
            Some(x) => x,
            None => ArtifactInfo {
                name: b.artifact_name.clone(),
                description: clone_opt(&b.artifact_description),
                versions: StrMap::new(),
            },
        };
        let ghost art_name = art.name;
        let ghost art_desc = art.description;
        let ghost old_versions = art.versions@;
        let mut ver = match art.versions.remove(item.artifact_version_id.as_str()) {
            Some(x) => x,
            None => ArtifactVersionInfo {
                version: b.version.clone(),
                description: clone_opt(&b.version_description),
                binaries: StrMap::new(),
            },
        };
        let ghost ver_text = ver.version;
        let ghost ver_desc = ver.description;
        let ghost old_bins = ver.binaries@;
        ver.binaries.insert(item.binary_id.clone(), binary_info_for(b));
        let ghost new_bins = ver.binaries@;
        art.versions.insert(item.artifact_version_id.clone(), ver);
        let ghost new_versions = art.versions@;
        arts.insert(item.artifact_id.clone(), art);
        proof {
            let items_s = items@;
            let bs = binaries@;
            let e = i as int;
            assert(old_arts.contains_key(a) ==> old_versions == old_arts[a].versions@ && art_name == old_arts[a].name
                && art_desc == old_arts[a].description);
            assert(!old_arts.contains_key(a) ==> old_versions == Map::<Seq<char>, ArtifactVersionInfo>::empty()
                && art_name == bs[e].artifact_name && art_desc == bs[e].artifact_description);
            assert(old_versions.contains_key(v) ==> old_bins == old_versions[v].binaries@ && ver_text
                == old_versions[v].version && ver_desc == old_versions[v].description);
            assert(!old_versions.contains_key(v) ==> old_bins == Map::<Seq<char>, BinaryInfo>::empty()
                && ver_text == bs[e].version && ver_desc == bs[e].version_description);
            assert(arts@ == old_arts.remove(a).insert(a, arts@[a]));
            assert(arts@[a].versions@ == new_versions);
            assert(arts@[a].name == art_name && arts@[a].description == art_desc);
            assert(new_versions == old_versions.remove(v).insert(v, new_versions[v]));
            assert(new_versions[v].binaries@ == new_bins);
            assert(new_versions[v].version == ver_text && new_versions[v].description == ver_desc);
            assert(new_bins == old_bins.insert(bid, new_bins[bid]));
            assert(info_from(new_bins[bid], bs[e]));
            assert(items_s[e].artifact_id@ == a && items_s[e].artifact_version_id@ == v && items_s[e].binary_id@ == bid);
            // an artifact (version, binary) present before was named by an earlier item
            assert(!old_arts.contains_key(a) ==> first_of_artifact(items_s, e, a) == -1) by {
                lemma_positions(items_s, e, a, v, bid);
                if first_of_artifact(items_s, e, a) >= 0 {
                    let k = first_of_artifact(items_s, e, a);
                    assert(tree_has(old_arts, items_s[k].artifact_id@, items_s[k].artifact_version_id@, items_s[k].binary_id@));
                }
            }
            assert(old_arts.contains_key(a) && !old_versions.contains_key(v) ==> first_of_version(items_s, e, a, v)
                == -1) by {
                lemma_positions(items_s, e, a, v, bid);
                if old_arts.contains_key(a) && first_of_version(items_s, e, a, v) >= 0 {
                    let k = first_of_version(items_s, e, a, v);
                    assert(tree_has(old_arts, items_s[k].artifact_id@, items_s[k].artifact_version_id@, items_s[k].binary_id@));
                }
            }
            assert(!old_arts.contains_key(a) ==> first_of_version(items_s, e, a, v) == -1) by {
                lemma_positions(items_s, e, a, v, bid);
                if first_of_version(items_s, e, a, v) >= 0 {
                    let k = first_of_version(items_s, e, a, v);
                    assert(tree_has(old_arts, items_s[k].artifact_id@, items_s[k].artifact_version_id@, items_s[k].binary_id@));
                }
            }
            assert forall|x: Seq<char>| #[trigger] arts@.contains_key(x) implies first_of_artifact(items_s, e + 1, x) >= 0
                && arts@[x].name == bs[first_of_artifact(items_s, e + 1, x)].artifact_name
                && arts@[x].description == bs[first_of_artifact(items_s, e + 1, x)].artifact_description by {
                if x != a {
                    assert(old_arts.contains_key(x));
                }
            }
            assert forall|x: Seq<char>, y: Seq<char>| arts@.contains_key(x) && #[trigger] arts@[x].versions@.contains_key(y)
                implies first_of_version(items_s, e + 1, x, y) >= 0
                && arts@[x].versions@[y].version == bs[first_of_version(items_s, e + 1, x, y)].version
                && arts@[x].versions@[y].description == bs[first_of_version(items_s, e + 1, x, y)].version_description by {
                if x != a {
                    assert(old_arts.contains_key(x) && old_arts[x].versions@.contains_key(y));
                } else if y != v {
                    assert(old_versions.contains_key(y));
                    assert(old_arts.contains_key(a));
                    assert(old_arts[x].versions@.contains_key(y));
                }
            }
            assert forall|x: Seq<char>, y: Seq<char>, z: Seq<char>| #[trigger] tree_has(arts@, x, y, z)
                implies last_of_binary(items_s, e + 1, x, y, z) >= 0
                && info_from(arts@[x].versions@[y].binaries@[z], bs[last_of_binary(items_s, e + 1, x, y, z)]) by {
                if x != a {
                    assert(tree_has(old_arts, x, y, z));
                } else if y != v {
                    assert(old_arts.contains_key(a));
                    assert(tree_has(old_arts, x, y, z));
                } else if z != bid {
                    assert(old_arts.contains_key(a));
                    assert(old_versions.contains_key(v));
                    assert(tree_has(old_arts, x, y, z));
                }
            }
            assert forall|k: int| 0 <= k < e + 1 implies #[trigger] tree_has(
                arts@,
                items_s[k].artifact_id@,
                items_s[k].artifact_version_id@,
                items_s[k].binary_id@,
            ) by {
                if k < e {
                    let ka = items_s[k].artifact_id@;
                    let kv = items_s[k].artifact_version_id@;
                    let kb = items_s[k].binary_id@;
                    assert(tree_has(old_arts, ka, kv, kb));
                    if ka != a {
                        assert(arts@[ka] == old_arts[ka]);
                    } else if kv != v {
                        assert(new_versions[kv] == old_versions[kv]);
                    } else {
                        assert(new_bins.contains_key(kb));
                    }
                }
            }
        }
        i = i + 1;
    }
    arts
}

/// The bundle document of a pulled bundle: its artifacts, and the bundle's id,
/// name and manifest; signatures of the bundle are not fetched.
pub fn build_bundle_json(
    is_v2: bool,
    bundle_prn: &str,
    bundle_name: &Option<String>,
    binaries: &Vec<PulledBinary>,
) -> (r: Result<BundleJson, String>)
    ensures
        !is_v2 ==> (r matches Err(m) && m@ == "Bundle pull only supports V2 bundles"@),
        r matches Ok(j) ==> {
            &&& manifest_ok(j.bundle.manifest@, binaries@)
            &&& spec_extract_id(bundle_prn@) == Ok::<Seq<char>, Seq<char>>(j.bundle.id@)
            &&& j.bundle.name == *bundle_name
            &&& j.bundle.signatures@.len() == 0
            &&& forall|k: int| 0 <= k < binaries@.len() ==> #[trigger] tree_has(
                j.artifacts@,
                j.bundle.manifest@[k].artifact_id@,
                j.bundle.manifest@[k].artifact_version_id@,
                j.bundle.manifest@[k].binary_id@,
            )
            &&& arranged(j.artifacts@, j.bundle.manifest@, binaries@, binaries@.len() as int)
        },
        is_v2 && (forall|i: int| 0 <= i < binaries@.len() ==> (#[trigger] spec_extract_id(binaries@[i].prn@)) is Ok
            && spec_extract_id(binaries@[i].artifact_version_prn@) is Ok
            && spec_extract_id(binaries@[i].artifact_prn@) is Ok) && spec_extract_id(bundle_prn@) is Ok ==> r is Ok,
{
    let manifest = match build_manifest(is_v2, binaries) {
        Ok(m) => m,
        Err(e) => return Err(e),
    };
    let artifacts = build_artifacts(&manifest, binaries);
    let id = match extract_id_from_prn(bundle_prn) {
        Ok(i) => i,
        Err(e) => return Err(e),
    };
    Ok(BundleJson {
        artifacts,
        bundle: BundleInfo { id, name: clone_opt(bundle_name), signatures: Vec::new(), manifest },
    })
}

} // verus!
