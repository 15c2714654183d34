//! The `bundle.json` document that travels at the head of a bundle archive:
//! artifacts, their versions and binaries, and the manifest that lists the
//! binaries in archive order.
use vstd::prelude::*;
use crate::config::clone_opt;
use crate::strmap::StrMap;

verus! {

/// A signature of a binary or bundle: the signing key's keyid and the signature.
#[derive(Debug, PartialEq, Eq)]
pub struct SignatureInfo {
    pub keyid: String,
    pub sig: String,
}

impl SignatureInfo {
    /// A copy of the signature.
    pub fn duplicate(&self) -> (r: Self)
        ensures
            r == *self,
    {
        SignatureInfo { keyid: self.keyid.clone(), sig: self.sig.clone() }
    }
}

/// Copies of the signatures, in order.
pub fn duplicate_signatures(v: &Vec<SignatureInfo>) -> (r: Vec<SignatureInfo>)
    ensures
        r@ == v@,
{
    let mut r: Vec<SignatureInfo> = Vec::new();
    let mut i: usize = 0;
    while i < v.len()
        invariant
            i <= v.len(),
            r@ == v@.take(i as int),
        decreases v.len() - i,
    {
        r.push(v[i].duplicate());
        i = i + 1;
        assert(r@ =~= v@.take(i as int));
    }
    assert(v@.take(v.len() as int) =~= v@);
    r
}

/// A binary of an artifact version: its description and signatures.
#[derive(Debug)]
pub struct BinaryInfo {
    pub description: Option<String>,
    pub signatures: Vec<SignatureInfo>,
}

impl BinaryInfo {
    /// A copy of the binary's description and signatures.
    pub fn duplicate(&self) -> (r: Self)
        ensures
            r.description == self.description,
            r.signatures@ == self.signatures@,
    {
        BinaryInfo { description: clone_opt(&self.description), signatures: duplicate_signatures(&self.signatures) }
    }
}

/// A version of an artifact: its version text, description and binaries by id.
pub struct ArtifactVersionInfo {
    pub version: String,
    pub description: Option<String>,
    pub binaries: StrMap<BinaryInfo>,
}

/// An artifact: its name, description and versions by id.
pub struct ArtifactInfo {
    pub name: String,
    pub description: Option<String>,
    pub versions: StrMap<ArtifactVersionInfo>,
}

/// A binary as the manifest lists it, with the metadata the bundle gives it as
/// pairs of key and JSON value text.
#[derive(Debug)]
pub struct ManifestItem {
    pub hash: String,
    pub size: u64,
    pub binary_id: String,
    pub target: String,
    pub artifact_version_id: String,
    pub artifact_id: String,
    pub custom_metadata: Vec<(String, String)>,
}

/// The bundle itself: id, name, signatures and the manifest in archive order.
pub struct BundleInfo {
    pub id: String,
    pub name: Option<String>,
    pub signatures: Vec<SignatureInfo>,
    pub manifest: Vec<ManifestItem>,
}

/// The whole `bundle.json` document.
pub struct BundleJson {
    pub artifacts: StrMap<ArtifactInfo>,
    pub bundle: BundleInfo,
}

/// A copy of metadata pairs.
pub fn duplicate_metadata(m: &Vec<(String, String)>) -> (r: Vec<(String, String)>)
    ensures
        r@ == m@,
{
    let mut r: Vec<(String, String)> = Vec::new();
    let mut i: usize = 0;
    while i < m.len()
        invariant
            i <= m.len(),
            r@ == m@.take(i as int),
        decreases m.len() - i,
    {
        r.push((m[i].0.clone(), m[i].1.clone()));
        i = i + 1;
        assert(r@ =~= m@.take(i as int));
    }
    assert(m@.take(m.len() as int) =~= m@);
    r
}

/// The metadata sent with a binary: none when the manifest gives an empty object.
pub fn custom_metadata_param(m: &Vec<(String, String)>) -> (r: Option<Vec<(String, String)>>)
    ensures
        m@.len() == 0 ==> r is None,
        m@.len() > 0 ==> (r matches Some(v) && v@ == m@),
{
    if m.len() == 0 {
        None
    } else {
        Some(duplicate_metadata(m))
    }
}

/// The binary index after recording the binaries of one version: each of its
/// binaries, in order, maps to the version's resource name and its own info.
pub open spec fn record_spec(
    index: Map<Seq<char>, (String, BinaryInfo)>,
    version_prn: String,
    ids: Seq<Seq<char>>,
    infos: Map<Seq<char>, BinaryInfo>,
) -> Map<Seq<char>, (String, BinaryInfo)>
    decreases ids.len(),
{
    if ids.len() == 0 {
        index
    } else {
        record_spec(index, version_prn, ids.drop_last(), infos).insert(ids.last(), (version_prn, infos[ids.last()]))
    }
}

/// Whether two binary infos agree: the copy in the index and the one it was made from.
pub open spec fn same_info(a: BinaryInfo, b: BinaryInfo) -> bool {
    a.description == b.description && a.signatures@ == b.signatures@
}

/// Records the binaries of an artifact version in the index of binaries by id,
/// each with the version's resource name; a later record of an id replaces an
/// earlier one.
pub fn record_binaries(index: &mut StrMap<(String, BinaryInfo)>, version_prn: &str, version: &ArtifactVersionInfo)
    ensures
        final(index)@.dom() == old(index)@.dom().union(version.binaries@.dom()),
        forall|k: Seq<char>| #[trigger] final(index)@.contains_key(k) && !version.binaries@.contains_key(k)
            ==> final(index)@[k] == old(index)@[k],
        forall|k: Seq<char>| #[trigger] version.binaries@.contains_key(k) ==> final(index)@[k].0@ == version_prn@
            && same_info(final(index)@[k].1, version.binaries@[k]),
{
    let n = version.binaries.entry_count();
    let ghost start = index@;
    let ghost names = version.binaries.names();
    let mut i: usize = 0;
    while i < n
        invariant
            n == names.len(),
            names == version.binaries.names(),
            names.no_duplicates(),
            names.to_set() == version.binaries@.dom(),
            i <= n,
            index@.dom() == start.dom().union(names.take(i as int).to_set()),
            forall|k: Seq<char>| #[trigger] index@.contains_key(k) && !names.take(i as int).contains(k) ==> index@[k] == start[k],
            forall|k: Seq<char>| #[trigger] names.take(i as int).contains(k) ==> index@[k].0@ == version_prn@
                && same_info(index@[k].1, version.binaries@[k]),
        decreases n - i,
    {
        let (name, info) = version.binaries.entry(i);
        let copy = info.duplicate();
        let prn = String::from_str(version_prn);
        let ghost before = index@;
        index.insert(name.clone(), (prn, copy));
        proof {
            let t = names.take(i as int + 1);
            assert(t =~= names.take(i as int).push(names[i as int]));
            assert(t.to_set() =~= names.take(i as int).to_set().insert(names[i as int])) by {
                assert forall|x: Seq<char>| t.to_set().contains(x) <==> names.take(i as int).to_set().insert(names[i as int]).contains(x) by {
                    if t.contains(x) {
                        let j = choose|j: int| 0 <= j < t.len() && t[j] == x;
                        if j < i {
                            assert(names.take(i as int)[j] == x);
                        }
                    }
                    if names.take(i as int).contains(x) {
                        let j = choose|j: int| 0 <= j < i && names.take(i as int)[j] == x;
                        assert(t[j] == x);
                    }
                    if x == names[i as int] {
                        assert(t[i as int] == x);
                    }
                }
            }
            assert forall|k: Seq<char>| #[trigger] index@.contains_key(k) && !t.contains(k) implies index@[k] == start[k] by {
                if names.take(i as int).contains(k) {
                    let j = choose|j: int| 0 <= j < i && names.take(i as int)[j] == k;
                    assert(t[j] == k);
                }
                assert(k != names[i as int]) by {
                    assert(t[i as int] == names[i as int]);
                }
            }
            assert forall|k: Seq<char>| #[trigger] t.contains(k) implies index@[k].0@ == version_prn@
                && same_info(index@[k].1, version.binaries@[k]) by {
                let j = choose|j: int| 0 <= j < t.len() && t[j] == k;
                if j < i {
                    assert(names.take(i as int)[j] == k);
                    assert(names.take(i as int).contains(k));
                }
            }
        }
        i = i + 1;
    }
    assert(names.take(n as int) =~= names);
}

/// The binaries that go into a new bundle, in manifest order: each manifest
/// item whose binary is known, with its resource name and its metadata (none
/// for an empty object).
pub open spec fn spec_bundle_binaries(
    manifest: Seq<ManifestItem>,
    created: Map<Seq<char>, String>,
) -> Seq<(Seq<char>, Option<Seq<(String, String)>>)>
    decreases manifest.len(),
{
    if manifest.len() == 0 {
        Seq::empty()
    } else {
        let rest = spec_bundle_binaries(manifest.drop_last(), created);
        let item = manifest.last();
        if created.contains_key(item.binary_id@) {
            rest.push((
                created[item.binary_id@]@,
                if item.custom_metadata@.len() == 0 { None } else { Some(item.custom_metadata@) },
            ))
        } else {
            rest
        }
    }
}

/// The model of a bundle binary: its resource name and metadata.
pub open spec fn bundle_binary_view(b: (String, Option<Vec<(String, String)>>)) -> (Seq<char>, Option<Seq<(String, String)>>) {
    (b.0@, match b.1 { Some(v) => Some(v@), None => None })
}

/// The binaries of a new bundle: the manifest items whose binary was created or
/// found, in manifest order, with their resource names and metadata.
pub fn bundle_binaries(
    manifest: &Vec<ManifestItem>,
    created: &StrMap<String>,
) -> (r: Vec<(String, Option<Vec<(String, String)>>)>)
    ensures
        r@.map_values(|b: (String, Option<Vec<(String, String)>>)| bundle_binary_view(b))
            == spec_bundle_binaries(manifest@, created@),
{
    let mut r: Vec<(String, Option<Vec<(String, String)>>)> = Vec::new();
    let mut i: usize = 0;
    while i < manifest.len()
        invariant
            i <= manifest.len(),
            r@.map_values(|b: (String, Option<Vec<(String, String)>>)| bundle_binary_view(b))
                == spec_bundle_binaries(manifest@.take(i as int), created@),
        decreases manifest.len() - i,
    {
        let item = &manifest[i];
        let ghost before = r@;
        assert(manifest@.take(i as int + 1).drop_last() =~= manifest@.take(i as int));
        match created.get(item.binary_id.as_str()) {
            Some(prn) => {
                let meta = custom_metadata_param(&item.custom_metadata);
                r.push((prn.clone(), meta));
                assert(r@.map_values(|b: (String, Option<Vec<(String, String)>>)| bundle_binary_view(b))
                    =~= before.map_values(|b: (String, Option<Vec<(String, String)>>)| bundle_binary_view(b)).push(
                    bundle_binary_view(r@.last())));
            },
            None => {},
        }
        i = i + 1;
    }
    assert(manifest@.take(manifest.len() as int) =~= manifest@);
    r
}

} // verus!
