//! Creating a bundle from the command line: the version of the API decides
//! which options are allowed, and each `--binaries` value is read as
//! `prn=...;custom_metadata=...` pairs.
use vstd::prelude::*;
use crate::text::{
    chars_of, decimal, decimal_chars, extend_chars, extend_str, split_on, split_str, str_eq, string_of, trim,
    trim_str, views,
};

use crate::json::{json_object_entries, pairs_view, parse_json_object};

verus! {

/// The position of the first `c` in `s`, if any.
pub open spec fn find_char(s: Seq<char>, c: char) -> Option<int>
    decreases s.len(),
{
    if s.len() == 0 {
        None
    } else if s[0] == c {
        Some(0)
    } else {
        match find_char(s.drop_first(), c) {
            Some(i) => Some(i + 1),
            None => None,
        }
    }
}

/// What reading a binary specification has found so far: the binary's
/// resource name and its metadata.
pub type SpecState = (Option<Seq<char>>, Option<Seq<(Seq<char>, Seq<char>)>>);

/// The message for a pair without `=`.
pub open spec fn bad_pair_text(pair: Seq<char>) -> Seq<char> {
    "Invalid binary format: '"@ + pair
        + "'. Expected 'key=value' pairs separated by semicolons. Required: prn=value. Optional: custom_metadata={json|null}. Example: 'prn=prn:1:org:artifact_version:id;custom_metadata={\"version\":\"1.0\"}' or 'prn=prn:1:org:artifact_version:id;custom_metadata=null'"@
}

/// The message for metadata that is not a JSON object.
pub open spec fn bad_json_text(e: Seq<char>) -> Seq<char> {
    "Invalid JSON in custom_metadata: "@ + e + ". Use 'null' for explicit null or valid JSON object."@
}

/// The message for an unknown key.
pub open spec fn unknown_key_text(key: Seq<char>) -> Seq<char> {
    "Unknown key '"@ + key + "'. Supported keys: 'prn' (required), 'custom_metadata' (optional: JSON object or 'null')"@
}

/// Reads one `key=value` pair: `prn` sets the resource name, `custom_metadata`
/// sets the metadata (`null` clears it); key and value lose surrounding white
/// space.
pub open spec fn spec_pair(state: SpecState, pair: Seq<char>) -> Result<SpecState, Seq<char>> {
    match find_char(pair, '=') {
        None => Err(bad_pair_text(pair)),
        Some(i) => {
            let key = trim(pair.take(i));
            let value = trim(pair.skip(i + 1));
            if key == "prn"@ {
                Ok((Some(value), state.1))
            } else if key == "custom_metadata"@ {
                if value == "null"@ {
                    Ok((state.0, None))
                } else {
                    match json_object_entries(value) {
                        Ok(m) => Ok((state.0, Some(m))),
                        Err(e) => Err(bad_json_text(e)),
                    }
                }
            } else {
                Err(unknown_key_text(key))
            }
        },
    }
}

/// Reads the pairs in order, stopping at the first error.
pub open spec fn spec_pairs(pairs: Seq<Seq<char>>) -> Result<SpecState, Seq<char>>
    decreases pairs.len(),
{
    if pairs.len() == 0 {
        Ok((None, None))
    } else {
        match spec_pairs(pairs.drop_last()) {
            Ok(s) => spec_pair(s, pairs.last()),
            Err(e) => Err(e),
        }
    }
}

/// A binary of a bundle as the command line gives it: its resource name and
/// its metadata, if any.
pub open spec fn spec_binary(text: Seq<char>) -> Result<(Seq<char>, Option<Seq<(Seq<char>, Seq<char>)>>), Seq<char>> {
    match spec_pairs(split_on(text, ';')) {
        Err(e) => Err(e),
        Ok((None, _)) => Err("Missing required 'prn' key in binary specification"@),
        Ok((Some(p), m)) => Ok((p, m)),
    }
}

/// All the binaries, in order, stopping at the first error.
pub open spec fn spec_binaries(texts: Seq<Seq<char>>) -> Result<Seq<(Seq<char>, Option<Seq<(Seq<char>, Seq<char>)>>)>, Seq<char>>
    decreases texts.len(),
{
    if texts.len() == 0 {
        Ok(Seq::empty())
    } else {
        match spec_binaries(texts.drop_last()) {
            Err(e) => Err(e),
            Ok(v) => match spec_binary(texts.last()) {
                Err(e) => Err(e),
                Ok(b) => Ok(v.push(b)),
            },
        }
    }
}

/// The model of a parsed binary.
pub open spec fn binary_view(b: (String, Option<Vec<(String, String)>>)) -> (Seq<char>, Option<Seq<(Seq<char>, Seq<char>)>>) {
    (b.0@, match b.1 { Some(v) => Some(pairs_view(v@)), None => None })
}

fn find_eq(cs: &Vec<char>) -> (r: Option<usize>)
    ensures
        match r {
            Some(i) => find_char(cs@, '=') == Some(i as int) && i < cs@.len(),
            None => find_char(cs@, '=') is None,
        },
{
    let mut i: usize = 0;
    while i < cs.len()
        invariant
            i <= cs.len(),
            forall|k: int| 0 <= k < i ==> cs@[k] != '=',
        decreases cs.len() - i,
    {
        if cs[i] == '=' {
            proof {
                lemma_find_at(cs@, i as int);
            }
            return Some(i);
        }
        i = i + 1;
    }
    proof {
        lemma_find_none(cs@);
    }
    None
}

proof fn lemma_find_at(s: Seq<char>, i: int)
    requires
        0 <= i < s.len(),
        s[i] == '=',
        forall|k: int| 0 <= k < i ==> s[k] != '=',
    ensures
        find_char(s, '=') == Some(i),
    decreases i,
{
    if i > 0 {
        lemma_find_at(s.drop_first(), i - 1);
    }
}

proof fn lemma_find_none(s: Seq<char>)
    requires
        forall|k: int| 0 <= k < s.len() ==> s[k] != '=',
    ensures
        find_char(s, '=') is None,
    decreases s.len(),
{
    if s.len() > 0 {
        lemma_find_none(s.drop_first());
    }
}

fn slice_chars(cs: &Vec<char>, start: usize, end: usize) -> (s: String)
    requires
        start <= end <= cs.len(),
    ensures
        s@ == cs@.subrange(start as int, end as int),
{
    let mut v: Vec<char> = Vec::new();
    let mut i = start;
    while i < end
        invariant
            start <= i <= end <= cs.len(),
            v@ == cs@.subrange(start as int, i as int),
        decreases end - i,
    {
        v.push(cs[i]);
        i = i + 1;
        assert(v@ =~= cs@.subrange(start as int, i as int));
    }
    string_of(v.as_slice())
}

fn read_pair(
    prn: &mut Option<String>,
    meta: &mut Option<Vec<(String, String)>>,
    pair: &str,
) -> (r: Result<(), String>)
    ensures
        match spec_pair(
            (crate::paths::opt_view(*old(prn)), match *old(meta) { Some(v) => Some(pairs_view(v@)), None => None }),
            pair@,
        ) {
            Ok(s) => r is Ok && s == (
                crate::paths::opt_view(*final(prn)),
                match *final(meta) { Some(v) => Some(pairs_view(v@)), None => None },
            ),
            Err(e) => r matches Err(m) && m@ == e,
        },
{
    let cs = chars_of(pair);
    let i = match find_eq(&cs) {
        None => {
            let mut v = chars_of("Invalid binary format: '");
            extend_str(&mut v, pair);
            extend_str(
                &mut v,
                "'. Expected 'key=value' pairs separated by semicolons. Required: prn=value. Optional: custom_metadata={json|null}. Example: 'prn=prn:1:org:artifact_version:id;custom_metadata={\"version\":\"1.0\"}' or 'prn=prn:1:org:artifact_version:id;custom_metadata=null'",
            );
            return Err(string_of(v.as_slice()));
        },
        Some(i) => i,
    };
    let key_raw = slice_chars(&cs, 0, i);
    let value_raw = slice_chars(&cs, i + 1, cs.len());
    assert(key_raw@ =~= pair@.take(i as int));
    assert(value_raw@ =~= pair@.skip(i as int + 1));
    let key = trim_str(key_raw.as_str());
    let value = trim_str(value_raw.as_str());
    if str_eq(key.as_str(), "prn") {
        *prn = Some(value);
        Ok(())
    } else if str_eq(key.as_str(), "custom_metadata") {
        if str_eq(value.as_str(), "null") {
            *meta = None;
            Ok(())
        } else {
            match parse_json_object(value.as_str()) {
                Ok(m) => {
                    *meta = Some(m);
                    Ok(())
                },
                Err(e) => {
                    let mut v = chars_of("Invalid JSON in custom_metadata: ");
                    extend_str(&mut v, e.as_str());
                    extend_str(&mut v, ". Use 'null' for explicit null or valid JSON object.");
                    Err(string_of(v.as_slice()))
                },
            }
        }
    } else {
        let mut v = chars_of("Unknown key '");
        extend_str(&mut v, key.as_str());
        extend_str(
            &mut v,
            "'. Supported keys: 'prn' (required), 'custom_metadata' (optional: JSON object or 'null')",
        );
        Err(string_of(v.as_slice()))
    }
}

fn parse_binary(text: &str) -> (r: Result<(String, Option<Vec<(String, String)>>), String>)
    ensures
        match spec_binary(text@) {
            Ok(b) => r matches Ok(x) && binary_view(x) == b,
            Err(e) => r matches Err(m) && m@ == e,
        },
{
    let pairs = split_str(text, ';');
    let mut prn: Option<String> = None;
    let mut meta: Option<Vec<(String, String)>> = None;
    let mut i: usize = 0;
    while i < pairs.len()
        invariant
            i <= pairs.len(),
            views(pairs@) == split_on(text@, ';'),
            spec_pairs(views(pairs@).take(i as int)) == Ok::<SpecState, Seq<char>>(
                (crate::paths::opt_view(prn), match meta { Some(v) => Some(pairs_view(v@)), None => None }),
            ),
        decreases pairs.len() - i,
    {
        let ghost t = views(pairs@).take(i as int + 1);
        assert(t.drop_last() =~= views(pairs@).take(i as int));
        assert(t.last() == pairs@[i as int]@);
        match read_pair(&mut prn, &mut meta, pairs[i].as_str()) {
            Ok(()) => {},
            Err(e) => {
                proof {
                    lemma_pairs_err_stays(views(pairs@), i as int + 1);
                }
                return Err(e);
            },
        }
        i = i + 1;
    }
    assert(views(pairs@).take(pairs.len() as int) =~= views(pairs@));
    match prn {
        Some(p) => Ok((p, meta)),
        None => Err(String::from_str("Missing required 'prn' key in binary specification")),
    }
}

proof fn lemma_pairs_err_stays(ps: Seq<Seq<char>>, n: int)
    requires
        0 < n <= ps.len(),
        spec_pairs(ps.take(n)) is Err,
    ensures
        spec_pairs(ps) == spec_pairs(ps.take(n)),
    decreases ps.len() - n,
{
    if n < ps.len() {
        assert(ps.take(n + 1).drop_last() =~= ps.take(n));
        lemma_pairs_err_stays(ps, n + 1);
    } else {
        assert(ps.take(n) =~= ps);
    }
}

proof fn lemma_binaries_err_stays(ts: Seq<Seq<char>>, n: int)
    requires
        0 < n <= ts.len(),
        spec_binaries(ts.take(n)) is Err,
    ensures
        spec_binaries(ts) == spec_binaries(ts.take(n)),
    decreases ts.len() - n,
{
    if n < ts.len() {
        assert(ts.take(n + 1).drop_last() =~= ts.take(n));
        lemma_binaries_err_stays(ts, n + 1);
    } else {
        assert(ts.take(n) =~= ts);
    }
}

/// Reads the `--binaries` values: each is `key=value` pairs separated by
/// semicolons, where `prn` is required and `custom_metadata` is a JSON object
/// or `null`. The first malformed value stops the reading with its message.
pub fn parse_binaries_from_input(inputs: &Vec<String>) -> (r: Result<Vec<(String, Option<Vec<(String, String)>>)>, String>)
    ensures
        match spec_binaries(views(inputs@)) {
            Ok(bs) => r matches Ok(v) && v@.map_values(|b: (String, Option<Vec<(String, String)>>)| binary_view(b)) == bs,
            Err(e) => r matches Err(m) && m@ == e,
        },
{
    let mut out: Vec<(String, Option<Vec<(String, String)>>)> = Vec::new();
    let mut i: usize = 0;
    assert(views(inputs@).take(0) =~= Seq::<Seq<char>>::empty());
    assert(out@.map_values(|b: (String, Option<Vec<(String, String)>>)| binary_view(b))
        =~= Seq::<(Seq<char>, Option<Seq<(Seq<char>, Seq<char>)>>)>::empty());
    while i < inputs.len()
        invariant
            i <= inputs.len(),
            spec_binaries(views(inputs@).take(i as int)) == Ok::<Seq<(Seq<char>, Option<Seq<(Seq<char>, Seq<char>)>>)>, Seq<char>>(
                out@.map_values(|b: (String, Option<Vec<(String, String)>>)| binary_view(b)),
            ),
        decreases inputs.len() - i,
    {
        let ghost t = views(inputs@).take(i as int + 1);
        assert(t.drop_last() =~= views(inputs@).take(i as int));
        assert(t.last() == inputs@[i as int]@);
        match parse_binary(inputs[i].as_str()) {
            Ok(b) => {
                let ghost before = out@;
                out.push(b);
                assert(out@.map_values(|b: (String, Option<Vec<(String, String)>>)| binary_view(b)) =~= before.map_values(
                    |b: (String, Option<Vec<(String, String)>>)| binary_view(b),
                ).push(binary_view(out@.last())));
            },
            Err(e) => {
                proof {
                    lemma_binaries_err_stays(views(inputs@), i as int + 1);
                }
                return Err(e);
            },
        }
        i = i + 1;
    }
    assert(views(inputs@).take(inputs.len() as int) =~= views(inputs@));
    Ok(out)
}

/// What creates a bundle, by API version.
pub enum BundleParams {
    /// Version 1: the artifact versions whose binaries the bundle takes.
    V1 { artifact_version_prns: Vec<String>, id: Option<String>, name: Option<String> },
    /// Version 2: the binaries, each with its metadata.
    V2 { binaries: Vec<(String, Option<Vec<(String, String)>>)>, id: Option<String>, name: Option<String> },
}

/// The message for `--binaries` under version 1.
pub open spec fn binaries_v1_text() -> Seq<char> {
    "The --binaries option is only supported in API version 2. Use --artifact-version-prns for API version 1 or use --api-version 2"@
}

/// The message for `--artifact-version-prns` under version 2.
pub open spec fn prns_v2_text() -> Seq<char> {
    "The --artifact-version-prns option is only supported in API version 1. Use --binaries for API version 2 or use --api-version 1"@
}

/// Chooses how a bundle is created: the API version (2 when none was chosen)
/// decides which of `--artifact-version-prns` (version 1) and `--binaries`
/// (version 2) must be given and which is refused; other versions are refused.
pub fn create_bundle_params(
    api_version: Option<u8>,
    artifact_version_prns: Option<Vec<String>>,
    binaries: Option<Vec<String>>,
    id: Option<String>,
    name: Option<String>,
) -> (r: Result<BundleParams, String>)
    ensures
        ({
            let v: u8 = match api_version { Some(v) => v, None => 2 };
            if v == 1 {
                if binaries is Some {
                    r matches Err(m) && m@ == binaries_v1_text()
                } else if artifact_version_prns is None {
                    r matches Err(m) && m@ == "API version 1 requires --artifact-version-prns to be specified"@
                } else {
                    r matches Ok(BundleParams::V1 { artifact_version_prns: p, id: i, name: n })
                        && Some(p) == artifact_version_prns && i == id && n == name
                }
            } else if v == 2 {
                if artifact_version_prns is Some {
                    r matches Err(m) && m@ == prns_v2_text()
                } else if binaries is None {
                    r matches Err(m) && m@ == "API version 2 requires --binaries to be specified"@
                } else {
                    match spec_binaries(views(binaries->Some_0@)) {
                        Ok(bs) => r matches Ok(BundleParams::V2 { binaries: b, id: i, name: n })
                            && b@.map_values(|x: (String, Option<Vec<(String, String)>>)| binary_view(x)) == bs
                            && i == id && n == name,
                        Err(e) => r matches Err(m) && m@ == e,
                    }
                }
            } else {
                r matches Err(m) && m@ == "Unsupported API version: "@ + decimal(v as nat)
            }
        }),
{
    let v: u8 = match api_version {
        Some(v) => v,
        None => 2,
    };
    if v == 1 {
        if binaries.is_some() {
            return Err(String::from_str(
                "The --binaries option is only supported in API version 2. Use --artifact-version-prns for API version 1 or use --api-version 2",
            ));
        }
        match artifact_version_prns {
            None => Err(String::from_str("API version 1 requires --artifact-version-prns to be specified")),
            Some(p) => Ok(BundleParams::V1 { artifact_version_prns: p, id, name }),
        }
    } else if v == 2 {
        if artifact_version_prns.is_some() {
            return Err(String::from_str(
                "The --artifact-version-prns option is only supported in API version 1. Use --binaries for API version 2 or use --api-version 1",
            ));
        }
        match binaries {
            None => Err(String::from_str("API version 2 requires --binaries to be specified")),
            Some(b) => match parse_binaries_from_input(&b) {
                Ok(parsed) => Ok(BundleParams::V2 { binaries: parsed, id, name }),
                Err(e) => Err(e),
            },
        }
    } else {
        let mut m = chars_of("Unsupported API version: ");
        let d = decimal_chars(v as usize);
        extend_chars(&mut m, d.as_slice());
        Err(string_of(m.as_slice()))
    }
}

} // verus!
