//! Scanning of JSON manifests that hold a top-level `"scripts"` object
//! (`package.json`, `composer.json`): a task is a key of that object whose
//! value is a plain string.
//!
//! The JSON parse itself is done by serde_json; the scan hands the verified
//! code each key of the `"scripts"` object together with whether its value
//! is a string, and the policy — keep exactly the string-valued keys, in
//! the order the document decoder yields them — is verified.

use vstd::prelude::*;

verus! {

/// The outcome of scanning a manifest document for its `"scripts"` object.
pub enum ManifestScan {
    /// The document parsed, but it has no object under the `"scripts"` key.
    NoScripts,
    /// Each key of the `"scripts"` object, with whether its value is a
    /// plain string, in decoder order.
    Scripts(Vec<(String, bool)>),
}

/// What scanning the text yields, or `None` when the text is not valid
/// JSON. The scan is a function of the text alone.
pub uninterp spec fn manifest_scan_of(content: Seq<char>) -> Option<ManifestScan>;

/// Relies on serde_json::from_str::<Value>: parses the text as JSON —
/// succeeding exactly on valid JSON — and on Value::get / Value::as_object /
/// Value::is_string to read the top-level "scripts" member.
#[verifier::external_body]
pub(crate) fn scan_manifest(content: &str) -> (r: Result<ManifestScan, String>)
    ensures
        r is Ok <==> manifest_scan_of(content@) is Some,
        r is Ok ==> r->Ok_0 == manifest_scan_of(content@)->0,
{
    let json: serde_json::Value = match serde_json::from_str(content) {
        Ok(v) => v,
        Err(e) => return Err(e.to_string()),
    };
    match json.get("scripts").and_then(|s| s.as_object()) {
        Some(map) => Ok(ManifestScan::Scripts(
            map.iter().map(|(k, v)| (k.clone(), v.is_string())).collect(),
        )),
        None => Ok(ManifestScan::NoScripts),
    }
}

/// The keys whose value is a string, in order, duplicates impossible in a
/// JSON object but kept here regardless.
pub open spec fn string_valued_keys(entries: Seq<(Seq<char>, bool)>) -> Seq<Seq<char>>
    decreases entries.len(),
{
    if entries.len() == 0 {
        Seq::empty()
    } else {
        string_valued_keys(entries.drop_last()) + (if entries.last().1 {
            seq![entries.last().0]
        } else {
            Seq::empty()
        })
    }
}

/// The task names a scanned manifest defines.
pub open spec fn manifest_tasks(scan: ManifestScan) -> Seq<Seq<char>> {
    match scan {
        ManifestScan::NoScripts => Seq::empty(),
        ManifestScan::Scripts(entries) => string_valued_keys(entries.deep_view()),
    }
}

/// Keeps the keys whose value is a string.
pub fn script_names(entries: &Vec<(String, bool)>) -> (r: Vec<String>)
    ensures
        r.deep_view() == string_valued_keys(entries.deep_view()),
{
    let mut r: Vec<String> = Vec::new();
    let n = entries.len();
    let mut i: usize = 0;
    proof {
        assert(entries.deep_view().take(0) =~= Seq::<(Seq<char>, bool)>::empty());
        assert(r.deep_view() =~= string_valued_keys(entries.deep_view().take(0)));
    }
    while i < n
        invariant
            i <= n == entries@.len(),
            r.deep_view() == string_valued_keys(entries.deep_view().take(i as int)),
        decreases n - i,
    {
        let ghost r_before = r.deep_view();
        if entries[i].1 {
            r.push(entries[i].0.clone());
        }
        i = i + 1;
        proof {
            let prefix = entries.deep_view().take(i as int);
            assert(prefix.drop_last() =~= entries.deep_view().take(i - 1));
            assert(prefix.last() == (entries@[i - 1].0@, entries@[i - 1].1));
            if entries@[i - 1].1 {
                assert(r.deep_view() =~= r_before + seq![entries@[i - 1].0@]);
            } else {
                assert(r.deep_view() =~= r_before + Seq::<Seq<char>>::empty());
            }
            assert(r.deep_view() =~= string_valued_keys(prefix));
        }
    }
    proof {
        assert(entries.deep_view().take(n as int) =~= entries.deep_view());
    }
    r
}

/// Discovery is idempotent: what a manifest backend discovers is a pure
/// function of the manifest text, so two discovery passes over an
/// unchanged manifest yield identical task lists. The loaders' contracts
/// pin their task lists to `manifest_tasks` over the text's scan.
pub proof fn lemma_manifest_discovery_idempotent(
    c: Seq<char>,
    first: Seq<Seq<char>>,
    second: Seq<Seq<char>>,
)
    requires
        manifest_scan_of(c) is Some,
        first == manifest_tasks(manifest_scan_of(c)->0),
        second == manifest_tasks(manifest_scan_of(c)->0),
    ensures
        first == second,
{
}

} // verus!
