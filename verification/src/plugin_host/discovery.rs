//! Descriptors of the CLAP plugin bundles found on disk. Walking the
//! directories is the application's part; from the bundle paths it found,
//! in walk order, this module builds one descriptor per distinct path.

use vstd::prelude::*;

verus! {

/// Metadata describing a discovered CLAP plugin bundle. At discovery time
/// the id is the bundle's path and the name its file stem; vendor and
/// version stay blank until the plugin itself is loaded.
pub struct PluginDescriptor {
    /// Stable plugin identifier (the bundle path at discovery time).
    pub id: String,
    /// Human-readable display name (the file stem at discovery time).
    pub name: String,
    /// Plugin vendor (blank at discovery time).
    pub vendor: String,
    /// Plugin version (blank at discovery time).
    pub version: String,
    /// Path of the `.clap` bundle on disk.
    pub path: String,
}

/// `s` occurs in `t` as a contiguous run of characters.
pub open spec fn occurs_in(s: Seq<char>, t: Seq<char>) -> bool {
    exists|i: int| 0 <= i && i + s.len() <= t.len() && #[trigger] t.subrange(i, i + s.len()) == s
}

/// A path of a single plain component: no separator of any platform, no
/// drive colon and no dot.
pub open spec fn plain_name(p: Seq<char>) -> bool {
    p.len() > 0 && forall|i: int| 0 <= i < p.len() ==> #[trigger] p[i] != '/' && p[i] != '\\' && p[i] != ':'
        && p[i] != '.'
}

/// A one-component path (no separator of any platform, no drive colon,
/// not starting with a dot) whose last dot is at `k`.
pub open spec fn dotted_name(p: Seq<char>, k: int) -> bool {
    &&& 0 < k < p.len()
    &&& p[0] != '.'
    &&& p[k] == '.'
    &&& forall|j: int| k < j < p.len() ==> #[trigger] p[j] != '.'
    &&& forall|j: int| 0 <= j < p.len() ==> #[trigger] p[j] != '/' && p[j] != '\\' && p[j] != ':'
}

/// The file stem of `path` with `std::path::Path::file_stem`. Its
/// documentation makes the stem a part of the final component, the whole
/// component when it has no dot, else the part before its last dot: so the
/// stem is a non-empty run of the path, a plain one-component name is its
/// own stem, and a one-component name with a dot (not first) loses its last
/// dot and what follows. Which run it is for
/// other paths depends on the platform's separators and is not stated.
#[verifier::external_body]
fn file_stem(path: &str) -> (r: Option<String>)
    ensures
        r matches Some(s) ==> s@.len() > 0 && occurs_in(s@, path@),
        plain_name(path@) ==> r is Some && r->0@ == path@,
        forall|k: int| #[trigger] dotted_name(path@, k) ==> r is Some && r->0@ == path@.subrange(0, k),
{
    std::path::Path::new(path).file_stem().and_then(|s| s.to_str()).map(|s| s.to_string())
}

/// The name shown for a bundle whose file stem cannot be read.
pub const UNKNOWN_NAME: &'static str = "Unknown";

/// The file-level descriptor of the bundle at `path`: the path as id and
/// path, its file stem (or "Unknown") as name, blank vendor and version.
pub fn descriptor_from_path(path: &str) -> (r: PluginDescriptor)
    ensures
        r.id@ == path@,
        r.path@ == path@,
        r.vendor@ == Seq::<char>::empty(),
        r.version@ == Seq::<char>::empty(),
        r.name@ == UNKNOWN_NAME@ || (r.name@.len() > 0 && occurs_in(r.name@, path@)),
        plain_name(path@) ==> r.name@ == path@,
        forall|k: int| #[trigger] dotted_name(path@, k) ==> r.name@ == path@.subrange(0, k),
{
    let name = match file_stem(path) {
        Some(stem) => stem,
        None => UNKNOWN_NAME.to_owned(),
    };
    PluginDescriptor {
        id: path.to_owned(),
        name,
        vendor: String::new(),
        version: String::new(),
        path: path.to_owned(),
    }
}

/// A descriptor as discovery builds it: the path as id, blank vendor and
/// version, and as name "Unknown" or a non-empty run of the path (the file
/// stem), the whole path when it is a plain one-component name, the part
/// before the last dot when it is a one-component name with a dot.
pub open spec fn file_level(d: PluginDescriptor) -> bool {
    &&& d.id@ == d.path@
    &&& d.vendor@ == Seq::<char>::empty()
    &&& d.version@ == Seq::<char>::empty()
    &&& d.name@ == UNKNOWN_NAME@ || (d.name@.len() > 0 && occurs_in(d.name@, d.path@))
    &&& plain_name(d.path@) ==> d.name@ == d.path@
    &&& forall|k: int| #[trigger] dotted_name(d.path@, k) ==> d.name@ == d.path@.subrange(0, k)
}

/// The paths in order of first appearance, each once.
pub open spec fn first_occurrences(paths: Seq<Seq<char>>) -> Seq<Seq<char>>
    decreases paths.len(),
{
    if paths.len() == 0 {
        Seq::empty()
    } else {
        let prev = first_occurrences(paths.drop_last());
        if prev.contains(paths.last()) {
            prev
        } else {
            prev.push(paths.last())
        }
    }
}

/// The texts of a list of strings.
pub open spec fn texts(v: Seq<String>) -> Seq<Seq<char>> {
    v.map_values(|s: String| s@)
}

/// The paths of a list of descriptors.
pub open spec fn descriptor_paths(v: Seq<PluginDescriptor>) -> Seq<Seq<char>> {
    v.map_values(|d: PluginDescriptor| d.path@)
}

/// One descriptor per distinct bundle path, in order of first appearance
/// (the same bundle is often reached from two roots).
pub fn descriptors_for(found: &Vec<String>) -> (r: Vec<PluginDescriptor>)
    ensures
        descriptor_paths(r@) == first_occurrences(texts(found@)),
        forall|i: int| 0 <= i < r@.len() ==> #[trigger] file_level(r@[i]),
{
    let mut out: Vec<PluginDescriptor> = Vec::new();
    let mut i: usize = 0;
    while i < found.len()
        invariant
            i <= found@.len(),
            descriptor_paths(out@) == first_occurrences(texts(found@.subrange(0, i as int))),
            forall|k: int| 0 <= k < out@.len() ==> #[trigger] file_level(out@[k]),
        decreases found@.len() - i,
    {
        let path = &found[i];
        let mut seen = false;
        let mut j: usize = 0;
        while j < out.len()
            invariant
                j <= out@.len(),
                seen == exists|k: int| 0 <= k < j && #[trigger] out@[k].path@ == path@,
            decreases out@.len() - j,
        {
            if out[j].path == *path {
                seen = true;
            }
            j = j + 1;
        }
        let ghost prev = descriptor_paths(out@);
        let ghost pre = found@.subrange(0, i as int);
        let ghost now = found@.subrange(0, i + 1);
        proof {
            assert(now.drop_last() =~= pre);
            assert(texts(now).drop_last() =~= texts(pre));
            assert(texts(now).last() == path@);
            if seen {
                let k = choose|k: int| 0 <= k < out@.len() && #[trigger] out@[k].path@ == path@;
                assert(prev[k] == path@);
            } else {
                assert forall|k: int| 0 <= k < prev.len() implies prev[k] != path@ by {
                    assert(prev[k] == out@[k].path@);
                }
            }
        }
        if !seen {
            let d = descriptor_from_path(path.as_str());
            out.push(d);
            assert(descriptor_paths(out@) =~= prev.push(path@));
        }
        i = i + 1;
    }
    assert(found@.subrange(0, found@.len() as int) =~= found@);
    out
}

/// The bundle paths, each listed once and in order of first appearance:
/// no path appears twice, and every found path appears.
pub proof fn lemma_first_occurrences(paths: Seq<Seq<char>>)
    ensures
        forall|i: int, j: int|
            0 <= i < j < first_occurrences(paths).len() ==> first_occurrences(paths)[i] != first_occurrences(
                paths,
            )[j],
        forall|i: int| 0 <= i < paths.len() ==> first_occurrences(paths).contains(#[trigger] paths[i]),
        forall|i: int|
            0 <= i < first_occurrences(paths).len() ==> paths.contains(#[trigger] first_occurrences(paths)[i]),
    decreases paths.len(),
{
    if paths.len() > 0 {
        let init = paths.drop_last();
        lemma_first_occurrences(init);
        let prev = first_occurrences(init);
        let cur = first_occurrences(paths);
        assert forall|i: int| 0 <= i < paths.len() implies cur.contains(#[trigger] paths[i]) by {
            if i < paths.len() - 1 {
                assert(init[i] == paths[i]);
                assert(prev.contains(init[i]));
                let k = choose|k: int| 0 <= k < prev.len() && prev[k] == init[i];
                assert(cur[k] == paths[i]);
            } else if !prev.contains(paths.last()) {
                assert(cur[prev.len() as int] == paths.last());
            }
        }
        assert forall|i: int| 0 <= i < cur.len() implies paths.contains(#[trigger] cur[i]) by {
            if i < prev.len() {
                assert(prev[i] == cur[i]);
                assert(init.contains(prev[i]));
                let k = choose|k: int| 0 <= k < init.len() && init[k] == prev[i];
                assert(paths[k] == cur[i]);
            } else {
                assert(paths[paths.len() - 1] == cur[i]);
            }
        }
    }
}

} // verus!
