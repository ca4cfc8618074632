//! Change detection for the development server.

use vstd::prelude::*;
use crate::builder::MANIFESTFILENAME;
use crate::file::last_segment;
use crate::manifest::{FileManifest, FolderManifest, manifest_files, insert_files, file_of};
use crate::path_map::str_equal;

verus! {

/// The paths among `fs` that changed against the last files `last`, in order:
/// a file changed when the last manifest has no file at its path or has one of
/// another size. The manifest file itself is never reported.
pub open spec fn changed_paths(fs: Seq<FileManifest>, last: Map<Seq<char>, (Seq<char>, u64)>) -> Seq<Seq<char>>
    decreases fs.len(),
{
    if fs.len() == 0 {
        seq![]
    } else {
        let f = fs.last();
        let rest = changed_paths(fs.drop_last(), last);
        if last_segment(f.path@) == MANIFESTFILENAME@ {
            rest
        } else if !last.contains_key(f.path@) || last[f.path@] != (f.path@, f.size) {
            rest.push(f.path@)
        } else {
            rest
        }
    }
}

/// Change detection reports a file (other than the manifest file) whenever
/// the last table has nothing under its path, or holds under it another
/// path or another size, larger or smaller; and every reported path is the
/// path of such a file.
pub proof fn law_changed_files_are_reported(fs: Seq<FileManifest>, last: Map<Seq<char>, (Seq<char>, u64)>, i: int, p: Seq<char>)
    ensures
        0 <= i < fs.len() && last_segment(fs[i].path@) != MANIFESTFILENAME@ && !last.contains_key(fs[i].path@)
            ==> changed_paths(fs, last).contains(fs[i].path@),
        0 <= i < fs.len() && last_segment(fs[i].path@) != MANIFESTFILENAME@ && last.contains_key(fs[i].path@)
            && last[fs[i].path@].1 != fs[i].size ==> changed_paths(fs, last).contains(fs[i].path@),
        0 <= i < fs.len() && last_segment(fs[i].path@) != MANIFESTFILENAME@ && last.contains_key(fs[i].path@)
            && last[fs[i].path@].0 != fs[i].path@ ==> changed_paths(fs, last).contains(fs[i].path@),
        changed_paths(fs, last).contains(p) ==> exists|j: int| 0 <= j < fs.len() && {
            &&& #[trigger] fs[j].path@ == p
            &&& last_segment(p) != MANIFESTFILENAME@
            &&& (!last.contains_key(p) || last[p].0 != p || last[p].1 != fs[j].size)
        },
    decreases fs.len(),
{
    if fs.len() > 0 {
        let rest = fs.drop_last();
        let f = fs.last();
        let r = changed_paths(fs, last);
        let r0 = changed_paths(rest, last);
        let reported = last_segment(f.path@) != MANIFESTFILENAME@
            && (!last.contains_key(f.path@) || last[f.path@] != (f.path@, f.size));
        if 0 <= i < fs.len() - 1 {
            law_changed_files_are_reported(rest, last, i, p);
            assert(rest[i] == fs[i]);
        } else {
            law_changed_files_are_reported(rest, last, -1, p);
        }
        if reported {
            assert(r == r0.push(f.path@));
            if r0.contains(fs[i].path@) && 0 <= i < fs.len() {
                let j = choose|j: int| 0 <= j < r0.len() && r0[j] == fs[i].path@;
                assert(r[j] == fs[i].path@);
            }
            if i == fs.len() - 1 {
                assert(r[r.len() - 1] == f.path@);
            }
            if r.contains(p) {
                if p == f.path@ {
                    assert(fs[fs.len() - 1].path@ == p);
                } else {
                    let j = choose|j: int| 0 <= j < r.len() && r[j] == p;
                    assert(j < r0.len());
                    assert(r0[j] == p);
                    let m = choose|m: int| 0 <= m < rest.len() && {
                        &&& #[trigger] rest[m].path@ == p
                        &&& last_segment(p) != MANIFESTFILENAME@
                        &&& (!last.contains_key(p) || last[p].0 != p || last[p].1 != rest[m].size)
                    };
                    assert(fs[m] == rest[m]);
                }
            }
        } else {
            assert(r == r0);
            if i == fs.len() - 1 && last_segment(fs[i].path@) != MANIFESTFILENAME@ && last.contains_key(fs[i].path@) {
                assert(last[f.path@] == (f.path@, f.size));
            }
            if r.contains(p) {
                let m = choose|m: int| 0 <= m < rest.len() && {
                    &&& #[trigger] rest[m].path@ == p
                    &&& last_segment(p) != MANIFESTFILENAME@
                    &&& (!last.contains_key(p) || last[p].0 != p || last[p].1 != rest[m].size)
                };
                assert(fs[m] == rest[m]);
            }
        }
    }
}

/// Whether no two files share a path.
pub open spec fn paths_distinct(fs: Seq<FileManifest>) -> bool {
    forall|i: int, j: int| 0 <= i < j < fs.len() ==> fs[i].path@ != fs[j].path@
}

/// Whether the table holds each of the files, under its path, with its size.
pub open spec fn table_holds(fs: Seq<FileManifest>, m: Map<Seq<char>, (Seq<char>, u64)>) -> bool {
    forall|i: int| 0 <= i < fs.len() ==> m.contains_key(#[trigger] fs[i].path@) && m[fs[i].path@] == (fs[i].path@, fs[i].size)
}

/// With distinct paths, the table of the files holds each of them.
pub proof fn lemma_table_holds_files(fs: Seq<FileManifest>)
    requires
        paths_distinct(fs),
    ensures
        table_holds(fs, insert_files(Map::empty(), fs)),
    decreases fs.len(),
{
    if fs.len() > 0 {
        let init = fs.drop_last();
        lemma_table_holds_files(init);
        let m = insert_files(Map::empty(), fs);
        assert forall|i: int| 0 <= i < fs.len() implies m.contains_key(#[trigger] fs[i].path@) && m[fs[i].path@] == (fs[i].path@, fs[i].size) by {
            if i < fs.len() - 1 {
                assert(init[i] == fs[i]);
                assert(fs[i].path@ != fs[fs.len() - 1].path@);
            }
        }
    }
}

/// The path table of a folder holds each of its files under its path, with
/// its size (when no two files share a path).
pub proof fn law_files_to_map_holds_each_file(folder: FolderManifest)
    requires
        paths_distinct(manifest_files(folder.children@)),
    ensures
        table_holds(manifest_files(folder.children@), insert_files(Map::empty(), manifest_files(folder.children@))),
{
    lemma_table_holds_files(manifest_files(folder.children@));
}

/// Files that a table holds are not reported as changed.
pub proof fn lemma_held_files_unchanged(fs: Seq<FileManifest>, m: Map<Seq<char>, (Seq<char>, u64)>)
    requires
        table_holds(fs, m),
    ensures
        changed_paths(fs, m) == Seq::<Seq<char>>::empty(),
    decreases fs.len(),
{
    if fs.len() > 0 {
        let init = fs.drop_last();
        assert forall|i: int| 0 <= i < init.len() implies m.contains_key(#[trigger] init[i].path@) && m[init[i].path@] == (init[i].path@, init[i].size) by {
            assert(init[i] == fs[i]);
        }
        lemma_held_files_unchanged(init, m);
        assert(m.contains_key(fs[fs.len() - 1].path@));
    }
}

/// Checking a manifest against itself reports no change (when no two files
/// share a path, as in any walked folder).
pub proof fn law_same_manifest_no_changes(fs: Seq<FileManifest>)
    requires
        paths_distinct(fs),
    ensures
        changed_paths(fs, insert_files(Map::empty(), fs)) == Seq::<Seq<char>>::empty(),
{
    lemma_table_holds_files(fs);
    lemma_held_files_unchanged(fs, insert_files(Map::empty(), fs));
}

/// The paths of the files of `new_manifest` that changed since `last_manifest`;
/// every file path of `new_manifest` when there is no last manifest.
pub fn see_changes(new_manifest: &FolderManifest, last_manifest: Option<&FolderManifest>) -> (r: Vec<String>)
    ensures
        match last_manifest {
            Some(last) => r@.map_values(|s: String| s@) == changed_paths(
                manifest_files(new_manifest.children@),
                insert_files(Map::empty(), manifest_files(last.children@)),
            ),
            None => r@.map_values(|s: String| s@) == manifest_files(new_manifest.children@).map_values(
                |f: FileManifest| f.path@,
            ),
        },
{
    let files = new_manifest.files();
    let ghost fs = manifest_files(new_manifest.children@);
    let mut changes: Vec<String> = Vec::new();
    match last_manifest {
        Some(last) => {
            let last_files = last.files_to_map();
            let mut i: usize = 0;
            while i < files.len()
                invariant
                    i <= files@.len(),
                    files@ == fs.map_values(|f: FileManifest| file_of(f)),
                    last_files@ == insert_files(Map::empty(), manifest_files(last.children@)),
                    changes@.map_values(|s: String| s@) == changed_paths(fs.take(i as int), last_files@),
                decreases files@.len() - i,
            {
                let file = &files[i];
                assert(file.path == fs[i as int].path && file.size == fs[i as int].size);
                assert(fs.take(i + 1).drop_last() =~= fs.take(i as int));
                let name = file.name();
                let ghost before = changes@;
                if !str_equal(name.as_str(), MANIFESTFILENAME) {
                    match last_files.get(file.path.as_str()) {
                        Some(f) => {
                            if !file.is_equal(f) {
                                changes.push(file.path.clone());
                            }
                        },
                        None => {
                            changes.push(file.path.clone());
                        },
                    }
                }
                assert(changes@.map_values(|s: String| s@) =~= changed_paths(fs.take(i + 1), last_files@));
                i = i + 1;
            }
            assert(fs.take(fs.len() as int) =~= fs);
        },
        None => {
            let mut i: usize = 0;
            while i < files.len()
                invariant
                    i <= files@.len(),
                    files@ == fs.map_values(|f: FileManifest| file_of(f)),
                    changes@.map_values(|s: String| s@) == fs.take(i as int).map_values(|f: FileManifest| f.path@),
                decreases files@.len() - i,
            {
                let ghost before = changes@;
                assert(files@[i as int] == file_of(fs[i as int]));
                let p = files[i].path.clone();
                changes.push(p);
                assert(changes@ == before.push(p));
                assert(fs.take(i + 1) =~= fs.take(i as int).push(fs[i as int]));
                assert(before.push(p).map_values(|s: String| s@) =~= before.map_values(|s: String| s@).push(p@));
                assert(fs.take(i as int).push(fs[i as int]).map_values(|f: FileManifest| f.path@)
                    =~= fs.take(i as int).map_values(|f: FileManifest| f.path@).push(fs[i as int].path@));
                assert(changes@.map_values(|s: String| s@) =~= fs.take(i + 1).map_values(|f: FileManifest| f.path@));
                i = i + 1;
            }
            assert(fs.take(fs.len() as int) =~= fs);
        },
    }
    changes
}

} // verus!
