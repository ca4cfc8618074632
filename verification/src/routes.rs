//! The route table: which packed file answers which request path.

use vstd::prelude::*;
use crate::file::File;
use crate::manifest::{FileManifest, FolderManifest, PathType, manifest_files, lemma_manifest_files_step, file_of};
use crate::path_map::{PathMap, str_equal};
use crate::text::{chars_of, replace_all, replace_chars, string_of};

verus! {

/// What is served for one route: the file, its size and whether it is gzipped.
pub struct RouteManifest {
    pub size: u64,
    pub file: File,
    pub gzip: bool,
}

impl View for RouteManifest {
    type V = (u64, (Seq<char>, u64), bool);

    open spec fn view(&self) -> (u64, (Seq<char>, u64), bool) {
        (self.size, self.file@, self.gzip)
    }
}

/// The route table: request path to route.
pub type RouteT = PathMap<RouteManifest>;

/// The routes of a site.
pub struct Routes {
    pub routes: RouteT,
}

/// The formats that routes can be exported to.
pub enum RouteExportKind {
    Json,
}

/// The route under which a packed file is served: its path with `base` removed.
pub open spec fn route_key(f: FileManifest, base: Seq<char>) -> Seq<char> {
    replace_all(f.path@, base, Seq::empty())
}

/// The route that serves a packed file.
pub open spec fn route_of(f: FileManifest) -> (u64, (Seq<char>, u64), bool) {
    (f.size, (f.path@, f.size), f.gzip)
}

/// Inserts the route of each file, in order; a later file wins.
pub open spec fn insert_routes(
    m: Map<Seq<char>, (u64, (Seq<char>, u64), bool)>,
    fs: Seq<FileManifest>,
    base: Seq<char>,
) -> Map<Seq<char>, (u64, (Seq<char>, u64), bool)>
    decreases fs.len(),
{
    if fs.len() == 0 {
        m
    } else {
        insert_routes(m, fs.drop_last(), base).insert(route_key(fs.last(), base), route_of(fs.last()))
    }
}

/// Inserting two lists in turn is inserting their concatenation.
pub proof fn lemma_insert_routes_append(
    m: Map<Seq<char>, (u64, (Seq<char>, u64), bool)>,
    a: Seq<FileManifest>,
    b: Seq<FileManifest>,
    base: Seq<char>,
)
    ensures
        insert_routes(insert_routes(m, a, base), b, base) == insert_routes(m, a + b, base),
    decreases b.len(),
{
    if b.len() == 0 {
        assert(a + b =~= a);
    } else {
        lemma_insert_routes_append(m, a, b.drop_last(), base);
        assert((a + b).drop_last() =~= a + b.drop_last());
    }
}

/// The routes of a folder's tree, with `base` removed from each file path.
pub open spec fn folder_routes(folder: FolderManifest, base: Seq<char>) -> Map<Seq<char>, (u64, (Seq<char>, u64), bool)> {
    insert_routes(Map::empty(), manifest_files(folder.children@), base)
}

/// Whether the route under `k` must be (re)extracted: it is new, or its size
/// or file path differs from the last route under `k`.
pub open spec fn route_changed(
    new: Map<Seq<char>, (u64, (Seq<char>, u64), bool)>,
    last: Map<Seq<char>, (u64, (Seq<char>, u64), bool)>,
    k: Seq<char>,
) -> bool {
    !last.contains_key(k) || last[k].0 != new[k].0 || last[k].1.0 != new[k].1.0
}

/// The keys among `keys` whose routes changed, in order.
pub open spec fn changed_keys(
    keys: Seq<Seq<char>>,
    new: Map<Seq<char>, (u64, (Seq<char>, u64), bool)>,
    last: Map<Seq<char>, (u64, (Seq<char>, u64), bool)>,
) -> Seq<Seq<char>>
    decreases keys.len(),
{
    if keys.len() == 0 {
        seq![]
    } else if route_changed(new, last, keys.last()) {
        changed_keys(keys.drop_last(), new, last).push(keys.last())
    } else {
        changed_keys(keys.drop_last(), new, last)
    }
}

/// The paths of the files in `old` that no file in `new` has, in order.
pub open spec fn dropped_paths(old: Seq<File>, new: Seq<File>) -> Seq<Seq<char>>
    decreases old.len(),
{
    if old.len() == 0 {
        seq![]
    } else if exists|j: int| 0 <= j < new.len() && new[j].path@ == old.last().path@ {
        dropped_paths(old.drop_last(), new)
    } else {
        dropped_paths(old.drop_last(), new).push(old.last().path@)
    }
}

/// Restarting on the routes that were served before extracts nothing: no
/// route present in the last table counts as changed against itself.
pub proof fn law_unchanged_routes_extract_nothing(
    keys: Seq<Seq<char>>,
    routes: Map<Seq<char>, (u64, (Seq<char>, u64), bool)>,
)
    requires
        forall|i: int| 0 <= i < keys.len() ==> routes.contains_key(#[trigger] keys[i]),
    ensures
        changed_keys(keys, routes, routes) == Seq::<Seq<char>>::empty(),
    decreases keys.len(),
{
    if keys.len() > 0 {
        assert forall|i: int| 0 <= i < keys.drop_last().len() implies routes.contains_key(#[trigger] keys.drop_last()[i]) by {
            assert(keys.drop_last()[i] == keys[i]);
        }
        law_unchanged_routes_extract_nothing(keys.drop_last(), routes);
        assert(routes.contains_key(keys[keys.len() - 1]));
    }
}

/// A deleted path belonged to a last file and belongs to no new file.
pub proof fn law_deleted_paths_are_gone(old: Seq<File>, new: Seq<File>, p: Seq<char>)
    requires
        dropped_paths(old, new).contains(p),
    ensures
        exists|i: int| 0 <= i < old.len() && old[i].path@ == p,
        !(exists|j: int| 0 <= j < new.len() && new[j].path@ == p),
    decreases old.len(),
{
    if old.len() > 0 {
        let rest = dropped_paths(old.drop_last(), new);
        if rest.contains(p) {
            law_deleted_paths_are_gone(old.drop_last(), new, p);
            let i = choose|i: int| 0 <= i < old.drop_last().len() && old.drop_last()[i].path@ == p;
            assert(old[i].path@ == p);
        } else {
            let d = dropped_paths(old, new);
            let k = choose|k: int| 0 <= k < d.len() && d[k] == p;
            if k < rest.len() {
                assert(d[k] == rest[k]);
                assert(rest.contains(p));
            }
            assert(old[old.len() - 1].path@ == p);
        }
    }
}

/// Restarting on the same files deletes nothing.
pub proof fn law_same_files_delete_nothing(files: Seq<File>)
    ensures
        dropped_paths(files, files) == Seq::<Seq<char>>::empty(),
{
    assert forall|i: int| 0 <= i < files.len() implies has_path(files, #[trigger] files[i].path@) by {
        assert(files[i].path@ == files[i].path@);
    }
    lemma_kept_paths_not_dropped(files, files);
}

/// Whether some file in `files` has path `p`.
pub open spec fn has_path(files: Seq<File>, p: Seq<char>) -> bool {
    exists|j: int| 0 <= j < files.len() && files[j].path@ == p
}

/// Files whose paths all occur among `new` are not dropped.
pub proof fn lemma_kept_paths_not_dropped(old: Seq<File>, new: Seq<File>)
    requires
        forall|i: int| 0 <= i < old.len() ==> has_path(new, #[trigger] old[i].path@),
    ensures
        dropped_paths(old, new) == Seq::<Seq<char>>::empty(),
    decreases old.len(),
{
    if old.len() > 0 {
        let init = old.drop_last();
        assert forall|i: int| 0 <= i < init.len() implies has_path(new, #[trigger] init[i].path@) by {
            assert(init[i] == old[i]);
        }
        lemma_kept_paths_not_dropped(init, new);
        assert(has_path(new, old[old.len() - 1].path@));
    }
}

/// `key` with a leading `/` added when it has none.
pub open spec fn rooted(key: Seq<char>) -> Seq<char> {
    if key.len() > 0 && key[0] == '/' {
        key
    } else {
        seq!['/'] + key
    }
}

/// A request path is looked up under a key that starts with `/`: a path
/// without a leading `/` (as the server hands over for `GET /a/b`, namely
/// `a/b`, or the empty path) under `/` followed by the path, so that it finds
/// the same route as the path with `/` in front; a path that already starts
/// with `/` under itself.
pub proof fn law_request_path_is_rooted(p: Seq<char>)
    ensures
        (p.len() == 0 || p[0] != '/') ==> rooted(p) == seq!['/'] + p,
        (p.len() == 0 || p[0] != '/') ==> rooted(p) == rooted(seq!['/'] + p),
        (p.len() > 0 && p[0] == '/') ==> rooted(p) == p,
        rooted(p).len() > 0 && rooted(p)[0] == '/',
{
    assert((seq!['/'] + p)[0] == '/');
}

/// The routes to extract on a restart: a route whose key is among `keys` is
/// extracted when the last table has no route under its key, or has one
/// whose size (larger or smaller) or file path differs; a route whose size
/// and file path are both unchanged is never extracted.
pub proof fn law_changed_routes_are_extracted(
    keys: Seq<Seq<char>>,
    new: Map<Seq<char>, (u64, (Seq<char>, u64), bool)>,
    last: Map<Seq<char>, (u64, (Seq<char>, u64), bool)>,
    k: Seq<char>,
)
    ensures
        keys.contains(k) && !last.contains_key(k) ==> changed_keys(keys, new, last).contains(k),
        keys.contains(k) && last.contains_key(k) && last[k].0 != new[k].0 ==> changed_keys(keys, new, last).contains(k),
        keys.contains(k) && last.contains_key(k) && last[k].1.0 != new[k].1.0 ==> changed_keys(keys, new, last).contains(k),
        last.contains_key(k) && last[k].0 == new[k].0 && last[k].1.0 == new[k].1.0 ==> !changed_keys(keys, new, last).contains(k),
    decreases keys.len(),
{
    if keys.len() > 0 {
        let rest = keys.drop_last();
        law_changed_routes_are_extracted(rest, new, last, k);
        if keys.contains(k) && keys.last() != k {
            let i = choose|i: int| 0 <= i < keys.len() && keys[i] == k;
            assert(i < keys.len() - 1);
            assert(rest[i] == k);
        }
        let r = changed_keys(keys, new, last);
        let r0 = changed_keys(rest, new, last);
        if keys.last() == k {
            if route_changed(new, last, k) {
                assert(r[r.len() - 1] == k);
            }
        }
        if route_changed(new, last, keys.last()) {
            assert(r == r0.push(keys.last()));
            if r.contains(k) && keys.last() != k {
                let j = choose|j: int| 0 <= j < r.len() && r[j] == k;
                assert(j < r0.len());
                assert(r0[j] == k);
            }
            if r0.contains(k) {
                let j = choose|j: int| 0 <= j < r0.len() && r0[j] == k;
                assert(r[j] == k);
            }
        }
    }
}

/// Looking a route up with or without its leading `/` gives the same route.
pub proof fn law_leading_slash_optional(path: Seq<char>)
    ensures
        rooted(rooted(path)) == rooted(path),
{
    if !(path.len() > 0 && path[0] == '/') {
        assert((seq!['/'] + path)[0] == '/');
    }
}

/// The route and servable file for a packed file.
fn make_file_route(file_info: &FileManifest) -> (r: RouteManifest)
    ensures
        r@ == route_of(*file_info),
        r.file == file_of(*file_info),
{
    RouteManifest {
        size: file_info.size,
        file: File::new(file_info.path.clone(), file_info.size),
        gzip: file_info.gzip,
    }
}

/// Adds the routes and files under `nodes` to `routes` and `files`.
fn collect_routes(nodes: &Vec<PathType>, base: &Vec<char>, routes: &mut RouteT, files: &mut Vec<File>)
    ensures
        final(routes)@ == insert_routes(old(routes)@, manifest_files(nodes@), base@),
        final(files)@ == old(files)@ + manifest_files(nodes@).map_values(|f: FileManifest| file_of(f)),
    decreases nodes@,
{
    let ghost start_routes = old(routes)@;
    let ghost start_files = old(files)@;
    let mut i: usize = 0;
    while i < nodes.len()
        invariant
            i <= nodes@.len(),
            routes@ == insert_routes(start_routes, manifest_files(nodes@.take(i as int)), base@),
            files@ == start_files + manifest_files(nodes@.take(i as int)).map_values(|f: FileManifest| file_of(f)),
        decreases nodes@.len() - i,
    {
        proof {
            lemma_manifest_files_step(nodes@, i as int);
        }
        match &nodes[i] {
            PathType::File(f) => {
                let route_info = make_file_route(f);
                files.push(route_info.file.copy());
                let empty: Vec<char> = Vec::new();
                let key = replace_chars(&chars_of(f.path.as_str()), base, &empty);
                assert(empty@ =~= Seq::<char>::empty());
                routes.insert(string_of(key.as_slice()), route_info);
                proof {
                    let fs = manifest_files(nodes@.take(i as int));
                    assert((fs + seq![*f]).drop_last() =~= fs);
                }
            },
            PathType::Folder(d) => {
                collect_routes(&d.children, base, routes, files);
                proof {
                    lemma_insert_routes_append(start_routes, manifest_files(nodes@.take(i as int)), manifest_files(d.children@), base@);
                }
            },
        }
        assert(files@ =~= start_files + manifest_files(nodes@.take(i + 1)).map_values(|f: FileManifest| file_of(f)));
        i = i + 1;
    }
    assert(nodes@.take(nodes@.len() as int) =~= nodes@);
}

/// The name inside the archive of the file extracted to `file`: the path
/// with `base` removed, without a leading `/`.
pub open spec fn archive_name(file: Seq<char>, base: Seq<char>) -> Seq<char> {
    let rel = replace_all(file, base, Seq::empty());
    if rel.len() > 0 && rel[0] == '/' { rel.drop_first() } else { rel }
}

/// The name inside the archive of the file to extract to `file`.
pub fn extract_name(file: &str, base: &str) -> (r: String)
    ensures
        r@ == archive_name(file@, base@),
{
    let empty: Vec<char> = Vec::new();
    let rel = replace_chars(&chars_of(file), &chars_of(base), &empty);
    assert(empty@ =~= Seq::<char>::empty());
    if rel.len() > 0 && rel[0] == '/' {
        let mut out: Vec<char> = Vec::new();
        let mut i: usize = 1;
        while i < rel.len()
            invariant
                1 <= i <= rel@.len(),
                out@ =~= rel@.subrange(1, i as int),
            decreases rel@.len() - i,
        {
            out.push(rel[i]);
            i = i + 1;
        }
        assert(out@ =~= rel@.drop_first());
        string_of(out.as_slice())
    } else {
        string_of(rel.as_slice())
    }
}

impl Routes {
    /// The route that answers a request for `path`: the empty path and `/`
    /// ask for `index.html`.
    pub fn route_for_request(&self, path: &str) -> (r: Option<&RouteManifest>)
        ensures
            ({
                let key = if path@.len() == 0 || path@ == seq!['/'] { rooted("index.html"@) } else { rooted(path@) };
                match r {
                    Some(v) => self.routes@.contains_key(key) && v@ == self.routes@[key],
                    None => !self.routes@.contains_key(key),
                }
            }),
    {
        let p = chars_of(path);
        if p.len() == 0 || (p.len() == 1 && p[0] == '/') {
            proof {
                if p@.len() == 1 && p@[0] == '/' {
                    assert(p@ =~= seq!['/']);
                }
            }
            self.get("index.html")
        } else {
            proof {
                if path@ == seq!['/'] {
                    assert(p@.len() == 1 && p@[0] == '/');
                }
            }
            self.get(path)
        }
    }

    /// The route for a request path; a path without a leading `/` is looked
    /// up with one.
    pub fn get(&self, path: &str) -> (r: Option<&RouteManifest>)
        ensures
            match r {
                Some(v) => self.routes@.contains_key(rooted(path@)) && v@ == self.routes@[rooted(path@)],
                None => !self.routes@.contains_key(rooted(path@)),
            },
    {
        let p = chars_of(path);
        if p.len() > 0 && p[0] == '/' {
            self.routes.get(path)
        } else {
            let mut key: Vec<char> = Vec::new();
            key.push('/');
            let mut rest = p.clone();
            key.append(&mut rest);
            assert(key@ =~= rooted(path@));
            let k = string_of(key.as_slice());
            self.routes.get(k.as_str())
        }
    }

    /// The routes of every file under `folder_info`, keyed by the file path
    /// with `base` removed, together with those files in walk order.
    pub fn make_folder_route(folder_info: &FolderManifest, base: &str) -> (r: (RouteT, Vec<File>))
        ensures
            r.0@ == folder_routes(*folder_info, base@),
            r.1@ == manifest_files(folder_info.children@).map_values(|f: FileManifest| file_of(f)),
    {
        let mut routes: RouteT = PathMap::new();
        let mut files: Vec<File> = Vec::new();
        collect_routes(&folder_info.children, &chars_of(base), &mut routes, &mut files);
        assert(files@ =~= manifest_files(folder_info.children@).map_values(|f: FileManifest| file_of(f)));
        (routes, files)
    }

    /// The routes of `manifest`, the routes that must be extracted, and (when
    /// there is a last manifest) the paths of the last files that no longer
    /// belong to the site.
    ///
    /// A route must be extracted when there was no last manifest, when the
    /// last manifest had no route under its path, or when the size or file
    /// path of its route changed.
    pub fn build(manifest: &FolderManifest, last_manifest: Option<&FolderManifest>) -> (r: (RouteT, Vec<String>, Option<Vec<String>>))
        ensures
            r.0@ == folder_routes(*manifest, manifest.path@),
            match last_manifest {
                Some(last) => {
                    &&& r.1@.map_values(|s: String| s@) == changed_keys(r.0.key_seq(), r.0@, folder_routes(*last, last.path@))
                    &&& r.2 is Some
                    &&& r.2->0@.map_values(|s: String| s@) == dropped_paths(
                            manifest_files(last.children@).map_values(|f: FileManifest| file_of(f)),
                            manifest_files(manifest.children@).map_values(|f: FileManifest| file_of(f)))
                },
                None => {
                    &&& r.1@.map_values(|s: String| s@) == r.0.key_seq()
                    &&& r.2 is None
                },
            },
    {
        let (new_routes, new_files) = Routes::make_folder_route(manifest, manifest.path.as_str());
        match last_manifest {
            Some(last) => {
                let (last_routes, last_files) = Routes::make_folder_route(last, last.path.as_str());
                let mut files_to_delete: Vec<String> = Vec::new();
                let mut i: usize = 0;
                while i < last_files.len()
                    invariant
                        i <= last_files@.len(),
                        files_to_delete@.map_values(|s: String| s@) == dropped_paths(last_files@.take(i as int), new_files@),
                    decreases last_files@.len() - i,
                {
                    let kept = any_with_path(&new_files, last_files[i].path.as_str());
                    let ghost before = files_to_delete@;
                    if !kept {
                        files_to_delete.push(last_files[i].path.clone());
                    }
                    assert(last_files@.take(i + 1).drop_last() =~= last_files@.take(i as int));
                    assert(files_to_delete@.map_values(|s: String| s@) =~= dropped_paths(last_files@.take(i + 1), new_files@));
                    i = i + 1;
                }
                assert(last_files@.take(last_files@.len() as int) =~= last_files@);
                let mut changed: Vec<String> = Vec::new();
                let mut k: usize = 0;
                proof {
                    use_type_invariant(&new_routes);
                    new_routes.lemma_keys();
                }
                while k < new_routes.len()
                    invariant
                        k <= new_routes.spec_len(),
                        new_routes.key_seq().len() == new_routes.spec_len(),
                        changed@.map_values(|s: String| s@) == changed_keys(new_routes.key_seq().take(k as int), new_routes@, last_routes@),
                    decreases new_routes.spec_len() - k,
                {
                    let path = new_routes.key(k);
                    let route = new_routes.value(k);
                    let is_changed = match last_routes.get(path.as_str()) {
                        Some(last_route) => {
                            last_route.size != route.size || !str_equal(last_route.file.path.as_str(), route.file.path.as_str())
                        },
                        None => true,
                    };
                    let ghost before = changed@;
                    if is_changed {
                        changed.push(path.clone());
                    }
                    assert(new_routes.key_seq().take(k + 1).drop_last() =~= new_routes.key_seq().take(k as int));
                    assert(changed@.map_values(|s: String| s@) =~= changed_keys(new_routes.key_seq().take(k + 1), new_routes@, last_routes@));
                    k = k + 1;
                }
                assert(new_routes.key_seq().take(new_routes.spec_len() as int) =~= new_routes.key_seq());
                (new_routes, changed, Some(files_to_delete))
            },
            None => {
                let mut keys: Vec<String> = Vec::new();
                let mut k: usize = 0;
                proof {
                    use_type_invariant(&new_routes);
                    new_routes.lemma_keys();
                }
                while k < new_routes.len()
                    invariant
                        k <= new_routes.spec_len(),
                        new_routes.key_seq().len() == new_routes.spec_len(),
                        keys@.map_values(|s: String| s@) == new_routes.key_seq().take(k as int),
                    decreases new_routes.spec_len() - k,
                {
                    let ghost before = keys@;
                    let kk = new_routes.key(k).clone();
                    keys.push(kk);
                    assert(keys@ == before.push(kk));
                    assert(new_routes.key_seq().take(k + 1) =~= new_routes.key_seq().take(k as int).push(kk@));
                    assert(keys@.map_values(|s: String| s@) =~= before.map_values(|s: String| s@).push(kk@));
                    k = k + 1;
                }
                assert(new_routes.key_seq().take(new_routes.spec_len() as int) =~= new_routes.key_seq());
                (new_routes, keys, None)
            },
        }
    }
}

/// Whether some file in `files` has path `path`.
fn any_with_path(files: &Vec<File>, path: &str) -> (r: bool)
    ensures
        r == exists|j: int| 0 <= j < files@.len() && files@[j].path@ == path@,
{
    let mut i: usize = 0;
    while i < files.len()
        invariant
            i <= files@.len(),
            forall|j: int| 0 <= j < i ==> files@[j].path@ != path@,
        decreases files@.len() - i,
    {
        if str_equal(files[i].path.as_str(), path) {
            return true;
        }
        i = i + 1;
    }
    false
}

} // verus!
