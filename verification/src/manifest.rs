//! The manifest: a tree that records every packed file and folder.

use vstd::prelude::*;
use crate::file::File;
use crate::path_map::PathMap;
use crate::paths::{extension, extension_of};
use crate::path_map::str_equal;
use crate::text::{all_ascii, ascii_lower, chars_of, lower_of, occurs_at, own, replace_all, replace_chars, replace_str, string_of, to_lower};
use crate::util::{path_hash, xxh3_of};
use crate::size_format::decimal;
use crate::hash_folder::{lemma_listed_total_prefix, listed_total, Listed};
use vstd::utf8::encode_utf8;
use vstd::string::StringSliceAdditionalSpecFns;

verus! {

/// One packed file.
pub struct FileManifest {
    pub path: String,
    pub size: u64,
    pub hash: String,
    pub gzip: bool,
}

/// A node of the tree: a file or a folder.
pub enum PathType {
    File(FileManifest),
    Folder(FolderManifest),
}

/// One packed folder with everything under it.
pub struct FolderManifest {
    pub path: String,
    pub children: Vec<PathType>,
    pub size: u64,
}

/// The files under a list of nodes, in the order in which a depth-first walk
/// meets them.
pub open spec fn manifest_files(nodes: Seq<PathType>) -> Seq<FileManifest>
    decreases nodes,
{
    if nodes.len() == 0 {
        seq![]
    } else {
        manifest_files(nodes.drop_last()) + match nodes.last() {
            PathType::File(f) => seq![f],
            PathType::Folder(d) => manifest_files(d.children@),
        }
    }
}

/// The files that one node contributes.
pub open spec fn node_files(node: PathType) -> Seq<FileManifest> {
    match node {
        PathType::File(f) => seq![f],
        PathType::Folder(d) => manifest_files(d.children@),
    }
}

/// Walking the first `i + 1` nodes meets the files of the first `i`, then those of node `i`.
pub proof fn lemma_manifest_files_step(nodes: Seq<PathType>, i: int)
    requires
        0 <= i < nodes.len(),
    ensures
        manifest_files(nodes.take(i + 1)) == manifest_files(nodes.take(i)) + node_files(nodes[i]),
{
    assert(nodes.take(i + 1).drop_last() =~= nodes.take(i));
}

/// The servable file that a manifest entry stands for.
pub open spec fn file_of(f: FileManifest) -> File {
    File { path: f.path, size: f.size }
}

/// Inserts each file, in order, under its path; a later file wins.
pub open spec fn insert_files(m: Map<Seq<char>, (Seq<char>, u64)>, fs: Seq<FileManifest>) -> Map<Seq<char>, (Seq<char>, u64)>
    decreases fs.len(),
{
    if fs.len() == 0 {
        m
    } else {
        insert_files(m, fs.drop_last()).insert(fs.last().path@, (fs.last().path@, fs.last().size))
    }
}

/// Inserting two lists in turn is inserting their concatenation.
pub proof fn lemma_insert_files_append(m: Map<Seq<char>, (Seq<char>, u64)>, a: Seq<FileManifest>, b: Seq<FileManifest>)
    ensures
        insert_files(insert_files(m, a), b) == insert_files(m, a + b),
    decreases b.len(),
{
    if b.len() == 0 {
        assert(a + b =~= a);
    } else {
        lemma_insert_files_append(m, a, b.drop_last());
        assert((a + b).drop_last() =~= a + b.drop_last());
    }
}

/// `s` without one trailing `/`, if it ends with one.
pub open spec fn strip_one_slash(s: Seq<char>) -> Seq<char> {
    if s.len() > 0 && s.last() == '/' {
        s.drop_last()
    } else {
        s
    }
}

/// `b` is `a` with every path rewritten: each occurrence of `from` in a path
/// becomes `to`, and inside each folder the rewriting goes on with
/// `strip_one_slash(to)`. Sizes, hashes, gzip flags and the shape are kept.
pub open spec fn nodes_renamed(a: Seq<PathType>, b: Seq<PathType>, from: Seq<char>, to: Seq<char>) -> bool
    decreases a,
{
    if a.len() == 0 {
        b.len() == 0
    } else {
        &&& b.len() == a.len()
        &&& nodes_renamed(a.drop_last(), b.drop_last(), from, to)
        &&& match (a.last(), b.last()) {
            (PathType::File(x), PathType::File(y)) => {
                &&& y.path@ == replace_all(x.path@, from, to)
                &&& y.size == x.size
                &&& y.hash == x.hash
                &&& y.gzip == x.gzip
            },
            (PathType::Folder(x), PathType::Folder(y)) => {
                &&& y.path@ == replace_all(x.path@, from, to)
                &&& y.size == x.size
                &&& nodes_renamed(x.children@, y.children@, from, strip_one_slash(to))
            },
            _ => false,
        }
    }
}

/// A rewritten copy of the nodes, as `nodes_renamed` describes.
fn rename_nodes(nodes: &Vec<PathType>, from: &Vec<char>, to: &Vec<char>) -> (r: Vec<PathType>)
    ensures
        nodes_renamed(nodes@, r@, from@, to@),
    decreases nodes@,
{
    let mut out: Vec<PathType> = Vec::new();
    let mut i: usize = 0;
    while i < nodes.len()
        invariant
            i <= nodes@.len(),
            nodes_renamed(nodes@.take(i as int), out@, from@, to@),
        decreases nodes@.len() - i,
    {
        let ghost before = out@;
        let node = match &nodes[i] {
            PathType::File(f) => {
                let p = replace_chars(&chars_of(f.path.as_str()), from, to);
                PathType::File(FileManifest {
                    path: string_of(p.as_slice()),
                    size: f.size,
                    hash: f.hash.clone(),
                    gzip: f.gzip,
                })
            },
            PathType::Folder(d) => {
                let p = replace_chars(&chars_of(d.path.as_str()), from, to);
                let inner_to = strip_slash_chars(to);
                let children = rename_nodes(&d.children, from, &inner_to);
                PathType::Folder(FolderManifest {
                    path: string_of(p.as_slice()),
                    children,
                    size: d.size,
                })
            },
        };
        out.push(node);
        assert(nodes@.take(i + 1).drop_last() =~= nodes@.take(i as int));
        assert(out@.drop_last() =~= before);
        i = i + 1;
    }
    assert(nodes@.take(nodes@.len() as int) =~= nodes@);
    out
}

/// The characters `s` without one trailing `/`.
fn strip_slash_chars(s: &Vec<char>) -> (r: Vec<char>)
    ensures
        r@ == strip_one_slash(s@),
{
    let mut r = s.clone();
    assert(r@ =~= s@);
    if r.len() > 0 && r[r.len() - 1] == '/' {
        r.pop();
    }
    r
}

/// Appends the files under `nodes` to `out`, in walk order.
fn collect_files(nodes: &Vec<PathType>, out: &mut Vec<File>)
    ensures
        final(out)@ == old(out)@ + manifest_files(nodes@).map_values(|f: FileManifest| file_of(f)),
    decreases nodes@,
{
    let ghost start = old(out)@;
    let mut i: usize = 0;
    while i < nodes.len()
        invariant
            i <= nodes@.len(),
            out@ == start + manifest_files(nodes@.take(i as int)).map_values(|f: FileManifest| file_of(f)),
        decreases nodes@.len() - i,
    {
        proof {
            lemma_manifest_files_step(nodes@, i as int);
        }
        match &nodes[i] {
            PathType::File(f) => {
                out.push(File::new(f.path.clone(), f.size));
            },
            PathType::Folder(d) => {
                collect_files(&d.children, out);
            },
        }
        assert(out@ =~= start + manifest_files(nodes@.take(i + 1)).map_values(|f: FileManifest| file_of(f)));
        i = i + 1;
    }
    assert(nodes@.take(nodes@.len() as int) =~= nodes@);
}

/// Inserts the files under `nodes` into `table`, in walk order.
fn collect_table(nodes: &Vec<PathType>, table: &mut PathMap<File>)
    ensures
        final(table)@ == insert_files(old(table)@, manifest_files(nodes@)),
    decreases nodes@,
{
    let ghost start = old(table)@;
    let mut i: usize = 0;
    while i < nodes.len()
        invariant
            i <= nodes@.len(),
            table@ == insert_files(start, manifest_files(nodes@.take(i as int))),
        decreases nodes@.len() - i,
    {
        proof {
            lemma_manifest_files_step(nodes@, i as int);
        }
        let ghost mid = table@;
        match &nodes[i] {
            PathType::File(f) => {
                table.insert(f.path.clone(), File::new(f.path.clone(), f.size));
                proof {
                    let fs = manifest_files(nodes@.take(i as int));
                    assert((fs + seq![*f]).drop_last() =~= fs);
                }
            },
            PathType::Folder(d) => {
                collect_table(&d.children, table);
                proof {
                    lemma_insert_files_append(start, manifest_files(nodes@.take(i as int)), manifest_files(d.children@));
                }
            },
        }
        i = i + 1;
    }
    assert(nodes@.take(nodes@.len() as int) =~= nodes@);
}

impl FolderManifest {
    /// Every file in the tree, in walk order.
    pub fn files(&self) -> (r: Vec<File>)
        ensures
            r@ == manifest_files(self.children@).map_values(|f: FileManifest| file_of(f)),
    {
        let mut out: Vec<File> = Vec::new();
        collect_files(&self.children, &mut out);
        assert(out@ =~= manifest_files(self.children@).map_values(|f: FileManifest| file_of(f)));
        out
    }

    /// Every file in the tree, keyed by its path; of two files with one path,
    /// the later in walk order is kept.
    pub fn files_to_map(&self) -> (r: PathMap<File>)
        ensures
            r@ == insert_files(Map::empty(), manifest_files(self.children@)),
    {
        let mut table: PathMap<File> = PathMap::new();
        collect_table(&self.children, &mut table);
        table
    }

    /// Moves the tree under `teo`: the folder's own path becomes `teo`
    /// without one trailing `/`, and in every path below it the old folder
    /// path is replaced by that new path (one more trailing `/` dropped at each
    /// folder level).
    pub fn replace_path(&mut self, teo: &str)
        ensures
            moved_to(*old(self), *final(self), teo@),
    {
        let new_to = strip_slash_chars(&chars_of(teo));
        let old_path = chars_of(self.path.as_str());
        let children = rename_nodes(&self.children, &old_path, &new_to);
        self.path = string_of(new_to.as_slice());
        self.children = children;
    }
}

/// How packed paths are derived from source paths: every occurrence of
/// `replace` becomes `to`.
pub struct Replace {
    pub to: String,
    pub replace: String,
}

/// Whether a (lower-case) extension is one whose files are gzipped.
pub open spec fn is_gzip_extension(e: Seq<char>) -> bool {
    e == "html"@ || e == "css"@ || e == "js"@ || e == "json"@ || e == "txt"@
        || e == "xml"@ || e == "csv"@ || e == "md"@ || e == "svg"@ || e == "ico"@
}

/// Whether `e` is one of the extensions whose files are gzipped.
pub fn gzip_extension(e: &str) -> (r: bool)
    ensures
        r == is_gzip_extension(e@),
{
    str_equal(e, "html") || str_equal(e, "css") || str_equal(e, "js") || str_equal(e, "json")
        || str_equal(e, "txt") || str_equal(e, "xml") || str_equal(e, "csv") || str_equal(e, "md")
        || str_equal(e, "svg") || str_equal(e, "ico")
}

/// The lower-cased extension of `path`, empty when it has none.
pub open spec fn lowered_extension(path: Seq<char>) -> Seq<char> {
    lower_of(match extension_of(path) {
        Some(e) => e,
        None => Seq::empty(),
    })
}

/// Whether a file at `path` is gzipped when packing with the given options:
/// gzip is on, files are copied, and the extension is a gzipped one.
pub open spec fn gzips(path: Seq<char>, gzip: bool, copy: bool) -> bool {
    gzip && is_gzip_extension(lowered_extension(path)) && copy
}

/// HTML, CSS and JavaScript files are gzipped whenever gzip is on and files
/// are copied: a file whose ASCII extension is `html`, `css` or `js` in any
/// case.
pub proof fn law_web_files_are_gzipped(path: Seq<char>, ext: Seq<char>)
    requires
        extension_of(path) == Some(ext),
        all_ascii(ext),
        ascii_lower(ext) == "html"@ || ascii_lower(ext) == "css"@ || ascii_lower(ext) == "js"@,
    ensures
        gzips(path, true, true),
{
}

/// What packing does with one source file.
pub enum FileAction {
    /// Compress `from` into `to`; the size is then read at `to`.
    Gzip { from: String, to: String },
    /// Copy `from` to `to`; the size is then read at `to`.
    Copy { from: String, to: String },
    /// Leave the file where it is; the size is read at its own path.
    Keep,
}

/// Whether the file at `path` is gzipped when packing with these options.
pub fn should_gzip(path: &str, gzip: bool, copy: bool) -> (r: bool)
    ensures
        r == gzips(path@, gzip, copy),
{
    let ext = match extension(&chars_of(path)) {
        Some(e) => string_of(e.as_slice()),
        None => String::new(),
    };
    let lowered = to_lower(ext.as_str());
    gzip && gzip_extension(lowered.as_str()) && copy
}

/// What packing does with the source file `path`.
pub fn file_action(path: &str, r: &Replace, gzip: bool, copy: bool) -> (a: FileAction)
    ensures
        match a {
            FileAction::Gzip { from, to } => gzips(path@, gzip, copy) && from@ == path@
                && to@ == replace_all(path@, r.replace@, r.to@),
            FileAction::Copy { from, to } => !gzips(path@, gzip, copy) && copy && from@ == path@
                && to@ == replace_all(path@, r.replace@, r.to@),
            FileAction::Keep => !copy,
        },
{
    let new_path = replace_str(path, r.replace.as_str(), r.to.as_str());
    if should_gzip(path, gzip, copy) {
        FileAction::Gzip { from: own(path), to: new_path }
    } else if copy {
        FileAction::Copy { from: own(path), to: new_path }
    } else {
        FileAction::Keep
    }
}

/// The manifest entry for the source file `path`, once `file_action` has
/// been carried out; `size` is the size read where the action left the file.
pub fn get_file_manifest(path: &str, r: &Replace, gzip: bool, copy: bool, size: u64) -> (m: FileManifest)
    ensures
        m.path@ == replace_all(path@, r.replace@, r.to@),
        m.size == size,
        m.hash@ == decimal(xxh3_of(path.spec_bytes()) as nat),
        m.gzip == gzips(path@, gzip, copy),
{
    let new_path = replace_str(path, r.replace.as_str(), r.to.as_str());
    let hash = path_hash(path);
    FileManifest { path: new_path, size, hash, gzip: should_gzip(path, gzip, copy) }
}

/// The size a node contributes to its folder.
pub open spec fn node_size(node: PathType) -> u64 {
    match node {
        PathType::File(f) => f.size,
        PathType::Folder(d) => d.size,
    }
}

/// The total size of the files under `nodes`.
pub open spec fn total_size(fs: Seq<FileManifest>) -> nat
    decreases fs.len(),
{
    if fs.len() == 0 { 0 } else { total_size(fs.drop_last()) + fs.last().size as nat }
}

/// The sum of the sizes of `nodes`.
pub open spec fn nodes_size(nodes: Seq<PathType>) -> nat
    decreases nodes.len(),
{
    if nodes.len() == 0 { 0 } else { nodes_size(nodes.drop_last()) + node_size(nodes.last()) as nat }
}

/// Every folder in `nodes` records as its size the sum of its children's sizes.
pub open spec fn sizes_consistent(nodes: Seq<PathType>) -> bool
    decreases nodes,
{
    if nodes.len() == 0 {
        true
    } else {
        &&& sizes_consistent(nodes.drop_last())
        &&& match nodes.last() {
            PathType::File(_) => true,
            PathType::Folder(d) => d.size == nodes_size(d.children@) && sizes_consistent(d.children@),
        }
    }
}

impl FolderManifest {
    /// An empty folder entry for the source folder `path`.
    pub fn new_for(path: &str, r: &Replace) -> (m: FolderManifest)
        ensures
            m.path@ == replace_all(path@, r.replace@, r.to@),
            m.children@.len() == 0,
            m.size == 0,
    {
        FolderManifest { path: replace_str(path, r.replace.as_str(), r.to.as_str()), children: Vec::new(), size: 0 }
    }

    /// Adds a child and its size.
    pub fn add_child(&mut self, child: PathType)
        requires
            old(self).size + node_size(child) <= u64::MAX,
        ensures
            final(self).path == old(self).path,
            final(self).children@ == old(self).children@.push(child),
            final(self).size == old(self).size + node_size(child),
    {
        let s = match &child {
            PathType::File(f) => f.size,
            PathType::Folder(d) => d.size,
        };
        self.size = self.size + s;
        self.children.push(child);
    }
}

/// The size of a list of files split in two is the sum of the sizes of the parts.
pub proof fn lemma_total_size_append(a: Seq<FileManifest>, b: Seq<FileManifest>)
    ensures
        total_size(a + b) == total_size(a) + total_size(b),
    decreases b.len(),
{
    if b.len() == 0 {
        assert(a + b =~= a);
    } else {
        lemma_total_size_append(a, b.drop_last());
        assert((a + b).drop_last() =~= a + b.drop_last());
    }
}

/// In a tree whose folders record the sum of their children's sizes, the
/// sizes of the nodes add up to the size of all the files under them.
pub proof fn lemma_nodes_size_is_file_size(nodes: Seq<PathType>)
    requires
        sizes_consistent(nodes),
    ensures
        nodes_size(nodes) == total_size(manifest_files(nodes)),
    decreases nodes,
{
    if nodes.len() > 0 {
        lemma_nodes_size_is_file_size(nodes.drop_last());
        lemma_total_size_append(manifest_files(nodes.drop_last()), node_files(nodes.last()));
        match nodes.last() {
            PathType::File(f) => {
                assert(total_size(seq![f]) == f.size) by {
                    let one = seq![f];
                    assert(one.drop_last() =~= Seq::<FileManifest>::empty());
                    assert(total_size(one.drop_last()) == 0);
                    assert(one.last() == f);
                }
            },
            PathType::Folder(d) => {
                lemma_nodes_size_is_file_size(d.children@);
            },
        }
    }
}

impl FolderManifest {
    /// The folder records the sum of its children's sizes, and so does every
    /// folder below it.
    pub open spec fn sizes_add_up(&self) -> bool {
        self.size == nodes_size(self.children@) && sizes_consistent(self.children@)
    }
}

/// Whether a node keeps its sizes consistent (a file always does).
pub open spec fn node_consistent(node: PathType) -> bool {
    match node {
        PathType::File(_) => true,
        PathType::Folder(d) => d.sizes_add_up(),
    }
}

/// A folder's size is the total size of all the files under it, when every
/// folder records the sum of its children's sizes.
pub proof fn law_folder_size_is_file_total(folder: FolderManifest)
    requires
        folder.sizes_add_up(),
    ensures
        folder.size == total_size(manifest_files(folder.children@)),
{
    lemma_nodes_size_is_file_size(folder.children@);
}

/// A new folder entry adds up, and `add_child` keeps a folder adding up
/// when the child does.
pub proof fn law_add_child_keeps_sizes(before: FolderManifest, child: PathType, after: FolderManifest)
    requires
        before.sizes_add_up(),
        node_consistent(child),
        after.children@ == before.children@.push(child),
        after.size == before.size + node_size(child),
    ensures
        after.sizes_add_up(),
{
    assert(after.children@.drop_last() =~= before.children@);
}

/// An empty folder adds up.
pub proof fn law_new_folder_adds_up(folder: FolderManifest)
    requires
        folder.children@.len() == 0,
        folder.size == 0,
    ensures
        folder.sizes_add_up(),
{
}

/// `b` lists the files of `a`, each with `from` replaced by `to` in its path
/// and everything else kept.
pub open spec fn files_renamed(a: Seq<FileManifest>, b: Seq<FileManifest>, from: Seq<char>, to: Seq<char>) -> bool {
    &&& a.len() == b.len()
    &&& forall|i: int| 0 <= i < a.len() ==> {
        &&& #[trigger] b[i].path@ == replace_all(a[i].path@, from, to)
        &&& b[i].size == a[i].size
        &&& b[i].hash == a[i].hash
        &&& b[i].gzip == a[i].gzip
    }
}

/// Renamed lists can be joined.
pub proof fn lemma_files_renamed_append(
    a1: Seq<FileManifest>, b1: Seq<FileManifest>, a2: Seq<FileManifest>, b2: Seq<FileManifest>,
    from: Seq<char>, to: Seq<char>,
)
    requires
        files_renamed(a1, b1, from, to),
        files_renamed(a2, b2, from, to),
    ensures
        files_renamed(a1 + a2, b1 + b2, from, to),
{
    assert forall|i: int| 0 <= i < (a1 + a2).len() implies {
        &&& #[trigger] (b1 + b2)[i].path@ == replace_all((a1 + a2)[i].path@, from, to)
        &&& (b1 + b2)[i].size == (a1 + a2)[i].size
        &&& (b1 + b2)[i].hash == (a1 + a2)[i].hash
        &&& (b1 + b2)[i].gzip == (a1 + a2)[i].gzip
    } by {
        if i < a1.len() {
            assert((b1 + b2)[i] == b1[i] && (a1 + a2)[i] == a1[i]);
            assert(b1[i].path@ == replace_all(a1[i].path@, from, to));
        } else {
            let k = i - a1.len();
            assert((b1 + b2)[i] == b2[k] && (a1 + a2)[i] == a2[k]);
            assert(b2[k].path@ == replace_all(a2[k].path@, from, to));
        }
    }
}

/// When `to` does not end with `/`, renamed nodes hold the renamed files.
pub proof fn lemma_nodes_renamed_files(a: Seq<PathType>, b: Seq<PathType>, from: Seq<char>, to: Seq<char>)
    requires
        nodes_renamed(a, b, from, to),
        strip_one_slash(to) == to,
    ensures
        files_renamed(manifest_files(a), manifest_files(b), from, to),
    decreases a,
{
    if a.len() > 0 {
        lemma_nodes_renamed_files(a.drop_last(), b.drop_last(), from, to);
        match (a.last(), b.last()) {
            (PathType::File(x), PathType::File(y)) => {
                assert(files_renamed(seq![x], seq![y], from, to));
            },
            (PathType::Folder(x), PathType::Folder(y)) => {
                lemma_nodes_renamed_files(x.children@, y.children@, from, to);
            },
            _ => {},
        }
        lemma_files_renamed_append(manifest_files(a.drop_last()), manifest_files(b.drop_last()),
            node_files(a.last()), node_files(b.last()), from, to);
    }
}

/// What `replace_path(teo)` makes of `before`.
pub open spec fn moved_to(before: FolderManifest, after: FolderManifest, teo: Seq<char>) -> bool {
    &&& after.path@ == strip_one_slash(teo)
    &&& after.size == before.size
    &&& nodes_renamed(before.children@, after.children@, before.path@, strip_one_slash(teo))
}

/// After `replace_path(teo)`, the tree lists the same files in the same order,
/// with the same sizes, hashes and gzip flags, each path having the old folder
/// path replaced by the new one (when `teo` does not end in two `/`).
pub proof fn law_replace_path_moves_files(before: FolderManifest, after: FolderManifest, teo: Seq<char>)
    requires
        moved_to(before, after, teo),
        strip_one_slash(strip_one_slash(teo)) == strip_one_slash(teo),
    ensures
        files_renamed(manifest_files(before.children@), manifest_files(after.children@), before.path@, strip_one_slash(teo)),
{
    lemma_nodes_renamed_files(before.children@, after.children@, before.path@, strip_one_slash(teo));
}

/// Replacing a pattern by itself leaves a string as it was.
pub proof fn lemma_replace_by_itself(s: Seq<char>, p: Seq<char>)
    ensures
        replace_all(s, p, p) == s,
    decreases s.len(),
{
    if p.len() == 0 {
        if s.len() > 0 {
            lemma_replace_by_itself(s.drop_first(), p);
            assert(p + seq![s[0]] + s.drop_first() =~= s);
        } else {
            assert(p =~= s);
        }
    } else if s.len() > 0 {
        if occurs_at(s, 0, p) {
            lemma_replace_by_itself(s.skip(p.len() as int), p);
            assert(s.subrange(0, p.len() as int) + s.skip(p.len() as int) =~= s);
        } else {
            lemma_replace_by_itself(s.drop_first(), p);
            assert(seq![s[0]] + s.drop_first() =~= s);
        }
    }
}

/// `a` and `b` are the same trees, value for value: same shape, and the
/// same paths (by their characters), sizes, hashes and gzip flags.
pub open spec fn nodes_same(a: Seq<PathType>, b: Seq<PathType>) -> bool
    decreases a,
{
    if a.len() == 0 {
        b.len() == 0
    } else {
        &&& b.len() == a.len()
        &&& nodes_same(a.drop_last(), b.drop_last())
        &&& match (a.last(), b.last()) {
            (PathType::File(x), PathType::File(y)) => {
                &&& y.path@ == x.path@
                &&& y.size == x.size
                &&& y.hash == x.hash
                &&& y.gzip == x.gzip
            },
            (PathType::Folder(x), PathType::Folder(y)) => {
                &&& y.path@ == x.path@
                &&& y.size == x.size
                &&& nodes_same(x.children@, y.children@)
            },
            _ => false,
        }
    }
}

/// Renaming `t` to itself, with `t` not ending in `/`, keeps every node.
pub proof fn lemma_renamed_to_itself(a: Seq<PathType>, b: Seq<PathType>, t: Seq<char>)
    requires
        nodes_renamed(a, b, t, t),
        strip_one_slash(t) == t,
    ensures
        nodes_same(a, b),
    decreases a,
{
    if a.len() > 0 {
        lemma_renamed_to_itself(a.drop_last(), b.drop_last(), t);
        match (a.last(), b.last()) {
            (PathType::File(x), PathType::File(y)) => {
                lemma_replace_by_itself(x.path@, t);
            },
            (PathType::Folder(x), PathType::Folder(y)) => {
                lemma_replace_by_itself(x.path@, t);
                lemma_renamed_to_itself(x.children@, y.children@, t);
            },
            _ => {},
        }
    }
}

/// Moving a tree a second time to the same place changes nothing (when
/// `teo` does not end in two `/`): the folder path, the size and every node
/// stay as the first move left them.
pub proof fn law_replace_path_twice_is_once(
    m: FolderManifest,
    m1: FolderManifest,
    m2: FolderManifest,
    teo: Seq<char>,
)
    requires
        moved_to(m, m1, teo),
        moved_to(m1, m2, teo),
        strip_one_slash(strip_one_slash(teo)) == strip_one_slash(teo),
    ensures
        m2.path@ == m1.path@,
        m2.size == m1.size,
        nodes_same(m1.children@, m2.children@),
{
    lemma_renamed_to_itself(m1.children@, m2.children@, strip_one_slash(teo));
}

/// `j` is the last position in `fs` whose file has path `k`.
pub open spec fn last_with_path(fs: Seq<FileManifest>, k: Seq<char>, j: int) -> bool {
    &&& 0 <= j < fs.len()
    &&& fs[j].path@ == k
    &&& forall|i: int| j < i < fs.len() ==> fs[i].path@ != k
}

/// The path table built from a list of files holds exactly their paths, each
/// with the size of the last file that has it.
pub proof fn lemma_insert_files_exact(fs: Seq<FileManifest>, k: Seq<char>)
    ensures
        insert_files(Map::empty(), fs).contains_key(k) <==> exists|i: int| 0 <= i < fs.len() && fs[i].path@ == k,
        insert_files(Map::empty(), fs).contains_key(k) ==> exists|j: int| {
            &&& #[trigger] last_with_path(fs, k, j)
            &&& insert_files(Map::empty(), fs)[k] == (k, fs[j].size)
        },
    decreases fs.len(),
{
    if fs.len() > 0 {
        let init = fs.drop_last();
        let n = fs.len() - 1;
        lemma_insert_files_exact(init, k);
        if fs[n].path@ == k {
            assert(last_with_path(fs, k, n));
        } else {
            if exists|i: int| 0 <= i < fs.len() && fs[i].path@ == k {
                let i = choose|i: int| 0 <= i < fs.len() && fs[i].path@ == k;
                assert(init[i] == fs[i]);
            }
            if exists|i: int| 0 <= i < init.len() && init[i].path@ == k {
                let i = choose|i: int| 0 <= i < init.len() && init[i].path@ == k;
                assert(fs[i] == init[i]);
            }
            if insert_files(Map::empty(), fs).contains_key(k) {
                let j = choose|j: int| #[trigger] last_with_path(init, k, j)
                    && insert_files(Map::empty(), init)[k] == (k, init[j].size);
                assert(fs[j] == init[j]);
                assert forall|i: int| j < i < fs.len() implies fs[i].path@ != k by {
                    if i < n {
                        assert(fs[i] == init[i]);
                    }
                }
                assert(last_with_path(fs, k, j));
            }
        }
    }
}

/// `files_to_map` holds exactly the paths of `files()`; under each path it
/// holds the path and size of the last file in walk order that has it.
pub proof fn law_files_to_map_is_last_file_per_path(folder: FolderManifest, k: Seq<char>)
    ensures
        ({
            let fs = manifest_files(folder.children@);
            let m = insert_files(Map::empty(), fs);
            &&& m.contains_key(k) <==> exists|i: int| 0 <= i < fs.len() && fs[i].path@ == k
            &&& m.contains_key(k) ==> exists|j: int| #[trigger] last_with_path(fs, k, j) && m[k] == (k, fs[j].size)
        }),
{
    lemma_insert_files_exact(manifest_files(folder.children@), k);
}

/// What the folder walk does with one entry of the folder it lists.
pub enum EntryStep {
    /// The folder itself, listed after its contents: create `create` when
    /// copying (if given), and walk no further.
    SkipSelf { create: Option<String> },
    /// A subfolder: create `create` when copying (if given), then walk it.
    Folder { create: Option<String> },
    /// A file: pack it.
    File,
    /// A symbolic link: refused.
    Symlink,
    /// Anything else: refused.
    Unknown,
}

/// Decides what the walk of `folder` does with the entry at `entry`, given
/// what kind of entry the file system reports.
pub fn classify_entry(entry: &str, folder: &str, r: &Replace, copy: bool, is_dir: bool, is_file: bool, is_symlink: bool) -> (s: EntryStep)
    ensures
        match s {
            EntryStep::SkipSelf { create } => is_dir && entry@ == folder@ && match create {
                Some(p) => copy && p@ == replace_all(entry@, r.replace@, r.to@),
                None => !copy,
            },
            EntryStep::Folder { create } => is_dir && entry@ != folder@ && match create {
                Some(p) => copy && p@ == replace_all(entry@, r.replace@, r.to@),
                None => !copy,
            },
            EntryStep::File => !is_dir && is_file,
            EntryStep::Symlink => !is_dir && !is_file && is_symlink,
            EntryStep::Unknown => !is_dir && !is_file && !is_symlink,
        },
{
    if is_dir {
        let create = if copy {
            Some(replace_str(entry, r.replace.as_str(), r.to.as_str()))
        } else {
            None
        };
        if str_equal(entry, folder) {
            return EntryStep::SkipSelf { create };
        }
        EntryStep::Folder { create }
    } else if is_file {
        EntryStep::File
    } else if is_symlink {
        EntryStep::Symlink
    } else {
        EntryStep::Unknown
    }
}

/// How to walk a site: gzip needs copying, and paths are moved from
/// `start_path` to `output`.
pub fn get_manifest(start_path: &str, output: &str, gzip: bool, copy: bool) -> (r: Result<Replace, String>)
    ensures
        match r {
            Ok(x) => !(gzip && !copy) && x.to@ == output@ && x.replace@ == start_path@,
            Err(e) => gzip && !copy && e@ == "gzip is not supported when copy is false"@,
        },
{
    if gzip && !copy {
        return Err(own("gzip is not supported when copy is false"));
    }
    Ok(Replace { to: own(output), replace: own(start_path) })
}

/// `nodes` are the manifest entries of the listed `entries`: each file's
/// path moved from `from` to `to`, its size as read once it was packed, the
/// hash of its source path, and whether it was gzipped; each subfolder moved
/// the same way, with its own entries and total size.
pub open spec fn manifested(nodes: Seq<PathType>, entries: Seq<Listed>, from: Seq<char>, to: Seq<char>, gzip: bool, copy: bool) -> bool
    decreases entries,
{
    if entries.len() == 0 {
        nodes.len() == 0
    } else {
        &&& nodes.len() == entries.len()
        &&& manifested(nodes.drop_last(), entries.drop_last(), from, to, gzip, copy)
        &&& match (nodes.last(), entries.last()) {
            (PathType::File(f), Listed::File { path: p, size }) => {
                &&& f.path@ == replace_all(p@, from, to)
                &&& f.size == size
                &&& f.hash@ == decimal(xxh3_of(encode_utf8(p@)) as nat)
                &&& f.gzip == gzips(p@, gzip, copy)
            },
            (PathType::Folder(d), Listed::Folder { path: p, entries: inner }) => {
                &&& d.path@ == replace_all(p@, from, to)
                &&& d.size == listed_total(inner@)
                &&& manifested(d.children@, inner@, from, to, gzip, copy)
            },
            _ => false,
        }
    }
}

/// The files listed under `entries`, at any depth, in walk order: each
/// one's source path and packed size.
pub open spec fn listed_files(entries: Seq<Listed>) -> Seq<(Seq<char>, u64)>
    decreases entries,
{
    if entries.len() == 0 {
        Seq::empty()
    } else {
        listed_files(entries.drop_last()) + match entries.last() {
            Listed::File { path: p, size } => seq![(p@, size)],
            Listed::Folder { entries: inner, .. } => listed_files(inner@),
        }
    }
}

/// Whether the manifest entry `f` records the listed file with source path
/// `p` and packed size `size`, packed with the options `gzip` and `copy`.
pub open spec fn records_listed(f: FileManifest, p: Seq<char>, size: u64, from: Seq<char>, to: Seq<char>, gzip: bool, copy: bool) -> bool {
    &&& f.path@ == replace_all(p, from, to)
    &&& f.size == size
    &&& f.hash@ == decimal(xxh3_of(encode_utf8(p)) as nat)
    &&& f.gzip == (gzip && copy && is_gzip_extension(lowered_extension(p)))
}

/// Whether each of the files `fs` records the listed file at its place.
pub open spec fn all_record_listed(fs: Seq<FileManifest>, ls: Seq<(Seq<char>, u64)>, from: Seq<char>, to: Seq<char>, gzip: bool, copy: bool) -> bool {
    &&& fs.len() == ls.len()
    &&& forall|i: int| 0 <= i < fs.len() ==> records_listed(#[trigger] fs[i], ls[i].0, ls[i].1, from, to, gzip, copy)
}

proof fn lemma_all_record_listed_append(
    a: Seq<FileManifest>, la: Seq<(Seq<char>, u64)>,
    b: Seq<FileManifest>, lb: Seq<(Seq<char>, u64)>,
    from: Seq<char>, to: Seq<char>, gzip: bool, copy: bool,
)
    requires
        all_record_listed(a, la, from, to, gzip, copy),
        all_record_listed(b, lb, from, to, gzip, copy),
    ensures
        all_record_listed(a + b, la + lb, from, to, gzip, copy),
{
    assert forall|i: int| 0 <= i < (a + b).len() implies records_listed(#[trigger] (a + b)[i], (la + lb)[i].0, (la + lb)[i].1, from, to, gzip, copy) by {
        if i < a.len() {
            assert((a + b)[i] == a[i]);
            assert((la + lb)[i] == la[i]);
        } else {
            assert((a + b)[i] == b[i - a.len()]);
            assert((la + lb)[i] == lb[i - a.len()]);
        }
    }
}

/// Every file of a packed manifest, at any depth and in walk order, is the
/// listed file at the same place: its source path moved from `from` to `to`,
/// its packed size, the hash of its source path, and gzipped exactly when
/// the whole walk gzips and copies and its extension is `html`, `css` or
/// `js` (in any case), in subfolders as at the top.
pub proof fn law_manifest_files_follow_listing(
    nodes: Seq<PathType>,
    entries: Seq<Listed>,
    from: Seq<char>,
    to: Seq<char>,
    gzip: bool,
    copy: bool,
)
    requires
        manifested(nodes, entries, from, to, gzip, copy),
    ensures
        all_record_listed(manifest_files(nodes), listed_files(entries), from, to, gzip, copy),
    decreases entries,
{
    if entries.len() > 0 {
        law_manifest_files_follow_listing(nodes.drop_last(), entries.drop_last(), from, to, gzip, copy);
        match (nodes.last(), entries.last()) {
            (PathType::Folder(d), Listed::Folder { path: p, entries: inner }) => {
                law_manifest_files_follow_listing(d.children@, inner@, from, to, gzip, copy);
                lemma_all_record_listed_append(
                    manifest_files(nodes.drop_last()), listed_files(entries.drop_last()),
                    manifest_files(d.children@), listed_files(inner@), from, to, gzip, copy);
            },
            (PathType::File(f), Listed::File { path: p, size }) => {
                assert(records_listed(seq![f][0], seq![(p@, size)][0].0, seq![(p@, size)][0].1, from, to, gzip, copy));
                lemma_all_record_listed_append(
                    manifest_files(nodes.drop_last()), listed_files(entries.drop_last()),
                    seq![f], seq![(p@, size)], from, to, gzip, copy);
            },
            _ => {},
        }
    } else {
        assert(manifest_files(nodes) =~= Seq::<FileManifest>::empty());
    }
}

/// The manifest of the folder `path` from what its walk packed and listed
/// (each file with the size read once it was packed): the folder moved as
/// `new_for` does, each file recorded as `get_file_manifest` does, each
/// subfolder recorded the same way, sizes summed. `None` when the total
/// size does not fit in 64 bits.
pub fn folder_manifest(listing: &Vec<Listed>, path: &str, r: &Replace, gzip: bool, copy: bool) -> (m: Option<FolderManifest>)
    ensures
        match m {
            Some(f) => {
                &&& f.path@ == replace_all(path@, r.replace@, r.to@)
                &&& f.size == listed_total(listing@)
                &&& manifested(f.children@, listing@, r.replace@, r.to@, gzip, copy)
            },
            None => listed_total(listing@) > u64::MAX,
        },
    decreases listing@,
{
    let mut folder = FolderManifest::new_for(path, r);
    let mut i: usize = 0;
    assert(listing@.take(0) =~= Seq::<Listed>::empty());
    while i < listing.len()
        invariant
            i <= listing@.len(),
            folder.path@ == replace_all(path@, r.replace@, r.to@),
            folder.size == listed_total(listing@.take(i as int)),
            manifested(folder.children@, listing@.take(i as int), r.replace@, r.to@, gzip, copy),
        decreases listing@.len() - i,
    {
        let ghost before = folder.children@;
        assert(listing@.take(i + 1).drop_last() =~= listing@.take(i as int));
        assert(listing@.take(i + 1).last() == listing@[i as int]);
        match &listing[i] {
            Listed::File { path: p, size } => {
                let f = get_file_manifest(p.as_str(), r, gzip, copy, *size);
                if folder.size > u64::MAX - *size {
                    proof {
                        lemma_listed_total_prefix(listing@, i + 1);
                    }
                    return None;
                }
                folder.add_child(PathType::File(f));
            },
            Listed::Folder { path: p, entries: inner } => {
                assert(decreases_to!(listing@ => listing@[i as int]));
                match folder_manifest(inner, p.as_str(), r, gzip, copy) {
                    None => {
                        proof {
                            lemma_listed_total_prefix(listing@, i + 1);
                        }
                        return None;
                    },
                    Some(child) => {
                        if folder.size > u64::MAX - child.size {
                            proof {
                                lemma_listed_total_prefix(listing@, i + 1);
                            }
                            return None;
                        }
                        folder.add_child(PathType::Folder(child));
                    },
                }
            },
        }
        assert(folder.children@.drop_last() =~= before);
        i = i + 1;
    }
    assert(listing@.take(listing@.len() as int) =~= listing@);
    Some(folder)
}

} // verus!
