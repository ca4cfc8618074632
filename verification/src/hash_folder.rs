//! Metadata about a directory tree: each file's size and path hash, each
//! folder's cumulative size.

use vstd::prelude::*;
use vstd::string::StringSliceAdditionalSpecFns;
use crate::manifest::{gzips, should_gzip};
use crate::paths::{join, join_of};
use crate::size_format::decimal;
use crate::text::{chars_of, own, replace_all, replace_str, string_of};
use crate::util::{path_hash, xxh3_of};
use vstd::utf8::encode_utf8;

verus! {

/// Metadata collected for a single file. The hash is the XXH3 hash of the
/// file's path, not of its contents.
pub struct FileInfo {
    pub path: String,
    pub size: u64,
    pub hash: String,
    pub gzip: bool,
}

/// A file or a folder of the tree.
pub enum PathType {
    File(FileInfo),
    Folder(FolderInfo),
}

/// Metadata collected for a folder: its children, and the cumulative size of
/// all the files they hold.
pub struct FolderInfo {
    pub path: String,
    pub children: Vec<PathType>,
    pub size: u64,
}

/// The size that a node adds to its folder.
pub open spec fn info_size(node: PathType) -> u64 {
    match node {
        PathType::File(f) => f.size,
        PathType::Folder(d) => d.size,
    }
}

/// `s` without its leading `/` characters.
pub open spec fn trim_leading_slashes(s: Seq<char>) -> Seq<char>
    decreases s.len(),
{
    if s.len() > 0 && s[0] == '/' {
        trim_leading_slashes(s.drop_first())
    } else {
        s
    }
}

/// Where an entry is recorded and where it is written: its path relative to
/// the main folder `main_path` (every occurrence of `main_path` removed), and
/// its path relative to the folder `path` being listed (every occurrence of
/// `path` removed, then leading `/` dropped) joined under `save_to`.
pub fn entry_paths(entry_path: &str, main_path: &str, path: &str, save_to: &str) -> (r: (String, String))
    ensures
        r.0@ == replace_all(entry_path@, main_path@, Seq::empty()),
        r.1@ == join_of(save_to@, trim_leading_slashes(replace_all(entry_path@, path@, Seq::empty()))),
{
    let recorded = replace_str(entry_path, main_path, "");
    let relative = replace_str(entry_path, path, "");
    proof {
        reveal_strlit("");
        assert(""@ =~= Seq::<char>::empty());
    }
    let v = chars_of(relative.as_str());
    let mut k: usize = 0;
    assert(v@.skip(0) =~= v@);
    while k < v.len() && v[k] == '/'
        invariant
            k <= v@.len(),
            trim_leading_slashes(v@) == trim_leading_slashes(v@.skip(k as int)),
        decreases v@.len() - k,
    {
        assert(v@.skip(k as int).drop_first() =~= v@.skip(k + 1));
        k = k + 1;
    }
    let mut rest: Vec<char> = Vec::new();
    let mut i = k;
    while i < v.len()
        invariant
            k <= i <= v@.len(),
            rest@ =~= v@.subrange(k as int, i as int),
        decreases v@.len() - i,
    {
        rest.push(v[i]);
        i = i + 1;
    }
    assert(rest@ =~= v@.skip(k as int));
    let trimmed = string_of(rest.as_slice());
    let out = join(save_to, trimmed.as_str());
    (recorded, out)
}

impl FileInfo {
    /// The record for the file at `entry_path`, stored under `relative`,
    /// holding `size` bytes, gzipped or not.
    pub fn new(relative: String, size: u64, entry_path: &str, gzip: bool) -> (r: FileInfo)
        ensures
            r.path == relative,
            r.size == size,
            r.hash@ == decimal(xxh3_of(entry_path.spec_bytes()) as nat),
            r.gzip == gzip,
    {
        FileInfo { path: relative, size, hash: path_hash(entry_path), gzip }
    }

}

impl FolderInfo {
    /// An empty record for a folder written to `save_to`.
    pub fn new(save_to: &str) -> (r: FolderInfo)
        ensures
            r.path@ == save_to@,
            r.children@.len() == 0,
            r.size == 0,
    {
        FolderInfo { path: own(save_to), children: Vec::new(), size: 0 }
    }

    /// Adds a child and its size to the folder.
    pub fn add(&mut self, child: PathType)
        requires
            old(self).size + info_size(child) <= u64::MAX,
        ensures
            final(self).path == old(self).path,
            final(self).children@ == old(self).children@.push(child),
            final(self).size == old(self).size + info_size(child),
    {
        let s = match &child {
            PathType::File(f) => f.size,
            PathType::Folder(d) => d.size,
        };
        self.size = self.size + s;
        self.children.push(child);
    }
}

/// The sum of the sizes of `nodes`.
pub open spec fn infos_size(nodes: Seq<PathType>) -> nat
    decreases nodes.len(),
{
    if nodes.len() == 0 { 0 } else { infos_size(nodes.drop_last()) + info_size(nodes.last()) as nat }
}

/// The total size of all the files under `nodes`, at any depth.
pub open spec fn files_total(nodes: Seq<PathType>) -> nat
    decreases nodes,
{
    if nodes.len() == 0 {
        0
    } else {
        files_total(nodes.drop_last()) + match nodes.last() {
            PathType::File(f) => f.size as nat,
            PathType::Folder(d) => files_total(d.children@),
        }
    }
}

/// Every folder in `nodes` records the sum of its children's sizes.
pub open spec fn infos_consistent(nodes: Seq<PathType>) -> bool
    decreases nodes,
{
    if nodes.len() == 0 {
        true
    } else {
        &&& infos_consistent(nodes.drop_last())
        &&& match nodes.last() {
            PathType::File(_) => true,
            PathType::Folder(d) => d.size == infos_size(d.children@) && infos_consistent(d.children@),
        }
    }
}

proof fn lemma_infos_size_is_files_total(nodes: Seq<PathType>)
    requires
        infos_consistent(nodes),
    ensures
        infos_size(nodes) == files_total(nodes),
    decreases nodes,
{
    if nodes.len() > 0 {
        lemma_infos_size_is_files_total(nodes.drop_last());
        match nodes.last() {
            PathType::File(_) => {},
            PathType::Folder(d) => {
                lemma_infos_size_is_files_total(d.children@);
            },
        }
    }
}

/// A folder whose folders each record the sum of their children's sizes has
/// as its size the cumulative size of all the files it contains; `add` keeps
/// a folder that way when the added child is.
pub proof fn law_folder_info_size_is_cumulative(before: FolderInfo, child: PathType, after: FolderInfo)
    requires
        before.size == infos_size(before.children@),
        infos_consistent(before.children@),
        match child {
            PathType::File(_) => true,
            PathType::Folder(d) => d.size == infos_size(d.children@) && infos_consistent(d.children@),
        },
        after.children@ == before.children@.push(child),
        after.size == before.size + info_size(child),
    ensures
        after.size == infos_size(after.children@),
        infos_consistent(after.children@),
        after.size == files_total(after.children@),
{
    assert(after.children@.drop_last() =~= before.children@);
    lemma_infos_size_is_files_total(after.children@);
}

/// Whether the file at `entry_path` is gzipped when hashing with `gzip` on:
/// the hasher always copies, so only the option and the extension count.
pub fn gzip_entry(entry_path: &str, gzip: bool) -> (r: bool)
    ensures
        r == gzips(entry_path@, gzip, true),
{
    should_gzip(entry_path, gzip, true)
}

/// What the hashing walk does with one entry of the folder it lists.
pub enum HashEntryStep {
    /// A symbolic link (whatever it points to): skipped with a warning.
    Symlink,
    /// A file: copy (or gzip) it and record it.
    File,
    /// A subfolder: create its output folder first when `create` is set
    /// (it does not exist yet), then hash it.
    Folder { create: bool },
    /// Anything else: skipped with a warning.
    Unknown,
}

/// Decides what the hashing walk does with an entry, given what kind of
/// entry the file system reports (`is_file` and `is_dir` as seen through a
/// link) and whether its output folder exists: symbolic links are skipped
/// first, then files are recorded, then folders walked.
pub fn classify_hash_entry(is_file: bool, is_dir: bool, is_symlink: bool, out_exists: bool) -> (s: HashEntryStep)
    ensures
        match s {
            HashEntryStep::Symlink => is_symlink,
            HashEntryStep::File => !is_symlink && is_file,
            HashEntryStep::Folder { create } => !is_symlink && !is_file && is_dir && create == !out_exists,
            HashEntryStep::Unknown => !is_symlink && !is_file && !is_dir,
        },
{
    if is_symlink {
        HashEntryStep::Symlink
    } else if is_file {
        HashEntryStep::File
    } else if is_dir {
        HashEntryStep::Folder { create: !out_exists }
    } else {
        HashEntryStep::Unknown
    }
}


/// What the walk of a folder found and packed: each regular file with its
/// full path and size, each subfolder with its full path and what it holds,
/// in listing order. Links and other entries are not listed.
pub enum Listed {
    File { path: String, size: u64 },
    Folder { path: String, entries: Vec<Listed> },
}

/// The total size of the files listed under `entries`, at any depth.
pub open spec fn listed_total(entries: Seq<Listed>) -> nat
    decreases entries,
{
    if entries.len() == 0 {
        0
    } else {
        listed_total(entries.drop_last()) + match entries.last() {
            Listed::File { size, .. } => size as nat,
            Listed::Folder { entries: inner, .. } => listed_total(inner@),
        }
    }
}

/// Where an entry found in the folder `path` is written: its path relative
/// to `path`, without leading `/`, joined under `save_to`.
pub open spec fn out_path(entry: Seq<char>, path: Seq<char>, save_to: Seq<char>) -> Seq<char> {
    join_of(save_to, trim_leading_slashes(replace_all(entry, path, Seq::empty())))
}

/// The record of the listed file `entry` holding `size` bytes: its path
/// relative to `main_path`, its size, the hash of its path, and whether it
/// was gzipped.
pub open spec fn file_recorded(f: FileInfo, entry: Seq<char>, size: u64, main_path: Seq<char>, gzip: bool) -> bool {
    &&& f.path@ == replace_all(entry, main_path, Seq::empty())
    &&& f.size == size
    &&& f.hash@ == decimal(xxh3_of(encode_utf8(entry)) as nat)
    &&& f.gzip == gzips(entry, gzip, true)
}

/// `nodes` are the records of the listed `entries` of the folder `path`
/// written under `save_to`: one record per entry, in order, each subfolder
/// written under its own output path with its own total size.
pub open spec fn hashed(nodes: Seq<PathType>, entries: Seq<Listed>, main_path: Seq<char>, path: Seq<char>, gzip: bool, save_to: Seq<char>) -> bool
    decreases entries,
{
    if entries.len() == 0 {
        nodes.len() == 0
    } else {
        &&& nodes.len() == entries.len()
        &&& hashed(nodes.drop_last(), entries.drop_last(), main_path, path, gzip, save_to)
        &&& match (nodes.last(), entries.last()) {
            (PathType::File(f), Listed::File { path: p, size }) => file_recorded(f, p@, size, main_path, gzip),
            (PathType::Folder(d), Listed::Folder { path: p, entries: inner }) => {
                &&& d.path@ == out_path(p@, path, save_to)
                &&& d.size == listed_total(inner@)
                &&& hashed(d.children@, inner@, main_path, p@, gzip, out_path(p@, path, save_to))
            },
            _ => false,
        }
    }
}

/// The size of a prefix of a listing is at most the size of the listing.
pub(crate) proof fn lemma_listed_total_prefix(entries: Seq<Listed>, k: int)
    requires
        0 <= k <= entries.len(),
    ensures
        listed_total(entries.take(k)) <= listed_total(entries),
    decreases entries.len(),
{
    if k == entries.len() {
        assert(entries.take(k) =~= entries);
    } else {
        assert(entries.drop_last().take(k) =~= entries.take(k));
        lemma_listed_total_prefix(entries.drop_last(), k);
    }
}

/// The record of the folder `path`, written under `save_to`, from what its
/// walk listed: each file recorded as `FileInfo::new` does (path relative to
/// `main_path`, size, path hash, gzipped or not), each subfolder recorded
/// the same way under its output path, sizes summed. `None` when the total
/// size does not fit in 64 bits.
pub fn hash(listing: &Vec<Listed>, main_path: &str, path: &str, gzip: bool, save_to: &str) -> (r: Option<FolderInfo>)
    ensures
        match r {
            Some(info) => {
                &&& info.path@ == save_to@
                &&& info.size == listed_total(listing@)
                &&& hashed(info.children@, listing@, main_path@, path@, gzip, save_to@)
            },
            None => listed_total(listing@) > u64::MAX,
        },
    decreases listing@,
{
    let mut info = FolderInfo::new(save_to);
    let mut i: usize = 0;
    assert(listing@.take(0) =~= Seq::<Listed>::empty());
    while i < listing.len()
        invariant
            i <= listing@.len(),
            info.path@ == save_to@,
            info.size == listed_total(listing@.take(i as int)),
            hashed(info.children@, listing@.take(i as int), main_path@, path@, gzip, save_to@),
        decreases listing@.len() - i,
    {
        let ghost before = info.children@;
        assert(listing@.take(i + 1).drop_last() =~= listing@.take(i as int));
        assert(listing@.take(i + 1).last() == listing@[i as int]);
        match &listing[i] {
            Listed::File { path: p, size } => {
                let (recorded, _) = entry_paths(p.as_str(), main_path, path, save_to);
                let g = gzip_entry(p.as_str(), gzip);
                let f = FileInfo::new(recorded, *size, p.as_str(), g);
                if info.size > u64::MAX - *size {
                    proof {
                        lemma_listed_total_prefix(listing@, i + 1);
                    }
                    return None;
                }
                info.add(PathType::File(f));
            },
            Listed::Folder { path: p, entries: inner } => {
                let (_, out) = entry_paths(p.as_str(), main_path, path, save_to);
                assert(decreases_to!(listing@ => listing@[i as int]));
                match hash(inner, main_path, p.as_str(), gzip, out.as_str()) {
                    None => {
                        proof {
                            lemma_listed_total_prefix(listing@, i + 1);
                        }
                        return None;
                    },
                    Some(child) => {
                        if info.size > u64::MAX - child.size {
                            proof {
                                lemma_listed_total_prefix(listing@, i + 1);
                            }
                            return None;
                        }
                        info.add(PathType::Folder(child));
                    },
                }
            },
        }
        assert(info.children@.drop_last() =~= before);
        i = i + 1;
    }
    assert(listing@.take(listing@.len() as int) =~= listing@);
    Some(info)
}

/// The files recorded under `nodes`, at any depth, in walk order: each
/// one's path, size, hash and whether it was gzipped.
pub open spec fn recorded_files(nodes: Seq<PathType>) -> Seq<(Seq<char>, u64, Seq<char>, bool)>
    decreases nodes,
{
    if nodes.len() == 0 {
        Seq::empty()
    } else {
        recorded_files(nodes.drop_last()) + match nodes.last() {
            PathType::File(f) => seq![(f.path@, f.size, f.hash@, f.gzip)],
            PathType::Folder(d) => recorded_files(d.children@),
        }
    }
}

/// What a walk records for the files listed under `entries`, computed from
/// their paths and sizes alone.
pub open spec fn listed_records(entries: Seq<Listed>, main_path: Seq<char>, gzip: bool) -> Seq<(Seq<char>, u64, Seq<char>, bool)>
    decreases entries,
{
    if entries.len() == 0 {
        Seq::empty()
    } else {
        listed_records(entries.drop_last(), main_path, gzip) + match entries.last() {
            Listed::File { path: p, size } => seq![(
                replace_all(p@, main_path, Seq::empty()),
                size,
                decimal(xxh3_of(encode_utf8(p@)) as nat),
                gzips(p@, gzip, true),
            )],
            Listed::Folder { entries: inner, .. } => listed_records(inner@, main_path, gzip),
        }
    }
}

/// What `hash` records depends on the paths and sizes of the listed files
/// only, never on what the files hold: every file's record, in walk order,
/// is `listed_records` of the listing (its hash is that of its path).
pub proof fn law_hash_records_depend_on_paths_and_sizes(
    nodes: Seq<PathType>,
    entries: Seq<Listed>,
    main_path: Seq<char>,
    path: Seq<char>,
    gzip: bool,
    save_to: Seq<char>,
)
    requires
        hashed(nodes, entries, main_path, path, gzip, save_to),
    ensures
        recorded_files(nodes) == listed_records(entries, main_path, gzip),
    decreases entries,
{
    if entries.len() > 0 {
        law_hash_records_depend_on_paths_and_sizes(nodes.drop_last(), entries.drop_last(), main_path, path, gzip, save_to);
        match (nodes.last(), entries.last()) {
            (PathType::Folder(d), Listed::Folder { path: p, entries: inner }) => {
                law_hash_records_depend_on_paths_and_sizes(d.children@, inner@, main_path, p@, gzip, out_path(p@, path, save_to));
            },
            _ => {},
        }
    }
}

} // verus!
