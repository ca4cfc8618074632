//! Compressing packed files: one file's bytes into a gzip stream, and a
//! folder's files into a zip archive whose entries are named relative to the
//! folder.

use vstd::prelude::*;
use crate::hash_folder::trim_leading_slashes;
use crate::path_map::str_equal;
use crate::paths::parent_of;
use crate::text::{cat, chars_of, replace_all, replace_chars, string_of};
use flate2::write::GzEncoder;
use flate2::Compression;
use std::io::Write;
use zip::write::SimpleFileOptions;
use zip::{CompressionMethod, ZipWriter};

verus! {

/// The gzip stream that flate2's `GzEncoder` writes at its fast level for
/// `data` (header with time 0 and no name, then the deflated bytes and the
/// trailer).
pub uninterp spec fn gzip_fast_of(data: Seq<u8>) -> Seq<u8>;

/// The zip archive that the zip crate's `ZipWriter` writes when given these
/// entries in order, each as a deflated file with default options.
pub uninterp spec fn zip_archive_of(entries: Seq<(Seq<char>, Seq<u8>)>) -> Seq<u8>;

/// Compresses `data` with flate2's `GzEncoder` at `Compression::fast()`.
/// Claimed: the result is `gzip_fast_of(data)`; writing into a vector and
/// finishing it cannot fail.
#[verifier::external_body]
fn gzip_fast(data: &[u8]) -> (r: Vec<u8>)
    ensures
        r@ == gzip_fast_of(data@),
{
    let mut encoder = GzEncoder::new(Vec::new(), Compression::fast());
    encoder.write_all(data).unwrap();
    encoder.finish().unwrap()
}

/// Writes a zip archive in memory with the zip crate's `ZipWriter`: for each
/// `i`, an entry named `names[i]` holding `files[i].1`, deflated, with default
/// options. Claimed: when the crate reports no error the archive is
/// `zip_archive_of` of those entries. Left unsaid: when the crate refuses (it
/// does for a name given twice and for an entry too large without the
/// large-file option).
#[verifier::external_body]
fn zip_deflated(names: &Vec<String>, files: &Vec<(String, Vec<u8>)>) -> (r: Option<Vec<u8>>)
    requires
        names@.len() == files@.len(),
    ensures
        r matches Some(b) ==> b@ == zip_archive_of(Seq::new(names@.len(), |i: int| (names@[i]@, files@[i].1@))),
{
    let mut zip = ZipWriter::new(std::io::Cursor::new(Vec::new()));
    let options = SimpleFileOptions::default().compression_method(CompressionMethod::Deflated);
    for (name, file) in names.iter().zip(files.iter()) {
        zip.start_file(name.as_str(), options).ok()?;
        zip.write_all(&file.1).ok()?;
    }
    zip.finish().ok().map(|c| c.into_inner())
}

/// The bytes written for a file holding `data` when it is gzipped for
/// packing: its gzip stream at the fast level.
pub fn gzip_file(data: &[u8]) -> (r: Vec<u8>)
    ensures
        r@ == gzip_fast_of(data@),
{
    gzip_fast(data)
}

/// Checks that a file can be gzipped from `from` to `to`, given whether
/// `from` is a file, whether it exists and whether the folder holding `to`
/// is a directory; the error is the message shown.
pub fn gzip_paths_check(from: &str, to: &str, from_is_file: bool, from_exists: bool, to_parent_is_dir: bool) -> (r: Result<(), String>)
    requires
        parent_of(to@) is Some,
    ensures
        match r {
            Ok(()) => from_is_file && from_exists && to_parent_is_dir,
            Err(e) => if !from_is_file || !from_exists {
                e@ == "unable to zip "@ + from@ + " is not a file or it do not exists."@
            } else {
                !to_parent_is_dir && e@ == "Output directory for gzip does not exist: "@ + to@
            },
        },
{
    if !from_is_file || !from_exists {
        let head = cat("unable to zip ", from);
        return Err(cat(head.as_str(), " is not a file or it do not exists."));
    }
    if !to_parent_is_dir {
        return Err(cat("Output directory for gzip does not exist: ", to));
    }
    Ok(())
}

/// Whether `path` starts with the text of the folder `dir`.
pub open spec fn under(path: Seq<char>, dir: Seq<char>) -> bool {
    dir.len() <= path.len() && path.take(dir.len() as int) == dir
}

/// The name inside the archive of the file at `path` under the folder
/// `dir`: the folder removed, then leading `/` dropped, with every `\`
/// turned into `/`.
pub open spec fn archive_name(path: Seq<char>, dir: Seq<char>) -> Seq<char> {
    replace_all(trim_leading_slashes(path.skip(dir.len() as int)), seq!['\\'], seq!['/'])
}

/// The entries of the archive of the files `files` (path and bytes) found
/// under `dir`.
pub open spec fn archive_entries(files: Seq<(Seq<char>, Seq<u8>)>, dir: Seq<char>) -> Seq<(Seq<char>, Seq<u8>)> {
    Seq::new(files.len(), |i: int| (archive_name(files[i].0, dir), files[i].1))
}

/// No two entries have the same name.
pub open spec fn names_distinct(entries: Seq<(Seq<char>, Seq<u8>)>) -> bool {
    forall|i: int, j: int| 0 <= i < j < entries.len() ==> entries[i].0 != entries[j].0
}

/// Every file lies under `dir`.
pub open spec fn all_under(files: Seq<(Seq<char>, Seq<u8>)>, dir: Seq<char>) -> bool {
    forall|i: int| 0 <= i < files.len() ==> under(#[trigger] files[i].0, dir)
}

/// The files as path and bytes.
pub open spec fn file_pairs(files: Seq<(String, Vec<u8>)>) -> Seq<(Seq<char>, Seq<u8>)> {
    files.map_values(|f: (String, Vec<u8>)| (f.0@, f.1@))
}

/// The name inside the archive of the file at `path` under the folder
/// `dir`; `None` when `path` does not start with `dir`.
pub fn archive_name_of(path: &str, dir: &str) -> (r: Option<String>)
    ensures
        match r {
            Some(n) => under(path@, dir@) && n@ == archive_name(path@, dir@),
            None => !under(path@, dir@),
        },
{
    let p = chars_of(path);
    let d = chars_of(dir);
    if d.len() > p.len() {
        return None;
    }
    let mut i: usize = 0;
    while i < d.len()
        invariant
            i <= d@.len() <= p@.len(),
            p@ == path@,
            d@ == dir@,
            forall|j: int| 0 <= j < i ==> p@[j] == d@[j],
        decreases d@.len() - i,
    {
        if p[i] != d[i] {
            proof {
                assert(p@.take(d@.len() as int)[i as int] != d@[i as int]);
                assert(p@.take(d@.len() as int) != d@);
            }
            return None;
        }
        i = i + 1;
    }
    assert(p@.take(d@.len() as int) =~= d@);
    let mut k: usize = d.len();
    assert(p@.skip(d@.len() as int).skip(0) =~= p@.skip(d@.len() as int));
    while k < p.len() && p[k] == '/'
        invariant
            d@.len() <= k <= p@.len(),
            trim_leading_slashes(p@.skip(d@.len() as int)) == trim_leading_slashes(p@.skip(k as int)),
        decreases p@.len() - k,
    {
        assert(p@.skip(k as int).drop_first() =~= p@.skip(k + 1));
        k = k + 1;
    }
    proof {
        if k < p@.len() {
            assert(p@.skip(k as int)[0] != '/');
        }
    }
    let mut rest: Vec<char> = Vec::new();
    let mut m = k;
    while m < p.len()
        invariant
            k <= m <= p@.len(),
            rest@ =~= p@.subrange(k as int, m as int),
        decreases p@.len() - m,
    {
        rest.push(p[m]);
        m = m + 1;
    }
    assert(rest@ =~= p@.skip(k as int));
    assert(trim_leading_slashes(p@.skip(k as int)) == p@.skip(k as int));
    let mut from: Vec<char> = Vec::new();
    from.push('\\');
    let mut to: Vec<char> = Vec::new();
    to.push('/');
    assert(from@ =~= seq!['\\']);
    assert(to@ =~= seq!['/']);
    let named = replace_chars(&rest, &from, &to);
    Some(string_of(named.as_slice()))
}

/// The zip archive of the folder `input_dir` holding `files` (each file's
/// path and bytes, in walk order): each file becomes a deflated entry named
/// by `archive_name`. `None` when a file lies outside the folder, when two
/// files get the same name, or when the zip crate refuses the entries.
pub fn zip_dir(files: &Vec<(String, Vec<u8>)>, input_dir: &str) -> (r: Option<Vec<u8>>)
    ensures
        !all_under(file_pairs(files@), input_dir@) ==> r is None,
        all_under(file_pairs(files@), input_dir@) && !names_distinct(archive_entries(file_pairs(files@), input_dir@))
            ==> r is None,
        r matches Some(b) ==> {
            &&& all_under(file_pairs(files@), input_dir@)
            &&& names_distinct(archive_entries(file_pairs(files@), input_dir@))
            &&& b@ == zip_archive_of(archive_entries(file_pairs(files@), input_dir@))
        },
{
    let ghost fs = file_pairs(files@);
    let ghost es = archive_entries(fs, input_dir@);
    let mut names: Vec<String> = Vec::new();
    let mut i: usize = 0;
    while i < files.len()
        invariant
            i <= files@.len(),
            fs == file_pairs(files@),
            es == archive_entries(fs, input_dir@),
            names@.len() == i,
            forall|j: int| 0 <= j < i ==> under(#[trigger] fs[j].0, input_dir@),
            forall|j: int| 0 <= j < i ==> (#[trigger] names@[j])@ == es[j].0,
        decreases files@.len() - i,
    {
        match archive_name_of(files[i].0.as_str(), input_dir) {
            Some(n) => names.push(n),
            None => {
                assert(!under(fs[i as int].0, input_dir@));
                return None;
            },
        }
        i = i + 1;
    }
    assert(all_under(fs, input_dir@));
    let mut a: usize = 0;
    while a < names.len()
        invariant
            a <= names@.len() == es.len(),
            forall|j: int| 0 <= j < names@.len() ==> (#[trigger] names@[j])@ == es[j].0,
            forall|x: int, y: int| 0 <= x < a && x < y < es.len() ==> es[x].0 != es[y].0,
        decreases names@.len() - a,
    {
        let mut b: usize = a + 1;
        while b < names.len()
            invariant
                a < names@.len() == es.len(),
                a + 1 <= b <= names@.len(),
                forall|j: int| 0 <= j < names@.len() ==> (#[trigger] names@[j])@ == es[j].0,
                forall|y: int| a < y < b ==> es[a as int].0 != #[trigger] es[y].0,
            decreases names@.len() - b,
        {
            if str_equal(names[a].as_str(), names[b].as_str()) {
                assert(es[a as int].0 == es[b as int].0);
                return None;
            }
            b = b + 1;
        }
        a = a + 1;
    }
    assert(names_distinct(es));
    let r = zip_deflated(&names, files);
    proof {
        assert(Seq::new(names@.len(), |k: int| (names@[k]@, files@[k].1@)) =~= es);
    }
    r
}

} // verus!
