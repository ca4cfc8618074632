use cask::archive::{archive_name_of, gzip_file, gzip_paths_check, zip_dir};
use std::io::{Cursor, Read};

#[test]
fn gzip_stream_round_trips() {
    let data = b"<html><body>hello hello hello hello</body></html>".to_vec();
    let gz = gzip_file(&data);
    assert_ne!(gz, data);
    assert_eq!(&gz[0..2], &[0x1f, 0x8b]);
    assert_eq!(&gz[4..8], &[0, 0, 0, 0]);
    assert_eq!(gz[9], 255);
    let mut out = Vec::new();
    flate2::read::GzDecoder::new(gz.as_slice()).read_to_end(&mut out).unwrap();
    assert_eq!(out, data);
    assert_eq!(gzip_file(&data), gz);
}

#[test]
fn gzip_path_checks() {
    assert_eq!(gzip_paths_check("/a/x.html", "/b/x.html", true, true, true), Ok(()));
    assert_eq!(
        gzip_paths_check("/a/x.html", "/b/x.html", false, true, true),
        Err("unable to zip /a/x.html is not a file or it do not exists.".to_string())
    );
    assert_eq!(
        gzip_paths_check("/a/x.html", "/b/x.html", true, false, false),
        Err("unable to zip /a/x.html is not a file or it do not exists.".to_string())
    );
    assert_eq!(
        gzip_paths_check("/a/x.html", "/b/x.html", true, true, false),
        Err("Output directory for gzip does not exist: /b/x.html".to_string())
    );
}

#[test]
fn names_inside_the_archive() {
    assert_eq!(archive_name_of("/tmp/site/css/a.css", "/tmp/site"), Some("css/a.css".to_string()));
    assert_eq!(archive_name_of("/tmp/site/css/a.css", "/tmp/site/"), Some("css/a.css".to_string()));
    assert_eq!(archive_name_of("site/css\\a.css", "site"), Some("css/a.css".to_string()));
    assert_eq!(archive_name_of("/other/a.css", "/tmp/site"), None);
    assert_eq!(archive_name_of("/t", "/tmp"), None);
}

#[test]
fn zip_of_a_folder() {
    let files = vec![
        ("/s/index.html".to_string(), b"<p>hi</p>".to_vec()),
        ("/s/css/a.css".to_string(), b"body{}".to_vec()),
    ];
    let bytes = zip_dir(&files, "/s").unwrap();
    let mut archive = zip::ZipArchive::new(Cursor::new(bytes.clone())).unwrap();
    assert_eq!(archive.len(), 2);
    let mut content = String::new();
    archive.by_name("css/a.css").unwrap().read_to_string(&mut content).unwrap();
    assert_eq!(content, "body{}");
    let mut index = String::new();
    archive.by_name("index.html").unwrap().read_to_string(&mut index).unwrap();
    assert_eq!(index, "<p>hi</p>");
    assert_eq!(zip_dir(&files, "/s").unwrap(), bytes);
}

#[test]
fn zip_refusals() {
    let outside = vec![("/x/a".to_string(), vec![1u8])];
    assert_eq!(zip_dir(&outside, "/s"), None);
    let twice = vec![("/s/a/b".to_string(), vec![1u8]), ("/s/a\\b".to_string(), vec![2u8])];
    assert_eq!(zip_dir(&twice, "/s"), None);
    assert!(zip_dir(&Vec::new(), "/s").is_some());
}
