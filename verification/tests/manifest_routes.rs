use cask::dev_serve::see_changes;
use cask::file::File;
use cask::hash_folder::Listed;
use cask::manifest::{
    folder_manifest, classify_entry, file_action, get_file_manifest, get_manifest, should_gzip, EntryStep, FileAction,
    FileManifest, FolderManifest, PathType, Replace,
};
use cask::routes::{extract_name, Routes};
use cask::util::path_hash;

fn fm(path: &str, size: u64, gzip: bool) -> PathType {
    PathType::File(FileManifest { path: path.to_string(), size, hash: format!("h{size}"), gzip })
}

fn folder(path: &str, children: Vec<PathType>) -> FolderManifest {
    let mut f = FolderManifest { path: path.to_string(), children: Vec::new(), size: 0 };
    for c in children {
        f.add_child(c);
    }
    f
}

fn site(root: &str) -> FolderManifest {
    folder(
        root,
        vec![
            fm(&format!("{root}/index.html"), 100, true),
            PathType::Folder(folder(
                &format!("{root}/_app"),
                vec![fm(&format!("{root}/_app/app.js"), 200, true), fm(&format!("{root}/_app/logo.png"), 50, false)],
            )),
            fm(&format!("{root}/robots.txt"), 10, false),
        ],
    )
}

fn paths(files: &[File]) -> Vec<String> {
    files.iter().map(|f| f.path.clone()).collect()
}

#[test]
fn folder_sizes_add_up() {
    let s = site("/www");
    assert_eq!(s.size, 360);
    match &s.children[1] {
        PathType::Folder(d) => assert_eq!(d.size, 250),
        _ => panic!("expected folder"),
    }
}

#[test]
fn files_in_walk_order() {
    let s = site("/www");
    let files = s.files();
    assert_eq!(paths(&files), vec!["/www/index.html", "/www/_app/app.js", "/www/_app/logo.png", "/www/robots.txt"]);
    assert_eq!(files.iter().map(|f| f.size).collect::<Vec<_>>(), vec![100, 200, 50, 10]);
}

#[test]
fn files_to_map_keys_by_path() {
    let s = site("/www");
    let m = s.files_to_map();
    assert_eq!(m.len(), 4);
    let f = m.get("/www/_app/app.js").unwrap();
    assert_eq!(f.size, 200);
    assert!(m.get("/www/missing").is_none());
}

#[test]
fn replace_path_moves_every_path() {
    let mut s = site("/home/dan/www");
    s.replace_path("/srv/out/");
    assert_eq!(s.path, "/srv/out");
    assert_eq!(s.size, 360);
    let files = s.files();
    assert_eq!(paths(&files), vec!["/srv/out/index.html", "/srv/out/_app/app.js", "/srv/out/_app/logo.png", "/srv/out/robots.txt"]);
    match &s.children[1] {
        PathType::Folder(d) => assert_eq!(d.path, "/srv/out/_app"),
        _ => panic!("expected folder"),
    }
    match &s.children[0] {
        PathType::File(f) => {
            assert_eq!(f.hash, "h100");
            assert!(f.gzip);
        }
        _ => panic!("expected file"),
    }
}

#[test]
fn replace_path_strips_one_slash_per_level() {
    let mut s = site("/w");
    s.replace_path("/o//");
    assert_eq!(s.path, "/o/");
    let files = s.files();
    assert_eq!(paths(&files), vec!["/o//index.html", "/o/_app/app.js", "/o/_app/logo.png", "/o//robots.txt"]);
}

#[test]
fn routes_of_a_site() {
    let s = site("/www");
    let (routes, files) = Routes::make_folder_route(&s, "/www");
    assert_eq!(paths(&files).len(), 4);
    assert_eq!(routes.len(), 4);
    let r = Routes { routes };
    let idx = r.get("index.html").unwrap();
    assert_eq!(idx.size, 100);
    assert!(idx.gzip);
    assert_eq!(idx.file.path, "/www/index.html");
    assert_eq!(r.get("/_app/app.js").unwrap().size, 200);
    assert!(r.get("_app/missing.js").is_none());
    assert_eq!(r.route_for_request("").unwrap().file.path, "/www/index.html");
    assert_eq!(r.route_for_request("/").unwrap().file.path, "/www/index.html");
    assert_eq!(r.route_for_request("robots.txt").unwrap().size, 10);
}

#[test]
fn first_build_extracts_every_route() {
    let s = site("/www");
    let (routes, new_files, deleting) = Routes::build(&s, None);
    assert_eq!(routes.len(), 4);
    let mut nf = new_files.clone();
    nf.sort();
    assert_eq!(nf, vec!["/_app/app.js", "/_app/logo.png", "/index.html", "/robots.txt"]);
    assert!(deleting.is_none());
}

#[test]
fn rebuild_of_same_site_extracts_nothing() {
    let s = site("/www");
    let last = site("/www");
    let (_, new_files, deleting) = Routes::build(&s, Some(&last));
    assert!(new_files.is_empty());
    assert_eq!(deleting, Some(vec![]));
}

#[test]
fn rebuild_finds_changed_new_and_removed_files() {
    let new = folder(
        "/www",
        vec![fm("/www/index.html", 101, true), fm("/www/new.css", 5, true), fm("/www/robots.txt", 10, false)],
    );
    let last = site("/www");
    let (_, new_files, deleting) = Routes::build(&new, Some(&last));
    let mut nf = new_files.clone();
    nf.sort();
    assert_eq!(nf, vec!["/index.html", "/new.css"]);
    assert_eq!(deleting, Some(vec!["/www/_app/app.js".to_string(), "/www/_app/logo.png".to_string()]));
}

#[test]
fn rebuild_with_moved_root_sees_path_changes() {
    let new = site("/srv");
    let last = site("/www");
    let (_, new_files, deleting) = Routes::build(&new, Some(&last));
    assert_eq!(new_files.len(), 4);
    assert_eq!(deleting.unwrap().len(), 4);
}

#[test]
fn archive_names() {
    assert_eq!(extract_name("/srv/out/_app/a.js", "/srv/out"), "_app/a.js");
    assert_eq!(extract_name("/index.html", "/srv/out"), "index.html");
    assert_eq!(extract_name("rel.txt", "/srv"), "rel.txt");
}

#[test]
fn changes_against_last_manifest() {
    let new = folder(
        "/w",
        vec![
            fm("/w/index.html", 100, false),
            fm("/w/??cask_manifest-o-??.json", 7, false),
            fm("/w/b.css", 3, false),
            fm("/w/c.js", 9, false),
        ],
    );
    let last = folder("/w", vec![fm("/w/index.html", 100, false), fm("/w/b.css", 4, false)]);
    assert_eq!(see_changes(&new, Some(&last)), vec!["/w/b.css", "/w/c.js"]);
    assert_eq!(see_changes(&new, None).len(), 4);
    let same = folder("/w", vec![fm("/w/index.html", 100, false), fm("/w/b.css", 3, false)]);
    let again = folder("/w", vec![fm("/w/index.html", 100, false), fm("/w/b.css", 3, false)]);
    assert!(see_changes(&same, Some(&again)).is_empty());
}

#[test]
fn file_names_and_equality() {
    let a = File::new("/w/dir/app.js".to_string(), 3);
    assert_eq!(a.name(), "app.js");
    assert_eq!(File::new("plain".to_string(), 0).name(), "plain");
    assert_eq!(File::new("dir/".to_string(), 0).name(), "");
    assert!(a.is_equal(&File::new("/w/dir/app.js".to_string(), 3)));
    assert!(!a.is_equal(&File::new("/w/dir/app.js".to_string(), 4)));
    assert!(!a.is_equal(&File::new("/w/app.js".to_string(), 3)));
}

#[test]
fn packing_actions() {
    let r = Replace { to: "/tmp/x".to_string(), replace: "/site".to_string() };
    assert!(should_gzip("/site/index.HTML", true, true));
    assert!(!should_gzip("/site/index.html", true, false));
    assert!(!should_gzip("/site/logo.png", true, true));
    assert!(!should_gzip("/site/index.html", false, true));
    match file_action("/site/a.css", &r, true, true) {
        FileAction::Gzip { from, to } => {
            assert_eq!(from, "/site/a.css");
            assert_eq!(to, "/tmp/x/a.css");
        }
        _ => panic!("expected gzip"),
    }
    match file_action("/site/a.png", &r, true, true) {
        FileAction::Copy { from, to } => {
            assert_eq!(from, "/site/a.png");
            assert_eq!(to, "/tmp/x/a.png");
        }
        _ => panic!("expected copy"),
    }
    assert!(matches!(file_action("/site/a.css", &r, false, false), FileAction::Keep));
    let m = get_file_manifest("/site/a.css", &r, true, true, 77);
    assert_eq!(m.path, "/tmp/x/a.css");
    assert_eq!(m.size, 77);
    assert!(m.gzip);
    assert_eq!(m.hash, xxhash_rust::xxh3::xxh3_64("/site/a.css".as_bytes()).to_string());
    assert_eq!(m.hash, path_hash("/site/a.css"));
}

#[test]
fn walk_plan() {
    let r = Replace { to: "/tmp/x".to_string(), replace: "/site".to_string() };
    match classify_entry("/site", "/site", &r, true, true, false, false) {
        EntryStep::SkipSelf { create: Some(p) } => assert_eq!(p, "/tmp/x"),
        _ => panic!("expected the folder itself"),
    }
    assert!(matches!(classify_entry("/site", "/site", &r, false, true, false, false), EntryStep::SkipSelf { create: None }));
    match classify_entry("/site/sub", "/site", &r, true, true, false, false) {
        EntryStep::Folder { create: Some(p) } => assert_eq!(p, "/tmp/x/sub"),
        _ => panic!("expected folder to create"),
    }
    assert!(matches!(classify_entry("/site/sub", "/site", &r, false, true, false, false), EntryStep::Folder { create: None }));
    assert!(matches!(classify_entry("/site/f", "/site", &r, true, false, true, false), EntryStep::File));
    assert!(matches!(classify_entry("/site/l", "/site", &r, true, false, false, true), EntryStep::Symlink));
    assert!(matches!(classify_entry("/site/u", "/site", &r, true, false, false, false), EntryStep::Unknown));
    let empty = FolderManifest::new_for("/site/sub", &r);
    assert_eq!(empty.path, "/tmp/x/sub");
    assert_eq!(empty.size, 0);
}

#[test]
fn manifest_plan_needs_copy_for_gzip() {
    assert_eq!(get_manifest("/site", "/out", true, false).err(), Some("gzip is not supported when copy is false".to_string()));
    let r = get_manifest("/site", "/out", true, true).ok().unwrap();
    assert_eq!(r.to, "/out");
    assert_eq!(r.replace, "/site");
    assert!(get_manifest("/site", "/site", false, false).is_ok());
}

#[test]
fn table_insert_then_lookup() {
    let mut m: cask::path_map::PathMap<File> = cask::path_map::PathMap::new();
    m.insert("/a".to_string(), File::new("/a".to_string(), 1));
    m.insert("/b".to_string(), File::new("/b".to_string(), 2));
    m.insert("/a".to_string(), File::new("/a".to_string(), 3));
    assert_eq!(m.len(), 2);
    assert_eq!(m.get("/a").unwrap().size, 3);
    assert_eq!(m.get("/b").unwrap().size, 2);
    assert_eq!(m.key(0), "/a");
    assert_eq!(m.value(1).size, 2);
}

#[test]
fn web_files_are_gzipped() {
    for p in ["/s/a.html", "/s/b.css", "/s/c.js", "/s/d.JS"] {
        assert!(should_gzip(p, true, true), "{p}");
    }
}

#[test]
fn replace_path_twice_changes_nothing_more() {
    let mut s = site("/home/dan/www");
    s.replace_path("/srv/out/");
    let once_path = s.path.clone();
    let once_files = paths(&s.files());
    s.replace_path("/srv/out/");
    assert_eq!(s.path, once_path);
    assert_eq!(paths(&s.files()), once_files);
    assert_eq!(s.size, 360);
}

#[test]
fn files_to_map_keeps_last_file_of_a_path() {
    let s = folder(
        "/w",
        vec![fm("/w/a.txt", 1, false), fm("/w/b.txt", 2, false), fm("/w/a.txt", 3, false)],
    );
    let m = s.files_to_map();
    assert_eq!(m.len(), 2);
    assert_eq!(m.get("/w/a.txt").unwrap().size, 3);
    assert_eq!(m.get("/w/b.txt").unwrap().size, 2);
    assert!(m.get("/w/c.txt").is_none());
}

#[test]
fn upper_case_web_extensions_are_gzipped() {
    assert!(should_gzip("/s/index.HTML", true, true));
    assert!(should_gzip("/s/site.Css", true, true));
    assert!(!should_gzip("/s/logo.PNG", true, true));
    assert!(!should_gzip("/s/index.HTML", false, true));
}

#[test]
fn manifest_of_a_listed_tree() {
    let r = Replace { to: "/out".to_string(), replace: "/src".to_string() };
    let listing = vec![
        Listed::File { path: "/src/index.html".to_string(), size: 40 },
        Listed::Folder {
            path: "/src/img".to_string(),
            entries: vec![Listed::File { path: "/src/img/a.png".to_string(), size: 7 }],
        },
    ];
    let m = folder_manifest(&listing, "/src", &r, true, true).unwrap();
    assert_eq!(m.path, "/out");
    assert_eq!(m.size, 47);
    match &m.children[0] {
        PathType::File(f) => {
            assert_eq!(f.path, "/out/index.html");
            assert_eq!(f.size, 40);
            assert_eq!(f.hash, path_hash("/src/index.html"));
            assert!(f.gzip);
        }
        _ => panic!("expected a file"),
    }
    match &m.children[1] {
        PathType::Folder(d) => {
            assert_eq!(d.path, "/out/img");
            assert_eq!(d.size, 7);
            assert_eq!(d.children.len(), 1);
        }
        _ => panic!("expected a folder"),
    }
    let too_big = vec![
        Listed::File { path: "/src/a".to_string(), size: u64::MAX },
        Listed::File { path: "/src/b".to_string(), size: 1 },
    ];
    assert!(folder_manifest(&too_big, "/src", &r, false, false).is_none());
}
