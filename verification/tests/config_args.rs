use cask::args::{output_parent, validate_input, validate_output};
use cask::builder_config::{overwrite_answer, BuilderArgError, BuilderRunConfig, OutputStep};
use cask::hash_folder::{classify_hash_entry, entry_paths, gzip_entry, hash, FileInfo, FolderInfo, HashEntryStep, Listed, PathType};
use cask::run_mode::{parse, RunCommand};
use cask::server_config::{
    cache_mode_from, check_output_dir, check_port, counter_reset_multiplier, counter_reset_seconds, default_counter_reset, default_fallback,
    default_max_memory_of, default_mode, default_port, memory_unit_multiplier, parse_cache_mode,
    split_memory_setting, split_number_unit, validate_config, ServerCacheMode,
};
use cask::util::{generate_random_string, generate_temp_dir};

fn strings(v: &[&str]) -> Vec<String> {
    v.iter().map(|s| s.to_string()).collect()
}

#[test]
fn input_checks() {
    assert_eq!(validate_input("/site", true, true), Ok("/site".to_string()));
    assert_eq!(validate_input("/site", true, false), Err("Input must be a directory: /site".to_string()));
    assert_eq!(validate_input("/site", false, false), Err("Input does not exist: /site".to_string()));
}

#[test]
fn output_checks() {
    assert_eq!(output_parent("dir/out.run"), Some("dir".to_string()));
    assert_eq!(output_parent("out.run"), Some(".".to_string()));
    assert_eq!(output_parent("/"), None);
    assert_eq!(validate_output("dir/out.run", false, false, true), Ok("dir/out.run".to_string()));
    assert_eq!(validate_output("dir/out.run", true, true, true), Err("Output must be a file: dir/out.run".to_string()));
    assert_eq!(validate_output("/", true, true, false), Err("Output must be a file: /".to_string()));
    assert_eq!(
        validate_output("dir/out.run", true, false, false),
        Err("Output parent directory does not exist: \"dir\"".to_string())
    );
    assert_eq!(
        validate_output("out.run", false, false, false),
        Err("Output parent directory does not exist: \"\"".to_string())
    );
}

#[test]
fn builder_arguments() {
    let (c, unknown) = BuilderRunConfig::parse(&strings(&["--folder", "site", "--output", "o.run", "--no-gzip", "--weird", "--overwrite"])).ok().unwrap();
    assert_eq!(c.input_path, "site");
    assert_eq!(c.output_path, "o.run");
    assert!(!c.use_gzip);
    assert!(c.overwrite);
    assert_eq!(unknown, vec!["--weird"]);
    let (d, none) = BuilderRunConfig::parse(&strings(&[])).ok().unwrap();
    assert_eq!(d.input_path, "");
    assert!(d.use_gzip);
    assert!(!d.overwrite);
    assert!(none.is_empty());
}

#[test]
fn builder_argument_errors() {
    let e = BuilderRunConfig::parse(&strings(&["--folder", "--output", "x"])).err().unwrap();
    assert!(matches!(e, BuilderArgError::MissingFolderPath));
    assert_eq!(e.message(), "path is required after --folder.");
    let e = BuilderRunConfig::parse(&strings(&["--output", "--no-gzip"])).err().unwrap();
    assert!(matches!(e, BuilderArgError::MissingOutputPath));
    assert_eq!(e.message(), "path is required after --output.");
    let e = BuilderRunConfig::parse(&strings(&["site"])).err().unwrap();
    assert_eq!(e.message(), "Unexpected value: site");
    let (c, _) = BuilderRunConfig::parse(&strings(&["--folder"])).ok().unwrap();
    assert_eq!(c.input_path, "");
}

#[test]
fn builder_paths() {
    let mut c = BuilderRunConfig { input_path: "/site".to_string(), output_path: String::new(), use_gzip: true, overwrite: false };
    assert_eq!(c.validate_input_dir_path(true, true), Ok(()));
    assert_eq!(c.validate_input_dir_path(false, false), Err("the specified input path does not exist: /site".to_string()));
    assert_eq!(c.validate_input_dir_path(true, false), Err("The specified input path is not a directory: /site".to_string()));
    c.set_default_output();
    assert_eq!(c.output_path, "/site/output.run");
    c.set_default_output();
    assert_eq!(c.output_path, "/site/output.run");
    assert!(matches!(c.output_step(false, false), OutputStep::Proceed));
    assert!(matches!(c.output_step(true, false), OutputStep::Ask));
    match c.output_step(true, true) {
        OutputStep::Reject(m) => assert_eq!(m, "The specified output path is a directory, it must be a file: /site/output.run"),
        _ => panic!("expected reject"),
    }
    c.overwrite = true;
    assert!(matches!(c.output_step(true, false), OutputStep::Remove));
    let empty = BuilderRunConfig { input_path: String::new(), output_path: String::new(), use_gzip: true, overwrite: false };
    assert_eq!(
        empty.validate_input_dir_path(true, true),
        Err("No input path provided. Use --folder <path> to specify the folder to pack.".to_string())
    );
}

#[test]
fn overwrite_answers() {
    assert_eq!(overwrite_answer("y\n"), Some(true));
    assert_eq!(overwrite_answer("Y\n"), Some(true));
    assert_eq!(overwrite_answer("n\n"), Some(false));
    assert_eq!(overwrite_answer("N\n"), Some(false));
    assert_eq!(overwrite_answer("yes\n"), None);
    assert_eq!(overwrite_answer("y"), None);
}

#[test]
fn run_commands() {
    assert!(matches!(parse(&strings(&["cask"])), (false, RunCommand::Help)));
    match parse(&strings(&["cask", "--verbose", "--pack", "--folder", "x"])) {
        (true, RunCommand::Pack(rest)) => assert_eq!(rest, vec!["--folder", "x"]),
        _ => panic!("expected pack"),
    }
    match parse(&strings(&["cask", "--serve", "c.yaml", "--verbose"])) {
        (true, RunCommand::Serve(rest)) => assert_eq!(rest, vec!["c.yaml"]),
        _ => panic!("expected serve"),
    }
    assert!(matches!(parse(&strings(&["cask", "--help"])), (false, RunCommand::Help)));
    match parse(&strings(&["cask", "--bogus"])) {
        (false, RunCommand::Unknown(w)) => assert_eq!(w, "--bogus"),
        _ => panic!("expected unknown"),
    }
}

#[test]
fn server_defaults() {
    assert_eq!(default_port(), 7997);
    assert!(default_fallback().is_none());
    assert!(matches!(default_mode(), ServerCacheMode::Hits));
    assert_eq!(default_counter_reset(), 21600);
    assert_eq!(default_max_memory_of(3000, 16000), 1000);
    assert_eq!(default_max_memory_of(30000, 16000), 4000);
}

#[test]
fn server_value_checks() {
    assert_eq!(check_output_dir("", true, true), Err("Output directory path cannot be empty.".to_string()));
    assert_eq!(check_output_dir("/srv/", false, false), Err("`output` path does not exist: /srv/".to_string()));
    assert_eq!(check_output_dir("/srv/", true, false), Err("`output` must be a directory: /srv/".to_string()));
    assert_eq!(check_output_dir("/srv", true, true), Err("`output` must end with '/'.".to_string()));
    assert_eq!(check_output_dir("/srv/", true, true), Ok("/srv/".to_string()));
    assert_eq!(check_port(0), Err("Port number must be between 1 and 65535.".to_string()));
    assert_eq!(check_port(8080), Ok(8080));
    assert_eq!(cask::server_config::server_arguments_check(0), Err("No arguments provided for server mode.".to_string()));
    assert_eq!(cask::server_config::server_arguments_check(3), Err("Too many arguments provided for server mode.".to_string()));
    assert_eq!(cask::server_config::server_arguments_check(1), Ok(()));
    assert_eq!(cask::server_config::server_arguments_check(2), Ok(()));
}

#[test]
fn cache_settings() {
    assert!(matches!(parse_cache_mode("FILL"), Ok(ServerCacheMode::Fill)));
    assert_eq!(parse_cache_mode("Hits").err(), Some("Invalid cache mode: hits. Supported modes: fill".to_string()));
    assert_eq!(split_number_unit("1.5h"), ("1.5".to_string(), "h".to_string()));
    assert_eq!(split_number_unit("2d3"), ("23".to_string(), "d".to_string()));
    assert_eq!(counter_reset_multiplier("h"), Ok(3600));
    assert_eq!(counter_reset_multiplier("D"), Ok(86400));
    assert_eq!(counter_reset_multiplier("m"), Ok(60));
    assert_eq!(counter_reset_multiplier("s"), Ok(1));
    assert_eq!(counter_reset_multiplier(""), Ok(1));
    assert_eq!(
        counter_reset_multiplier("w"),
        Err("Invalid counter-reset unit: w. Supported units: S (seconds), M (minutes), H (hours), D (days).".to_string())
    );
    assert_eq!(split_memory_setting("512mb"), ("512".to_string(), "MB".to_string()));
    assert_eq!(memory_unit_multiplier("KB"), Ok(1024));
    assert_eq!(memory_unit_multiplier("GB"), Ok(1073741824));
    assert_eq!(memory_unit_multiplier("B"), Ok(1));
    assert_eq!(memory_unit_multiplier("TB"), Err("Invalid memory unit: TB. Supported units: B, KB, MB, GB.".to_string()));
}

#[test]
fn config_paths() {
    assert_eq!(validate_config("c.yaml", true, true), Ok(()));
    assert_eq!(validate_config("c.YAML", true, true), Ok(()));
    assert_eq!(validate_config("c.yaml", false, false), Err("Config file does not exist: c.yaml".to_string()));
    assert_eq!(validate_config("c.yaml", true, false), Err("Config path is not a file: c.yaml".to_string()));
    assert_eq!(validate_config("c.yml", true, true), Err("Config file must be a .yaml file: c.yml".to_string()));
}

#[test]
fn randomness_and_temp_dirs() {
    let s = generate_random_string(12);
    assert_eq!(s.chars().count(), 12);
    assert!(s.chars().all(|c| c.is_ascii_alphanumeric()));
    let d = generate_temp_dir("/cache");
    assert!(d.starts_with("/cache/"));
    assert_eq!(d.len(), "/cache/".len() + 12);
    let e = generate_temp_dir("/cache/");
    assert_eq!(e.len(), "/cache/".len() + 12);
}

#[test]
fn folder_hashing_pieces() {
    let (rel, out) = entry_paths("/site/css/a.css", "/site", "/site", "/tmp/t");
    assert_eq!(rel, "/css/a.css");
    assert_eq!(out, "/tmp/t/css/a.css");
    let (nested, nested_out) = entry_paths("/site/css/a.css", "/site", "/site/css", "/tmp/t/css");
    assert_eq!(nested, "/css/a.css");
    assert_eq!(nested_out, "/tmp/t/css/a.css");
    let info = FileInfo::new(rel.clone(), 12, "/site/css/a.css", true);
    assert_eq!(info.path, "/css/a.css");
    assert_eq!(info.hash, xxhash_rust::xxh3::xxh3_64(b"/site/css/a.css").to_string());
    let mut f = FolderInfo::new("/tmp/t");
    f.add(PathType::File(info));
    f.add(PathType::Folder(FolderInfo::new("/tmp/t/x")));
    assert_eq!(f.size, 12);
    assert_eq!(f.children.len(), 2);
    assert!(gzip_entry("/site/a.CSS", true));
    assert!(!gzip_entry("/site/a.png", true));
    assert!(!gzip_entry("/site/a.css", false));
}

#[test]
fn flags_follow_options() {
    let (c, _) = BuilderRunConfig::parse(&strings(&["--folder", "a", "--overwrite"])).ok().unwrap();
    assert!(c.use_gzip);
    assert!(c.overwrite);
    let (d, _) = BuilderRunConfig::parse(&strings(&["--no-gzip", "--output", "o"])).ok().unwrap();
    assert!(!d.use_gzip);
    assert!(!d.overwrite);
    assert_eq!(d.output_path, "o");
}

#[test]
fn cache_mode_of_lowered_name() {
    assert!(matches!(cache_mode_from("fill"), Ok(ServerCacheMode::Fill)));
    assert_eq!(
        cache_mode_from("Fill").err().unwrap(),
        "Invalid cache mode: Fill. Supported modes: fill"
    );
    assert!(matches!(parse_cache_mode("FILL"), Ok(ServerCacheMode::Fill)));
    assert_eq!(
        parse_cache_mode("Hits").err().unwrap(),
        "Invalid cache mode: hits. Supported modes: fill"
    );
}

#[test]
fn counter_reset_units() {
    assert_eq!(counter_reset_seconds("S", "s"), Ok(1));
    assert_eq!(counter_reset_seconds("M", "m"), Ok(60));
    assert_eq!(counter_reset_seconds("H", "h"), Ok(3600));
    assert_eq!(counter_reset_seconds("D", "D"), Ok(86400));
    assert_eq!(counter_reset_seconds("", ""), Ok(1));
    assert_eq!(
        counter_reset_seconds("W", "w"),
        Err("Invalid counter-reset unit: w. Supported units: S (seconds), M (minutes), H (hours), D (days).".to_string())
    );
    assert_eq!(counter_reset_multiplier("h"), Ok(3600));
    assert_eq!(counter_reset_multiplier("d"), Ok(86400));
}

#[test]
fn hash_walk_entry_kinds() {
    assert!(matches!(classify_hash_entry(true, false, false, false), HashEntryStep::File));
    assert!(matches!(classify_hash_entry(false, true, false, false), HashEntryStep::Folder { create: true }));
    assert!(matches!(classify_hash_entry(false, true, false, true), HashEntryStep::Folder { create: false }));
    assert!(matches!(classify_hash_entry(false, false, true, false), HashEntryStep::Symlink));
    assert!(matches!(classify_hash_entry(false, false, false, false), HashEntryStep::Unknown));
    assert!(matches!(classify_hash_entry(true, false, true, false), HashEntryStep::Symlink));
    assert!(matches!(classify_hash_entry(false, true, true, false), HashEntryStep::Symlink));
}

#[test]
fn unknown_options_before_a_refusal() {
    let args = strings(&["--weird", "--folder", "site", "--odd", "stray", "--late"]);
    assert!(matches!(BuilderRunConfig::parse(&args).err().unwrap(), BuilderArgError::UnexpectedValue(_)));
    assert_eq!(BuilderRunConfig::unknown_options(&args), vec!["--weird", "--odd"]);
    let ok = strings(&["--a", "--folder", "x", "--b"]);
    assert_eq!(BuilderRunConfig::unknown_options(&ok), vec!["--a", "--b"]);
    assert_eq!(BuilderRunConfig::parse(&ok).ok().unwrap().1, vec!["--a", "--b"]);
}

#[test]
fn hashing_a_listed_tree() {
    let listing = vec![
        Listed::File { path: "/site/a.html".to_string(), size: 10 },
        Listed::Folder {
            path: "/site/css".to_string(),
            entries: vec![Listed::File { path: "/site/css/s.css".to_string(), size: 5 }],
        },
        Listed::File { path: "/site/logo.png".to_string(), size: 7 },
    ];
    let info = hash(&listing, "/site", "/site", true, "/tmp/t").unwrap();
    assert_eq!(info.path, "/tmp/t");
    assert_eq!(info.size, 22);
    assert_eq!(info.children.len(), 3);
    match &info.children[0] {
        PathType::File(f) => {
            assert_eq!(f.path, "/a.html");
            assert_eq!(f.size, 10);
            assert_eq!(f.hash, xxhash_rust::xxh3::xxh3_64(b"/site/a.html").to_string());
            assert!(f.gzip);
        }
        _ => panic!("expected a file"),
    }
    match &info.children[1] {
        PathType::Folder(d) => {
            assert_eq!(d.path, "/tmp/t/css");
            assert_eq!(d.size, 5);
            match &d.children[0] {
                PathType::File(f) => {
                    assert_eq!(f.path, "/css/s.css");
                    assert_eq!(f.hash, xxhash_rust::xxh3::xxh3_64(b"/site/css/s.css").to_string());
                    assert!(f.gzip);
                }
                _ => panic!("expected a file"),
            }
        }
        _ => panic!("expected a folder"),
    }
    match &info.children[2] {
        PathType::File(f) => assert!(!f.gzip),
        _ => panic!("expected a file"),
    }
    let too_big = vec![
        Listed::File { path: "/s/a".to_string(), size: u64::MAX },
        Listed::Folder { path: "/s/b".to_string(), entries: vec![Listed::File { path: "/s/b/c".to_string(), size: 1 }] },
    ];
    assert!(hash(&too_big, "/s", "/s", false, "/o").is_none());
}
