use cask::paths::{extension, file_name, is_file_extension, join, parent};
use cask::args::validate_output;
use cask::manifest::should_gzip;
use cask::server_config::{counter_reset_multiplier, parse_cache_mode, split_memory_setting, ServerCacheMode};
use cask::text::{cat, cat3, chars_of, replace_str, string_of};
use std::path::Path;

fn opt_string(v: Option<Vec<char>>) -> Option<String> {
    v.map(|c| c.into_iter().collect())
}

const SAMPLES: [&str; 30] = [
    "", "/", "//", ".", "..", "./", "../", "a", "a/", "a/b", "a//b", "/a", "/a/b/", "a/b/.", "a/./b",
    "./a", "./a/", "foo.txt", "foo.tar.gz", ".bashrc", "a/.hidden", "a/b.", "x/..", "x/...", "dir.d/file",
    "/home/user/www/index.HTML", "config.yaml", "config.YaML", "c.yml", "a/b/./.",
];

#[test]
fn replace_matches_std() {
    let cases = [
        ("hello world", "o", "0"),
        ("aaaa", "aa", "b"),
        ("abc", "", "X"),
        ("", "", "X"),
        ("", "a", "b"),
        ("/home/dan/www/app.css", "/home/dan/www", "/srv/out"),
        ("abcabc", "abc", ""),
        ("héllo", "é", "e"),
    ];
    for (s, from, to) in cases {
        assert_eq!(replace_str(s, from, to), s.replace(from, to), "{s:?} {from:?} {to:?}");
    }
    assert_eq!(replace_str("ab", "", "X"), "XaXbX");
}

#[test]
fn chars_round_trip() {
    let v = chars_of("añb");
    assert_eq!(v, vec!['a', 'ñ', 'b']);
    assert_eq!(string_of(&v), "añb");
    assert_eq!(cat("ab", "cd"), "abcd");
    assert_eq!(cat3("a", "b", "c"), "abc");
}

#[test]
fn file_name_matches_std() {
    for s in SAMPLES {
        let expected = Path::new(s).file_name().map(|n| n.to_str().unwrap().to_string());
        assert_eq!(opt_string(file_name(&chars_of(s))), expected, "{s:?}");
    }
}

#[test]
fn extension_matches_std() {
    for s in SAMPLES {
        let expected = Path::new(s).extension().map(|n| n.to_str().unwrap().to_string());
        assert_eq!(opt_string(extension(&chars_of(s))), expected, "{s:?}");
    }
}

#[test]
fn parent_matches_std() {
    for s in SAMPLES {
        let expected = Path::new(s).parent().map(|n| n.to_str().unwrap().to_string());
        assert_eq!(opt_string(parent(&chars_of(s))), expected, "{s:?}");
    }
}

#[test]
fn join_matches_std() {
    for base in ["", "a", "a/", "/x/y", "/"] {
        for p in ["", "b", "b/c", "/abs", "output.run"] {
            let expected = Path::new(base).join(p).to_str().unwrap().to_string();
            assert_eq!(join(base, p), expected, "{base:?} {p:?}");
        }
    }
}

#[test]
fn is_file_extension_ignores_ascii_case() {
    assert!(is_file_extension("config.yaml", "yaml"));
    assert!(is_file_extension("config.YaML", "yaml"));
    assert!(is_file_extension("dir/config.yaml", "YAML"));
    assert!(!is_file_extension("config.yml", "yaml"));
    assert!(!is_file_extension(".yaml", "yaml"));
    assert!(!is_file_extension("yaml", "yaml"));
    assert!(!is_file_extension("config.yaml/..", "yaml"));
    for s in SAMPLES {
        for e in ["yaml", "html", "gz", "", "TXT"] {
            let expected = Path::new(s)
                .extension()
                .and_then(|x| x.to_str())
                .map_or(false, |x| x.eq_ignore_ascii_case(e));
            assert_eq!(is_file_extension(s, e), expected, "{s:?} {e:?}");
        }
    }
}

#[test]
fn case_conversion_and_debug_text() {
    assert_eq!(split_memory_setting("1.5gb"), ("1.5".to_string(), "GB".to_string()));
    assert_eq!(split_memory_setting("2ß"), ("2".to_string(), "SS".to_string()));
    assert!(matches!(parse_cache_mode("FiLL"), Ok(ServerCacheMode::Fill)));
    assert_eq!(
        validate_output("dir/o", false, false, false),
        Err("Output parent directory does not exist: \"dir\"".to_string())
    );
    assert_eq!(
        validate_output("a\"b/o", false, false, false),
        Err("Output parent directory does not exist: \"a\\\"b\"".to_string())
    );
}

#[test]
fn ascii_case_mapping() {
    assert_eq!(counter_reset_multiplier("m"), Ok(60));
    assert!(should_gzip("/s/Index.HTML", true, true));
    assert!(should_gzip("/s/app.Js", true, true));
    assert_eq!(split_memory_setting(""), ("".to_string(), "".to_string()));
    assert_eq!(
        parse_cache_mode("ÄB").err().unwrap(),
        "Invalid cache mode: äb. Supported modes: fill"
    );
}
