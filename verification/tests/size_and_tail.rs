use cask::executable::{embedded_offset, encode_tail, preventive_memory_check, read_tail};
use cask::memory::{bytes_to_format, MemoryFormat};
use cask::server_config::{ServerCache, ServerCacheMode, ServerRunConfig};
use cask::size_format::{bytes_to_readable_size, u64_text};

fn float_readable(bytes: u64) -> String {
    const UNITS: [&str; 5] = ["B", "KB", "MB", "GB", "TB"];
    let mut size = bytes as f64;
    let mut unit_index = 0;
    while size >= 1024.0 && unit_index < UNITS.len() - 1 {
        size /= 1024.0;
        unit_index += 1;
    }
    format!("{:.2} {}", size, UNITS[unit_index])
}

#[test]
fn readable_size_examples() {
    assert_eq!(bytes_to_readable_size(0), "0.00 B");
    assert_eq!(bytes_to_readable_size(1023), "1023.00 B");
    assert_eq!(bytes_to_readable_size(1024), "1.00 KB");
    assert_eq!(bytes_to_readable_size(1536), "1.50 KB");
    assert_eq!(bytes_to_readable_size(1048576), "1.00 MB");
    assert_eq!(bytes_to_readable_size(u64::MAX), "16777216.00 TB");
}

#[test]
fn readable_size_matches_float_formatting() {
    let mut values: Vec<u64> = vec![
        0, 1, 5, 999, 1000, 1023, 1024, 1025, 1029, 1030, 1034, 1035, 2047, 2048, 10239, 10240,
        1048575, 1048576, 1073741823, 1073741824, 1099511627775, 1099511627776,
        (1u64 << 53) - 1, 1u64 << 53, (1u64 << 53) + 1, (1u64 << 53) + 3, (1u64 << 60) + 12345,
        u64::MAX, u64::MAX - 1, 123456789012345, 9007199254740993,
    ];
    for k in 0..4000u64 {
        values.push(k * 37 + 1000);
        values.push(k * 1_000_003 + 1_048_000);
        values.push(k.wrapping_mul(0x9E37_79B9_7F4A_7C15));
    }
    for b in values {
        assert_eq!(bytes_to_readable_size(b), float_readable(b), "{b}");
    }
}

#[test]
fn decimal_text_matches_to_string() {
    for n in [0u64, 7, 10, 99, 100, 12345, u64::MAX] {
        assert_eq!(u64_text(n), n.to_string());
    }
}

#[test]
fn tail_layout_and_round_trip() {
    for n in [0u64, 1, 255, 256, 123_456_789, u64::MAX] {
        let t = encode_tail(n);
        let mut expected = n.to_le_bytes().to_vec();
        expected.extend_from_slice(b"CASKXV2Z");
        assert_eq!(t, expected);
        assert_eq!(read_tail(&t), Some(n));
    }
}

#[test]
fn tail_without_magic_is_refused() {
    let mut t = encode_tail(42);
    t[15] = b'Y';
    assert_eq!(read_tail(&t), None);
    assert_eq!(read_tail(&[0u8; 16]), None);
}

#[test]
fn embedded_offset_counts_back() {
    assert_eq!(embedded_offset(0), -16);
    assert_eq!(embedded_offset(100), -116);
    for n in [0u64, 1, 0x7fff_ffff_ffff_fff0, 0x8000_0000_0000_0000, u64::MAX, 0x9000_0000_0000_0000] {
        assert_eq!(embedded_offset(n), (-16i64).wrapping_sub(n as i64), "{n}");
    }
}

fn config(mode: ServerCacheMode, max_memory: u64) -> ServerRunConfig {
    ServerRunConfig {
        output: "/srv/site/".to_string(),
        port: 7997,
        cache: ServerCache { counter_reset: 21600, mode, max_memory },
        fallback: None,
    }
}

#[test]
fn memory_check_in_fill_mode() {
    assert_eq!(preventive_memory_check(100, &config(ServerCacheMode::Fill, 100)), Ok(()));
    assert_eq!(
        preventive_memory_check(2048, &config(ServerCacheMode::Fill, 1024)),
        Err("Cannot not use cache fill mode, the total size of the embedded files (2.00 KB) exceeds the configured max-memory (1.00 KB). Extraction cannot proceed.".to_string())
    );
    assert_eq!(preventive_memory_check(u64::MAX, &config(ServerCacheMode::Hits, 0)), Ok(()));
}

#[test]
fn memory_formats() {
    assert_eq!(bytes_to_format(3 * 1024 * 1024 * 1024 + 5, Some(MemoryFormat::Bytes)), 3 * 1024 * 1024 * 1024 + 5);
    assert_eq!(bytes_to_format(3 * 1024 * 1024 * 1024 + 5, Some(MemoryFormat::KB)), 3 * 1024 * 1024);
    assert_eq!(bytes_to_format(3 * 1024 * 1024 * 1024 + 5, Some(MemoryFormat::MB)), 3 * 1024);
    assert_eq!(bytes_to_format(3 * 1024 * 1024 * 1024 + 5, Some(MemoryFormat::GB)), 3);
}
