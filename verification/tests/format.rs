use shipweight::svg::{format_bytes, format_downloads};

#[test]
fn format_bytes_matches_double_formatting() {
    assert_eq!(format_bytes(0u64), "0 B");
    assert_eq!(format_bytes(999u64), "999 B");
    assert_eq!(format_bytes(1000u64), "1.00 kB");
    assert_eq!(format_bytes(1005u64), "1.00 kB");
    assert_eq!(format_bytes(1015u64), "1.01 kB");
    assert_eq!(format_bytes(1125u64), "1.12 kB");
    assert_eq!(format_bytes(1375u64), "1.38 kB");
    assert_eq!(format_bytes(9995u64), "9.99 kB");
    assert_eq!(format_bytes(9999u64), "10.00 kB");
    assert_eq!(format_bytes(10000u64), "10.0 kB");
    assert_eq!(format_bytes(99950u64), "100.0 kB");
    assert_eq!(format_bytes(999499u64), "999 kB");
    assert_eq!(format_bytes(999500u64), "1000 kB");
    assert_eq!(format_bytes(1000000u64), "1.0 MB");
    assert_eq!(format_bytes(1050000u64), "1.1 MB");
    assert_eq!(format_bytes(99950000u64), "100.0 MB");
    assert_eq!(format_bytes(100000000u64), "100 MB");
    assert_eq!(format_bytes(123456789012u64), "123457 MB");
    assert_eq!(format_bytes(9007199254740993u64), "9007199255 MB");
    assert_eq!(format_bytes(18446744073709551615u64), "18446744073710 MB");
}

#[test]
fn format_downloads_matches_double_formatting() {
    assert_eq!(format_downloads(0u64), "0");
    assert_eq!(format_downloads(999u64), "999");
    assert_eq!(format_downloads(1000u64), "1K");
    assert_eq!(format_downloads(1499u64), "1K");
    assert_eq!(format_downloads(1500u64), "2K");
    assert_eq!(format_downloads(2500u64), "2K");
    assert_eq!(format_downloads(999999u64), "1000K");
    assert_eq!(format_downloads(1000000u64), "1.0M");
    assert_eq!(format_downloads(1050000u64), "1.1M");
    assert_eq!(format_downloads(1150000u64), "1.1M");
    assert_eq!(format_downloads(123456789u64), "123.5M");
    assert_eq!(format_downloads(18446744073709551615u64), "18446744073709.6M");
}
