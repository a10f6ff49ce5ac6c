use open_pdf_studio::format::{fmt_pdf_date, fmt_size};

/// The size text that `f64` formatting gives, for comparison.
fn float_size(bytes: u64) -> String {
    let b = bytes as f64;
    if b >= 1_048_576.0 {
        format!("{:.1} MB", b / 1_048_576.0)
    } else if b >= 1024.0 {
        format!("{:.0} KB", b / 1024.0)
    } else {
        format!("{bytes} B")
    }
}

#[test]
fn size_in_bytes() {
    assert_eq!(fmt_size(0), "0 B");
    assert_eq!(fmt_size(1), "1 B");
    assert_eq!(fmt_size(1023), "1023 B");
}

#[test]
fn size_in_kilobytes() {
    assert_eq!(fmt_size(1024), "1 KB");
    assert_eq!(fmt_size(2047), "2 KB");
    assert_eq!(fmt_size(1048575), "1024 KB");
}

#[test]
fn size_kilobyte_ties_round_to_even() {
    // 1.5 KB and 2.5 KB both show as 2 KB.
    assert_eq!(fmt_size(1536), "2 KB");
    assert_eq!(fmt_size(2560), "2 KB");
    assert_eq!(fmt_size(3584), "4 KB");
}

#[test]
fn size_in_megabytes() {
    assert_eq!(fmt_size(1048576), "1.0 MB");
    assert_eq!(fmt_size(1572864), "1.5 MB");
    assert_eq!(fmt_size(10 * 1048576 - 1), "10.0 MB");
    assert_eq!(fmt_size(123_456_789), "117.7 MB");
}

#[test]
fn size_megabyte_ties_round_to_even() {
    // 1.25 MB and 1.75 MB are exact halves of a tenth.
    assert_eq!(fmt_size(1310720), "1.2 MB");
    assert_eq!(fmt_size(1835008), "1.8 MB");
}

#[test]
fn size_matches_float_formatting() {
    let mut samples: Vec<u64> = vec![
        0, 1, 512, 1023, 1024, 1025, 1535, 1536, 1537, 2560, 1048575, 1048576, 1048577,
        1310720, 1835008, 5_000_000, 123_456_789, 9_999_999_999,
        (1u64 << 53) - 1, 1u64 << 53, (1u64 << 53) + 1, (1u64 << 53) + 3,
        (1u64 << 60) + 12345, u64::MAX - 1, u64::MAX,
    ];
    let mut x: u64 = 0x9E37_79B9_7F4A_7C15;
    for _ in 0..2000 {
        x ^= x << 13;
        x ^= x >> 7;
        x ^= x << 17;
        samples.push(x >> (x % 64));
    }
    for b in samples {
        assert_eq!(fmt_size(b), float_size(b), "bytes = {b}");
    }
}

#[test]
fn date_with_time() {
    assert_eq!(fmt_pdf_date("D:20240131123456+01'00'"), "2024-01-31 12:34");
    assert_eq!(fmt_pdf_date("D:202401311234"), "2024-01-31 12:34");
    assert_eq!(fmt_pdf_date("20240131123456Z"), "2024-01-31 12:34");
}

#[test]
fn date_without_time() {
    assert_eq!(fmt_pdf_date("D:20240131"), "2024-01-31");
    assert_eq!(fmt_pdf_date("D:2024013112"), "2024-01-31");
    assert_eq!(fmt_pdf_date("19991231x"), "1999-12-31");
}

#[test]
fn date_passes_other_text_through() {
    assert_eq!(fmt_pdf_date(""), "");
    assert_eq!(fmt_pdf_date("D:"), "D:");
    assert_eq!(fmt_pdf_date("D:2024"), "D:2024");
    assert_eq!(fmt_pdf_date("yesterday"), "yesterday");
    assert_eq!(fmt_pdf_date("D:x20240131"), "D:x20240131");
    assert_eq!(fmt_pdf_date("Ünïcödé 2024"), "Ünïcödé 2024");
}
