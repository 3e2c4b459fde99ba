use p7z::display::{elapsed_text, file_kind, progress_status};
use p7z::size::size_text;

fn reference(size: u64) -> String {
    if size >= 1_048_576 {
        format!("{:.2} MB", size as f64 / 1_048_576.)
    } else if size >= 1024 {
        format!("{:.1} KB", size as f64 / 1024.)
    } else {
        format!("{size} B")
    }
}

#[test]
fn size_text_examples() {
    assert_eq!(size_text(0), "0 B");
    assert_eq!(size_text(1023), "1023 B");
    assert_eq!(size_text(1024), "1.0 KB");
    assert_eq!(size_text(1536), "1.5 KB");
    assert_eq!(size_text(1_048_576), "1.00 MB");
    assert_eq!(size_text(1_572_864), "1.50 MB");
    assert_eq!(size_text(1280), reference(1280));
    assert_eq!(size_text(1_179_648), reference(1_179_648));
}

#[test]
fn size_text_matches_float_formatting() {
    let mut values: Vec<u64> = vec![u64::MAX, u64::MAX - 1, 1 << 53, (1 << 53) + 1, (1 << 60) + 12345];
    let mut x: u64 = 0x9E3779B97F4A7C15;
    for _ in 0..20000 {
        x ^= x << 13;
        x ^= x >> 7;
        x ^= x << 17;
        values.push(x >> (x % 64));
        values.push(x % 5_000_000);
    }
    for k in 0..4096u64 {
        values.push(1024 * k + 51);
        values.push(1024 * k + 52);
        values.push(1024 * k + 512);
        values.push(1_048_576 * (k + 1) + 5243);
        values.push(1_048_576 * (k + 1) + 5242);
        values.push(1_048_576 * (k + 1) + 524288);
        values.push(1_048_576 * (k + 1) + 10486);
    }
    for n in 0..2000u64 {
        values.push((2 * n + 1) * 524_288 / 100 * 100 / 100);
        if ((2 * n + 1) * 524_288) % 100 == 0 {
            values.push((2 * n + 1) * 524_288 / 100);
        }
        if ((2 * n + 1) * 512) % 10 == 0 {
            values.push((2 * n + 1) * 512 / 10);
        }
    }
    for v in values {
        assert_eq!(size_text(v), reference(v), "size {v}");
    }
}

#[test]
fn file_kinds() {
    assert_eq!(file_kind("photo.JPG", false), "type-jpeg");
    assert_eq!(file_kind("a.b.json", false), "type-json");
    assert_eq!(file_kind("README", false), "type-file");
    assert_eq!(file_kind("x.7z", false), "type-7z");
    assert_eq!(file_kind("x.7z", true), "type-folder");
}

#[test]
fn extraction_state_and_time() {
    assert_eq!(progress_status(true, Some(100)), "cancelling");
    assert_eq!(progress_status(false, Some(100)), "extract-finalizing");
    assert_eq!(progress_status(false, None), "extract-preparing");
    assert_eq!(progress_status(false, Some(40)), "extracting");
    assert_eq!(elapsed_text(0), "00:00:00");
    assert_eq!(elapsed_text(3661), "01:01:01");
    assert_eq!(elapsed_text(360000 + 59), "100:00:59");
    for s in [5u64, 59, 600, 7199, 86399, 1_000_000] {
        assert_eq!(elapsed_text(s), format!("{:02}:{:02}:{:02}", s / 3600, s / 60 % 60, s % 60));
    }
}
