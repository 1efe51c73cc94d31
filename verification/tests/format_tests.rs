use postwoman::format::{human_size, push_decimal, status_label};

fn reference_size(bytes: usize) -> String {
    const KB: f64 = 1024.0;
    const MB: f64 = KB * 1024.0;
    let b = bytes as f64;
    if b >= MB {
        format!("{:.2} MB", b / MB)
    } else if b >= KB {
        format!("{:.2} KB", b / KB)
    } else {
        format!("{bytes} B")
    }
}

#[test]
fn human_size_examples() {
    assert_eq!(human_size(0), "0 B");
    assert_eq!(human_size(512), "512 B");
    assert_eq!(human_size(1023), "1023 B");
    assert_eq!(human_size(1024), "1.00 KB");
    assert_eq!(human_size(1536), "1.50 KB");
    assert_eq!(human_size(1048575), "1024.00 KB");
    assert_eq!(human_size(1048576), "1.00 MB");
    assert_eq!(human_size(52428800), "50.00 MB");
}

#[test]
fn human_size_rounds_ties_like_float_formatting() {
    for bytes in [1152usize, 1088, 1216, 1280, 1344, 3200, 131072 + 1024 * 5, 1179648, 1310720 - 5120] {
        assert_eq!(human_size(bytes), reference_size(bytes), "bytes = {bytes}");
    }
}

#[test]
fn human_size_matches_float_formatting() {
    let mut bytes: usize = 0;
    while bytes < 3_000_000 {
        assert_eq!(human_size(bytes), reference_size(bytes), "bytes = {bytes}");
        bytes += 37;
    }
    for shift in 0..usize::BITS {
        let base: usize = 1 << shift;
        for delta in [0usize, 1, 2, 3, 511, 512, 513, 1023, 1024, 1025] {
            for b in [base.wrapping_add(delta), base.wrapping_sub(delta), base.wrapping_mul(3).wrapping_sub(delta)] {
                assert_eq!(human_size(b), reference_size(b), "bytes = {b}");
            }
        }
    }
    assert_eq!(human_size(usize::MAX), reference_size(usize::MAX));
}

#[test]
fn decimal_digits() {
    let mut s = String::from("n=");
    push_decimal(&mut s, 0);
    assert_eq!(s, "n=0");
    let mut s = String::new();
    push_decimal(&mut s, u64::MAX);
    assert_eq!(s, u64::MAX.to_string());
    let mut s = String::new();
    push_decimal(&mut s, 1000);
    assert_eq!(s, "1000");
}

#[test]
fn status_label_with_and_without_reason() {
    assert_eq!(status_label(200, "OK"), "200 OK");
    assert_eq!(status_label(404, "Not Found"), "404 Not Found");
    assert_eq!(status_label(599, ""), "599");
}
