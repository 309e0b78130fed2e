use containertyrant::utils::format_bytes;

const MB: u64 = 1024 * 1024;
const GB: u64 = MB * 1024;

fn float_text(bytes: u64) -> String {
    if bytes >= GB {
        format!("{:.1} GB", bytes as f64 / GB as f64)
    } else if bytes >= MB {
        format!("{:.1} MB", bytes as f64 / MB as f64)
    } else {
        format!("{} KB", bytes / 1024)
    }
}

#[test]
fn format_bytes_exact_values() {
    assert_eq!(format_bytes(0), "0 KB");
    assert_eq!(format_bytes(1023), "0 KB");
    assert_eq!(format_bytes(1024), "1 KB");
    assert_eq!(format_bytes(MB - 1), "1023 KB");
    assert_eq!(format_bytes(MB), "1.0 MB");
    assert_eq!(format_bytes(MB + MB / 2), "1.5 MB");
    assert_eq!(format_bytes(GB - 1), "1024.0 MB");
    assert_eq!(format_bytes(GB), "1.0 GB");
    assert_eq!(format_bytes(5 * GB + GB / 4), "5.2 GB");
    assert_eq!(format_bytes(u64::MAX), "17179869184.0 GB");
}

#[test]
fn format_bytes_half_tenths_round_to_even() {
    // 0.25 and 0.75 of a unit lie exactly between two tenths.
    assert_eq!(format_bytes(MB + MB / 4), "1.2 MB");
    assert_eq!(format_bytes(MB + 3 * MB / 4), "1.8 MB");
    assert_eq!(format_bytes(GB + GB / 4), "1.2 GB");
    assert_eq!(format_bytes(3 * GB + 3 * GB / 4), "3.8 GB");
}

#[test]
fn format_bytes_agrees_with_float_formatting_on_ties() {
    // Sizes whose tenths lie exactly halfway: 10 * b = 2^19 (mod 2^20) and
    // 10 * b = 2^29 (mod 2^30).
    let mut b = MB;
    let mut checked = 0;
    while b < GB {
        if (b * 10) % MB == MB / 2 {
            assert_eq!(format_bytes(b), float_text(b), "bytes = {}", b);
            checked += 1;
            b += MB / 2;
        } else {
            b += 1;
        }
        if checked > 2000 {
            break;
        }
    }
    assert!(checked > 100);
    let mut g = GB;
    let mut checked_gb = 0;
    while checked_gb < 2000 {
        if (g as u128 * 10) % GB as u128 == GB as u128 / 2 {
            assert_eq!(format_bytes(g), float_text(g), "bytes = {}", g);
            checked_gb += 1;
            g += GB / 2;
        } else {
            g += 1;
        }
    }
}

#[test]
fn format_bytes_agrees_with_float_formatting_broadly() {
    let mut x: u64 = 0x9E37_79B9_7F4A_7C15;
    for _ in 0..200_000 {
        x ^= x << 13;
        x ^= x >> 7;
        x ^= x << 17;
        let shift = (x % 64) as u32;
        let b = x >> shift;
        assert_eq!(format_bytes(b), float_text(b), "bytes = {}", b);
    }
    for e in 0..64u32 {
        let p = 1u64 << e;
        for d in [p - 1, p, p.wrapping_add(1), p | (p >> 1), p.wrapping_sub(p >> 3)] {
            assert_eq!(format_bytes(d), float_text(d), "bytes = {}", d);
        }
    }
}

#[test]
fn format_bytes_agrees_with_float_formatting_beyond_exact_floats() {
    // Above 2^53 a size is first rounded to the nearest float.
    let base: u64 = 1 << 53;
    for k in 0..4096u64 {
        for b in [base + k, (base << 3) + k * 7, u64::MAX - k * 1021, (1u64 << 62) + k * 513] {
            assert_eq!(format_bytes(b), float_text(b), "bytes = {}", b);
        }
    }
}
