use anotherps4::types::{align_down, align_up, format_size, is_aligned, PAGE_SIZE};

#[test]
fn test_align_up() {
    assert_eq!(align_up(0, 4096), 0);
    assert_eq!(align_up(1, 4096), 4096);
    assert_eq!(align_up(4096, 4096), 4096);
    assert_eq!(align_up(4097, 4096), 8192);
    assert_eq!(align_up(100, PAGE_SIZE), PAGE_SIZE);
}

#[test]
fn test_align_down() {
    assert_eq!(align_down(0, 4096), 0);
    assert_eq!(align_down(1, 4096), 0);
    assert_eq!(align_down(4096, 4096), 4096);
    assert_eq!(align_down(8000, 4096), 4096);
}

#[test]
fn test_is_aligned() {
    assert!(is_aligned(0, 4096));
    assert!(is_aligned(4096, 4096));
    assert!(!is_aligned(1, 4096));
    assert!(!is_aligned(4097, 4096));
}

#[test]
fn test_format_size() {
    assert_eq!(format_size(512), "512 B");
    assert_eq!(format_size(1024), "1.00 KB");
    assert_eq!(format_size(1048576), "1.00 MB");
    assert_eq!(format_size(1073741824), "1.00 GB");
}

#[test]
fn format_size_small_counts_are_plain_bytes() {
    assert_eq!(format_size(0), "0 B");
    assert_eq!(format_size(7), "7 B");
    assert_eq!(format_size(1023), "1023 B");
}

#[test]
fn format_size_rounds_to_two_decimals() {
    assert_eq!(format_size(1536), "1.50 KB");
    assert_eq!(format_size(1029), "1.00 KB");
    assert_eq!(format_size(1048575), "1024.00 KB");
    assert_eq!(format_size(5 * 1024 * 1024 + 512 * 1024), "5.50 MB");
    assert_eq!(format_size(5905580032), "5.50 GB");
}

#[test]
fn format_size_ties_round_to_even() {
    // 1152 bytes are exactly 1.125 KiB.
    assert_eq!(format_size(1152), "1.12 KB");
    // 1176 bytes are exactly 1.1484375 KiB.
    assert_eq!(format_size(1176), "1.15 KB");
}

#[test]
fn format_size_largest_count() {
    assert_eq!(format_size(u64::MAX), "17179869184.00 GB");
}

#[test]
fn align_up_and_down_bracket_the_value() {
    for v in [0u64, 1, 16383, 16384, 16385, 1 << 40] {
        let lo = align_down(v, PAGE_SIZE);
        let hi = align_up(v, PAGE_SIZE);
        assert!(lo <= v && v <= hi);
        assert!(is_aligned(lo, PAGE_SIZE) && is_aligned(hi, PAGE_SIZE));
        assert!(hi - lo == 0 || hi - lo == PAGE_SIZE);
    }
}
