use trasher::size::human_readable_size;

#[test]
fn bytes_below_one_kibibyte_are_written_as_they_are() {
    assert_eq!(human_readable_size(0), "0 B");
    assert_eq!(human_readable_size(1), "1 B");
    assert_eq!(human_readable_size(9), "9 B");
    assert_eq!(human_readable_size(10), "10 B");
    assert_eq!(human_readable_size(1023), "1023 B");
}

#[test]
fn larger_sizes_have_two_decimals_and_a_binary_unit() {
    assert_eq!(human_readable_size(1024), "1.00 KiB");
    assert_eq!(human_readable_size(1034), "1.01 KiB");
    assert_eq!(human_readable_size(1536), "1.50 KiB");
    assert_eq!(human_readable_size(123_456_789), "117.74 MiB");
    assert_eq!(human_readable_size(5_492_165_909), "5.11 GiB");
    assert_eq!(human_readable_size(1_649_267_441_664), "1.50 TiB");
}

#[test]
fn a_unit_serves_up_to_1024_of_itself() {
    assert_eq!(human_readable_size(1_048_575), "1024.00 KiB");
    assert_eq!(human_readable_size(1_048_576), "1024.00 KiB");
    assert_eq!(human_readable_size(1_048_577), "1.00 MiB");
    assert_eq!(human_readable_size(1_073_741_824), "1024.00 MiB");
    assert_eq!(human_readable_size(1_073_741_825), "1.00 GiB");
    assert_eq!(human_readable_size(1 << 60), "1024.00 PiB");
}

#[test]
fn the_largest_sizes_are_written_in_exbibytes() {
    assert_eq!(human_readable_size((1 << 60) + 1), "1.00 EiB");
    assert_eq!(human_readable_size(u64::MAX), "16.00 EiB");
    assert_eq!(human_readable_size(3 << 59), "1.50 EiB");
}

#[test]
fn halves_are_rounded_to_the_even_hundredth() {
    assert_eq!(human_readable_size(1152), "1.12 KiB");
    assert_eq!(human_readable_size(1029), "1.00 KiB");
    assert_eq!(human_readable_size(1408), "1.38 KiB");
}

fn by_floating_point(bytes: u64) -> String {
    let names = ["KiB", "MiB", "GiB", "TiB", "PiB"];
    if bytes < 1024 {
        return format!("{} B", bytes);
    }
    let mut compare: u64 = 1024;
    for name in names.iter() {
        compare *= 1024;
        if bytes <= compare {
            return format!("{:.2} {}", bytes as f64 * 1024f64 / compare as f64, name);
        }
    }
    format!("{:.2} EiB", bytes as f64 / compare as f64)
}

#[test]
fn agrees_with_floating_point_formatting() {
    let mut bytes: u64 = 0;
    let mut step: u64 = 1;
    while bytes < u64::MAX - step {
        assert_eq!(human_readable_size(bytes), by_floating_point(bytes), "{}", bytes);
        bytes += step;
        if bytes > 4096 {
            step = step + step / 3 + 7;
        }
    }
    for bytes in 1000..5000u64 {
        assert_eq!(human_readable_size(bytes), by_floating_point(bytes));
    }
    for shift in 10..64u32 {
        for delta in 0..64u64 {
            let bytes = (1u64 << shift) + delta * 8;
            assert_eq!(human_readable_size(bytes), by_floating_point(bytes), "{}", bytes);
            let bytes = (1u64 << shift) - 1 - delta;
            assert_eq!(human_readable_size(bytes), by_floating_point(bytes), "{}", bytes);
        }
    }
    for delta in 0..5000u64 {
        let bytes = u64::MAX - delta;
        assert_eq!(human_readable_size(bytes), by_floating_point(bytes), "{}", bytes);
    }
}

#[test]
fn large_sizes_are_rounded_as_a_floating_point_number_holds_them() {
    // 65 * 2^47 + 1 is held as 65 * 2^47, which is 8.125 PiB, a tie.
    assert_eq!(human_readable_size(9_147_936_743_096_321), "8.12 PiB");
    assert_eq!(human_readable_size(9_147_936_743_096_320), "8.12 PiB");
    assert_eq!(human_readable_size(9_147_936_743_096_323), "8.13 PiB");
    assert_eq!(human_readable_size((1 << 53) + 1), "8.00 PiB");
    for multiplier in [65u64, 67, 193, 1601, 12_345] {
        for shift in [44u32, 45, 47, 50] {
            for delta in 0..8u64 {
                if let Some(base) = multiplier.checked_shl(shift) {
                    let bytes = base + delta;
                    assert_eq!(human_readable_size(bytes), by_floating_point(bytes), "{}", bytes);
                }
            }
        }
    }
}
