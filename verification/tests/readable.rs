use chithi::util::ReadableBytes;

/// The size as written with floating-point numbers.
fn by_floats(n: u64) -> String {
    const KB: u64 = 1024;
    const MB: u64 = 1024 * KB;
    const GB: u64 = 1024 * MB;
    if n == 0 {
        "UNKNOWN".to_string()
    } else if n >= GB {
        let gb = n as f64 / GB as f64;
        format!("{gb:.1} GiB")
    } else if n >= MB {
        let mb = n as f64 / MB as f64;
        format!("{mb:.1} MiB")
    } else {
        format!("{} KiB", n / KB)
    }
}

#[test]
fn readable_sizes() {
    assert_eq!(ReadableBytes::from(0).to_string(), "UNKNOWN");
    assert_eq!(ReadableBytes::from(1).to_string(), "0 KiB");
    assert_eq!(ReadableBytes::from(1023).to_string(), "0 KiB");
    assert_eq!(ReadableBytes::from(1024).to_string(), "1 KiB");
    assert_eq!(ReadableBytes::from(4096).to_string(), "4 KiB");
    assert_eq!(ReadableBytes::from(1048575).to_string(), "1023 KiB");
    assert_eq!(ReadableBytes::from(1048576).to_string(), "1.0 MiB");
    assert_eq!(ReadableBytes::from(1572864).to_string(), "1.5 MiB");
    assert_eq!(ReadableBytes::from(104857600).to_string(), "100.0 MiB");
    assert_eq!(ReadableBytes::from(1073741823).to_string(), "1024.0 MiB");
    assert_eq!(ReadableBytes::from(1073741824).to_string(), "1.0 GiB");
    assert_eq!(ReadableBytes::from(5 * 1073741824 + 1073741824 / 4).to_string(), "5.2 GiB");
    assert_eq!(ReadableBytes::from(5 * 1073741824 + 3 * (1073741824 / 4)).to_string(), "5.8 GiB");
    assert_eq!(ReadableBytes::from(u64::MAX).to_string(), "17179869184.0 GiB");
    assert_eq!(ReadableBytes(2048), ReadableBytes::from(2048));
}

#[test]
fn readable_sizes_agree_with_floating_point() {
    let mut values: Vec<u64> = vec![0, 1, 1023, 1024, 1025];
    for shift in 10..64 {
        let p = 1u64 << shift;
        for d in [0u64, 1, 2, 3, 1000, 52428, 52429, 104857, 104858, 53687091, 53687092] {
            values.push(p.wrapping_add(d));
            values.push(p.wrapping_sub(d));
            values.push(p.wrapping_add(p / 2).wrapping_add(d));
            values.push(p.wrapping_add(p / 20).wrapping_sub(d));
            values.push(p.wrapping_add(p / 4 + p / 20).wrapping_add(d));
        }
    }
    // ties at one decimal, in MiB and in GiB
    for k in 0..200u64 {
        values.push(1048576 * k + 52428 + 1048576 / 10 * (k % 10));
        values.push((1u64 << 20) * k / 20 * 1 + (1 << 20));
        values.push((1u64 << 30) / 20 * (2 * k + 1));
        values.push((1u64 << 20) / 20 * (2 * k + 1) + (1 << 20));
        values.push((1u64 << 30) * k + (1 << 29) / 5 * (k % 7));
    }
    // numbers that a double cannot hold exactly
    let mut x: u64 = 0x9e3779b97f4a7c15;
    for _ in 0..20000 {
        x ^= x << 13;
        x ^= x >> 7;
        x ^= x << 17;
        values.push(x);
        values.push(x >> (x % 40));
        values.push((1u64 << 53) + (x % 4096));
        values.push(u64::MAX - (x % 4096));
    }
    for n in values {
        assert_eq!(ReadableBytes::from(n).to_string(), by_floats(n), "for {n}");
    }
}
