use glance::util::human_size;

fn float_size(bytes: u64) -> String {
    let mut size = bytes as f64;
    for unit in &["B", "KB", "MB", "GB"] {
        if size < 1024.0 {
            return if *unit == "B" {
                format!("{size} B")
            } else {
                format!("{size:.1} {unit}")
            };
        }
        size /= 1024.0;
    }
    format!("{size:.1} TB")
}

#[test]
fn sizes_in_each_unit() {
    assert_eq!(human_size(0), "0 B");
    assert_eq!(human_size(512), "512 B");
    assert_eq!(human_size(1023), "1023 B");
    assert_eq!(human_size(1024), "1.0 KB");
    assert_eq!(human_size(1536), "1.5 KB");
    assert_eq!(human_size(2048), "2.0 KB");
    assert_eq!(human_size(1024 * 1024 - 1), "1024.0 KB");
    assert_eq!(human_size(3 * 1024 * 1024), "3.0 MB");
    assert_eq!(human_size(5 * 1024 * 1024 * 1024), "5.0 GB");
    assert_eq!(human_size(2048 * 1024 * 1024 * 1024 * 1024), "2048.0 TB");
}

#[test]
fn sizes_agree_with_float_formatting() {
    let mut samples: Vec<u64> = (0..5000u64).collect();
    for k in 1..5u32 {
        let unit = 1024u64.pow(k);
        for m in [1u64, 2, 3, 5, 7, 10, 100, 999, 1023] {
            for off in [0u64, 1, unit / 20, unit / 4, unit / 2, unit * 3 / 4, unit - 1] {
                samples.push(m * unit + off);
            }
        }
    }
    for b in samples {
        assert_eq!(human_size(b), float_size(b), "bytes = {b}");
    }
}
