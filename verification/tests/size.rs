use purgee::size::{format_bytes, format_size_cell};

fn float_text(bytes: u64) -> String {
    let units = ["B", "KB", "MB", "GB", "TB"];
    let mut value = bytes as f64;
    let mut unit = 0;
    while value >= 1024.0 && unit < 4 {
        value /= 1024.0;
        unit += 1;
    }
    if unit == 0 {
        format!("{bytes} {}", units[unit])
    } else if value < 10.0 {
        format!("{value:.1} {}", units[unit])
    } else {
        format!("{value:.0} {}", units[unit])
    }
}

#[test]
fn sizes_are_written_as_floating_point_writes_them() {
    let mut samples: Vec<u64> = vec![0, 1, 1023, 1024, 1075, 1076, 1077, 1126, 1127, 1536, 10239, 10240, 10752, 11264, 11776];
    for shift in 0..64 {
        let base = 1u64 << shift;
        for factor in [1u64, 3, 5, 7, 9, 10, 11, 13, 19, 21, 1023, 1025] {
            let product = base.wrapping_mul(factor);
            for delta in 0..5 {
                samples.push(product.wrapping_add(delta));
                samples.push(product.wrapping_sub(delta));
            }
        }
    }
    let mut state = 0x9e3779b97f4a7c15u64;
    for _ in 0..200_000 {
        state ^= state << 13;
        state ^= state >> 7;
        state ^= state << 17;
        samples.push(state >> (state % 61));
        samples.push((state >> 20) << (state % 50));
    }
    for bytes in samples {
        assert_eq!(format_bytes(bytes), float_text(bytes), "{bytes}");
    }
}

#[test]
fn size_cells_are_padded() {
    assert_eq!(format_size_cell(0), "     0 B ");
    assert_eq!(format_size_cell(1536), "   1.5 KB");
    assert_eq!(format_size_cell(20 * 1024 * 1024 * 1024), "    20 GB");
}
