use purgee::layout::{centered_rect, Rect};
use purgee::render::divide_screen;

fn share(extent: u32, hundredths: u32) -> u16 {
    ((extent * hundredths + 50) / 100) as u16
}

fn rect(x: u16, y: u16, width: u16, height: u16) -> Rect {
    Rect {
        x,
        y,
        width,
        height,
    }
}

#[test]
fn middles_are_shares_of_the_area() {
    let mut sizes: Vec<u16> = (0..=260).collect();
    sizes.extend([500, 999, 4096, 10_007, 32_767, 32_768, 50_001, 65_000]);
    for (index, width) in sizes.iter().enumerate() {
        let height = sizes[(index * 7 + 3) % sizes.len()];
        let (x, y) = ((index % 5) as u16, (index % 11) as u16);
        let area = rect(x, y, *width, height);
        for (percent_x, percent_y) in [(34u16, 34u16), (74, 72), (0, 100), (33, 71), (1, 99)] {
            let beside_x = (100 - percent_x as u32) / 2;
            let beside_y = (100 - percent_y as u32) / 2;
            let (across, down) = (*width as u32, height as u32);
            assert_eq!(
                centered_rect(percent_x, percent_y, area),
                rect(
                    x + share(across, beside_x),
                    y + share(down, beside_y),
                    share(across, beside_x + percent_x as u32) - share(across, beside_x),
                    share(down, beside_y + percent_y as u32) - share(down, beside_y),
                )
            );
        }
    }
}

#[test]
fn middles_at_the_far_edge_are_cut_off() {
    let middle = centered_rect(34, 34, rect(65_435, 65_335, 1000, 1000));
    assert_eq!(middle, rect(65_468, 65_401, 34, 68));
}

#[test]
fn list_takes_the_rest_of_the_screen() {
    let mut heights: Vec<u16> = (18..=300).collect();
    heights.extend([1000, 4097, 32_767, 32_768, 65_000]);
    for height in heights {
        let rows = divide_screen(rect(1, 2, 80, height));
        assert_eq!(
            rows,
            vec![
                rect(1, 2, 80, 1),
                rect(1, 3, 80, 5),
                rect(1, 8, 80, 3),
                rect(1, 11, 80, height - 10),
                rect(1, 2 + height - 1, 80, 1),
            ]
        );
    }
}

#[test]
fn rows_of_small_screens_make_up_the_inside() {
    for height in 0..18u16 {
        let rows = divide_screen(rect(1, 2, 80, height));
        assert_eq!(rows.len(), 5);
        assert_eq!(rows[0].y, 2);
        for pair in rows.windows(2) {
            assert_eq!(pair[0].y + pair[0].height, pair[1].y);
        }
        assert_eq!(rows[4].y + rows[4].height, 2 + height);
        assert_eq!(rows[3].height, height.min(8));
        for (row, most) in rows.iter().zip([1, 5, 3, 8, 1]) {
            assert_eq!((row.x, row.width), (1, 80));
            assert!(row.height <= most);
        }
    }
}
