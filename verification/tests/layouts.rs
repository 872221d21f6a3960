use cargo_wipe::layout::{centered_rect, screen_parts, Area};

fn area(x: u16, y: u16, width: u16, height: u16) -> Area {
    Area {
        x,
        y,
        width,
        height,
    }
}

fn share(size: u16, part: u16) -> u16 {
    ((u32::from(size) * u32::from(part) + 50) / 100) as u16
}

fn centered(percent_x: u16, percent_y: u16, outer: Area) -> Area {
    let side = (100 - percent_x) / 2;
    let top = (100 - percent_y) / 2;
    let (x0, x1) = (share(outer.width, side), share(outer.width, side + percent_x));
    let (y0, y1) = (share(outer.height, top), share(outer.height, top + percent_y));
    area(outer.x + x0, outer.y + y0, x1 - x0, y1 - y0)
}

fn lies_within(inner: Area, outer: Area) -> bool {
    inner.x >= outer.x
        && inner.y >= outer.y
        && inner.x + inner.width <= outer.x + outer.width
        && inner.y + inner.height <= outer.y + outer.height
}

#[test]
fn the_screen_has_a_header_a_body_and_two_lines_below() {
    let parts = screen_parts(area(0, 0, 80, 24));
    assert_eq!(parts.header, area(0, 0, 80, 1));
    assert_eq!(parts.body, area(0, 1, 80, 21));
    assert_eq!(parts.status, area(0, 22, 80, 1));
    assert_eq!(parts.hints, area(0, 23, 80, 1));
}

#[test]
fn every_screen_of_four_rows_has_all_its_parts() {
    for height in 4..300 {
        let parts = screen_parts(area(3, 5, 40, height));
        assert_eq!(parts.header, area(3, 5, 40, 1));
        assert_eq!(parts.body, area(3, 6, 40, height - 3));
        assert_eq!(parts.status, area(3, 5 + height - 2, 40, 1));
        assert_eq!(parts.hints, area(3, 5 + height - 1, 40, 1));
    }
}

#[test]
fn a_small_screen_is_never_left() {
    for height in 0..4 {
        for width in 0..4 {
            let outer = area(2, 1, width, height);
            let parts = screen_parts(outer);
            for part in [parts.header, parts.body, parts.status, parts.hints] {
                assert!(lies_within(part, outer), "{:?} in {:?}", part, outer);
            }
        }
    }
}

#[test]
fn a_screen_without_rows_has_empty_parts() {
    let parts = screen_parts(area(2, 1, 9, 0));
    for part in [parts.header, parts.body, parts.status, parts.hints] {
        assert_eq!(part, area(2, 1, 9, 0));
    }
}

#[test]
fn a_single_row_goes_to_the_body() {
    for y in 0..20 {
        let parts = screen_parts(area(2, y, 9, 1));
        assert_eq!(parts.header, area(2, y, 9, 0));
        assert_eq!(parts.body, area(2, y, 9, 1));
        assert_eq!(parts.status, area(2, y + 1, 9, 0));
        assert_eq!(parts.hints, area(2, y + 1, 9, 0));
    }
}

#[test]
fn of_two_rows_the_body_has_one() {
    for y in 0..20 {
        let parts = screen_parts(area(2, y, 9, 2));
        assert_eq!(parts.header.y, y);
        assert_eq!(parts.body, area(2, y + parts.header.height, 9, 1));
        assert_eq!(parts.header.height + parts.status.height, 1);
        assert_eq!(parts.status.y, parts.body.y + 1);
        assert_eq!(parts.hints, area(2, y + 2, 9, 0));
    }
}

#[test]
fn three_rows_leave_none_for_the_hints() {
    for y in 0..20 {
        let parts = screen_parts(area(2, y, 9, 3));
        assert_eq!(parts.header, area(2, y, 9, 1));
        assert_eq!(parts.body, area(2, y + 1, 9, 1));
        assert_eq!(parts.status, area(2, y + 2, 9, 1));
        assert_eq!(parts.hints, area(2, y + 3, 9, 0));
    }
}

#[test]
fn the_largest_screen_is_divided() {
    let parts = screen_parts(area(0, 0, u16::MAX, u16::MAX));
    assert_eq!(parts.body, area(0, 1, u16::MAX, u16::MAX - 3));
    assert_eq!(parts.hints, area(0, u16::MAX - 1, u16::MAX, 1));
}

#[test]
fn a_dialog_is_centered() {
    assert_eq!(
        centered_rect(60, 30, area(0, 0, 100, 50)),
        area(20, 18, 60, 15)
    );
    assert_eq!(
        centered_rect(80, 70, area(0, 0, 100, 100)),
        area(10, 15, 80, 70)
    );
}

#[test]
fn dialogs_are_centered_on_screens_of_all_sizes() {
    for size in 0..260 {
        for (percent_x, percent_y) in [(60, 30), (80, 70)] {
            let outer = area(0, 0, size, (size * 7) % 113);
            let rect = centered_rect(percent_x, percent_y, outer);
            assert_eq!(rect, centered(percent_x, percent_y, outer), "{:?}", outer);
            assert!(lies_within(rect, outer));
        }
    }
}

#[test]
fn every_percentage_is_centered() {
    for percent in 0..=100 {
        for outer in [area(0, 0, 79, 23), area(7, 9, 133, 50), area(1, 1, 3, 2)] {
            let rect = centered_rect(percent, 100 - percent, outer);
            assert_eq!(rect, centered(percent, 100 - percent, outer), "{}", percent);
        }
    }
}

#[test]
fn large_screens_are_centered_on_to_the_cell() {
    for outer in [
        area(0, 0, 65535, 65535),
        area(1, 2, 65534, 65533),
        area(0, 0, 32767, 40001),
        area(100, 0, 54321, 12345),
    ] {
        for percent in [0, 1, 29, 30, 33, 50, 60, 70, 80, 99, 100] {
            assert_eq!(
                centered_rect(percent, percent, outer),
                centered(percent, percent, outer),
                "{} of {:?}",
                percent,
                outer
            );
        }
    }
}
