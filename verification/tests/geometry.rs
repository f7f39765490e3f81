use rect_renderer::{
    resolve, DecoratedCell, DecorationKind, Flags, LineAggregator, Metrics, Point, RectStyle,
    RenderRect, Rgb, SizeInfo,
};

const WHITE: Rgb = Rgb { r: 255, g: 255, b: 255 };
const GREEN: Rgb = Rgb { r: 0, g: 200, b: 0 };

/// Whole pixels in subpixels.
fn px(pixels: i32) -> i32 {
    pixels * 64
}

/// A font of 20 pixels: the descent reaches 4 pixels below the baseline,
/// the underline lies 2 pixels below it and the strikeout 5 pixels above.
fn font() -> Metrics {
    Metrics {
        descent: px(-4),
        underline_position: px(-2),
        underline_thickness: px(1),
        strikeout_position: px(5),
        strikeout_thickness: px(1),
    }
}

/// Cells of 10 by 20 pixels in a window of 800 by 600, with a margin of 3
/// pixels to the left and 5 above.
fn layout() -> SizeInfo {
    SizeInfo {
        width: px(800),
        height: px(600),
        cell_width: px(10),
        cell_height: px(20),
        padding_x: px(3),
        padding_y: px(5),
    }
}

fn lines_of(kind: DecorationKind, row: u16, columns: std::ops::RangeInclusive<u16>) -> LineAggregator {
    let mut lines = LineAggregator::new();
    for column in columns {
        lines.update(&DecoratedCell::new(
            Point::new(row, column),
            GREEN,
            Flags::empty().with(kind),
        ));
    }
    lines
}

fn solid(x: i64, y: i64, width: i64, height: i64) -> RenderRect {
    RenderRect { x, y, width, height, color: GREEN, alpha: 255, style: RectStyle::Solid }
}

fn dashed(x: i64, y: i64, width: i64, height: i64, period: i64) -> RenderRect {
    RenderRect { x, y, width, height, color: GREEN, alpha: 255, style: RectStyle::Dashed { period } }
}

#[test]
fn underlined_row_resolves_to_one_solid_rect() {
    let mut lines = LineAggregator::new();
    for column in 0..4 {
        lines.update(&DecoratedCell::new(
            Point::new(0, column),
            WHITE,
            Flags::empty().with(DecorationKind::SingleUnderline),
        ));
    }
    let runs = lines.bucket(DecorationKind::SingleUnderline);
    assert_eq!(runs.len(), 1);
    assert_eq!(runs[0].start, Point::new(0, 0));
    assert_eq!(runs[0].end, Point::new(0, 3));
    assert_eq!(runs[0].color, WHITE);

    let metrics = Metrics {
        descent: px(4),
        underline_position: px(2),
        underline_thickness: px(1),
        strikeout_position: 0,
        strikeout_thickness: 0,
    };
    let size = SizeInfo {
        width: px(40),
        height: px(20),
        cell_width: px(10),
        cell_height: px(20),
        padding_x: 0,
        padding_y: 0,
    };
    // The middle of the line would lie at 20 + 4 - 2 = 22 pixels, below
    // the row: the line is moved up to end with the row, at 20 - 1.
    assert_eq!(
        resolve(&lines, &metrics, &size),
        vec![RenderRect {
            x: 0,
            y: 19 * 64,
            width: 40 * 64,
            height: 64,
            color: WHITE,
            alpha: 255,
            style: RectStyle::Solid,
        }]
    );
}

#[test]
fn no_runs_no_rects() {
    assert!(resolve(&LineAggregator::new(), &font(), &layout()).is_empty());
}

#[test]
fn underline_is_placed_below_the_baseline() {
    let lines = lines_of(DecorationKind::SingleUnderline, 2, 4..=6);
    // x = 4 * 10 + 3, width = 3 * 10; baseline = 3 * 20 - 4 = 56;
    // y = ceil(56 + 2 - 0.5) + 5 = 58 + 5.
    assert_eq!(resolve(&lines, &font(), &layout()), vec![solid(43 * 64, 63 * 64, 30 * 64, 64)]);
}

#[test]
fn strikeout_is_placed_above_the_baseline() {
    let lines = lines_of(DecorationKind::StrikeOut, 2, 4..=6);
    // y = ceil(56 - 5 - 0.5) + 5 = 51 + 5.
    assert_eq!(resolve(&lines, &font(), &layout()), vec![solid(43 * 64, 56 * 64, 30 * 64, 64)]);
}

#[test]
fn strikeout_uses_its_own_thickness() {
    let lines = lines_of(DecorationKind::StrikeOut, 0, 0..=0);
    let metrics = Metrics { strikeout_thickness: px(3), underline_thickness: px(2), ..font() };
    // y = ceil(16 - 5 - 1.5) + 5 = 10 + 5.
    assert_eq!(resolve(&lines, &metrics, &layout()), vec![solid(3 * 64, 15 * 64, 10 * 64, 3 * 64)]);
}

#[test]
fn double_underline_gives_two_solid_rects() {
    let lines = lines_of(DecorationKind::DoubleUnderline, 2, 4..=6);
    // First line: ceil(56 + 1 - 0.5) + 5 = 57 + 5. Second line:
    // ceil(56 + 3 - 0.5) = 59, which is the lowest place in the row.
    assert_eq!(
        resolve(&lines, &font(), &layout()),
        vec![solid(43 * 64, 62 * 64, 30 * 64, 64), solid(43 * 64, 64 * 64, 30 * 64, 64)]
    );
}

#[test]
fn double_underline_gives_two_rects_for_each_run() {
    let mut lines = LineAggregator::new();
    for (row, column) in [(0, 0), (0, 1), (0, 5), (1, 0), (3, 7)] {
        lines.update(&DecoratedCell::new(
            Point::new(row, column),
            GREEN,
            Flags::empty().with(DecorationKind::DoubleUnderline),
        ));
    }
    let runs = lines.bucket(DecorationKind::DoubleUnderline).clone();
    assert_eq!(runs.len(), 4);
    let rects = resolve(&lines, &font(), &layout());
    assert_eq!(rects.len(), 8);
    for (k, run) in runs.iter().enumerate() {
        let upper = rects[2 * k];
        let lower = rects[2 * k + 1];
        assert_eq!(upper.style, RectStyle::Solid);
        assert_eq!(lower.style, RectStyle::Solid);
        assert_eq!(upper.x, run.start.column as i64 * 640 + 192);
        assert_eq!(lower.x, upper.x);
        assert_eq!(lower.width, upper.width);
        assert_eq!(lower.height, upper.height);
        assert!(lower.y > upper.y);
        assert_eq!(lower.y - upper.y, 2 * 64);
    }
}

#[test]
fn double_underline_in_a_high_row() {
    let lines = lines_of(DecorationKind::DoubleUnderline, 0, 0..=0);
    let metrics = Metrics { descent: px(-8), ..font() };
    let size = SizeInfo { cell_height: px(40), ..layout() };
    // Baseline at 32: the lines at ceil(32 + 2 - 0.5) and ceil(32 + 6 - 0.5).
    assert_eq!(
        resolve(&lines, &metrics, &size),
        vec![solid(3 * 64, 39 * 64, 10 * 64, 64), solid(3 * 64, 43 * 64, 10 * 64, 64)]
    );
}

#[test]
fn double_underline_with_descent_above_the_baseline() {
    let lines = lines_of(DecorationKind::DoubleUnderline, 0, 0..=0);
    let metrics = Metrics { descent: px(8), ..font() };
    let size = SizeInfo { cell_height: px(40), ..layout() };
    // Baseline at 48, below the row: the lines at ceil(48 - 2 - 0.5) and
    // ceil(48 - 6 - 0.5) are both moved up to end with the row, at 40 - 1.
    assert_eq!(
        resolve(&lines, &metrics, &size),
        vec![solid(3 * 64, 44 * 64, 10 * 64, 64), solid(3 * 64, 44 * 64, 10 * 64, 64)]
    );
}

#[test]
fn double_underline_with_fractional_descent() {
    let lines = lines_of(DecorationKind::DoubleUnderline, 0, 0..=0);
    // Descent of 3.5 pixels: baseline at 16.5, the lines 0.875 and 2.625
    // below it: ceil(16.5 + 0.875 - 0.5) = 17 and ceil(16.5 + 2.625 - 0.5) = 19.
    let metrics = Metrics { descent: -224, ..font() };
    assert_eq!(
        resolve(&lines, &metrics, &layout()),
        vec![solid(3 * 64, 22 * 64, 10 * 64, 64), solid(3 * 64, 24 * 64, 10 * 64, 64)]
    );
}

#[test]
fn dotted_underline_has_twice_its_thickness_as_period() {
    let lines = lines_of(DecorationKind::DottedUnderline, 2, 4..=6);
    assert_eq!(
        resolve(&lines, &font(), &layout()),
        vec![dashed(43 * 64, 63 * 64, 30 * 64, 64, 2 * 64)]
    );
}

#[test]
fn dotted_period_rounds_the_thickness() {
    let lines = lines_of(DecorationKind::DottedUnderline, 0, 0..=0);
    let period = |thickness: i32| {
        let metrics = Metrics { underline_thickness: thickness, ..font() };
        match resolve(&lines, &metrics, &layout())[0].style {
            RectStyle::Dashed { period } => period,
            RectStyle::Solid => panic!("a dotted underline is dashed"),
        }
    };
    assert_eq!(period(0), 2 * 64);
    assert_eq!(period(-640), 2 * 64);
    assert_eq!(period(64), 2 * 64);
    assert_eq!(period(95), 2 * 64);
    assert_eq!(period(96), 4 * 64);
    assert_eq!(period(144), 4 * 64);
    assert_eq!(period(160), 6 * 64);
    assert_eq!(period(192), 6 * 64);
    assert_eq!(period(i32::MAX), 2 * 64 * (1 << 25));
}

#[test]
fn dashed_underline_has_half_a_cell_as_period() {
    let lines = lines_of(DecorationKind::DashedUnderline, 2, 4..=6);
    // A quarter of 10 pixels is 2.5, rounded 3, doubled 6.
    assert_eq!(
        resolve(&lines, &font(), &layout()),
        vec![dashed(43 * 64, 63 * 64, 30 * 64, 64, 6 * 64)]
    );
}

#[test]
fn dashed_period_rounds_a_quarter_of_the_cell_width() {
    let lines = lines_of(DecorationKind::DashedUnderline, 0, 0..=0);
    let period = |cell_width: i32| {
        let size = SizeInfo { cell_width, ..layout() };
        match resolve(&lines, &font(), &size)[0].style {
            RectStyle::Dashed { period } => period,
            RectStyle::Solid => panic!("a dashed underline is dashed"),
        }
    };
    assert_eq!(period(0), 4 * 64);
    assert_eq!(period(-640), 4 * 64);
    assert_eq!(period(px(4)), 4 * 64);
    assert_eq!(period(px(8)), 4 * 64);
    assert_eq!(period(px(9)), 4 * 64);
    assert_eq!(period(px(10)), 6 * 64);
    assert_eq!(period(672), 6 * 64);
    assert_eq!(period(px(12)), 6 * 64);
    assert_eq!(period(px(14)), 8 * 64);
    assert_eq!(period(px(16)), 8 * 64);
    assert_eq!(period(i32::MAX), 2 * 64 * (1 << 23));
}

#[test]
fn thickness_is_at_least_one_pixel() {
    for kind in [
        DecorationKind::StrikeOut,
        DecorationKind::SingleUnderline,
        DecorationKind::DoubleUnderline,
        DecorationKind::DottedUnderline,
        DecorationKind::DashedUnderline,
    ] {
        let lines = lines_of(kind, 1, 0..=2);
        for thickness in [i32::MIN, -64, 0, 1, 32, 63, 64] {
            let metrics = Metrics {
                underline_thickness: thickness,
                strikeout_thickness: thickness,
                ..font()
            };
            let rects = resolve(&lines, &metrics, &layout());
            assert!(!rects.is_empty());
            for rect in rects {
                assert_eq!(rect.height, 64);
            }
        }
        for thickness in [65, 96, 640, i32::MAX] {
            let metrics = Metrics {
                underline_thickness: thickness,
                strikeout_thickness: thickness,
                ..font()
            };
            for rect in resolve(&lines, &metrics, &layout()) {
                assert_eq!(rect.height, thickness as i64);
            }
        }
    }
}

#[test]
fn thin_line_is_placed_as_a_line_of_one_pixel() {
    let lines = lines_of(DecorationKind::SingleUnderline, 2, 4..=6);
    let thin = Metrics { underline_thickness: 0, ..font() };
    assert_eq!(resolve(&lines, &thin, &layout()), resolve(&lines, &font(), &layout()));
}

#[test]
fn fractional_thickness_is_kept() {
    let lines = lines_of(DecorationKind::SingleUnderline, 2, 4..=6);
    let metrics = Metrics { underline_thickness: 96, ..font() };
    // y = ceil(56 + 2 - 0.75) + 5 = 58 + 5.
    assert_eq!(resolve(&lines, &metrics, &layout()), vec![solid(43 * 64, 63 * 64, 30 * 64, 96)]);
}

#[test]
fn rect_never_reaches_below_its_row() {
    let size = layout();
    for row in [0u16, 1, 7, 1000, u16::MAX] {
        let bottom = (row as i64 + 1) * size.cell_height as i64;
        for kind in [
            DecorationKind::StrikeOut,
            DecorationKind::SingleUnderline,
            DecorationKind::DoubleUnderline,
            DecorationKind::DottedUnderline,
            DecorationKind::DashedUnderline,
        ] {
            let lines = lines_of(kind, row, 3..=4);
            for position in [px(-1000), px(-20), px(-3), -1, 0, 1, px(3), px(1000)] {
                for thickness in [0, 64, 100, px(5), px(30)] {
                    let metrics = Metrics {
                        descent: position,
                        underline_position: position,
                        underline_thickness: thickness,
                        strikeout_position: position,
                        strikeout_thickness: thickness,
                    };
                    for rect in resolve(&lines, &metrics, &size) {
                        assert!(rect.y - size.padding_y as i64 <= bottom - rect.height);
                    }
                }
            }
        }
    }
}

#[test]
fn line_far_below_the_row_ends_with_the_row() {
    let lines = lines_of(DecorationKind::SingleUnderline, 2, 4..=6);
    let metrics = Metrics { underline_position: px(-50), underline_thickness: px(2), ..font() };
    assert_eq!(resolve(&lines, &metrics, &layout()), vec![solid(43 * 64, 63 * 64, 30 * 64, 128)]);
}

#[test]
fn line_far_above_the_row_is_not_moved() {
    let lines = lines_of(DecorationKind::SingleUnderline, 2, 4..=6);
    let metrics = Metrics { underline_position: px(100), ..font() };
    // y = ceil(56 - 100 - 0.5) + 5 = -44 + 5.
    assert_eq!(resolve(&lines, &metrics, &layout()), vec![solid(43 * 64, -39 * 64, 30 * 64, 64)]);
}

#[test]
fn top_is_rounded_up_to_a_whole_pixel() {
    let lines = lines_of(DecorationKind::SingleUnderline, 0, 0..=0);
    let size = SizeInfo { padding_x: 0, padding_y: 0, ..layout() };
    let top = |position: i32| {
        let metrics = Metrics { underline_position: position, ..font() };
        resolve(&lines, &metrics, &size)[0].y
    };
    // Baseline at 16 pixels, half the thickness is 0.5.
    assert_eq!(top(0), 16 * 64);
    assert_eq!(top(-1), 16 * 64);
    assert_eq!(top(-32), 16 * 64);
    assert_eq!(top(-33), 17 * 64);
    assert_eq!(top(-96), 17 * 64);
    assert_eq!(top(-97), 18 * 64);
    assert_eq!(top(31), 16 * 64);
    assert_eq!(top(32), 15 * 64);
    assert_eq!(top(95), 15 * 64);
    assert_eq!(top(96), 14 * 64);
}

#[test]
fn padding_moves_the_rect() {
    let lines = lines_of(DecorationKind::SingleUnderline, 2, 4..=6);
    let plain = SizeInfo { padding_x: 0, padding_y: 0, ..layout() };
    let moved = SizeInfo { padding_x: -100, padding_y: 77, ..layout() };
    let at_origin = resolve(&lines, &font(), &plain)[0];
    assert_eq!(at_origin, solid(40 * 64, 58 * 64, 30 * 64, 64));
    assert_eq!(
        resolve(&lines, &font(), &moved),
        vec![solid(40 * 64 - 100, 58 * 64 + 77, 30 * 64, 64)]
    );
}

#[test]
fn cells_without_width_give_a_rect_without_width() {
    let lines = lines_of(DecorationKind::SingleUnderline, 2, 4..=6);
    let size = SizeInfo { cell_width: 0, ..layout() };
    assert_eq!(resolve(&lines, &font(), &size), vec![solid(3 * 64, 63 * 64, 0, 64)]);
}

#[test]
fn rects_at_the_end_of_the_grid() {
    let lines = lines_of(DecorationKind::SingleUnderline, u16::MAX, u16::MAX..=u16::MAX);
    let size = SizeInfo {
        cell_width: i32::MAX,
        cell_height: i32::MAX,
        padding_x: i32::MAX,
        padding_y: i32::MAX,
        ..layout()
    };
    let metrics = Metrics {
        descent: i32::MAX,
        underline_position: i32::MIN,
        underline_thickness: i32::MAX,
        ..font()
    };
    let max = i32::MAX as i64;
    assert_eq!(
        resolve(&lines, &metrics, &size),
        vec![solid(65535 * max + max, 65536 * max - max + max, max, max)]
    );
}

#[test]
fn rects_come_kind_by_kind() {
    let mut lines = LineAggregator::new();
    let kinds = [
        DecorationKind::DashedUnderline,
        DecorationKind::DottedUnderline,
        DecorationKind::DoubleUnderline,
        DecorationKind::SingleUnderline,
        DecorationKind::StrikeOut,
    ];
    for (column, kind) in kinds.iter().enumerate() {
        lines.update(&DecoratedCell::new(
            Point::new(0, column as u16),
            GREEN,
            Flags::empty().with(*kind),
        ));
    }
    let size = SizeInfo { padding_x: 0, padding_y: 0, ..layout() };
    assert_eq!(
        resolve(&lines, &font(), &size),
        vec![
            solid(40 * 64, 11 * 64, 10 * 64, 64),
            solid(30 * 64, 18 * 64, 10 * 64, 64),
            solid(20 * 64, 17 * 64, 10 * 64, 64),
            solid(20 * 64, 19 * 64, 10 * 64, 64),
            dashed(10 * 64, 18 * 64, 10 * 64, 64, 2 * 64),
            dashed(0, 18 * 64, 10 * 64, 64, 6 * 64),
        ]
    );
}

#[test]
fn runs_of_a_kind_come_in_their_order() {
    let mut lines = LineAggregator::new();
    for (row, column) in [(0, 0), (0, 1), (0, 3), (2, 1)] {
        lines.update(&DecoratedCell::new(
            Point::new(row, column),
            GREEN,
            Flags::empty().with(DecorationKind::StrikeOut),
        ));
    }
    let size = SizeInfo { padding_x: 0, padding_y: 0, ..layout() };
    assert_eq!(
        resolve(&lines, &font(), &size),
        vec![
            solid(0, 11 * 64, 20 * 64, 64),
            solid(30 * 64, 11 * 64, 10 * 64, 64),
            solid(10 * 64, 51 * 64, 10 * 64, 64),
        ]
    );
}

#[test]
fn cell_with_two_decorations_gives_two_rects() {
    let mut lines = LineAggregator::new();
    lines.update(&DecoratedCell::new(
        Point::new(0, 0),
        GREEN,
        Flags::empty()
            .with(DecorationKind::SingleUnderline)
            .with(DecorationKind::StrikeOut)
            .with_wide(),
    ));
    let size = SizeInfo { padding_x: 0, padding_y: 0, ..layout() };
    assert_eq!(
        resolve(&lines, &font(), &size),
        vec![solid(0, 11 * 64, 20 * 64, 64), solid(0, 18 * 64, 20 * 64, 64)]
    );
}

#[test]
fn rect_has_the_color_of_its_run() {
    let mut lines = LineAggregator::new();
    let colors = [Rgb::new(1, 2, 3), Rgb::new(4, 5, 6)];
    for (column, color) in colors.iter().enumerate() {
        lines.update(&DecoratedCell::new(
            Point::new(0, column as u16),
            *color,
            Flags::empty().with(DecorationKind::SingleUnderline),
        ));
    }
    let rects = resolve(&lines, &font(), &layout());
    assert_eq!(rects.len(), 2);
    assert_eq!(rects[0].color, colors[0]);
    assert_eq!(rects[1].color, colors[1]);
    assert_eq!(rects[0].alpha, 255);
    assert_eq!(rects[1].alpha, 255);
}

#[test]
fn resolving_twice_gives_the_same_rects() {
    let mut lines = LineAggregator::new();
    for row in 0..5u16 {
        for column in 0..30u16 {
            let mut flags = Flags::from_bits(((row * 31 + column * 7) % 64) as u8);
            if column % 4 == 0 {
                flags = flags.with(DecorationKind::DoubleUnderline);
            }
            let fg = Rgb::new((column / 3) as u8, row as u8, 9);
            let cell = DecoratedCell::new(Point::new(row, column), fg, flags);
            assert!(cell.is_well_formed());
            lines.update(&cell);
        }
    }
    let first = resolve(&lines, &font(), &layout());
    let second = resolve(&lines, &font(), &layout());
    assert!(first.len() > 10);
    assert_eq!(first, second);
}

#[test]
fn same_cells_give_the_same_rects() {
    let cells: Vec<DecoratedCell> = (0..40u16)
        .map(|i| {
            DecoratedCell::new(
                Point::new(i / 10, i % 10),
                Rgb::new((i % 3) as u8, 0, 0),
                Flags::from_bits((i % 32) as u8),
            )
        })
        .collect();
    let mut first = LineAggregator::new();
    first.update_all(&cells);
    let mut second = LineAggregator::new();
    second.update(&cells[0]);
    second.reset();
    second.update_all(&cells);
    assert_eq!(resolve(&first, &font(), &layout()), resolve(&second, &font(), &layout()));
}

#[test]
fn one_rect_for_each_run_and_two_for_a_double_underline() {
    let kinds = [
        DecorationKind::StrikeOut,
        DecorationKind::SingleUnderline,
        DecorationKind::DoubleUnderline,
        DecorationKind::DottedUnderline,
        DecorationKind::DashedUnderline,
    ];
    let mut lines = LineAggregator::new();
    for row in 0..6u16 {
        for column in 0..25u16 {
            let flags = Flags::from_bits(((row * 7 + column * 13) % 32) as u8);
            lines.update(&DecoratedCell::new(Point::new(row, column), GREEN, flags));
        }
    }
    let expected: usize = kinds
        .iter()
        .map(|kind| {
            let runs = lines.bucket(*kind).len();
            if *kind == DecorationKind::DoubleUnderline {
                2 * runs
            } else {
                runs
            }
        })
        .sum();
    assert!(expected > 20);
    assert_eq!(resolve(&lines, &font(), &layout()).len(), expected);
}
