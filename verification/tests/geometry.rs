use chrono::{Datelike, NaiveDate};
use keeper_todo::classify::Treatment;
use keeper_todo::date::{Date, Moment};
use keeper_todo::keeper::Keeper;
use keeper_todo::measure::{measure, Extent};
use keeper_todo::canvas::{
    fit_scale, Canvas, FontScale, CHAR_ASPECT_DEN, CHAR_ASPECT_NUM, SIDE_TRIM,
};
use keeper_todo::draw::DrawOp;
use keeper_todo::palette::{Palette, Rgb};
use keeper_todo::raster::KeeperRenderer;
use keeper_todo::selection::ShowSet;
use keeper_todo::text::{ColorStyle, KeeperDisplay};

fn date(year: i32, month: u32, day: u32) -> Date {
    let naive = NaiveDate::from_ymd_opt(year, month, day).unwrap();
    Date::from_days(naive.num_days_from_ce()).unwrap()
}

fn at(day: Date, hour: u32) -> Moment {
    Moment::new(day, hour * 3600, 0)
}

fn shape(ops: &[DrawOp]) -> Vec<Option<(Rgb, String)>> {
    ops.iter()
        .map(|op| match op {
            DrawOp::Text { color, text } => Some((*color, text.clone())),
            DrawOp::LineBreak => None,
        })
        .collect()
}

fn run(color: Rgb, text: &str) -> Option<(Rgb, String)> {
    Some((color, text.to_string()))
}

const WHITE: Rgb = Rgb { r: 0xd8, g: 0xde, b: 0xe9 };
const GREEN: Rgb = Rgb { r: 0xa3, g: 0xbe, b: 0x8c };
const RED: Rgb = Rgb { r: 0xbf, g: 0x61, b: 0x6a };
const BLUE: Rgb = Rgb { r: 0x81, g: 0xa1, b: 0xc1 };

#[test]
fn measure_counts_lines_and_finds_the_longest() {
    assert_eq!(measure(""), Extent { lines: 0, longest: 0 });
    assert_eq!(measure("a"), Extent { lines: 1, longest: 1 });
    assert_eq!(measure("a\n"), Extent { lines: 1, longest: 1 });
    assert_eq!(measure("\n"), Extent { lines: 1, longest: 0 });
    assert_eq!(measure("a\n\n"), Extent { lines: 2, longest: 1 });
    assert_eq!(measure("a\nbcd"), Extent { lines: 2, longest: 3 });
    assert_eq!(measure("abcd\nb\ncc\n"), Extent { lines: 3, longest: 4 });
    assert_eq!(measure("\n\n\n"), Extent { lines: 3, longest: 0 });
}

#[test]
fn measure_agrees_with_the_standard_line_splitting() {
    for text in [
        "",
        "one",
        "one\ntwo\n",
        "one\r\ntwo\r\n",
        "ab\r",
        "ab\r\n",
        "\r\n",
        "\r",
        "a\r\r\nb",
        "05 Jan 2024\n[9] (buy milk)\n\n06 Jan 2024\nEmpty\n",
        "x\n\ny",
    ] {
        let lines = text.lines().count();
        let longest = text.lines().map(|l| l.chars().count()).max().unwrap_or(0);
        assert_eq!(measure(text), Extent { lines, longest }, "{text:?}");
    }
}

#[test]
fn measure_counts_characters_not_bytes() {
    assert_eq!(measure("caf\u{e9}\nab"), Extent { lines: 2, longest: 4 });
    assert_eq!(measure("\u{1F600}"), Extent { lines: 1, longest: 1 });
}

#[test]
fn screen_canvas_and_nord_palette_have_the_fixed_values() {
    let canvas = Canvas::screen();
    assert_eq!(canvas, Canvas { width: 1470, height: 956, y_start: 35, y_pad: 20, x_pad: 35 });
    assert!(canvas.check_room());
    assert_eq!((CHAR_ASPECT_NUM, CHAR_ASPECT_DEN, SIDE_TRIM), (19, 10, 20));
    let palette = Palette::nord();
    assert_eq!(palette.background, Rgb { r: 0x2e, g: 0x34, b: 0x40 });
    assert_eq!(palette.text, WHITE);
    assert_eq!(palette.done, GREEN);
    assert_eq!(palette.overdue, RED);
    assert_eq!(palette.pending, BLUE);
}

#[test]
fn palette_follows_the_treatment() {
    let palette = Palette::nord();
    assert_eq!(palette.bracket(Treatment::Done), GREEN);
    assert_eq!(palette.bracket(Treatment::Overdue), RED);
    assert_eq!(palette.bracket(Treatment::Pending), BLUE);
    assert_eq!(palette.paren(Treatment::Done), GREEN);
    assert_eq!(palette.paren(Treatment::Overdue), RED);
    assert_eq!(palette.paren(Treatment::Pending), WHITE);
}

#[test]
fn canvas_without_room_is_recognised() {
    let base = Canvas::screen();
    assert!(!Canvas { height: 75, ..base }.check_room());
    assert!(Canvas { height: 76, ..base }.check_room());
    assert!(!Canvas { width: 90, ..base }.check_room());
    assert!(Canvas { width: 91, ..base }.check_room());
    assert!(!Canvas { x_pad: u32::MAX, ..base }.check_room());
    assert!(!Canvas { y_pad: u32::MAX, y_start: u32::MAX, ..base }.check_room());
    let huge = Canvas { width: u32::MAX, height: u32::MAX, y_start: 0, y_pad: 0, x_pad: 0x8000_0000 };
    assert!(!huge.check_room());
}

#[test]
fn scale_is_by_width_when_lines_are_long() {
    let canvas = Canvas::screen();
    let scale = fit_scale(Extent { lines: 2, longest: 14 }, &canvas).unwrap();
    assert_eq!(scale, FontScale { num: 1380 * 19, den: 14 * 10 });
}

#[test]
fn scale_is_by_height_when_lines_are_many() {
    let canvas = Canvas::screen();
    let scale = fit_scale(Extent { lines: 50, longest: 14 }, &canvas).unwrap();
    assert_eq!(scale, FontScale { num: 881, den: 50 });
    let no_width = fit_scale(Extent { lines: 3, longest: 0 }, &canvas).unwrap();
    assert_eq!(no_width, FontScale { num: 881, den: 3 });
}

#[test]
fn scale_is_the_smaller_of_the_two_ratios() {
    let canvas = Canvas::screen();
    let usable_height = (956 - 2 * 20 - 35) as f32;
    let usable_width = (1470 - 2 * 35 - 20) as f32;
    for lines in [1usize, 2, 3, 7, 20, 48, 49, 50, 200] {
        for longest in [1usize, 5, 11, 14, 40, 77, 78, 300] {
            let scale = fit_scale(Extent { lines, longest }, &canvas).unwrap();
            let got = scale.num as f32 / scale.den as f32;
            let width = longest as f32 / 1.9;
            let expected = (usable_height / lines as f32).min(usable_width / width);
            assert!(
                (got - expected).abs() <= expected * 1e-5,
                "{lines} x {longest}: {got} vs {expected}"
            );
        }
    }
}

#[test]
fn equal_ratios_give_the_scale_by_height() {
    let canvas = Canvas { width: 120, height: 48, y_start: 0, y_pad: 0, x_pad: 0 };
    // usable 100 by 48: 48 / 4 == 100 * 19 / (10 * w) needs w = 190 / 12, so take another canvas
    assert_eq!(
        fit_scale(Extent { lines: 4, longest: 1 }, &canvas),
        Some(FontScale { num: 48, den: 4 })
    );
    let square = Canvas { width: 30, height: 19, y_start: 0, y_pad: 0, x_pad: 0 };
    // usable 10 by 19: by height 19 / 1, by width 10 * 19 / (10 * 1)
    assert_eq!(
        fit_scale(Extent { lines: 1, longest: 1 }, &square),
        Some(FontScale { num: 19, den: 1 })
    );
}

#[test]
fn no_scale_without_lines_or_room() {
    let canvas = Canvas::screen();
    assert_eq!(fit_scale(Extent { lines: 0, longest: 0 }, &canvas), None);
    assert_eq!(fit_scale(Extent { lines: 0, longest: 9 }, &canvas), None);
    let cramped = Canvas { height: 75, ..canvas };
    assert_eq!(fit_scale(Extent { lines: 2, longest: 14 }, &cramped), None);
}

#[test]
fn scale_of_the_largest_inputs_does_not_overflow() {
    let canvas = Canvas { width: u32::MAX, height: u32::MAX, y_start: 0, y_pad: 0, x_pad: 0 };
    let scale = fit_scale(Extent { lines: usize::MAX, longest: usize::MAX }, &canvas).unwrap();
    assert_eq!(scale, FontScale { num: u32::MAX as u128, den: usize::MAX as u128 });
    let wide = fit_scale(Extent { lines: 1, longest: usize::MAX }, &canvas).unwrap();
    assert_eq!(
        wide,
        FontScale { num: (u32::MAX as u128 - 20) * 19, den: usize::MAX as u128 * 10 }
    );
}

#[test]
fn renderer_takes_its_scale_from_the_plain_text() {
    let today = date(2024, 1, 5);
    let mut keeper = Keeper::new();
    keeper.add(today, "buy milk", 9);
    // "05 Jan 2024" and "[9] (buy milk)": 2 lines, the longest of 14 characters
    let renderer =
        KeeperRenderer::new(&keeper, ShowSet::Date(today), at(today, 8), &Canvas::screen(), Palette::nord())
            .unwrap();
    let scale = renderer.scale.unwrap();
    assert_eq!(scale, FontScale { num: 1380 * 19, den: 140 });
    assert_eq!((renderer.left, renderer.xpos, renderer.ypos), (35, 35, 55));
    let size = scale.num as f32 / scale.den as f32;
    let expected = (881.0f32 / 2.0).min(1380.0 / (14.0 / 1.9));
    assert!((size - expected).abs() < 1e-3);
}

#[test]
fn selection_of_no_days_has_a_layout_with_nothing_to_draw() {
    let today = date(2024, 1, 5);
    let mut keeper = Keeper::new();
    keeper.add(today, "buy milk", 9);
    let renderer =
        KeeperRenderer::new(&keeper, ShowSet::Days(0), at(today, 8), &Canvas::screen(), Palette::nord())
            .unwrap();
    assert_eq!(renderer.scale, None);
    assert!(renderer.render().is_empty());
    assert_eq!((renderer.left, renderer.xpos, renderer.ypos), (35, 35, 55));
}

#[test]
fn canvas_without_room_has_no_layout() {
    let today = date(2024, 1, 5);
    let keeper = Keeper::new();
    let cramped = Canvas { width: 10, ..Canvas::screen() };
    assert!(KeeperRenderer::new(&keeper, ShowSet::Days(1), at(today, 8), &cramped, Palette::nord())
        .is_none());
    assert!(KeeperRenderer::new(&keeper, ShowSet::Days(0), at(today, 8), &cramped, Palette::nord())
        .is_none());
}

#[test]
fn cursor_moves_right_by_runs_and_down_by_lines() {
    let today = date(2024, 1, 5);
    let keeper = Keeper::new();
    let mut renderer =
        KeeperRenderer::new(&keeper, ShowSet::Date(today), at(today, 8), &Canvas::screen(), Palette::nord())
            .unwrap();
    renderer.render_literal(120);
    assert_eq!((renderer.xpos, renderer.ypos), (155, 55));
    renderer.render_literal(7);
    assert_eq!((renderer.xpos, renderer.ypos), (162, 55));
    renderer.render_newline(40);
    assert_eq!((renderer.xpos, renderer.ypos), (35, 95));
    renderer.render_literal(0);
    renderer.render_newline(40);
    assert_eq!((renderer.xpos, renderer.ypos), (35, 135));
    assert_eq!(renderer.left, 35);
}

#[test]
fn render_day_draws_header_tag_and_tasks() {
    let today = date(2024, 1, 5);
    let mut keeper = Keeper::new();
    keeper.add(today, "buy milk", 9);
    keeper.add(today, "call", 9);
    keeper.add(today, "sleep", 23);
    keeper.mark(today, 9, 1);
    let renderer =
        KeeperRenderer::new(&keeper, ShowSet::Date(today), at(today, 10), &Canvas::screen(), Palette::nord())
            .unwrap();
    let ops = renderer.render();
    assert_eq!(
        shape(&ops),
        vec![
            run(WHITE, "05 Jan 2024"),
            None,
            run(RED, "[9]"),
            run(RED, " ("),
            run(WHITE, "buy milk"),
            run(RED, ")"),
            run(GREEN, " ("),
            run(WHITE, "call"),
            run(GREEN, ")"),
            None,
            run(BLUE, "[23]"),
            run(WHITE, " ("),
            run(WHITE, "sleep"),
            run(WHITE, ")"),
            None,
        ]
    );
}

#[test]
fn render_of_an_all_done_slot_is_in_the_done_colour() {
    let today = date(2024, 1, 5);
    let mut keeper = Keeper::new();
    keeper.add(today, "buy milk", 9);
    keeper.mark(today, 9, 0);
    let renderer =
        KeeperRenderer::new(&keeper, ShowSet::Date(today), at(today, 8), &Canvas::screen(), Palette::nord())
            .unwrap();
    assert_eq!(
        shape(&renderer.render()),
        vec![
            run(WHITE, "05 Jan 2024"),
            None,
            run(GREEN, "[9]"),
            run(GREEN, " ("),
            run(WHITE, "buy milk"),
            run(GREEN, ")"),
            None,
        ]
    );
}

#[test]
fn render_of_a_day_without_schedule_ends_the_placeholder_line() {
    let today = date(2024, 1, 5);
    let mut keeper = Keeper::new();
    keeper.add(date(2024, 1, 6), "tomorrow's", 7);
    let renderer =
        KeeperRenderer::new(&keeper, ShowSet::Days(2), at(today, 8), &Canvas::screen(), Palette::nord())
            .unwrap();
    assert_eq!(
        shape(&renderer.render()),
        vec![
            run(WHITE, "05 Jan 2024"),
            None,
            run(WHITE, "Empty"),
            None,
            run(WHITE, "06 Jan 2024"),
            None,
            run(BLUE, "[7]"),
            run(WHITE, " ("),
            run(WHITE, "tomorrow's"),
            run(WHITE, ")"),
            None,
        ]
    );
    // the text has 5 lines (with the blank one), the longest "[7] (tomorrow's)" of 16
    // characters: 881 / 5 by height, 1380 * 19 / 160 by width, which is the smaller
    assert_eq!(renderer.scale, Some(FontScale { num: 1380 * 19, den: 160 }));
}

#[test]
fn render_day_appends_to_what_is_there() {
    let today = date(2024, 1, 5);
    let keeper = Keeper::new();
    let renderer =
        KeeperRenderer::new(&keeper, ShowSet::Date(today), at(today, 8), &Canvas::screen(), Palette::nord())
            .unwrap();
    let mut ops = vec![DrawOp::LineBreak];
    renderer.render_day(&mut ops, date(2024, 1, 7));
    assert_eq!(
        shape(&ops),
        vec![None, run(WHITE, "07 Jan 2024"), None, run(WHITE, "Empty"), None]
    );
}

#[test]
fn a_day_without_schedule_takes_two_lines_and_leaves_the_cursor_at_the_left() {
    let today = date(2024, 1, 5);
    let keeper = Keeper::new();
    let mut renderer =
        KeeperRenderer::new(&keeper, ShowSet::Date(today), at(today, 8), &Canvas::screen(), Palette::nord())
            .unwrap();
    let (x0, y0) = (renderer.xpos, renderer.ypos);
    let line_height = 40;
    for op in renderer.render() {
        match op {
            DrawOp::Text { text, .. } => renderer.render_literal(10 * text.chars().count() as i32),
            DrawOp::LineBreak => renderer.render_newline(line_height),
        }
    }
    assert_eq!(x0, 35);
    assert_eq!((renderer.xpos, renderer.ypos), (x0, y0 + 2 * line_height));
}

#[test]
fn the_drawing_spells_the_plain_text_of_a_date() {
    let today = date(2024, 1, 5);
    let mut keeper = Keeper::new();
    keeper.add(today, "buy milk", 9);
    keeper.add(today, "call", 9);
    keeper.add(today, "sleep", 23);
    for (shown, now) in [(today, at(today, 10)), (date(2024, 1, 6), at(today, 10))] {
        let renderer =
            KeeperRenderer::new(&keeper, ShowSet::Date(shown), now, &Canvas::screen(), Palette::nord())
                .unwrap();
        let mut spelled = String::new();
        for op in renderer.render() {
            match op {
                DrawOp::Text { text, .. } => spelled.push_str(&text),
                DrawOp::LineBreak => spelled.push('\n'),
            }
        }
        let plain =
            KeeperDisplay::new(&keeper, ShowSet::Date(shown), ColorStyle::NoColor, now).to_text();
        assert_eq!(spelled, plain);
    }
}

#[test]
fn the_plain_text_measures_the_drawing() {
    let today = date(2024, 1, 5);
    let mut keeper = Keeper::new();
    keeper.add(today, "buy milk", 9);
    keeper.add(date(2024, 1, 7), "a rather long description of a task", 20);
    for count in [0usize, 1, 2, 3, 5] {
        let now = at(today, 10);
        let renderer =
            KeeperRenderer::new(&keeper, ShowSet::Days(count), now, &Canvas::screen(), Palette::nord())
                .unwrap();
        let mut spelled = String::new();
        for op in renderer.render() {
            match op {
                DrawOp::Text { text, .. } => spelled.push_str(&text),
                DrawOp::LineBreak => spelled.push('\n'),
            }
        }
        let text =
            KeeperDisplay::new(&keeper, ShowSet::Days(count), ColorStyle::NoColor, now).to_text();
        let drawn = measure(&spelled);
        let measured = measure(&text);
        assert!(drawn.lines <= measured.lines);
        assert_eq!(drawn.lines + count.saturating_sub(1), measured.lines);
        assert_eq!(drawn.longest, measured.longest);
        assert_eq!(spelled, text.replace("\n\n", "\n"));
    }
}
