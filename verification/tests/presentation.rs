use dive_computer::presentation::{Presenter, MM_PER_FOOT, TEXT_CAPACITY};
use dive_computer::{Alarm, DiveComputer, Unit};

fn rendered(computer: &DiveComputer) -> String {
    let mut presenter = Presenter::new();
    presenter.render(computer);
    presenter.text().to_string()
}

/// The text block as the standard formatter lays it out.
fn formatted(computer: &DiveComputer) -> String {
    let imperial = computer.unit() == Unit::Imperial;
    let unit = if imperial { "FT" } else { "M" };
    let depth = if imperial { computer.depth() / 305 } else { computer.depth() / 1000 };
    let rate = if imperial { computer.rate() * 1000 / 305 } else { computer.rate() };
    let edt = computer.elapsed_ms();
    let hours = edt / 3_600_000;
    let minutes = edt % 3_600_000 / 60_000;
    let seconds = edt % 3_600_000 % 60_000 / 1000;
    let alarm = match computer.get_alarm() {
        Alarm::High => "HIGH",
        Alarm::Medium => "MEDIUM",
        Alarm::Low => "LOW",
        Alarm::Off => "NONE",
    };
    let mut text = String::new();
    text += "DiveMaster\n";
    text += "\n";
    text += &format!("DEPTH: {:width$}{}\n", depth, unit, width = if imperial { 11 } else { 12 });
    text += &format!("RATE: {:width$}{}/M\n", rate, unit, width = if imperial { 10 } else { 11 });
    text += &format!("AIR: {:14}L\n", computer.air() / 100);
    text += &format!("EDT: {:9}:{:0>2}:{:0>2}\n", hours, minutes, seconds);
    text += &format!("ALARM: {:width$}{:13}\n\n", "", alarm, width = 13 - alarm.len());
    text
}

#[test]
fn a_new_presenter_is_empty() {
    assert_eq!(Presenter::new().text(), "");
}

#[test]
fn a_fresh_computer() {
    let text = rendered(&DiveComputer::new());
    let expected = [
        "DiveMaster",
        "",
        "DEPTH:            0M",
        "RATE:           0M/M",
        "AIR:             50L",
        "EDT:         0:00:00",
        "ALARM:          NONE         ",
        "",
        "",
    ]
    .join("\n");
    assert_eq!(text, expected);
}

#[test]
fn a_dive_in_metres() {
    let computer =
        DiveComputer::from_parts(Unit::Metric, 41_999, -16, 199_999, 3_723_999).unwrap();
    let expected = [
        "DiveMaster",
        "",
        "DEPTH:           41M",
        "RATE:         -16M/M",
        "AIR:           1999L",
        "EDT:         1:02:03",
        "ALARM:        MEDIUM       ",
        "",
        "",
    ]
    .join("\n");
    assert_eq!(rendered(&computer), expected);
}

#[test]
fn a_dive_in_feet() {
    let computer = DiveComputer::from_parts(Unit::Imperial, 41_999, -16, 9_000, 59_999).unwrap();
    let expected = [
        "DiveMaster",
        "",
        "DEPTH:         137FT",
        "RATE:        -52FT/M",
        "AIR:             90L",
        "EDT:         0:00:59",
        "ALARM:          HIGH         ",
        "",
        "",
    ]
    .join("\n");
    assert_eq!(rendered(&computer), expected);
}

#[test]
fn too_deep() {
    let computer = DiveComputer::from_parts(Unit::Metric, 40_001, 50, 200_000, 0).unwrap();
    let expected = [
        "DiveMaster",
        "",
        "DEPTH:           40M",
        "RATE:          50M/M",
        "AIR:           2000L",
        "EDT:         0:00:00",
        "ALARM:           LOW          ",
        "",
        "",
    ]
    .join("\n");
    assert_eq!(rendered(&computer), expected);
}

#[test]
fn feet_round_toward_zero() {
    assert_eq!(MM_PER_FOOT, 305);
    let ascending = DiveComputer::from_parts(Unit::Imperial, 3_050, -1, 5000, 0).unwrap();
    let text = rendered(&ascending);
    assert!(text.contains("DEPTH:          10FT\n"));
    assert!(text.contains("RATE:         -3FT/M\n"));
    let descending = DiveComputer::from_parts(Unit::Imperial, 3_049, 50, 5000, 0).unwrap();
    let text = rendered(&descending);
    assert!(text.contains("DEPTH:           9FT\n"));
    assert!(text.contains("RATE:        163FT/M\n"));
}

#[test]
fn hours_minutes_and_seconds() {
    for (elapsed_ms, line) in [
        (999u64, "EDT:         0:00:00\n"),
        (1_000, "EDT:         0:00:01\n"),
        (59_999, "EDT:         0:00:59\n"),
        (60_000, "EDT:         0:01:00\n"),
        (3_599_999, "EDT:         0:59:59\n"),
        (3_600_000, "EDT:         1:00:00\n"),
        (2 * 3_600_000 + 5 * 60_000 + 7_000, "EDT:         2:05:07\n"),
        (123_456_789 * 3_600_000 + 600_000, "EDT: 123456789:10:00\n"),
    ] {
        let computer = DiveComputer::from_parts(Unit::Metric, 1, 0, 5000, elapsed_ms).unwrap();
        assert!(rendered(&computer).contains(line), "{}", elapsed_ms);
    }
}

#[test]
fn many_hours_make_the_line_longer() {
    let computer = DiveComputer::from_parts(Unit::Metric, 1, 0, 5000, u64::MAX).unwrap();
    let text = rendered(&computer);
    assert!(text.contains("EDT: 5124095576030:25:51\n"));
    assert_eq!(text, formatted(&computer));
}

#[test]
fn the_text_matches_the_standard_formatter() {
    let units = [Unit::Metric, Unit::Imperial];
    let depths = [0u32, 1, 304, 305, 999, 1000, 9_999, 40_000, 40_001, 215_000, 2_147_483_647];
    let rates = [-50, -16, -15, -1, 0, 1, 9, 10, 50];
    let airs = [0u32, 99, 100, 999, 5000, 200_000];
    let times = [0u64, 999, 61_000, 3_600_000, 86_399_999, 3_600_000_000_000_000];
    for unit in units {
        for depth in depths {
            for rate in rates {
                for air in airs {
                    for time in times {
                        let computer =
                            DiveComputer::from_parts(unit, depth, rate, air, time).unwrap();
                        assert_eq!(rendered(&computer), formatted(&computer));
                    }
                }
            }
        }
    }
}

#[test]
fn the_lines_keep_their_width() {
    for unit in [Unit::Metric, Unit::Imperial] {
        for (depth, rate, air) in [(0u32, 0, 0u32), (2_147_483_647, -50, 200_000), (7, 50, 5)] {
            let computer = DiveComputer::from_parts(unit, depth, rate, air, 0).unwrap();
            let text = rendered(&computer);
            let lines: Vec<&str> = text.split('\n').collect();
            assert_eq!(lines.len(), 9);
            assert_eq!(lines[0], "DiveMaster");
            assert_eq!(lines[1], "");
            for line in &lines[2..6] {
                assert_eq!(line.len(), 20);
            }
            assert!(lines[2].starts_with("DEPTH: "));
            assert!(lines[3].starts_with("RATE: "));
            assert!(lines[4].starts_with("AIR: "));
            assert!(lines[5].starts_with("EDT: "));
            assert!(lines[6].starts_with("ALARM: "));
            assert_eq!(lines[6].trim_end().len(), 20);
            assert_eq!(lines[7], "");
            assert_eq!(lines[8], "");
        }
    }
}

#[test]
fn the_longest_text_fits_the_buffer() {
    assert_eq!(TEXT_CAPACITY, 200);
    let computer =
        DiveComputer::from_parts(Unit::Imperial, 2_147_483_647, -50, 200_000, u64::MAX).unwrap();
    let text = rendered(&computer);
    assert_eq!(text, formatted(&computer));
    assert!(text.len() <= 132);
    let low = DiveComputer::from_parts(Unit::Metric, 40_001, 0, 200_000, u64::MAX).unwrap();
    assert_eq!(rendered(&low).len(), 132);
}

#[test]
fn rendering_replaces_the_old_text() {
    let mut presenter = Presenter::new();
    let first = DiveComputer::from_parts(Unit::Metric, 45_000, -20, 200_000, 0).unwrap();
    presenter.render(&first);
    assert!(presenter.text().contains("MEDIUM"));
    let second = DiveComputer::new();
    presenter.render(&second);
    assert_eq!(presenter.text(), formatted(&second));
    presenter.render(&second);
    assert_eq!(presenter.text(), formatted(&second));
}
