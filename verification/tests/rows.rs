use battery_info::report::{format_ratio, format_temperature};
use battery_info::snapshot::string_of;
use battery_info::{charging_symbol, format_opt, parse_report, Info, Style};

fn percent(part: isize, whole: isize) -> String {
    format!("{:.2}", part as f64 / whole as f64 * 100.0)
}

fn sample() -> Info {
    Info {
        temperature: "3200".to_string(),
        cycles_count: 120,
        design_capacity: 5500,
        max_capacity: 5000,
        current_capacity: 4000,
        is_charging: true,
    }
}

#[test]
fn styles_have_their_codes() {
    assert_eq!(Style::Reset.code(), "\x1b[0m");
    assert_eq!(Style::Bold.code(), "\x1b[1m");
    assert_eq!(Style::Normal.code(), "\x1b[22m");
    assert_eq!(Style::Italic.code(), "\x1b[3m");
    assert_eq!(Style::Blue.code(), "\x1b[34m");
    assert_eq!(Style::Red.code(), "\x1b[31m");
    assert_eq!(Style::Yellow.code(), "\x1b[33m");
    assert_eq!(Style::Cyan.code(), "\x1b[36m");
    assert_eq!(Style::Gray.code(), "\x1b[90m");
}

#[test]
fn format_opt_lays_out_a_row() {
    assert_eq!(
        format_opt("Label", "value", "what it is", "\x1b[34m"),
        "\x1b[34m\x1b[22mLabel\t\x1b[1mvalue  \x1b[90m\x1b[22m\x1b[3mwhat it is\x1b[0m"
    );
    assert_eq!(format_opt("", "", "", ""), "\x1b[22m\t\x1b[1m  \x1b[90m\x1b[22m\x1b[3m\x1b[0m");
    assert_eq!(
        format_opt("a", "b", "c", "d"),
        format!("d{}a\t{}b  {}{}{}c{}", "\x1b[22m", "\x1b[1m", "\x1b[90m", "\x1b[22m", "\x1b[3m", "\x1b[0m")
    );
}

#[test]
fn charging_symbol_points_the_way() {
    assert_eq!(charging_symbol(true), '⇡');
    assert_eq!(charging_symbol(false), '⇣');
}

#[test]
fn ratio_shows_percentage_and_capacities() {
    assert_eq!(format_ratio("90.91", 5000, 5500), "90.91% (5000/5500 mAh)");
    assert_eq!(format_ratio("80.00", 4000, 5000), "80.00% (4000/5000 mAh)");
    assert_eq!(format_ratio("-50.00", -1, 2), "-50.00% (-1/2 mAh)");
    assert_eq!(format_ratio("0.00", 0, 7), "0.00% (0/7 mAh)");
}

#[test]
fn ratio_to_zero_is_shown_in_words() {
    assert_eq!(format_ratio("12.34", 5000, 0), "inf% (5000/0 mAh)");
    assert_eq!(format_ratio("12.34", -5000, 0), "-inf% (-5000/0 mAh)");
    assert_eq!(format_ratio("12.34", 0, 0), "NaN% (0/0 mAh)");
    for part in [5000, 1, 0, -1, isize::MAX, isize::MIN] {
        let shown = format_ratio("", part, 0);
        assert_eq!(shown, format!("{}% ({}/0 mAh)", percent(part, 0), part));
    }
}

#[test]
fn temperature_shows_degrees() {
    assert_eq!(format_temperature("36.50"), "36.50 °C");
    assert_eq!(format_temperature(""), " °C");
}

#[test]
fn values_of_the_rows() {
    let info = sample();
    assert_eq!(info.health_value("90.91"), "90.91% (5000/5500 mAh)");
    assert_eq!(info.cycles_value(), "120");
    assert_eq!(info.charge_value("80.00"), "80.00% (4000/5000 mAh) ⇡");
    let idle = Info { is_charging: false, cycles_count: -3, ..sample() };
    assert_eq!(idle.charge_value("80.00"), "80.00% (4000/5000 mAh) ⇣");
    assert_eq!(idle.cycles_value(), "-3");
}

#[test]
fn rows_of_a_full_report() {
    let text = "\"IsCharging\" = Yes\n\"AppleRawMaxCapacity\" = 5000\n\
                \"AppleRawCurrentCapacity\" = 4000\n\"DesignCapacity\" = 5500\n\
                \"CycleCount\" = 120\n\"Temperature\" = 3200\n";
    let info = parse_report(text).unwrap();
    assert_eq!(info, sample());
    let health = percent(info.max_capacity, info.design_capacity);
    let charge = percent(info.current_capacity, info.max_capacity);
    let degrees = format!("{:.2}", info.temperature.parse::<f64>().unwrap() / 100.0);
    let rows = info.rows(&health, &degrees, &charge);
    assert_eq!(
        rows,
        vec![
            "\x1b[34m\x1b[22mRaw Health\t\x1b[1m90.91% (5000/5500 mAh)  \x1b[90m\x1b[22m\x1b[3mRaw battery health\x1b[0m",
            "\x1b[31m\x1b[22mTemperature\t\x1b[1m32.00 °C  \x1b[90m\x1b[22m\x1b[3mBattery temperature\x1b[0m",
            "\x1b[33m\x1b[22mCycles count\t\x1b[1m120  \x1b[90m\x1b[22m\x1b[3mCycles count\x1b[0m",
            "\x1b[36m\x1b[22mCharge info\t\x1b[1m80.00% (4000/5000 mAh) ⇡  \x1b[90m\x1b[22m\x1b[3mCharge percent\x1b[0m",
        ]
    );
}

#[test]
fn rows_without_a_design_capacity() {
    let info = Info { design_capacity: 0, ..sample() };
    let rows = info.rows("ignored", "32.00", "80.00");
    assert_eq!(rows.len(), 4);
    assert_eq!(
        rows[0],
        "\x1b[34m\x1b[22mRaw Health\t\x1b[1minf% (5000/0 mAh)  \x1b[90m\x1b[22m\x1b[3mRaw battery health\x1b[0m"
    );
    let empty = Info::new();
    let rows = empty.rows("ignored", "0.00", "ignored");
    assert_eq!(
        rows[0],
        "\x1b[34m\x1b[22mRaw Health\t\x1b[1mNaN% (0/0 mAh)  \x1b[90m\x1b[22m\x1b[3mRaw battery health\x1b[0m"
    );
    assert_eq!(
        rows[3],
        "\x1b[36m\x1b[22mCharge info\t\x1b[1mNaN% (0/0 mAh) ⇣  \x1b[90m\x1b[22m\x1b[3mCharge percent\x1b[0m"
    );
}

#[test]
fn print_writes_the_rows_line_by_line() {
    let info = Info { is_charging: false, ..sample() };
    let mut out = String::from(">");
    info.print(&mut out, "90.91", "32.00", "80.00");
    let rows = info.rows("90.91", "32.00", "80.00");
    assert_eq!(out, format!(">{}\n{}\n{}\n{}\n", rows[0], rows[1], rows[2], rows[3]));
    assert_eq!(out.lines().count(), 4);
    assert!(out.contains("80.00% (4000/5000 mAh) ⇣"));
}

#[test]
fn string_of_keeps_every_character() {
    let chars: Vec<char> = "2.5e3 °C".chars().collect();
    assert_eq!(string_of(&chars), "2.5e3 °C");
    assert_eq!(string_of(&[]), "");
}

#[test]
fn clone_is_equal() {
    let info = sample();
    assert_eq!(info.clone(), info);
    assert_ne!(Info::new(), info);
}
