use acc_telemetry::json_export::JsonExporter;
use acc_telemetry::lap_recorder::{LapRecord, LapStatus, SectorTime};

fn lap(n: i32, status: LapStatus, ms: i32) -> LapRecord {
    LapRecord {
        lap_number: n,
        status,
        total_time_ms: ms,
        total_time_formatted: JsonExporter::format_time(ms),
        sectors: vec![SectorTime { index: 0, time_ms: 48100, formatted: "0:48.100".to_string() }],
        timestamp: "2026-03-01T14:30:00+00:00".to_string(),
    }
}

fn exporter() -> JsonExporter {
    JsonExporter::new(
        "Ferrari 488 GT3".to_string(),
        "Monza".to_string(),
        "Driver".to_string(),
        "Practice".to_string(),
    )
}

#[test]
fn new_exporter_is_empty() {
    let e = exporter();
    let s = e.session();
    assert_eq!(s.metadata.car_model, "Ferrari 488 GT3");
    assert_eq!(s.metadata.track, "Monza");
    assert_eq!(s.metadata.player_name, "Driver");
    assert_eq!(s.metadata.session_type, "Practice");
    assert_eq!(s.metadata.recording_end, None);
    assert_eq!(s.metadata.total_laps_recorded, 0);
    assert!(s.laps.is_empty());
    assert_eq!(s.statistics.valid_laps, 0);
    assert_eq!(s.statistics.best_lap_ms, None);
    assert_eq!(s.statistics.average_lap_ms, None);
    let name = e.file_name();
    assert!(name.starts_with("Monza_Ferrari488GT3_"));
    assert!(name.ends_with(".json"));
    assert!(!name.contains(' '));
    assert_eq!(e.recordings_dir(), ".recordings");
}

#[test]
fn statistics_follow_the_laps() {
    let mut e = exporter();
    e.write_lap(lap(1, LapStatus::Normal, 145340));
    e.write_lap(lap(2, LapStatus::Normal, 144890));
    e.write_lap(lap(3, LapStatus::Pit, 225220));
    e.write_lap(lap(4, LapStatus::Invalid, 0));
    e.write_lap(lap(5, LapStatus::Normal, 143570));
    let s = e.session();
    assert_eq!(s.metadata.total_laps_recorded, 5);
    assert_eq!(s.laps.len(), 5);
    assert_eq!(s.laps[2].lap_number, 3);
    assert_eq!(s.statistics.valid_laps, 3);
    assert_eq!(s.statistics.pit_laps, 1);
    assert_eq!(s.statistics.invalid_laps, 1);
    assert_eq!(s.statistics.best_lap_ms, Some(143570));
    assert_eq!(s.statistics.best_lap_formatted.as_deref(), Some("2:23.570"));
    // (145340 + 144890 + 143570) / 3 = 144600
    assert_eq!(s.statistics.average_lap_ms, Some(144600));
    assert_eq!(s.statistics.average_lap_formatted.as_deref(), Some("2:24.600"));
    let st = &s.statistics;
    assert_eq!(st.valid_laps + st.pit_laps + st.invalid_laps, s.metadata.total_laps_recorded);
    assert!(st.best_lap_ms.unwrap() <= st.average_lap_ms.unwrap());
}

#[test]
fn average_rounds_down() {
    let mut e = exporter();
    e.write_lap(lap(1, LapStatus::Normal, 1000));
    e.write_lap(lap(2, LapStatus::Normal, 1001));
    assert_eq!(e.session().statistics.average_lap_ms, Some(1000));
    assert_eq!(e.session().statistics.best_lap_ms, Some(1000));
}

#[test]
fn pit_and_invalid_laps_leave_best_and_average() {
    let mut e = exporter();
    e.write_lap(lap(1, LapStatus::Pit, 100000));
    e.write_lap(lap(2, LapStatus::Invalid, 0));
    assert_eq!(e.session().statistics.best_lap_ms, None);
    assert_eq!(e.session().statistics.average_lap_ms, None);
    assert_eq!(e.session().statistics.average_lap_formatted, None);
    e.write_lap(lap(3, LapStatus::Normal, 150000));
    e.write_lap(lap(4, LapStatus::Pit, 90000));
    assert_eq!(e.session().statistics.best_lap_ms, Some(150000));
    assert_eq!(e.session().statistics.average_lap_ms, Some(150000));
}

#[test]
fn normal_lap_without_time_counts_but_is_not_timed() {
    let mut e = exporter();
    e.write_lap(lap(1, LapStatus::Normal, 0));
    let st = &e.session().statistics;
    assert_eq!(st.valid_laps, 1);
    assert_eq!(st.best_lap_ms, None);
    assert_eq!(st.average_lap_ms, None);
}

#[test]
fn finalize_sets_end_only() {
    let mut e = exporter();
    e.write_lap(lap(1, LapStatus::Normal, 100000));
    e.finalize_at("2026-03-01T15:00:00+00:00".to_string());
    let s = e.session();
    assert_eq!(s.metadata.recording_end.as_deref(), Some("2026-03-01T15:00:00+00:00"));
    assert_eq!(s.metadata.total_laps_recorded, 1);
    assert_eq!(s.statistics.best_lap_ms, Some(100000));
    let mut e2 = exporter();
    e2.finalize();
    assert!(e2.session().metadata.recording_end.is_some());
}

#[test]
fn compose_filename_cleans_names() {
    assert_eq!(
        JsonExporter::compose_filename("Spa-Francorchamps", "Porsche 911 GT3 R", "2026-03-02", "094530"),
        "Spa-Francorchamps_Porsche911GT3R_2026-03-02_094530.json"
    );
    assert_eq!(
        JsonExporter::compose_filename("Track / Layout", "A/B", "d", "t"),
        "Track_Layout_A_B_d_t.json"
    );
    assert_eq!(JsonExporter::compose_filename("", "", "", ""), "___.json");
}

#[test]
fn format_time_edges() {
    assert_eq!(JsonExporter::format_time(-5), "0:00.000");
    assert_eq!(JsonExporter::format_time(1), "0:00.001");
    assert_eq!(JsonExporter::format_time(59999), "0:59.999");
    assert_eq!(JsonExporter::format_time(600000), "10:00.000");
    assert_eq!(JsonExporter::format_time(i32::MAX), "35791:23.647");
}

#[test]
fn distinct_times_have_distinct_texts() {
    let times = [1, 10, 100, 999, 1000, 59999, 60000, 60001, 599999, 600000, 3599999, 36000000];
    let texts: Vec<String> = times.iter().map(|&t| JsonExporter::format_time(t)).collect();
    for i in 0..texts.len() {
        for j in 0..texts.len() {
            assert_eq!(i == j, texts[i] == texts[j], "{} vs {}", times[i], times[j]);
        }
    }
}

#[test]
fn new_at_fixes_name_and_start() {
    let e = JsonExporter::new_at(
        "Porsche 911 GT3 R".to_string(),
        "Spa-Francorchamps".to_string(),
        "Driver".to_string(),
        "Race".to_string(),
        "2026-03-02",
        "094530",
        "2026-03-02T09:45:30+00:00".to_string(),
    );
    assert_eq!(e.file_name(), "Spa-Francorchamps_Porsche911GT3R_2026-03-02_094530.json");
    assert_eq!(e.recordings_dir(), ".recordings");
    let m = &e.session().metadata;
    assert_eq!(m.recording_start, "2026-03-02T09:45:30+00:00");
    assert_eq!(m.session_type, "Race");
    assert_eq!(m.recording_end, None);
}

#[test]
fn generated_name_has_date_and_time() {
    let f = JsonExporter::generate_filename("Monza", "Ferrari 488 GT3");
    let rest = f.strip_prefix("Monza_Ferrari488GT3_").unwrap().strip_suffix(".json").unwrap();
    let (date, time) = rest.rsplit_once('_').unwrap();
    assert_eq!(time.len(), 6);
    assert!(time.chars().all(|c| c.is_ascii_digit()));
    assert!(date.chars().all(|c| c.is_ascii_digit() || c == '-' || c == '+'));
    assert!(!f.contains('/'));
}

#[test]
fn statistics_do_not_depend_on_lap_order() {
    let laps = [
        (LapStatus::Normal, 101000),
        (LapStatus::Pit, 130000),
        (LapStatus::Normal, 99500),
        (LapStatus::Invalid, 0),
        (LapStatus::Normal, 100250),
    ];
    let mut forward = exporter();
    for (i, (status, ms)) in laps.iter().enumerate() {
        forward.write_lap(lap(i as i32 + 1, *status, *ms));
    }
    let mut backward = exporter();
    for (i, (status, ms)) in laps.iter().enumerate().rev() {
        backward.write_lap(lap(i as i32 + 1, *status, *ms));
    }
    let a = &forward.session().statistics;
    let b = &backward.session().statistics;
    assert_eq!(a.valid_laps, 3);
    assert_eq!(a.pit_laps, 1);
    assert_eq!(a.invalid_laps, 1);
    assert_eq!(a.best_lap_ms, Some(99500));
    assert_eq!(a.average_lap_ms, Some(100250));
    assert_eq!(a.valid_laps, b.valid_laps);
    assert_eq!(a.pit_laps, b.pit_laps);
    assert_eq!(a.invalid_laps, b.invalid_laps);
    assert_eq!(a.best_lap_ms, b.best_lap_ms);
    assert_eq!(a.best_lap_formatted, b.best_lap_formatted);
    assert_eq!(a.average_lap_ms, b.average_lap_ms);
    assert_eq!(a.average_lap_formatted, b.average_lap_formatted);
}

#[test]
fn file_stays_fixed_over_calls() {
    let mut e = exporter();
    let dir = e.recordings_dir().clone();
    let name = e.file_name().clone();
    e.write_lap(lap(1, LapStatus::Normal, 100000));
    e.finalize();
    e.write_lap(lap(2, LapStatus::Pit, 120000));
    e.finalize_at("2026-03-01T15:00:00+00:00".to_string());
    assert_eq!(e.recordings_dir(), &dir);
    assert_eq!(e.file_name(), &name);
    let s = e.session();
    let numbers: Vec<i32> = s.laps.iter().map(|l| l.lap_number).collect();
    assert_eq!(numbers, vec![1, 2]);
    assert_eq!(s.metadata.total_laps_recorded, 2);
    assert_eq!(s.statistics.valid_laps, 1);
    assert_eq!(s.statistics.pit_laps, 1);
}

#[test]
fn recording_times_are_utc_text() {
    let mut e = exporter();
    e.finalize();
    let m = &e.session().metadata;
    for t in [m.recording_start.as_str(), m.recording_end.as_deref().unwrap()] {
        assert!(t.is_empty() || (t.ends_with("+00:00") && t.contains('T')), "{}", t);
    }
}
