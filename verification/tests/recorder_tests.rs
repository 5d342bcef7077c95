use acc_telemetry::lap_recorder::{LapRecorder, LapStatus, TelemetrySample, TrackHalf};

fn sample(half: TrackHalf, sector: i32, last_sector: i32, in_pit: i32, last_lap: i32) -> TelemetrySample {
    TelemetrySample {
        track_half: half,
        completed_laps: 0,
        current_sector_index: sector,
        last_sector_time: last_sector,
        is_in_pit: in_pit,
        i_last_time: last_lap,
    }
}

#[test]
fn first_sample_only_initialises() {
    let mut r = LapRecorder::new();
    assert!(r.update(&sample(TrackHalf::Late, 2, 0, 0, 0)).is_none());
    assert_eq!(r.current_lap_number(), 0);
}

#[test]
fn line_crossing_before_first_lap_records_nothing() {
    let mut r = LapRecorder::new();
    r.update(&sample(TrackHalf::Late, 1, 0, 0, 0));
    assert!(r.update(&sample(TrackHalf::Early, 1, 0, 0, 0)).is_none());
    assert_eq!(r.current_lap_number(), 0);
}

#[test]
fn lap_completes_on_sector_wrap_with_three_sectors() {
    let mut r = LapRecorder::new();
    assert!(r.update_with_timestamp(&sample(TrackHalf::Late, 2, 0, 0, 0), String::new()).is_none());
    // entering sector 0 starts lap 1
    assert!(r.update_with_timestamp(&sample(TrackHalf::Midpoint, 0, 0, 0, 0), String::new()).is_none());
    assert_eq!(r.current_lap_number(), 1);
    assert!(r.update_with_timestamp(&sample(TrackHalf::Early, 0, 0, 0, 0), String::new()).is_none());
    // sector time for sector 0 appears, then the index moves on
    assert!(r.update_with_timestamp(&sample(TrackHalf::Early, 0, 48100, 0, 0), String::new()).is_none());
    assert!(r.update_with_timestamp(&sample(TrackHalf::Early, 1, 48100, 0, 0), String::new()).is_none());
    assert!(r.update_with_timestamp(&sample(TrackHalf::Late, 1, 49200, 0, 0), String::new()).is_none());
    assert!(r.update_with_timestamp(&sample(TrackHalf::Late, 2, 49200, 0, 0), String::new()).is_none());
    // 2 -> 0 without a position wrap completes the lap
    let lap = r
        .update_with_timestamp(&sample(TrackHalf::Midpoint, 0, 48040, 0, 145340), "T1".to_string())
        .expect("lap completes");
    assert_eq!(lap.lap_number, 1);
    assert_eq!(lap.status, LapStatus::Normal);
    assert_eq!(lap.total_time_ms, 145340);
    assert_eq!(lap.total_time_formatted, "2:25.340");
    assert_eq!(lap.timestamp, "T1");
    let got: Vec<(usize, i32, String)> =
        lap.sectors.iter().map(|s| (s.index, s.time_ms, s.formatted.clone())).collect();
    assert_eq!(
        got,
        vec![
            (0, 48100, "0:48.100".to_string()),
            (1, 49200, "0:49.200".to_string()),
            (2, 48040, "0:48.040".to_string())
        ]
    );
    assert_eq!(r.current_lap_number(), 2);
}

#[test]
fn lap_completes_on_line_crossing() {
    let mut r = LapRecorder::new();
    r.update(&sample(TrackHalf::Late, 2, 0, 0, 0));
    r.update(&sample(TrackHalf::Early, 0, 0, 0, 0));
    r.update(&sample(TrackHalf::Early, 0, 30000, 0, 0));
    r.update(&sample(TrackHalf::Early, 1, 30000, 0, 0));
    r.update(&sample(TrackHalf::Early, 1, 31000, 0, 0));
    r.update(&sample(TrackHalf::Late, 2, 31000, 0, 0));
    r.update(&sample(TrackHalf::Late, 2, 32000, 0, 0));
    let lap = r.update(&sample(TrackHalf::Early, 2, 32000, 0, 93000)).expect("crossing completes");
    assert_eq!(lap.lap_number, 1);
    assert_eq!(lap.status, LapStatus::Normal);
    assert_eq!(lap.total_time_formatted, "1:33.000");
    let got: Vec<(usize, i32)> = lap.sectors.iter().map(|s| (s.index, s.time_ms)).collect();
    assert_eq!(got, vec![(0, 30000), (1, 31000), (2, 32000)]);
    // the same sample again does not complete a second lap
    assert!(r.update(&sample(TrackHalf::Early, 2, 32000, 0, 93000)).is_none());
    assert_eq!(r.current_lap_number(), 2);
}

#[test]
fn pit_visit_marks_the_lap() {
    let mut r = LapRecorder::new();
    r.update(&sample(TrackHalf::Late, 2, 0, 0, 0));
    r.update(&sample(TrackHalf::Early, 0, 0, 0, 0));
    r.update(&sample(TrackHalf::Early, 1, 30000, 1, 0));
    r.update(&sample(TrackHalf::Late, 2, 31000, 0, 0));
    let lap = r.update(&sample(TrackHalf::Early, 0, 90000, 0, 225220)).expect("lap completes");
    assert_eq!(lap.status, LapStatus::Pit);
    assert_eq!(lap.total_time_formatted, "3:45.220");
    // the next lap starts without the pit mark
    r.update(&sample(TrackHalf::Early, 1, 29000, 0, 225220));
    r.update(&sample(TrackHalf::Late, 2, 30000, 0, 225220));
    let lap2 = r.update(&sample(TrackHalf::Early, 0, 31000, 0, 90000)).expect("lap completes");
    assert_eq!(lap2.lap_number, 2);
    assert_eq!(lap2.status, LapStatus::Normal);
}

#[test]
fn lap_without_time_is_invalid() {
    let mut r = LapRecorder::new();
    r.update(&sample(TrackHalf::Late, 2, 0, 0, 0));
    r.update(&sample(TrackHalf::Early, 0, 0, 0, 0));
    r.update(&sample(TrackHalf::Late, 2, 0, 0, 0));
    let lap = r.update(&sample(TrackHalf::Early, 0, 0, 0, 0)).expect("lap completes");
    assert_eq!(lap.status, LapStatus::Invalid);
    assert_eq!(lap.total_time_formatted, "0:00.000");
}

#[test]
fn pit_on_completing_sample_marks_the_lap() {
    let mut r = LapRecorder::new();
    r.update(&sample(TrackHalf::Late, 2, 0, 0, 0));
    r.update(&sample(TrackHalf::Early, 0, 0, 0, 0));
    r.update(&sample(TrackHalf::Late, 2, 0, 0, 0));
    let lap = r.update(&sample(TrackHalf::Early, 0, 0, 1, 0)).expect("lap completes");
    assert_eq!(lap.status, LapStatus::Pit);
}

#[test]
fn default_is_new() {
    let mut r = LapRecorder::default();
    assert_eq!(r.current_lap_number(), 0);
    assert!(r.update(&sample(TrackHalf::Early, 0, 0, 0, 0)).is_none());
}

#[test]
fn crossing_helper() {
    assert!(LapRecorder::detect_start_finish_crossing(TrackHalf::Early, TrackHalf::Late));
    assert!(!LapRecorder::detect_start_finish_crossing(TrackHalf::Late, TrackHalf::Early));
    assert!(!LapRecorder::detect_start_finish_crossing(TrackHalf::Midpoint, TrackHalf::Late));
    assert!(!LapRecorder::detect_start_finish_crossing(TrackHalf::Early, TrackHalf::Midpoint));
}

fn counted(half: TrackHalf, sector: i32, last_sector: i32, laps: i32, last_lap: i32) -> TelemetrySample {
    TelemetrySample {
        track_half: half,
        completed_laps: laps,
        current_sector_index: sector,
        last_sector_time: last_sector,
        is_in_pit: 0,
        i_last_time: last_lap,
    }
}

#[test]
fn lap_counter_rise_completes_a_lap() {
    let mut r = LapRecorder::new();
    r.update(&counted(TrackHalf::Late, 2, 0, 0, 0));
    r.update(&counted(TrackHalf::Early, 0, 0, 0, 0));
    r.update(&counted(TrackHalf::Early, 1, 30000, 0, 0));
    r.update(&counted(TrackHalf::Late, 1, 31000, 0, 0));
    // no line crossing, no sector wrap: only the counter rises
    let lap = r.update(&counted(TrackHalf::Late, 1, 31000, 1, 90000)).expect("counter completes");
    assert_eq!(lap.lap_number, 1);
    assert_eq!(lap.total_time_ms, 90000);
    assert_eq!(lap.status, LapStatus::Normal);
    assert_eq!(r.current_lap_number(), 2);
}

#[test]
fn counter_rise_right_after_lap_start_ends_no_lap() {
    let mut r = LapRecorder::new();
    r.update(&counted(TrackHalf::Late, 2, 0, 0, 0));
    // entering sector 0 at the line starts lap 1
    assert!(r.update(&counted(TrackHalf::Early, 0, 0, 0, 0)).is_none());
    // the counter's rise for that same line event comes a little later
    assert!(r.update(&counted(TrackHalf::Early, 0, 0, 1, 0)).is_none());
    assert_eq!(r.current_lap_number(), 1);
}

#[test]
fn sector_fall_from_one_to_zero_is_no_lap() {
    let mut r = LapRecorder::new();
    assert!(r.update(&counted(TrackHalf::Midpoint, 2, 0, 0, 0)).is_none());
    assert!(r.update(&counted(TrackHalf::Midpoint, 0, 0, 0, 0)).is_none());
    assert!(r.update(&counted(TrackHalf::Midpoint, 1, 0, 0, 0)).is_none());
    assert!(r.update(&counted(TrackHalf::Midpoint, 0, 0, 0, 0)).is_none());
    assert_eq!(r.current_lap_number(), 1);
}

#[test]
fn late_counter_rise_is_no_second_lap() {
    let mut r = LapRecorder::new();
    r.update(&counted(TrackHalf::Late, 2, 0, 0, 0));
    r.update(&counted(TrackHalf::Early, 0, 0, 0, 0));
    r.update(&counted(TrackHalf::Late, 2, 30000, 0, 0));
    let crossing = counted(TrackHalf::Early, 2, 30000, 0, 90000);
    assert!(r.update(&crossing).is_some());
    // the same sample again, then the sector index, then the lap counter
    assert!(r.update(&crossing).is_none());
    assert!(r.update(&counted(TrackHalf::Early, 0, 31000, 0, 90000)).is_none());
    assert!(r.update(&counted(TrackHalf::Early, 0, 31000, 1, 90000)).is_none());
    assert_eq!(r.current_lap_number(), 2);
    // the next lap still ends at the line
    r.update(&counted(TrackHalf::Late, 1, 29000, 1, 90000));
    r.update(&counted(TrackHalf::Late, 2, 30000, 1, 90000));
    let lap = r.update(&counted(TrackHalf::Early, 2, 30000, 1, 89000)).expect("crossing completes");
    assert_eq!(lap.lap_number, 2);
    assert_eq!(lap.total_time_ms, 89000);
}

#[test]
fn sector_wrap_completion_repeated_is_one_lap() {
    let mut r = LapRecorder::new();
    r.update(&counted(TrackHalf::Late, 2, 0, 0, 0));
    r.update(&counted(TrackHalf::Early, 0, 0, 0, 0));
    r.update(&counted(TrackHalf::Late, 1, 30000, 0, 0));
    r.update(&counted(TrackHalf::Late, 2, 31000, 0, 0));
    let wrap = counted(TrackHalf::Midpoint, 0, 32000, 0, 93000);
    assert!(r.update(&wrap).is_some());
    assert!(r.update(&wrap).is_none());
    assert_eq!(r.current_lap_number(), 2);
}

#[test]
fn lap_timestamp_is_utc_text() {
    let mut r = LapRecorder::new();
    r.update(&counted(TrackHalf::Late, 2, 0, 0, 0));
    r.update(&counted(TrackHalf::Early, 0, 0, 0, 0));
    r.update(&counted(TrackHalf::Late, 2, 30000, 0, 0));
    let lap = r.update(&counted(TrackHalf::Early, 2, 30000, 0, 90000)).expect("crossing completes");
    let t = lap.timestamp;
    assert!(t.is_empty() || (t.ends_with("+00:00") && t.contains('T')), "{}", t);
}

#[test]
fn crossing_then_sector_zero_is_one_lap() {
    let mut r = LapRecorder::new();
    r.update(&counted(TrackHalf::Late, 2, 0, 0, 0));
    r.update(&counted(TrackHalf::Early, 0, 0, 0, 0));
    r.update(&counted(TrackHalf::Late, 2, 30000, 0, 0));
    // crossing while the sector index still reads 2
    assert!(r.update(&counted(TrackHalf::Early, 2, 30000, 0, 90000)).is_some());
    // the sector index and the lap counter catch up one sample later
    assert!(r.update(&counted(TrackHalf::Early, 0, 31000, 1, 90000)).is_none());
    assert_eq!(r.current_lap_number(), 2);
}

#[test]
fn four_sector_lap_records_every_sector() {
    let mut r = LapRecorder::new();
    r.update(&counted(TrackHalf::Late, 3, 0, 0, 0));
    r.update(&counted(TrackHalf::Late, 0, 10000, 0, 0));
    r.update(&counted(TrackHalf::Late, 1, 20000, 0, 0));
    r.update(&counted(TrackHalf::Late, 2, 21000, 0, 0));
    r.update(&counted(TrackHalf::Late, 3, 22000, 0, 0));
    let lap = r.update(&counted(TrackHalf::Early, 3, 23000, 1, 88000)).expect("crossing completes");
    let idx: Vec<usize> = lap.sectors.iter().map(|s| s.index).collect();
    assert_eq!(idx, vec![0, 1, 2, 3]);
    let times: Vec<i32> = lap.sectors.iter().map(|s| s.time_ms).collect();
    assert_eq!(times, vec![10000, 20000, 21000, 22000]);
}

#[test]
fn four_sector_counter_completion_records_last_sector() {
    let mut r = LapRecorder::new();
    r.update(&counted(TrackHalf::Late, 3, 0, 0, 0));
    r.update(&counted(TrackHalf::Early, 0, 0, 0, 0));
    r.update(&counted(TrackHalf::Early, 0, 5000, 0, 0));
    r.update(&counted(TrackHalf::Early, 1, 5000, 0, 0));
    r.update(&counted(TrackHalf::Late, 1, 6000, 0, 0));
    r.update(&counted(TrackHalf::Late, 2, 6000, 0, 0));
    r.update(&counted(TrackHalf::Late, 2, 7000, 0, 0));
    r.update(&counted(TrackHalf::Late, 3, 7000, 0, 0));
    r.update(&counted(TrackHalf::Late, 3, 8000, 0, 0));
    // 3 -> 0 is no wrap; the lap ends on the counter
    let lap = r.update(&counted(TrackHalf::Late, 0, 8000, 1, 26000)).expect("counter completes");
    let got: Vec<(usize, i32)> = lap.sectors.iter().map(|s| (s.index, s.time_ms)).collect();
    assert_eq!(got, vec![(0, 5000), (1, 6000), (2, 7000), (3, 8000)]);
}

#[test]
fn lap_with_time_but_no_last_sector_time_is_invalid() {
    let mut r = LapRecorder::new();
    r.update(&counted(TrackHalf::Late, 2, 0, 0, 0));
    r.update(&counted(TrackHalf::Early, 0, 0, 0, 0));
    r.update(&counted(TrackHalf::Late, 2, 30000, 0, 0));
    let lap = r.update(&counted(TrackHalf::Early, 2, 0, 1, 95000)).expect("lap completes");
    assert_eq!(lap.status, LapStatus::Invalid);
    assert_eq!(lap.total_time_formatted, "1:35.000");
}

#[test]
fn would_complete_lap_predicts_update() {
    let mut r = LapRecorder::new();
    let samples = [
        counted(TrackHalf::Late, 2, 0, 0, 0),
        counted(TrackHalf::Early, 0, 0, 0, 0),
        counted(TrackHalf::Late, 2, 30000, 0, 0),
        counted(TrackHalf::Early, 0, 31000, 1, 90000),
        counted(TrackHalf::Early, 0, 31000, 1, 90000),
    ];
    for s in samples.iter() {
        let predicted = r.would_complete_lap(s);
        assert_eq!(predicted, r.update(s).is_some());
    }
}
