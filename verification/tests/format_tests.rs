use acc_telemetry::json_export::JsonExporter;
use acc_telemetry::lap_recorder::{LapRecorder, LapStatus};

#[test]
fn json_export_test_format_time() {
    assert_eq!(JsonExporter::format_time(0), "0:00.000");
    assert_eq!(JsonExporter::format_time(1000), "0:01.000");
    assert_eq!(JsonExporter::format_time(48100), "0:48.100");
    assert_eq!(JsonExporter::format_time(60000), "1:00.000");
    assert_eq!(JsonExporter::format_time(145230), "2:25.230");
    assert_eq!(JsonExporter::format_time(225220), "3:45.220");
}

#[test]
fn test_generate_filename() {
    let filename = JsonExporter::generate_filename("Monza", "Ferrari 488 GT3");
    assert!(filename.starts_with("Monza_Ferrari488GT3_"));
    assert!(filename.ends_with(".json"));
}

#[test]
fn test_clean_filename() {
    let filename = JsonExporter::generate_filename("Spa-Francorchamps", "Porsche 911 GT3");
    assert!(filename.contains("Spa-Francorchamps"));
    assert!(filename.contains("Porsche911GT3"));
    assert!(!filename.contains(' '));
}

#[test]
fn lap_recorder_test_format_time() {
    assert_eq!(LapRecorder::format_time(0), "0:00.000");
    assert_eq!(LapRecorder::format_time(1000), "0:01.000");
    assert_eq!(LapRecorder::format_time(48100), "0:48.100");
    assert_eq!(LapRecorder::format_time(60000), "1:00.000");
    assert_eq!(LapRecorder::format_time(145230), "2:25.230");
    assert_eq!(LapRecorder::format_time(225220), "3:45.220");
}

#[test]
fn test_lap_status_display() {
    assert_eq!(LapStatus::Normal.to_string(), "normal");
    assert_eq!(LapStatus::Pit.to_string(), "pit");
    assert_eq!(LapStatus::Invalid.to_string(), "invalid");
}
