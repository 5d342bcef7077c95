use acc_telemetry::shared_memory::{
    decode_wstr, to_wide_null, AcFlagType, AcSessionType, AcStatus, PenaltyShortcut,
};

#[test]
fn penalty_codes_decode() {
    assert_eq!(PenaltyShortcut::from_i32(0), PenaltyShortcut::NoPenalty);
    assert_eq!(PenaltyShortcut::from_i32(1), PenaltyShortcut::DriveThroughCutting);
    assert_eq!(PenaltyShortcut::from_i32(13), PenaltyShortcut::DisqualifiedIgnoredMandatoryPit);
    assert_eq!(PenaltyShortcut::from_i32(21), PenaltyShortcut::DisqualifiedExceededDriverStintLimit);
    assert_eq!(PenaltyShortcut::from_i32(22), PenaltyShortcut::NoPenalty);
    assert_eq!(PenaltyShortcut::from_i32(-5), PenaltyShortcut::NoPenalty);
    assert_eq!(PenaltyShortcut::PostRaceTime.to_string(), "PostRaceTime");
    assert_eq!(PenaltyShortcut::NoPenalty.to_string(), "None");
}

#[test]
fn status_codes_decode() {
    assert_eq!(AcStatus::from_i32(0), AcStatus::Off);
    assert_eq!(AcStatus::from_i32(1), AcStatus::Replay);
    assert_eq!(AcStatus::from_i32(2), AcStatus::Live);
    assert_eq!(AcStatus::from_i32(3), AcStatus::Pause);
    assert_eq!(AcStatus::from_i32(4), AcStatus::Off);
    assert_eq!(AcStatus::Live.to_string(), "Live");
}

#[test]
fn session_type_codes_decode() {
    assert_eq!(AcSessionType::from_i32(-1), AcSessionType::Unknown);
    assert_eq!(AcSessionType::from_i32(0), AcSessionType::Practice);
    assert_eq!(AcSessionType::from_i32(2), AcSessionType::Race);
    assert_eq!(AcSessionType::from_i32(8), AcSessionType::HotlapSuperpole);
    assert_eq!(AcSessionType::from_i32(9), AcSessionType::Unknown);
    assert_eq!(AcSessionType::from_i32(i32::MIN), AcSessionType::Unknown);
    assert_eq!(AcSessionType::Practice.to_string(), "Practice");
    assert_eq!(AcSessionType::Unknown.to_string(), "Unknown");
}

#[test]
fn flag_codes_decode() {
    assert_eq!(AcFlagType::from_i32(0), AcFlagType::NoFlag);
    assert_eq!(AcFlagType::from_i32(5), AcFlagType::CheckeredFlag);
    assert_eq!(AcFlagType::from_i32(6), AcFlagType::PenaltyFlag);
    assert_eq!(AcFlagType::from_i32(7), AcFlagType::NoFlag);
    assert_eq!(AcFlagType::BlueFlag.to_string(), "BlueFlag");
}

fn wide<const N: usize>(s: &str) -> [u16; N] {
    let mut buf = [0u16; N];
    for (i, u) in s.encode_utf16().enumerate() {
        buf[i] = u;
    }
    buf
}

#[test]
fn decode_wstr_stops_at_nul() {
    let buf: [u16; 33] = wide("Ferrari 488 GT3");
    assert_eq!(decode_wstr(&buf), "Ferrari 488 GT3");
    let mut buf2: [u16; 8] = wide("abc");
    buf2[5] = 'z' as u16;
    assert_eq!(decode_wstr(&buf2), "abc");
}

#[test]
fn decode_wstr_without_terminator_reads_whole_array() {
    let buf: [u16; 5] = wide("Monza");
    assert_eq!(decode_wstr(&buf), "Monza");
    let empty = [0u16; 4];
    assert_eq!(decode_wstr(&empty), "");
}

#[test]
fn decode_wstr_replaces_unpaired_surrogate() {
    let buf: [u16; 4] = [0x41, 0xD800, 0x42, 0];
    assert_eq!(decode_wstr(&buf), "A\u{FFFD}B");
    let accented: [u16; 15] = wide("Nürburgring");
    assert_eq!(decode_wstr(&accented), "Nürburgring");
}

#[test]
fn to_wide_null_appends_terminator() {
    let w = to_wide_null("Local\\acpmf_graphics");
    assert_eq!(w.len(), "Local\\acpmf_graphics".len() + 1);
    assert_eq!(*w.last().unwrap(), 0);
    assert_eq!(w[0], 'L' as u16);
    assert_eq!(to_wide_null(""), vec![0u16]);
}

#[test]
fn wide_name_roundtrip() {
    let w = to_wide_null("Local\\acpmf_static");
    let mut buf = [0xFFFFu16; 40];
    buf[..w.len()].copy_from_slice(&w);
    assert_eq!(decode_wstr(&buf), "Local\\acpmf_static");
}

#[test]
fn surrogate_pairs_encode_and_decode() {
    assert_eq!(to_wide_null("AB"), vec![65u16, 66, 0]);
    assert_eq!(to_wide_null("A\u{1F600}"), vec![65u16, 0xD83D, 0xDE00, 0]);
    let buf: [u16; 6] = [65, 0xD83D, 0xDE00, 0, 0x42, 0];
    assert_eq!(decode_wstr(&buf), "A\u{1F600}");
    // a high surrogate not followed by a low one, and a lone low surrogate
    let bad: [u16; 5] = [0xD83D, 0x41, 0xDE00, 0xD83D, 0];
    assert_eq!(decode_wstr(&bad), "\u{FFFD}A\u{FFFD}\u{FFFD}");
}

#[test]
fn any_name_round_trips() {
    for name in ["Nürburgring", "Suzuka 🏁 Circuit", "", "x"] {
        let w = to_wide_null(name);
        let mut buf = [0x1234u16; 40];
        buf[..w.len()].copy_from_slice(&w);
        assert_eq!(decode_wstr(&buf), name);
        assert!(!decode_wstr(&buf).contains('\0'));
    }
}
