//! Codes and strings found in the ACC shared-memory pages.
//!
//! The simulator publishes its status, session type, flag and penalty as
//! plain `i32` codes, and names as NUL-terminated UTF-16 arrays. This module
//! maps the codes to enums and decodes the arrays.

use vstd::prelude::*;
use vstd::string::*;

verus! {

/// All penalty types that ACC can issue.
#[derive(Debug, Clone, Copy, PartialEq, Eq, Structural)]
pub enum PenaltyShortcut {
    NoPenalty,
    DriveThroughCutting,
    StopAndGo10Cutting,
    StopAndGo20Cutting,
    StopAndGo30Cutting,
    DisqualifiedCutting,
    RemoveBestLaptimeCutting,
    DriveThroughPitSpeeding,
    StopAndGo10PitSpeeding,
    StopAndGo20PitSpeeding,
    StopAndGo30PitSpeeding,
    DisqualifiedPitSpeeding,
    RemoveBestLaptimePitSpeeding,
    DisqualifiedIgnoredMandatoryPit,
    PostRaceTime,
    DisqualifiedTrolling,
    DisqualifiedPitEntry,
    DisqualifiedPitExit,
    DisqualifiedWrongWay,
    DriveThroughIgnoredDriverStint,
    DisqualifiedIgnoredDriverStint,
    DisqualifiedExceededDriverStintLimit,
}

impl PenaltyShortcut {
    /// The code that the SDK gives this penalty.
    pub open spec fn code(self) -> int {
        match self {
            PenaltyShortcut::NoPenalty => 0,
            PenaltyShortcut::DriveThroughCutting => 1,
            PenaltyShortcut::StopAndGo10Cutting => 2,
            PenaltyShortcut::StopAndGo20Cutting => 3,
            PenaltyShortcut::StopAndGo30Cutting => 4,
            PenaltyShortcut::DisqualifiedCutting => 5,
            PenaltyShortcut::RemoveBestLaptimeCutting => 6,
            PenaltyShortcut::DriveThroughPitSpeeding => 7,
            PenaltyShortcut::StopAndGo10PitSpeeding => 8,
            PenaltyShortcut::StopAndGo20PitSpeeding => 9,
            PenaltyShortcut::StopAndGo30PitSpeeding => 10,
            PenaltyShortcut::DisqualifiedPitSpeeding => 11,
            PenaltyShortcut::RemoveBestLaptimePitSpeeding => 12,
            PenaltyShortcut::DisqualifiedIgnoredMandatoryPit => 13,
            PenaltyShortcut::PostRaceTime => 14,
            PenaltyShortcut::DisqualifiedTrolling => 15,
            PenaltyShortcut::DisqualifiedPitEntry => 16,
            PenaltyShortcut::DisqualifiedPitExit => 17,
            PenaltyShortcut::DisqualifiedWrongWay => 18,
            PenaltyShortcut::DriveThroughIgnoredDriverStint => 19,
            PenaltyShortcut::DisqualifiedIgnoredDriverStint => 20,
            PenaltyShortcut::DisqualifiedExceededDriverStintLimit => 21,
        }
    }

    /// The name under which this penalty is shown.
    pub open spec fn name(self) -> Seq<char> {
        match self {
            PenaltyShortcut::NoPenalty => "None"@,
            PenaltyShortcut::DriveThroughCutting => "DriveThroughCutting"@,
            PenaltyShortcut::StopAndGo10Cutting => "StopAndGo10Cutting"@,
            PenaltyShortcut::StopAndGo20Cutting => "StopAndGo20Cutting"@,
            PenaltyShortcut::StopAndGo30Cutting => "StopAndGo30Cutting"@,
            PenaltyShortcut::DisqualifiedCutting => "DisqualifiedCutting"@,
            PenaltyShortcut::RemoveBestLaptimeCutting => "RemoveBestLaptimeCutting"@,
            PenaltyShortcut::DriveThroughPitSpeeding => "DriveThroughPitSpeeding"@,
            PenaltyShortcut::StopAndGo10PitSpeeding => "StopAndGo10PitSpeeding"@,
            PenaltyShortcut::StopAndGo20PitSpeeding => "StopAndGo20PitSpeeding"@,
            PenaltyShortcut::StopAndGo30PitSpeeding => "StopAndGo30PitSpeeding"@,
            PenaltyShortcut::DisqualifiedPitSpeeding => "DisqualifiedPitSpeeding"@,
            PenaltyShortcut::RemoveBestLaptimePitSpeeding => "RemoveBestLaptimePitSpeeding"@,
            PenaltyShortcut::DisqualifiedIgnoredMandatoryPit => "DisqualifiedIgnoredMandatoryPit"@,
            PenaltyShortcut::PostRaceTime => "PostRaceTime"@,
            PenaltyShortcut::DisqualifiedTrolling => "DisqualifiedTrolling"@,
            PenaltyShortcut::DisqualifiedPitEntry => "DisqualifiedPitEntry"@,
            PenaltyShortcut::DisqualifiedPitExit => "DisqualifiedPitExit"@,
            PenaltyShortcut::DisqualifiedWrongWay => "DisqualifiedWrongWay"@,
            PenaltyShortcut::DriveThroughIgnoredDriverStint => "DriveThroughIgnoredDriverStint"@,
            PenaltyShortcut::DisqualifiedIgnoredDriverStint => "DisqualifiedIgnoredDriverStint"@,
            PenaltyShortcut::DisqualifiedExceededDriverStintLimit => "DisqualifiedExceededDriverStintLimit"@,
        }
    }

    /// Decodes a penalty code; a code that the SDK does not define reads as `NoPenalty`.
    pub fn from_i32(v: i32) -> (r: Self)
        ensures
            0 <= v <= 21 ==> r.code() == v,
            !(0 <= v <= 21) ==> r == PenaltyShortcut::NoPenalty,
    {
        match v {
            1 => Self::DriveThroughCutting,
            2 => Self::StopAndGo10Cutting,
            3 => Self::StopAndGo20Cutting,
            4 => Self::StopAndGo30Cutting,
            5 => Self::DisqualifiedCutting,
            6 => Self::RemoveBestLaptimeCutting,
            7 => Self::DriveThroughPitSpeeding,
            8 => Self::StopAndGo10PitSpeeding,
            9 => Self::StopAndGo20PitSpeeding,
            10 => Self::StopAndGo30PitSpeeding,
            11 => Self::DisqualifiedPitSpeeding,
            12 => Self::RemoveBestLaptimePitSpeeding,
            13 => Self::DisqualifiedIgnoredMandatoryPit,
            14 => Self::PostRaceTime,
            15 => Self::DisqualifiedTrolling,
            16 => Self::DisqualifiedPitEntry,
            17 => Self::DisqualifiedPitExit,
            18 => Self::DisqualifiedWrongWay,
            19 => Self::DriveThroughIgnoredDriverStint,
            20 => Self::DisqualifiedIgnoredDriverStint,
            21 => Self::DisqualifiedExceededDriverStintLimit,
            _ => Self::NoPenalty,
        }
    }

    /// The penalty's name, as the console shows it.
    pub fn to_string(&self) -> (r: String)
        ensures
            r@ == self.name(),
    {
        match self {
            PenaltyShortcut::NoPenalty => String::from_str("None"),
            PenaltyShortcut::DriveThroughCutting => String::from_str("DriveThroughCutting"),
            PenaltyShortcut::StopAndGo10Cutting => String::from_str("StopAndGo10Cutting"),
            PenaltyShortcut::StopAndGo20Cutting => String::from_str("StopAndGo20Cutting"),
            PenaltyShortcut::StopAndGo30Cutting => String::from_str("StopAndGo30Cutting"),
            PenaltyShortcut::DisqualifiedCutting => String::from_str("DisqualifiedCutting"),
            PenaltyShortcut::RemoveBestLaptimeCutting => String::from_str("RemoveBestLaptimeCutting"),
            PenaltyShortcut::DriveThroughPitSpeeding => String::from_str("DriveThroughPitSpeeding"),
            PenaltyShortcut::StopAndGo10PitSpeeding => String::from_str("StopAndGo10PitSpeeding"),
            PenaltyShortcut::StopAndGo20PitSpeeding => String::from_str("StopAndGo20PitSpeeding"),
            PenaltyShortcut::StopAndGo30PitSpeeding => String::from_str("StopAndGo30PitSpeeding"),
            PenaltyShortcut::DisqualifiedPitSpeeding => String::from_str("DisqualifiedPitSpeeding"),
            PenaltyShortcut::RemoveBestLaptimePitSpeeding => String::from_str("RemoveBestLaptimePitSpeeding"),
            PenaltyShortcut::DisqualifiedIgnoredMandatoryPit => String::from_str("DisqualifiedIgnoredMandatoryPit"),
            PenaltyShortcut::PostRaceTime => String::from_str("PostRaceTime"),
            PenaltyShortcut::DisqualifiedTrolling => String::from_str("DisqualifiedTrolling"),
            PenaltyShortcut::DisqualifiedPitEntry => String::from_str("DisqualifiedPitEntry"),
            PenaltyShortcut::DisqualifiedPitExit => String::from_str("DisqualifiedPitExit"),
            PenaltyShortcut::DisqualifiedWrongWay => String::from_str("DisqualifiedWrongWay"),
            PenaltyShortcut::DriveThroughIgnoredDriverStint => String::from_str("DriveThroughIgnoredDriverStint"),
            PenaltyShortcut::DisqualifiedIgnoredDriverStint => String::from_str("DisqualifiedIgnoredDriverStint"),
            PenaltyShortcut::DisqualifiedExceededDriverStintLimit => String::from_str("DisqualifiedExceededDriverStintLimit"),
        }
    }
}

/// Each penalty code names exactly one penalty, so decoding the code of a penalty
/// gives that penalty back.
pub proof fn lemma_penalty_shortcut_code_roundtrip(a: PenaltyShortcut, b: PenaltyShortcut)
    requires
        a.code() == b.code(),
    ensures
        a == b,
{
}

/// The penalty codes are those of the SDK's `PenaltyShortcut` table, and
/// each penalty is shown under its SDK name ("None" for no penalty):
/// `from_i32` of a code in the table gives the penalty listed with it, whose
/// `to_string` is the name listed with it.
pub proof fn lemma_penalty_shortcut_sdk_table(t: PenaltyShortcut)
    ensures
        t.code() == 0 <==> t == PenaltyShortcut::NoPenalty,
        t.code() == 1 <==> t == PenaltyShortcut::DriveThroughCutting,
        t.code() == 2 <==> t == PenaltyShortcut::StopAndGo10Cutting,
        t.code() == 3 <==> t == PenaltyShortcut::StopAndGo20Cutting,
        t.code() == 4 <==> t == PenaltyShortcut::StopAndGo30Cutting,
        t.code() == 5 <==> t == PenaltyShortcut::DisqualifiedCutting,
        t.code() == 6 <==> t == PenaltyShortcut::RemoveBestLaptimeCutting,
        t.code() == 7 <==> t == PenaltyShortcut::DriveThroughPitSpeeding,
        t.code() == 8 <==> t == PenaltyShortcut::StopAndGo10PitSpeeding,
        t.code() == 9 <==> t == PenaltyShortcut::StopAndGo20PitSpeeding,
        t.code() == 10 <==> t == PenaltyShortcut::StopAndGo30PitSpeeding,
        t.code() == 11 <==> t == PenaltyShortcut::DisqualifiedPitSpeeding,
        t.code() == 12 <==> t == PenaltyShortcut::RemoveBestLaptimePitSpeeding,
        t.code() == 13 <==> t == PenaltyShortcut::DisqualifiedIgnoredMandatoryPit,
        t.code() == 14 <==> t == PenaltyShortcut::PostRaceTime,
        t.code() == 15 <==> t == PenaltyShortcut::DisqualifiedTrolling,
        t.code() == 16 <==> t == PenaltyShortcut::DisqualifiedPitEntry,
        t.code() == 17 <==> t == PenaltyShortcut::DisqualifiedPitExit,
        t.code() == 18 <==> t == PenaltyShortcut::DisqualifiedWrongWay,
        t.code() == 19 <==> t == PenaltyShortcut::DriveThroughIgnoredDriverStint,
        t.code() == 20 <==> t == PenaltyShortcut::DisqualifiedIgnoredDriverStint,
        t.code() == 21 <==> t == PenaltyShortcut::DisqualifiedExceededDriverStintLimit,
        t == PenaltyShortcut::NoPenalty ==> t.name() == "None"@,
        t == PenaltyShortcut::DriveThroughCutting ==> t.name() == "DriveThroughCutting"@,
        t == PenaltyShortcut::StopAndGo10Cutting ==> t.name() == "StopAndGo10Cutting"@,
        t == PenaltyShortcut::StopAndGo20Cutting ==> t.name() == "StopAndGo20Cutting"@,
        t == PenaltyShortcut::StopAndGo30Cutting ==> t.name() == "StopAndGo30Cutting"@,
        t == PenaltyShortcut::DisqualifiedCutting ==> t.name() == "DisqualifiedCutting"@,
        t == PenaltyShortcut::RemoveBestLaptimeCutting ==> t.name() == "RemoveBestLaptimeCutting"@,
        t == PenaltyShortcut::DriveThroughPitSpeeding ==> t.name() == "DriveThroughPitSpeeding"@,
        t == PenaltyShortcut::StopAndGo10PitSpeeding ==> t.name() == "StopAndGo10PitSpeeding"@,
        t == PenaltyShortcut::StopAndGo20PitSpeeding ==> t.name() == "StopAndGo20PitSpeeding"@,
        t == PenaltyShortcut::StopAndGo30PitSpeeding ==> t.name() == "StopAndGo30PitSpeeding"@,
        t == PenaltyShortcut::DisqualifiedPitSpeeding ==> t.name() == "DisqualifiedPitSpeeding"@,
        t == PenaltyShortcut::RemoveBestLaptimePitSpeeding ==> t.name() == "RemoveBestLaptimePitSpeeding"@,
        t == PenaltyShortcut::DisqualifiedIgnoredMandatoryPit ==> t.name() == "DisqualifiedIgnoredMandatoryPit"@,
        t == PenaltyShortcut::PostRaceTime ==> t.name() == "PostRaceTime"@,
        t == PenaltyShortcut::DisqualifiedTrolling ==> t.name() == "DisqualifiedTrolling"@,
        t == PenaltyShortcut::DisqualifiedPitEntry ==> t.name() == "DisqualifiedPitEntry"@,
        t == PenaltyShortcut::DisqualifiedPitExit ==> t.name() == "DisqualifiedPitExit"@,
        t == PenaltyShortcut::DisqualifiedWrongWay ==> t.name() == "DisqualifiedWrongWay"@,
        t == PenaltyShortcut::DriveThroughIgnoredDriverStint ==> t.name() == "DriveThroughIgnoredDriverStint"@,
        t == PenaltyShortcut::DisqualifiedIgnoredDriverStint ==> t.name() == "DisqualifiedIgnoredDriverStint"@,
        t == PenaltyShortcut::DisqualifiedExceededDriverStintLimit ==> t.name() == "DisqualifiedExceededDriverStintLimit"@,
{
}

/// Simulator status (`AC_STATUS` in the SDK header).
#[derive(Debug, Clone, Copy, PartialEq, Eq, Structural)]
pub enum AcStatus {
    Off,
    Replay,
    Live,
    Pause,
}

impl AcStatus {
    /// The code that the SDK gives this status.
    pub open spec fn code(self) -> int {
        match self {
            AcStatus::Off => 0,
            AcStatus::Replay => 1,
            AcStatus::Live => 2,
            AcStatus::Pause => 3,
        }
    }

    /// The name under which this status is shown.
    pub open spec fn name(self) -> Seq<char> {
        match self {
            AcStatus::Off => "Off"@,
            AcStatus::Replay => "Replay"@,
            AcStatus::Live => "Live"@,
            AcStatus::Pause => "Pause"@,
        }
    }

    /// Decodes a status code; a code that the SDK does not define reads as `Off`.
    pub fn from_i32(v: i32) -> (r: Self)
        ensures
            0 <= v <= 3 ==> r.code() == v,
            !(0 <= v <= 3) ==> r == AcStatus::Off,
    {
        match v {
            1 => Self::Replay,
            2 => Self::Live,
            3 => Self::Pause,
            _ => Self::Off,
        }
    }

    /// The status's name, as the console shows it.
    pub fn to_string(&self) -> (r: String)
        ensures
            r@ == self.name(),
    {
        match self {
            AcStatus::Off => String::from_str("Off"),
            AcStatus::Replay => String::from_str("Replay"),
            AcStatus::Live => String::from_str("Live"),
            AcStatus::Pause => String::from_str("Pause"),
        }
    }
}

/// Each status code names exactly one status, so decoding the code of a status
/// gives that status back.
pub proof fn lemma_ac_status_code_roundtrip(a: AcStatus, b: AcStatus)
    requires
        a.code() == b.code(),
    ensures
        a == b,
{
}

/// The status codes are those of the SDK's `AC_STATUS` table, and each status
/// is shown under its SDK name: `from_i32` of a code in the table gives the
/// status listed with it, whose `to_string` is the name listed with it.
pub proof fn lemma_ac_status_sdk_table(t: AcStatus)
    ensures
        t.code() == 0 <==> t == AcStatus::Off,
        t.code() == 1 <==> t == AcStatus::Replay,
        t.code() == 2 <==> t == AcStatus::Live,
        t.code() == 3 <==> t == AcStatus::Pause,
        t == AcStatus::Off ==> t.name() == "Off"@,
        t == AcStatus::Replay ==> t.name() == "Replay"@,
        t == AcStatus::Live ==> t.name() == "Live"@,
        t == AcStatus::Pause ==> t.name() == "Pause"@,
{
}

/// Session type (`AC_SESSION_TYPE` in the SDK header).
#[derive(Debug, Clone, Copy, PartialEq, Eq, Structural)]
pub enum AcSessionType {
    Unknown,
    Practice,
    Qualify,
    Race,
    Hotlap,
    TimeAttack,
    Drift,
    Drag,
    HotStint,
    HotlapSuperpole,
}

impl AcSessionType {
    /// The code that the SDK gives this session type.
    pub open spec fn code(self) -> int {
        match self {
            AcSessionType::Unknown => -1,
            AcSessionType::Practice => 0,
            AcSessionType::Qualify => 1,
            AcSessionType::Race => 2,
            AcSessionType::Hotlap => 3,
            AcSessionType::TimeAttack => 4,
            AcSessionType::Drift => 5,
            AcSessionType::Drag => 6,
            AcSessionType::HotStint => 7,
            AcSessionType::HotlapSuperpole => 8,
        }
    }

    /// The name under which this session type is shown.
    pub open spec fn name(self) -> Seq<char> {
        match self {
            AcSessionType::Unknown => "Unknown"@,
            AcSessionType::Practice => "Practice"@,
            AcSessionType::Qualify => "Qualify"@,
            AcSessionType::Race => "Race"@,
            AcSessionType::Hotlap => "Hotlap"@,
            AcSessionType::TimeAttack => "TimeAttack"@,
            AcSessionType::Drift => "Drift"@,
            AcSessionType::Drag => "Drag"@,
            AcSessionType::HotStint => "HotStint"@,
            AcSessionType::HotlapSuperpole => "HotlapSuperpole"@,
        }
    }

    /// Decodes a session type code; a code that the SDK does not define reads as `Unknown`.
    pub fn from_i32(v: i32) -> (r: Self)
        ensures
            -1 <= v <= 8 ==> r.code() == v,
            !(-1 <= v <= 8) ==> r == AcSessionType::Unknown,
    {
        match v {
            0 => Self::Practice,
            1 => Self::Qualify,
            2 => Self::Race,
            3 => Self::Hotlap,
            4 => Self::TimeAttack,
            5 => Self::Drift,
            6 => Self::Drag,
            7 => Self::HotStint,
            8 => Self::HotlapSuperpole,
            _ => Self::Unknown,
        }
    }

    /// The session type's name, as the console shows it.
    pub fn to_string(&self) -> (r: String)
        ensures
            r@ == self.name(),
    {
        match self {
            AcSessionType::Unknown => String::from_str("Unknown"),
            AcSessionType::Practice => String::from_str("Practice"),
            AcSessionType::Qualify => String::from_str("Qualify"),
            AcSessionType::Race => String::from_str("Race"),
            AcSessionType::Hotlap => String::from_str("Hotlap"),
            AcSessionType::TimeAttack => String::from_str("TimeAttack"),
            AcSessionType::Drift => String::from_str("Drift"),
            AcSessionType::Drag => String::from_str("Drag"),
            AcSessionType::HotStint => String::from_str("HotStint"),
            AcSessionType::HotlapSuperpole => String::from_str("HotlapSuperpole"),
        }
    }
}

/// Each session type code names exactly one session type, so decoding the code of a session type
/// gives that session type back.
pub proof fn lemma_ac_session_type_code_roundtrip(a: AcSessionType, b: AcSessionType)
    requires
        a.code() == b.code(),
    ensures
        a == b,
{
}

/// The session type codes are those of the SDK's `AC_SESSION_TYPE` table,
/// and each session type is shown under its SDK name: `from_i32` of a code
/// in the table gives the session type listed with it, whose `to_string` is
/// the name listed with it.
pub proof fn lemma_ac_session_type_sdk_table(t: AcSessionType)
    ensures
        t.code() == -1 <==> t == AcSessionType::Unknown,
        t.code() == 0 <==> t == AcSessionType::Practice,
        t.code() == 1 <==> t == AcSessionType::Qualify,
        t.code() == 2 <==> t == AcSessionType::Race,
        t.code() == 3 <==> t == AcSessionType::Hotlap,
        t.code() == 4 <==> t == AcSessionType::TimeAttack,
        t.code() == 5 <==> t == AcSessionType::Drift,
        t.code() == 6 <==> t == AcSessionType::Drag,
        t.code() == 7 <==> t == AcSessionType::HotStint,
        t.code() == 8 <==> t == AcSessionType::HotlapSuperpole,
        t == AcSessionType::Unknown ==> t.name() == "Unknown"@,
        t == AcSessionType::Practice ==> t.name() == "Practice"@,
        t == AcSessionType::Qualify ==> t.name() == "Qualify"@,
        t == AcSessionType::Race ==> t.name() == "Race"@,
        t == AcSessionType::Hotlap ==> t.name() == "Hotlap"@,
        t == AcSessionType::TimeAttack ==> t.name() == "TimeAttack"@,
        t == AcSessionType::Drift ==> t.name() == "Drift"@,
        t == AcSessionType::Drag ==> t.name() == "Drag"@,
        t == AcSessionType::HotStint ==> t.name() == "HotStint"@,
        t == AcSessionType::HotlapSuperpole ==> t.name() == "HotlapSuperpole"@,
{
}

/// Flag type (`AC_FLAG_TYPE` in the SDK header).
#[derive(Debug, Clone, Copy, PartialEq, Eq, Structural)]
pub enum AcFlagType {
    NoFlag,
    BlueFlag,
    YellowFlag,
    BlackFlag,
    WhiteFlag,
    CheckeredFlag,
    PenaltyFlag,
}

impl AcFlagType {
    /// The code that the SDK gives this flag.
    pub open spec fn code(self) -> int {
        match self {
            AcFlagType::NoFlag => 0,
            AcFlagType::BlueFlag => 1,
            AcFlagType::YellowFlag => 2,
            AcFlagType::BlackFlag => 3,
            AcFlagType::WhiteFlag => 4,
            AcFlagType::CheckeredFlag => 5,
            AcFlagType::PenaltyFlag => 6,
        }
    }

    /// The name under which this flag is shown.
    pub open spec fn name(self) -> Seq<char> {
        match self {
            AcFlagType::NoFlag => "NoFlag"@,
            AcFlagType::BlueFlag => "BlueFlag"@,
            AcFlagType::YellowFlag => "YellowFlag"@,
            AcFlagType::BlackFlag => "BlackFlag"@,
            AcFlagType::WhiteFlag => "WhiteFlag"@,
            AcFlagType::CheckeredFlag => "CheckeredFlag"@,
            AcFlagType::PenaltyFlag => "PenaltyFlag"@,
        }
    }

    /// Decodes a flag code; a code that the SDK does not define reads as `NoFlag`.
    pub fn from_i32(v: i32) -> (r: Self)
        ensures
            0 <= v <= 6 ==> r.code() == v,
            !(0 <= v <= 6) ==> r == AcFlagType::NoFlag,
    {
        match v {
            1 => Self::BlueFlag,
            2 => Self::YellowFlag,
            3 => Self::BlackFlag,
            4 => Self::WhiteFlag,
            5 => Self::CheckeredFlag,
            6 => Self::PenaltyFlag,
            _ => Self::NoFlag,
        }
    }

    /// The flag's name, as the console shows it.
    pub fn to_string(&self) -> (r: String)
        ensures
            r@ == self.name(),
    {
        match self {
            AcFlagType::NoFlag => String::from_str("NoFlag"),
            AcFlagType::BlueFlag => String::from_str("BlueFlag"),
            AcFlagType::YellowFlag => String::from_str("YellowFlag"),
            AcFlagType::BlackFlag => String::from_str("BlackFlag"),
            AcFlagType::WhiteFlag => String::from_str("WhiteFlag"),
            AcFlagType::CheckeredFlag => String::from_str("CheckeredFlag"),
            AcFlagType::PenaltyFlag => String::from_str("PenaltyFlag"),
        }
    }
}

/// Each flag code names exactly one flag, so decoding the code of a flag
/// gives that flag back.
pub proof fn lemma_ac_flag_type_code_roundtrip(a: AcFlagType, b: AcFlagType)
    requires
        a.code() == b.code(),
    ensures
        a == b,
{
}

/// The flag type codes are those of the SDK's `AC_FLAG_TYPE` table, and
/// each flag type is shown under its SDK name: `from_i32` of a code in the
/// table gives the flag type listed with it, whose `to_string` is the name
/// listed with it.
pub proof fn lemma_ac_flag_type_sdk_table(t: AcFlagType)
    ensures
        t.code() == 0 <==> t == AcFlagType::NoFlag,
        t.code() == 1 <==> t == AcFlagType::BlueFlag,
        t.code() == 2 <==> t == AcFlagType::YellowFlag,
        t.code() == 3 <==> t == AcFlagType::BlackFlag,
        t.code() == 4 <==> t == AcFlagType::WhiteFlag,
        t.code() == 5 <==> t == AcFlagType::CheckeredFlag,
        t.code() == 6 <==> t == AcFlagType::PenaltyFlag,
        t == AcFlagType::NoFlag ==> t.name() == "NoFlag"@,
        t == AcFlagType::BlueFlag ==> t.name() == "BlueFlag"@,
        t == AcFlagType::YellowFlag ==> t.name() == "YellowFlag"@,
        t == AcFlagType::BlackFlag ==> t.name() == "BlackFlag"@,
        t == AcFlagType::WhiteFlag ==> t.name() == "WhiteFlag"@,
        t == AcFlagType::CheckeredFlag ==> t.name() == "CheckeredFlag"@,
        t == AcFlagType::PenaltyFlag ==> t.name() == "PenaltyFlag"@,
{
}

// ---------------------------------------------------------------------------
// Wide strings
// ---------------------------------------------------------------------------

/// The character with the code point `v` (for a Unicode scalar value `v`).
pub open spec fn char_of(v: u32) -> char {
    v as char
}

/// A UTF-16 high (leading) surrogate.
pub open spec fn is_high_surrogate(u: u16) -> bool {
    0xD800 <= u <= 0xDBFF
}

/// A UTF-16 low (trailing) surrogate.
pub open spec fn is_low_surrogate(u: u16) -> bool {
    0xDC00 <= u <= 0xDFFF
}

/// The UTF-16 encoding of one character: one unit equal to its code point
/// below 0x10000, otherwise a surrogate pair.
pub open spec fn char_units(c: char) -> Seq<u16> {
    let v = c as u32;
    if v < 0x10000 {
        seq![v as u16]
    } else {
        let w = (v - 0x10000) as u32;
        seq![(0xD800 + w / 0x400) as u16, (0xDC00 + w % 0x400) as u16]
    }
}

/// The UTF-16 encoding of `text`, as `str::encode_utf16` gives it.
pub open spec fn utf16_units(text: Seq<char>) -> Seq<u16>
    decreases text.len(),
{
    if text.len() == 0 {
        Seq::empty()
    } else {
        char_units(text[0]) + utf16_units(text.drop_first())
    }
}

/// The text of the UTF-16 units `units`, as `String::from_utf16_lossy`
/// gives it: a surrogate pair is one character, a surrogate outside a pair
/// becomes U+FFFD, and any other unit is the character with its value.
pub open spec fn utf16_lossy_text(units: Seq<u16>) -> Seq<char>
    decreases units.len(),
{
    if units.len() == 0 {
        Seq::empty()
    } else if units.len() >= 2 && is_high_surrogate(units[0]) && is_low_surrogate(units[1]) {
        seq![
            char_of(
                (0x10000 + (units[0] - 0xD800) * 0x400 + (units[1] - 0xDC00)) as u32,
            ),
        ] + utf16_lossy_text(units.subrange(2, units.len() as int))
    } else if is_high_surrogate(units[0]) || is_low_surrogate(units[0]) {
        seq!['\u{FFFD}'] + utf16_lossy_text(units.drop_first())
    } else {
        seq![char_of(units[0] as u32)] + utf16_lossy_text(units.drop_first())
    }
}

/// `std::string::String::from_utf16_lossy`: decodes UTF-16, putting U+FFFD
/// in place of each unpaired surrogate.
#[verifier::external_body]
fn decode_utf16_lossy(units: &[u16]) -> (r: String)
    ensures
        r@ == utf16_lossy_text(units@),
{
    String::from_utf16_lossy(units)
}

/// `str::encode_utf16`, collected into a vector.
#[verifier::external_body]
fn encode_utf16(s: &str) -> (r: Vec<u16>)
    ensures
        r@ == utf16_units(s@),
{
    s.encode_utf16().collect()
}

/// The index of the first NUL unit of `units`, or its length when it has none.
pub open spec fn nul_index(units: Seq<u16>) -> nat
    decreases units.len(),
{
    if units.len() == 0 {
        0
    } else if units[0] == 0 {
        0
    } else {
        1 + nul_index(units.drop_first())
    }
}

/// The units of a NUL-terminated array that come before the terminator.
pub open spec fn terminated_units(units: Seq<u16>) -> Seq<u16> {
    units.take(nul_index(units) as int)
}

/// `k` is the first NUL of `units` (or its length, if it has none) exactly
/// when no unit before `k` is NUL and the unit at `k`, if any, is.
pub proof fn lemma_nul_index(units: Seq<u16>, k: int)
    requires
        0 <= k <= units.len(),
        forall|j: int| 0 <= j < k ==> units[j] != 0,
        k == units.len() || units[k] == 0,
    ensures
        nul_index(units) == k,
    decreases k,
{
    if k > 0 {
        let rest = units.drop_first();
        assert forall|j: int| 0 <= j < k - 1 implies rest[j] != 0 by {
            assert(rest[j] == units[j + 1]);
        }
        if k < units.len() {
            assert(rest[k - 1] == units[k]);
        }
        lemma_nul_index(rest, k - 1);
    }
}

/// Decodes a fixed-size NUL-terminated UTF-16 array to a `String`.
pub fn decode_wstr<const N: usize>(buf: &[u16; N]) -> (r: String)
    ensures
        r@ == utf16_lossy_text(terminated_units(buf@)),
        !r@.contains('\0'),
{
    let units: &[u16] = buf.as_slice();
    let mut end: usize = 0;
    while end < N && units[end] != 0
        invariant
            end <= N,
            units@ == buf@,
            buf@.len() == N,
            forall|j: int| 0 <= j < end ==> buf@[j] != 0,
        decreases N - end,
    {
        end = end + 1;
    }
    proof {
        lemma_nul_index(buf@, end as int);
    }
    let text: &[u16] = &units[0..end];
    assert(text@ == terminated_units(buf@));
    proof {
        lemma_decoded_text_has_no_nul(text@);
    }
    decode_utf16_lossy(text)
}

/// Encodes `s` as UTF-16 followed by a NUL unit, the form that the Win32
/// wide-string calls take.
pub fn to_wide_null(s: &str) -> (r: Vec<u16>)
    ensures
        r@ == utf16_units(s@).push(0),
        !s@.contains('\0') ==> terminated_units(r@) == utf16_units(s@),
{
    let mut units = encode_utf16(s);
    units.push(0);
    proof {
        if !s@.contains('\0') {
            lemma_terminated_encoding(s@);
        }
    }
    units
}

/// A unit that is not 0 decodes to a character that is not NUL, so the
/// units before a terminator decode to text without NUL.
pub proof fn lemma_decoded_text_has_no_nul(units: Seq<u16>)
    requires
        !units.contains(0),
    ensures
        !utf16_lossy_text(units).contains('\0'),
    decreases units.len(),
{
    if units.len() > 0 {
        let text = utf16_lossy_text(units);
        let (first, rest) = if units.len() >= 2 && is_high_surrogate(units[0]) && is_low_surrogate(
            units[1],
        ) {
            (
                char_of((0x10000 + (units[0] - 0xD800) * 0x400 + (units[1] - 0xDC00)) as u32),
                units.subrange(2, units.len() as int),
            )
        } else if is_high_surrogate(units[0]) || is_low_surrogate(units[0]) {
            ('\u{FFFD}', units.drop_first())
        } else {
            (char_of(units[0] as u32), units.drop_first())
        };
        assert(!rest.contains(0)) by {
            if rest.contains(0) {
                let i = choose|i: int| 0 <= i < rest.len() && rest[i] == 0;
                assert(units[i + units.len() - rest.len()] == 0);
            }
        }
        lemma_decoded_text_has_no_nul(rest);
        assert(units[0] != 0);
        assert(first != '\0');
        assert(text == seq![first] + utf16_lossy_text(rest));
        assert forall|i: int| 0 <= i < text.len() implies text[i] != '\0' by {
            if i > 0 {
                assert(text[i] == utf16_lossy_text(rest)[i - 1]);
            }
        }
    }
}

/// No unit of the encoding of a character other than NUL is 0.
proof fn lemma_char_units_not_zero(c: char)
    requires
        c != '\0',
    ensures
        !char_units(c).contains(0),
{
    vstd::utf8::char_u32_cast(c, c as u32);
}

/// The encoding of a text without NUL holds no 0 unit.
pub proof fn lemma_encoding_has_no_zero(text: Seq<char>)
    requires
        !text.contains('\0'),
    ensures
        !utf16_units(text).contains(0),
    decreases text.len(),
{
    if text.len() > 0 {
        assert(text[0] != '\0');
        lemma_char_units_not_zero(text[0]);
        let rest = text.drop_first();
        assert(!rest.contains('\0')) by {
            if rest.contains('\0') {
                let i = choose|i: int| 0 <= i < rest.len() && rest[i] == '\0';
                assert(text[i + 1] == '\0');
            }
        }
        lemma_encoding_has_no_zero(rest);
        let head = char_units(text[0]);
        let units = utf16_units(text);
        assert(units == head + utf16_units(rest));
        assert forall|i: int| 0 <= i < units.len() implies units[i] != 0 by {
            if i < head.len() {
                assert(units[i] == head[i]);
            } else {
                assert(units[i] == utf16_units(rest)[i - head.len()]);
            }
        }
    }
}

/// The NUL that `to_wide_null` appends to a text without NUL is its first
/// 0 unit, so the units before the terminator are the text's encoding.
pub proof fn lemma_terminated_encoding(text: Seq<char>)
    requires
        !text.contains('\0'),
    ensures
        terminated_units(utf16_units(text).push(0)) == utf16_units(text),
{
    lemma_encoding_has_no_zero(text);
    let units = utf16_units(text);
    let wide = units.push(0);
    assert forall|j: int| 0 <= j < units.len() implies wide[j] != 0 by {
        assert(wide[j] == units[j]);
    }
    lemma_nul_index(wide, units.len() as int);
    assert(terminated_units(wide) =~= units);
}

/// Decoding the UTF-16 encoding of a character gives the character back.
proof fn lemma_char_round_trip(c: char, rest: Seq<u16>)
    ensures
        utf16_lossy_text(char_units(c) + rest) == seq![c] + utf16_lossy_text(rest),
{
    vstd::utf8::char_is_scalar(c);
    let v = c as u32;
    let units = char_units(c) + rest;
    if v < 0x10000 {
        assert(units[0] == v as u16);
        assert(units.drop_first() =~= rest);
        vstd::utf8::char_u32_cast(c, v);
    } else {
        let w = (v - 0x10000) as u32;
        assert(units[0] == (0xD800 + w / 0x400) as u16);
        assert(units[1] == (0xDC00 + w % 0x400) as u16);
        assert(units.subrange(2, units.len() as int) =~= rest);
        assert(0x10000 + (units[0] - 0xD800) * 0x400 + (units[1] - 0xDC00) == v);
        vstd::utf8::char_u32_cast(c, v);
    }
}

/// Decoding the UTF-16 encoding of any text gives the text back.
pub proof fn lemma_utf16_round_trip(text: Seq<char>)
    ensures
        utf16_lossy_text(utf16_units(text)) == text,
    decreases text.len(),
{
    if text.len() > 0 {
        let rest = text.drop_first();
        lemma_utf16_round_trip(rest);
        lemma_char_round_trip(text[0], utf16_units(rest));
        assert(seq![text[0]] + rest =~= text);
    }
}

/// A name with no NUL in it comes back unchanged from the NUL-terminated
/// units that `to_wide_null` gives for it, as `decode_wstr` reads them.
pub proof fn lemma_wide_name_roundtrip(text: Seq<char>)
    requires
        !text.contains('\0'),
    ensures
        utf16_lossy_text(terminated_units(utf16_units(text).push(0))) == text,
{
    lemma_terminated_encoding(text);
    lemma_utf16_round_trip(text);
}

} // verus!
