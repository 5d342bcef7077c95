//! Lap and sector detection from successive telemetry samples.
//!
//! `LapRecorder` is a state machine: each sample of the graphics page moves
//! it to a new state and may complete a lap. Its state is modelled by
//! `RecorderModel`, and `RecorderModel::next` and `RecorderModel::finished_lap`
//! say what a sample does to it.

use vstd::prelude::*;
use vstd::string::*;
use crate::lap_time::{lap_time_string, lap_time_text};
use crate::clock::{timestamp_now, is_utc_timestamp_text, ClockUnreadable};

verus! {

// ---------------------------------------------------------------------------
// Data types
// ---------------------------------------------------------------------------

/// Lap status classification.
#[derive(Debug, Clone, Copy, PartialEq, Eq, Structural)]
pub enum LapStatus {
    /// Normal racing lap (valid for statistics)
    Normal,
    /// Lap with pit stop (excluded from averages)
    Pit,
    /// Invalid lap (no timing recorded)
    Invalid,
}

impl LapStatus {
    /// The lower-case name under which the status is shown and stored.
    pub open spec fn name(self) -> Seq<char> {
        match self {
            LapStatus::Normal => "normal"@,
            LapStatus::Pit => "pit"@,
            LapStatus::Invalid => "invalid"@,
        }
    }

    /// The status's name: "normal", "pit" or "invalid".
    pub fn to_string(&self) -> (r: String)
        ensures
            r@ == self.name(),
    {
        match self {
            LapStatus::Normal => String::from_str("normal"),
            LapStatus::Pit => String::from_str("pit"),
            LapStatus::Invalid => String::from_str("invalid"),
        }
    }
}

/// Each lap status is shown and stored under its own lower-case name:
/// "normal", "pit" and "invalid".
pub proof fn lemma_lap_status_names(status: LapStatus)
    ensures
        status == LapStatus::Normal ==> status.name() == "normal"@,
        status == LapStatus::Pit ==> status.name() == "pit"@,
        status == LapStatus::Invalid ==> status.name() == "invalid"@,
{
}

/// Sector timing information.
#[derive(Debug, Clone)]
pub struct SectorTime {
    /// Sector index (0-based)
    pub index: usize,
    /// Sector time in milliseconds
    pub time_ms: i32,
    /// Human-readable formatted time (e.g., "0:48.100")
    pub formatted: String,
}

/// A sector time as a mathematical value.
pub struct SectorTimeView {
    pub index: usize,
    pub time_ms: i32,
    pub formatted: Seq<char>,
}

impl View for SectorTime {
    type V = SectorTimeView;

    open spec fn view(&self) -> SectorTimeView {
        SectorTimeView { index: self.index, time_ms: self.time_ms, formatted: self.formatted@ }
    }
}

/// The sector time that the recorder stores for sector `index` of `time_ms`.
pub open spec fn sector_entry(index: usize, time_ms: i32) -> SectorTimeView {
    SectorTimeView { index, time_ms, formatted: lap_time_text(time_ms as int) }
}

/// The views of a sequence of sector times.
pub open spec fn sector_views(sectors: Seq<SectorTime>) -> Seq<SectorTimeView> {
    sectors.map_values(|s: SectorTime| s@)
}

/// Complete lap record with timing and metadata.
#[derive(Debug, Clone)]
pub struct LapRecord {
    /// Lap number (1-based)
    pub lap_number: i32,
    /// Lap status (normal/pit/invalid)
    pub status: LapStatus,
    /// Total lap time in milliseconds
    pub total_time_ms: i32,
    /// Human-readable formatted time (e.g., "2:25.340")
    pub total_time_formatted: String,
    /// Sector times for this lap
    pub sectors: Vec<SectorTime>,
    /// ISO 8601 timestamp when lap was completed
    pub timestamp: String,
}

/// A lap record as a mathematical value.
pub struct LapRecordView {
    pub lap_number: i32,
    pub status: LapStatus,
    pub total_time_ms: i32,
    pub total_time_formatted: Seq<char>,
    pub sectors: Seq<SectorTimeView>,
    pub timestamp: Seq<char>,
}

impl View for LapRecord {
    type V = LapRecordView;

    open spec fn view(&self) -> LapRecordView {
        LapRecordView {
            lap_number: self.lap_number,
            status: self.status,
            total_time_ms: self.total_time_ms,
            total_time_formatted: self.total_time_formatted@,
            sectors: sector_views(self.sectors@),
            timestamp: self.timestamp@,
        }
    }
}

/// Where the car stands on the lap, as far as crossing the start/finish line
/// is concerned: its normalized track position is below one half (`Early`),
/// above one half (`Late`), or neither (`Midpoint`: exactly one half, or no
/// number at all).
#[derive(Debug, Clone, Copy, PartialEq, Eq, Structural)]
pub enum TrackHalf {
    Early,
    Late,
    Midpoint,
}

/// The values of the graphics page that lap detection reads.
#[derive(Debug, Clone, Copy)]
pub struct TelemetrySample {
    /// Which half of the lap `normalized_car_position` lies in
    pub track_half: TrackHalf,
    /// `completed_laps`
    pub completed_laps: i32,
    /// `current_sector_index`
    pub current_sector_index: i32,
    /// `last_sector_time`
    pub last_sector_time: i32,
    /// `is_in_pit`
    pub is_in_pit: i32,
    /// `i_last_time`
    pub i_last_time: i32,
}

// ---------------------------------------------------------------------------
// The recorder's model
// ---------------------------------------------------------------------------

/// The state of a `LapRecorder`.
#[verifier::ext_equal]
pub struct RecorderModel {
    pub previous_completed_laps: i32,
    pub previous_sector_index: i32,
    pub previous_last_sector_time: i32,
    pub current_lap_sectors: Seq<SectorTimeView>,
    pub is_in_pit_during_lap: bool,
    pub current_lap_number: i32,
    pub previous_track_half: TrackHalf,
    pub lap_in_progress: bool,
    pub has_seen_sector_zero: bool,
    pub counter_rise_owed: bool,
    pub sector_wrap_owed: bool,
}

/// The car crossed the start/finish line: its position went from the late
/// half of the lap to the early half.
pub open spec fn crosses_line(previous: TrackHalf, current: TrackHalf) -> bool {
    previous == TrackHalf::Late && current == TrackHalf::Early
}

/// The status of a completed lap: a lap on which the car was in the pits is a
/// pit lap; otherwise a lap whose last sector has no time is invalid.
pub open spec fn lap_status_of(was_in_pit: bool, last_sector_time: i32) -> LapStatus {
    if was_in_pit {
        LapStatus::Pit
    } else if last_sector_time == 0 {
        LapStatus::Invalid
    } else {
        LapStatus::Normal
    }
}

/// The record of a completed lap.
pub open spec fn lap_entry(
    lap_number: i32,
    status: LapStatus,
    total_time_ms: i32,
    sectors: Seq<SectorTimeView>,
    timestamp: Seq<char>,
) -> LapRecordView {
    LapRecordView {
        lap_number,
        status,
        total_time_ms,
        total_time_formatted: lap_time_text(total_time_ms as int),
        sectors,
        timestamp,
    }
}

/// Every sector time holds the text of its time.
pub open spec fn sectors_formatted(sectors: Seq<SectorTimeView>) -> bool {
    forall|i: int|
        0 <= i < sectors.len() ==> (#[trigger] sectors[i]).formatted == lap_time_text(
            sectors[i].time_ms as int,
        )
}

impl RecorderModel {
    /// The state of a new recorder.
    pub open spec fn initial() -> RecorderModel {
        RecorderModel {
            previous_completed_laps: 0,
            previous_sector_index: -1i32,
            previous_last_sector_time: 0,
            current_lap_sectors: Seq::empty(),
            is_in_pit_during_lap: false,
            current_lap_number: 0,
            previous_track_half: TrackHalf::Midpoint,
            lap_in_progress: false,
            has_seen_sector_zero: false,
            counter_rise_owed: false,
            sector_wrap_owed: false,
        }
    }

    /// What every reachable state satisfies: a lap is in progress exactly
    /// when a lap number has been given out, a lap starts only at sector 0,
    /// no sector is held while no lap is in progress, and every sector held
    /// carries the text of its time.
    pub open spec fn wf(self) -> bool {
        &&& self.current_lap_number >= 0
        &&& self.lap_in_progress ==> self.current_lap_number >= 1 && self.has_seen_sector_zero
        &&& !self.lap_in_progress ==> self.current_lap_number == 0
            && self.current_lap_sectors.len() == 0
        &&& sectors_formatted(self.current_lap_sectors)
    }

    /// The sample is the recorder's first look at the session: nothing is
    /// tracked yet, and the sample only sets the baseline.
    pub open spec fn initialising(self) -> bool {
        self.previous_sector_index == -1 && !self.lap_in_progress
    }

    /// Whether the car was in the pits at some point of the lap, this sample included.
    pub open spec fn pit_seen(self, s: TelemetrySample) -> bool {
        self.is_in_pit_during_lap || s.is_in_pit == 1
    }

    /// The sample completes the lap in progress by crossing the line.
    pub open spec fn completes_by_crossing(self, s: TelemetrySample) -> bool {
        &&& !self.initialising()
        &&& crosses_line(self.previous_track_half, s.track_half)
        &&& self.lap_in_progress
    }

    /// The sector index goes from 2 back to 0 on the sample.
    pub open spec fn sector_wraps(self, s: TelemetrySample) -> bool {
        self.previous_sector_index == 2 && s.current_sector_index == 0
    }

    /// The simulator's lap counter goes up on the sample.
    pub open spec fn counter_rises(self, s: TelemetrySample) -> bool {
        s.completed_laps > self.previous_completed_laps
    }

    /// The car passes from the early half of the lap into the late half:
    /// half a lap after the line, any late signal of the last line event has
    /// arrived, so what was still owed to it lapses.
    pub open spec fn passes_half_lap(self, s: TelemetrySample) -> bool {
        self.previous_track_half == TrackHalf::Early && s.track_half == TrackHalf::Late
    }

    /// The sample completes the lap in progress by the sector index going
    /// from 2 back to 0, unless that wrap is owed to a lap already ended.
    pub open spec fn completes_by_sector_wrap(self, s: TelemetrySample) -> bool {
        &&& !self.initialising()
        &&& !self.completes_by_crossing(s)
        &&& self.sector_wraps(s)
        &&& self.lap_in_progress
        &&& !self.sector_wrap_owed
    }

    /// The sample completes the lap in progress by the simulator's lap
    /// counter going up, unless that rise is owed to a lap already ended.
    pub open spec fn completes_by_lap_counter(self, s: TelemetrySample) -> bool {
        &&& !self.initialising()
        &&& !self.completes_by_crossing(s)
        &&& !self.completes_by_sector_wrap(s)
        &&& self.counter_rises(s)
        &&& self.lap_in_progress
        &&& !self.counter_rise_owed
    }

    /// The sample completes the lap at the line: by crossing it, or by the
    /// lap counter going up.
    pub open spec fn completes_at_line(self, s: TelemetrySample) -> bool {
        self.completes_by_crossing(s) || self.completes_by_lap_counter(s)
    }

    /// The sample completes a lap.
    pub open spec fn completes_lap(self, s: TelemetrySample) -> bool {
        self.completes_at_line(s) || self.completes_by_sector_wrap(s)
    }

    /// The sectors of the lap that the sample completes: the sectors held,
    /// and the final sector, the one the car was in.
    pub open spec fn final_sectors(self, s: TelemetrySample) -> Seq<SectorTimeView> {
        if self.completes_by_sector_wrap(s) {
            self.current_lap_sectors.push(sector_entry(2, s.last_sector_time))
        } else if self.previous_sector_index > 0 && self.previous_last_sector_time > 0 {
            self.current_lap_sectors.push(
                sector_entry(self.previous_sector_index as usize, self.previous_last_sector_time),
            )
        } else {
            self.current_lap_sectors
        }
    }

    /// The lap that the sample completes, if any, stamped with `timestamp`.
    pub open spec fn finished_lap(self, s: TelemetrySample, timestamp: Seq<char>) -> Option<
        LapRecordView,
    > {
        if self.completes_lap(s) {
            Some(
                lap_entry(
                    self.current_lap_number,
                    lap_status_of(self.pit_seen(s), s.last_sector_time),
                    s.i_last_time,
                    self.final_sectors(s),
                    timestamp,
                ),
            )
        } else {
            None
        }
    }

    /// The state after the sample.
    pub open spec fn next(self, s: TelemetrySample) -> RecorderModel {
        let pit = self.pit_seen(s);
        if self.initialising() {
            RecorderModel {
                previous_completed_laps: s.completed_laps,
                previous_sector_index: s.current_sector_index,
                previous_last_sector_time: s.last_sector_time,
                is_in_pit_during_lap: pit,
                previous_track_half: s.track_half,
                ..self
            }
        } else if self.completes_lap(s) {
            let wrap = self.completes_by_sector_wrap(s);
            RecorderModel {
                previous_completed_laps: s.completed_laps,
                previous_sector_index: s.current_sector_index,
                previous_last_sector_time: if wrap {
                    s.last_sector_time
                } else {
                    0
                },
                current_lap_sectors: Seq::empty(),
                is_in_pit_during_lap: false,
                current_lap_number: (self.current_lap_number + 1) as i32,
                previous_track_half: s.track_half,
                lap_in_progress: true,
                has_seen_sector_zero: self.has_seen_sector_zero || wrap,
                counter_rise_owed: !self.counter_rises(s),
                sector_wrap_owed: !self.sector_wraps(s),
            }
        } else {
            let changed = s.current_sector_index != self.previous_sector_index;
            let seen = self.has_seen_sector_zero || (changed && s.current_sector_index == 0);
            let starts = changed && seen && s.current_sector_index == 0 && !self.lap_in_progress;
            let records = changed && seen && self.lap_in_progress && s.current_sector_index > 0
                && self.previous_last_sector_time > 0;
            RecorderModel {
                previous_completed_laps: s.completed_laps,
                previous_sector_index: s.current_sector_index,
                previous_last_sector_time: s.last_sector_time,
                current_lap_sectors: if records {
                    self.current_lap_sectors.push(
                        sector_entry(
                            (s.current_sector_index - 1) as usize,
                            self.previous_last_sector_time,
                        ),
                    )
                } else {
                    self.current_lap_sectors
                },
                is_in_pit_during_lap: pit,
                current_lap_number: if starts {
                    1
                } else {
                    self.current_lap_number
                },
                previous_track_half: s.track_half,
                lap_in_progress: self.lap_in_progress || starts,
                has_seen_sector_zero: seen,
                counter_rise_owed: if starts {
                    !self.counter_rises(s)
                } else {
                    self.counter_rise_owed && !self.counter_rises(s) && !self.passes_half_lap(s)
                },
                sector_wrap_owed: !starts && self.sector_wrap_owed && !self.sector_wraps(s)
                    && !self.passes_half_lap(s),
            }
        }
    }
}

// ---------------------------------------------------------------------------
// Lap Recorder
// ---------------------------------------------------------------------------

/// Tracks telemetry state and detects lap completions.
pub struct LapRecorder {
    /// Previous value of completed_laps counter
    previous_completed_laps: i32,
    /// Previous sector index
    previous_sector_index: i32,
    /// Previous last_sector_time value
    previous_last_sector_time: i32,
    /// Accumulates sector times during current lap
    current_lap_sectors: Vec<SectorTime>,
    /// Tracks if car was in pit during this lap
    is_in_pit_during_lap: bool,
    /// Lap number counter for tracking (helps identify lap boundaries)
    current_lap_number: i32,
    /// Previous half of the lap the car was in (for detecting start/finish crossing)
    previous_track_half: TrackHalf,
    /// Flag indicating if we're actively tracking a lap in progress
    lap_in_progress: bool,
    /// Flag indicating if we've ever seen sector 0 (required for complete lap recording)
    has_seen_sector_zero: bool,
    /// The lap counter's rise for the last line event has not been seen yet:
    /// when it comes, it belongs to the lap already ended and ends none
    counter_rise_owed: bool,
    /// The sector index's return from 2 to 0 for the last line event has not
    /// been seen yet: when it comes, it belongs to the lap already ended
    sector_wrap_owed: bool,
    /// Set when the clock could not be read to stamp the last lap that
    /// `update` completed
    stamp_clock_failure: Option<ClockUnreadable>,
}

impl View for LapRecorder {
    type V = RecorderModel;

    closed spec fn view(&self) -> RecorderModel {
        RecorderModel {
            previous_completed_laps: self.previous_completed_laps,
            previous_sector_index: self.previous_sector_index,
            previous_last_sector_time: self.previous_last_sector_time,
            current_lap_sectors: sector_views(self.current_lap_sectors@),
            is_in_pit_during_lap: self.is_in_pit_during_lap,
            current_lap_number: self.current_lap_number,
            previous_track_half: self.previous_track_half,
            lap_in_progress: self.lap_in_progress,
            has_seen_sector_zero: self.has_seen_sector_zero,
            counter_rise_owed: self.counter_rise_owed,
            sector_wrap_owed: self.sector_wrap_owed,
        }
    }
}

impl LapRecorder {
    /// The clock could not be read to stamp the last lap that `update`
    /// completed.
    pub closed spec fn stamp_clock_unreadable(&self) -> bool {
        self.stamp_clock_failure is Some
    }

    /// Every recorder is in a reachable state.
    #[verifier::type_invariant]
    spec fn reachable(self) -> bool {
        self@.wf()
    }
}

/// Classifies a completed lap: pit if the car was in the pits during it,
/// else invalid if its last sector has no time, else normal.
fn classify_lap(was_in_pit: bool, last_sector_time: i32) -> (r: LapStatus)
    ensures
        r == lap_status_of(was_in_pit, last_sector_time),
{
    if was_in_pit {
        LapStatus::Pit
    } else if last_sector_time == 0 {
        LapStatus::Invalid
    } else {
        LapStatus::Normal
    }
}

/// Appends sector `index` of `time_ms` to `sectors`.
fn push_sector(sectors: &mut Vec<SectorTime>, index: usize, time_ms: i32)
    ensures
        sector_views(final(sectors)@) == sector_views(old(sectors)@).push(sector_entry(index, time_ms)),
{
    let sector = SectorTime { index, time_ms, formatted: lap_time_string(time_ms) };
    sectors.push(sector);
    assert(sector_views(sectors@) =~= sector_views(old(sectors)@).push(sector_entry(index, time_ms)));
}

impl LapRecorder {
    /// Create a new lap recorder.
    pub fn new() -> (r: Self)
        ensures
            r@ == RecorderModel::initial(),
            r@.wf(),
    {
        let r = Self {
            previous_completed_laps: 0,
            previous_sector_index: -1,
            previous_last_sector_time: 0,
            current_lap_sectors: Vec::new(),
            is_in_pit_during_lap: false,
            current_lap_number: 0,
            previous_track_half: TrackHalf::Midpoint,
            lap_in_progress: false,
            has_seen_sector_zero: false,
            counter_rise_owed: false,
            sector_wrap_owed: false,
            stamp_clock_failure: None,
        };
        assert(r@ =~= RecorderModel::initial());
        r
    }

    /// The number of the lap in progress (0 before the first lap starts).
    pub fn current_lap_number(&self) -> (r: i32)
        ensures
            r == self@.current_lap_number,
    {
        self.current_lap_number
    }

    /// Detect if the car crossed the start/finish line: its position wrapped
    /// from the late half of the lap to the early half.
    pub fn detect_start_finish_crossing(current: TrackHalf, previous: TrackHalf) -> (r: bool)
        ensures
            r == crosses_line(previous, current),
    {
        previous == TrackHalf::Late && current == TrackHalf::Early
    }

    /// Format milliseconds to "M:SS.sss" string ("2:25.230" for 145230;
    /// "0:00.000" for a time that is not positive).
    pub fn format_time(ms: i32) -> (r: String)
        ensures
            r@ == lap_time_text(ms as int),
    {
        lap_time_string(ms)
    }

    /// Whether the sample would complete a lap.
    pub fn would_complete_lap(&self, graphics: &TelemetrySample) -> (r: bool)
        ensures
            r == self@.completes_lap(*graphics),
    {
        if self.previous_sector_index == -1 && !self.lap_in_progress {
            return false;
        }
        let crossing = Self::detect_start_finish_crossing(graphics.track_half, self.previous_track_half)
            && self.lap_in_progress;
        let wrap = !crossing && self.previous_sector_index == 2 && graphics.current_sector_index == 0
            && self.lap_in_progress && !self.sector_wrap_owed;
        let counter = !crossing && !wrap && graphics.completed_laps > self.previous_completed_laps
            && self.lap_in_progress && !self.counter_rise_owed;
        crossing || wrap || counter
    }

    /// Update the recorder with the latest telemetry sample; a lap that the
    /// sample completes is stamped with `timestamp`.
    ///
    /// Returns `Some(LapRecord)` if a lap was just completed, `None` otherwise.
    pub fn update_with_timestamp(&mut self, graphics: &TelemetrySample, timestamp: String) -> (r:
        Option<LapRecord>)
        requires
            old(self)@.completes_lap(*graphics) ==> old(self)@.current_lap_number < i32::MAX,
        ensures
            final(self)@ == old(self)@.next(*graphics),
            final(self)@.wf(),
            r is Some <==> old(self)@.completes_lap(*graphics),
            r matches Some(lap) ==> old(self)@.finished_lap(*graphics, timestamp@) == Some(lap@),
            final(self).stamp_clock_unreadable() == old(self).stamp_clock_unreadable(),
    {
        proof {
            use_type_invariant(&*self);
        }
        let ghost pre = self@;
        // Read current telemetry values
        let current_half = graphics.track_half;
        let completed_laps: i32 = graphics.completed_laps;
        let current_sector_index: i32 = graphics.current_sector_index;
        let last_sector_time: i32 = graphics.last_sector_time;
        let is_in_pit: i32 = graphics.is_in_pit;
        let i_last_time: i32 = graphics.i_last_time;

        // The state, taken apart; it is put back whole before returning
        let mut sectors: Vec<SectorTime> = Vec::new();
        std::mem::swap(&mut sectors, &mut self.current_lap_sectors);
        let previous_sector_index = self.previous_sector_index;
        let previous_last_sector_time = self.previous_last_sector_time;
        let previous_completed_laps = self.previous_completed_laps;
        let previous_track_half = self.previous_track_half;
        let lap_number = self.current_lap_number;
        let lap_in_progress = self.lap_in_progress;
        let has_seen_sector_zero = self.has_seen_sector_zero;
        let counter_rise_owed = self.counter_rise_owed;
        let sector_wrap_owed = self.sector_wrap_owed;
        let mut stamp_clock_failure: Option<ClockUnreadable> = None;
        std::mem::swap(&mut stamp_clock_failure, &mut self.stamp_clock_failure);
        assert(sector_views(sectors@) == pre.current_lap_sectors);

        // Track pit status during this lap
        let in_pit_during_lap = self.is_in_pit_during_lap || is_in_pit == 1;

        // STEP 1: on the first update, capture the current state but don't
        // start a lap yet: a lap starts only at sector 0.
        if previous_sector_index == -1 && !lap_in_progress {
            *self = LapRecorder {
                previous_completed_laps: completed_laps,
                previous_sector_index: current_sector_index,
                previous_last_sector_time: last_sector_time,
                current_lap_sectors: sectors,
                is_in_pit_during_lap: in_pit_during_lap,
                current_lap_number: lap_number,
                previous_track_half: current_half,
                lap_in_progress,
                has_seen_sector_zero,
                counter_rise_owed,
                sector_wrap_owed,
                stamp_clock_failure,
            };
            assert(self@ =~= pre.next(*graphics));
            return None;
        }

        // STEP 2: detect the end of the lap in progress: a line crossing, the
        // sector index going from 2 back to 0, or the lap counter going up.
        // A wrap or a rise still owed to the lap already ended ends none.
        let sector_wraps = previous_sector_index == 2 && current_sector_index == 0;
        let counter_rises = completed_laps > previous_completed_laps;
        let crossing = Self::detect_start_finish_crossing(current_half, previous_track_half)
            && lap_in_progress;
        let wrap = !crossing && sector_wraps && lap_in_progress && !sector_wrap_owed;
        let counter = !crossing && !wrap && counter_rises && lap_in_progress && !counter_rise_owed;

        if crossing || wrap || counter {
            // Record the final sector: sector 2 on a wrap, else the one the
            // car was in
            if wrap {
                push_sector(&mut sectors, 2, last_sector_time);
            } else if previous_sector_index > 0 && previous_last_sector_time > 0 {
                push_sector(&mut sectors, previous_sector_index as usize, previous_last_sector_time);
            }
            let status = classify_lap(in_pit_during_lap, last_sector_time);
            let lap_record = LapRecord {
                lap_number,
                status,
                total_time_ms: i_last_time,
                total_time_formatted: Self::format_time(i_last_time),
                sectors,
                timestamp,
            };
            // Start the next lap. The signals of this line event that have
            // not come yet are owed to the lap just ended.
            *self = LapRecorder {
                previous_completed_laps: completed_laps,
                previous_sector_index: current_sector_index,
                previous_last_sector_time: if wrap {
                    last_sector_time
                } else {
                    0
                },
                current_lap_sectors: Vec::new(),
                is_in_pit_during_lap: false,
                current_lap_number: lap_number + 1,
                previous_track_half: current_half,
                lap_in_progress: true,
                has_seen_sector_zero: has_seen_sector_zero || wrap,
                counter_rise_owed: !counter_rises,
                sector_wrap_owed: !sector_wraps,
                stamp_clock_failure,
            };
            assert(self@ =~= pre.next(*graphics));
            return Some(lap_record);
        }

        // STEP 3: detect sector index changes
        let changed = current_sector_index != previous_sector_index;
        let seen = has_seen_sector_zero || (changed && current_sector_index == 0);
        let starts = changed && seen && current_sector_index == 0 && !lap_in_progress;
        if changed && seen && lap_in_progress && current_sector_index > 0
            && previous_last_sector_time > 0 {
            // Normal sector transition within a lap: record the sector we just left
            let sector_just_left: i32 = current_sector_index - 1;
            push_sector(&mut sectors, sector_just_left as usize, previous_last_sector_time);
        }
        let half_lap = previous_track_half == TrackHalf::Early && current_half == TrackHalf::Late;
        *self = LapRecorder {
            previous_completed_laps: completed_laps,
            previous_sector_index: current_sector_index,
            previous_last_sector_time: last_sector_time,
            current_lap_sectors: sectors,
            is_in_pit_during_lap: in_pit_during_lap,
            // First time entering sector 0 starts lap 1
            current_lap_number: if starts {
                1
            } else {
                lap_number
            },
            previous_track_half: current_half,
            lap_in_progress: lap_in_progress || starts,
            has_seen_sector_zero: seen,
            counter_rise_owed: if starts {
                !counter_rises
            } else {
                counter_rise_owed && !counter_rises && !half_lap
            },
            sector_wrap_owed: !starts && sector_wrap_owed && !sector_wraps && !half_lap,
            stamp_clock_failure,
        };
        assert(self@ =~= pre.next(*graphics));
        None
    }

    /// Update the recorder with the latest telemetry sample; a lap that the
    /// sample completes is stamped with the current time (or with an empty
    /// text when the clock cannot be read).
    ///
    /// Returns `Some(LapRecord)` if a lap was just completed, `None` otherwise.
    pub fn update(&mut self, graphics: &TelemetrySample) -> (r: Option<LapRecord>)
        requires
            old(self)@.completes_lap(*graphics) ==> old(self)@.current_lap_number < i32::MAX,
        ensures
            final(self)@ == old(self)@.next(*graphics),
            final(self)@.wf(),
            r is Some <==> old(self)@.completes_lap(*graphics),
            r matches Some(lap) ==> old(self)@.finished_lap(*graphics, lap.timestamp@) == Some(lap@),
            r matches Some(lap) ==> lap.timestamp@.len() == 0 || is_utc_timestamp_text(
                lap.timestamp@,
            ),
            r matches Some(lap) ==> if final(self).stamp_clock_unreadable() {
                lap.timestamp@.len() == 0
            } else {
                is_utc_timestamp_text(lap.timestamp@)
            },
            r is None ==> final(self).stamp_clock_unreadable() == old(self).stamp_clock_unreadable(),
    {
        let mut failure: Option<ClockUnreadable> = None;
        let timestamp = if self.would_complete_lap(graphics) {
            match timestamp_now() {
                Ok(t) => t,
                Err(e) => {
                    failure = Some(e);
                    String::new()
                },
            }
        } else {
            String::new()
        };
        let r = self.update_with_timestamp(graphics, timestamp);
        if r.is_some() {
            self.stamp_clock_failure = failure;
        }
        r
    }
}

impl Default for LapRecorder {
    fn default() -> (r: Self)
        ensures
            r@ == RecorderModel::initial(),
    {
        Self::new()
    }
}

// ---------------------------------------------------------------------------
// Laws of one sample
// ---------------------------------------------------------------------------

/// A sample keeps a reachable state reachable.
pub proof fn lemma_next_keeps_wf(m: RecorderModel, s: TelemetrySample)
    requires
        m.wf(),
        m.completes_lap(s) ==> m.current_lap_number < i32::MAX,
    ensures
        m.next(s).wf(),
{
    let n = m.next(s);
    assert forall|i: int| 0 <= i < n.current_lap_sectors.len() implies (
    #[trigger] n.current_lap_sectors[i]).formatted == lap_time_text(
        n.current_lap_sectors[i].time_ms as int,
    ) by {
        if i < m.current_lap_sectors.len() {
            assert(n.current_lap_sectors[i] == m.current_lap_sectors[i]);
        }
    }
}

/// Laps are numbered without gaps: a completed lap carries the number of the
/// lap in progress, the next lap gets the following number, and it starts
/// with no sector and no pit visit recorded.
pub proof fn lemma_completed_lap_numbering(m: RecorderModel, s: TelemetrySample, timestamp: Seq<char>)
    requires
        m.wf(),
        m.current_lap_number < i32::MAX,
        m.completes_lap(s),
    ensures
        m.finished_lap(s, timestamp) is Some,
        m.finished_lap(s, timestamp)->0.lap_number == m.current_lap_number,
        m.finished_lap(s, timestamp)->0.lap_number >= 1,
        m.next(s).current_lap_number == m.finished_lap(s, timestamp)->0.lap_number + 1,
        m.next(s).current_lap_sectors.len() == 0,
        !m.next(s).is_in_pit_during_lap,
        m.next(s).lap_in_progress,
{
}

/// A sample seen twice completes no lap the second time: it changes nothing
/// that could end a lap.
pub proof fn lemma_repeated_sample_completes_nothing(m: RecorderModel, s: TelemetrySample)
    ensures
        !m.next(s).completes_lap(s),
{
}

/// One line event completes one lap: after a sample that completes a lap,
/// the next sample completes none unless it crosses the line itself or the
/// lap counter goes up a second time; the sector index returning to 0, or a
/// lap counter rise that had not come with the completion, ends no lap.
pub proof fn lemma_no_double_completion(m: RecorderModel, s: TelemetrySample, t: TelemetrySample)
    requires
        m.completes_lap(s),
        !crosses_line(s.track_half, t.track_half),
        !m.counter_rises(s) || t.completed_laps <= s.completed_laps,
    ensures
        !m.next(s).completes_lap(t),
{
}

/// No lap completes before the first lap has started, and the first lap
/// starts, as lap 1, only when the car enters sector 0.
pub proof fn lemma_first_lap_starts_at_sector_zero(m: RecorderModel, s: TelemetrySample)
    requires
        m.wf(),
        !m.lap_in_progress,
    ensures
        !m.completes_lap(s),
        m.next(s).lap_in_progress ==> m.next(s).current_lap_number == 1
            && s.current_sector_index == 0 && m.previous_sector_index != 0,
        !m.next(s).lap_in_progress ==> m.next(s).current_lap_number == 0,
{
}

/// A lap during which the car was in the pits, on any sample of it, the
/// completing one included, is recorded as a pit lap; a lap without pit visit
/// whose last sector has no time is invalid; any other lap is normal.
pub proof fn lemma_lap_status(m: RecorderModel, s: TelemetrySample, timestamp: Seq<char>)
    requires
        m.completes_lap(s),
    ensures
        (m.is_in_pit_during_lap || s.is_in_pit == 1) ==> m.finished_lap(s, timestamp)->0.status
            == LapStatus::Pit,
        !(m.is_in_pit_during_lap || s.is_in_pit == 1) ==> (m.finished_lap(s, timestamp)->0.status
            == LapStatus::Invalid <==> s.last_sector_time == 0),
        !(m.is_in_pit_during_lap || s.is_in_pit == 1) && s.last_sector_time != 0 ==> m.finished_lap(
            s,
            timestamp,
        )->0.status == LapStatus::Normal,
        m.finished_lap(s, timestamp)->0.total_time_ms == s.i_last_time,
{
}

/// A pit visit is remembered until the lap ends: a sample in the pits that
/// does not complete a lap leaves the lap marked as a pit lap.
pub proof fn lemma_pit_visit_sticks(m: RecorderModel, s: TelemetrySample)
    requires
        s.is_in_pit == 1 || m.is_in_pit_during_lap,
        !m.completes_lap(s),
    ensures
        m.next(s).is_in_pit_during_lap,
{
}

/// The final sector of a completed lap is the one the car was in: at the
/// line or on a rise of the lap counter, whatever the number of sectors,
/// with the last sector time seen; on a return from sector 2 to 0, as
/// sector 2 with the sample's sector time.
pub proof fn lemma_final_sector(m: RecorderModel, s: TelemetrySample, timestamp: Seq<char>)
    requires
        m.completes_lap(s),
        m.previous_sector_index > 0,
        m.completes_by_sector_wrap(s) || m.previous_last_sector_time > 0,
    ensures
        m.finished_lap(s, timestamp)->0.sectors == m.current_lap_sectors.push(
            sector_entry(
                m.previous_sector_index as usize,
                if m.completes_by_sector_wrap(s) {
                    s.last_sector_time
                } else {
                    m.previous_last_sector_time
                },
            ),
        ),
{
}

// ---------------------------------------------------------------------------
// Laws of a run of samples
// ---------------------------------------------------------------------------

/// The state of a new recorder after the samples `samples`, in order.
pub open spec fn run(samples: Seq<TelemetrySample>) -> RecorderModel
    decreases samples.len(),
{
    if samples.len() == 0 {
        RecorderModel::initial()
    } else {
        run(samples.drop_last()).next(samples.last())
    }
}

/// Sample `k` of the run completes a lap.
pub open spec fn completes_at(samples: Seq<TelemetrySample>, k: int) -> bool {
    run(samples.take(k)).completes_lap(samples[k])
}

/// Sample `j` of the run enters sector 0 from another known sector.
pub open spec fn enters_sector_zero_at(samples: Seq<TelemetrySample>, j: int) -> bool {
    &&& 1 <= j < samples.len()
    &&& samples[j].current_sector_index == 0
    &&& samples[j - 1].current_sector_index != 0
    &&& samples[j - 1].current_sector_index != -1
}

/// The number of laps completed by the first `k` samples of the run.
pub open spec fn completions_before(samples: Seq<TelemetrySample>, k: int) -> nat
    decreases k,
{
    if k <= 0 {
        0
    } else {
        completions_before(samples, k - 1) + if completes_at(samples, k - 1) {
            1nat
        } else {
            0nat
        }
    }
}

proof fn lemma_run_step(samples: Seq<TelemetrySample>, i: int)
    requires
        0 <= i < samples.len(),
    ensures
        run(samples.take(i + 1)) == run(samples.take(i)).next(samples[i]),
{
    assert(samples.take(i + 1).drop_last() =~= samples.take(i));
}

/// After at least one sample, the state remembers the last sample's sector
/// index, track half and lap counter.
proof fn lemma_run_tracks_last(samples: Seq<TelemetrySample>, i: int)
    requires
        1 <= i <= samples.len(),
    ensures
        run(samples.take(i)).previous_sector_index == samples[i - 1].current_sector_index,
        run(samples.take(i)).previous_track_half == samples[i - 1].track_half,
        run(samples.take(i)).previous_completed_laps == samples[i - 1].completed_laps,
{
    lemma_run_step(samples, i - 1);
}

/// Along a run of fewer than `i32::MAX` samples every state is reachable,
/// the lap in progress carries the number of laps completed so far plus one,
/// and no lap completes before one is in progress.
proof fn lemma_run_invariant(samples: Seq<TelemetrySample>, k: int)
    requires
        0 <= k <= samples.len(),
        samples.len() < i32::MAX,
    ensures
        run(samples.take(k)).wf(),
        run(samples.take(k)).current_lap_number <= k,
        run(samples.take(k)).lap_in_progress ==> run(samples.take(k)).current_lap_number
            == completions_before(samples, k) + 1,
        !run(samples.take(k)).lap_in_progress ==> completions_before(samples, k) == 0,
    decreases k,
{
    if k == 0 {
        assert(samples.take(0) =~= Seq::<TelemetrySample>::empty());
    } else {
        lemma_run_invariant(samples, k - 1);
        lemma_run_step(samples, k - 1);
        let m = run(samples.take(k - 1));
        lemma_next_keeps_wf(m, samples[k - 1]);
    }
}

/// Once a lap is in progress, one stays in progress.
proof fn lemma_in_progress_stays(samples: Seq<TelemetrySample>, i: int, k: int)
    requires
        0 <= i <= k <= samples.len(),
        run(samples.take(i)).lap_in_progress,
    ensures
        run(samples.take(k)).lap_in_progress,
    decreases k - i,
{
    if i < k {
        lemma_run_step(samples, i);
        lemma_in_progress_stays(samples, i + 1, k);
    }
}

/// Entering sector 0 from another known sector starts a lap, if none is in
/// progress yet.
proof fn lemma_entering_sector_zero_starts(samples: Seq<TelemetrySample>, j: int)
    requires
        enters_sector_zero_at(samples, j),
    ensures
        run(samples.take(j + 1)).lap_in_progress,
{
    lemma_run_step(samples, j);
    lemma_run_tracks_last(samples, j);
}

/// A lap is in progress only after the car has entered sector 0 from
/// another known sector; the first sample never starts one.
pub proof fn lemma_lap_in_progress_after_sector_zero(samples: Seq<TelemetrySample>, k: int)
    requires
        0 <= k <= samples.len(),
        run(samples.take(k)).lap_in_progress,
    ensures
        exists|j: int| j < k && enters_sector_zero_at(samples, j),
    decreases k,
{
    if k == 0 {
        assert(samples.take(0) =~= Seq::<TelemetrySample>::empty());
    } else {
        lemma_run_step(samples, k - 1);
        let m = run(samples.take(k - 1));
        if m.lap_in_progress {
            lemma_lap_in_progress_after_sector_zero(samples, k - 1);
            let j = choose|j: int| j < k - 1 && enters_sector_zero_at(samples, j);
        } else {
            if k - 1 == 0 {
                assert(samples.take(0) =~= Seq::<TelemetrySample>::empty());
            } else {
                lemma_run_tracks_last(samples, k - 1);
                assert(enters_sector_zero_at(samples, k - 1));
            }
        }
    }
}

/// A lap completes only at a line crossing, a return of the sector index
/// from sector 2 to 0, or a rise of the lap counter, and only after
/// the car has entered sector 0 at an earlier sample; so the first two
/// samples never complete one.
pub proof fn lemma_completion_has_a_cause(samples: Seq<TelemetrySample>, k: int)
    requires
        0 <= k < samples.len(),
        completes_at(samples, k),
    ensures
        k >= 2,
        crosses_line(samples[k - 1].track_half, samples[k].track_half) || sector_wraps_at(samples, k)
            || counter_rises_at(samples, k),
        exists|j: int| j < k && enters_sector_zero_at(samples, j),
{
    lemma_lap_in_progress_after_sector_zero(samples, k);
    let j = choose|j: int| j < k && enters_sector_zero_at(samples, j);
    lemma_run_tracks_last(samples, k);
}

/// Once the car has entered sector 0, every crossing of the start/finish
/// line completes a lap.
pub proof fn lemma_crossing_completes_lap(samples: Seq<TelemetrySample>, j: int, k: int)
    requires
        enters_sector_zero_at(samples, j),
        j < k < samples.len(),
        crosses_line(samples[k - 1].track_half, samples[k].track_half),
    ensures
        completes_at(samples, k),
{
    lemma_entering_sector_zero_starts(samples, j);
    lemma_in_progress_stays(samples, j + 1, k);
    lemma_run_tracks_last(samples, k);
}

/// The car passes from the early half of the lap into the late half at
/// sample `j`.
pub open spec fn passes_half_lap_at(samples: Seq<TelemetrySample>, j: int) -> bool {
    samples[j - 1].track_half == TrackHalf::Early && samples[j].track_half == TrackHalf::Late
}

/// The lap counter goes up at sample `j`.
pub open spec fn counter_rises_at(samples: Seq<TelemetrySample>, j: int) -> bool {
    samples[j].completed_laps > samples[j - 1].completed_laps
}

/// The sector index goes from 2 back to 0 at sample `j`.
pub open spec fn sector_wraps_at(samples: Seq<TelemetrySample>, j: int) -> bool {
    samples[j - 1].current_sector_index == 2 && samples[j].current_sector_index == 0
}

/// After sample `k` completed a lap without the lap counter going up, the
/// rise stays owed to that lap, and a lap stays in progress, until the
/// counter goes up or the car passes half lap.
proof fn lemma_counter_rise_stays_owed(samples: Seq<TelemetrySample>, k: int, i: int)
    requires
        0 < k < i <= samples.len(),
        completes_at(samples, k),
        !counter_rises_at(samples, k),
        forall|j: int| k < j < i ==> !counter_rises_at(samples, j) && !passes_half_lap_at(samples, j),
    ensures
        run(samples.take(i)).counter_rise_owed,
        run(samples.take(i)).lap_in_progress,
    decreases i - k,
{
    if i == k + 1 {
        lemma_run_step(samples, k);
        lemma_run_tracks_last(samples, k);
    } else {
        lemma_counter_rise_stays_owed(samples, k, i - 1);
        lemma_run_step(samples, i - 1);
        lemma_run_tracks_last(samples, i - 1);
        assert(!counter_rises_at(samples, i - 1) && !passes_half_lap_at(samples, i - 1));
    }
}

/// After sample `k` completed a lap without the sector index going from 2 to
/// 0, that return stays owed to the lap, and a lap stays in progress, until
/// it comes or the car passes half lap.
proof fn lemma_sector_wrap_stays_owed(samples: Seq<TelemetrySample>, k: int, i: int)
    requires
        0 < k < i <= samples.len(),
        completes_at(samples, k),
        !sector_wraps_at(samples, k),
        forall|j: int| k < j < i ==> !sector_wraps_at(samples, j) && !passes_half_lap_at(samples, j),
    ensures
        run(samples.take(i)).sector_wrap_owed,
        run(samples.take(i)).lap_in_progress,
    decreases i - k,
{
    if i == k + 1 {
        lemma_run_step(samples, k);
        lemma_run_tracks_last(samples, k);
    } else {
        lemma_sector_wrap_stays_owed(samples, k, i - 1);
        lemma_run_step(samples, i - 1);
        lemma_run_tracks_last(samples, i - 1);
        assert(!sector_wraps_at(samples, i - 1) && !passes_half_lap_at(samples, i - 1));
    }
}

/// A lap counter rise that comes after the line event it belongs to ends no
/// lap: when sample `k` completed a lap without the counter going up, the
/// first rise after it, before the car passes half lap, completes a lap only
/// if its sample also crosses the line or returns from sector 2 to 0.
pub proof fn lemma_late_counter_rise_ends_no_lap(samples: Seq<TelemetrySample>, k: int, r: int)
    requires
        0 < k < r < samples.len(),
        completes_at(samples, k),
        !counter_rises_at(samples, k),
        forall|j: int| k < j < r ==> !counter_rises_at(samples, j) && !passes_half_lap_at(samples, j),
        completes_at(samples, r),
    ensures
        crosses_line(samples[r - 1].track_half, samples[r].track_half) || sector_wraps_at(samples, r),
{
    lemma_counter_rise_stays_owed(samples, k, r);
    lemma_run_tracks_last(samples, r);
}

/// A return of the sector index from 2 to 0 that comes after the line event
/// it belongs to ends no lap: when sample `k` completed a lap without that
/// return, the first one after it, before the car passes half lap, completes
/// a lap only if its sample also crosses the line or the lap counter goes up.
pub proof fn lemma_late_sector_wrap_ends_no_lap(samples: Seq<TelemetrySample>, k: int, r: int)
    requires
        0 < k < r < samples.len(),
        completes_at(samples, k),
        !sector_wraps_at(samples, k),
        forall|j: int| k < j < r ==> !sector_wraps_at(samples, j) && !passes_half_lap_at(samples, j),
        completes_at(samples, r),
    ensures
        crosses_line(samples[r - 1].track_half, samples[r].track_half) || counter_rises_at(samples, r),
{
    lemma_sector_wrap_stays_owed(samples, k, r);
    lemma_run_tracks_last(samples, r);
}

/// Laps are numbered 1, 2, 3, ... in the order they complete: the lap that
/// sample `k` completes carries one more than the number of laps completed
/// before it.
pub proof fn lemma_laps_numbered_in_order(
    samples: Seq<TelemetrySample>,
    k: int,
    timestamp: Seq<char>,
)
    requires
        0 <= k < samples.len(),
        samples.len() < i32::MAX,
        completes_at(samples, k),
    ensures
        run(samples.take(k)).finished_lap(samples[k], timestamp)->0.lap_number
            == completions_before(samples, k) + 1,
{
    lemma_run_invariant(samples, k);
}

/// A sample in the pits marks the lap it belongs to: when no lap completes
/// from that sample until sample `k`, the lap that sample `k` completes is a
/// pit lap.
pub proof fn lemma_pit_sample_marks_lap(
    samples: Seq<TelemetrySample>,
    j: int,
    k: int,
    timestamp: Seq<char>,
)
    requires
        0 <= j <= k < samples.len(),
        samples[j].is_in_pit == 1,
        forall|i: int| j <= i < k ==> !completes_at(samples, i),
        completes_at(samples, k),
    ensures
        run(samples.take(k)).finished_lap(samples[k], timestamp)->0.status == LapStatus::Pit,
{
    if j < k {
        lemma_pit_flag_held(samples, j, k);
    }
}

/// The pit mark of sample `j` is held by every state up to sample `k`, when
/// no lap completes in between.
proof fn lemma_pit_flag_held(samples: Seq<TelemetrySample>, j: int, k: int)
    requires
        0 <= j < k <= samples.len(),
        samples[j].is_in_pit == 1,
        forall|i: int| j <= i < k ==> !completes_at(samples, i),
    ensures
        run(samples.take(k)).is_in_pit_during_lap,
    decreases k - j,
{
    lemma_run_step(samples, k - 1);
    assert(!completes_at(samples, k - 1));
    if j < k - 1 {
        lemma_pit_flag_held(samples, j, k - 1);
    }
}

/// Without a pit sample since sample `c`, which completed a lap (or since
/// the start, for `c == -1`), the state holds no pit mark.
proof fn lemma_no_pit_flag(samples: Seq<TelemetrySample>, c: int, k: int)
    requires
        -1 <= c < k <= samples.len(),
        c >= 0 ==> completes_at(samples, c),
        forall|j: int| c < j < k ==> samples[j].is_in_pit != 1,
    ensures
        !run(samples.take(k)).is_in_pit_during_lap,
    decreases k - c,
{
    if k == 0 {
        assert(samples.take(0) =~= Seq::<TelemetrySample>::empty());
    } else {
        lemma_run_step(samples, k - 1);
        if k - 1 > c {
            lemma_no_pit_flag(samples, c, k - 1);
        }
    }
}

/// A lap with no pit sample since the previous completion (or since the
/// start) is invalid exactly when the last sector time of its completing
/// sample is 0, and normal otherwise.
pub proof fn lemma_lap_without_pit_status(
    samples: Seq<TelemetrySample>,
    c: int,
    k: int,
    timestamp: Seq<char>,
)
    requires
        -1 <= c < k < samples.len(),
        c >= 0 ==> completes_at(samples, c),
        forall|j: int| c < j <= k ==> samples[j].is_in_pit != 1,
        completes_at(samples, k),
    ensures
        run(samples.take(k)).finished_lap(samples[k], timestamp)->0.status == if samples[k].last_sector_time
            == 0 {
            LapStatus::Invalid
        } else {
            LapStatus::Normal
        },
{
    lemma_no_pit_flag(samples, c, k);
}

/// A lap driven sector by sector on a track of `n` sectors: the car, in the
/// late half of the lap, goes from the last sector into sector 0, which
/// starts lap 1, then through sectors 1 to `n - 1` in order, one sample each,
/// and crosses the line still in sector `n - 1`; every sample has a sector
/// time and the same lap count.
pub open spec fn one_lap_in_sector_order(samples: Seq<TelemetrySample>, n: int) -> bool {
    &&& 2 <= n < i32::MAX
    &&& samples.len() == n + 2
    &&& samples[0].current_sector_index == n - 1
    &&& forall|i: int| 1 <= i <= n ==> #[trigger] samples[i].current_sector_index == i - 1
    &&& samples[n + 1].current_sector_index == n - 1
    &&& forall|i: int| 0 <= i <= n ==> #[trigger] samples[i].track_half == TrackHalf::Late
    &&& samples[n + 1].track_half == TrackHalf::Early
    &&& forall|i: int|
        0 <= i < samples.len() ==> #[trigger] samples[i].last_sector_time > 0
            && samples[i].completed_laps == samples[0].completed_laps
}

/// Along such a lap, after sample `k - 1` (in sector `k - 2`), lap 1 is in
/// progress and holds sectors 0 to `k - 3`, in order.
proof fn lemma_sectors_so_far(samples: Seq<TelemetrySample>, n: int, k: int)
    requires
        one_lap_in_sector_order(samples, n),
        2 <= k <= n + 1,
    ensures
        run(samples.take(k)).lap_in_progress,
        run(samples.take(k)).has_seen_sector_zero,
        run(samples.take(k)).previous_sector_index == k - 2,
        run(samples.take(k)).previous_last_sector_time == samples[k - 1].last_sector_time,
        run(samples.take(k)).previous_track_half == TrackHalf::Late,
        run(samples.take(k)).previous_completed_laps == samples[0].completed_laps,
        run(samples.take(k)).current_lap_sectors.len() == k - 2,
        forall|j: int|
            0 <= j < k - 2 ==> #[trigger] run(samples.take(k)).current_lap_sectors[j].index == j,
    decreases k,
{
    if k == 2 {
        assert(samples.take(0) =~= Seq::<TelemetrySample>::empty());
        lemma_run_step(samples, 0);
        lemma_run_step(samples, 1);
        assert(samples[0].last_sector_time > 0);
        assert(samples[1].last_sector_time > 0);
        assert(samples[1].current_sector_index == 0);
        assert(samples[0].track_half == TrackHalf::Late);
        assert(samples[1].track_half == TrackHalf::Late);
    } else {
        lemma_sectors_so_far(samples, n, k - 1);
        lemma_run_step(samples, k - 1);
        let m = run(samples.take(k - 1));
        assert(samples[k - 1].current_sector_index == k - 2);
        assert(samples[k - 1].track_half == TrackHalf::Late);
        assert(samples[k - 1].last_sector_time > 0);
        assert(samples[k - 2].last_sector_time > 0);
        assert(!m.completes_lap(samples[k - 1]));
        let next = run(samples.take(k));
        assert forall|j: int| 0 <= j < k - 2 implies #[trigger] next.current_lap_sectors[j].index
            == j by {
            if j < k - 3 {
                assert(next.current_lap_sectors[j] == m.current_lap_sectors[j]);
            }
        }
    }
}

/// Every sector of a lap is recorded, the final one included, whatever the
/// number of sectors: a lap driven through sectors 0 to `n - 1` in order and
/// ended at the line holds sectors 0 to `n - 1`, in order.
pub proof fn lemma_lap_holds_every_sector(
    samples: Seq<TelemetrySample>,
    n: int,
    timestamp: Seq<char>,
)
    requires
        one_lap_in_sector_order(samples, n),
    ensures
        completes_at(samples, n + 1),
        run(samples.take(n + 1)).finished_lap(samples[n + 1], timestamp)->0.sectors.len() == n,
        forall|j: int|
            0 <= j < n ==> #[trigger] run(samples.take(n + 1)).finished_lap(
                samples[n + 1],
                timestamp,
            )->0.sectors[j].index == j,
{
    lemma_sectors_so_far(samples, n, n + 1);
    assert(samples[n].last_sector_time > 0);
    let m = run(samples.take(n + 1));
    assert(m.completes_by_crossing(samples[n + 1]));
    let sectors = m.final_sectors(samples[n + 1]);
    assert forall|j: int| 0 <= j < n implies #[trigger] sectors[j].index == j by {
        if j < n - 1 {
            assert(sectors[j] == m.current_lap_sectors[j]);
        }
    }
}

/// A completed lap carries the texts of its times: the total time and each
/// sector time are shown as "M:SS.sss" texts of those times, and the lap is
/// stamped with the timestamp given.
pub proof fn lemma_lap_record_texts(m: RecorderModel, s: TelemetrySample, timestamp: Seq<char>)
    requires
        m.wf(),
        m.completes_lap(s),
    ensures
        m.finished_lap(s, timestamp)->0.total_time_formatted == lap_time_text(
            m.finished_lap(s, timestamp)->0.total_time_ms as int,
        ),
        m.finished_lap(s, timestamp)->0.timestamp == timestamp,
        sectors_formatted(m.finished_lap(s, timestamp)->0.sectors),
{
    let sectors = m.final_sectors(s);
    assert forall|i: int| 0 <= i < sectors.len() implies (#[trigger] sectors[i]).formatted
        == lap_time_text(sectors[i].time_ms as int) by {
        if i < m.current_lap_sectors.len() {
            assert(sectors[i] == m.current_lap_sectors[i]);
        }
    }
}

} // verus!
