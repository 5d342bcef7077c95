//! The session recording: metadata, the laps recorded so far, and statistics
//! over them, as they are exported to a JSON file.

use vstd::prelude::*;
use vstd::string::*;
use crate::lap_time::{lap_time_string, lap_time_text};
use crate::lap_recorder::{LapRecord, LapRecordView, LapStatus};
use crate::clock::{
    date_and_time_now, timestamp_now, is_date_text, is_time_text, is_utc_timestamp_text, ClockUnreadable,
};

verus! {

// ---------------------------------------------------------------------------
// JSON Data Structures
// ---------------------------------------------------------------------------

/// The text of an optional string.
pub open spec fn optional_text(s: Option<String>) -> Option<Seq<char>> {
    match s {
        Some(t) => Some(t@),
        None => None,
    }
}

/// Metadata about the recording session.
#[derive(Debug)]
pub struct SessionMetadata {
    /// Car model name (e.g., "Ferrari 488 GT3")
    pub car_model: String,
    /// Track name (e.g., "Monza")
    pub track: String,
    /// Session type (e.g., "Practice", "Race")
    pub session_type: String,
    /// Player name
    pub player_name: String,
    /// ISO 8601 timestamp when recording started
    pub recording_start: String,
    /// ISO 8601 timestamp when recording ended (None until finalized)
    pub recording_end: Option<String>,
    /// Total number of laps recorded
    pub total_laps_recorded: i32,
}

/// Session metadata as a mathematical value.
pub struct SessionMetadataView {
    pub car_model: Seq<char>,
    pub track: Seq<char>,
    pub session_type: Seq<char>,
    pub player_name: Seq<char>,
    pub recording_start: Seq<char>,
    pub recording_end: Option<Seq<char>>,
    pub total_laps_recorded: i32,
}

impl View for SessionMetadata {
    type V = SessionMetadataView;

    open spec fn view(&self) -> SessionMetadataView {
        SessionMetadataView {
            car_model: self.car_model@,
            track: self.track@,
            session_type: self.session_type@,
            player_name: self.player_name@,
            recording_start: self.recording_start@,
            recording_end: optional_text(self.recording_end),
            total_laps_recorded: self.total_laps_recorded,
        }
    }
}

/// Session statistics (best lap, averages, counts).
#[derive(Debug)]
pub struct SessionStatistics {
    /// Number of valid (normal) laps
    pub valid_laps: i32,
    /// Number of pit laps
    pub pit_laps: i32,
    /// Number of invalid laps
    pub invalid_laps: i32,
    /// Best lap time in milliseconds (valid laps only)
    pub best_lap_ms: Option<i32>,
    /// Best lap time formatted (valid laps only)
    pub best_lap_formatted: Option<String>,
    /// Average lap time in milliseconds (valid laps only, excluding pit)
    pub average_lap_ms: Option<i32>,
    /// Average lap time formatted (valid laps only, excluding pit)
    pub average_lap_formatted: Option<String>,
}

/// Session statistics as a mathematical value.
pub struct SessionStatisticsView {
    pub valid_laps: i32,
    pub pit_laps: i32,
    pub invalid_laps: i32,
    pub best_lap_ms: Option<i32>,
    pub best_lap_formatted: Option<Seq<char>>,
    pub average_lap_ms: Option<i32>,
    pub average_lap_formatted: Option<Seq<char>>,
}

impl View for SessionStatistics {
    type V = SessionStatisticsView;

    open spec fn view(&self) -> SessionStatisticsView {
        SessionStatisticsView {
            valid_laps: self.valid_laps,
            pit_laps: self.pit_laps,
            invalid_laps: self.invalid_laps,
            best_lap_ms: self.best_lap_ms,
            best_lap_formatted: optional_text(self.best_lap_formatted),
            average_lap_ms: self.average_lap_ms,
            average_lap_formatted: optional_text(self.average_lap_formatted),
        }
    }
}

/// Complete session recording with metadata, laps, and statistics.
#[derive(Debug)]
pub struct SessionRecording {
    /// Session metadata
    pub metadata: SessionMetadata,
    /// All recorded laps
    pub laps: Vec<LapRecord>,
    /// Computed statistics
    pub statistics: SessionStatistics,
}

/// A session recording as a mathematical value.
pub struct SessionRecordingView {
    pub metadata: SessionMetadataView,
    pub laps: Seq<LapRecordView>,
    pub statistics: SessionStatisticsView,
}

/// The views of a sequence of lap records.
pub open spec fn lap_views(laps: Seq<LapRecord>) -> Seq<LapRecordView> {
    laps.map_values(|l: LapRecord| l@)
}

impl View for SessionRecording {
    type V = SessionRecordingView;

    open spec fn view(&self) -> SessionRecordingView {
        SessionRecordingView {
            metadata: self.metadata@,
            laps: lap_views(self.laps@),
            statistics: self.statistics@,
        }
    }
}

// ---------------------------------------------------------------------------
// Statistics
// ---------------------------------------------------------------------------

/// The number of laps of `laps` with status `status`.
pub open spec fn count_with_status(laps: Seq<LapRecordView>, status: LapStatus) -> nat
    decreases laps.len(),
{
    if laps.len() == 0 {
        0
    } else {
        count_with_status(laps.drop_last(), status) + if laps.last().status == status {
            1nat
        } else {
            0nat
        }
    }
}

/// A lap that counts for the best and average times: a normal lap with a
/// positive total time.
pub open spec fn is_timed_lap(lap: LapRecordView) -> bool {
    lap.status == LapStatus::Normal && lap.total_time_ms > 0
}

/// The total times of the timed laps of `laps`, in order.
pub open spec fn timed_lap_times(laps: Seq<LapRecordView>) -> Seq<i32>
    decreases laps.len(),
{
    if laps.len() == 0 {
        Seq::empty()
    } else if is_timed_lap(laps.last()) {
        timed_lap_times(laps.drop_last()).push(laps.last().total_time_ms)
    } else {
        timed_lap_times(laps.drop_last())
    }
}

/// The smallest of `times` (for a non-empty sequence).
pub open spec fn min_time(times: Seq<i32>) -> i32
    decreases times.len(),
{
    if times.len() <= 1 {
        times[0]
    } else if times.last() < min_time(times.drop_last()) {
        times.last()
    } else {
        min_time(times.drop_last())
    }
}

/// The sum of `times`.
pub open spec fn sum_times(times: Seq<i32>) -> int
    decreases times.len(),
{
    if times.len() == 0 {
        0
    } else {
        sum_times(times.drop_last()) + times.last()
    }
}

/// The text of an optional time.
pub open spec fn optional_time_text(t: Option<i32>) -> Option<Seq<char>> {
    match t {
        Some(ms) => Some(lap_time_text(ms as int)),
        None => None,
    }
}

/// The best lap: the smallest total time of a timed lap, if there is one.
pub open spec fn best_lap_of(laps: Seq<LapRecordView>) -> Option<i32> {
    let times = timed_lap_times(laps);
    if times.len() > 0 {
        Some(min_time(times))
    } else {
        None
    }
}

/// The average lap: the sum of the timed laps' total times divided by their
/// number, rounded down, if there is a timed lap.
pub open spec fn average_lap_of(laps: Seq<LapRecordView>) -> Option<i32> {
    let times = timed_lap_times(laps);
    if times.len() > 0 {
        Some((sum_times(times) / times.len() as int) as i32)
    } else {
        None
    }
}

/// The statistics of a session with laps `laps`.
pub open spec fn statistics_of(laps: Seq<LapRecordView>) -> SessionStatisticsView {
    SessionStatisticsView {
        valid_laps: count_with_status(laps, LapStatus::Normal) as i32,
        pit_laps: count_with_status(laps, LapStatus::Pit) as i32,
        invalid_laps: count_with_status(laps, LapStatus::Invalid) as i32,
        best_lap_ms: best_lap_of(laps),
        best_lap_formatted: optional_time_text(best_lap_of(laps)),
        average_lap_ms: average_lap_of(laps),
        average_lap_formatted: optional_time_text(average_lap_of(laps)),
    }
}

/// The statistics of a session without laps.
pub open spec fn empty_statistics() -> SessionStatisticsView {
    SessionStatisticsView {
        valid_laps: 0,
        pit_laps: 0,
        invalid_laps: 0,
        best_lap_ms: None,
        best_lap_formatted: None,
        average_lap_ms: None,
        average_lap_formatted: None,
    }
}

/// A count of laps never exceeds the number of laps.
proof fn lemma_count_bounded(laps: Seq<LapRecordView>, status: LapStatus)
    ensures
        count_with_status(laps, status) <= laps.len(),
    decreases laps.len(),
{
    if laps.len() > 0 {
        lemma_count_bounded(laps.drop_last(), status);
    }
}

/// There are no more timed laps than laps, and every timed lap time is positive.
proof fn lemma_timed_times_bounded(laps: Seq<LapRecordView>)
    ensures
        timed_lap_times(laps).len() <= laps.len(),
        forall|i: int| 0 <= i < timed_lap_times(laps).len() ==> timed_lap_times(laps)[i] > 0,
    decreases laps.len(),
{
    if laps.len() > 0 {
        lemma_timed_times_bounded(laps.drop_last());
    }
}

/// The sum of the timed laps of a prefix is at most that of the whole.
proof fn lemma_prefix_sum_bounded(laps: Seq<LapRecordView>, i: int)
    requires
        0 <= i <= laps.len(),
    ensures
        0 <= sum_times(timed_lap_times(laps.take(i))) <= sum_times(timed_lap_times(laps)),
    decreases laps.len() - i,
{
    if i < laps.len() {
        lemma_prefix_sum_bounded(laps, i + 1);
        let prefix = laps.take(i);
        let longer = laps.take(i + 1);
        assert(longer.drop_last() =~= prefix);
        lemma_timed_times_bounded(prefix);
        lemma_sum_nonnegative(timed_lap_times(prefix));
        if is_timed_lap(longer.last()) {
            let t = timed_lap_times(prefix);
            assert(t.push(longer.last().total_time_ms).drop_last() =~= t);
        }
    } else {
        assert(laps.take(i) =~= laps);
        lemma_timed_times_bounded(laps);
        lemma_sum_nonnegative(timed_lap_times(laps));
    }
}

/// A sum of positive times is not negative.
proof fn lemma_sum_nonnegative(times: Seq<i32>)
    requires
        forall|i: int| 0 <= i < times.len() ==> times[i] > 0,
    ensures
        sum_times(times) >= 0,
    decreases times.len(),
{
    if times.len() > 0 {
        lemma_sum_nonnegative(times.drop_last());
    }
}

// ---------------------------------------------------------------------------
// File names
// ---------------------------------------------------------------------------

/// A name as it goes into a file name: spaces removed, and each '/' turned
/// into '_'.
pub open spec fn clean_text(s: Seq<char>) -> Seq<char>
    decreases s.len(),
{
    if s.len() == 0 {
        Seq::empty()
    } else if s.last() == ' ' {
        clean_text(s.drop_last())
    } else if s.last() == '/' {
        clean_text(s.drop_last()).push('_')
    } else {
        clean_text(s.drop_last()).push(s.last())
    }
}

/// The date and time of a file name, as read from the clock: chrono's date
/// and time texts, or both empty when the clock could not be read.
pub open spec fn clock_parts(date: Seq<char>, time: Seq<char>) -> bool {
    (is_date_text(date) && is_time_text(time)) || (date.len() == 0 && time.len() == 0)
}

/// A timestamp as read from the clock: chrono's RFC 3339 text of a UTC
/// time, or empty when the clock could not be read.
pub open spec fn clock_timestamp(t: Seq<char>) -> bool {
    t.len() == 0 || is_utc_timestamp_text(t)
}

/// A cleaned name holds no space and no '/'.
pub proof fn lemma_clean_text_is_plain(s: Seq<char>)
    ensures
        !clean_text(s).contains(' '),
        !clean_text(s).contains('/'),
    decreases s.len(),
{
    if s.len() > 0 {
        lemma_clean_text_is_plain(s.drop_last());
        let rest = clean_text(s.drop_last());
        if s.last() == ' ' {
        } else if s.last() == '/' {
            assert forall|i: int| 0 <= i < rest.push('_').len() implies rest.push('_')[i] != ' '
                && rest.push('_')[i] != '/' by {
                if i < rest.len() {
                    assert(rest.push('_')[i] == rest[i]);
                }
            }
        } else {
            assert forall|i: int| 0 <= i < rest.push(s.last()).len() implies rest.push(s.last())[i]
                != ' ' && rest.push(s.last())[i] != '/' by {
                if i < rest.len() {
                    assert(rest.push(s.last())[i] == rest[i]);
                }
            }
        }
    }
}

/// Names are cleaned character by character: the cleaned text of two texts
/// one after the other is their cleaned texts one after the other.
pub proof fn lemma_clean_text_concat(a: Seq<char>, b: Seq<char>)
    ensures
        clean_text(a + b) == clean_text(a) + clean_text(b),
    decreases b.len(),
{
    if b.len() == 0 {
        assert(a + b =~= a);
        assert(clean_text(a) + clean_text(b) =~= clean_text(a));
    } else {
        lemma_clean_text_concat(a, b.drop_last());
        assert((a + b).drop_last() =~= a + b.drop_last());
        assert((a + b).last() == b.last());
        let ca = clean_text(a);
        let cb = clean_text(b.drop_last());
        assert((ca + cb).push('_') =~= ca + cb.push('_'));
        assert((ca + cb).push(b.last()) =~= ca + cb.push(b.last()));
    }
}

/// Cleaning drops a space, turns '/' into '_', and keeps a name that holds
/// neither as it is.
pub proof fn lemma_clean_text_marks(s: Seq<char>)
    ensures
        clean_text(seq![' ']) == Seq::<char>::empty(),
        clean_text(seq!['/']) == seq!['_'],
        !s.contains(' ') && !s.contains('/') ==> clean_text(s) == s,
    decreases s.len(),
{
    let space = seq![' '];
    let slash = seq!['/'];
    let none = Seq::<char>::empty();
    assert(space.drop_last() =~= none && space.last() == ' ');
    assert(slash.drop_last() =~= none && slash.last() == '/');
    assert(clean_text(none) == none);
    assert(clean_text(space) == clean_text(none));
    assert(clean_text(slash) == clean_text(none).push('_'));
    assert(none.push('_') =~= seq!['_']);
    if s.len() > 0 && !s.contains(' ') && !s.contains('/') {
        let init = s.drop_last();
        assert(!init.contains(' ') && !init.contains('/')) by {
            if init.contains(' ') || init.contains('/') {
                let i = choose|i: int| 0 <= i < init.len() && (init[i] == ' ' || init[i] == '/');
                assert(s[i] == init[i]);
            }
        }
        assert(s[s.len() - 1] == s.last());
        lemma_clean_text_marks(init);
        assert(init.push(s.last()) =~= s);
    }
}

/// A recording's file name, made from any track and car names and a date
/// and time as chrono writes them, holds no space and no '/', so it names a
/// file right inside the recordings directory.
pub proof fn lemma_filename_is_plain(track: Seq<char>, car: Seq<char>, date: Seq<char>, time: Seq<char>)
    requires
        clock_parts(date, time),
    ensures
        !filename_text(track, car, date, time).contains(' '),
        !filename_text(track, car, date, time).contains('/'),
{
    lemma_clean_text_is_plain(track);
    lemma_clean_text_is_plain(car);
    let name = filename_text(track, car, date, time);
    let ct = clean_text(track);
    let cc = clean_text(car);
    assert forall|i: int| 0 <= i < name.len() implies name[i] != ' ' && name[i] != '/' by {
        let a = ct.len() as int;
        let b = a + 1 + cc.len();
        let c = b + 1 + date.len();
        let d = c + 1 + time.len();
        if i < a {
            assert(name[i] == ct[i]);
        } else if i == a {
        } else if i < b {
            assert(name[i] == cc[i - a - 1]);
        } else if i == b {
        } else if i < c {
            assert(name[i] == date[i - b - 1]);
        } else if i == c {
        } else if i < d {
            assert(name[i] == time[i - c - 1]);
        } else {
        }
    }
}

/// The file name of a recording: `{track}_{car}_{date}_{time}.json`, with
/// track and car names cleaned.
pub open spec fn filename_text(track: Seq<char>, car: Seq<char>, date: Seq<char>, time: Seq<char>) -> Seq<char> {
    clean_text(track) + seq!['_'] + clean_text(car) + seq!['_'] + date + seq!['_'] + time
        + seq!['.', 'j', 's', 'o', 'n']
}

/// Appends `s` with spaces removed and each '/' turned into '_' to `out`.
fn append_clean(out: &mut String, s: &str)
    ensures
        final(out)@ == old(out)@ + clean_text(s@),
{
    proof {
        reveal_strlit("_");
        assert("_"@ =~= seq!['_']);
    }
    let n: usize = s.unicode_len();
    let mut i: usize = 0;
    while i < n
        invariant
            n == s@.len(),
            i <= n,
            "_"@ == seq!['_'],
            out@ == old(out)@ + clean_text(s@.take(i as int)),
        decreases n - i,
    {
        let c = s.get_char(i);
        let ghost before = out@;
        let ghost prev = s@.take(i as int);
        let ghost next = s@.take(i + 1);
        assert(next.drop_last() =~= prev);
        assert(next.last() == c);
        if c == ' ' {
            assert(clean_text(next) == clean_text(prev));
        } else if c == '/' {
            out.append("_");
            assert(clean_text(next) == clean_text(prev).push('_'));
            assert(out@ =~= old(out)@ + clean_text(next));
        } else {
            let piece = s.substring_char(i, i + 1);
            assert(piece@ =~= seq![c]);
            out.append(piece);
            assert(clean_text(next) == clean_text(prev).push(c));
            assert(out@ =~= old(out)@ + clean_text(next));
        }
        i = i + 1;
    }
    assert(s@.take(n as int) =~= s@);
}

/// Appends the text `t` to `out`.
fn append_text(out: &mut String, t: &str)
    ensures
        final(out)@ == old(out)@ + t@,
{
    out.append(t);
}

// ---------------------------------------------------------------------------
// JSON Exporter
// ---------------------------------------------------------------------------

/// The directory that recordings are written to.
pub open spec fn recordings_dir_text() -> Seq<char> {
    seq!['.', 'r', 'e', 'c', 'o', 'r', 'd', 'i', 'n', 'g', 's']
}

/// Manages JSON file export for a telemetry session.
pub struct JsonExporter {
    /// Directory of the JSON output file
    recordings_dir: String,
    /// Name of the JSON output file within that directory
    file_name: String,
    /// Session data being recorded
    session_data: SessionRecording,
    /// Set when the clock could not be read when the exporter was made, or
    /// at the last `finalize`
    clock_failure: Option<ClockUnreadable>,
}

/// A JSON exporter as a mathematical value: where the recording goes, and
/// the recording.
pub struct ExporterView {
    pub recordings_dir: Seq<char>,
    pub file_name: Seq<char>,
    pub recording: SessionRecordingView,
}

impl View for JsonExporter {
    type V = ExporterView;

    closed spec fn view(&self) -> ExporterView {
        ExporterView {
            recordings_dir: self.recordings_dir@,
            file_name: self.file_name@,
            recording: self.session_data@,
        }
    }
}

impl JsonExporter {
    /// The clock could not be read when the exporter was made, or at the
    /// last `finalize`.
    pub closed spec fn clock_unreadable(&self) -> bool {
        self.clock_failure is Some
    }

    /// Create a new JSON exporter for a session: the recording starts at
    /// `recording_start`, with no laps, and is to be written under
    /// `.recordings` in a file named after the track, the car, `date` and `time`.
    pub fn new_at(
        car_model: String,
        track: String,
        player_name: String,
        session_type: String,
        date: &str,
        time: &str,
        recording_start: String,
    ) -> (r: Self)
        ensures
            r@.recordings_dir == recordings_dir_text(),
            r@.file_name == filename_text(track@, car_model@, date@, time@),
            r@.recording.metadata == (SessionMetadataView {
                car_model: car_model@,
                track: track@,
                session_type: session_type@,
                player_name: player_name@,
                recording_start: recording_start@,
                recording_end: None,
                total_laps_recorded: 0,
            }),
            r@.recording.laps.len() == 0,
            r@.recording.statistics == empty_statistics(),
    {
        proof {
            reveal_strlit(".recordings");
            assert(".recordings"@ =~= recordings_dir_text());
        }
        let file_name = Self::compose_filename(track.as_str(), car_model.as_str(), date, time);
        let metadata = SessionMetadata {
            car_model,
            track,
            session_type,
            player_name,
            recording_start,
            recording_end: None,
            total_laps_recorded: 0,
        };
        let statistics = SessionStatistics {
            valid_laps: 0,
            pit_laps: 0,
            invalid_laps: 0,
            best_lap_ms: None,
            best_lap_formatted: None,
            average_lap_ms: None,
            average_lap_formatted: None,
        };
        let session_data = SessionRecording { metadata, laps: Vec::new(), statistics };
        let r = Self {
            recordings_dir: String::from_str(".recordings"),
            file_name,
            session_data,
            clock_failure: None,
        };
        assert(r@.recording.laps =~= Seq::empty());
        r
    }

    /// Create a new JSON exporter for a session: the recording starts now,
    /// with no laps, and is to be written under `.recordings` in a file
    /// named after the track, the car and the current date and time.
    pub fn new(car_model: String, track: String, player_name: String, session_type: String) -> (r:
        Self)
        ensures
            r@.recordings_dir == recordings_dir_text(),
            exists|date: Seq<char>, time: Seq<char>|
                {
                    &&& clock_parts(date, time)
                    &&& r@.file_name == filename_text(track@, car_model@, date, time)
                },
            !r@.file_name.contains(' '),
            !r@.file_name.contains('/'),
            r@.recording.metadata == (SessionMetadataView {
                car_model: car_model@,
                track: track@,
                session_type: session_type@,
                player_name: player_name@,
                recording_start: r@.recording.metadata.recording_start,
                recording_end: None,
                total_laps_recorded: 0,
            }),
            clock_timestamp(r@.recording.metadata.recording_start),
            !r.clock_unreadable() ==> exists|date: Seq<char>, time: Seq<char>|
                {
                    &&& is_date_text(date) && date.len() > 0 && is_time_text(time)
                    &&& r@.file_name == filename_text(track@, car_model@, date, time)
                },
            !r.clock_unreadable() ==> is_utc_timestamp_text(r@.recording.metadata.recording_start),
            r@.recording.laps.len() == 0,
            r@.recording.statistics == empty_statistics(),
    {
        let mut failure: Option<ClockUnreadable> = None;
        let (date, time) = match date_and_time_now("%Y-%m-%d", "%H%M%S") {
            Ok(parts) => parts,
            Err(e) => {
                failure = Some(e);
                (String::new(), String::new())
            },
        };
        let start = match timestamp_now() {
            Ok(t) => t,
            Err(e) => {
                failure = Some(e);
                String::new()
            },
        };
        proof {
            lemma_filename_is_plain(track@, car_model@, date@, time@);
        }
        let ghost track_text = track@;
        let ghost car_text = car_model@;
        let mut r = Self::new_at(
            car_model,
            track,
            player_name,
            session_type,
            date.as_str(),
            time.as_str(),
            start,
        );
        r.clock_failure = failure;
        assert(clock_parts(date@, time@) && r@.file_name == filename_text(
            track_text,
            car_text,
            date@,
            time@,
        ));
        r
    }

    /// The directory that the recording is written to.
    pub fn recordings_dir(&self) -> (r: &String)
        ensures
            r@ == self@.recordings_dir,
    {
        &self.recordings_dir
    }

    /// The name of the file, within `recordings_dir`, that the recording is
    /// written to.
    pub fn file_name(&self) -> (r: &String)
        ensures
            r@ == self@.file_name,
    {
        &self.file_name
    }

    /// The session recorded so far.
    pub fn session(&self) -> (r: &SessionRecording)
        ensures
            r@ == self@.recording,
    {
        &self.session_data
    }

    /// Add a completed lap to the session: the lap count and the statistics
    /// are brought up to date. (Writing the file is the caller's part.)
    pub fn write_lap(&mut self, lap: LapRecord)
        requires
            old(self)@.recording.laps.len() < i32::MAX,
            sum_times(timed_lap_times(old(self)@.recording.laps.push(lap@))) <= i32::MAX,
        ensures
            final(self)@.recording.laps == old(self)@.recording.laps.push(lap@),
            final(self)@.recording.metadata == (SessionMetadataView {
                total_laps_recorded: (old(self)@.recording.laps.len() + 1) as i32,
                ..old(self)@.recording.metadata
            }),
            final(self)@.recording.statistics == statistics_of(final(self)@.recording.laps),
            final(self)@.recordings_dir == old(self)@.recordings_dir,
            final(self)@.file_name == old(self)@.file_name,
            exporter_call(old(self)@, final(self)@, Some(lap@)),
    {
        let ghost lap_view = lap@;
        self.session_data.laps.push(lap);
        assert(lap_views(self.session_data.laps@) =~= lap_views(old(self).session_data.laps@).push(
            lap_view,
        ));
        self.session_data.metadata.total_laps_recorded = self.session_data.laps.len() as i32;
        self.update_statistics();
    }

    /// Finalize the recording session: the recording ends now.
    /// (Writing the file is the caller's part.)
    pub fn finalize(&mut self)
        ensures
            final(self)@.recording.metadata.recording_end matches Some(end) && clock_timestamp(end),
            final(self)@.recording.metadata.recording_end matches Some(end) && (
            final(self).clock_unreadable() || is_utc_timestamp_text(end)),
            final(self)@.recording.metadata == (SessionMetadataView {
                recording_end: final(self)@.recording.metadata.recording_end,
                ..old(self)@.recording.metadata
            }),
            final(self)@.recording.laps == old(self)@.recording.laps,
            final(self)@.recording.statistics == old(self)@.recording.statistics,
            final(self)@.recordings_dir == old(self)@.recordings_dir,
            final(self)@.file_name == old(self)@.file_name,
            exporter_call(old(self)@, final(self)@, None),
    {
        let (end, failure) = match timestamp_now() {
            Ok(t) => (t, None),
            Err(e) => (String::new(), Some(e)),
        };
        self.finalize_at(end);
        self.clock_failure = failure;
    }

    /// Finalize the recording session: the recording ends at `end`.
    pub fn finalize_at(&mut self, end: String)
        ensures
            final(self)@.recording.metadata == (SessionMetadataView {
                recording_end: Some(end@),
                ..old(self)@.recording.metadata
            }),
            final(self)@.recording.laps == old(self)@.recording.laps,
            final(self)@.recording.statistics == old(self)@.recording.statistics,
            final(self)@.recordings_dir == old(self)@.recordings_dir,
            final(self)@.file_name == old(self)@.file_name,
            exporter_call(old(self)@, final(self)@, None),
    {
        self.session_data.metadata.recording_end = Some(end);
    }

    /// The file name for a recording of `track` and `car` made on `date` at
    /// `time`: `{track}_{car}_{date}_{time}.json`, with spaces removed from
    /// the names and '/' turned into '_'.
    pub fn compose_filename(track: &str, car: &str, date: &str, time: &str) -> (r: String)
        ensures
            r@ == filename_text(track@, car@, date@, time@),
    {
        proof {
            reveal_strlit("_");
            reveal_strlit(".json");
            assert("_"@ =~= seq!['_']);
            assert(".json"@ =~= seq!['.', 'j', 's', 'o', 'n']);
        }
        let mut name = String::new();
        append_clean(&mut name, track);
        append_text(&mut name, "_");
        append_clean(&mut name, car);
        append_text(&mut name, "_");
        append_text(&mut name, date);
        append_text(&mut name, "_");
        append_text(&mut name, time);
        append_text(&mut name, ".json");
        assert(name@ =~= filename_text(track@, car@, date@, time@));
        name
    }

    /// Generate a filename based on track, car, and current timestamp.
    ///
    /// Format: `{track}_{car}_{date}_{time}.json`
    /// Example: `Monza_Ferrari488GT3_2026-03-01_143000.json`
    pub fn generate_filename(track: &str, car: &str) -> (r: String)
        ensures
            exists|date: Seq<char>, time: Seq<char>|
                {
                    &&& clock_parts(date, time)
                    &&& r@ == filename_text(track@, car@, date, time)
                },
            !r@.contains(' '),
            !r@.contains('/'),
    {
        let (date, time) = match date_and_time_now("%Y-%m-%d", "%H%M%S") {
            Ok(parts) => parts,
            Err(_) => (String::new(), String::new()),
        };
        proof {
            lemma_filename_is_plain(track@, car@, date@, time@);
        }
        let r = Self::compose_filename(track, car, date.as_str(), time.as_str());
        assert(clock_parts(date@, time@) && r@ == filename_text(track@, car@, date@, time@));
        r
    }

    /// Update session statistics based on current lap data.
    fn update_statistics(&mut self)
        requires
            old(self)@.recording.laps.len() <= i32::MAX,
            sum_times(timed_lap_times(old(self)@.recording.laps)) <= i32::MAX,
        ensures
            final(self)@.recording.laps == old(self)@.recording.laps,
            final(self)@.recording.metadata == old(self)@.recording.metadata,
            final(self)@.recording.statistics == statistics_of(old(self)@.recording.laps),
            final(self)@.recordings_dir == old(self)@.recordings_dir,
            final(self)@.file_name == old(self)@.file_name,
    {
        let ghost laps = self@.recording.laps;
        let n: usize = self.session_data.laps.len();
        let mut valid_laps: i32 = 0;
        let mut pit_laps: i32 = 0;
        let mut invalid_laps: i32 = 0;
        let mut best: Option<i32> = None;
        let mut sum: i32 = 0;
        let mut timed: i32 = 0;
        proof {
            lemma_prefix_sum_bounded(laps, 0);
        }
        let mut i: usize = 0;
        while i < n
            invariant
                n == laps.len(),
                laps == lap_views(self.session_data.laps@),
                n <= i32::MAX,
                sum_times(timed_lap_times(laps)) <= i32::MAX,
                i <= n,
                valid_laps == count_with_status(laps.take(i as int), LapStatus::Normal),
                pit_laps == count_with_status(laps.take(i as int), LapStatus::Pit),
                invalid_laps == count_with_status(laps.take(i as int), LapStatus::Invalid),
                timed == timed_lap_times(laps.take(i as int)).len(),
                sum == sum_times(timed_lap_times(laps.take(i as int))),
                best == best_lap_of(laps.take(i as int)),
            decreases n - i,
        {
            let ghost prefix = laps.take(i as int);
            let ghost longer = laps.take(i + 1);
            proof {
                assert(longer.drop_last() =~= prefix);
                assert(longer.last() == laps[i as int]);
                lemma_count_bounded(prefix, LapStatus::Normal);
                lemma_count_bounded(prefix, LapStatus::Pit);
                lemma_count_bounded(prefix, LapStatus::Invalid);
                lemma_timed_times_bounded(prefix);
                lemma_prefix_sum_bounded(laps, i + 1);
            }
            let lap = &self.session_data.laps[i];
            match lap.status {
                LapStatus::Normal => {
                    valid_laps = valid_laps + 1;
                    if lap.total_time_ms > 0 {
                        let t: i32 = lap.total_time_ms;
                        proof {
                            let times = timed_lap_times(prefix);
                            assert(times.push(t).drop_last() =~= times);
                        }
                        sum = sum + t;
                        timed = timed + 1;
                        best = match best {
                            Some(b) => if t < b { Some(t) } else { Some(b) },
                            None => Some(t),
                        };
                    }
                },
                LapStatus::Pit => {
                    pit_laps = pit_laps + 1;
                },
                LapStatus::Invalid => {
                    invalid_laps = invalid_laps + 1;
                },
            }
            i = i + 1;
        }
        proof {
            assert(laps.take(n as int) =~= laps);
        }
        let (average_lap_ms, average_lap_formatted) = if timed > 0 {
            let avg: i32 = sum / timed;
            (Some(avg), Some(Self::format_time(avg)))
        } else {
            (None, None)
        };
        let best_lap_formatted = match best {
            Some(b) => Some(Self::format_time(b)),
            None => None,
        };
        self.session_data.statistics = SessionStatistics {
            valid_laps,
            pit_laps,
            invalid_laps,
            best_lap_ms: best,
            best_lap_formatted,
            average_lap_ms,
            average_lap_formatted,
        };
    }

    /// Format milliseconds to "M:SS.sss" string ("2:25.230" for 145230;
    /// "0:00.000" for a time that is not positive).
    pub fn format_time(ms: i32) -> (r: String)
        ensures
            r@ == lap_time_text(ms as int),
    {
        lap_time_string(ms)
    }
}

// ---------------------------------------------------------------------------
// Laws of the statistics
// ---------------------------------------------------------------------------

/// Every lap is counted once: the valid, pit and invalid counts add up to
/// the number of laps.
pub proof fn lemma_lap_counts_partition(laps: Seq<LapRecordView>)
    ensures
        count_with_status(laps, LapStatus::Normal) + count_with_status(laps, LapStatus::Pit)
            + count_with_status(laps, LapStatus::Invalid) == laps.len(),
    decreases laps.len(),
{
    if laps.len() > 0 {
        lemma_lap_counts_partition(laps.drop_last());
    }
}

/// The smallest time is at most every time and is one of them.
proof fn lemma_min_time(times: Seq<i32>)
    requires
        times.len() > 0,
    ensures
        forall|j: int| 0 <= j < times.len() ==> min_time(times) <= times[j],
        exists|j: int| 0 <= j < times.len() && times[j] == min_time(times),
    decreases times.len(),
{
    if times.len() > 1 {
        let rest = times.drop_last();
        lemma_min_time(rest);
        assert forall|j: int| 0 <= j < times.len() implies min_time(times) <= times[j] by {
            if j < times.len() - 1 {
                assert(times[j] == rest[j]);
            }
        }
        if times.last() < min_time(rest) {
            assert(times[times.len() - 1] == min_time(times));
        } else {
            let j = choose|j: int| 0 <= j < rest.len() && rest[j] == min_time(rest);
            assert(times[j] == min_time(times));
        }
    } else {
        assert(times[0] == min_time(times));
    }
}

/// A sum of times is at least their number times the smallest of them.
proof fn lemma_sum_at_least_count_times_min(times: Seq<i32>)
    requires
        times.len() > 0,
    ensures
        sum_times(times) >= times.len() * min_time(times),
    decreases times.len(),
{
    if times.len() > 1 {
        let rest = times.drop_last();
        lemma_sum_at_least_count_times_min(rest);
        lemma_min_time(times);
        lemma_min_time(rest);
        let m: int = min_time(times) as int;
        let mr: int = min_time(rest) as int;
        let k: int = rest.len() as int;
        assert(m <= mr) by {
            let j = choose|j: int| 0 <= j < rest.len() && rest[j] == min_time(rest);
            assert(rest[j] == times[j]);
        }
        assert(k * mr >= k * m) by (nonlinear_arith)
            requires
                k >= 0,
                mr >= m,
        ;
        assert(times[times.len() - 1] >= m);
        assert((k + 1) * m == k * m + m) by (nonlinear_arith);
        assert(times.len() == k + 1);
    } else {
        assert(times.drop_last().len() == 0);
        assert(sum_times(times.drop_last()) == 0);
        assert(sum_times(times) == times[0]);
        assert(min_time(times) == times[0]);
    }
}

/// Some timed lap of `laps` has total time `t`.
pub open spec fn is_time_of_timed_lap(laps: Seq<LapRecordView>, t: i32) -> bool {
    exists|i: int| 0 <= i < laps.len() && is_timed_lap(laps[i]) && laps[i].total_time_ms == t
}

/// The timed lap times are the total times of the timed laps, one for one.
proof fn lemma_timed_times_members(laps: Seq<LapRecordView>)
    ensures
        forall|j: int|
            0 <= j < timed_lap_times(laps).len() ==> is_time_of_timed_lap(
                laps,
                #[trigger] timed_lap_times(laps)[j],
            ),
        forall|i: int|
            0 <= i < laps.len() && is_timed_lap(#[trigger] laps[i]) ==> timed_lap_times(
                laps,
            ).contains(laps[i].total_time_ms),
    decreases laps.len(),
{
    if laps.len() > 0 {
        let rest = laps.drop_last();
        lemma_timed_times_members(rest);
        let times = timed_lap_times(laps);
        let rest_times = timed_lap_times(rest);
        assert forall|j: int| 0 <= j < times.len() implies is_time_of_timed_lap(
            laps,
            #[trigger] times[j],
        ) by {
            if j < rest_times.len() {
                assert(times[j] == rest_times[j]);
                assert(is_time_of_timed_lap(rest, rest_times[j]));
                let i = choose|i: int|
                    0 <= i < rest.len() && is_timed_lap(rest[i]) && rest[i].total_time_ms
                        == rest_times[j];
                assert(laps[i] == rest[i]);
            } else {
                let i: int = laps.len() - 1;
                assert(laps[i] == laps.last());
                assert(times =~= rest_times.push(laps.last().total_time_ms));
            }
        }
        assert forall|i: int| 0 <= i < laps.len() && is_timed_lap(#[trigger] laps[i]) implies times.contains(
            laps[i].total_time_ms,
        ) by {
            if i < rest.len() {
                assert(laps[i] == rest[i]);
                assert(rest_times.contains(rest[i].total_time_ms));
                let j = choose|j: int|
                    0 <= j < rest_times.len() && rest_times[j] == rest[i].total_time_ms;
                assert(times[j] == rest_times[j]);
            } else {
                assert(times[times.len() - 1] == laps.last().total_time_ms);
            }
        }
    }
}

/// The best lap is the fastest timed lap: a session has a best lap exactly
/// when it has a normal lap with a positive time, the best time is that of
/// one such lap, and no such lap is faster.
pub proof fn lemma_best_lap_is_fastest(laps: Seq<LapRecordView>)
    ensures
        best_lap_of(laps) is Some <==> exists|i: int| 0 <= i < laps.len() && is_timed_lap(laps[i]),
        best_lap_of(laps) matches Some(best) ==> {
            &&& is_time_of_timed_lap(laps, best)
            &&& forall|i: int|
                0 <= i < laps.len() && is_timed_lap(#[trigger] laps[i]) ==> best
                    <= laps[i].total_time_ms
        },
{
    lemma_timed_times_members(laps);
    let times = timed_lap_times(laps);
    if times.len() > 0 {
        lemma_min_time(times);
        let j = choose|j: int| 0 <= j < times.len() && times[j] == min_time(times);
        assert(is_time_of_timed_lap(laps, times[j]));
        assert forall|i: int| 0 <= i < laps.len() && is_timed_lap(#[trigger] laps[i]) implies min_time(
            times,
        ) <= laps[i].total_time_ms by {
            assert(times.contains(laps[i].total_time_ms));
        }
    } else {
        assert forall|i: int| 0 <= i < laps.len() implies !is_timed_lap(#[trigger] laps[i]) by {
            if is_timed_lap(laps[i]) {
                assert(times.contains(laps[i].total_time_ms));
            }
        }
    }
}

/// The best lap is never slower than the average lap, and a session has an
/// average lap exactly when it has a best lap.
pub proof fn lemma_best_lap_at_most_average(laps: Seq<LapRecordView>)
    requires
        sum_times(timed_lap_times(laps)) <= i32::MAX,
    ensures
        best_lap_of(laps) is Some <==> average_lap_of(laps) is Some,
        best_lap_of(laps) matches Some(best) ==> best <= average_lap_of(laps)->0,
{
    let times = timed_lap_times(laps);
    if times.len() > 0 {
        lemma_sum_at_least_count_times_min(times);
        lemma_timed_times_bounded(laps);
        lemma_sum_nonnegative(times);
        let total: int = sum_times(times);
        let n: int = times.len() as int;
        let m: int = min_time(times) as int;
        assert(total / n >= m) by (nonlinear_arith)
            requires
                total >= n * m,
                n > 0,
        ;
        assert(0 <= total / n <= total) by (nonlinear_arith)
            requires
                total >= 0,
                n > 0,
        ;
    }
}

/// Pit laps and invalid laps, and normal laps without a time, do not count
/// for the best and average laps: adding one leaves both unchanged.
pub proof fn lemma_untimed_lap_keeps_best_and_average(laps: Seq<LapRecordView>, lap: LapRecordView)
    requires
        !is_timed_lap(lap),
    ensures
        best_lap_of(laps.push(lap)) == best_lap_of(laps),
        average_lap_of(laps.push(lap)) == average_lap_of(laps),
{
    assert(laps.push(lap).drop_last() =~= laps);
}

/// In a recording kept by `JsonExporter`, the valid, pit and invalid lap
/// counts add up to the number of laps recorded.
pub proof fn lemma_recording_counts_add_up(rec: SessionRecordingView)
    requires
        rec.laps.len() <= i32::MAX,
        rec.metadata.total_laps_recorded == rec.laps.len(),
        rec.statistics == statistics_of(rec.laps),
    ensures
        rec.statistics.valid_laps + rec.statistics.pit_laps + rec.statistics.invalid_laps
            == rec.metadata.total_laps_recorded,
{
    lemma_lap_counts_partition(rec.laps);
    lemma_count_bounded(rec.laps, LapStatus::Normal);
    lemma_count_bounded(rec.laps, LapStatus::Pit);
    lemma_count_bounded(rec.laps, LapStatus::Invalid);
}

// ---------------------------------------------------------------------------
// The statistics do not depend on the order of the laps
// ---------------------------------------------------------------------------

/// Removing lap `i` takes its status out of the counts.
proof fn lemma_count_remove(laps: Seq<LapRecordView>, i: int, status: LapStatus)
    requires
        0 <= i < laps.len(),
    ensures
        count_with_status(laps, status) == count_with_status(laps.remove(i), status) + if laps[i].status
            == status {
            1nat
        } else {
            0nat
        },
    decreases laps.len(),
{
    if i == laps.len() - 1 {
        assert(laps.remove(i) =~= laps.drop_last());
    } else {
        lemma_count_remove(laps.drop_last(), i, status);
        assert(laps.remove(i).drop_last() =~= laps.drop_last().remove(i));
        assert(laps.remove(i).last() == laps.last());
    }
}

/// Removing lap `i` removes its time, at some index `j`, from the timed
/// lap times if it is a timed lap, and leaves them as they are otherwise.
proof fn lemma_timed_remove(laps: Seq<LapRecordView>, i: int) -> (j: int)
    requires
        0 <= i < laps.len(),
    ensures
        is_timed_lap(laps[i]) ==> 0 <= j < timed_lap_times(laps).len() && timed_lap_times(laps)[j]
            == laps[i].total_time_ms && timed_lap_times(laps).remove(j) == timed_lap_times(
            laps.remove(i),
        ),
        !is_timed_lap(laps[i]) ==> timed_lap_times(laps) == timed_lap_times(laps.remove(i)),
    decreases laps.len(),
{
    let times = timed_lap_times(laps);
    if i == laps.len() - 1 {
        assert(laps.remove(i) =~= laps.drop_last());
        if is_timed_lap(laps[i]) {
            assert(times.remove(times.len() - 1) =~= timed_lap_times(laps.drop_last()));
        }
        times.len() - 1
    } else {
        let j = lemma_timed_remove(laps.drop_last(), i);
        assert(laps.remove(i).drop_last() =~= laps.drop_last().remove(i));
        assert(laps.remove(i).last() == laps.last());
        if is_timed_lap(laps[i]) {
            let rest = timed_lap_times(laps.drop_last());
            if is_timed_lap(laps.last()) {
                assert(rest.push(laps.last().total_time_ms).remove(j) =~= rest.remove(j).push(
                    laps.last().total_time_ms,
                ));
            }
        }
        j
    }
}

/// Removing time `j` takes it out of the sum.
proof fn lemma_sum_remove(times: Seq<i32>, j: int)
    requires
        0 <= j < times.len(),
    ensures
        sum_times(times) == sum_times(times.remove(j)) + times[j],
    decreases times.len(),
{
    if j == times.len() - 1 {
        assert(times.remove(j) =~= times.drop_last());
    } else {
        lemma_sum_remove(times.drop_last(), j);
        assert(times.remove(j).drop_last() =~= times.drop_last().remove(j));
        assert(times.remove(j).last() == times.last());
    }
}

/// The smallest of two or more times is the smaller of time `j` and the
/// smallest of the others.
proof fn lemma_min_remove(times: Seq<i32>, j: int)
    requires
        0 <= j < times.len(),
        times.len() >= 2,
    ensures
        min_time(times) == if times[j] < min_time(times.remove(j)) {
            times[j]
        } else {
            min_time(times.remove(j))
        },
    decreases times.len(),
{
    if j == times.len() - 1 {
        assert(times.remove(j) =~= times.drop_last());
    } else if times.len() == 2 {
        assert(times.remove(j).len() == 1);
        assert(times.remove(j)[0] == times[1]);
        assert(times.drop_last().len() == 1);
        assert(times.drop_last()[0] == times[0]);
        assert(min_time(times.remove(j)) == times[1]);
        assert(min_time(times.drop_last()) == times[0]);
    } else {
        let init = times.drop_last();
        lemma_min_remove(init, j);
        assert(times.remove(j).drop_last() =~= init.remove(j));
        assert(times.remove(j).last() == times.last());
        assert(times.remove(j).len() >= 2);
        assert(min_time(times.remove(j)) == if times.last() < min_time(init.remove(j)) {
            times.last()
        } else {
            min_time(init.remove(j))
        });
        assert(min_time(times) == if times.last() < min_time(init) {
            times.last()
        } else {
            min_time(init)
        });
        assert(times[j] == init[j]);
    }
}

/// Laps that are the same up to order have the same counts, and timed lap
/// times of the same number, sum and minimum.
proof fn lemma_reordered_laps_same_totals(laps: Seq<LapRecordView>, other: Seq<LapRecordView>)
    requires
        laps.to_multiset() == other.to_multiset(),
    ensures
        forall|status: LapStatus| #[trigger]
            count_with_status(laps, status) == count_with_status(other, status),
        timed_lap_times(laps).len() == timed_lap_times(other).len(),
        sum_times(timed_lap_times(laps)) == sum_times(timed_lap_times(other)),
        timed_lap_times(laps).len() > 0 ==> min_time(timed_lap_times(laps)) == min_time(
            timed_lap_times(other),
        ),
    decreases laps.len(),
{
    broadcast use vstd::seq_lib::group_to_multiset_ensures;

    if laps.len() == 0 {
        assert(other.to_multiset().len() == 0);
        assert(other.len() == 0);
    } else {
        let x = laps.last();
        let init = laps.drop_last();
        assert(laps =~= init.push(x));
        assert(laps[laps.len() - 1] == x);
        assert(laps.contains(x));
        assert(laps.to_multiset().count(x) > 0);
        assert(other.contains(x));
        let i = choose|i: int| 0 <= i < other.len() && other[i] == x;
        let rest = other.remove(i);
        assert(init.push(x).to_multiset() =~= init.to_multiset().insert(x));
        assert(rest.to_multiset() =~= other.to_multiset().remove(x));
        assert(init.to_multiset() =~= rest.to_multiset());
        lemma_reordered_laps_same_totals(init, rest);
        assert forall|status: LapStatus| #[trigger]
            count_with_status(laps, status) == count_with_status(other, status) by {
            lemma_count_remove(other, i, status);
            assert(count_with_status(init, status) == count_with_status(rest, status));
            assert(count_with_status(laps, status) == count_with_status(init, status) + if x.status
                == status {
                1nat
            } else {
                0nat
            });
        }
        let j = lemma_timed_remove(other, i);
        let before = timed_lap_times(init);
        if is_timed_lap(x) {
            let t = x.total_time_ms;
            assert(timed_lap_times(laps) == before.push(t));
            assert(before.push(t).drop_last() =~= before);
            assert(sum_times(before.push(t)) == sum_times(before) + t);
            lemma_sum_remove(timed_lap_times(other), j);
            if timed_lap_times(other).len() >= 2 {
                lemma_min_remove(timed_lap_times(other), j);
            }
        } else {
            assert(timed_lap_times(laps) == before);
        }
    }
}

/// The statistics do not depend on the order of the laps: sessions whose
/// laps are the same up to order have the same statistics.
pub proof fn lemma_statistics_order_independent(laps: Seq<LapRecordView>, other: Seq<LapRecordView>)
    requires
        laps.to_multiset() == other.to_multiset(),
    ensures
        statistics_of(laps) == statistics_of(other),
{
    lemma_reordered_laps_same_totals(laps, other);
}

// ---------------------------------------------------------------------------
// A recording over a run of calls
// ---------------------------------------------------------------------------

/// The exporter went from `before` to `after` by one call: `write_lap` of
/// the lap `lap` for `Some(lap)`, `finalize` for `None`.
pub open spec fn exporter_call(
    before: ExporterView,
    after: ExporterView,
    call: Option<LapRecordView>,
) -> bool {
    &&& after.recordings_dir == before.recordings_dir
    &&& after.file_name == before.file_name
    &&& match call {
        Some(lap) => {
            &&& after.recording.laps == before.recording.laps.push(lap)
            &&& after.recording.metadata == (SessionMetadataView {
                total_laps_recorded: (before.recording.laps.len() + 1) as i32,
                ..before.recording.metadata
            })
            &&& after.recording.statistics == statistics_of(after.recording.laps)
        },
        None => {
            &&& after.recording.laps == before.recording.laps
            &&& after.recording.metadata == (SessionMetadataView {
                recording_end: after.recording.metadata.recording_end,
                ..before.recording.metadata
            })
            &&& after.recording.statistics == before.recording.statistics
        },
    }
}

/// The laps that the calls `calls` write, in call order.
pub open spec fn written_laps(calls: Seq<Option<LapRecordView>>) -> Seq<LapRecordView>
    decreases calls.len(),
{
    if calls.len() == 0 {
        Seq::empty()
    } else {
        match calls.last() {
            Some(lap) => written_laps(calls.drop_last()).push(lap),
            None => written_laps(calls.drop_last()),
        }
    }
}

/// Whatever `write_lap` and `finalize` calls follow the creation of an
/// exporter, its recording holds the laps written, in call order, their
/// number, and their statistics, and the file it is written to never
/// changes. `views` are the exporter's states, from its creation on;
/// `calls[i]` took it from `views[i]` to `views[i + 1]`.
pub proof fn lemma_recording_after_calls(
    views: Seq<ExporterView>,
    calls: Seq<Option<LapRecordView>>,
)
    requires
        views.len() == calls.len() + 1,
        views[0].recording.laps.len() == 0,
        views[0].recording.metadata.total_laps_recorded == 0,
        views[0].recording.statistics == empty_statistics(),
        forall|i: int| 0 <= i < calls.len() ==> exporter_call(views[i], #[trigger] views[i + 1], calls[i]),
        written_laps(calls).len() <= i32::MAX,
    ensures
        views.last().recording.laps == written_laps(calls),
        views.last().recording.metadata.total_laps_recorded == written_laps(calls).len(),
        views.last().recording.statistics == statistics_of(written_laps(calls)),
        views.last().recordings_dir == views[0].recordings_dir,
        views.last().file_name == views[0].file_name,
    decreases calls.len(),
{
    if calls.len() == 0 {
        assert(views[0].recording.laps =~= Seq::<LapRecordView>::empty());
    } else {
        let n = calls.len() - 1;
        let earlier = views.drop_last();
        assert forall|i: int| 0 <= i < calls.drop_last().len() implies exporter_call(
            earlier[i],
            #[trigger] earlier[i + 1],
            calls.drop_last()[i],
        ) by {
            assert(exporter_call(views[i], views[i + 1], calls[i]));
        }
        assert(written_laps(calls.drop_last()).len() <= written_laps(calls).len());
        lemma_recording_after_calls(earlier, calls.drop_last());
        assert(exporter_call(views[n], views[n + 1], calls[n]));
        assert(earlier.last() == views[n]);
    }
}

/// The statistics of no lap are those that a new exporter starts with.
pub proof fn lemma_empty_statistics()
    ensures
        statistics_of(Seq::empty()) == empty_statistics(),
{
}

/// A sum of times is at most their number times the largest `i32`.
proof fn lemma_sum_at_most_count_times_max(times: Seq<i32>)
    ensures
        sum_times(times) <= times.len() * 2147483647,
    decreases times.len(),
{
    if times.len() > 0 {
        lemma_sum_at_most_count_times_max(times.drop_last());
    }
}

/// The average lap is the mean of the timed laps' times, rounded down: a
/// session has an average exactly when it has a timed lap, and the average
/// times their number is at most their sum, which is below the next
/// average up times their number.
pub proof fn lemma_average_lap_is_mean(laps: Seq<LapRecordView>)
    ensures
        average_lap_of(laps) is Some <==> timed_lap_times(laps).len() > 0,
        average_lap_of(laps) matches Some(average) ==> {
            let n = timed_lap_times(laps).len() as int;
            let sum = sum_times(timed_lap_times(laps));
            &&& average * n <= sum
            &&& sum < (average + 1) * n
        },
{
    let times = timed_lap_times(laps);
    let n = times.len() as int;
    if n > 0 {
        let sum = sum_times(times);
        lemma_timed_times_bounded(laps);
        lemma_sum_nonnegative(times);
        lemma_sum_at_most_count_times_max(times);
        let q = sum / n;
        assert(q * n <= sum && sum < (q + 1) * n && 0 <= q <= 2147483647) by (nonlinear_arith)
            requires
                n > 0,
                0 <= sum <= n * 2147483647,
                q == sum / n,
        ;
        assert((q as i32) as int == q);
    }
}

} // verus!
