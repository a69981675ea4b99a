//! The recording session state machine and its clock.
//!
//! A [`Recorder`] owns the state of at most one live recording: the handle of
//! the external encoder process, the instant the session started, the sum of
//! all completed pause intervals, and the instant of the pause in progress,
//! if any. It is generic over the handle type `H`, so the process itself is
//! spawned, signalled and reaped by the caller: the caller hands the spawn
//! outcome in, and receives the handle back exactly once, when the session is
//! stopped. Instants are milliseconds read from the caller's monotonic clock.

use vstd::prelude::*;

use crate::device_list::spec_quoted_name;
use crate::device_list::quoted_name;
use crate::scan::spec_has_substring;
use crate::scan::spec_lines;
use crate::scan::has_substring;
use crate::scan::split_lines;

verus! {

/// Why a controller operation was refused. No operation panics: every misuse
/// of the state machine and every environmental failure comes back as one of
/// these kinds.
#[derive(Clone, Debug, PartialEq, Eq)]
pub enum RecorderError {
    /// `start` was requested while a session is already live.
    AlreadyActive,
    /// `stop`, `pause` or `resume` was requested while idle.
    NotActive,
    /// `pause` was requested while already paused.
    AlreadyPaused,
    /// `resume` was requested while not paused.
    NotPaused,
    /// The external encoder could not be launched; carries the reason.
    SpawnFailed(String),
    /// `pause` or `resume` was requested on a platform without a
    /// process-suspend primitive.
    UnsupportedOperation,
}

impl RecorderError {
    /// The short status line shown to the user for this error kind.
    pub closed spec fn spec_message(self) -> Seq<char> {
        match self {
            RecorderError::AlreadyActive => "Already recording"@,
            RecorderError::NotActive => "Not recording"@,
            RecorderError::AlreadyPaused => "Already paused"@,
            RecorderError::NotPaused => "Not paused"@,
            RecorderError::SpawnFailed(reason) => "Failed to start ffmpeg: "@ + reason@,
            RecorderError::UnsupportedOperation => "Operation not supported on this platform"@,
        }
    }

    /// Renders the error as the short status line the caller displays.
    pub fn message(&self) -> (r: String)
        ensures
            r@ == self.spec_message(),
    {
        match self {
            RecorderError::AlreadyActive => "Already recording".to_owned(),
            RecorderError::NotActive => "Not recording".to_owned(),
            RecorderError::AlreadyPaused => "Already paused".to_owned(),
            RecorderError::NotPaused => "Not paused".to_owned(),
            RecorderError::SpawnFailed(reason) => {
                let mut s = "Failed to start ffmpeg: ".to_owned();
                s.append(reason.as_str());
                s
            },
            RecorderError::UnsupportedOperation => {
                "Operation not supported on this platform".to_owned()
            },
        }
    }
}

/// The quoted audio device names of a DirectShow listing, one per device
/// line of the audio section, skipping the indented alternative-name lines.
/// Unlike the device directory, this listing keeps the names only: the
/// encoder addresses an audio device by its name.
pub open spec fn spec_audio_device_names(lines: Seq<Seq<char>>, in_audio: bool) -> Seq<Seq<char>>
    decreases lines.len(),
{
    if lines.len() == 0 {
        seq![]
    } else {
        let line = lines[0];
        let rest = lines.drop_first();
        if spec_has_substring(line, "DirectShow video devices"@) {
            spec_audio_device_names(rest, false)
        } else if spec_has_substring(line, "DirectShow audio devices"@) {
            spec_audio_device_names(rest, true)
        } else if in_audio {
            match spec_quoted_name(line) {
                Some(name) => {
                    if !spec_has_substring(line, "Alternative name"@) {
                        seq![name] + spec_audio_device_names(rest, in_audio)
                    } else {
                        spec_audio_device_names(rest, in_audio)
                    }
                },
                None => spec_audio_device_names(rest, in_audio),
            }
        } else {
            spec_audio_device_names(rest, in_audio)
        }
    }
}

/// The audio device names of a DirectShow listing, as the encoder's
/// diagnostic stream prints it; `default` stands in when the listing names
/// none, so that the caller always has something to offer.
pub fn get_audio_devices(listing: &str) -> (r: Vec<String>)
    ensures
        ({
            let names = spec_audio_device_names(spec_lines(listing@), false);
            &&& names.len() == 0 ==> r.deep_view() == seq!["default"@]
            &&& names.len() > 0 ==> r.deep_view() == names
        }),
{
    let lines = split_lines(listing);
    let mut devices: Vec<String> = Vec::new();
    let mut in_audio: bool = false;
    let mut i: usize = 0;
    proof {
        assert(lines.deep_view().skip(0) =~= lines.deep_view());
        assert(devices.deep_view() =~= Seq::<Seq<char>>::empty());
    }
    while i < lines.len()
        invariant
            i <= lines@.len(),
            lines.deep_view() == spec_lines(listing@),
            spec_audio_device_names(spec_lines(listing@), false) == devices.deep_view()
                + spec_audio_device_names(lines.deep_view().skip(i as int), in_audio),
        decreases lines@.len() - i,
    {
        let ghost suffix = lines.deep_view().skip(i as int);
        let ghost prev = devices.deep_view();
        proof {
            assert(suffix.len() > 0);
            assert(suffix[0] == lines@[i as int]@);
            assert(suffix.drop_first() =~= lines.deep_view().skip(i as int + 1));
        }
        let line = &lines[i];
        if has_substring(line.as_str(), "DirectShow video devices") {
            in_audio = false;
        } else if has_substring(line.as_str(), "DirectShow audio devices") {
            in_audio = true;
        } else if in_audio {
            match quoted_name(line.as_str()) {
                Some(name) => {
                    if !has_substring(line.as_str(), "Alternative name") {
                        devices.push(name);
                        proof {
                            assert(devices.deep_view() =~= prev + seq![
                                devices@[devices@.len() - 1]@,
                            ]);
                        }
                    }
                },
                None => {},
            }
        }
        i = i + 1;
    }
    proof {
        assert(lines.deep_view().skip(i as int) =~= Seq::<Seq<char>>::empty());
        assert(spec_audio_device_names(lines.deep_view().skip(i as int), in_audio) =~= Seq::<
            Seq<char>,
        >::empty());
        assert(devices.deep_view() + Seq::<Seq<char>>::empty() =~= devices.deep_view());
    }
    if devices.len() == 0 {
        devices.push("default".to_owned());
        proof {
            assert(devices.deep_view() =~= seq!["default"@]);
        }
    }
    devices
}

/// The audio inputs offered where no listing tool is available: the platform
/// default, and the first hardware capture device.
pub fn default_audio_devices() -> (r: Vec<String>)
    ensures
        r.deep_view() == seq!["default"@, "hw:0,0"@],
{
    let mut devices: Vec<String> = Vec::new();
    devices.push("default".to_owned());
    devices.push("hw:0,0".to_owned());
    proof {
        assert(devices.deep_view() =~= seq!["default"@, "hw:0,0"@]);
    }
    devices
}

/// Whether one of the device names reads exactly `s`.
pub open spec fn spec_contains_name(devices: Seq<String>, s: Seq<char>) -> bool {
    exists|i: int| 0 <= i < devices.len() && devices[i]@ == s
}

/// The audio device to keep selected after the device list was refreshed: the
/// current selection while the list still offers it, the first device of the
/// new list otherwise, and the current selection again when the new list is
/// empty.
pub fn select_audio_device(devices: &Vec<String>, current: &String) -> (r: String)
    ensures
        spec_contains_name(devices@, current@) ==> r@ == current@,
        !spec_contains_name(devices@, current@) && devices@.len() > 0 ==> r@ == devices@[0]@,
        !spec_contains_name(devices@, current@) && devices@.len() == 0 ==> r@ == current@,
{
    let mut i: usize = 0;
    while i < devices.len()
        invariant
            i <= devices@.len(),
            forall|j: int| 0 <= j < i ==> devices@[j]@ != current@,
        decreases devices@.len() - i,
    {
        if devices[i] == *current {
            return current.clone();
        }
        i = i + 1;
    }
    proof {
        if spec_contains_name(devices@, current@) {
            let w = choose|w: int| 0 <= w < devices@.len() && devices@[w]@ == current@;
            assert(false);
        }
    }
    if devices.len() > 0 {
        devices[0].clone()
    } else {
        current.clone()
    }
}

/// The controller of one recording session.
///
/// `H` is the handle of the external encoder process; the library never looks
/// inside it. A `Recorder` is idle, recording, or paused; paused is a
/// sub-state of recording. All instants are milliseconds from one monotonic
/// clock, read by the caller and passed in.
pub struct Recorder<H> {
    /// Handle of the live encoder process; present iff a recording is active.
    child: Option<H>,
    /// Instant the session started; set exactly once per session, at spawn.
    start_time_ms: Option<u64>,
    /// Sum of all completed pause intervals of this session.
    paused_duration_ms: u64,
    /// Instant of the pause in progress; present iff currently paused.
    last_pause_time_ms: Option<u64>,
    /// Whether this platform can suspend and continue the encoder process.
    pause_supported: bool,
}

impl<H> Recorder<H> {
    /// Internal consistency: the start instant is present exactly when a
    /// process handle is, and only a live session can be paused.
    pub closed spec fn wf(self) -> bool {
        &&& self.child is Some <==> self.start_time_ms is Some
        &&& self.last_pause_time_ms is Some ==> self.child is Some
    }

    /// Whether a session is live (a process handle is present).
    pub closed spec fn recording(self) -> bool {
        self.child is Some
    }

    /// Whether the live session is currently paused.
    pub closed spec fn paused(self) -> bool {
        self.last_pause_time_ms is Some
    }

    /// Whether the platform can suspend and continue the encoder process.
    pub closed spec fn supports_pause(self) -> bool {
        self.pause_supported
    }

    /// The process handle held for the live session, if any.
    pub closed spec fn handle(self) -> Option<H> {
        self.child
    }

    /// The instant the live session started, if any.
    pub closed spec fn started_at(self) -> Option<u64> {
        self.start_time_ms
    }

    /// The instant the pause in progress began, if any.
    pub closed spec fn paused_at(self) -> Option<u64> {
        self.last_pause_time_ms
    }

    /// The accumulated duration of all completed pause intervals.
    pub closed spec fn paused_total_ms(self) -> u64 {
        self.paused_duration_ms
    }

    /// Elapsed recording time at instant `now_ms`: wall-clock time since the
    /// start, frozen at the pause instant while paused, net of all completed
    /// pauses, and never negative. Zero while idle.
    pub closed spec fn duration_spec(self, now_ms: u64) -> u64 {
        match self.start_time_ms {
            None => 0u64,
            Some(start) => {
                let gross = match self.last_pause_time_ms {
                    Some(pause) => pause.saturating_sub(start),
                    None => now_ms.saturating_sub(start),
                };
                gross.saturating_sub(self.paused_duration_ms)
            },
        }
    }

    /// The state after adopting the freshly spawned process `h` at `now_ms`.
    pub closed spec fn started(self, h: H, now_ms: u64) -> Recorder<H> {
        Recorder {
            child: Some(h),
            start_time_ms: Some(now_ms),
            paused_duration_ms: 0u64,
            last_pause_time_ms: None,
            pause_supported: self.pause_supported,
        }
    }

    /// The state after the session is torn down: idle, the handle and both
    /// instants cleared. The stale pause total cannot be read while idle —
    /// the elapsed time of an idle controller is zero — and the next session
    /// starts with it reset.
    pub closed spec fn stopped(self) -> Recorder<H> {
        Recorder {
            child: None,
            start_time_ms: None,
            paused_duration_ms: self.paused_duration_ms,
            last_pause_time_ms: None,
            pause_supported: self.pause_supported,
        }
    }

    /// The state after pausing at `now_ms`: only the pause instant is
    /// recorded; nothing is folded into the accumulated total yet.
    pub closed spec fn pause_step(self, now_ms: u64) -> Recorder<H> {
        Recorder { last_pause_time_ms: Some(now_ms), ..self }
    }

    /// The state after resuming at `now_ms`: the just-completed pause
    /// interval is folded into the accumulated total and the pause instant is
    /// cleared. Both operations saturate, so a clock anomaly cannot corrupt
    /// the bookkeeping.
    pub closed spec fn resume_step(self, now_ms: u64) -> Recorder<H> {
        Recorder {
            paused_duration_ms: self.paused_duration_ms.saturating_add(
                now_ms.saturating_sub(self.last_pause_time_ms->0),
            ),
            last_pause_time_ms: None,
            ..self
        }
    }

    /// A fresh, idle controller. `pause_supported` says whether this platform
    /// offers the process-suspend primitive that `pause` and `resume` need.
    pub fn new(pause_supported: bool) -> (r: Recorder<H>)
        ensures
            r.wf(),
            !r.recording(),
            !r.paused(),
            r.supports_pause() == pause_supported,
            r.paused_total_ms() == 0,
            forall|now_ms: u64| #[trigger] r.duration_spec(now_ms) == 0,
    {
        Recorder {
            child: None,
            start_time_ms: None,
            paused_duration_ms: 0u64,
            last_pause_time_ms: None,
            pause_supported,
        }
    }

    /// Begins a session from the outcome of the caller's spawn attempt.
    ///
    /// The caller renders the configuration, spawns the encoder process and
    /// hands the outcome in. If a session is already live the spawn outcome
    /// is irrelevant and the call fails with `AlreadyActive`; if the spawn
    /// failed the controller stays idle and reports `SpawnFailed`; otherwise
    /// the controller adopts the handle, starts the session clock at `now_ms`
    /// and the session is recording, not paused.
    pub fn start(&mut self, spawned: Result<H, String>, now_ms: u64) -> (r: Result<
        (),
        RecorderError,
    >)
        requires
            old(self).wf(),
        ensures
            final(self).wf(),
            final(self).supports_pause() == old(self).supports_pause(),
            r is Ok <==> !old(self).recording() && spawned is Ok,
            old(self).recording() ==> r == Err::<(), RecorderError>(RecorderError::AlreadyActive)
                && *final(self) == *old(self),
            !old(self).recording() && spawned is Err ==> r == Err::<(), RecorderError>(
                RecorderError::SpawnFailed(spawned->Err_0),
            ) && *final(self) == *old(self),
            !old(self).recording() && spawned is Ok ==> *final(self) == old(self).started(
                spawned->Ok_0,
                now_ms,
            ),
            r is Ok ==> final(self).recording() && !final(self).paused()
                && final(self).duration_spec(now_ms) == 0 && final(self).paused_total_ms() == 0,
    {
        if self.child.is_some() {
            return Err(RecorderError::AlreadyActive);
        }
        match spawned {
            Err(reason) => Err(RecorderError::SpawnFailed(reason)),
            Ok(h) => {
                self.child = Some(h);
                self.start_time_ms = Some(now_ms);
                self.paused_duration_ms = 0;
                self.last_pause_time_ms = None;
                Ok(())
            },
        }
    }

    /// Ends the session and moves the process handle out to the caller, which
    /// runs the graceful-stop protocol on it. Whatever the caller's shutdown
    /// path then does, the controller is already idle: no session state
    /// survives, and the elapsed time reads zero at every instant.
    pub fn stop(&mut self) -> (r: Result<H, RecorderError>)
        requires
            old(self).wf(),
        ensures
            final(self).wf(),
            final(self).supports_pause() == old(self).supports_pause(),
            r is Ok <==> old(self).recording(),
            !old(self).recording() ==> r == Err::<H, RecorderError>(RecorderError::NotActive)
                && *final(self) == *old(self),
            old(self).recording() ==> old(self).handle() == Some(r->Ok_0)
                && *final(self) == old(self).stopped(),
            !final(self).recording(),
            !final(self).paused(),
            forall|now_ms: u64| #[trigger] final(self).duration_spec(now_ms) == 0,
    {
        match self.child.take() {
            None => Err(RecorderError::NotActive),
            Some(h) => {
                self.start_time_ms = None;
                self.last_pause_time_ms = None;
                Ok(h)
            },
        }
    }

    /// Suspends the session clock at `now_ms`.
    ///
    /// On a platform without the process-suspend primitive this always fails
    /// with `UnsupportedOperation`; on others it fails with `NotActive` while
    /// idle and `AlreadyPaused` while paused. On success the caller suspends
    /// the encoder process; the elapsed time is frozen at its value at
    /// `now_ms` until the session resumes.
    pub fn pause(&mut self, now_ms: u64) -> (r: Result<(), RecorderError>)
        requires
            old(self).wf(),
        ensures
            final(self).wf(),
            r is Ok <==> old(self).supports_pause() && old(self).recording()
                && !old(self).paused(),
            !old(self).supports_pause() ==> r == Err::<(), RecorderError>(
                RecorderError::UnsupportedOperation,
            ),
            old(self).supports_pause() && !old(self).recording() ==> r == Err::<(),
                RecorderError,
            >(RecorderError::NotActive),
            old(self).supports_pause() && old(self).recording() && old(self).paused() ==> r
                == Err::<(), RecorderError>(RecorderError::AlreadyPaused),
            r is Err ==> *final(self) == *old(self),
            r is Ok ==> *final(self) == old(self).pause_step(now_ms),
            r is Ok ==> final(self).paused() && final(self).recording() && final(self).paused_at()
                == Some(now_ms),
            r is Ok ==> forall|t: u64| #[trigger] final(self).duration_spec(t) == old(
                self,
            ).duration_spec(now_ms),
    {
        if !self.pause_supported {
            return Err(RecorderError::UnsupportedOperation);
        }
        if self.child.is_some() {
            if self.last_pause_time_ms.is_some() {
                Err(RecorderError::AlreadyPaused)
            } else {
                self.last_pause_time_ms = Some(now_ms);
                Ok(())
            }
        } else {
            Err(RecorderError::NotActive)
        }
    }

    /// Resumes the session at `now_ms`.
    ///
    /// Fails with `UnsupportedOperation`, `NotActive` or `NotPaused` exactly
    /// as `pause` fails in the corresponding wrong states. On success the
    /// caller continues the encoder process; the just-completed pause
    /// interval is folded into the accumulated paused duration, so the
    /// elapsed time continues from the value it was frozen at.
    pub fn resume(&mut self, now_ms: u64) -> (r: Result<(), RecorderError>)
        requires
            old(self).wf(),
        ensures
            final(self).wf(),
            r is Ok <==> old(self).supports_pause() && old(self).recording()
                && old(self).paused(),
            !old(self).supports_pause() ==> r == Err::<(), RecorderError>(
                RecorderError::UnsupportedOperation,
            ),
            old(self).supports_pause() && !old(self).recording() ==> r == Err::<(),
                RecorderError,
            >(RecorderError::NotActive),
            old(self).supports_pause() && old(self).recording() && !old(self).paused() ==> r
                == Err::<(), RecorderError>(RecorderError::NotPaused),
            r is Err ==> *final(self) == *old(self),
            r is Ok ==> *final(self) == old(self).resume_step(now_ms),
            r is Ok ==> !final(self).paused() && final(self).recording(),
            r is Ok && old(self).paused_at()->0 <= now_ms && old(self).paused_total_ms() + (now_ms
                - old(self).paused_at()->0) <= u64::MAX ==> final(self).duration_spec(now_ms)
                == old(self).duration_spec(now_ms),
    {
        if !self.pause_supported {
            return Err(RecorderError::UnsupportedOperation);
        }
        if self.child.is_some() {
            match self.last_pause_time_ms {
                Some(pause_time) => {
                    self.paused_duration_ms = self.paused_duration_ms.saturating_add(
                        now_ms.saturating_sub(pause_time),
                    );
                    self.last_pause_time_ms = None;
                    Ok(())
                },
                None => Err(RecorderError::NotPaused),
            }
        } else {
            Err(RecorderError::NotActive)
        }
    }

    /// Whether a session is live. Never fails; paused sessions count as
    /// recording.
    pub fn is_recording(&self) -> (r: bool)
        ensures
            r == self.recording(),
    {
        self.child.is_some()
    }

    /// Whether the live session is currently paused. Never fails.
    pub fn is_paused(&self) -> (r: bool)
        ensures
            r == self.paused(),
    {
        self.last_pause_time_ms.is_some()
    }

    /// The elapsed recording time in milliseconds at instant `now_ms`: time
    /// since the start, frozen while paused, net of completed pauses, floored
    /// at zero, and zero while idle.
    pub fn get_duration(&self, now_ms: u64) -> (r: u64)
        ensures
            r == self.duration_spec(now_ms),
    {
        match self.start_time_ms {
            None => 0,
            Some(start) => {
                let gross: u64 = match self.last_pause_time_ms {
                    Some(pause) => pause.saturating_sub(start),
                    None => now_ms.saturating_sub(start),
                };
                gross.saturating_sub(self.paused_duration_ms)
            },
        }
    }
}

/// The state after running a sequence of pause/resume cycles, each given as
/// the pair (pause instant, resume instant).
pub open spec fn after_cycles<H>(r: Recorder<H>, cycles: Seq<(u64, u64)>) -> Recorder<H>
    decreases cycles.len(),
{
    if cycles.len() == 0 {
        r
    } else {
        after_cycles(r.pause_step(cycles[0].0).resume_step(cycles[0].1), cycles.drop_first())
    }
}

/// The sum of the individual durations of a sequence of pause/resume cycles.
pub open spec fn cycles_total(cycles: Seq<(u64, u64)>) -> int
    decreases cycles.len(),
{
    if cycles.len() == 0 {
        0
    } else {
        (cycles[0].1 - cycles[0].0) + cycles_total(cycles.drop_first())
    }
}

/// The cycles come from one monotonic clock read no earlier than `lo`: each
/// pause happens at or after the previous resume, and each resume at or after
/// its pause.
pub open spec fn cycles_ordered(cycles: Seq<(u64, u64)>, lo: u64) -> bool
    decreases cycles.len(),
{
    if cycles.len() == 0 {
        true
    } else {
        lo <= cycles[0].0 && cycles[0].0 <= cycles[0].1 && cycles_ordered(
            cycles.drop_first(),
            cycles[0].1,
        )
    }
}

/// Cycles read from a monotonic clock never sum to a negative total.
pub proof fn lemma_cycles_total_nonneg(cycles: Seq<(u64, u64)>, lo: u64)
    requires
        cycles_ordered(cycles, lo),
    ensures
        cycles_total(cycles) >= 0,
    decreases cycles.len(),
{
    if cycles.len() > 0 {
        lemma_cycles_total_nonneg(cycles.drop_first(), cycles[0].1);
    }
}

/// Law: one pause/resume cycle freezes the elapsed time, and afterwards it
/// grows again in real time from the frozen value.
///
/// For a recorder that is recording and not paused, whose clock readings are
/// monotone (the accumulated pauses never exceed the time since the start),
/// pausing at `t_pause` freezes the elapsed time at its value at `t_pause`,
/// whatever instant it is read at; resuming at `t_resume` keeps exactly that
/// value; and at any later instant `t` the elapsed time has grown by exactly
/// `t - t_resume`: the cycle changes it by the wall-clock time between the
/// two calls and not more.
pub proof fn lemma_pause_resume_freezes_elapsed<H>(
    r: Recorder<H>,
    t_pause: u64,
    t_resume: u64,
)
    requires
        r.wf(),
        r.recording(),
        !r.paused(),
        r.started_at() matches Some(start) && start + r.paused_total_ms() <= t_pause,
        t_pause <= t_resume,
        r.paused_total_ms() + (t_resume - t_pause) <= u64::MAX,
    ensures
        ({
            let frozen = r.duration_spec(t_pause);
            let p = r.pause_step(t_pause);
            let q = p.resume_step(t_resume);
            &&& forall|t: u64| #[trigger] p.duration_spec(t) == frozen
            &&& q.duration_spec(t_resume) == frozen
            &&& forall|t: u64|
                t_resume <= t ==> #[trigger] q.duration_spec(t) == frozen + (t - t_resume)
        }),
{
}

/// Law: repeated pause/resume cycles accumulate paused time additively.
///
/// Running any sequence of well-ordered pause/resume cycles on a recorder
/// that is recording and not paused leaves it recording and not paused, with
/// its start instant untouched and its accumulated paused duration grown by
/// exactly the sum of the individual cycle durations.
pub proof fn lemma_cycles_accumulate_additively<H>(
    r: Recorder<H>,
    cycles: Seq<(u64, u64)>,
    lo: u64,
)
    requires
        r.wf(),
        r.recording(),
        !r.paused(),
        cycles_ordered(cycles, lo),
        r.paused_total_ms() + cycles_total(cycles) <= u64::MAX,
    ensures
        ({
            let s = after_cycles(r, cycles);
            &&& s.wf()
            &&& s.recording()
            &&& !s.paused()
            &&& s.started_at() == r.started_at()
            &&& s.supports_pause() == r.supports_pause()
            &&& s.paused_total_ms() == r.paused_total_ms() + cycles_total(cycles)
        }),
    decreases cycles.len(),
{
    if cycles.len() > 0 {
        let r1 = r.pause_step(cycles[0].0).resume_step(cycles[0].1);
        lemma_cycles_total_nonneg(cycles.drop_first(), cycles[0].1);
        lemma_cycles_accumulate_additively(r1, cycles.drop_first(), cycles[0].1);
    }
}

} // verus!

