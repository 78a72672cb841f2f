//! The media player's position clock and the media recorder's state: the
//! decisions of `IMediaPlayer` and `IMediaRecorder`, with the processes
//! they drive left to the host.
use vstd::prelude::*;
use crate::text::{chars_of, is, parse_u32, parse_u32_spec, split_at_first, split_once};

verus! {

// ---------------------------------------------------------------------------
// Playback
// ---------------------------------------------------------------------------

/// Where playback stands. `started_at` is the monotonic time (ms) the
/// current run started at, while one runs.
pub struct PlaybackClock {
    pub playing: bool,
    pub started_at: Option<u64>,
    pub paused_position_ms: i32,
    pub duration_ms: i32,
    pub looping: bool,
}

/// Milliseconds since `started_at`, cut to 32 bits as the player keeps
/// them.
pub open spec fn elapsed_spec(started_at: u64, now: u64) -> i32 {
    (now - started_at) as i32
}

/// The position a clock reports at `now`: the paused position plus the
/// time run since, while playing; never past the end.
pub open spec fn position_spec(c: PlaybackClock, now: u64) -> int {
    let run = if c.playing {
        match c.started_at {
            Some(s) => elapsed_spec(s, now) as int,
            None => 0,
        }
    } else {
        0
    };
    let p = c.paused_position_ms + run;
    if p < c.duration_ms { p } else { c.duration_ms as int }
}

/// The clock can be read at `now` without leaving 32 bits.
pub open spec fn readable(c: PlaybackClock, now: u64) -> bool {
    match c.started_at {
        Some(s) => s <= now && i32::MIN <= c.paused_position_ms + elapsed_spec(s, now) <= i32::MAX,
        None => true,
    }
}

impl PlaybackClock {
    /// A new player: stopped at 0, thirty seconds long until a source says
    /// otherwise, not looping.
    pub fn new() -> (c: PlaybackClock)
        ensures
            !c.playing && c.started_at is None && c.paused_position_ms == 0 && c.duration_ms == 30000 && !c.looping,
    {
        PlaybackClock { playing: false, started_at: None, paused_position_ms: 0, duration_ms: 30000, looping: false }
    }

    /// `GET_CURRENT_POSITION` at monotonic time `now`.
    pub fn position(&self, now: u64) -> (p: i32)
        requires
            readable(*self, now),
        ensures
            p == position_spec(*self, now),
            p <= self.duration_ms,
    {
        let run: i32 = if self.playing {
            match self.started_at {
                Some(s) => #[verifier::truncate] ((now - s) as i32),
                None => 0,
            }
        } else {
            0
        };
        let p = self.paused_position_ms + run;
        if p < self.duration_ms {
            p
        } else {
            self.duration_ms
        }
    }

    /// Where `START` plays from: the paused position, or the beginning when
    /// that is within 100 ms of the end.
    pub fn start_position(&self) -> (p: i32)
        requires
            self.duration_ms >= i32::MIN + 100,
        ensures
            p == if self.paused_position_ms >= self.duration_ms - 100 { 0 } else { self.paused_position_ms },
    {
        if self.paused_position_ms >= self.duration_ms - 100 {
            0
        } else {
            self.paused_position_ms
        }
    }

    /// A run starts (or resumes) at `now` from position `pos`.
    pub fn begin(&mut self, now: u64, pos: i32)
        ensures
            final(self).playing && final(self).started_at == Some(now) && final(self).paused_position_ms == pos,
            final(self).duration_ms == old(self).duration_ms && final(self).looping == old(self).looping,
    {
        self.started_at = Some(now);
        self.paused_position_ms = pos;
        self.playing = true;
    }

    /// `PAUSE` at `now`: the time run is added to the paused position.
    pub fn pause(&mut self, now: u64)
        requires
            readable(*old(self), now),
        ensures
            !final(self).playing && final(self).started_at is None,
            final(self).paused_position_ms == old(self).paused_position_ms + match old(self).started_at {
                Some(s) => elapsed_spec(s, now) as int,
                None => 0,
            },
            final(self).duration_ms == old(self).duration_ms && final(self).looping == old(self).looping,
    {
        if let Some(s) = self.started_at {
            let run: i32 = #[verifier::truncate] ((now - s) as i32);
            self.paused_position_ms = self.paused_position_ms + run;
        }
        self.started_at = None;
        self.playing = false;
    }

    /// `SEEK_TO` at `now`: the position becomes `msec`; a playing player
    /// keeps running from there. Returns whether it is playing.
    pub fn seek(&mut self, now: u64, msec: i32) -> (playing: bool)
        ensures
            playing == old(self).playing,
            final(self).playing == old(self).playing,
            final(self).paused_position_ms == msec,
            final(self).started_at == if old(self).playing { Some(now) } else { None::<u64> },
            final(self).duration_ms == old(self).duration_ms && final(self).looping == old(self).looping,
    {
        self.paused_position_ms = msec;
        self.started_at = if self.playing { Some(now) } else { None };
        self.playing
    }

    /// `STOP`, `RESET`, `DISCONNECT`: back to the beginning, not playing.
    pub fn stop(&mut self)
        ensures
            !final(self).playing && final(self).started_at is None && final(self).paused_position_ms == 0,
            final(self).duration_ms == old(self).duration_ms && final(self).looping == old(self).looping,
    {
        self.started_at = None;
        self.paused_position_ms = 0;
        self.playing = false;
    }

    /// A run ended; unless it was stopped it played to the end.
    pub fn finished(&mut self, stopped: bool)
        ensures
            !final(self).playing,
            stopped ==> final(self).started_at == old(self).started_at && final(self).paused_position_ms == old(self).paused_position_ms,
            !stopped ==> final(self).started_at is None && final(self).paused_position_ms == old(self).duration_ms,
            final(self).duration_ms == old(self).duration_ms && final(self).looping == old(self).looping,
    {
        self.playing = false;
        if !stopped {
            self.started_at = None;
            self.paused_position_ms = self.duration_ms;
        }
    }

    /// A new data source of `duration_ms` milliseconds: back to its start.
    pub fn set_source(&mut self, duration_ms: i32)
        ensures
            final(self).duration_ms == duration_ms && final(self).paused_position_ms == 0 && final(self).started_at is None,
            final(self).playing == old(self).playing && final(self).looping == old(self).looping,
    {
        self.duration_ms = duration_ms;
        self.paused_position_ms = 0;
        self.started_at = None;
    }

    /// `SET_LOOPING`.
    pub fn set_looping(&mut self, value: i32)
        ensures
            final(self).looping == (value != 0),
            final(self).playing == old(self).playing && final(self).started_at == old(self).started_at,
            final(self).paused_position_ms == old(self).paused_position_ms && final(self).duration_ms == old(self).duration_ms,
    {
        self.looping = value != 0;
    }
}

/// How much of a data source descriptor `SET_DATA_SOURCE_FD` reads: the
/// `length` it names when that is positive and under 50 MB, else all of it
/// (`None`).
pub fn source_read_len(length: i64) -> (r: Option<u64>)
    ensures
        r == if 0 < length < 50_000_000 { Some(length as u64) } else { None::<u64> },
{
    if length > 0 && length < 50_000_000 {
        Some(length as u64)
    } else {
        None
    }
}

/// Whether the player starts the file over when its process exits: only
/// when looping and not asked to stop.
pub fn replay_after_exit(looping: bool, stop_requested: bool) -> (r: bool)
    ensures
        r == (looping && !stop_requested),
{
    looping && !stop_requested
}

/// A seek while paused is reported back exactly, up to the end.
pub proof fn law_paused_seek_reports_target(c: PlaybackClock, now: u64, msec: i32)
    requires
        !c.playing,
    ensures
        position_spec(PlaybackClock { paused_position_ms: msec, started_at: None, ..c }, now)
            == if msec < c.duration_ms { msec as int } else { c.duration_ms as int },
{
}

// ---------------------------------------------------------------------------
// Recording
// ---------------------------------------------------------------------------

/// `OK`, `BAD_VALUE`, `INVALID_OPERATION`.
pub const STATUS_OK: i32 = 0;
pub const STATUS_BAD_VALUE: i32 = -22;
pub const STATUS_INVALID_OPERATION: i32 = -38;

/// The recorder's settings and where it stands.
pub struct RecorderState {
    pub has_output: bool,
    pub format: i32,
    pub encoder: i32,
    pub prepared: bool,
    pub capturing: bool,
    pub rate: u32,
    pub channels: u32,
    pub bitrate: u32,
}

impl Default for RecorderState {
    /// No output yet, nothing chosen, 48 kHz mono at 128 kbit/s.
    fn default() -> (s: RecorderState)
        ensures
            !s.has_output && s.format == 0 && s.encoder == 0 && !s.prepared && !s.capturing,
            s.rate == 48000 && s.channels == 1 && s.bitrate == 128000,
    {
        RecorderState {
            has_output: false,
            format: 0,
            encoder: 0,
            prepared: false,
            capturing: false,
            rate: 48000,
            channels: 1,
            bitrate: 128000,
        }
    }
}

/// What a capture runs with: sample rate, channel count, bit rate, and
/// whether the AAC goes out as ADTS (else as fragmented MP4).
#[derive(PartialEq, Eq, Debug, Clone, Copy, Structural)]
pub struct CapturePlan {
    pub rate: u32,
    pub channels: u32,
    pub bitrate: u32,
    pub adts: bool,
}

/// Why a capture cannot start.
#[derive(PartialEq, Eq, Debug, Clone, Copy, Structural)]
pub enum RecorderError {
    NotPrepared,
    NoOutput,
}

/// The settings a `parameters` call can change.
pub enum RecorderParam {
    Rate,
    Channels,
    Bitrate,
}

/// A `key=value` parameter the recorder takes: sampling rate 8000 to
/// 192000, one or two channels, bit rate 8000 to 512000.
pub open spec fn parameter_spec(param: Seq<char>) -> Option<(RecorderParam, u32)> {
    match split_once(param, '=') {
        Some((key, value)) => match parse_u32_spec(value) {
            Some(v) => if key == "audio-param-sampling-rate"@ && 8000 <= v <= 192000 {
                Some((RecorderParam::Rate, v))
            } else if key == "audio-param-number-of-channels"@ && 1 <= v <= 2 {
                Some((RecorderParam::Channels, v))
            } else if key == "audio-param-encoding-bitrate"@ && 8000 <= v <= 512000 {
                Some((RecorderParam::Bitrate, v))
            } else {
                None
            },
            None => None,
        },
        None => None,
    }
}

pub open spec fn valid_source(n: i32) -> bool {
    n == 0 || n == 1 || n == 5 || n == 6 || n == 7 || n == 9
}

impl RecorderState {
    /// `parameters`: sets the sampling rate, channel count or bit rate
    /// within its bounds; any other key or value is refused and changes
    /// nothing.
    pub fn parameter(&mut self, param: &str) -> (ok: bool)
        ensures
            ok == parameter_spec(param@) is Some,
            match parameter_spec(param@) {
                Some((RecorderParam::Rate, v)) => *final(self) == (RecorderState { rate: v, ..*old(self) }),
                Some((RecorderParam::Channels, v)) => *final(self) == (RecorderState { channels: v, ..*old(self) }),
                Some((RecorderParam::Bitrate, v)) => *final(self) == (RecorderState { bitrate: v, ..*old(self) }),
                None => *final(self) == *old(self),
            },
    {
        let p = chars_of(param);
        let (key, value) = match split_at_first(p.as_slice(), '=') {
            Some(kv) => kv,
            None => return false,
        };
        let v = match parse_u32(value.as_slice()) {
            Some(v) => v,
            None => return false,
        };
        if is(key.as_slice(), "audio-param-sampling-rate") && 8000 <= v && v <= 192000 {
            self.rate = v;
        } else if is(key.as_slice(), "audio-param-number-of-channels") && 1 <= v && v <= 2 {
            self.channels = v;
        } else if is(key.as_slice(), "audio-param-encoding-bitrate") && 8000 <= v && v <= 512000 {
            self.bitrate = v;
        } else {
            return false;
        }
        true
    }

    /// `audioSource`: the sources the host can capture for.
    pub fn audio_source(&self, n: i32) -> (status: i32)
        ensures
            status == if valid_source(n) { STATUS_OK } else { STATUS_BAD_VALUE },
    {
        if n == 0 || n == 1 || n == 5 || n == 6 || n == 7 || n == 9 {
            STATUS_OK
        } else {
            STATUS_BAD_VALUE
        }
    }

    /// `format`: MPEG-4 (2) or AAC ADTS (6).
    pub fn set_format(&mut self, n: i32) -> (status: i32)
        ensures
            (n == 2 || n == 6) ==> status == STATUS_OK && *final(self) == (RecorderState { format: n, ..*old(self) }),
            !(n == 2 || n == 6) ==> status == STATUS_BAD_VALUE && *final(self) == *old(self),
    {
        if n == 2 || n == 6 {
            self.format = n;
            STATUS_OK
        } else {
            STATUS_BAD_VALUE
        }
    }

    /// `encoder`: AAC (3) only.
    pub fn set_encoder(&mut self, n: i32) -> (status: i32)
        ensures
            n == 3 ==> status == STATUS_OK && *final(self) == (RecorderState { encoder: 3, ..*old(self) }),
            n != 3 ==> status == STATUS_BAD_VALUE && *final(self) == *old(self),
    {
        if n == 3 {
            self.encoder = n;
            STATUS_OK
        } else {
            STATUS_BAD_VALUE
        }
    }

    /// `output`: the app handed over the file to write.
    pub fn set_output(&mut self) -> (status: i32)
        ensures
            status == STATUS_OK && *final(self) == (RecorderState { has_output: true, ..*old(self) }),
    {
        self.has_output = true;
        STATUS_OK
    }

    /// `prepare`: ready once there is an output, the AAC encoder and a
    /// container.
    pub fn prepare(&mut self) -> (status: i32)
        ensures
            ({
                let ready = old(self).has_output && old(self).encoder == 3 && (old(self).format == 2 || old(self).format == 6);
                &&& ready ==> status == STATUS_OK && *final(self) == (RecorderState { prepared: true, ..*old(self) })
                &&& !ready ==> status == STATUS_BAD_VALUE && *final(self) == *old(self)
            }),
    {
        if self.has_output && self.encoder == 3 && (self.format == 2 || self.format == 6) {
            self.prepared = true;
            STATUS_OK
        } else {
            STATUS_BAD_VALUE
        }
    }

    /// `start`: what the capture runs with, when the recorder is prepared,
    /// not capturing, and has an output.
    pub fn start(&self) -> (r: Result<CapturePlan, RecorderError>)
        ensures
            !(self.prepared && !self.capturing) ==> r == Err::<CapturePlan, RecorderError>(RecorderError::NotPrepared),
            (self.prepared && !self.capturing && !self.has_output) ==> r == Err::<CapturePlan, RecorderError>(RecorderError::NoOutput),
            (self.prepared && !self.capturing && self.has_output) ==> r == Ok::<CapturePlan, RecorderError>(CapturePlan {
                rate: self.rate,
                channels: self.channels,
                bitrate: self.bitrate,
                adts: self.format == 6,
            }),
    {
        if !(self.prepared && !self.capturing) {
            return Err(RecorderError::NotPrepared);
        }
        if !self.has_output {
            return Err(RecorderError::NoOutput);
        }
        Ok(CapturePlan { rate: self.rate, channels: self.channels, bitrate: self.bitrate, adts: self.format == 6 })
    }

    /// The capture processes were started.
    pub fn started(&mut self)
        ensures
            *final(self) == (RecorderState { capturing: true, ..*old(self) }),
    {
        self.capturing = true;
    }

    /// `stop`: the capture ends and the recorder must be prepared again;
    /// OK only when a capture ran and its encoder finished cleanly.
    pub fn stop(&mut self, encoder_ok: bool) -> (status: i32)
        ensures
            status == if old(self).capturing && encoder_ok { STATUS_OK } else { STATUS_INVALID_OPERATION },
            *final(self) == (RecorderState { capturing: false, prepared: false, ..*old(self) }),
    {
        let active = self.capturing;
        self.capturing = false;
        self.prepared = false;
        if active && encoder_ok {
            STATUS_OK
        } else {
            STATUS_INVALID_OPERATION
        }
    }

    /// `release`, `close`, `reset`: the capture ends and the output goes.
    pub fn release(&mut self) -> (status: i32)
        ensures
            status == STATUS_OK,
            *final(self) == (RecorderState { capturing: false, prepared: false, has_output: false, ..*old(self) }),
    {
        self.stop(false);
        self.has_output = false;
        STATUS_OK
    }
}

/// What an `IMediaRecorder` transaction does, by name: a status it answers
/// whatever the state, or the recorder operation that gives its status.
#[derive(PartialEq, Eq, Debug, Clone, Copy, Structural)]
pub enum RecorderCall {
    /// Answered with this status and nothing else.
    Fixed(i32),
    AudioSource,
    Format,
    Encoder,
    Output,
    Parameters,
    Prepare,
    Start,
    Stop,
    /// `release`, `close`, `reset`.
    Release,
    /// A zero amplitude, then `INVALID_OPERATION`.
    Amplitude,
    /// Privacy sensitive (1), then OK.
    GetPrivacy,
    /// No routed devices (0), then OK.
    RoutedDevices,
}

pub open spec fn recorder_call_spec(name: Seq<char>) -> RecorderCall {
    if name == "init"@ || name == "listener"@ || name == "clientName"@ || name == "audioCallback"@ || name == "privacy"@ {
        RecorderCall::Fixed(STATUS_OK)
    } else if name == "audioSource"@ {
        RecorderCall::AudioSource
    } else if name == "format"@ {
        RecorderCall::Format
    } else if name == "encoder"@ {
        RecorderCall::Encoder
    } else if name == "output"@ {
        RecorderCall::Output
    } else if name == "parameters"@ {
        RecorderCall::Parameters
    } else if name == "prepare"@ {
        RecorderCall::Prepare
    } else if name == "start"@ {
        RecorderCall::Start
    } else if name == "stop"@ {
        RecorderCall::Stop
    } else if name == "release"@ || name == "close"@ || name == "reset"@ {
        RecorderCall::Release
    } else if name == "amplitude"@ {
        RecorderCall::Amplitude
    } else if name == "getPrivacy"@ {
        RecorderCall::GetPrivacy
    } else if name == "routedDevices"@ {
        RecorderCall::RoutedDevices
    } else {
        RecorderCall::Fixed(STATUS_INVALID_OPERATION)
    }
}

/// How `IMediaRecorder` handles the transaction `name`: the setup calls
/// that only acknowledge answer OK, unknown ones `INVALID_OPERATION`.
pub fn recorder_call(name: &str) -> (c: RecorderCall)
    ensures
        c == recorder_call_spec(name@),
{
    let n = chars_of(name);
    let n = n.as_slice();
    if is(n, "init") || is(n, "listener") || is(n, "clientName") || is(n, "audioCallback") || is(n, "privacy") {
        RecorderCall::Fixed(STATUS_OK)
    } else if is(n, "audioSource") {
        RecorderCall::AudioSource
    } else if is(n, "format") {
        RecorderCall::Format
    } else if is(n, "encoder") {
        RecorderCall::Encoder
    } else if is(n, "output") {
        RecorderCall::Output
    } else if is(n, "parameters") {
        RecorderCall::Parameters
    } else if is(n, "prepare") {
        RecorderCall::Prepare
    } else if is(n, "start") {
        RecorderCall::Start
    } else if is(n, "stop") {
        RecorderCall::Stop
    } else if is(n, "release") || is(n, "close") || is(n, "reset") {
        RecorderCall::Release
    } else if is(n, "amplitude") {
        RecorderCall::Amplitude
    } else if is(n, "getPrivacy") {
        RecorderCall::GetPrivacy
    } else if is(n, "routedDevices") {
        RecorderCall::RoutedDevices
    } else {
        RecorderCall::Fixed(STATUS_INVALID_OPERATION)
    }
}

/// A capture can start: prepared, not capturing, with an output.
pub open spec fn can_start(s: RecorderState) -> bool {
    s.prepared && !s.capturing && s.has_output
}

impl RecorderState {
    /// The status `start` answers: OK when the recorder could start and
    /// the capture processes were `spawned`; `INVALID_OPERATION` when
    /// `start` refused or the processes did not start.
    pub fn start_status(&self, spawned: bool) -> (status: i32)
        ensures
            status == if can_start(*self) && spawned { STATUS_OK } else { STATUS_INVALID_OPERATION },
    {
        match self.start() {
            Ok(_) => if spawned { STATUS_OK } else { STATUS_INVALID_OPERATION },
            Err(_) => STATUS_INVALID_OPERATION,
        }
    }
}

/// After `stop` a recorder cannot start again until it is prepared again.
pub proof fn law_stop_needs_prepare(s: RecorderState)
    ensures
        !(RecorderState { capturing: false, prepared: false, ..s }).prepared,
{
}

} // verus!
