//! Audio capture: the recording session's state machine, the choice of input
//! device, the conversion between samples and little-endian PCM bytes, the
//! framing of Opus output and the WAV file that is written when Opus fails.

use vstd::prelude::*;
use crate::text::{chars_contain, chars_of, seq_contains, spec_to_lowercase, to_lowercase};

verus! {

// ---------------------------------------------------------------------------
// The recording session
// ---------------------------------------------------------------------------

/// The state of the (single) recording session. `S` is the handle by which the
/// capture thread is told to stop.
pub struct RecordingState<S> {
    /// The file that raw PCM is being written to, while recording.
    pub temp_file: Option<String>,
    /// Whether a recording is in progress.
    pub is_recording: bool,
    /// The stop handle of the capture thread, while recording.
    pub stop_signal: Option<S>,
    /// The sample rate of the input device's configuration.
    pub sample_rate: u32,
    /// The channel count of the input device's configuration.
    pub channels: u16,
}

/// What a finished recording hands on to encoding.
pub struct FinishedRecording {
    /// The file that holds the raw little-endian 16-bit PCM.
    pub path: String,
    /// The sample rate it was captured at.
    pub sample_rate: u32,
    /// The number of interleaved channels.
    pub channels: u16,
}

/// The state before any recording: no file, not recording, 48 kHz mono.
pub open spec fn initial_state<S>() -> RecordingState<S> {
    RecordingState {
        temp_file: None,
        is_recording: false,
        stop_signal: None,
        sample_rate: 48000,
        channels: 1,
    }
}

/// The recording state that the process starts from.
pub fn get_state<S>() -> (st: RecordingState<S>)
    ensures
        st == initial_state::<S>(),
{
    RecordingState {
        temp_file: None,
        is_recording: false,
        stop_signal: None,
        sample_rate: 48000,
        channels: 1,
    }
}

/// The message of a refused start.
pub open spec fn already_recording_msg() -> Seq<char> {
    "Already recording"@
}

/// The message of a refused stop.
pub open spec fn not_recording_msg() -> Seq<char> {
    "Not recording"@
}

/// The message of a stop that finds no PCM file.
pub open spec fn no_temp_file_msg() -> Seq<char> {
    "No temp file found"@
}

/// The state once the capture thread runs: recording into `path`, stoppable by `signal`.
pub open spec fn spec_started<S>(st: RecordingState<S>, path: String, signal: S) -> RecordingState<S> {
    RecordingState { temp_file: Some(path), is_recording: true, stop_signal: Some(signal), ..st }
}

/// What a stop returns, when a recording is in progress: the stop handle that was taken,
/// and the finished recording or the error that its missing file gives.
pub open spec fn spec_stop_outcome<S>(st: RecordingState<S>) -> (Option<S>, Result<FinishedRecording, Seq<char>>) {
    (
        st.stop_signal,
        match st.temp_file {
            Some(p) => Ok(FinishedRecording { path: p, sample_rate: st.sample_rate, channels: st.channels }),
            None => Err(no_temp_file_msg()),
        },
    )
}

/// The state after a stop, when a recording was in progress.
pub open spec fn spec_stopped<S>(st: RecordingState<S>) -> RecordingState<S> {
    RecordingState {
        temp_file: None,
        stop_signal: None,
        is_recording: st.temp_file is None,
        ..st
    }
}

impl<S> RecordingState<S> {
    /// The session is consistent: it records exactly when it holds a PCM file and a stop handle.
    pub open spec fn wf(&self) -> bool {
        &&& self.is_recording <==> self.temp_file is Some
        &&& self.is_recording <==> self.stop_signal is Some
    }

    /// The first step of a start: refused while a recording is in progress.
    pub fn check_not_recording(&self) -> (r: Result<(), String>)
        ensures
            r is Ok <==> !self.is_recording,
            r matches Err(m) ==> m@ == already_recording_msg(),
    {
        if self.is_recording {
            let m = String::from_str("Already recording");
            proof {
                reveal_strlit("Already recording");
            }
            Err(m)
        } else {
            Ok(())
        }
    }

    /// Records the input device's format, as a start does once it has the device's configuration.
    pub fn set_format(&mut self, sample_rate: u32, channels: u16)
        ensures
            *final(self) == (RecordingState { sample_rate, channels, ..*old(self) }),
    {
        self.sample_rate = sample_rate;
        self.channels = channels;
    }

    /// The last step of a start: the capture thread runs, writing into `path`.
    pub fn mark_recording(&mut self, path: String, signal: S)
        requires
            !old(self).is_recording,
        ensures
            *final(self) == spec_started(*old(self), path, signal),
    {
        self.temp_file = Some(path);
        self.is_recording = true;
        self.stop_signal = Some(signal);
    }

    /// A stop. Refused (state unchanged) when no recording is in progress; otherwise it takes the
    /// stop handle, and the PCM file with the format it was recorded in.
    pub fn stop(&mut self) -> (r: Result<(Option<S>, Result<FinishedRecording, String>), String>)
        ensures
            !old(self).is_recording ==> {
                &&& r matches Err(m) && m@ == not_recording_msg()
                &&& *final(self) == *old(self)
            },
            old(self).is_recording ==> {
                &&& r matches Ok((sig, fin)) && {
                    let expected = spec_stop_outcome(*old(self));
                    &&& sig == expected.0
                    &&& match (fin, expected.1) {
                        (Ok(f), Ok(g)) => f == g,
                        (Err(m), Err(e)) => m@ == e,
                        _ => false,
                    }
                }
                &&& *final(self) == spec_stopped(*old(self))
            },
    {
        if !self.is_recording {
            let m = String::from_str("Not recording");
            proof {
                reveal_strlit("Not recording");
            }
            return Err(m);
        }
        let signal = self.stop_signal.take();
        match self.temp_file.take() {
            None => {
                let m = String::from_str("No temp file found");
                proof {
                    reveal_strlit("No temp file found");
                }
                Ok((signal, Err(m)))
            },
            Some(path) => {
                self.is_recording = false;
                Ok((
                    signal,
                    Ok(FinishedRecording { path, sample_rate: self.sample_rate, channels: self.channels }),
                ))
            },
        }
    }
}

/// The initial state is consistent.
pub proof fn lemma_initial_wf<S>()
    ensures
        initial_state::<S>().wf(),
{
}

/// Starting from an idle, consistent state leaves a consistent state.
pub proof fn lemma_start_keeps_wf<S>(st: RecordingState<S>, sample_rate: u32, channels: u16, path: String, signal: S)
    requires
        st.wf(),
        !st.is_recording,
    ensures
        spec_started(RecordingState { sample_rate, channels, ..st }, path, signal).wf(),
{
}

/// Stopping a consistent recording leaves a consistent, idle state, and never reports a
/// missing PCM file.
pub proof fn lemma_stop_keeps_wf<S>(st: RecordingState<S>)
    requires
        st.wf(),
        st.is_recording,
    ensures
        spec_stopped(st).wf(),
        !spec_stopped(st).is_recording,
        spec_stop_outcome(st).1 is Ok,
        spec_stop_outcome(st).0 is Some,
{
}

/// A stop after a start hands back the start's stop handle and PCM file, with the format that
/// was set before the start, and leaves the session idle with that format.
pub proof fn lemma_start_then_stop<S>(st: RecordingState<S>, sample_rate: u32, channels: u16, path: String, signal: S)
    requires
        !st.is_recording,
    ensures
        ({
            let started = spec_started(RecordingState { sample_rate, channels, ..st }, path, signal);
            &&& spec_stop_outcome(started) == (
                Some(signal),
                Ok::<FinishedRecording, Seq<char>>(FinishedRecording { path, sample_rate, channels }),
            )
            &&& spec_stopped(started) == RecordingState::<S> {
                temp_file: None,
                is_recording: false,
                stop_signal: None,
                sample_rate,
                channels,
            }
        }),
{
}

/// Recording the device's format keeps the session as consistent as it was.
pub proof fn lemma_set_format_keeps_wf<S>(st: RecordingState<S>, sample_rate: u32, channels: u16)
    requires
        st.wf(),
    ensures
        (RecordingState { sample_rate, channels, ..st }).wf(),
{
}

/// One step that the commands take on the session.
pub enum SessionStep<S> {
    /// A start records the device's format (it may still fail before the capture runs).
    SetFormat(u32, u16),
    /// A start whose capture runs, writing into the file, stoppable by the handle; a start
    /// while recording is refused by `check_not_recording` and changes nothing.
    Start(String, S),
    /// A stop; a stop while idle is refused and changes nothing.
    Stop,
}

/// The session after one step, as the step's function leaves it.
pub open spec fn spec_step<S>(st: RecordingState<S>, step: SessionStep<S>) -> RecordingState<S> {
    match step {
        SessionStep::SetFormat(sample_rate, channels) => RecordingState { sample_rate, channels, ..st },
        SessionStep::Start(path, signal) => if st.is_recording {
            st
        } else {
            spec_started(st, path, signal)
        },
        SessionStep::Stop => if st.is_recording {
            spec_stopped(st)
        } else {
            st
        },
    }
}

/// The session after a sequence of steps.
pub open spec fn spec_run<S>(st: RecordingState<S>, steps: Seq<SessionStep<S>>) -> RecordingState<S>
    decreases steps.len(),
{
    if steps.len() == 0 {
        st
    } else {
        spec_run(spec_step(st, steps[0]), steps.drop_first())
    }
}

/// Any sequence of format updates, starts and stops keeps a consistent session consistent, and
/// a stop after it never reports a missing PCM file.
pub proof fn lemma_run_keeps_wf<S>(st: RecordingState<S>, steps: Seq<SessionStep<S>>)
    requires
        st.wf(),
    ensures
        spec_run(st, steps).wf(),
        spec_run(st, steps).is_recording ==> spec_stop_outcome(spec_run(st, steps)).1 is Ok,
    decreases steps.len(),
{
    if steps.len() > 0 {
        let next = spec_step(st, steps[0]);
        assert(next.wf());
        lemma_run_keeps_wf(next, steps.drop_first());
    }
}

/// From the state the process starts in, no sequence of starts, format updates and stops ever
/// leads to a stop that reports a missing PCM file.
pub proof fn lemma_session_never_loses_file<S>(steps: Seq<SessionStep<S>>)
    ensures
        spec_run(initial_state::<S>(), steps).wf(),
        spec_run(initial_state::<S>(), steps).is_recording ==> spec_stop_outcome(
            spec_run(initial_state::<S>(), steps),
        ).1 is Ok,
{
    lemma_run_keeps_wf(initial_state::<S>(), steps);
}

// ---------------------------------------------------------------------------
// Choosing the input device
// ---------------------------------------------------------------------------

/// The operating system the program was built for, where it changes the device choice.
#[derive(Clone, Copy, PartialEq, Eq, Debug)]
pub enum Platform {
    MacOs,
    Windows,
    Other,
}

/// Which device to capture from.
#[derive(Clone, Copy, PartialEq, Eq, Debug)]
pub enum DeviceChoice {
    /// The device at this position in the enumerated input devices.
    Listed(usize),
    /// The host's default input device.
    Default,
    /// A loopback capture of the host's default output device (WASAPI loopback on Windows):
    /// an input stream built on the output device, in its default output configuration.
    OutputLoopback,
}

/// A device (whose name could be read) matches a pattern when its lower-cased name contains
/// the lower-cased pattern.
pub open spec fn device_name_matches(entry: Option<String>, pattern: Seq<char>) -> bool {
    match entry {
        Some(n) => seq_contains(spec_to_lowercase(n@), spec_to_lowercase(pattern)),
        None => false,
    }
}

/// An entry of already lower-cased device names matches an already lower-cased pattern when
/// the name was read and contains the pattern.
pub open spec fn lowered_name_matches(entry: Option<String>, lowered_pattern: Seq<char>) -> bool {
    match entry {
        Some(n) => seq_contains(n@, lowered_pattern),
        None => false,
    }
}

/// The first entry of the lower-cased device names that contains the lower-cased pattern.
pub fn first_matching_name(lowered_names: &Vec<Option<String>>, lowered_pattern: &str) -> (r: Option<usize>)
    ensures
        r matches Some(i) ==> {
            &&& i < lowered_names.len()
            &&& lowered_name_matches(lowered_names@[i as int], lowered_pattern@)
            &&& forall|j: int| 0 <= j < i ==> !lowered_name_matches(#[trigger] lowered_names@[j], lowered_pattern@)
        },
        r is None ==> forall|j: int|
            0 <= j < lowered_names.len() ==> !lowered_name_matches(#[trigger] lowered_names@[j], lowered_pattern@),
{
    let pattern = chars_of(lowered_pattern);
    let mut i: usize = 0;
    while i < lowered_names.len()
        invariant
            i <= lowered_names.len(),
            pattern@ == lowered_pattern@,
            forall|j: int| 0 <= j < i ==> !lowered_name_matches(#[trigger] lowered_names@[j], lowered_pattern@),
        decreases lowered_names.len() - i,
    {
        match &lowered_names[i] {
            Some(n) => {
                let nc = chars_of(n.as_str());
                if chars_contain(&nc, &pattern) {
                    return Some(i);
                }
            },
            None => {},
        }
        i = i + 1;
    }
    None
}

/// The first of the enumerated input devices whose name contains `name`, ignoring case.
/// `device_names` holds, in enumeration order, each device's name, or `None` where the name
/// could not be read (such devices are passed over).
pub fn find_device_by_name(device_names: &Vec<Option<String>>, name: &str) -> (r: Option<usize>)
    ensures
        r matches Some(i) ==> {
            &&& i < device_names.len()
            &&& device_name_matches(device_names@[i as int], name@)
            &&& forall|j: int| 0 <= j < i ==> !device_name_matches(#[trigger] device_names@[j], name@)
        },
        r is None ==> forall|j: int|
            0 <= j < device_names.len() ==> !device_name_matches(#[trigger] device_names@[j], name@),
{
    let pattern = to_lowercase(name);
    let mut lowered: Vec<Option<String>> = Vec::new();
    let mut k: usize = 0;
    while k < device_names.len()
        invariant
            k <= device_names.len(),
            lowered@.len() == k,
            pattern@ == spec_to_lowercase(name@),
            forall|j: int|
                #![trigger lowered@[j]]
                #![trigger device_names@[j]]
                0 <= j < k ==> (lowered_name_matches(lowered@[j], pattern@) <==> device_name_matches(
                    device_names@[j],
                    name@,
                )),
        decreases device_names.len() - k,
    {
        match &device_names[k] {
            Some(n) => lowered.push(Some(to_lowercase(n.as_str()))),
            None => lowered.push(None),
        }
        k = k + 1;
    }
    first_matching_name(&lowered, pattern.as_str())
}

/// The message when macOS has no input device for system capture.
pub open spec fn macos_no_device_msg() -> Seq<char> {
    "No input device available. Install BlackHole for system audio capture on macOS."@
}

/// The message when Windows has no loopback device.
pub open spec fn windows_no_device_msg() -> Seq<char> {
    "No loopback device available. WASAPI loopback requires a compatible audio device."@
}

/// The message when there is no input device.
pub open spec fn no_device_msg() -> Seq<char> {
    "No input device available"@
}

/// The device choice for a capture `mode`. "system" mode captures what the machine plays: on
/// macOS through the first input device named like "BlackHole", else the default input device;
/// on Windows through a loopback capture of the default output device, refused when there is
/// none. Any other mode, and "system" elsewhere, uses the default input device. Without a
/// default input device the result is the error that the platform and mode call for.
pub open spec fn spec_input_device(
    mode: Seq<char>,
    platform: Platform,
    names: Seq<Option<String>>,
    has_default: bool,
    has_default_output: bool,
) -> Result<DeviceChoice, Seq<char>> {
    let system = mode == "system"@;
    if system && platform == Platform::MacOs && exists|j: int|
        0 <= j < names.len() && device_name_matches(#[trigger] names[j], "BlackHole"@) {
        Ok(DeviceChoice::Listed(
            (choose|j: int|
                0 <= j < names.len() && device_name_matches(#[trigger] names[j], "BlackHole"@) && forall|k: int|
                    0 <= k < j ==> !device_name_matches(#[trigger] names[k], "BlackHole"@)) as usize,
        ))
    } else if system && platform == Platform::Windows {
        if has_default_output {
            Ok(DeviceChoice::OutputLoopback)
        } else {
            Err(windows_no_device_msg())
        }
    } else if has_default {
        Ok(DeviceChoice::Default)
    } else if system && platform == Platform::MacOs {
        Err(macos_no_device_msg())
    } else {
        Err(no_device_msg())
    }
}

/// Any mode other than "system" uses the host's default input device on every platform, whatever
/// devices are listed, and fails with "No input device available" when there is none; the
/// BlackHole search and the loopback capture only ever serve "system" mode.
pub proof fn lemma_other_modes_use_default_input(
    mode: Seq<char>,
    platform: Platform,
    names: Seq<Option<String>>,
    has_default: bool,
    has_default_output: bool,
)
    requires
        mode != "system"@,
    ensures
        spec_input_device(mode, platform, names, has_default, has_default_output) == if has_default {
            Ok::<DeviceChoice, Seq<char>>(DeviceChoice::Default)
        } else {
            Err("No input device available"@)
        },
{
}

/// Chooses the device for a capture `mode` ("system" or any other), given the names of the
/// enumerated input devices and whether the host has a default input and a default output
/// device.
pub fn get_input_device(
    mode: &str,
    platform: Platform,
    device_names: &Vec<Option<String>>,
    has_default: bool,
    has_default_output: bool,
) -> (r: Result<DeviceChoice, String>)
    ensures
        mode@ != "system"@ ==> (has_default ==> r == Ok::<DeviceChoice, String>(DeviceChoice::Default)),
        mode@ != "system"@ ==> (!has_default ==> (r matches Err(m) && m@ == "No input device available"@)),
        (mode@ == "system"@ && platform == Platform::Windows) ==> (has_default_output ==> r == Ok::<
            DeviceChoice,
            String,
        >(DeviceChoice::OutputLoopback)),
        (mode@ == "system"@ && platform == Platform::Windows) ==> (!has_default_output ==> (r matches Err(m)
            && m@ == "No loopback device available. WASAPI loopback requires a compatible audio device."@)),
        (mode@ == "system"@ && platform == Platform::Other) ==> (has_default ==> r == Ok::<DeviceChoice, String>(
            DeviceChoice::Default,
        )),
        (mode@ == "system"@ && platform == Platform::Other) ==> (!has_default ==> (r matches Err(m) && m@
            == "No input device available"@)),
        (mode@ == "system"@ && platform == Platform::MacOs) ==> (r matches Ok(DeviceChoice::Listed(i)) ==> {
            &&& i < device_names@.len()
            &&& device_name_matches(device_names@[i as int], "BlackHole"@)
            &&& forall|j: int| 0 <= j < i ==> !device_name_matches(#[trigger] device_names@[j], "BlackHole"@)
        }),
        (mode@ == "system"@ && platform == Platform::MacOs) ==> ((forall|j: int|
            0 <= j < device_names@.len() ==> !device_name_matches(#[trigger] device_names@[j], "BlackHole"@)) ==> if has_default {
            r == Ok::<DeviceChoice, String>(DeviceChoice::Default)
        } else {
            r matches Err(m) && m@ == "No input device available. Install BlackHole for system audio capture on macOS."@
        }),
        (mode@ == "system"@ && platform == Platform::MacOs && exists|j: int|
            0 <= j < device_names@.len() && device_name_matches(#[trigger] device_names@[j], "BlackHole"@))
            ==> r matches Ok(DeviceChoice::Listed(_)),
        match (r, spec_input_device(mode@, platform, device_names@, has_default, has_default_output)) {
            (Ok(c), Ok(d)) => c == d,
            (Err(m), Err(e)) => m@ == e,
            _ => false,
        },
{
    let system = crate::text::str_equal(mode, "system");
    proof {
        reveal_strlit("system");
        reveal_strlit("BlackHole");
    }
    if system {
        match platform {
            Platform::MacOs => {
                match find_device_by_name(device_names, "BlackHole") {
                    Some(i) => {
                        let ghost names = device_names@;
                        proof {
                            let c = choose|j: int|
                                0 <= j < names.len() && device_name_matches(#[trigger] names[j], "BlackHole"@)
                                    && forall|k: int| 0 <= k < j ==> !device_name_matches(#[trigger] names[k], "BlackHole"@);
                            assert(device_name_matches(names[i as int], "BlackHole"@));
                            if c < i {
                                assert(!device_name_matches(names[c], "BlackHole"@));
                            } else if c > i {
                                assert(!device_name_matches(names[i as int], "BlackHole"@));
                            }
                            assert(c == i as int);
                        }
                        return Ok(DeviceChoice::Listed(i));
                    },
                    None => {
                        if has_default {
                            return Ok(DeviceChoice::Default);
                        }
                        return Err(String::from_str(
                            "No input device available. Install BlackHole for system audio capture on macOS.",
                        ));
                    },
                }
            },
            Platform::Windows => {
                if has_default_output {
                    return Ok(DeviceChoice::OutputLoopback);
                }
                return Err(String::from_str(
                    "No loopback device available. WASAPI loopback requires a compatible audio device.",
                ));
            },
            Platform::Other => {},
        }
    }
    if has_default {
        Ok(DeviceChoice::Default)
    } else {
        Err(String::from_str("No input device available"))
    }
}


// ---------------------------------------------------------------------------
// PCM samples and bytes
// ---------------------------------------------------------------------------

/// The 16-bit two's-complement pattern of a sample, as an unsigned number.
pub open spec fn sample_bits(x: i16) -> int {
    if x < 0 {
        x + 65536
    } else {
        x as int
    }
}

/// `i16::to_le_bytes`: the low byte, then the high byte.
pub open spec fn sample_le_bytes(x: i16) -> Seq<u8> {
    seq![(sample_bits(x) % 256) as u8, (sample_bits(x) / 256) as u8]
}

/// `i16::from_le_bytes([lo, hi])`.
pub open spec fn sample_from_le(lo: u8, hi: u8) -> i16 {
    let v = lo + 256 * hi;
    (if v >= 32768 {
        v - 65536
    } else {
        v
    }) as i16
}

/// The PCM bytes of a run of samples: each sample's two little-endian bytes, in order.
pub open spec fn spec_pcm_bytes(samples: Seq<i16>) -> Seq<u8> {
    Seq::new(
        2 * samples.len(),
        |k: int|
            if k % 2 == 0 {
                (sample_bits(samples[k / 2]) % 256) as u8
            } else {
                (sample_bits(samples[k / 2]) / 256) as u8
            },
    )
}

/// The samples of a run of PCM bytes: one per whole pair of bytes, a trailing odd byte dropped.
pub open spec fn spec_pcm_samples(bytes: Seq<u8>) -> Seq<i16> {
    Seq::new(bytes.len() / 2, |i: int| sample_from_le(bytes[2 * i], bytes[2 * i + 1]))
}

/// The little-endian PCM bytes of 16-bit samples, as the capture callback writes them.
pub fn pcm_le_bytes(samples: &[i16]) -> (r: Vec<u8>)
    requires
        2 * samples@.len() <= usize::MAX,
    ensures
        r@ == spec_pcm_bytes(samples@),
{
    let mut out: Vec<u8> = Vec::new();
    let mut i: usize = 0;
    while i < samples.len()
        invariant
            i <= samples@.len(),
            2 * samples@.len() <= usize::MAX,
            out@ == spec_pcm_bytes(samples@.subrange(0, i as int)),
        decreases samples@.len() - i,
    {
        let x = samples[i];
        let bits: u32 = if x < 0 {
            (x as i32 + 65536) as u32
        } else {
            x as u32
        };
        let ghost before = out@;
        out.push((bits % 256) as u8);
        out.push((bits / 256) as u8);
        i = i + 1;
        assert(out@ =~= spec_pcm_bytes(samples@.subrange(0, i as int))) by {
            let sub = samples@.subrange(0, i as int);
            let prev = samples@.subrange(0, i - 1);
            assert forall|k: int| 0 <= k < out@.len() implies out@[k] == spec_pcm_bytes(sub)[k] by {
                if k < 2 * (i - 1) {
                    assert(out@[k] == before[k]);
                    assert(before[k] == spec_pcm_bytes(prev)[k]);
                    assert(sub[k / 2] == prev[k / 2]);
                } else {
                    assert(sub[k / 2] == x);
                }
            }
        }
    }
    assert(samples@.subrange(0, samples@.len() as int) =~= samples@);
    out
}

/// The 16-bit samples in raw little-endian PCM bytes, as a stop reads them back.
pub fn pcm_samples(bytes: &[u8]) -> (r: Vec<i16>)
    ensures
        r@ == spec_pcm_samples(bytes@),
{
    let len = bytes.len();
    let n = len / 2;
    let mut out: Vec<i16> = Vec::new();
    let mut i: usize = 0;
    while i < n
        invariant
            len == bytes@.len(),
            n == len / 2,
            2 * n <= len,
            i <= n,
            out@.len() == i,
            forall|k: int| 0 <= k < i ==> out@[k] == sample_from_le(bytes@[2 * k], bytes@[2 * k + 1]),
        decreases n - i,
    {
        assert(2 * i + 1 < bytes@.len());
        let lo = bytes[2 * i];
        let hi = bytes[2 * i + 1];
        let v: u32 = lo as u32 + 256 * (hi as u32);
        let x: i16 = if v >= 32768 {
            (v as i32 - 65536) as i16
        } else {
            v as i16
        };
        out.push(x);
        i = i + 1;
    }
    assert(out@ =~= spec_pcm_samples(bytes@));
    out
}

/// Reading back the bytes written for a run of samples gives the same samples.
pub proof fn lemma_pcm_roundtrip(samples: Seq<i16>)
    ensures
        spec_pcm_samples(spec_pcm_bytes(samples)) == samples,
{
    let b = spec_pcm_bytes(samples);
    assert forall|i: int| 0 <= i < samples.len() implies #[trigger] spec_pcm_samples(b)[i] == samples[i] by {
        assert((2 * i) / 2 == i && (2 * i) % 2 == 0);
        assert((2 * i + 1) / 2 == i && (2 * i + 1) % 2 == 1);
    }
    assert(spec_pcm_samples(b) =~= samples);
}


// ---------------------------------------------------------------------------
// Opus framing
// ---------------------------------------------------------------------------

/// The channel layout that the Opus encoder is created with.
#[derive(Clone, Copy, PartialEq, Eq, Debug)]
pub enum OpusChannels {
    Mono,
    Stereo,
}

/// Two or more device channels are encoded as stereo, fewer as mono.
pub fn opus_channels(channels: u16) -> (r: OpusChannels)
    ensures
        r == (if channels >= 2 {
            OpusChannels::Stereo
        } else {
            OpusChannels::Mono
        }),
{
    if channels >= 2 {
        OpusChannels::Stereo
    } else {
        OpusChannels::Mono
    }
}

/// The number of interleaved samples in one 20 ms Opus frame.
pub open spec fn spec_frame_size(sample_rate: u32, channels: u16) -> int {
    (sample_rate / 50) as int * channels as int
}

/// The number of interleaved samples in one 20 ms frame: `(sample_rate / 50) * channels`.
pub fn opus_frame_size(sample_rate: u32, channels: u16) -> (r: usize)
    requires
        spec_frame_size(sample_rate, channels) <= usize::MAX,
    ensures
        r as int == spec_frame_size(sample_rate, channels),
{
    let per_channel = (sample_rate / 50) as usize;
    per_channel * (channels as usize)
}

/// `chunk` extended with zero samples to `size` samples.
pub open spec fn padded(chunk: Seq<i16>, size: nat) -> Seq<i16> {
    Seq::new(size, |j: int| if j < chunk.len() { chunk[j] } else { 0i16 })
}

/// The frames that the samples are encoded in: consecutive runs of `size` samples, the last
/// one (if shorter) filled up with zero samples.
pub open spec fn spec_frames(samples: Seq<i16>, size: nat) -> Seq<Seq<i16>>
    decreases samples.len(),
{
    if size == 0 || samples.len() == 0 {
        Seq::empty()
    } else if samples.len() <= size {
        seq![padded(samples, size)]
    } else {
        seq![samples.take(size as int)] + spec_frames(samples.skip(size as int), size)
    }
}

/// Every frame holds exactly `size` samples, and the frames together hold the samples
/// followed by zero samples only.
pub proof fn lemma_frames_shape(samples: Seq<i16>, size: nat)
    requires
        size > 0,
    ensures
        forall|k: int| 0 <= k < spec_frames(samples, size).len() ==> (#[trigger] spec_frames(samples, size)[k]).len() == size,
        forall|k: int, j: int|
            0 <= k < spec_frames(samples, size).len() && 0 <= j < size ==> (#[trigger] spec_frames(samples, size)[k][j]) == if k * size + j < samples.len() {
                samples[k * size + j]
            } else {
                0i16
            },
        spec_frames(samples, size).len() * size >= samples.len(),
        spec_frames(samples, size).len() * size < samples.len() + size,
    decreases samples.len(),
{
    let fr = spec_frames(samples, size);
    if samples.len() == 0 {
    } else if samples.len() <= size {
        assert(fr.len() == 1);
        assert forall|k: int, j: int| 0 <= k < fr.len() && 0 <= j < size implies (#[trigger] fr[k][j]) == if k * size + j < samples.len() {
            samples[k * size + j]
        } else {
            0i16
        } by {
            assert(k == 0);
        }
    } else {
        let rest = samples.skip(size as int);
        lemma_frames_shape(rest, size);
        let rf = spec_frames(rest, size);
        assert(fr == seq![samples.take(size as int)] + rf);
        assert forall|k: int, j: int| 0 <= k < fr.len() && 0 <= j < size implies (#[trigger] fr[k][j]) == if k * size + j < samples.len() {
            samples[k * size + j]
        } else {
            0i16
        } by {
            if k == 0 {
            } else {
                assert(fr[k] == rf[k - 1]);
                assert(rf[k - 1][j] == if (k - 1) * size + j < rest.len() {
                    rest[(k - 1) * size + j]
                } else {
                    0i16
                });
                assert((k - 1) * size + j + size == k * size + j) by (nonlinear_arith);
            }
        }
        assert(fr.len() * size == rf.len() * size + size) by (nonlinear_arith)
            requires
                fr.len() == rf.len() + 1,
        ;
    }
}

proof fn lemma_frames_step(samples: Seq<i16>, size: nat, start: int)
    requires
        size > 0,
        0 <= start < samples.len(),
    ensures
        samples.len() - start <= size ==> spec_frames(samples.skip(start), size) == seq![
            padded(samples.subrange(start, samples.len() as int), size),
        ],
        samples.len() - start > size ==> spec_frames(samples.skip(start), size) == seq![
            samples.subrange(start, start + size),
        ] + spec_frames(samples.skip(start + size), size),
{
    let rest = samples.skip(start);
    assert(rest =~= samples.subrange(start, samples.len() as int));
    if samples.len() - start > size {
        assert(rest.take(size as int) =~= samples.subrange(start, start + size));
        assert(rest.skip(size as int) =~= samples.skip(start + size));
    }
}

/// Splits interleaved samples into the frames that the Opus encoder is fed: runs of
/// `frame_size` samples, the last one filled up with zeros.
pub fn opus_frames(samples: &[i16], frame_size: usize) -> (r: Vec<Vec<i16>>)
    requires
        frame_size > 0,
    ensures
        r@.len() == spec_frames(samples@, frame_size as nat).len(),
        forall|k: int| 0 <= k < r@.len() ==> (#[trigger] r@[k])@ == spec_frames(samples@, frame_size as nat)[k],
{
    let n = samples.len();
    let ghost all = spec_frames(samples@, frame_size as nat);
    let mut frames: Vec<Vec<i16>> = Vec::new();
    let mut start: usize = 0;
    assert(samples@.skip(0) =~= samples@);
    while start < n
        invariant
            n == samples@.len(),
            frame_size > 0,
            start <= n,
            all == spec_frames(samples@, frame_size as nat),
            spec_frames(samples@.skip(start as int), frame_size as nat) =~= all.skip(frames@.len() as int),
            frames@.len() <= all.len(),
            forall|k: int| 0 <= k < frames@.len() ==> (#[trigger] frames@[k])@ == all[k],
        decreases n - start,
    {
        proof {
            lemma_frames_step(samples@, frame_size as nat, start as int);
        }
        let remaining = n - start;
        let take = if remaining < frame_size {
            remaining
        } else {
            frame_size
        };
        let mut frame: Vec<i16> = Vec::new();
        let mut j: usize = 0;
        while j < frame_size
            invariant
                n == samples@.len(),
                start < n,
                take <= frame_size,
                take <= n - start,
                j <= frame_size,
                frame@.len() == j,
                forall|m: int| 0 <= m < j ==> #[trigger] frame@[m] == if m < take {
                    samples@[start + m]
                } else {
                    0i16
                },
            decreases frame_size - j,
        {
            if j < take {
                frame.push(samples[start + j]);
            } else {
                frame.push(0);
            }
            j = j + 1;
        }
        let ghost k = frames@.len() as int;
        proof {
            assert(spec_frames(samples@.skip(start as int), frame_size as nat).len() >= 1);
            assert(all.skip(k).len() >= 1);
            assert(k < all.len());
            if remaining <= frame_size {
                assert(frame@ =~= padded(samples@.subrange(start as int, n as int), frame_size as nat));
            } else {
                assert(frame@ =~= samples@.subrange(start as int, start + frame_size));
            }
            assert(all.skip(k)[0] == all[k]);
            assert(frame@ == all[k]);
        }
        frames.push(frame);
        start = start + take;
        proof {
            if remaining > frame_size {
                assert(all.skip(k).skip(1) =~= all.skip(k + 1));
            } else {
                assert(all.skip(k).len() == 1);
                assert(start == n);
                assert(samples@.skip(n as int) =~= Seq::<i16>::empty());
                assert(all.skip(k + 1) =~= Seq::<Seq<i16>>::empty());
            }
        }
    }
    assert(samples@.skip(n as int) =~= Seq::<i16>::empty());
    assert(all.skip(frames@.len() as int).len() == 0);
    frames
}

/// The four little-endian bytes of a 32-bit value.
pub open spec fn le32_bytes(v: nat) -> Seq<u8> {
    seq![
        (v % 256) as u8,
        ((v / 256) % 256) as u8,
        ((v / 65536) % 256) as u8,
        ((v / 16777216) % 256) as u8,
    ]
}

/// The two little-endian bytes of a 16-bit value.
pub open spec fn le16_bytes(v: nat) -> Seq<u8> {
    seq![(v % 256) as u8, ((v / 256) % 256) as u8]
}

/// The value of four little-endian bytes.
pub open spec fn le32_value(b: Seq<u8>) -> nat {
    (b[0] + 256 * b[1] + 65536 * b[2] + 16777216 * b[3]) as nat
}

/// The value of two little-endian bytes.
pub open spec fn le16_value(b: Seq<u8>) -> nat {
    (b[0] + 256 * b[1]) as nat
}

/// Reading back four little-endian bytes gives the 32-bit value they were written for.
pub proof fn lemma_le32_roundtrip(v: nat)
    requires
        v <= 0xffff_ffff,
    ensures
        le32_value(le32_bytes(v)) == v,
        le32_bytes(v).len() == 4,
{
    let b = le32_bytes(v);
    assert(b[0] == v % 256);
    assert(b[1] == (v / 256) % 256);
    assert(b[2] == (v / 65536) % 256);
    assert(b[3] == (v / 16777216) % 256);
}

/// Reading back two little-endian bytes gives the 16-bit value they were written for.
pub proof fn lemma_le16_roundtrip(v: nat)
    requires
        v <= 0xffff,
    ensures
        le16_value(le16_bytes(v)) == v,
        le16_bytes(v).len() == 2,
{
}

fn push_le32(out: &mut Vec<u8>, v: u32)
    ensures
        final(out)@ == old(out)@ + le32_bytes(v as nat),
{
    out.push((v % 256) as u8);
    out.push(((v / 256) % 256) as u8);
    out.push(((v / 65536) % 256) as u8);
    out.push(((v / 16777216) % 256) as u8);
    assert(final(out)@ =~= old(out)@ + le32_bytes(v as nat));
}

fn push_le16(out: &mut Vec<u8>, v: u16)
    ensures
        final(out)@ == old(out)@ + le16_bytes(v as nat),
{
    out.push((v % 256) as u8);
    out.push(((v / 256) % 256) as u8);
    assert(final(out)@ =~= old(out)@ + le16_bytes(v as nat));
}

/// One frame in the Opus file: its length as a little-endian `u32` (truncated as `as u32`
/// truncates), then its bytes.
pub open spec fn frame_record(frame: Seq<u8>) -> Seq<u8> {
    le32_bytes((frame.len() as u32) as nat) + frame
}

/// The content of the Opus file: the records of the frames, in order.
pub open spec fn spec_container(frames: Seq<Seq<u8>>) -> Seq<u8>
    decreases frames.len(),
{
    if frames.len() == 0 {
        Seq::empty()
    } else {
        frame_record(frames[0]) + spec_container(frames.drop_first())
    }
}

/// Reads an Opus file back into its frames; `None` where it is cut short.
pub open spec fn spec_read_container(bytes: Seq<u8>) -> Option<Seq<Seq<u8>>>
    decreases bytes.len(),
{
    if bytes.len() == 0 {
        Some(Seq::empty())
    } else if bytes.len() < 4 {
        None
    } else {
        let n = le32_value(bytes.take(4)) as int;
        if 4 + n > bytes.len() {
            None
        } else {
            match spec_read_container(bytes.skip(4 + n)) {
                Some(rest) => Some(seq![bytes.subrange(4, 4 + n)] + rest),
                None => None,
            }
        }
    }
}

proof fn lemma_container_append(a: Seq<Seq<u8>>, b: Seq<Seq<u8>>)
    ensures
        spec_container(a + b) == spec_container(a) + spec_container(b),
    decreases a.len(),
{
    if a.len() == 0 {
        assert(a + b =~= b);
        assert(spec_container(a) + spec_container(b) =~= spec_container(b));
    } else {
        assert((a + b).drop_first() =~= a.drop_first() + b);
        assert((a + b)[0] == a[0]);
        lemma_container_append(a.drop_first(), b);
        assert(spec_container(a + b) =~= spec_container(a) + spec_container(b));
    }
}

/// The Opus file reads back into the frames that were written, when each frame's length fits
/// in a `u32`.
pub proof fn lemma_container_roundtrip(frames: Seq<Seq<u8>>)
    requires
        forall|k: int| 0 <= k < frames.len() ==> (#[trigger] frames[k]).len() <= 0xffff_ffff,
    ensures
        spec_read_container(spec_container(frames)) == Some(frames),
    decreases frames.len(),
{
    if frames.len() == 0 {
        assert(spec_container(frames).len() == 0);
        assert(frames =~= Seq::<Seq<u8>>::empty());
    } else {
        let f = frames[0];
        let rest = frames.drop_first();
        assert forall|k: int| 0 <= k < rest.len() implies (#[trigger] rest[k]).len() <= 0xffff_ffff by {
            assert(rest[k] == frames[k + 1]);
        }
        lemma_container_roundtrip(rest);
        lemma_le32_roundtrip(f.len());
        let c = spec_container(frames);
        assert(c == frame_record(f) + spec_container(rest));
        assert(c.take(4) =~= le32_bytes(f.len()));
        assert(c.subrange(4, 4 + f.len() as int) =~= f);
        assert(c.skip(4 + f.len() as int) =~= spec_container(rest));
        assert(seq![f] + rest =~= frames);
    }
}

/// The content of the Opus file for the encoded frames: each frame's length as a little-endian
/// `u32`, then the frame.
pub fn opus_container(frames: &Vec<Vec<u8>>) -> (r: Vec<u8>)
    ensures
        r@ == spec_container(frames@.map_values(|f: Vec<u8>| f@)),
{
    let ghost views = frames@.map_values(|f: Vec<u8>| f@);
    let mut out: Vec<u8> = Vec::new();
    let mut i: usize = 0;
    while i < frames.len()
        invariant
            i <= frames@.len(),
            views == frames@.map_values(|f: Vec<u8>| f@),
            out@ == spec_container(views.take(i as int)),
        decreases frames@.len() - i,
    {
        let frame = &frames[i];
        let len = frame.len() as u32;
        push_le32(&mut out, len);
        let mut j: usize = 0;
        let ghost base = out@;
        while j < frame.len()
            invariant
                j <= frame@.len(),
                out@ == base + frame@.subrange(0, j as int),
            decreases frame@.len() - j,
        {
            out.push(frame[j]);
            j = j + 1;
            assert(out@ =~= base + frame@.subrange(0, j as int));
        }
        proof {
            assert(frame@.subrange(0, frame@.len() as int) =~= frame@);
            assert(views[i as int] == frame@);
            assert(views.take(i + 1) =~= views.take(i as int) + seq![frame@]);
            lemma_container_append(views.take(i as int), seq![frame@]);
            assert(seq![frame@].drop_first() =~= Seq::<Seq<u8>>::empty());
            assert(spec_container(Seq::<Seq<u8>>::empty()) == Seq::<u8>::empty());
            assert(spec_container(seq![frame@]) =~= frame_record(frame@));
        }
        i = i + 1;
    }
    assert(views.take(frames@.len() as int) =~= views);
    out
}

// ---------------------------------------------------------------------------
// The WAV file
// ---------------------------------------------------------------------------

/// The ASCII bytes of a four-letter chunk tag.
pub open spec fn tag_bytes(a: char, b: char, c: char, d: char) -> Seq<u8> {
    seq![a as u8, b as u8, c as u8, d as u8]
}

/// The 44-byte header of a 16-bit PCM WAV file that holds `data_len` bytes of samples.
pub open spec fn spec_wav_header(data_len: u32, sample_rate: u32, channels: u16) -> Seq<u8> {
    tag_bytes('R', 'I', 'F', 'F') + le32_bytes(36 + data_len as nat) + tag_bytes('W', 'A', 'V', 'E')
        + tag_bytes('f', 'm', 't', ' ') + le32_bytes(16) + le16_bytes(1) + le16_bytes(channels as nat)
        + le32_bytes(sample_rate as nat) + le32_bytes(sample_rate as nat * channels as nat * 2)
        + le16_bytes(channels as nat * 2) + le16_bytes(16) + tag_bytes('d', 'a', 't', 'a')
        + le32_bytes(data_len as nat)
}

/// The WAV file for raw PCM: the header, then the PCM bytes. The header states the PCM length
/// as a `u32`, truncated as `as u32` truncates.
pub fn wav_file_bytes(pcm: &[u8], sample_rate: u32, channels: u16) -> (r: Vec<u8>)
    requires
        (pcm@.len() as u32) + 36 <= u32::MAX,
        sample_rate * channels * 2 <= u32::MAX,
        channels * 2 <= u16::MAX,
    ensures
        r@ == spec_wav_header(pcm@.len() as u32, sample_rate, channels) + pcm@,
{
    let data_len = pcm.len() as u32;
    let file_len = 36 + data_len;
    let byte_rate = sample_rate * channels as u32 * 2;
    let block_align = channels * 2;
    let mut out: Vec<u8> = Vec::new();
    // "RIFF"
    out.push(0x52);
    out.push(0x49);
    out.push(0x46);
    out.push(0x46);
    push_le32(&mut out, file_len);
    // "WAVE"
    out.push(0x57);
    out.push(0x41);
    out.push(0x56);
    out.push(0x45);
    // "fmt "
    out.push(0x66);
    out.push(0x6d);
    out.push(0x74);
    out.push(0x20);
    push_le32(&mut out, 16);
    push_le16(&mut out, 1);
    push_le16(&mut out, channels);
    push_le32(&mut out, sample_rate);
    push_le32(&mut out, byte_rate);
    push_le16(&mut out, block_align);
    push_le16(&mut out, 16);
    // "data"
    out.push(0x64);
    out.push(0x61);
    out.push(0x74);
    out.push(0x61);
    push_le32(&mut out, data_len);
    let ghost header = out@;
    assert(header =~= spec_wav_header(data_len, sample_rate, channels));
    let mut i: usize = 0;
    while i < pcm.len()
        invariant
            i <= pcm@.len(),
            out@ == header + pcm@.subrange(0, i as int),
        decreases pcm@.len() - i,
    {
        out.push(pcm[i]);
        i = i + 1;
        assert(out@ =~= header + pcm@.subrange(0, i as int));
    }
    assert(pcm@.subrange(0, pcm@.len() as int) =~= pcm@);
    out
}

/// The WAV header states the recording's format: the RIFF size, the PCM format tag, the
/// channel count, the sample rate, the byte rate, the block alignment, 16 bits per sample and
/// the data length, each read back from its offset.
pub proof fn lemma_wav_header_fields(data_len: u32, sample_rate: u32, channels: u16)
    requires
        data_len + 36 <= u32::MAX,
        sample_rate * channels * 2 <= u32::MAX,
        channels * 2 <= u16::MAX,
    ensures
        ({
            let h = spec_wav_header(data_len, sample_rate, channels);
            &&& h.len() == 44
            &&& le32_value(h.subrange(4, 8)) == data_len + 36
            &&& le32_value(h.subrange(16, 20)) == 16
            &&& le16_value(h.subrange(20, 22)) == 1
            &&& le16_value(h.subrange(22, 24)) == channels
            &&& le32_value(h.subrange(24, 28)) == sample_rate
            &&& le32_value(h.subrange(28, 32)) == sample_rate * channels * 2
            &&& le16_value(h.subrange(32, 34)) == channels * 2
            &&& le16_value(h.subrange(34, 36)) == 16
            &&& le32_value(h.subrange(40, 44)) == data_len
        }),
{
    let h = spec_wav_header(data_len, sample_rate, channels);
    lemma_le32_roundtrip(36 + data_len as nat);
    lemma_le32_roundtrip(16);
    lemma_le16_roundtrip(1);
    lemma_le16_roundtrip(channels as nat);
    lemma_le32_roundtrip(sample_rate as nat);
    lemma_le32_roundtrip(sample_rate as nat * channels as nat * 2);
    lemma_le16_roundtrip(channels as nat * 2);
    lemma_le16_roundtrip(16);
    lemma_le32_roundtrip(data_len as nat);
    assert(h.subrange(4, 8) =~= le32_bytes(36 + data_len as nat));
    assert(h.subrange(16, 20) =~= le32_bytes(16));
    assert(h.subrange(20, 22) =~= le16_bytes(1));
    assert(h.subrange(22, 24) =~= le16_bytes(channels as nat));
    assert(h.subrange(24, 28) =~= le32_bytes(sample_rate as nat));
    assert(h.subrange(28, 32) =~= le32_bytes(sample_rate as nat * channels as nat * 2));
    assert(h.subrange(32, 34) =~= le16_bytes(channels as nat * 2));
    assert(h.subrange(34, 36) =~= le16_bytes(16));
    assert(h.subrange(40, 44) =~= le32_bytes(data_len as nat));
}

} // verus!
