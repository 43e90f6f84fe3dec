use vstd::prelude::*;
use vstd::string::StringExecFns;
use crate::recorder::{VideoRecorder, valid_stream, recording_filename};
use crate::virtual_camera::{VirtualCamera, valid_frame_size};

verus! {

/// Errors of a dual recording session.
pub enum DualRecorderError {
    CameraError(String),
    RecorderError(String),
}

/// Where the two streams of a session come from.
pub enum CameraSource {
    /// Two capture devices, left and right, by index.
    Real(u32, u32),
    /// Two synthetic cameras, ids 0 and 1.
    Virtual,
    /// One device and one synthetic camera; not supported.
    Mixed(u32, bool),
}

/// Frame width of a dual session.
pub const SESSION_WIDTH: u32 = 640;

/// Frame height of a dual session.
pub const SESSION_HEIGHT: u32 = 480;

/// What a started session runs: which camera feeds each side, whether they
/// are synthetic, and its rate, length and frame size.
#[derive(PartialEq, Eq, Structural, Clone, Copy, Debug)]
pub struct RecordingSession {
    /// Number of the session among those this recorder has started.
    pub id: u64,
    pub left_id: u32,
    pub right_id: u32,
    pub synthetic: bool,
    pub fps: u32,
    pub duration_secs: u64,
    pub width: u32,
    pub height: u32,
}

/// The recorder's shared state as the contracts see it.
pub struct DualView {
    pub running: bool,
    /// Number of the latest session started.
    pub session: u64,
    pub left: Option<Seq<u8>>,
    pub right: Option<Seq<u8>>,
}

/// A start is refused while a session runs, for the unsupported mixed
/// source, and for a zero frame rate.
pub open spec fn start_refused(v: DualView, source: CameraSource, fps: u32) -> bool {
    v.running || source is Mixed || fps == 0
}

pub open spec fn after_start(v: DualView, source: CameraSource, fps: u32) -> DualView {
    if start_refused(v, source, fps) {
        v
    } else {
        DualView { running: true, session: next_session(v.session), ..v }
    }
}

/// The number given to the session after `n`.
pub open spec fn next_session(n: u64) -> u64 {
    if n < u64::MAX {
        (n + 1) as u64
    } else {
        n
    }
}

/// The session that an accepted start runs, numbered `id`.
pub open spec fn session_for(source: CameraSource, fps: u32, duration_secs: u64, id: u64) -> RecordingSession {
    let (left_id, right_id, synthetic) = match source {
        CameraSource::Real(a, b) => (a, b, false),
        _ => (0u32, 1u32, true),
    };
    RecordingSession {
        id,
        left_id,
        right_id,
        synthetic,
        fps,
        duration_secs,
        width: SESSION_WIDTH,
        height: SESSION_HEIGHT,
    }
}

/// The end of session `id` clears the running flag only while that session
/// is the latest one.
pub open spec fn after_finish(v: DualView, id: u64) -> DualView {
    if v.session == id {
        after_stop(v)
    } else {
        v
    }
}

/// A session goes on while the running flag is set and fewer than
/// `duration_secs` whole seconds have passed.
pub open spec fn session_continues(s: RecordingSession, running: bool, elapsed_ms: u64) -> bool {
    running && (elapsed_ms as int) / 1000 < s.duration_secs as int
}

pub open spec fn after_stop(v: DualView) -> DualView {
    DualView { running: false, ..v }
}

/// While one session runs, a second start is refused and leaves the state
/// as the first start made it.
pub proof fn lemma_one_session_at_a_time(
    v: DualView,
    first: CameraSource,
    first_fps: u32,
    second: CameraSource,
    second_fps: u32,
)
    requires
        !start_refused(v, first, first_fps),
    ensures
        start_refused(after_start(v, first, first_fps), second, second_fps),
        after_start(after_start(v, first, first_fps), second, second_fps) == after_start(
            v,
            first,
            first_fps,
        ),
{
}

/// After a stop, a running session ends at its next check, whatever the time.
pub proof fn lemma_stop_ends_session(v: DualView, s: RecordingSession, elapsed_ms: u64)
    ensures
        !after_stop(v).running,
        !session_continues(s, after_stop(v).running, elapsed_ms),
{
}

impl RecordingSession {
    /// Whether the capture loop takes another tick.
    pub fn should_continue(&self, running: bool, elapsed_ms: u64) -> (r: bool)
        ensures
            r == session_continues(*self, running, elapsed_ms),
    {
        running && elapsed_ms / 1000 < self.duration_secs
    }

    /// Milliseconds between two ticks.
    pub fn frame_delay_ms(&self) -> (r: u64)
        requires
            self.fps > 0,
        ensures
            r == 1000int / (self.fps as int),
    {
        1000 / (self.fps as u64)
    }

    /// The two encoders of the session, left then right, for its cameras,
    /// frame size and rate.
    pub fn make_encoders(&self) -> (r: (VideoRecorder, VideoRecorder))
        requires
            self.fps > 0,
            self.width == SESSION_WIDTH,
            self.height == SESSION_HEIGHT,
        ensures
            r.0.wf(),
            r.1.wf(),
            r.0.spec_camera_id() == self.left_id,
            r.1.spec_camera_id() == self.right_id,
            r.0.spec_fps() == self.fps && r.1.spec_fps() == self.fps,
            r.0.spec_width() == self.width && r.1.spec_width() == self.width,
            r.0.spec_height() == self.height && r.1.spec_height() == self.height,
            r.0.spec_frame_count() == 0 && r.1.spec_frame_count() == 0,
            exists|stamp: Seq<char>| r.0.spec_filename() == recording_filename(self.left_id, stamp),
            exists|stamp: Seq<char>|
                r.1.spec_filename() == recording_filename(self.right_id, stamp),
    {
        assert(valid_stream(self.width, self.height, self.fps));
        let left = VideoRecorder::new(self.left_id, self.width, self.height, self.fps);
        let right = VideoRecorder::new(self.right_id, self.width, self.height, self.fps);
        (left, right)
    }

    /// The two synthetic cameras of the session, left then right.
    pub fn make_virtual_cameras(&self) -> (r: (VirtualCamera, VirtualCamera))
        requires
            self.fps > 0,
            self.width == SESSION_WIDTH,
            self.height == SESSION_HEIGHT,
        ensures
            r.0.wf() && r.1.wf(),
            r.0.spec_id() == self.left_id && r.1.spec_id() == self.right_id,
            r.0.spec_fps() == self.fps && r.1.spec_fps() == self.fps,
            r.0.spec_width() == self.width && r.1.spec_width() == self.width,
            r.0.spec_height() == self.height && r.1.spec_height() == self.height,
    {
        assert(valid_frame_size(self.width, self.height));
        (
            VirtualCamera::new(self.left_id, self.width, self.height, self.fps),
            VirtualCamera::new(self.right_id, self.width, self.height, self.fps),
        )
    }
}

/// The state that a dual recording shares with its readers: whether a
/// session runs, and the newest frame of each side.
pub struct DualCameraRecorder {
    running: bool,
    session: u64,
    left_frames: Option<Vec<u8>>,
    right_frames: Option<Vec<u8>>,
}

pub open spec fn frame_view(f: Option<Vec<u8>>) -> Option<Seq<u8>> {
    match f {
        Some(v) => Some(v@),
        None => None,
    }
}

fn copy_frame(f: &Option<Vec<u8>>) -> (r: Option<Vec<u8>>)
    ensures
        frame_view(r) == frame_view(*f),
{
    match f {
        Some(v) => {
            let c = v.clone();
            assert(c@ =~= v@);
            Some(c)
        },
        None => None,
    }
}

impl View for DualCameraRecorder {
    type V = DualView;

    closed spec fn view(&self) -> DualView {
        DualView {
            running: self.running,
            session: self.session,
            left: frame_view(self.left_frames),
            right: frame_view(self.right_frames),
        }
    }
}

impl DualCameraRecorder {
    /// No session, no frames.
    pub fn new() -> (r: Self)
        ensures
            r@ == (DualView { running: false, session: 0, left: None, right: None }),
    {
        DualCameraRecorder { running: false, session: 0, left_frames: None, right_frames: None }
    }

    /// Starts a session of `duration_secs` seconds at `fps` frames per second
    /// from `source`. It is refused with a recorder error while a session
    /// runs, for a mixed source, and for a zero rate; the state is then left
    /// as it was. Otherwise the session is marked running and described.
    pub fn start_recording(&mut self, source: &CameraSource, fps: u32, duration_secs: u64) -> (r:
        Result<RecordingSession, DualRecorderError>)
        ensures
            final(self)@ == after_start(old(self)@, *source, fps),
            r is Err <==> start_refused(old(self)@, *source, fps),
            r is Err ==> (r matches Err(DualRecorderError::RecorderError(_))),
            r matches Ok(s) ==> s == session_for(*source, fps, duration_secs, final(self)@.session),
    {
        if self.running {
            return Err(
                DualRecorderError::RecorderError(String::from_str("Aufnahme läuft bereits")),
            );
        }
        let (left_id, right_id, synthetic) = match source {
            CameraSource::Real(a, b) => (*a, *b, false),
            CameraSource::Virtual => (0u32, 1u32, true),
            CameraSource::Mixed(_, _) => {
                return Err(
                    DualRecorderError::RecorderError(
                        String::from_str("Mixed mode noch nicht implementiert"),
                    ),
                );
            },
        };
        if fps == 0 {
            return Err(
                DualRecorderError::RecorderError(String::from_str("Bildrate muss positiv sein")),
            );
        }
        self.running = true;
        self.session = self.session.saturating_add(1);
        Ok(
            RecordingSession {
                id: self.session,
                left_id,
                right_id,
                synthetic,
                fps,
                duration_secs,
                width: SESSION_WIDTH,
                height: SESSION_HEIGHT,
            },
        )
    }

    /// Clears the running flag; the session ends at its next check.
    pub fn stop_recording(&mut self)
        ensures
            final(self)@ == after_stop(old(self)@),
    {
        self.running = false;
    }

    /// Marks session `id` as ended, unless a newer session has started.
    pub fn finish_session(&mut self, id: u64)
        ensures
            final(self)@ == after_finish(old(self)@, id),
    {
        if self.session == id {
            self.running = false;
        }
    }

    pub fn is_recording(&self) -> (r: bool)
        ensures
            r == self@.running,
    {
        self.running
    }

    /// The newest left frame, if any was published.
    pub fn get_left_frame(&self) -> (r: Option<Vec<u8>>)
        ensures
            frame_view(r) == self@.left,
    {
        copy_frame(&self.left_frames)
    }

    /// The newest right frame, if any was published.
    pub fn get_right_frame(&self) -> (r: Option<Vec<u8>>)
        ensures
            frame_view(r) == self@.right,
    {
        copy_frame(&self.right_frames)
    }

    /// Makes `frame` the newest left frame.
    pub fn publish_left(&mut self, frame: Vec<u8>)
        ensures
            final(self)@ == (DualView { left: Some(frame@), ..old(self)@ }),
    {
        self.left_frames = Some(frame);
    }

    /// Makes `frame` the newest right frame.
    pub fn publish_right(&mut self, frame: Vec<u8>)
        ensures
            final(self)@ == (DualView { right: Some(frame@), ..old(self)@ }),
    {
        self.right_frames = Some(frame);
    }
}

} // verus!
