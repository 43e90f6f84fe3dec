use vstd::prelude::*;
use vstd::string::StringExecFns;
use crate::clock::elapsed_millis;
use crate::text::{decimal, push_decimal};

verus! {

broadcast use vstd::string::group_string_axioms;

/// Errors of a stream encoder.
pub enum RecorderError {
    GStreamerError(String),
    PipelineError(String),
    WriteError(String),
    MetadataError(String),
    IOError(String),
}

/// What a finished recording reports about itself.
pub struct RecordingMetadata {
    pub camera_id: u32,
    /// Local time of completion, RFC 3339.
    pub timestamp: String,
    /// Wall time from the encoder's creation to its completion.
    pub duration_ms: u64,
    pub fps: u32,
    pub width: u32,
    pub height: u32,
    /// Name of the media file, without directory.
    pub filename: String,
}

/// One frame ready for the encoder: its pixels and its presentation time.
pub struct EncodedFrame {
    pub data: Vec<u8>,
    /// Presentation timestamp in nanoseconds.
    pub pts_ns: u64,
}

/// Nanoseconds in one second.
pub const NANOS_PER_SEC: u64 = 1_000_000_000;

/// The largest frame index whose presentation time, in nanoseconds, fits in
/// 64 bits.
pub const MAX_FRAME_INDEX: u64 = 18_446_744_073;

/// Name of the media file of camera `id` begun at local time `stamp`
/// (`YYYYMMDD_HHMMSS`): `camera_<id>__<stamp>.mp4`.
pub open spec fn recording_filename(id: u32, stamp: Seq<char>) -> Seq<char> {
    "camera_"@ + decimal(id as nat) + "__"@ + stamp + ".mp4"@
}

/// Presentation time of frame `index` at `fps` frames per second, in whole
/// nanoseconds.
pub open spec fn frame_pts(index: u64, fps: u32) -> int {
    (index as int) * (NANOS_PER_SEC as int) / (fps as int)
}

/// Bytes in one raw RGB frame.
pub open spec fn frame_bytes(width: u32, height: u32) -> int {
    (width as int) * (height as int) * 3
}

/// Sizes and rates an encoder accepts: a positive frame rate, and a frame
/// whose byte count fits in 32 bits.
pub open spec fn valid_stream(width: u32, height: u32, fps: u32) -> bool {
    &&& fps > 0
    &&& frame_bytes(width, height) <= u32::MAX as int
}

/// Whether an encoder can be made for these sizes and rate.
pub fn is_valid_stream(width: u32, height: u32, fps: u32) -> (r: bool)
    ensures
        r == valid_stream(width, height, fps),
{
    assert((width as int) * (height as int) * 3 <= u128::MAX) by (nonlinear_arith)
        requires
            width <= u32::MAX,
            height <= u32::MAX,
    ;
    assert(0 <= (width as int) * (height as int)) by (nonlinear_arith);
    fps > 0 && (width as u128) * (height as u128) * 3 <= u32::MAX as u128
}

/// Relies on chrono's `Local::now` and `DateTime::format`: the local time
/// now, written after `fmt`. The one format the library passes is valid, so
/// the formatting cannot fail. Nothing is known of the value.
#[verifier::external_body]
fn local_time_formatted(fmt: &str) -> (r: String)
    requires
        fmt@ == "%Y%m%d_%H%M%S"@,
{
    chrono::Local::now().format(fmt).to_string()
}

/// Relies on chrono's `Local::now` and `DateTime::to_rfc3339`: the local time
/// now in RFC 3339. Nothing is known of the value.
#[verifier::external_body]
fn local_rfc3339() -> (r: String) {
    chrono::Local::now().to_rfc3339()
}

/// Builds the media file name of camera `id` for a timestamp.
pub fn make_recording_filename(id: u32, stamp: &str) -> (r: String)
    ensures
        r@ == recording_filename(id, stamp@),
{
    let mut name = String::from_str("camera_");
    push_decimal(&mut name, id as u64);
    name.append("__");
    name.append(stamp);
    name.append(".mp4");
    name
}

/// The encoding side of one recorded stream: it numbers the frames, times
/// them at the configured rate, and knows the file that they go to. It is
/// consumed by `finalize`, so nothing can be written after that.
pub struct VideoRecorder {
    camera_id: u32,
    width: u32,
    height: u32,
    fps: u32,
    frame_count: u64,
    filename: String,
    start_time: std::time::Instant,
}

impl VideoRecorder {
    pub closed spec fn spec_camera_id(&self) -> u32 {
        self.camera_id
    }

    pub closed spec fn spec_width(&self) -> u32 {
        self.width
    }

    pub closed spec fn spec_height(&self) -> u32 {
        self.height
    }

    pub closed spec fn spec_fps(&self) -> u32 {
        self.fps
    }

    /// How many frames have been accepted.
    pub closed spec fn spec_frame_count(&self) -> u64 {
        self.frame_count
    }

    pub closed spec fn spec_filename(&self) -> Seq<char> {
        self.filename@
    }

    pub open spec fn wf(&self) -> bool {
        valid_stream(self.spec_width(), self.spec_height(), self.spec_fps())
    }

    /// An encoder for camera `camera_id` whose file is named after `stamp`.
    pub fn with_timestamp(camera_id: u32, width: u32, height: u32, fps: u32, stamp: &str) -> (r:
        Self)
        requires
            valid_stream(width, height, fps),
        ensures
            r.wf(),
            r.spec_camera_id() == camera_id,
            r.spec_width() == width,
            r.spec_height() == height,
            r.spec_fps() == fps,
            r.spec_frame_count() == 0,
            r.spec_filename() == recording_filename(camera_id, stamp@),
    {
        let filename = make_recording_filename(camera_id, stamp);
        VideoRecorder {
            camera_id,
            width,
            height,
            fps,
            frame_count: 0,
            filename,
            start_time: std::time::Instant::now(),
        }
    }

    /// An encoder for camera `camera_id`, whose file is named after the local
    /// time now.
    pub fn new(camera_id: u32, width: u32, height: u32, fps: u32) -> (r: Self)
        requires
            valid_stream(width, height, fps),
        ensures
            r.wf(),
            r.spec_camera_id() == camera_id,
            r.spec_width() == width,
            r.spec_height() == height,
            r.spec_fps() == fps,
            r.spec_frame_count() == 0,
            exists|stamp: Seq<char>| r.spec_filename() == recording_filename(camera_id, stamp),
    {
        let stamp = local_time_formatted("%Y%m%d_%H%M%S");
        let r = Self::with_timestamp(camera_id, width, height, fps, stamp.as_str());
        assert(r.spec_filename() == recording_filename(camera_id, stamp@));
        r
    }

    /// Takes one raw frame. A frame shorter than `width * height * 3` bytes
    /// is refused and nothing changes. Otherwise its first `width * height * 3`
    /// bytes are stamped with time `index / fps` seconds, and the index moves
    /// on by one.
    pub fn write_frame(&mut self, frame_data: &[u8]) -> (r: Result<EncodedFrame, RecorderError>)
        requires
            old(self).wf(),
            old(self).spec_frame_count() <= MAX_FRAME_INDEX,
        ensures
            final(self).wf(),
            final(self).spec_camera_id() == old(self).spec_camera_id(),
            final(self).spec_width() == old(self).spec_width(),
            final(self).spec_height() == old(self).spec_height(),
            final(self).spec_fps() == old(self).spec_fps(),
            final(self).spec_filename() == old(self).spec_filename(),
            frame_data@.len() < frame_bytes(old(self).spec_width(), old(self).spec_height()) <==> r
                is Err,
            r is Err ==> (r matches Err(RecorderError::WriteError(_))),
            r is Err ==> *final(self) == *old(self),
            r matches Ok(f) ==> {
                &&& f.data@ == frame_data@.subrange(
                    0,
                    frame_bytes(old(self).spec_width(), old(self).spec_height()),
                )
                &&& f.pts_ns == frame_pts(old(self).spec_frame_count(), old(self).spec_fps())
                &&& final(self).spec_frame_count() == old(self).spec_frame_count() + 1
            },
    {
        let size: usize = (self.width as usize) * (self.height as usize) * 3;
        if frame_data.len() < size {
            let mut msg = String::from_str("Frame zu klein: ");
            push_decimal(&mut msg, frame_data.len() as u64);
            msg.append(" < ");
            push_decimal(&mut msg, size as u64);
            return Err(RecorderError::WriteError(msg));
        }
        let mut data: Vec<u8> = Vec::new();
        let mut i: usize = 0;
        while i < size
            invariant
                size <= frame_data@.len(),
                i <= size,
                data@ == frame_data@.subrange(0, i as int),
            decreases size - i,
        {
            data.push(frame_data[i]);
            i = i + 1;
            assert(data@ =~= frame_data@.subrange(0, i as int));
        }
        assert(self.frame_count * NANOS_PER_SEC <= u64::MAX) by (nonlinear_arith)
            requires
                self.frame_count <= MAX_FRAME_INDEX,
        ;
        let pts_ns = self.frame_count * NANOS_PER_SEC / (self.fps as u64);
        self.frame_count = self.frame_count + 1;
        Ok(EncodedFrame { data, pts_ns })
    }

    /// Closes the stream: the record of camera, rate, size and file name,
    /// with `elapsed_ms` as its duration and `timestamp` as its time.
    pub fn finalize_at(self, elapsed_ms: u64, timestamp: String) -> (r: RecordingMetadata)
        ensures
            r.camera_id == self.spec_camera_id(),
            r.timestamp@ == timestamp@,
            r.duration_ms == elapsed_ms,
            r.fps == self.spec_fps(),
            r.width == self.spec_width(),
            r.height == self.spec_height(),
            r.filename@ == self.spec_filename(),
    {
        RecordingMetadata {
            camera_id: self.camera_id,
            timestamp,
            duration_ms: elapsed_ms,
            fps: self.fps,
            width: self.width,
            height: self.height,
            filename: self.filename,
        }
    }

    /// Wall time since the encoder was created, in whole milliseconds.
    pub fn elapsed_ms(&self) -> u64 {
        elapsed_millis(&self.start_time)
    }

    /// Closes the stream with `elapsed_ms` as its duration; the timestamp is
    /// the local time now.
    pub fn finalize_after(self, elapsed_ms: u64) -> (r: RecordingMetadata)
        ensures
            r.camera_id == self.spec_camera_id(),
            r.duration_ms == elapsed_ms,
            r.fps == self.spec_fps(),
            r.width == self.spec_width(),
            r.height == self.spec_height(),
            r.filename@ == self.spec_filename(),
    {
        let timestamp = local_rfc3339();
        self.finalize_at(elapsed_ms, timestamp)
    }

    /// Closes the stream now: the duration is the wall time since creation,
    /// the timestamp the local time.
    pub fn finalize(self) -> (r: RecordingMetadata)
        ensures
            r.camera_id == self.spec_camera_id(),
            r.fps == self.spec_fps(),
            r.width == self.spec_width(),
            r.height == self.spec_height(),
            r.filename@ == self.spec_filename(),
    {
        let elapsed = self.elapsed_ms();
        self.finalize_after(elapsed)
    }

    pub fn get_camera_id(&self) -> (r: u32)
        ensures
            r == self.spec_camera_id(),
    {
        self.camera_id
    }

    pub fn get_resolution(&self) -> (r: (u32, u32))
        ensures
            r == (self.spec_width(), self.spec_height()),
    {
        (self.width, self.height)
    }

    pub fn get_fps(&self) -> (r: u32)
        ensures
            r == self.spec_fps(),
    {
        self.fps
    }

    pub fn get_frame_count(&self) -> (r: u64)
        ensures
            r == self.spec_frame_count(),
    {
        self.frame_count
    }

    pub fn get_filename(&self) -> (r: &String)
        ensures
            r@ == self.spec_filename(),
    {
        &self.filename
    }
}

} // verus!
