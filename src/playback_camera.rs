use vstd::prelude::*;
use vstd::string::StrSliceExecFns;
use vstd::string::StringExecFns;
use crate::text::{decimal, push_decimal, sort_texts, sorted_texts, texts_of};

verus! {

broadcast use vstd::string::group_string_axioms;

/// Errors of a file-backed camera.
pub enum PlaybackCameraError {
    OpenError(String),
    ReadError(String),
    GStreamerError(String),
}

/// What a playback camera does with one pull from its decoder.
pub enum PlaybackStep {
    /// Hand this frame to the caller.
    Frame(Vec<u8>),
    /// Seek the decoder to the first frame and pull once more.
    Rewind,
    /// Report this error to the caller.
    Fail(PlaybackCameraError),
}

/// The shape of a step, for reasoning about sequences of calls.
pub enum StepKind {
    Frame,
    Rewind,
    Fail,
}

/// The state of a playback camera as the contracts see it.
pub struct PlaybackView {
    pub camera_id: u32,
    pub video_path: Seq<char>,
    pub loop_playback: bool,
    /// Size of the decoded frames, in pixels.
    pub width: u32,
    pub height: u32,
    /// Frames in the stored stream.
    pub frame_count: u64,
    /// Frames delivered since the start or the last rewind.
    pub current_frame: u64,
    /// End of stream was met without looping.
    pub ended: bool,
}

/// Whether a camera in state `v` has no more frames to give.
pub open spec fn finished(v: PlaybackView) -> bool {
    v.ended || v.current_frame >= v.frame_count
}

/// A decoded frame of exactly `width * height * 3` bytes.
pub open spec fn frame_fits(v: PlaybackView, f: Seq<u8>) -> bool {
    f.len() == (v.width as int) * (v.height as int) * 3
}

/// What a pull from the decoder brought, as the contracts see it.
pub open spec fn sample_view(s: Option<Vec<u8>>) -> Option<Seq<u8>> {
    match s {
        Some(f) => Some(f@),
        None => None,
    }
}

/// The kind of step taken when a pull brought a frame (`Some`) or met the
/// end of the stream (`None`); `after_rewind` tells a pull that follows a
/// rewind. A frame of the wrong size is an error.
pub open spec fn step_kind(v: PlaybackView, pulled: Option<Seq<u8>>, after_rewind: bool) -> StepKind {
    if v.ended {
        StepKind::Fail
    } else if pulled is Some {
        if frame_fits(v, pulled->Some_0) {
            StepKind::Frame
        } else {
            StepKind::Fail
        }
    } else if v.loop_playback && !after_rewind {
        StepKind::Rewind
    } else {
        StepKind::Fail
    }
}

/// The state after that step.
pub open spec fn after_step(v: PlaybackView, pulled: Option<Seq<u8>>, after_rewind: bool) -> PlaybackView {
    if v.ended {
        v
    } else if pulled is Some && !frame_fits(v, pulled->Some_0) {
        v
    } else if pulled is Some {
        PlaybackView {
            current_frame: if v.current_frame < u64::MAX {
                (v.current_frame + 1) as u64
            } else {
                v.current_frame
            },
            ..v
        }
    } else if v.loop_playback && !after_rewind {
        PlaybackView { current_frame: 0, ..v }
    } else if v.loop_playback {
        v
    } else {
        PlaybackView { ended: true, ..v }
    }
}

/// A decoder over the stored frames `frames`, placed at `pos`: the frame
/// there, or nothing at the end.
pub open spec fn model_pull(frames: Seq<Seq<u8>>, pos: int) -> Option<Seq<u8>> {
    if 0 <= pos < frames.len() {
        Some(frames[pos])
    } else {
        None
    }
}

/// One call for the next frame against that decoder, whose position follows
/// the camera's frame counter: a pull, and after a rewind one more pull from
/// the start. The result is the state after the call and the frame handed
/// out, or `None` for an error.
pub open spec fn model_call(v: PlaybackView, frames: Seq<Seq<u8>>) -> (PlaybackView, Option<
    Seq<u8>,
>) {
    let first = model_pull(frames, v.current_frame as int);
    let v1 = after_step(v, first, false);
    match step_kind(v, first, false) {
        StepKind::Frame => (v1, first),
        StepKind::Rewind => {
            let second = model_pull(frames, 0);
            let v2 = after_step(v1, second, true);
            match step_kind(v1, second, true) {
                StepKind::Frame => (v2, second),
                _ => (v2, None),
            }
        },
        StepKind::Fail => (v1, None),
    }
}

/// `n` calls in a row: the final state and what each call gave.
pub open spec fn model_calls(v: PlaybackView, frames: Seq<Seq<u8>>, n: nat) -> (PlaybackView, Seq<
    Option<Seq<u8>>,
>)
    decreases n,
{
    if n == 0 {
        (v, Seq::empty())
    } else {
        let (v1, outs) = model_calls(v, frames, (n - 1) as nat);
        let (v2, out) = model_call(v1, frames);
        (v2, outs.push(out))
    }
}

proof fn lemma_calls_within_stream(v: PlaybackView, frames: Seq<Seq<u8>>, n: nat)
    requires
        v.current_frame == 0,
        !v.ended,
        n <= frames.len(),
        frames.len() < u64::MAX,
        forall|i: int| 0 <= i < frames.len() ==> frame_fits(v, #[trigger] frames[i]),
    ensures
        model_calls(v, frames, n).0 == (PlaybackView { current_frame: n as u64, ..v }),
        model_calls(v, frames, n).1.len() == n,
        forall|i: int| 0 <= i < n ==> model_calls(v, frames, n).1[i] == Some(frames[i]),
    decreases n,
{
    if n > 0 {
        lemma_calls_within_stream(v, frames, (n - 1) as nat);
    }
}

/// With looping on, a stored stream of `K > 0` frames of the camera's size
/// gives `K + 1` frames
/// in `K + 1` calls from the start, and the last of them is the first frame
/// again.
pub proof fn lemma_looping_playback(v: PlaybackView, frames: Seq<Seq<u8>>)
    requires
        v.loop_playback,
        v.current_frame == 0,
        !v.ended,
        frames.len() > 0,
        frames.len() < u64::MAX,
        forall|i: int| 0 <= i < frames.len() ==> frame_fits(v, #[trigger] frames[i]),
    ensures
        ({
            let outs = model_calls(v, frames, (frames.len() + 1) as nat).1;
            &&& outs.len() == frames.len() + 1
            &&& forall|i: int| 0 <= i < frames.len() ==> outs[i] == Some(frames[i])
            &&& outs[frames.len() as int] == Some(frames[0])
            &&& outs[frames.len() as int] == outs[0]
        }),
{
    lemma_calls_within_stream(v, frames, frames.len() as nat);
}

/// Without looping, a stored stream of `K` frames of the camera's size gives `K` frames in the
/// first `K` calls and an error at call `K + 1`; the camera reports itself
/// finished exactly from call `K` on.
pub proof fn lemma_single_pass_playback(v: PlaybackView, frames: Seq<Seq<u8>>)
    requires
        !v.loop_playback,
        v.current_frame == 0,
        !v.ended,
        v.frame_count == frames.len(),
        frames.len() < u64::MAX,
        forall|i: int| 0 <= i < frames.len() ==> frame_fits(v, #[trigger] frames[i]),
    ensures
        ({
            let outs = model_calls(v, frames, (frames.len() + 1) as nat).1;
            &&& outs.len() == frames.len() + 1
            &&& forall|i: int| 0 <= i < frames.len() ==> outs[i] == Some(frames[i])
            &&& outs[frames.len() as int] is None
        }),
        forall|n: nat|
            n <= frames.len() + 1 ==> (finished(#[trigger] model_calls(v, frames, n).0) <==> n
                >= frames.len()),
{
    lemma_calls_within_stream(v, frames, frames.len() as nat);
    assert forall|n: nat| n <= frames.len() + 1 implies (finished(
        #[trigger] model_calls(v, frames, n).0,
    ) <==> n >= frames.len()) by {
        if n <= frames.len() {
            lemma_calls_within_stream(v, frames, n);
        }
    }
}

/// A camera that replays a stored file. The decoder itself lives with the
/// caller; this value decides, pull by pull, what the caller is told.
pub struct PlaybackCamera {
    camera_id: u32,
    video_path: String,
    loop_playback: bool,
    width: u32,
    height: u32,
    frame_count: u64,
    current_frame: u64,
    ended: bool,
}

impl View for PlaybackCamera {
    type V = PlaybackView;

    closed spec fn view(&self) -> PlaybackView {
        PlaybackView {
            camera_id: self.camera_id,
            video_path: self.video_path@,
            loop_playback: self.loop_playback,
            width: self.width,
            height: self.height,
            frame_count: self.frame_count,
            current_frame: self.current_frame,
            ended: self.ended,
        }
    }
}

/// Whether `len` bytes make one frame of `width` by `height` pixels.
pub fn fits_frame(len: usize, width: u32, height: u32) -> (r: bool)
    ensures
        r == (len as int == (width as int) * (height as int) * 3),
{
    assert((width as int) * (height as int) * 3 <= u128::MAX) by (nonlinear_arith)
        requires
            width <= u32::MAX,
            height <= u32::MAX,
    ;
    assert(0 <= (width as int) * (height as int)) by (nonlinear_arith);
    len as u128 == (width as u128) * (height as u128) * 3
}

/// Frames in a stream of `duration_ns` nanoseconds at `num / den` frames per
/// second, in whole frames, held at `u64::MAX`.
pub open spec fn frames_in(duration_ns: u64, num: u32, den: u32) -> int {
    let f = (duration_ns as int) * (num as int) / ((den as int) * 1_000_000_000);
    if f > u64::MAX as int {
        u64::MAX as int
    } else {
        f
    }
}

/// The number of frames in a stream of the given length and frame rate.
pub fn frames_in_duration(duration_ns: u64, num: u32, den: u32) -> (r: u64)
    requires
        den > 0,
    ensures
        r as int == frames_in(duration_ns, num, den),
{
    assert((duration_ns as int) * (num as int) <= u128::MAX) by (nonlinear_arith)
        requires
            duration_ns <= u64::MAX,
            num <= u32::MAX,
    ;
    assert(0 <= (duration_ns as int) * (num as int)) by (nonlinear_arith);
    let total: u128 = (duration_ns as u128) * (num as u128);
    let per: u128 = (den as u128) * 1_000_000_000;
    let f: u128 = total / per;
    if f > u64::MAX as u128 {
        u64::MAX
    } else {
        f as u64
    }
}

/// Frame rate assumed for stored recordings.
pub const DEFAULT_PLAYBACK_FPS: u32 = 30;

impl PlaybackCamera {
    /// A camera over the file `video_path`, which holds `frame_count` frames
    /// of `width` by `height` pixels, placed at its first frame.
    pub fn new(
        camera_id: u32,
        video_path: &str,
        loop_playback: bool,
        frame_count: u64,
        width: u32,
        height: u32,
    ) -> (r: Self)
        ensures
            r@ == (PlaybackView {
                camera_id,
                video_path: video_path@,
                loop_playback,
                width,
                height,
                frame_count,
                current_frame: 0,
                ended: false,
            }),
    {
        PlaybackCamera {
            camera_id,
            video_path: String::from_str(video_path),
            loop_playback,
            width,
            height,
            frame_count,
            current_frame: 0,
            ended: false,
        }
    }

    /// Decides what one pull from the decoder means: `sample` is the frame
    /// it gave, or `None` at the end of the stream or on a stall;
    /// `after_rewind` tells the pull that follows a rewind. A frame of the
    /// camera's size is passed on and counted; one of another size is a read
    /// error and changes nothing. At the end a looping camera asks for one rewind, and
    /// fails if the stream is empty from the start as well; a single-pass
    /// camera fails and stays finished.
    pub fn on_sample(&mut self, sample: Option<Vec<u8>>, after_rewind: bool) -> (r: PlaybackStep)
        ensures
            final(self)@ == after_step(old(self)@, sample_view(sample), after_rewind),
            match step_kind(old(self)@, sample_view(sample), after_rewind) {
                StepKind::Frame => r matches PlaybackStep::Frame(f) && f@ == sample->Some_0@,
                StepKind::Rewind => r is Rewind,
                StepKind::Fail => r matches PlaybackStep::Fail(PlaybackCameraError::ReadError(_)),
            },
    {
        if self.ended {
            return PlaybackStep::Fail(
                PlaybackCameraError::ReadError(String::from_str("Ende des Videos erreicht")),
            );
        }
        match sample {
            Some(data) => {
                if !fits_frame(data.len(), self.width, self.height) {
                    return PlaybackStep::Fail(
                        PlaybackCameraError::ReadError(String::from_str("Falsche Frame-Größe")),
                    );
                }
                self.current_frame = self.current_frame.saturating_add(1);
                PlaybackStep::Frame(data)
            },
            None => {
                if self.loop_playback && !after_rewind {
                    self.current_frame = 0;
                    PlaybackStep::Rewind
                } else if self.loop_playback {
                    PlaybackStep::Fail(
                        PlaybackCameraError::ReadError(
                            String::from_str("Kein Frame nach dem Zurückspulen"),
                        ),
                    )
                } else {
                    self.ended = true;
                    PlaybackStep::Fail(
                        PlaybackCameraError::ReadError(String::from_str("Ende des Videos erreicht")),
                    )
                }
            },
        }
    }

    /// Back to the first frame, after the decoder has been sought there.
    pub fn reset(&mut self)
        ensures
            final(self)@ == (PlaybackView { current_frame: 0, ended: false, ..old(self)@ }),
    {
        self.current_frame = 0;
        self.ended = false;
    }

    pub fn get_camera_id(&self) -> (r: u32)
        ensures
            r == self@.camera_id,
    {
        self.camera_id
    }

    pub fn get_fps(&self) -> (r: u32)
        ensures
            r == DEFAULT_PLAYBACK_FPS,
    {
        DEFAULT_PLAYBACK_FPS
    }

    pub fn get_frame_count(&self) -> (r: u64)
        ensures
            r == self@.frame_count,
    {
        self.frame_count
    }

    pub fn get_current_frame(&self) -> (r: u64)
        ensures
            r == self@.current_frame,
    {
        self.current_frame
    }

    pub fn is_finished(&self) -> (r: bool)
        ensures
            r == finished(self@),
    {
        self.ended || self.current_frame >= self.frame_count
    }

    pub fn get_video_path(&self) -> (r: &str)
        ensures
            r@ == self@.video_path,
    {
        self.video_path.as_str()
    }
}

/// The last component of a path: what follows its last `/`.
pub open spec fn base_name(p: Seq<char>) -> Seq<char>
    decreases p.len(),
{
    if p.len() == 0 {
        p
    } else if p.last() == '/' {
        Seq::empty()
    } else {
        base_name(p.drop_last()).push(p.last())
    }
}

/// The file name part of `path`.
pub fn file_name_of(path: &str) -> (r: &str)
    ensures
        r@ == base_name(path@),
{
    let n = path.unicode_len();
    let mut j = n;
    assert(path@.subrange(0, n as int) =~= path@);
    assert(base_name(path@) =~= base_name(path@.subrange(0, n as int)) + path@.subrange(
        n as int,
        n as int,
    ));
    while j > 0 && path.get_char(j - 1) != '/'
        invariant
            n == path@.len(),
            j <= n,
            base_name(path@) == base_name(path@.subrange(0, j as int)) + path@.subrange(
                j as int,
                n as int,
            ),
        decreases j,
    {
        let ghost pre = path@.subrange(0, j as int);
        assert(pre.drop_last() =~= path@.subrange(0, j - 1));
        assert(path@.subrange(j - 1, n as int) =~= seq![pre.last()] + path@.subrange(
            j as int,
            n as int,
        ));
        assert(base_name(pre) == base_name(pre.drop_last()).push(pre.last()));
        assert(base_name(pre.drop_last()).push(pre.last()) + path@.subrange(j as int, n as int)
            =~= base_name(pre.drop_last()) + path@.subrange(j - 1, n as int));
        j = j - 1;
    }
    assert(base_name(path@.subrange(0, j as int)) =~= Seq::<char>::empty());
    assert(base_name(path@) =~= path@.subrange(j as int, n as int));
    path.substring_char(j, n)
}

/// Whether `name` ends in `.` and then `ext`, with something before the dot.
pub open spec fn has_extension(name: Seq<char>, ext: Seq<char>) -> bool {
    &&& name.len() >= ext.len() + 2
    &&& name[name.len() - ext.len() - 1] == '.'
    &&& name.subrange(name.len() - ext.len(), name.len() as int) == ext
}

/// A stored recording: an `mp4`, `avi` or `mkv` file.
pub open spec fn is_recording_name(name: Seq<char>) -> bool {
    has_extension(name, "mp4"@) || has_extension(name, "avi"@) || has_extension(name, "mkv"@)
}

fn has_extension_exec(name: &str, n: usize, ext: &str) -> (r: bool)
    requires
        n == name@.len(),
    ensures
        r == has_extension(name@, ext@),
{
    let m = ext.unicode_len();
    if m > n || n - m < 2 {
        return false;
    }
    if name.get_char(n - m - 1) != '.' {
        return false;
    }
    let ok = crate::text::occurs_at_exec(name, n, ext, m, n - m);
    proof {
        if ok {
            assert(name@.subrange(n - m, n as int) == ext@);
        } else {
            assert(!crate::text::occurs_at(name@, ext@, n - m));
        }
    }
    ok
}

/// Whether `name` is that of a stored recording.
pub fn is_recording_file(name: &str) -> (r: bool)
    ensures
        r == is_recording_name(name@),
{
    let n = name.unicode_len();
    has_extension_exec(name, n, "mp4") || has_extension_exec(name, n, "avi")
        || has_extension_exec(name, n, "mkv")
}

pub open spec fn names_of(v: Seq<String>) -> Seq<Seq<char>> {
    v.map_values(|s: String| s@)
}

/// The names among `names` that are recordings, in their order.
pub fn filter_recordings(names: &Vec<String>) -> (r: Vec<String>)
    ensures
        names_of(r@) == names_of(names@).filter(|n: Seq<char>| is_recording_name(n)),
{
    let ghost pred = |n: Seq<char>| is_recording_name(n);
    let mut out: Vec<String> = Vec::new();
    let mut i: usize = 0;
    while i < names.len()
        invariant
            i <= names@.len(),
            pred == (|n: Seq<char>| is_recording_name(n)),
            names_of(out@) == names_of(names@).subrange(0, i as int).filter(pred),
        decreases names@.len() - i,
    {
        let ghost all = names_of(names@);
        let ghost sub = all.subrange(0, i + 1);
        let ghost prev = names_of(out@);
        assert(sub.drop_last() =~= all.subrange(0, i as int));
        assert(sub.last() == names@[i as int]@);
        assert(sub.filter(pred) == (if pred(sub.last()) {
            sub.drop_last().filter(pred).push(sub.last())
        } else {
            sub.drop_last().filter(pred)
        })) by {
            reveal(Seq::filter);
        }
        assert(pred(sub.last()) == is_recording_name(names@[i as int]@));
        if is_recording_file(names[i].as_str()) {
            out.push(names[i].clone());
            assert(names_of(out@) =~= prev.push(names@[i as int]@));
        } else {
            assert(names_of(out@) == prev);
        }
        assert(names_of(out@) == sub.filter(pred));
        i = i + 1;
    }
    assert(names_of(names@).subrange(0, i as int) =~= names_of(names@));
    out
}

/// The recordings among the names of a directory, in ascending order.
pub fn recordings_in_listing(names: &Vec<String>) -> (r: Vec<String>)
    ensures
        sorted_texts(texts_of(r@)),
        texts_of(r@).to_multiset() == names_of(names@).filter(
            |n: Seq<char>| is_recording_name(n),
        ).to_multiset(),
{
    let found = filter_recordings(names);
    let r = sort_texts(found);
    assert(texts_of(found@) =~= names_of(found@));
    r
}

/// Which recordings back the two sides, from the sorted list of those found:
/// none is an error; one backs both sides; else the first two, left then
/// right.
pub open spec fn stereo_selection(recordings: Seq<Seq<char>>) -> Option<(Seq<char>, Seq<char>)> {
    if recordings.len() == 0 {
        None
    } else if recordings.len() == 1 {
        Some((recordings[0], recordings[0]))
    } else {
        Some((recordings[0], recordings[1]))
    }
}

/// Picks the left and right recordings from the sorted list of those found.
pub fn select_sources(recordings: &Vec<String>) -> (r: Result<(String, String), PlaybackCameraError>)
    ensures
        stereo_selection(names_of(recordings@)) is None <==> r is Err,
        r is Err ==> (r matches Err(PlaybackCameraError::OpenError(_))),
        r matches Ok(p) ==> stereo_selection(names_of(recordings@)) == Some((p.0@, p.1@)),
{
    if recordings.len() == 0 {
        return Err(
            PlaybackCameraError::OpenError(
                String::from_str("Keine Video-Dateien im Verzeichnis gefunden"),
            ),
        );
    }
    let left = recordings[0].clone();
    let right = if recordings.len() >= 2 {
        recordings[1].clone()
    } else {
        recordings[0].clone()
    };
    Ok((left, right))
}

/// The recordings that back the two sides, from the names found in a
/// directory: none found is an open error; else the names are sorted and the
/// first one or two are taken as the selection describes.
pub fn plan_stereo_sources(names: &Vec<String>) -> (r: Result<(String, String), PlaybackCameraError>)
    ensures
        ({
            let found = names_of(names@).filter(|n: Seq<char>| is_recording_name(n));
            &&& r is Err <==> found.len() == 0
            &&& r is Err ==> (r matches Err(PlaybackCameraError::OpenError(_)))
            &&& r matches Ok(p) ==> exists|l: Seq<Seq<char>>|
                #![trigger stereo_selection(l)]
                sorted_texts(l) && l.to_multiset() == found.to_multiset() && stereo_selection(l)
                    == Some((p.0@, p.1@))
        }),
{
    let list = recordings_in_listing(names);
    let ghost found = names_of(names@).filter(|n: Seq<char>| is_recording_name(n));
    proof {
        vstd::seq_lib::to_multiset_len(texts_of(list@));
        vstd::seq_lib::to_multiset_len(found);
        assert(names_of(list@) =~= texts_of(list@));
    }
    let r = select_sources(&list);
    proof {
        if r is Ok {
            let l = texts_of(list@);
            assert(stereo_selection(l) == Some((r->Ok_0.0@, r->Ok_0.1@)));
        }
    }
    r
}

/// Two playback cameras, left and right, each advancing on its own.
pub struct StereoPlaybackSystem {
    left_camera: Option<PlaybackCamera>,
    right_camera: Option<PlaybackCamera>,
}

pub open spec fn view_of(c: Option<PlaybackCamera>) -> Option<PlaybackView> {
    match c {
        Some(cam) => Some(cam@),
        None => None,
    }
}

/// The status line of one side.
pub open spec fn side_status(label: Seq<char>, cam: Option<PlaybackView>) -> Seq<char> {
    match cam {
        Some(v) => label + ": "@ + base_name(v.video_path) + " ("@ + decimal(
            v.current_frame as nat,
        ) + "/"@ + decimal(v.frame_count as nat) + ")"@,
        None => label + ": Nicht geladen"@,
    }
}

fn side_status_exec(label: &str, cam: &Option<PlaybackCamera>) -> (r: String)
    ensures
        r@ == side_status(label@, view_of(*cam)),
{
    let mut s = String::from_str(label);
    match cam {
        Some(c) => {
            s.append(": ");
            s.append(file_name_of(c.get_video_path()));
            s.append(" (");
            push_decimal(&mut s, c.get_current_frame());
            s.append("/");
            push_decimal(&mut s, c.get_frame_count());
            s.append(")");
        },
        None => {
            s.append(": Nicht geladen");
        },
    }
    s
}

/// Applies one pull to the camera of one side; a missing camera fails to open.
fn side_step(cam: &mut Option<PlaybackCamera>, sample: Option<Vec<u8>>, after_rewind: bool) -> (r:
    PlaybackStep)
    ensures
        *old(cam) is None ==> *final(cam) == *old(cam) && (r matches PlaybackStep::Fail(
            PlaybackCameraError::OpenError(_),
        )),
        *old(cam) matches Some(c) ==> {
            &&& *final(cam) is Some
            &&& final(cam)->Some_0@ == after_step(c@, sample_view(sample), after_rewind)
            &&& match step_kind(c@, sample_view(sample), after_rewind) {
                StepKind::Frame => r matches PlaybackStep::Frame(f) && f@ == sample->Some_0@,
                StepKind::Rewind => r is Rewind,
                StepKind::Fail => r matches PlaybackStep::Fail(
                    PlaybackCameraError::ReadError(_),
                ),
            }
        },
{
    match cam {
        Some(c) => c.on_sample(sample, after_rewind),
        None => PlaybackStep::Fail(
            PlaybackCameraError::OpenError(String::from_str("Kamera nicht geladen")),
        ),
    }
}

impl StereoPlaybackSystem {
    pub closed spec fn spec_left(&self) -> Option<PlaybackView> {
        view_of(self.left_camera)
    }

    pub closed spec fn spec_right(&self) -> Option<PlaybackView> {
        view_of(self.right_camera)
    }

    /// A system with neither side loaded.
    pub fn new() -> (r: Self)
        ensures
            r.spec_left() is None,
            r.spec_right() is None,
    {
        StereoPlaybackSystem { left_camera: None, right_camera: None }
    }

    pub fn set_left_camera(&mut self, cam: PlaybackCamera)
        ensures
            final(self).spec_left() == Some(cam@),
            final(self).spec_right() == old(self).spec_right(),
    {
        self.left_camera = Some(cam);
    }

    pub fn set_right_camera(&mut self, cam: PlaybackCamera)
        ensures
            final(self).spec_right() == Some(cam@),
            final(self).spec_left() == old(self).spec_left(),
    {
        self.right_camera = Some(cam);
    }

    pub fn get_left_camera(&self) -> (r: &Option<PlaybackCamera>)
        ensures
            view_of(*r) == self.spec_left(),
    {
        &self.left_camera
    }

    pub fn get_right_camera(&self) -> (r: &Option<PlaybackCamera>)
        ensures
            view_of(*r) == self.spec_right(),
    {
        &self.right_camera
    }

    /// One pull from the left decoder; the right side is untouched.
    pub fn left_step(&mut self, sample: Option<Vec<u8>>, after_rewind: bool) -> (r: PlaybackStep)
        ensures
            final(self).spec_right() == old(self).spec_right(),
            old(self).spec_left() is None ==> final(self).spec_left() is None && (r matches PlaybackStep::Fail(
                PlaybackCameraError::OpenError(_),
            )),
            old(self).spec_left() matches Some(v) ==> {
                &&& final(self).spec_left() == Some(after_step(v, sample_view(sample), after_rewind))
                &&& match step_kind(v, sample_view(sample), after_rewind) {
                    StepKind::Frame => r matches PlaybackStep::Frame(f) && f@ == sample->Some_0@,
                    StepKind::Rewind => r is Rewind,
                    StepKind::Fail => r matches PlaybackStep::Fail(
                        PlaybackCameraError::ReadError(_),
                    ),
                }
            },
    {
        side_step(&mut self.left_camera, sample, after_rewind)
    }

    /// One pull from the right decoder; the left side is untouched.
    pub fn right_step(&mut self, sample: Option<Vec<u8>>, after_rewind: bool) -> (r: PlaybackStep)
        ensures
            final(self).spec_left() == old(self).spec_left(),
            old(self).spec_right() is None ==> final(self).spec_right() is None && (r matches PlaybackStep::Fail(
                PlaybackCameraError::OpenError(_),
            )),
            old(self).spec_right() matches Some(v) ==> {
                &&& final(self).spec_right() == Some(after_step(v, sample_view(sample), after_rewind))
                &&& match step_kind(v, sample_view(sample), after_rewind) {
                    StepKind::Frame => r matches PlaybackStep::Frame(f) && f@ == sample->Some_0@,
                    StepKind::Rewind => r is Rewind,
                    StepKind::Fail => r matches PlaybackStep::Fail(
                        PlaybackCameraError::ReadError(_),
                    ),
                }
            },
    {
        side_step(&mut self.right_camera, sample, after_rewind)
    }

    /// Both loaded sides back to their first frame.
    pub fn reset(&mut self)
        ensures
            final(self).spec_left() == (match old(self).spec_left() {
                Some(v) => Some(PlaybackView { current_frame: 0, ended: false, ..v }),
                None => None,
            }),
            final(self).spec_right() == (match old(self).spec_right() {
                Some(v) => Some(PlaybackView { current_frame: 0, ended: false, ..v }),
                None => None,
            }),
    {
        if let Some(c) = &mut self.left_camera {
            c.reset();
        }
        if let Some(c) = &mut self.right_camera {
            c.reset();
        }
    }

    /// Two lines, left then right: each side's file name and its position
    /// out of its frame count, or that it is not loaded.
    pub fn get_status(&self) -> (r: String)
        ensures
            r@ == side_status("Links"@, self.spec_left()) + "\n"@ + side_status(
                "Rechts"@,
                self.spec_right(),
            ),
    {
        let mut s = side_status_exec("Links", &self.left_camera);
        s.append("\n");
        let right = side_status_exec("Rechts", &self.right_camera);
        s.append(right.as_str());
        s
    }
}

} // verus!
