use vstd::prelude::*;
use vstd::arithmetic::div_mod::lemma_fundamental_div_mod_converse;
use crate::clock::elapsed_millis;

verus! {

/// Errors of a synthetic camera. Generation itself never fails.
pub enum VirtualCameraError {
    CreationError,
    FrameError,
}

/// The gray level of every pixel outside the moving bar.
pub const BACKGROUND_LEVEL: u8 = 50;

/// Width in pixels of the coloured part of each bar period.
pub const BAR_WIDTH: u32 = 10;

/// Horizontal scroll of the pattern after `elapsed_ms` milliseconds: fifty
/// pixels per second, wrapped at the frame width.
pub open spec fn bar_offset(width: u32, elapsed_ms: u64) -> int {
    ((elapsed_ms as int) / 20) % (width as int)
}

/// Byte `i` of a frame of the test pattern: pixel `i / 3`, channel `i % 3`.
/// A pixel lies on a bar when `(x + offset) mod (width / 4)` is below the bar
/// width; bars are red, green or blue after `id mod 3`, the rest is gray.
pub open spec fn pattern_byte(id: u32, width: u32, offset: int, i: int) -> u8 {
    let x = (i / 3) % (width as int);
    let channel = i % 3;
    if (x + offset) % ((width / 4) as int) < BAR_WIDTH as int {
        if channel == (id % 3) as int {
            255u8
        } else {
            0u8
        }
    } else {
        BACKGROUND_LEVEL
    }
}

/// The whole frame: `width * height` pixels, row-major, three bytes each.
pub open spec fn pattern_frame(id: u32, width: u32, height: u32, elapsed_ms: u64) -> Seq<u8> {
    Seq::new(
        (width as nat) * (height as nat) * 3,
        |i: int| pattern_byte(id, width, bar_offset(width, elapsed_ms), i),
    )
}

/// Two frames drawn for the same camera, size and time are the same bytes.
pub proof fn lemma_pattern_deterministic(
    id: u32,
    width: u32,
    height: u32,
    elapsed_ms: u64,
    a: Seq<u8>,
    b: Seq<u8>,
)
    requires
        a == pattern_frame(id, width, height, elapsed_ms),
        b == pattern_frame(id, width, height, elapsed_ms),
    ensures
        a == b,
        a.len() == (width as int) * (height as int) * 3,
{
}

/// Sizes for which a pattern frame can be made: a bar period of at least one
/// pixel, and a byte count that fits in 32 bits.
pub open spec fn valid_frame_size(width: u32, height: u32) -> bool {
    &&& width >= 4
    &&& (width as int) * (height as int) * 3 <= u32::MAX as int
}

proof fn lemma_pixel_index(width: int, y: int, x: int, c: int)
    requires
        width > 0,
        0 <= x < width,
        0 <= y,
        0 <= c < 3,
    ensures
        ((y * width + x) * 3 + c) / 3 == y * width + x,
        ((y * width + x) * 3 + c) % 3 == c,
        (y * width + x) % width == x,
{
    assert(y * width >= 0) by (nonlinear_arith)
        requires
            y >= 0,
            width > 0,
    ;
    lemma_fundamental_div_mod_converse((y * width + x) * 3 + c, 3, y * width + x, c);
    lemma_fundamental_div_mod_converse(y * width + x, width, y, x);
}

/// Whether a pattern frame of these sizes can be made.
pub fn is_valid_frame_size(width: u32, height: u32) -> (r: bool)
    ensures
        r == valid_frame_size(width, height),
{
    assert((width as int) * (height as int) * 3 <= u128::MAX) by (nonlinear_arith)
        requires
            width <= u32::MAX,
            height <= u32::MAX,
    ;
    assert(0 <= (width as int) * (height as int)) by (nonlinear_arith);
    width >= 4 && (width as u128) * (height as u128) * 3 <= u32::MAX as u128
}

/// Renders the moving-bar test pattern for camera `id` at `elapsed_ms`
/// milliseconds after the camera started.
pub fn render_pattern(id: u32, width: u32, height: u32, elapsed_ms: u64) -> (r: Vec<u8>)
    requires
        valid_frame_size(width, height),
    ensures
        r@ == pattern_frame(id, width, height, elapsed_ms),
        r@.len() == (width as int) * (height as int) * 3,
{
    let offset: u64 = (elapsed_ms / 20) % (width as u64);
    let period: u64 = (width / 4) as u64;
    let colour: u32 = id % 3;
    let ghost off = bar_offset(width, elapsed_ms);
    let mut frame: Vec<u8> = Vec::new();
    let mut y: u32 = 0;
    while y < height
        invariant
            valid_frame_size(width, height),
            offset as int == off,
            0 <= off < width as int,
            off == bar_offset(width, elapsed_ms),
            period as int == (width / 4) as int,
            colour as int == (id % 3) as int,
            y <= height,
            frame@.len() == (y as int) * (width as int) * 3,
            forall|i: int| 0 <= i < frame@.len() ==> frame@[i] == pattern_byte(id, width, off, i),
        decreases height - y,
    {
        let mut x: u32 = 0;
        while x < width
            invariant
                valid_frame_size(width, height),
                offset as int == off,
                0 <= off < width as int,
                period as int == (width / 4) as int,
                colour as int == (id % 3) as int,
                y < height,
                x <= width,
                frame@.len() == ((y as int) * (width as int) + x as int) * 3,
                forall|i: int|
                    0 <= i < frame@.len() ==> frame@[i] == pattern_byte(id, width, off, i),
            decreases width - x,
        {
            let on_bar = (x as u64 + offset) % period < BAR_WIDTH as u64;
            let (r, g, b) = if on_bar {
                if colour == 0 {
                    (255u8, 0u8, 0u8)
                } else if colour == 1 {
                    (0u8, 255u8, 0u8)
                } else {
                    (0u8, 0u8, 255u8)
                }
            } else {
                (BACKGROUND_LEVEL, BACKGROUND_LEVEL, BACKGROUND_LEVEL)
            };
            let ghost base = frame@.len() as int;
            proof {
                lemma_pixel_index(width as int, y as int, x as int, 0);
                lemma_pixel_index(width as int, y as int, x as int, 1);
                lemma_pixel_index(width as int, y as int, x as int, 2);
            }
            frame.push(r);
            frame.push(g);
            frame.push(b);
            assert(frame@[base] == pattern_byte(id, width, off, base));
            assert(frame@[base + 1] == pattern_byte(id, width, off, base + 1));
            assert(frame@[base + 2] == pattern_byte(id, width, off, base + 2));
            x = x + 1;
        }
        assert((y as int) * (width as int) + width as int == (y as int + 1) * (width as int))
            by (nonlinear_arith);
        assert((y as int + 1) * (width as int) * 3 <= (width as int) * (height as int) * 3)
            by (nonlinear_arith)
            requires
                y < height,
        ;
        y = y + 1;
    }
    assert((height as int) * (width as int) * 3 == (width as int) * (height as int) * 3)
        by (nonlinear_arith);
    assert(frame@ =~= pattern_frame(id, width, height, elapsed_ms));
    frame
}

/// A synthetic camera: draws the moving-bar pattern from the time since it
/// was created.
pub struct VirtualCamera {
    id: u32,
    width: u32,
    height: u32,
    fps: u32,
    start_time: std::time::Instant,
}

impl VirtualCamera {
    pub closed spec fn spec_id(&self) -> u32 {
        self.id
    }

    pub closed spec fn spec_width(&self) -> u32 {
        self.width
    }

    pub closed spec fn spec_height(&self) -> u32 {
        self.height
    }

    pub closed spec fn spec_fps(&self) -> u32 {
        self.fps
    }

    /// Frames of this camera can be drawn, and it can be paced.
    pub open spec fn wf(&self) -> bool {
        &&& valid_frame_size(self.spec_width(), self.spec_height())
        &&& self.spec_fps() > 0
    }

    /// Creates camera `id`; its clock starts now.
    pub fn new(id: u32, width: u32, height: u32, fps: u32) -> (r: Self)
        requires
            valid_frame_size(width, height),
            fps > 0,
        ensures
            r.spec_id() == id,
            r.spec_width() == width,
            r.spec_height() == height,
            r.spec_fps() == fps,
            r.wf(),
    {
        VirtualCamera { id, width, height, fps, start_time: std::time::Instant::now() }
    }

    /// The next frame: the pattern at the time elapsed since creation. It
    /// never fails, and it always holds `width * height * 3` bytes.
    pub fn get_frame(&self) -> (r: Result<Vec<u8>, VirtualCameraError>)
        requires
            self.wf(),
        ensures
            r is Ok,
            r->Ok_0@.len() == (self.spec_width() as int) * (self.spec_height() as int) * 3,
            exists|t: u64|
                r->Ok_0@ == #[trigger] pattern_frame(
                    self.spec_id(),
                    self.spec_width(),
                    self.spec_height(),
                    t,
                ),
    {
        let t = elapsed_millis(&self.start_time);
        let frame = render_pattern(self.id, self.width, self.height, t);
        assert(frame@ == pattern_frame(self.spec_id(), self.spec_width(), self.spec_height(), t));
        Ok(frame)
    }

    pub fn get_id(&self) -> (r: u32)
        ensures
            r == self.spec_id(),
    {
        self.id
    }

    pub fn get_resolution(&self) -> (r: (u32, u32))
        ensures
            r == (self.spec_width(), self.spec_height()),
    {
        (self.width, self.height)
    }

    pub fn get_fps(&self) -> (r: u32)
        ensures
            r == self.spec_fps(),
    {
        self.fps
    }

    /// Milliseconds to wait between two frames of this camera.
    pub fn frame_delay_ms(&self) -> (r: u64)
        requires
            self.wf(),
        ensures
            r == 1000int / (self.spec_fps() as int),
    {
        frame_delay_ms(self.fps)
    }
}

/// Milliseconds between two frames at `fps` frames per second.
pub fn frame_delay_ms(fps: u32) -> (r: u64)
    requires
        fps > 0,
    ensures
        r == 1000int / (fps as int),
{
    1000 / (fps as u64)
}

/// The two test cameras of a stereo simulation: ids 0 and 1, 640x480 at 30 fps.
pub fn create_virtual_cameras() -> (r: Vec<VirtualCamera>)
    ensures
        r@.len() == 2,
        forall|i: int|
            0 <= i < 2 ==> {
                &&& #[trigger] r@[i].spec_id() == i
                &&& r@[i].spec_width() == 640
                &&& r@[i].spec_height() == 480
                &&& r@[i].spec_fps() == 30
                &&& r@[i].wf()
            },
{
    let mut cams: Vec<VirtualCamera> = Vec::new();
    cams.push(VirtualCamera::new(0, 640, 480, 30));
    cams.push(VirtualCamera::new(1, 640, 480, 30));
    cams
}

} // verus!
