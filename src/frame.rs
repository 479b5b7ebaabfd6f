use vstd::prelude::*;
use vstd::arithmetic::div_mod::{lemma_fundamental_div_mod, lemma_fundamental_div_mod_converse};

verus! {

/// The byte at row `r`, column `c` of a buffer of rows `w` bytes long.
pub open spec fn cell(s: Seq<u8>, w: int, r: int, c: int) -> u8 {
    s[r * w + c]
}

/// Where the byte at index `i` comes from once the `h` rows of `w` bytes are reversed.
pub open spec fn flip_index(i: int, w: int, h: int) -> int {
    (h - 1 - i / w) * w + i % w
}

/// A buffer of `h` rows of `w` bytes with its rows in reverse order.
pub open spec fn flipped_rows(s: Seq<u8>, w: int, h: int) -> Seq<u8> {
    Seq::new(s.len(), |i: int| s[flip_index(i, w, h)])
}

proof fn lemma_cell_index(w: int, h: int, r: int, c: int)
    requires
        0 <= r < h,
        0 <= c < w,
    ensures
        0 <= r * w + c < w * h,
        (r * w + c) / w == r,
        (r * w + c) % w == c,
        r * w + w <= w * h,
{
    assert(0 <= r * w) by (nonlinear_arith)
        requires
            0 <= r,
            0 < w,
    ;
    assert(r * w + w <= w * h) by (nonlinear_arith)
        requires
            r + 1 <= h,
            0 < w,
    ;
    lemma_fundamental_div_mod_converse(r * w + c, w, r, c);
}

proof fn lemma_index_cell(w: int, h: int, i: int)
    requires
        0 < w,
        0 <= i < w * h,
    ensures
        0 <= i / w < h,
        0 <= i % w < w,
        i == (i / w) * w + i % w,
{
    lemma_fundamental_div_mod(i, w);
    assert(w * (i / w) == (i / w) * w) by (nonlinear_arith);
    assert(0 <= i % w < w) by {
        vstd::arithmetic::div_mod::lemma_mod_bound(i, w);
    }
    assert(0 <= i / w) by {
        vstd::arithmetic::div_mod::lemma_div_pos_is_pos(i, w);
    }
    if i / w >= h {
        assert((i / w) * w >= w * h) by (nonlinear_arith)
            requires
                i / w >= h,
                0 < w,
        ;
    }
}

/// Reverses the order of the `rows` rows of `row_bytes` bytes in `pixels`, in place, by
/// swapping each row with its mirror.
pub fn flip_rows(pixels: &mut Vec<u8>, row_bytes: usize, rows: usize)
    requires
        old(pixels)@.len() == row_bytes * rows,
    ensures
        final(pixels)@ == flipped_rows(old(pixels)@, row_bytes as int, rows as int),
{
    let ghost orig = pixels@;
    let ghost w = row_bytes as int;
    let ghost h = rows as int;
    let total = pixels.len();
    if row_bytes == 0 {
        assert(pixels@ =~= flipped_rows(orig, w, h));
        return;
    }
    let mut y: usize = 0;
    while y < rows / 2
        invariant
            0 < w,
            w == row_bytes,
            h == rows,
            orig.len() == w * h,
            orig.len() == total,
            pixels@.len() == orig.len(),
            y <= rows / 2,
            forall|r: int, c: int|
                0 <= r < h && 0 <= c < w ==> #[trigger] cell(pixels@, w, r, c) == (if r < y || r >= h - y {
                    cell(orig, w, h - 1 - r, c)
                } else {
                    cell(orig, w, r, c)
                }),
        decreases rows / 2 - y,
    {
        let bottom_row: usize = rows - 1 - y;
        proof {
            lemma_cell_index(w, h, y as int, 0);
            lemma_cell_index(w, h, bottom_row as int, 0);
        }
        let top: usize = y * row_bytes;
        let bottom: usize = bottom_row * row_bytes;
        let mut x: usize = 0;
        while x < row_bytes
            invariant
                0 < w,
                w == row_bytes,
                h == rows,
                orig.len() == w * h,
                orig.len() == total,
                pixels@.len() == orig.len(),
                y < rows / 2,
                bottom_row == h - 1 - y,
                top == y * w,
                bottom == bottom_row * w,
                top + w <= w * h,
                bottom + w <= w * h,
                x <= row_bytes,
                forall|r: int, c: int|
                    0 <= r < h && 0 <= c < w ==> #[trigger] cell(pixels@, w, r, c) == (if r < y || r
                        >= h - y || ((r == y || r == bottom_row) && c < x) {
                        cell(orig, w, h - 1 - r, c)
                    } else {
                        cell(orig, w, r, c)
                    }),
            decreases row_bytes - x,
        {
            let ghost before = pixels@;
            let a = pixels[top + x];
            let b = pixels[bottom + x];
            pixels.set(top + x, b);
            pixels.set(bottom + x, a);
            proof {
                lemma_cell_index(w, h, y as int, x as int);
                lemma_cell_index(w, h, bottom_row as int, x as int);
                assert forall|r: int, c: int| 0 <= r < h && 0 <= c < w implies #[trigger] cell(pixels@, w, r, c) == (if r < y || r
                    >= h - y || ((r == y || r == bottom_row) && c < x + 1) {
                    cell(orig, w, h - 1 - r, c)
                } else {
                    cell(orig, w, r, c)
                }) by {
                    lemma_cell_index(w, h, r, c);
                    if r * w + c != top + x && r * w + c != bottom + x {
                        assert(cell(pixels@, w, r, c) == cell(before, w, r, c));
                    }
                    assert(cell(before, w, y as int, x as int) == cell(orig, w, y as int, x as int));
                    assert(cell(before, w, bottom_row as int, x as int) == cell(orig, w, bottom_row as int, x as int));
                }
            }
            x = x + 1;
        }
        y = y + 1;
    }
    proof {
        assert forall|i: int| 0 <= i < pixels@.len() implies pixels@[i] == flipped_rows(orig, w, h)[i] by {
            lemma_index_cell(w, h, i);
            let r = i / w;
            let c = i % w;
            assert(cell(pixels@, w, r, c) == pixels@[i]);
            if !(r < y || r >= h - y) {
                assert(h - 1 - r == r);
            }
        }
        assert(pixels@ =~= flipped_rows(orig, w, h));
    }
}

/// Reversing the rows of a buffer twice gives the buffer back.
pub proof fn lemma_flip_rows_involution(s: Seq<u8>, w: int, h: int)
    requires
        0 <= w,
        0 <= h,
        s.len() == w * h,
    ensures
        flipped_rows(flipped_rows(s, w, h), w, h) == s,
{
    let once = flipped_rows(s, w, h);
    let twice = flipped_rows(once, w, h);
    if w > 0 {
        assert forall|i: int| 0 <= i < s.len() implies twice[i] == s[i] by {
            lemma_index_cell(w, h, i);
            let r = i / w;
            let c = i % w;
            let j = flip_index(i, w, h);
            lemma_cell_index(w, h, h - 1 - r, c);
            assert(j / w == h - 1 - r);
            assert(j % w == c);
            assert(flip_index(j, w, h) == r * w + c);
        }
    }
    assert(twice =~= s);
}

/// The read-back pixels of a capture are not `width * height` RGBA pixels.
#[derive(Debug)]
pub enum CaptureError {
    BufferSize { expected: u128, actual: usize },
}

/// Number of bytes of a tightly packed RGBA8 buffer of `width` by `height` pixels.
pub open spec fn rgba_len(width: u32, height: u32) -> int {
    4 * width * height
}

/// The length of the buffer that a read-back of `width` by `height` RGBA8 pixels fills,
/// where it fits in memory.
pub fn readback_len(width: u32, height: u32) -> (r: Option<usize>)
    ensures
        r matches Some(n) ==> n == rgba_len(width, height),
        r is None ==> rgba_len(width, height) > usize::MAX,
{
    assert(4 * (width as u128) * (height as u128) <= 4 * 0xffff_ffffu128 * 0xffff_ffffu128) by (nonlinear_arith);
    let n: u128 = 4 * (width as u128) * (height as u128);
    if n <= usize::MAX as u128 {
        Some(n as usize)
    } else {
        None
    }
}

/// Turns RGBA8 pixels read back bottom row first into the same image with its top row
/// first, ready to encode.
pub fn capture_image(pixels: Vec<u8>, width: u32, height: u32) -> (r: Result<Vec<u8>, CaptureError>)
    ensures
        r is Ok <==> pixels@.len() == rgba_len(width, height),
        r matches Ok(img) ==> img@ == flipped_rows(pixels@, 4 * width, height as int),
        r matches Err(CaptureError::BufferSize { expected, actual }) ==> expected == rgba_len(width, height) && actual == pixels@.len(),
{
    assert(4 * (width as u128) * (height as u128) <= 4 * 0xffff_ffffu128 * 0xffff_ffffu128) by (nonlinear_arith);
    let expected: u128 = 4 * (width as u128) * (height as u128);
    if pixels.len() as u128 != expected {
        return Err(CaptureError::BufferSize { expected, actual: pixels.len() });
    }
    let mut pixels = pixels;
    if height == 0 {
        assert(4 * width * height == 0) by (nonlinear_arith)
            requires
                height == 0,
        ;
        assert(pixels@ =~= flipped_rows(pixels@, 4 * width, height as int));
        return Ok(pixels);
    }
    assert((4 * width) * height == 4 * width * height) by (nonlinear_arith);
    assert(4 * width <= 4 * width * height) by (nonlinear_arith)
        requires
            height >= 1,
    ;
    flip_rows(&mut pixels, 4 * (width as usize), height as usize);
    Ok(pixels)
}

/// Where a frame is drawn and what becomes of it.
#[derive(Clone, Copy, Debug, PartialEq, Eq, Structural)]
pub enum OutputSink {
    /// Every frame is drawn to the window and presented, until the host stops.
    Screen,
    /// One frame is drawn offscreen, read back and exported.
    File,
}

/// Where a render loop stands: between frames, inside one, or finished after its capture.
#[derive(Clone, Copy, Debug, PartialEq, Eq, Structural)]
pub enum FramePhase {
    Idle,
    Drawing,
    Done,
}

/// The color target a frame is drawn into.
#[derive(Clone, Copy, Debug, PartialEq, Eq, Structural)]
pub enum FrameTarget {
    Surface,
    Offscreen,
}

/// What to do at the start of a frame.
pub enum FrameStart<H> {
    /// Delete `to_delete`, create `new_bindings` more buffer pairs, then draw to `target`.
    Draw { target: FrameTarget, to_delete: Vec<H>, new_bindings: usize },
    /// The one capture was made: nothing more is drawn.
    Finished,
}

/// What to do once a frame's draw calls are issued.
#[derive(Clone, Copy, Debug, PartialEq, Eq, Structural)]
pub enum FrameEnd {
    Present,
    Capture,
}

pub open spec fn target_of(sink: OutputSink) -> FrameTarget {
    match sink {
        OutputSink::Screen => FrameTarget::Surface,
        OutputSink::File => FrameTarget::Offscreen,
    }
}

/// The order of a render loop's frames: deletions before drawing, a buffer pool that only
/// grows, and at most one capture for the file sink.
pub struct FrameLoop {
    sink: OutputSink,
    phase: FramePhase,
    bindings: usize,
}

impl FrameLoop {
    pub closed spec fn spec_sink(&self) -> OutputSink {
        self.sink
    }

    pub closed spec fn spec_phase(&self) -> FramePhase {
        self.phase
    }

    /// Number of vertex and index buffer pairs created so far.
    pub closed spec fn spec_bindings(&self) -> nat {
        self.bindings as nat
    }

    pub fn new(sink: OutputSink) -> (r: FrameLoop)
        ensures
            r.spec_sink() == sink,
            r.spec_phase() == FramePhase::Idle,
            r.spec_bindings() == 0,
    {
        FrameLoop { sink, phase: FramePhase::Idle, bindings: 0 }
    }

    pub fn sink(&self) -> (r: OutputSink)
        ensures
            r == self.spec_sink(),
    {
        self.sink
    }

    pub fn phase(&self) -> (r: FramePhase)
        ensures
            r == self.spec_phase(),
    {
        self.phase
    }

    pub fn bindings(&self) -> (r: usize)
        ensures
            r == self.spec_bindings(),
    {
        self.bindings
    }

    /// Starts a frame of `renderables` meshes. Unless the capture was already made, this
    /// takes every handle queued for deletion and says how many buffer pairs to add so
    /// that each mesh has one.
    pub fn begin_frame<H>(&mut self, queue: &mut crate::texture::DeleteQueue<H>, renderables: usize) -> (r: FrameStart<H>)
        requires
            old(self).spec_phase() != FramePhase::Drawing,
        ensures
            final(self).spec_sink() == old(self).spec_sink(),
            final(self).spec_bindings() >= old(self).spec_bindings(),
            old(self).spec_phase() == FramePhase::Done ==> {
                &&& r is Finished
                &&& *final(self) == *old(self)
                &&& final(queue)@ == old(queue)@
            },
            old(self).spec_phase() == FramePhase::Idle ==> {
                &&& r matches FrameStart::Draw { target, to_delete, new_bindings } && {
                    &&& target == target_of(old(self).spec_sink())
                    &&& to_delete@ == old(queue)@
                    &&& new_bindings == (if renderables > old(self).spec_bindings() {
                        renderables - old(self).spec_bindings()
                    } else {
                        0
                    })
                }
                &&& final(queue)@ == Seq::<H>::empty()
                &&& final(self).spec_phase() == FramePhase::Drawing
                &&& final(self).spec_bindings() == (if renderables > old(self).spec_bindings() {
                    renderables as nat
                } else {
                    old(self).spec_bindings()
                })
            },
    {
        if self.phase == FramePhase::Done {
            return FrameStart::Finished;
        }
        let to_delete = queue.drain();
        let new_bindings: usize = if renderables > self.bindings {
            renderables - self.bindings
        } else {
            0
        };
        if renderables > self.bindings {
            self.bindings = renderables;
        }
        self.phase = FramePhase::Drawing;
        let target = match self.sink {
            OutputSink::Screen => FrameTarget::Surface,
            OutputSink::File => FrameTarget::Offscreen,
        };
        FrameStart::Draw { target, to_delete, new_bindings }
    }

    /// Ends the frame being drawn: the window presents it, the file sink captures it and
    /// draws no more.
    pub fn end_frame(&mut self) -> (r: FrameEnd)
        requires
            old(self).spec_phase() == FramePhase::Drawing,
        ensures
            final(self).spec_sink() == old(self).spec_sink(),
            final(self).spec_bindings() == old(self).spec_bindings(),
            old(self).spec_sink() == OutputSink::Screen ==> r == FrameEnd::Present && final(self).spec_phase() == FramePhase::Idle,
            old(self).spec_sink() == OutputSink::File ==> r == FrameEnd::Capture && final(self).spec_phase() == FramePhase::Done,
    {
        match self.sink {
            OutputSink::Screen => {
                self.phase = FramePhase::Idle;
                FrameEnd::Present
            },
            OutputSink::File => {
                self.phase = FramePhase::Done;
                FrameEnd::Capture
            },
        }
    }
}

} // verus!
