//! Mirroring a picture onto the keys: snapshots, how they are scaled down,
//! and the effect that copies the latest one into the grid.

use crate::effects::grid::{filled, grid};
use crate::effects::{Colour, Effect, EffectLayer};
use vstd::prelude::*;

verus! {

/// The largest width or height of a picture that is scaled.
pub const MAX_CAPTURE_SIDE: u32 = 0xFFFF;

/// A picture as plain values: `height` rows of `width` pixels, three bytes
/// each, red first.
pub struct SnapshotView {
    pub width: u32,
    pub height: u32,
    pub pixels: Seq<u8>,
}

/// Index of the item nearest to place `i` of `n`, among `len` items: places
/// and items are spread evenly and place `i` takes item `i * len / n`.
pub open spec fn nearest(i: int, n: int, len: int) -> int {
    (i * len) / n
}

impl SnapshotView {
    /// Whether there are as many bytes as the size asks for.
    pub open spec fn wf(self) -> bool {
        self.pixels.len() == self.width * self.height * 3
    }

    /// The pixel in column `x` of row `y`.
    pub open spec fn pixel(self, x: int, y: int) -> Colour {
        let at = (y * self.width + x) * 3;
        Colour { r: self.pixels[at], g: self.pixels[at + 1], b: self.pixels[at + 2] }
    }

    /// The picture sampled onto a grid of `rows` rows of `cols` cells: every
    /// cell takes the pixel nearest to its place.
    pub open spec fn sampled(self, cols: nat, rows: nat) -> Seq<Seq<Colour>> {
        Seq::new(
            rows,
            |y: int|
                Seq::new(
                    cols,
                    |x: int|
                        self.pixel(
                            nearest(x, cols as int, self.width as int),
                            nearest(y, rows as int, self.height as int),
                        ),
                ),
        )
    }
}

/// A picture ready to be mirrored.
#[derive(Debug)]
pub struct Snapshot {
    width: u32,
    height: u32,
    pixels: Vec<u8>,
}

impl View for Snapshot {
    type V = SnapshotView;

    closed spec fn view(&self) -> SnapshotView {
        SnapshotView { width: self.width, height: self.height, pixels: self.pixels@ }
    }
}

/// The bytes of the picture that `image` makes of `width` by `height` RGB
/// pixels when it scales them to fill `nwidth` by `nheight` with its triangle
/// filter.
pub uninterp spec fn resized_rgb(
    width: u32,
    height: u32,
    pixels: Seq<u8>,
    nwidth: u32,
    nheight: u32,
) -> Seq<u8>;

/// Whether a captured frame of this size can be scaled down to `nwidth` by
/// `nheight`: no side is zero, no side grows, no side is above
/// `MAX_CAPTURE_SIDE`, and the frame has three bytes for every pixel.
pub open spec fn scalable(width: u32, height: u32, len: nat, nwidth: u32, nheight: u32) -> bool {
    &&& 0 < nwidth <= width <= MAX_CAPTURE_SIDE
    &&& 0 < nheight <= height <= MAX_CAPTURE_SIDE
    &&& len == width * height * 3
}

/// Calls `image::DynamicImage::resize_to_fill` with `FilterType::Triangle` on
/// an 8-bit RGB image made of `pixels`, and hands back the bytes of the
/// result. Trusted: the result is what `image` computes from these five
/// values and nothing else, and it is exactly `nwidth` by `nheight` pixels,
/// because `resize_to_fill` scales to at least that size and crops to it.
/// The call is kept to pictures that shrink and whose sides fit in 16 bits:
/// there `image` allocates no more than the source takes and its float
/// weights cannot vanish.
#[verifier::external_body]
fn resize_to_fill(width: u32, height: u32, pixels: Vec<u8>, nwidth: u32, nheight: u32) -> (out:
    Vec<u8>)
    requires
        scalable(width, height, pixels@.len(), nwidth, nheight),
    ensures
        out@ == resized_rgb(width, height, pixels@, nwidth, nheight),
        out@.len() == nwidth * nheight * 3,
{
    let source = image::RgbImage::from_raw(width, height, pixels).unwrap();
    let scaled = image::DynamicImage::ImageRgb8(source).resize_to_fill(
        nwidth,
        nheight,
        image::imageops::FilterType::Triangle,
    );
    scaled.into_rgb8().into_raw()
}

proof fn lemma_pixel_in_bounds(width: int, height: int, x: int, y: int)
    requires
        0 <= x < width,
        0 <= y < height,
    ensures
        0 <= (y * width + x) * 3,
        (y * width + x) * 3 + 2 < width * height * 3,
{
    assert(y * width + x < height * width) by (nonlinear_arith)
        requires
            0 <= x < width,
            0 <= y < height,
    ;
    assert(0 <= y * width) by (nonlinear_arith)
        requires
            0 <= y,
            0 <= width,
    ;
    assert(height * width == width * height) by (nonlinear_arith);
}

proof fn lemma_nearest_in_bounds(i: int, n: int, len: int)
    requires
        0 <= i < n,
        0 <= len,
    ensures
        0 <= i * len,
        0 <= nearest(i, n, len),
        len > 0 ==> nearest(i, n, len) < len,
        i * len <= n * len,
{
    assert(0 <= i * len && i * len <= n * len) by (nonlinear_arith)
        requires
            0 <= i < n,
            0 <= len,
    ;
    if len > 0 {
        assert((i * len) / n < len) by (nonlinear_arith)
            requires
                0 <= i < n,
                0 < len,
        ;
    }
    assert(0 <= (i * len) / n) by (nonlinear_arith)
        requires
            0 <= i * len,
            0 < n,
    ;
}

/// Index of the item nearest to place `i` of `n`, among `len` items.
fn nearest_index(i: usize, n: usize, len: u32) -> (at: u32)
    requires
        i < n,
    ensures
        at == nearest(i as int, n as int, len as int),
        len > 0 ==> at < len,
{
    proof {
        lemma_nearest_in_bounds(i as int, n as int, len as int);
        assert(n * len <= 0xFFFF_FFFF_FFFF_FFFF * 0xFFFF_FFFF) by (nonlinear_arith)
            requires
                0 <= n <= 0xFFFF_FFFF_FFFF_FFFF,
                0 <= len <= 0xFFFF_FFFF,
        ;
    }
    let wide: u128 = (i as u128) * (len as u128);
    let at: u128 = wide / (n as u128);
    at as u32
}

/// Number of bytes that `width` by `height` RGB pixels take.
fn byte_count(width: u32, height: u32) -> (n: u128)
    ensures
        n == width * height * 3,
{
    assert(width * height <= 0xFFFF_FFFF * 0xFFFF_FFFF) by (nonlinear_arith)
        requires
            0 <= width <= 0xFFFF_FFFF,
            0 <= height <= 0xFFFF_FFFF,
    ;
    (width as u128) * (height as u128) * 3
}

impl Clone for Snapshot {
    fn clone(&self) -> (copy: Self)
        ensures
            copy@ == self@,
    {
        proof {
            use_type_invariant(self);
        }
        Snapshot { width: self.width, height: self.height, pixels: self.pixels.clone() }
    }
}

impl Snapshot {
    #[verifier::type_invariant]
    spec fn valid(self) -> bool {
        self.pixels@.len() == self.width * self.height * 3
    }

    /// A picture of `width` by `height` pixels out of its bytes; none unless
    /// there are exactly three bytes for every pixel.
    pub fn new(width: u32, height: u32, pixels: Vec<u8>) -> (snapshot: Option<Snapshot>)
        ensures
            match snapshot {
                Some(s) => s@ == (SnapshotView { width, height, pixels: pixels@ }) && s@.wf(),
                None => pixels@.len() != width * height * 3,
            },
    {
        if pixels.len() as u128 == byte_count(width, height) {
            Some(Snapshot { width, height, pixels })
        } else {
            None
        }
    }

    /// A captured frame of `width` by `height` pixels, scaled down to fill
    /// `nwidth` by `nheight`; none where the frame is not `scalable`.
    pub fn from_capture(width: u32, height: u32, pixels: Vec<u8>, nwidth: u32, nheight: u32) -> (snapshot:
        Option<Snapshot>)
        ensures
            match snapshot {
                Some(s) => scalable(width, height, pixels@.len(), nwidth, nheight) && s@ == (
                SnapshotView {
                    width: nwidth,
                    height: nheight,
                    pixels: resized_rgb(width, height, pixels@, nwidth, nheight),
                }) && s@.wf(),
                None => !scalable(width, height, pixels@.len(), nwidth, nheight),
            },
    {
        if nwidth == 0 || nwidth > width || width > MAX_CAPTURE_SIDE {
            return None;
        }
        if nheight == 0 || nheight > height || height > MAX_CAPTURE_SIDE {
            return None;
        }
        if pixels.len() as u128 != byte_count(width, height) {
            return None;
        }
        let scaled = resize_to_fill(width, height, pixels, nwidth, nheight);
        Snapshot::new(nwidth, nheight, scaled)
    }

    pub fn width(&self) -> (w: u32)
        ensures
            w == self@.width,
    {
        self.width
    }

    pub fn height(&self) -> (h: u32)
        ensures
            h == self@.height,
    {
        self.height
    }

    /// The pixel in column `x` of row `y`; none outside the picture.
    pub fn pixel(&self, x: u32, y: u32) -> (p: Option<Colour>)
        ensures
            p == (if x < self@.width && y < self@.height {
                Some(self@.pixel(x as int, y as int))
            } else {
                None
            }),
    {
        if x >= self.width || y >= self.height {
            return None;
        }
        proof {
            use_type_invariant(self);
            lemma_pixel_in_bounds(self.width as int, self.height as int, x as int, y as int);
            assert(y * self.width <= 0xFFFF_FFFF * 0xFFFF_FFFF) by (nonlinear_arith)
                requires
                    0 <= y <= 0xFFFF_FFFF,
                    0 <= self.width <= 0xFFFF_FFFF,
            ;
        }
        let cell: u128 = (y as u128) * (self.width as u128) + (x as u128);
        let len: usize = self.pixels.len();
        assert(cell * 3 + 2 < len);
        let at: usize = (cell * 3) as usize;
        Some(Colour::new_colour(self.pixels[at], self.pixels[at + 1], self.pixels[at + 2]))
    }
}

/// A capture effect as plain values.
pub struct CaptureView {
    /// Whether the next tick copies the latest snapshot.
    pub run: bool,
    /// The snapshot published last, if any was.
    pub latest: Option<SnapshotView>,
    /// Size of the frames that are captured.
    pub capture_width: u32,
    pub capture_height: u32,
    /// Size that the frames are scaled to.
    pub width: u32,
    pub height: u32,
}

impl CaptureView {
    /// Whether the next tick paints: it is a copying tick, and a snapshot
    /// with at least one pixel is there.
    pub open spec fn paints(self) -> bool {
        self.run && (self.latest matches Some(s) && s.width > 0 && s.height > 0)
    }

    /// The working cells after a tick on a grid of `rows` rows of `cols`
    /// cells.
    pub open spec fn paint(self, g: Seq<Seq<Colour>>, cols: nat, rows: nat) -> Seq<Seq<Colour>> {
        if self.paints() {
            self.latest->0.sampled(cols, rows)
        } else {
            g
        }
    }

    /// The effect after a tick: copying ticks and idle ticks take turns.
    pub open spec fn tick(self) -> CaptureView {
        CaptureView { run: !self.run, ..self }
    }
}

/// Mirrors what was captured: every other tick the latest snapshot is copied
/// onto the keys. The snapshots come from outside, through `publish`; only
/// the newest is kept.
#[derive(Debug)]
pub struct CaptureDisplayEffect {
    run: bool,
    latest: Option<Snapshot>,
    capture_width: u32,
    capture_height: u32,
    width: u32,
    height: u32,
}

impl View for CaptureDisplayEffect {
    type V = CaptureView;

    closed spec fn view(&self) -> CaptureView {
        CaptureView {
            run: self.run,
            latest: match self.latest {
                Some(s) => Some(s@),
                None => None,
            },
            capture_width: self.capture_width,
            capture_height: self.capture_height,
            width: self.width,
            height: self.height,
        }
    }
}

impl Clone for CaptureDisplayEffect {
    fn clone(&self) -> (copy: Self)
        ensures
            copy@ == self@,
    {
        CaptureDisplayEffect {
            run: self.run,
            latest: match &self.latest {
                Some(s) => Some(s.clone()),
                None => None,
            },
            capture_width: self.capture_width,
            capture_height: self.capture_height,
            width: self.width,
            height: self.height,
        }
    }
}

impl CaptureDisplayEffect {
    /// An effect that mirrors onto `x` by `y` keys what a capturer of the
    /// given frame size delivers; none where there is no capturer, that is
    /// no frame size.
    pub fn new(x: u32, y: u32, geometry: Option<(u32, u32)>) -> (effect: Option<Self>)
        ensures
            match effect {
                Some(e) => geometry == Some((e@.capture_width, e@.capture_height)) && e@ == (
                CaptureView { run: true, latest: None, width: x, height: y, ..e@ }),
                None => geometry is None,
            },
    {
        match geometry {
            Some((capture_width, capture_height)) => Some(
                CaptureDisplayEffect {
                    run: true,
                    latest: None,
                    capture_width,
                    capture_height,
                    width: x,
                    height: y,
                },
            ),
            None => None,
        }
    }

    /// Size of the frames that are captured: width, then height.
    pub fn capture_size(&self) -> (size: (u32, u32))
        ensures
            size == (self@.capture_width, self@.capture_height),
    {
        (self.capture_width, self.capture_height)
    }

    /// Size that the frames are scaled to: width, then height.
    pub fn target_size(&self) -> (size: (u32, u32))
        ensures
            size == (self@.width, self@.height),
    {
        (self.width, self.height)
    }

    /// Makes `snapshot` the latest one. The one before is dropped, read or
    /// not.
    pub fn publish(&mut self, snapshot: Snapshot)
        ensures
            final(self)@ == (CaptureView { latest: Some(snapshot@), ..old(self)@ }),
    {
        self.latest = Some(snapshot);
    }
}

/// The cells that sampling `snapshot` onto `X` by `Y` keys gives.
fn sample_cells<const X: usize, const Y: usize>(snapshot: &Snapshot) -> (cells: [[Colour; X]; Y])
    requires
        snapshot@.width > 0,
        snapshot@.height > 0,
    ensures
        grid(cells) == snapshot@.sampled(X as nat, Y as nat),
{
    let width = snapshot.width();
    let height = snapshot.height();
    let blank = [Colour::new(); X];
    let mut cells = [blank; Y];
    let mut y: usize = 0;
    while y < Y
        invariant
            y <= Y,
            width == snapshot@.width,
            height == snapshot@.height,
            width > 0,
            height > 0,
            forall|j: int, i: int|
                0 <= j < y && 0 <= i < X ==> cells@[j]@[i] == snapshot@.pixel(
                    nearest(i, X as int, width as int),
                    nearest(j, Y as int, height as int),
                ),
        decreases Y - y,
    {
        let from_row = nearest_index(y, Y, height);
        let mut x: usize = 0;
        while x < X
            invariant
                x <= X,
                y < Y,
                width == snapshot@.width,
                height == snapshot@.height,
                width > 0,
                height > 0,
                from_row == nearest(y as int, Y as int, height as int),
                from_row < height,
                forall|j: int, i: int|
                    0 <= j < y && 0 <= i < X ==> cells@[j]@[i] == snapshot@.pixel(
                        nearest(i, X as int, width as int),
                        nearest(j, Y as int, height as int),
                    ),
                forall|i: int|
                    0 <= i < x ==> cells@[y as int]@[i] == snapshot@.pixel(
                        nearest(i, X as int, width as int),
                        nearest(y as int, Y as int, height as int),
                    ),
            decreases X - x,
        {
            let from_column = nearest_index(x, X, width);
            match snapshot.pixel(from_column, from_row) {
                Some(colour) => {
                    cells[y][x] = colour;
                },
                None => {},
            }
            x += 1;
        }
        y += 1;
    }
    assert(grid(cells) =~~= snapshot@.sampled(X as nat, Y as nat));
    cells
}

impl<const X: usize, const Y: usize> Effect<X, Y> for CaptureDisplayEffect {
    /// Paints every working cell black.
    fn init(&mut self, layer: &mut EffectLayer<X, Y>)
        ensures
            final(self)@ == old(self)@,
            final(layer)@ == old(layer)@.with_working(filled(X as nat, Y as nat, Colour::black())),
    {
        layer.clear_matrix();
    }

    /// On a copying tick, samples the latest snapshot onto the working
    /// cells, if there is one; on an idle tick, and without a snapshot,
    /// leaves them. Never waits for a snapshot.
    fn update(&mut self, matrix: &mut EffectLayer<X, Y>)
        ensures
            final(self)@ == old(self)@.tick(),
            final(matrix)@ == old(matrix)@.with_working(
                old(self)@.paint(old(matrix)@.working, X as nat, Y as nat),
            ),
    {
        if !self.run {
            self.run = true;
            return ;
        }
        match &self.latest {
            Some(snapshot) => {
                if snapshot.width() > 0 && snapshot.height() > 0 {
                    matrix.set_matrix(sample_cells(snapshot));
                }
            },
            None => {},
        }
        self.run = false;
    }
}

} // verus!
