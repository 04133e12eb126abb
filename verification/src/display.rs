use vstd::prelude::*;

verus! {

/// The mathematical content of a one-bit raster: its extent and, row by row,
/// its pixels.
#[verifier::ext_equal]
pub struct Raster {
    pub width: nat,
    pub height: nat,
    pub rows: Seq<Seq<bool>>,
}

impl Raster {
    /// The raster holds exactly `height` rows of `width` pixels.
    pub open spec fn wf(self) -> bool {
        &&& self.rows.len() == self.height
        &&& forall|y: int| 0 <= y < self.height ==> (#[trigger] self.rows[y]).len() == self.width
    }

    /// The pixel at column `x` of row `y`; unset outside the extent.
    pub open spec fn get(self, x: int, y: int) -> bool {
        if 0 <= y < self.height && 0 <= x < self.width {
            self.rows[y][x]
        } else {
            false
        }
    }

    /// The raster of the given extent whose pixel at `(x, y)` is `f(x, y)`.
    pub open spec fn from_fn(width: nat, height: nat, f: spec_fn(int, int) -> bool) -> Raster {
        Raster {
            width,
            height,
            rows: Seq::new(height, |y: int| Seq::new(width, |x: int| f(x, y))),
        }
    }

    /// The all-zero raster of the given extent.
    pub open spec fn blank(width: nat, height: nat) -> Raster {
        Raster::from_fn(width, height, |x: int, y: int| false)
    }

    /// This raster with the pixel at `(x, y)` replaced by `value`; unchanged
    /// where `(x, y)` lies outside the extent.
    pub open spec fn set(self, x: int, y: int, value: bool) -> Raster {
        Raster::from_fn(
            self.width,
            self.height,
            |a: int, b: int| if a == x && b == y { value } else { self.get(a, b) },
        )
    }

    /// Every pixel repeated `r` times along both axes.
    pub open spec fn scaled(self, r: nat) -> Raster {
        Raster::from_fn(
            self.width * r,
            self.height * r,
            |x: int, y: int| self.get(x / (r as int), y / (r as int)),
        )
    }

    /// The raster turned a quarter turn counter-clockwise.
    pub open spec fn rotated(self) -> Raster {
        Raster::from_fn(
            self.height,
            self.width,
            |x: int, y: int| self.get(self.width - 1 - y, x),
        )
    }

    /// This raster with `src` OR-ed onto it, the origin of `src` placed at
    /// `(px, py)` and whatever falls outside this raster dropped.
    pub open spec fn overlay_or(self, src: Raster, px: int, py: int) -> Raster {
        Raster::from_fn(
            self.width,
            self.height,
            |x: int, y: int| self.get(x, y) || (x >= px && y >= py && src.get(x - px, y - py)),
        )
    }
}

/// A one-bit raster. `width` runs along the tape and `height` across it.
#[derive(Debug)]
pub struct TapeDisplay {
    /// The pixels, one inner vector for each row from the top.
    pub framebuffer: Vec<Vec<bool>>,
    /// The number of pixels in a row.
    pub width: usize,
    /// The number of rows.
    pub height: usize,
}

impl TapeDisplay {
    /// The stored rows match the declared extent.
    pub open spec fn wf(&self) -> bool {
        &&& self.framebuffer@.len() == self.height
        &&& forall|y: int|
            0 <= y < self.height ==> (#[trigger] self.framebuffer@[y])@.len() == self.width
    }

    /// The stored pixel at column `x` of row `y`; unset where nothing is stored.
    pub open spec fn pixel(&self, x: int, y: int) -> bool {
        if 0 <= y < self.framebuffer@.len() && 0 <= x < self.framebuffer@[y]@.len() {
            self.framebuffer@[y]@[x]
        } else {
            false
        }
    }
}

impl View for TapeDisplay {
    type V = Raster;

    /// What the display shows within its declared extent.
    open spec fn view(&self) -> Raster {
        Raster::from_fn(
            self.width as nat,
            self.height as nat,
            |x: int, y: int| self.pixel(x, y),
        )
    }
}

impl TapeDisplay {
    /// Creates an all-zero raster of the given extent.
    pub fn new(width: usize, height: usize) -> (td: TapeDisplay)
        ensures
            td.wf(),
            td.width == width,
            td.height == height,
            td@ == Raster::blank(width as nat, height as nat),
    {
        let mut row: Vec<bool> = Vec::new();
        let mut x: usize = 0;
        while x < width
            invariant
                x <= width,
                row@.len() == x,
                forall|a: int| 0 <= a < x ==> !row@[a],
            decreases width - x,
        {
            row.push(false);
            x += 1;
        }
        let mut framebuffer: Vec<Vec<bool>> = Vec::new();
        let mut y: usize = 0;
        while y < height
            invariant
                y <= height,
                row@.len() == width,
                forall|a: int| 0 <= a < width ==> !row@[a],
                framebuffer@.len() == y,
                forall|b: int| 0 <= b < y ==> (#[trigger] framebuffer@[b])@ == row@,
            decreases height - y,
        {
            framebuffer.push(row.clone());
            y += 1;
        }
        let td = TapeDisplay { framebuffer, width, height };
        assert(td@ =~~= Raster::blank(width as nat, height as nat));
        td
    }

    /// Reads the pixel at `(x, y)`; positions outside the raster read as unset.
    pub fn get_pixel(&self, x: usize, y: usize) -> (v: bool)
        ensures
            v == self.pixel(x as int, y as int),
            self.wf() ==> v == self@.get(x as int, y as int),
    {
        if y < self.framebuffer.len() {
            let row = &self.framebuffer[y];
            if x < row.len() {
                return row[x];
            }
        }
        false
    }

    /// Writes the pixel at `(x, y)`; a position outside the raster is ignored.
    pub fn set_pixel(&mut self, x: usize, y: usize, value: bool)
        ensures
            final(self).width == old(self).width,
            final(self).height == old(self).height,
            old(self).wf() ==> final(self).wf(),
            forall|a: int, b: int|
                final(self).pixel(a, b) == if a == x && b == y && old(self).stores(a, b) {
                    value
                } else {
                    old(self).pixel(a, b)
                },
            forall|a: int, b: int| final(self).stores(a, b) == old(self).stores(a, b),
            old(self).wf() ==> final(self)@ == old(self)@.set(x as int, y as int, value),
    {
        if y < self.framebuffer.len() {
            let row = &mut self.framebuffer[y];
            if x < row.len() {
                row[x] = value;
            }
        }
        proof {
            if old(self).wf() {
                assert(final(self)@ =~~= old(self)@.set(x as int, y as int, value));
            }
        }
    }

    /// Writes the pixel at the signed position `(x, y)`, as a drawing routine
    /// hands it over; a position outside the raster is ignored.
    pub fn draw_pixel(&mut self, x: i32, y: i32, on: bool)
        ensures
            final(self).width == old(self).width,
            final(self).height == old(self).height,
            old(self).wf() ==> final(self).wf(),
            forall|a: int, b: int|
                final(self).pixel(a, b) == if a == x && b == y && old(self).stores(a, b) {
                    on
                } else {
                    old(self).pixel(a, b)
                },
            forall|a: int, b: int| final(self).stores(a, b) == old(self).stores(a, b),
            old(self).wf() ==> final(self)@ == old(self)@.set(x as int, y as int, on),
    {
        if x >= 0 && y >= 0 {
            self.set_pixel(x as usize, y as usize, on);
        } else {
            proof {
                if old(self).wf() {
                    assert(final(self)@ =~~= old(self)@.set(x as int, y as int, on));
                }
            }
        }
    }

    /// Nearest-neighbour upscaling by the whole factor `r`: each pixel becomes
    /// an `r` by `r` block. A factor of zero gives the empty raster.
    pub fn scaled(&self, r: usize) -> (out: TapeDisplay)
        requires
            self.width * r <= usize::MAX,
            self.height * r <= usize::MAX,
        ensures
            out.wf(),
            out.width == self.width * r,
            out.height == self.height * r,
            out@ == self@.scaled(r as nat),
            forall|x: int, y: int|
                0 <= x < self.width * r && 0 <= y < self.height * r ==> out.pixel(x, y)
                    == self.pixel(x / (r as int), y / (r as int)),
    {
        let mut out = TapeDisplay::new(self.width * r, self.height * r);
        let mut y: usize = 0;
        while y < out.height
            invariant
                out.wf(),
                out.width == self.width * r,
                out.height == self.height * r,
                y <= out.height,
                forall|a: int, b: int|
                    0 <= a < out.width && 0 <= b < y ==> out.pixel(a, b) == self.pixel(
                        a / (r as int),
                        b / (r as int),
                    ),
            decreases out.height - y,
        {
            let mut x: usize = 0;
            while x < out.width
                invariant
                    out.wf(),
                    out.width == self.width * r,
                    out.height == self.height * r,
                    y < out.height,
                    x <= out.width,
                    forall|a: int, b: int|
                        0 <= a < out.width && 0 <= b < y ==> out.pixel(a, b) == self.pixel(
                            a / (r as int),
                            b / (r as int),
                        ),
                    forall|a: int|
                        0 <= a < x ==> out.pixel(a, y as int) == self.pixel(
                            a / (r as int),
                            y as int / (r as int),
                        ),
                decreases out.width - x,
            {
                assert(r > 0) by (nonlinear_arith)
                    requires
                        x < self.width * r,
                {
                }
                let v = self.get_pixel(x / r, y / r);
                out.set_pixel(x, y, v);
                x += 1;
            }
            y += 1;
        }
        proof {
            assert forall|x: int, y: int|
                0 <= x < self.width * r && 0 <= y < self.height * r implies #[trigger] out.pixel(
                x,
                y,
            ) == self@.get(x / (r as int), y / (r as int)) by {
                lemma_scaled_source_in_extent(x, self.width as int, r as int);
                lemma_scaled_source_in_extent(y, self.height as int, r as int);
            }
            assert(out@ =~~= self@.scaled(r as nat));
        }
        out
    }

    /// Turns the raster a quarter turn counter-clockwise. The extent is swapped.
    pub fn rotated(&self) -> (out: TapeDisplay)
        ensures
            out.wf(),
            out.width == self.height,
            out.height == self.width,
            out@ == self@.rotated(),
            forall|x: int, y: int|
                0 <= x < self.height && 0 <= y < self.width ==> out.pixel(x, y) == self.pixel(
                    self.width - 1 - y,
                    x,
                ),
    {
        let mut out = TapeDisplay::new(self.height, self.width);
        let mut y: usize = 0;
        while y < out.height
            invariant
                out.wf(),
                out.width == self.height,
                out.height == self.width,
                y <= out.height,
                forall|a: int, b: int|
                    0 <= a < out.width && 0 <= b < y ==> out.pixel(a, b) == self.pixel(
                        self.width - 1 - b,
                        a,
                    ),
            decreases out.height - y,
        {
            let mut x: usize = 0;
            while x < out.width
                invariant
                    out.wf(),
                    out.width == self.height,
                    out.height == self.width,
                    y < out.height,
                    x <= out.width,
                    forall|a: int, b: int|
                        0 <= a < out.width && 0 <= b < y ==> out.pixel(a, b) == self.pixel(
                            self.width - 1 - b,
                            a,
                        ),
                    forall|a: int|
                        0 <= a < x ==> out.pixel(a, y as int) == self.pixel(
                            self.width - 1 - y,
                            a,
                        ),
                decreases out.width - x,
            {
                let v = self.get_pixel(out.height - 1 - y, x);
                out.set_pixel(x, y, v);
                x += 1;
            }
            y += 1;
        }
        proof {
            assert(out@ =~~= self@.rotated());
        }
        out
    }

    /// ORs `td` onto this raster with the origin of `td` placed at `(px, py)`.
    /// What falls outside this raster is dropped; where `td` stores nothing it
    /// contributes nothing.
    pub fn overlay_or(&mut self, td: &TapeDisplay, px: usize, py: usize)
        requires
            old(self).wf(),
        ensures
            final(self).wf(),
            final(self).width == old(self).width,
            final(self).height == old(self).height,
            forall|x: int, y: int|
                0 <= x < old(self).width && 0 <= y < old(self).height ==> final(self).pixel(x, y)
                    == (old(self).pixel(x, y) || (x >= px && y >= py && td.pixel(
                    x - px,
                    y - py,
                ))),
            td.wf() ==> final(self)@ == old(self)@.overlay_or(td@, px as int, py as int),
    {
        let mut y: usize = py;
        while y < self.height
            invariant
                self.wf(),
                self.width == old(self).width,
                self.height == old(self).height,
                py <= y,
                forall|a: int, b: int|
                    0 <= a < self.width && 0 <= b < self.height ==> self.pixel(a, b) == if py <= b
                        < y {
                        old(self).pixel(a, b) || (a >= px && td.pixel(a - px, b - py))
                    } else {
                        old(self).pixel(a, b)
                    },
            decreases self.height - y,
        {
            let mut x: usize = px;
            while x < self.width
                invariant
                    self.wf(),
                    self.width == old(self).width,
                    self.height == old(self).height,
                    py <= y < self.height,
                    px <= x,
                    forall|a: int, b: int|
                        0 <= a < self.width && 0 <= b < self.height ==> self.pixel(a, b) == if py
                            <= b < y || (b == y && px <= a < x) {
                            old(self).pixel(a, b) || (a >= px && td.pixel(a - px, b - py))
                        } else {
                            old(self).pixel(a, b)
                        },
                decreases self.width - x,
            {
                let v = self.get_pixel(x, y) || td.get_pixel(x - px, y - py);
                self.set_pixel(x, y, v);
                x += 1;
            }
            y += 1;
        }
        proof {
            if td.wf() {
                assert(final(self)@ =~~= old(self)@.overlay_or(td@, px as int, py as int));
            }
        }
    }

    /// Renders the raster as opaque RGBA pixels in row-major order, a set
    /// pixel black and an unset one white.
    pub fn to_rgba(&self) -> (out: Vec<u8>)
        requires
            self.wf(),
        ensures
            out@ == rgba_pixels(self@, (self.width * self.height) as nat),
            out@.len() == 4 * (self.width * self.height),
    {
        let mut out: Vec<u8> = Vec::new();
        let mut y: usize = 0;
        proof {
            lemma_row_major(self.width as int, 0, 0);
        }
        while y < self.height
            invariant
                self.wf(),
                y <= self.height,
                out@ == rgba_pixels(self@, (y * self.width) as nat),
                out@.len() == 4 * (y * self.width),
            decreases self.height - y,
        {
            let mut x: usize = 0;
            while x < self.width
                invariant
                    self.wf(),
                    y < self.height,
                    x <= self.width,
                    out@ == rgba_pixels(self@, (y * self.width + x) as nat),
                    out@.len() == 4 * (y * self.width + x),
                decreases self.width - x,
            {
                let on = self.get_pixel(x, y);
                proof {
                    lemma_row_major(self.width as int, x as int, y as int);
                }
                let shade: u8 = if on {
                    0
                } else {
                    255
                };
                out.push(shade);
                out.push(shade);
                out.push(shade);
                out.push(255);
                x += 1;
                assert(out@ =~= rgba_pixels(self@, (y * self.width + x) as nat));
            }
            proof {
                lemma_row_major(self.width as int, 0, y as int);
            }
            y += 1;
        }
        assert(self.height * self.width == self.width * self.height) by (nonlinear_arith);
        out
    }

    /// Tests whether the stored rows match the declared extent.
    pub fn is_well_formed(&self) -> (b: bool)
        ensures
            b == self.wf(),
    {
        if self.framebuffer.len() != self.height {
            return false;
        }
        let mut y: usize = 0;
        while y < self.height
            invariant
                self.framebuffer@.len() == self.height,
                y <= self.height,
                forall|k: int| 0 <= k < y ==> (#[trigger] self.framebuffer@[k])@.len() == self.width,
            decreases self.height - y,
        {
            if self.framebuffer[y].len() != self.width {
                return false;
            }
            y += 1;
        }
        true
    }

    /// Whether a pixel is stored at `(x, y)`.
    pub open spec fn stores(&self, x: int, y: int) -> bool {
        0 <= y < self.framebuffer@.len() && 0 <= x < self.framebuffer@[y]@.len()
    }
}

/// A position below `extent * r` falls, divided by `r`, below `extent`.
pub proof fn lemma_scaled_source_in_extent(x: int, extent: int, r: int)
    by (nonlinear_arith)
    requires
        0 <= x < extent * r,
        0 <= r,
        0 <= extent,
    ensures
        r > 0,
        0 <= x / r < extent,
{
}

/// Within the scaled extent, the pixel at `(x, y)` of a raster scaled by
/// `k >= 1` is the pixel at `(x / k, y / k)` of the raster itself.
pub proof fn lemma_scaled_get(r: Raster, k: nat, x: int, y: int)
    requires
        k >= 1,
        0 <= x < r.width * k,
        0 <= y < r.height * k,
    ensures
        r.scaled(k).width == r.width * k,
        r.scaled(k).height == r.height * k,
        r.scaled(k).get(x, y) == r.get(x / (k as int), y / (k as int)),
{
}

/// A quarter turn swaps the extent, and the pixel at `(x, y)` of the turned
/// raster is the pixel at `(h - 1 - y, x)` of the raster itself, `h` being the
/// height after the turn.
pub proof fn lemma_rotated_get(r: Raster, x: int, y: int)
    requires
        0 <= x < r.height,
        0 <= y < r.width,
    ensures
        r.rotated().width == r.height,
        r.rotated().height == r.width,
        r.rotated().get(x, y) == r.get(r.rotated().height - 1 - y, x),
{
}

/// Two quarter turns are a half turn: the extent is kept and the pixel at
/// `(x, y)` comes from the opposite corner.
pub proof fn lemma_rotated_twice(r: Raster)
    ensures
        r.rotated().rotated() == Raster::from_fn(
            r.width,
            r.height,
            |x: int, y: int| r.get(r.width - 1 - x, r.height - 1 - y),
        ),
{
    assert(r.rotated().rotated() =~~= Raster::from_fn(
        r.width,
        r.height,
        |x: int, y: int| r.get(r.width - 1 - x, r.height - 1 - y),
    ));
}

/// Four quarter turns give back the raster that was turned.
pub proof fn lemma_rotated_four_times(r: Raster)
    requires
        r.wf(),
    ensures
        r.rotated().rotated().rotated().rotated() == r,
{
    let half = r.rotated().rotated();
    lemma_rotated_twice(r);
    lemma_rotated_twice(half);
    assert(half.rotated().rotated() =~~= r);
}

/// The view of a well-formed display is a well-formed raster that reads as
/// the display does.
pub proof fn lemma_view_reads_pixels(td: TapeDisplay, x: int, y: int)
    requires
        td.wf(),
    ensures
        td@.wf(),
        td@.get(x, y) == td.pixel(x, y),
{
}

/// The four bytes of an opaque RGBA pixel: black where the bit is set, white
/// where it is not.
pub open spec fn rgba_of(on: bool) -> Seq<u8> {
    if on {
        seq![0u8, 0u8, 0u8, 255u8]
    } else {
        seq![255u8, 255u8, 255u8, 255u8]
    }
}

/// The RGBA bytes of the first `n` pixels of a raster, counted row by row.
pub open spec fn rgba_pixels(r: Raster, n: nat) -> Seq<u8>
    decreases n,
{
    if n == 0 {
        Seq::empty()
    } else {
        rgba_pixels(r, (n - 1) as nat) + rgba_of(
            r.get((n - 1) % (r.width as int), (n - 1) / (r.width as int)),
        )
    }
}

/// Counting row by row, the pixel at `(x, y)` of a raster `width` wide is
/// number `y * width + x`.
pub proof fn lemma_row_major(width: int, x: int, y: int)
    by (nonlinear_arith)
    requires
        0 <= x,
        0 <= y,
        x < width || (x == 0 && 0 <= width),
    ensures
        0 <= y * width + x,
        x < width ==> (y * width + x) % width == x && (y * width + x) / width == y,
        x == 0 ==> (y + 1) * width == y * width + width,
        y == 0 ==> y * width == 0,
{
}

} // verus!
