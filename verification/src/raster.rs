use vstd::prelude::*;

verus! {

/// One 8-bit RGB pixel.
#[derive(Clone, Copy, PartialEq, Eq, Debug, Structural)]
pub struct Rgb {
    pub r: u8,
    pub g: u8,
    pub b: u8,
}

/// The black pixel that fills canvases and side bars.
pub open spec fn black() -> Rgb {
    Rgb { r: 0, g: 0, b: 0 }
}

/// An RGB image stored as rows of pixels; `rows[y][x]` is the pixel in
/// column `x` of row `y`.
pub struct Raster {
    pub width: u32,
    pub height: u32,
    pub rows: Vec<Vec<Rgb>>,
}

impl Raster {
    /// The pixel grid as a sequence of rows.
    pub open spec fn grid(&self) -> Seq<Seq<Rgb>> {
        self.rows@.map_values(|row: Vec<Rgb>| row@)
    }

    /// `height` rows of `width` pixels each.
    pub open spec fn wf(&self) -> bool {
        &&& self.rows@.len() == self.height
        &&& forall|y: int| 0 <= y < self.height ==> (#[trigger] self.rows@[y])@.len() == self.width
    }

    /// The pixel at column `x`, row `y`.
    pub open spec fn px(&self, x: int, y: int) -> Rgb {
        self.rows@[y]@[x]
    }
}

/// `out` is `img` turned 90 degrees clockwise: the last row of `img`
/// becomes the first column of `out`.
pub open spec fn rotated90(img: &Raster, out: &Raster) -> bool {
    &&& out.wf()
    &&& out.width == img.height
    &&& out.height == img.width
    &&& forall|x: int, y: int|
        0 <= x < out.width && 0 <= y < out.height ==> #[trigger] out.px(x, y) == img.px(
            y,
            img.height - 1 - x,
        )
}

/// `out` is `img` turned half a turn.
pub open spec fn rotated180(img: &Raster, out: &Raster) -> bool {
    &&& out.wf()
    &&& out.width == img.width
    &&& out.height == img.height
    &&& forall|x: int, y: int|
        0 <= x < out.width && 0 <= y < out.height ==> #[trigger] out.px(x, y) == img.px(
            img.width - 1 - x,
            img.height - 1 - y,
        )
}

/// `out` is `img` turned 270 degrees clockwise: the first row of `img`
/// becomes the first column of `out`, read upwards.
pub open spec fn rotated270(img: &Raster, out: &Raster) -> bool {
    &&& out.wf()
    &&& out.width == img.height
    &&& out.height == img.width
    &&& forall|x: int, y: int|
        0 <= x < out.width && 0 <= y < out.height ==> #[trigger] out.px(x, y) == img.px(
            img.width - 1 - y,
            x,
        )
}

/// Rotates an image 90 degrees clockwise.
pub fn rotate90(img: &Raster) -> (out: Raster)
    requires
        img.wf(),
    ensures
        rotated90(img, &out),
{
    let w = img.width as usize;
    let h = img.height as usize;
    let mut rows: Vec<Vec<Rgb>> = Vec::new();
    for y in 0..w
        invariant
            img.wf(),
            w == img.width,
            h == img.height,
            rows@.len() == y,
            forall|j: int| 0 <= j < y ==> (#[trigger] rows@[j])@.len() == h,
            forall|x: int, j: int|
                0 <= j < y && 0 <= x < h ==> #[trigger] rows@[j]@[x] == img.px(j, h - 1 - x),
    {
        let mut row: Vec<Rgb> = Vec::new();
        for x in 0..h
            invariant
                img.wf(),
                w == img.width,
                h == img.height,
                y < w,
                row@.len() == x,
                forall|i: int| 0 <= i < x ==> #[trigger] row@[i] == img.px(y as int, h - 1 - i),
        {
            let p = img.rows[h - 1 - x][y];
            row.push(p);
        }
        rows.push(row);
    }
    Raster { width: img.height, height: img.width, rows }
}

/// Rotates an image 180 degrees.
pub fn rotate180(img: &Raster) -> (out: Raster)
    requires
        img.wf(),
    ensures
        rotated180(img, &out),
{
    let w = img.width as usize;
    let h = img.height as usize;
    let mut rows: Vec<Vec<Rgb>> = Vec::new();
    for y in 0..h
        invariant
            img.wf(),
            w == img.width,
            h == img.height,
            rows@.len() == y,
            forall|j: int| 0 <= j < y ==> (#[trigger] rows@[j])@.len() == w,
            forall|x: int, j: int|
                0 <= j < y && 0 <= x < w ==> #[trigger] rows@[j]@[x] == img.px(
                    w - 1 - x,
                    h - 1 - j,
                ),
    {
        let mut row: Vec<Rgb> = Vec::new();
        for x in 0..w
            invariant
                img.wf(),
                w == img.width,
                h == img.height,
                y < h,
                row@.len() == x,
                forall|i: int|
                    0 <= i < x ==> #[trigger] row@[i] == img.px(w - 1 - i, h - 1 - y),
        {
            let p = img.rows[h - 1 - y][w - 1 - x];
            row.push(p);
        }
        rows.push(row);
    }
    Raster { width: img.width, height: img.height, rows }
}

/// Rotates an image 270 degrees clockwise (90 degrees counter-clockwise).
pub fn rotate270(img: &Raster) -> (out: Raster)
    requires
        img.wf(),
    ensures
        rotated270(img, &out),
{
    let w = img.width as usize;
    let h = img.height as usize;
    let mut rows: Vec<Vec<Rgb>> = Vec::new();
    for y in 0..w
        invariant
            img.wf(),
            w == img.width,
            h == img.height,
            rows@.len() == y,
            forall|j: int| 0 <= j < y ==> (#[trigger] rows@[j])@.len() == h,
            forall|x: int, j: int|
                0 <= j < y && 0 <= x < h ==> #[trigger] rows@[j]@[x] == img.px(w - 1 - j, x),
    {
        let mut row: Vec<Rgb> = Vec::new();
        for x in 0..h
            invariant
                img.wf(),
                w == img.width,
                h == img.height,
                y < w,
                row@.len() == x,
                forall|i: int| 0 <= i < x ==> #[trigger] row@[i] == img.px(w - 1 - y, i),
        {
            let p = img.rows[x][w - 1 - y];
            row.push(p);
        }
        rows.push(row);
    }
    Raster { width: img.height, height: img.width, rows }
}

/// Turning a quarter turn clockwise and then three quarters gives back the
/// image.
pub proof fn lemma_rotate90_then_270(a: &Raster, b: &Raster, c: &Raster)
    requires
        a.wf(),
        rotated90(a, b),
        rotated270(b, c),
    ensures
        c.width == a.width,
        c.height == a.height,
        c.grid() == a.grid(),
{
    assert forall|y: int| 0 <= y < a.height implies #[trigger] c.grid()[y] =~= a.grid()[y] by {
        assert forall|x: int| 0 <= x < a.width implies c.grid()[y][x] == a.grid()[y][x] by {
            assert(c.px(x, y) == b.px(b.width - 1 - y, x));
        }
    }
    assert(c.grid() =~= a.grid());
}

/// Two quarter turns clockwise are a half turn.
pub proof fn lemma_rotate90_twice(a: &Raster, b: &Raster, c: &Raster)
    requires
        a.wf(),
        rotated90(a, b),
        rotated90(b, c),
    ensures
        rotated180(a, c),
{
    assert forall|x: int, y: int| 0 <= x < c.width && 0 <= y < c.height implies #[trigger] c.px(
        x,
        y,
    ) == a.px(a.width - 1 - x, a.height - 1 - y) by {
        assert(c.px(x, y) == b.px(y, b.height - 1 - x));
    }
}

/// A half turn done twice gives back the image.
pub proof fn lemma_rotate180_twice(a: &Raster, b: &Raster, c: &Raster)
    requires
        a.wf(),
        rotated180(a, b),
        rotated180(b, c),
    ensures
        c.width == a.width,
        c.height == a.height,
        c.grid() == a.grid(),
{
    assert forall|y: int| 0 <= y < a.height implies #[trigger] c.grid()[y] =~= a.grid()[y] by {
        assert forall|x: int| 0 <= x < a.width implies c.grid()[y][x] == a.grid()[y][x] by {
            assert(c.px(x, y) == b.px(b.width - 1 - x, b.height - 1 - y));
        }
    }
    assert(c.grid() =~= a.grid());
}

} // verus!
