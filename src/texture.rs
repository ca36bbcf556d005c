use vstd::prelude::*;
use crate::color::{Color, CHANNEL_MAX};

verus! {

/// What one pixel of the accumulation buffer holds: the sums of the samples it
/// took on each channel, and how many it took.
#[derive(Clone, Copy, Debug, PartialEq, Eq, Structural)]
pub struct PixelSum {
    pub r: u64,
    pub g: u64,
    pub b: u64,
    pub count: u32,
}

/// A pixel that has taken no sample.
pub open spec fn empty_pixel() -> PixelSum {
    PixelSum { r: 0, g: 0, b: 0, count: 0 }
}

/// Sums that cannot exceed what `count` samples of full intensity give.
pub open spec fn pixel_wf(p: PixelSum) -> bool {
    &&& p.r <= p.count as int * CHANNEL_MAX as int
    &&& p.g <= p.count as int * CHANNEL_MAX as int
    &&& p.b <= p.count as int * CHANNEL_MAX as int
}

/// A pixel after taking sample `c`: a pixel holding `max_count` samples or
/// more takes no further one.
pub open spec fn accumulate(p: PixelSum, c: Color, max_count: u32) -> PixelSum {
    if p.count < max_count {
        PixelSum {
            r: (p.r + c.r) as u64,
            g: (p.g + c.g) as u64,
            b: (p.b + c.b) as u64,
            count: (p.count + 1) as u32,
        }
    } else {
        p
    }
}

/// A pixel after taking sample `c` `n` times.
pub open spec fn accumulate_times(p: PixelSum, c: Color, n: nat, max_count: u32) -> PixelSum
    decreases n,
{
    if n == 0 {
        p
    } else {
        accumulate(accumulate_times(p, c, (n - 1) as nat, max_count), c, max_count)
    }
}

/// The running mean of a pixel's samples, rounded down; black before any.
pub open spec fn mean_of(p: PixelSum) -> Color {
    if p.count == 0 {
        Color { r: 0, g: 0, b: 0 }
    } else {
        Color {
            r: (p.r / p.count as u64) as u16,
            g: (p.g / p.count as u64) as u16,
            b: (p.b / p.count as u64) as u16,
        }
    }
}

/// Where pixel (x, y) stands in a row-major image `width` pixels wide.
pub open spec fn pixel_index(width: u32, x: int, y: int) -> int {
    y * width + x
}

proof fn lemma_pixel_index(width: u32, height: u32, x: int, y: int)
    requires
        0 <= x < width,
        0 <= y < height,
    ensures
        0 <= pixel_index(width, x, y) < width as int * height as int,
{
    assert(0 <= y * width + x < width as int * height as int) by (nonlinear_arith)
        requires 0 <= x < width, 0 <= y < height;
}

proof fn lemma_pixel_index_injective(width: u32, x1: int, y1: int, x2: int, y2: int)
    requires
        0 <= x1 < width,
        0 <= x2 < width,
        0 <= y1,
        0 <= y2,
        pixel_index(width, x1, y1) == pixel_index(width, x2, y2),
    ensures
        x1 == x2 && y1 == y2,
{
    let w = width as int;
    if y1 < y2 {
        assert(y1 * w + w <= y2 * w) by (nonlinear_arith)
            requires y1 < y2, 0 <= w;
    } else if y2 < y1 {
        assert(y2 * w + w <= y1 * w) by (nonlinear_arith)
            requires y2 < y1, 0 <= w;
    }
}

proof fn lemma_sample_fits(p: PixelSum, c: Color)
    requires
        pixel_wf(p),
    ensures
        p.r + c.r <= (p.count + 1) * CHANNEL_MAX,
        p.g + c.g <= (p.count + 1) * CHANNEL_MAX,
        p.b + c.b <= (p.count + 1) * CHANNEL_MAX,
        (p.count + 1) * CHANNEL_MAX <= u64::MAX,
{
    assert((p.count + 1) * CHANNEL_MAX <= u64::MAX) by (nonlinear_arith)
        requires p.count <= u32::MAX;
}

proof fn lemma_mean_fits(p: PixelSum)
    requires
        pixel_wf(p),
        p.count > 0,
    ensures
        p.r as int / p.count as int <= CHANNEL_MAX,
        p.g as int / p.count as int <= CHANNEL_MAX,
        p.b as int / p.count as int <= CHANNEL_MAX,
{
    let n = p.count as int;
    let m = CHANNEL_MAX as int;
    assert(p.r as int / n <= m) by (nonlinear_arith)
        requires 0 <= p.r as int <= n * m, n > 0;
    assert(p.g as int / n <= m) by (nonlinear_arith)
        requires 0 <= p.g as int <= n * m, n > 0;
    assert(p.b as int / n <= m) by (nonlinear_arith)
        requires 0 <= p.b as int <= n * m, n > 0;
}

/// Accumulating the same color into a fresh pixel: after `n` samples it holds
/// `min(n, max_count)` of them, and once it holds one, its mean is exactly that
/// color. Samples past `max_count` change nothing.
pub proof fn lemma_repeated_color(c: Color, n: nat, max_count: u32)
    ensures
        ({
            let p = accumulate_times(empty_pixel(), c, n, max_count);
            let k = if n < max_count { n as int } else { max_count as int };
            &&& p.count == k
            &&& p.r == k * c.r
            &&& p.g == k * c.g
            &&& p.b == k * c.b
            &&& pixel_wf(p)
            &&& k > 0 ==> mean_of(p) == c
            &&& n >= max_count ==> p == accumulate_times(empty_pixel(), c, max_count as nat, max_count)
        }),
    decreases n,
{
    let p = accumulate_times(empty_pixel(), c, n, max_count);
    if n > 0 {
        lemma_repeated_color(c, (n - 1) as nat, max_count);
        let q = accumulate_times(empty_pixel(), c, (n - 1) as nat, max_count);
        let j = q.count as int;
        if q.count < max_count {
            lemma_sample_fits(q, c);
            assert((j + 1) * c.r == j * c.r + c.r) by (nonlinear_arith);
            assert((j + 1) * c.g == j * c.g + c.g) by (nonlinear_arith);
            assert((j + 1) * c.b == j * c.b + c.b) by (nonlinear_arith);
        }
    }
    let k = if n < max_count { n as int } else { max_count as int };
    assert(pixel_wf(p)) by {
        assert(k * c.r <= k * CHANNEL_MAX) by (nonlinear_arith)
            requires k >= 0, c.r <= CHANNEL_MAX;
        assert(k * c.g <= k * CHANNEL_MAX) by (nonlinear_arith)
            requires k >= 0, c.g <= CHANNEL_MAX;
        assert(k * c.b <= k * CHANNEL_MAX) by (nonlinear_arith)
            requires k >= 0, c.b <= CHANNEL_MAX;
    }
    if k > 0 {
        vstd::arithmetic::div_mod::lemma_div_by_multiple(c.r as int, k);
        vstd::arithmetic::div_mod::lemma_div_by_multiple(c.g as int, k);
        vstd::arithmetic::div_mod::lemma_div_by_multiple(c.b as int, k);
        assert(k * c.r == c.r * k) by (nonlinear_arith);
        assert(k * c.g == c.g * k) by (nonlinear_arith);
        assert(k * c.b == c.b * k) by (nonlinear_arith);
    }
}

/// A pixel that holds `max_count` samples takes no further one, whatever it is.
pub proof fn lemma_full_pixel_unchanged(p: PixelSum, c: Color, max_count: u32)
    requires
        p.count >= max_count,
    ensures
        accumulate(p, c, max_count) == p,
{
}

/// The colors of a run of whole columns, computed by one render job: column
/// `starting_column + i` is `color_columns[i]`, from row 0 down.
pub struct ColorColumnRange {
    pub starting_column: u32,
    pub color_columns: Vec<Vec<Color>>,
}

/// Whether `after` is `before` with column `start + k` of the image taking
/// sample `columns[k][j]` at row `j`, for every such pixel.
pub open spec fn columns_added(
    before: IncrementalTextureHandle,
    after: IncrementalTextureHandle,
    start: int,
    columns: Seq<Vec<Color>>,
) -> bool {
    forall|i: int, j: int|
        0 <= i < before.width() && 0 <= j < before.height() ==> #[trigger] after.pixel(i, j) == if start
            <= i < start + columns.len() && j < columns[i - start].len() {
            accumulate(before.pixel(i, j), columns[i - start][j], before.max_count())
        } else {
            before.pixel(i, j)
        }
}

/// An image refined over frames: each pixel keeps the running mean of the
/// samples it took, up to `max_count` of them. An invalidated image is shown
/// once more and then cleared, so samples of an old camera pose never mix with
/// those of a new one.
pub struct IncrementalTextureHandle {
    width: u32,
    height: u32,
    data: Vec<PixelSum>,
    max_count: u32,
    is_invalid: bool,
}

impl IncrementalTextureHandle {
    pub closed spec fn width(&self) -> u32 {
        self.width
    }

    pub closed spec fn height(&self) -> u32 {
        self.height
    }

    pub closed spec fn max_count(&self) -> u32 {
        self.max_count
    }

    pub closed spec fn is_invalid(&self) -> bool {
        self.is_invalid
    }

    /// What pixel (x, y) holds.
    pub closed spec fn pixel(&self, x: int, y: int) -> PixelSum {
        self.data@[pixel_index(self.width, x, y)]
    }

    pub closed spec fn wf(&self) -> bool {
        &&& self.width as int * self.height as int <= u32::MAX
        &&& self.data@.len() == self.width as int * self.height as int
        &&& forall|i: int| 0 <= i < self.data@.len() ==> #[trigger] pixel_wf(self.data@[i])
    }

    /// In a well-formed image, no pixel's sums exceed what its count of
    /// full-intensity samples gives, so taking a further sample never wraps.
    pub proof fn lemma_pixels_wf(&self)
        requires
            self.wf(),
        ensures
            forall|x: int, y: int|
                0 <= x < self.width() && 0 <= y < self.height() ==> pixel_wf(#[trigger] self.pixel(x, y)),
    {
        assert forall|x: int, y: int|
            0 <= x < self.width() && 0 <= y < self.height() implies pixel_wf(#[trigger] self.pixel(x, y)) by {
            lemma_pixel_index(self.width, self.height, x, y);
            assert(pixel_wf(self.data@[pixel_index(self.width, x, y)]));
        }
    }

    /// Whether the two images have the same size and limit.
    pub open spec fn same_shape(&self, other: &Self) -> bool {
        &&& self.width() == other.width()
        &&& self.height() == other.height()
        &&& self.max_count() == other.max_count()
    }

    /// An image of `width` by `height` pixels that have taken no sample.
    pub fn new(width: u32, height: u32, max_count: u32) -> (t: Self)
        requires
            width as int * height as int <= u32::MAX,
        ensures
            t.wf(),
            t.width() == width,
            t.height() == height,
            t.max_count() == max_count,
            t.is_invalid(),
            forall|x: int, y: int|
                0 <= x < width && 0 <= y < height ==> #[trigger] t.pixel(x, y) == empty_pixel(),
    {
        let n = (width * height) as usize;
        let mut data: Vec<PixelSum> = Vec::new();
        let mut i: usize = 0;
        while i < n
            invariant
                i <= n,
                data@.len() == i,
                forall|k: int| 0 <= k < i ==> #[trigger] data@[k] == empty_pixel(),
            decreases n - i,
        {
            data.push(PixelSum { r: 0, g: 0, b: 0, count: 0 });
            i = i + 1;
        }
        let t = IncrementalTextureHandle { width, height, data, max_count, is_invalid: true };
        assert forall|x: int, y: int| 0 <= x < width && 0 <= y < height implies #[trigger] t.pixel(x, y) == empty_pixel() by {
            lemma_pixel_index(width, height, x, y);
        }
        t
    }

    /// Adds sample `color` to pixel (x, y); a pixel holding `max_count`
    /// samples keeps what it holds.
    pub fn add_color(&mut self, x: u32, y: u32, color: &Color)
        requires
            old(self).wf(),
            x < old(self).width(),
            y < old(self).height(),
        ensures
            final(self).wf(),
            final(self).same_shape(old(self)),
            final(self).is_invalid() == old(self).is_invalid(),
            forall|i: int, j: int|
                0 <= i < old(self).width() && 0 <= j < old(self).height() ==> #[trigger] final(self).pixel(i, j) == if i == x && j == y {
                    accumulate(old(self).pixel(i, j), *color, old(self).max_count())
                } else {
                    old(self).pixel(i, j)
                },
    {
        proof {
            lemma_pixel_index(self.width, self.height, x as int, y as int);
        }
        let index = (y * self.width + x) as usize;
        let p = self.data[index];
        if p.count < self.max_count {
            proof {
                assert(pixel_wf(self.data@[index as int]));
                lemma_sample_fits(p, *color);
            }
            let q = PixelSum {
                r: p.r + color.r as u64,
                g: p.g + color.g as u64,
                b: p.b + color.b as u64,
                count: p.count + 1,
            };
            self.data.set(index, q);
        }
        proof {
            assert forall|i: int, j: int|
                0 <= i < old(self).width() && 0 <= j < old(self).height() implies #[trigger] self.pixel(i, j) == if i == x && j == y {
                accumulate(old(self).pixel(i, j), *color, old(self).max_count())
            } else {
                old(self).pixel(i, j)
            } by {
                lemma_pixel_index(self.width, self.height, i, j);
                if pixel_index(self.width, i, j) == index as int {
                    lemma_pixel_index_injective(self.width, i, j, x as int, y as int);
                }
            }
        }
    }

    /// Adds `colors[j]` to pixel (x, j) for each row `j` of the column.
    pub fn add_color_column(&mut self, x: u32, colors: &Vec<Color>)
        requires
            old(self).wf(),
            x < old(self).width(),
            colors.len() <= old(self).height(),
        ensures
            final(self).wf(),
            final(self).same_shape(old(self)),
            final(self).is_invalid() == old(self).is_invalid(),
            forall|i: int, j: int|
                0 <= i < old(self).width() && 0 <= j < old(self).height() ==> #[trigger] final(self).pixel(i, j) == if i == x && j < colors.len() {
                    accumulate(old(self).pixel(i, j), colors[j], old(self).max_count())
                } else {
                    old(self).pixel(i, j)
                },
    {
        let mut y: usize = 0;
        while y < colors.len()
            invariant
                self.wf(),
                self.same_shape(old(self)),
                self.is_invalid() == old(self).is_invalid(),
                x < self.width(),
                colors.len() <= self.height(),
                y <= colors.len(),
                forall|i: int, j: int|
                    0 <= i < old(self).width() && 0 <= j < old(self).height() ==> #[trigger] self.pixel(i, j) == if i == x && j < y {
                        accumulate(old(self).pixel(i, j), colors[j], old(self).max_count())
                    } else {
                        old(self).pixel(i, j)
                    },
            decreases colors.len() - y,
        {
            self.add_color(x, y as u32, &colors[y]);
            y = y + 1;
        }
    }

    /// Adds every column of `range` to the image, at its place.
    pub fn add_color_range(&mut self, range: ColorColumnRange)
        requires
            old(self).wf(),
            range.starting_column as int + range.color_columns.len() <= old(self).width(),
            forall|k: int|
                0 <= k < range.color_columns.len() ==> #[trigger] range.color_columns[k].len()
                    <= old(self).height(),
        ensures
            final(self).wf(),
            final(self).same_shape(old(self)),
            final(self).is_invalid() == old(self).is_invalid(),
            columns_added(*old(self), *final(self), range.starting_column as int, range.color_columns@),
    {
        let start = range.starting_column;
        let columns = &range.color_columns;
        let mut k: usize = 0;
        while k < columns.len()
            invariant
                self.wf(),
                self.same_shape(old(self)),
                self.is_invalid() == old(self).is_invalid(),
                start == range.starting_column,
                columns == &range.color_columns,
                start as int + columns.len() <= self.width(),
                forall|c: int| 0 <= c < columns.len() ==> #[trigger] columns[c].len() <= self.height(),
                k <= columns.len(),
                forall|i: int, j: int|
                    0 <= i < old(self).width() && 0 <= j < old(self).height() ==> #[trigger] self.pixel(i, j) == if start <= i < start + k && j < columns[i - start].len() {
                        accumulate(old(self).pixel(i, j), columns[i - start][j], old(self).max_count())
                    } else {
                        old(self).pixel(i, j)
                    },
            decreases columns.len() - k,
        {
            assert(columns[k as int].len() <= self.height());
            self.add_color_column(start + k as u32, &columns[k]);
            k = k + 1;
        }
    }

    /// Marks the image stale: it is cleared right after it is next read.
    pub fn invalidate(&mut self)
        ensures
            final(self).wf() == old(self).wf(),
            final(self).same_shape(old(self)),
            final(self).is_invalid(),
            forall|i: int, j: int| #[trigger] final(self).pixel(i, j) == old(self).pixel(i, j),
    {
        self.is_invalid = true;
    }

    /// The mean color of every pixel, row by row (pixel (x, y) at `y * width +
    /// x`). A stale image is then cleared and counts as fresh again.
    pub fn get_texture(&mut self) -> (pixels: Vec<Color>)
        requires
            old(self).wf(),
        ensures
            final(self).wf(),
            final(self).same_shape(old(self)),
            !final(self).is_invalid(),
            pixels.len() == old(self).width() as int * old(self).height() as int,
            forall|i: int, j: int|
                0 <= i < old(self).width() && 0 <= j < old(self).height() ==> pixels@[pixel_index(
                    old(self).width(),
                    i,
                    j,
                )] == mean_of(#[trigger] old(self).pixel(i, j)),
            forall|i: int, j: int|
                0 <= i < old(self).width() && 0 <= j < old(self).height() ==> #[trigger] final(self).pixel(i, j)
                    == if old(self).is_invalid() {
                    empty_pixel()
                } else {
                    old(self).pixel(i, j)
                },
    {
        let n = self.data.len();
        let mut pixels: Vec<Color> = Vec::new();
        let mut i: usize = 0;
        while i < n
            invariant
                n == self.data@.len(),
                self.wf(),
                i <= n,
                pixels@.len() == i,
                forall|k: int| 0 <= k < i ==> #[trigger] pixels@[k] == mean_of(self.data@[k]),
            decreases n - i,
        {
            let p = self.data[i];
            proof {
                assert(pixel_wf(self.data@[i as int]));
            }
            let c = if p.count == 0 {
                Color::zero()
            } else {
                proof {
                    lemma_mean_fits(p);
                }
                Color {
                    r: (p.r / p.count as u64) as u16,
                    g: (p.g / p.count as u64) as u16,
                    b: (p.b / p.count as u64) as u16,
                }
            };
            pixels.push(c);
            i = i + 1;
        }
        if self.is_invalid {
            self.reset();
            self.is_invalid = false;
        }
        proof {
            assert forall|i: int, j: int|
                0 <= i < old(self).width() && 0 <= j < old(self).height() implies pixels@[pixel_index(
                old(self).width(),
                i,
                j,
            )] == mean_of(#[trigger] old(self).pixel(i, j)) by {
                lemma_pixel_index(self.width, self.height, i, j);
            }
            assert forall|i: int, j: int|
                0 <= i < old(self).width() && 0 <= j < old(self).height() implies #[trigger] self.pixel(i, j)
                == if old(self).is_invalid() {
                empty_pixel()
            } else {
                old(self).pixel(i, j)
            } by {
                lemma_pixel_index(self.width, self.height, i, j);
            }
        }
        pixels
    }

    fn reset(&mut self)
        requires
            old(self).wf(),
        ensures
            final(self).wf(),
            final(self).same_shape(old(self)),
            final(self).is_invalid() == old(self).is_invalid(),
            final(self).data@.len() == old(self).data@.len(),
            forall|k: int| 0 <= k < final(self).data@.len() ==> #[trigger] final(self).data@[k] == empty_pixel(),
    {
        let n = self.data.len();
        let mut i: usize = 0;
        while i < n
            invariant
                n == self.data@.len(),
                self.wf(),
                self.same_shape(old(self)),
                self.is_invalid() == old(self).is_invalid(),
                i <= n,
                forall|k: int| 0 <= k < i ==> #[trigger] self.data@[k] == empty_pixel(),
            decreases n - i,
        {
            self.data.set(i, PixelSum { r: 0, g: 0, b: 0, count: 0 });
            i = i + 1;
        }
    }

    pub fn get_width(&self) -> (w: u32)
        ensures
            w == self.width(),
    {
        self.width
    }

    pub fn get_height(&self) -> (h: u32)
        ensures
            h == self.height(),
    {
        self.height
    }

    /// The samples pixel (x, y) has taken.
    pub fn sample_count(&self, x: u32, y: u32) -> (n: u32)
        requires
            self.wf(),
            x < self.width(),
            y < self.height(),
        ensures
            n == self.pixel(x as int, y as int).count,
    {
        proof {
            lemma_pixel_index(self.width, self.height, x as int, y as int);
        }
        self.data[(y * self.width + x) as usize].count
    }
}

} // verus!
