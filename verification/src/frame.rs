//! The frame as a grid of pixels: mirroring, and replacing a rectangular
//! region without touching anything outside it.

use vstd::prelude::*;
use crate::geometry::Rect;

verus! {

/// One pixel in the fixed blue, green, red channel layout.
#[derive(Clone, Copy, Debug, PartialEq, Eq, Structural)]
pub struct Pixel {
    pub b: u8,
    pub g: u8,
    pub r: u8,
}

/// A rectangular image, stored row by row from the top.
#[derive(Clone, Debug)]
pub struct Frame {
    width: usize,
    rows: Vec<Vec<Pixel>>,
}

/// A row with its pixels in the opposite left-right order.
pub open spec fn mirrored_row(row: Seq<Pixel>) -> Seq<Pixel> {
    Seq::new(row.len(), |x: int| row[row.len() - 1 - x])
}

/// A grid with every row mirrored.
pub open spec fn mirrored(grid: Seq<Seq<Pixel>>) -> Seq<Seq<Pixel>> {
    Seq::new(grid.len(), |y: int| mirrored_row(grid[y]))
}

/// Whether `rect` lies wholly inside an image of `width` by `height` pixels.
pub open spec fn rect_within(rect: Rect, width: int, height: int) -> bool {
    &&& 0 <= rect.x
    &&& 0 <= rect.width
    &&& rect.x + rect.width <= width
    &&& 0 <= rect.y
    &&& 0 <= rect.height
    &&& rect.y + rect.height <= height
}

/// Whether the pixel at column `x`, row `y` belongs to `rect`.
pub open spec fn covers(rect: Rect, x: int, y: int) -> bool {
    rect.x <= x < rect.x + rect.width && rect.y <= y < rect.y + rect.height
}

/// The pixels of `grid` that `rect` covers, as a grid of their own.
pub open spec fn region_of(grid: Seq<Seq<Pixel>>, rect: Rect) -> Seq<Seq<Pixel>> {
    Seq::new(
        rect.height as nat,
        |j: int| Seq::new(rect.width as nat, |i: int| grid[rect.y + j][rect.x + i]),
    )
}

/// `grid` with the pixels that `rect` covers taken from `patch`, whose
/// top-left pixel lands on the rectangle's top-left corner.
pub open spec fn with_region(grid: Seq<Seq<Pixel>>, rect: Rect, patch: Seq<Seq<Pixel>>) -> Seq<Seq<Pixel>> {
    Seq::new(
        grid.len(),
        |y: int|
            Seq::new(
                grid[y].len(),
                |x: int|
                    if covers(rect, x, y) {
                        patch[y - rect.y][x - rect.x]
                    } else {
                        grid[y][x]
                    },
            ),
    )
}

/// The length of the first of `rows`, and 0 where there is none.
pub open spec fn first_row_len(rows: Seq<Vec<Pixel>>) -> nat {
    if rows.len() == 0 {
        0
    } else {
        rows[0]@.len()
    }
}

impl View for Frame {
    type V = Seq<Seq<Pixel>>;

    closed spec fn view(&self) -> Seq<Seq<Pixel>> {
        Seq::new(self.rows@.len(), |y: int| self.rows@[y]@)
    }
}

impl Frame {
    /// Every row holds `width` pixels.
    pub open spec fn wf(&self) -> bool {
        forall|y: int| 0 <= y < self@.len() ==> (#[trigger] self@[y]).len() == self.spec_width()
    }

    pub closed spec fn spec_width(&self) -> nat {
        self.width as nat
    }

    pub open spec fn spec_height(&self) -> nat {
        self@.len()
    }

    /// Well-formedness in terms of the stored rows.
    spec fn rows_ok(&self) -> bool {
        forall|y: int| 0 <= y < self.rows@.len() ==> (#[trigger] self.rows@[y])@.len() == self.width
    }

    proof fn lemma_rows_ok(&self)
        ensures
            self.wf() <==> self.rows_ok(),
            self@.len() == self.rows@.len(),
            forall|y: int| 0 <= y < self.rows@.len() ==> #[trigger] self@[y] == self.rows@[y]@,
    {
        if self.wf() {
            assert forall|y: int| 0 <= y < self.rows@.len() implies (#[trigger] self.rows@[y])@.len()
                == self.width by {
                assert(self@[y] == self.rows@[y]@);
            }
        }
    }

    /// A frame of `width` by `height` pixels, all equal to `fill`.
    pub fn new(width: usize, height: usize, fill: Pixel) -> (f: Frame)
        ensures
            f.wf(),
            f.spec_width() == width,
            f.spec_height() == height,
            forall|y: int, x: int| 0 <= y < height && 0 <= x < width ==> (#[trigger] f@[y][x]) == fill,
    {
        let mut rows: Vec<Vec<Pixel>> = Vec::new();
        let mut y: usize = 0;
        while y < height
            invariant
                y <= height,
                rows@.len() == y,
                forall|j: int| 0 <= j < y ==> (#[trigger] rows@[j])@.len() == width,
                forall|j: int, i: int| 0 <= j < y && 0 <= i < width ==> (#[trigger] rows@[j]@[i]) == fill,
            decreases height - y,
        {
            let mut row: Vec<Pixel> = Vec::new();
            let mut x: usize = 0;
            while x < width
                invariant
                    x <= width,
                    row@.len() == x,
                    forall|i: int| 0 <= i < x ==> (#[trigger] row@[i]) == fill,
                decreases width - x,
            {
                row.push(fill);
                x += 1;
            }
            rows.push(row);
            y += 1;
        }
        let f = Frame { width, rows };
        proof {
            f.lemma_rows_ok();
        }
        f
    }

    /// A frame made of `rows`, top row first. `None` exactly when the rows
    /// differ in length.
    pub fn from_rows(rows: Vec<Vec<Pixel>>) -> (res: Option<Frame>)
        ensures
            res is Some <==> (forall|y: int| 0 <= y < rows@.len() ==> (#[trigger] rows@[y])@.len() == rows@[0]@.len()),
            res matches Some(f) ==> f.wf() && f@ == Seq::new(rows@.len(), |y: int| rows@[y]@),
            res matches Some(f) ==> f.spec_width() == first_row_len(rows@),
    {
        if rows.len() == 0 {
            let f = Frame { width: 0, rows };
            proof {
                f.lemma_rows_ok();
            }
            return Some(f);
        }
        let width = rows[0].len();
        let mut y: usize = 1;
        while y < rows.len()
            invariant
                1 <= y <= rows.len(),
                width == rows@[0]@.len(),
                forall|j: int| 0 <= j < y ==> (#[trigger] rows@[j])@.len() == width,
            decreases rows.len() - y,
        {
            if rows[y].len() != width {
                return None;
            }
            y += 1;
        }
        let f = Frame { width, rows };
        proof {
            f.lemma_rows_ok();
            assert(f@ =~= Seq::new(rows@.len(), |y: int| rows@[y]@));
        }
        Some(f)
    }

    /// Number of pixel columns.
    pub fn width(&self) -> (w: usize)
        ensures
            w == self.spec_width(),
    {
        self.width
    }

    /// Number of pixel rows.
    pub fn height(&self) -> (h: usize)
        ensures
            h == self.spec_height(),
    {
        self.rows.len()
    }

    /// The pixel at column `x`, row `y`; `None` exactly when that lies
    /// outside the frame.
    pub fn pixel(&self, x: usize, y: usize) -> (p: Option<Pixel>)
        requires
            self.wf(),
        ensures
            p is Some <==> x < self.spec_width() && y < self.spec_height(),
            p matches Some(px) ==> px == self@[y as int][x as int],
    {
        proof {
            self.lemma_rows_ok();
        }
        if y < self.rows.len() && x < self.width {
            Some(self.rows[y][x])
        } else {
            None
        }
    }

    /// Whether `rect` lies wholly inside the frame.
    pub fn contains_rect(&self, rect: &Rect) -> (r: bool)
        ensures
            r == rect_within(*rect, self.spec_width() as int, self.spec_height() as int),
    {
        rect.x >= 0 && rect.width >= 0 && rect.y >= 0 && rect.height >= 0 && rect.x as u64 + rect.width as u64
            <= self.width as u64 && rect.y as u64 + rect.height as u64 <= self.rows.len() as u64
    }

    /// Swaps left and right: the pixel at column `x` moves to column
    /// `width - 1 - x` of the same row.
    pub fn mirror(&mut self)
        requires
            old(self).wf(),
        ensures
            final(self).wf(),
            final(self).spec_width() == old(self).spec_width(),
            final(self)@ == mirrored(old(self)@),
    {
        let width = self.width;
        let height = self.rows.len();
        let mut out: Vec<Vec<Pixel>> = Vec::new();
        let mut y: usize = 0;
        proof {
            self.lemma_rows_ok();
        }
        while y < height
            invariant
                self.rows_ok(),
                width == self.width,
                height == self.rows@.len(),
                y <= height,
                out@.len() == y,
                forall|j: int| 0 <= j < y ==> (#[trigger] out@[j])@ == mirrored_row(self.rows@[j]@),
            decreases height - y,
        {
            let mut row: Vec<Pixel> = Vec::new();
            let mut x: usize = 0;
            assert(self.rows@[y as int]@.len() == width);
            while x < width
                invariant
                    y < height,
                    height == self.rows@.len(),
                    self.rows@[y as int]@.len() == width,
                    x <= width,
                    row@.len() == x,
                    forall|i: int| 0 <= i < x ==> (#[trigger] row@[i]) == self.rows@[y as int]@[width - 1 - i],
                decreases width - x,
            {
                row.push(self.rows[y][width - 1 - x]);
                x += 1;
            }
            assert(row@ =~= mirrored_row(self.rows@[y as int]@));
            out.push(row);
            y += 1;
        }
        let ghost before = self@;
        self.rows = out;
        proof {
            self.lemma_rows_ok();
            assert(self@ =~= mirrored(before));
        }
    }

    /// A copy of the pixels that `rect` covers. `None` exactly when `rect`
    /// does not lie wholly inside the frame.
    pub fn region(&self, rect: &Rect) -> (res: Option<Frame>)
        requires
            self.wf(),
        ensures
            res is Some <==> rect_within(*rect, self.spec_width() as int, self.spec_height() as int),
            res matches Some(f) ==> f.wf() && f.spec_width() == rect.width && f@ == region_of(self@, *rect),
    {
        if !self.contains_rect(rect) {
            return None;
        }
        proof {
            self.lemma_rows_ok();
        }
        let left = rect.x as usize;
        let top = rect.y as usize;
        let width = rect.width as usize;
        let height = rect.height as usize;
        let mut out: Vec<Vec<Pixel>> = Vec::new();
        let mut j: usize = 0;
        while j < height
            invariant
                self.rows_ok(),
                left + width <= self.width,
                top + height <= self.rows@.len(),
                left == rect.x,
                top == rect.y,
                width == rect.width,
                j <= height,
                out@.len() == j,
                forall|k: int|
                    0 <= k < j ==> (#[trigger] out@[k])@ == Seq::new(
                        width as nat,
                        |i: int| self.rows@[top + k]@[left + i],
                    ),
            decreases height - j,
        {
            let mut row: Vec<Pixel> = Vec::new();
            let mut i: usize = 0;
            assert(self.rows@[top + j]@.len() == self.width);
            while i < width
                invariant
                    left + width <= self.width,
                    top + j < self.rows.len(),
                    self.rows@[top + j]@.len() == self.width,
                    i <= width,
                    row@.len() == i,
                    forall|k: int| 0 <= k < i ==> (#[trigger] row@[k]) == self.rows@[top + j]@[left + k],
                decreases width - i,
            {
                row.push(self.rows[top + j][left + i]);
                i += 1;
            }
            assert(row@ =~= Seq::new(width as nat, |i: int| self.rows@[top + j]@[left + i]));
            out.push(row);
            j += 1;
        }
        let f = Frame { width, rows: out };
        proof {
            f.lemma_rows_ok();
            assert forall|k: int| 0 <= k < height implies #[trigger] f@[k] =~= region_of(self@, *rect)[k] by {
                assert(self@[top + k] == self.rows@[top + k]@);
            }
            assert(f@ =~= region_of(self@, *rect));
        }
        Some(f)
    }

    /// Writes `patch` over the pixels that `rect` covers and reports whether
    /// it did. Nothing is written unless `rect` lies wholly inside the frame
    /// and `patch` has the rectangle's size. No pixel outside `rect` changes
    /// in either case.
    pub fn replace_region(&mut self, rect: &Rect, patch: &Frame) -> (done: bool)
        requires
            old(self).wf(),
            patch.wf(),
        ensures
            final(self).wf(),
            final(self).spec_width() == old(self).spec_width(),
            final(self).spec_height() == old(self).spec_height(),
            done == (rect_within(*rect, old(self).spec_width() as int, old(self).spec_height() as int)
                && patch.spec_width() == rect.width && patch.spec_height() == rect.height),
            done ==> final(self)@ == with_region(old(self)@, *rect, patch@),
            !done ==> final(self)@ == old(self)@,
            forall|x: int, y: int|
                0 <= y < old(self).spec_height() && 0 <= x < old(self).spec_width() && !covers(*rect, x, y)
                    ==> (#[trigger] final(self)@[y][x]) == old(self)@[y][x],
    {
        if !self.contains_rect(rect) || patch.width != rect.width as usize || patch.rows.len()
            != rect.height as usize {
            return false;
        }
        proof {
            self.lemma_rows_ok();
            patch.lemma_rows_ok();
        }
        let left = rect.x as usize;
        let top = rect.y as usize;
        let width = self.width;
        let height = self.rows.len();
        let mut out: Vec<Vec<Pixel>> = Vec::new();
        let mut y: usize = 0;
        while y < height
            invariant
                self.rows_ok(),
                patch.rows_ok(),
                self == old(self),
                width == self.width,
                height == self.rows@.len(),
                rect_within(*rect, width as int, height as int),
                patch.width == rect.width,
                patch.rows@.len() == rect.height,
                left == rect.x,
                top == rect.y,
                y <= height,
                out@.len() == y,
                forall|j: int| 0 <= j < y ==> (#[trigger] out@[j])@ == with_region(self@, *rect, patch@)[j],
            decreases height - y,
        {
            let mut row: Vec<Pixel> = Vec::new();
            let mut x: usize = 0;
            let in_rows = top <= y && y - top < patch.rows.len();
            proof {
                assert(self.rows@[y as int]@.len() == width);
                assert(self@[y as int] == self.rows@[y as int]@);
                if in_rows {
                    assert(patch.rows@[y - top]@.len() == patch.width);
                    assert(patch@[y - top] == patch.rows@[y - top]@);
                }
            }
            while x < width
                invariant
                    patch.rows_ok(),
                    y < height,
                    height == self.rows@.len(),
                    self.rows@[y as int]@.len() == width,
                    self@[y as int] == self.rows@[y as int]@,
                    in_rows == (rect.y <= y < rect.y + rect.height),
                    in_rows ==> patch.rows@[y - top]@.len() == patch.width && patch@[y - top] == patch.rows@[y
                        - top]@,
                    rect_within(*rect, width as int, height as int),
                    patch.width == rect.width,
                    patch.rows@.len() == rect.height,
                    left == rect.x,
                    top == rect.y,
                    x <= width,
                    row@.len() == x,
                    forall|i: int| 0 <= i < x ==> (#[trigger] row@[i]) == with_region(self@, *rect, patch@)[y as int][i],
                decreases width - x,
            {
                let px = if in_rows && left <= x && x - left < patch.width {
                    patch.rows[y - top][x - left]
                } else {
                    self.rows[y][x]
                };
                row.push(px);
                x += 1;
            }
            assert(row@ =~= with_region(self@, *rect, patch@)[y as int]);
            out.push(row);
            y += 1;
        }
        let ghost before = self@;
        self.rows = out;
        proof {
            self.lemma_rows_ok();
            assert(self@ =~= with_region(before, *rect, patch@));
        }
        true
    }
}

/// Mirroring a grid twice gives the grid back.
pub proof fn lemma_mirror_twice(grid: Seq<Seq<Pixel>>)
    ensures
        mirrored(mirrored(grid)) == grid,
{
    assert forall|y: int| 0 <= y < grid.len() implies #[trigger] mirrored(mirrored(grid))[y] == grid[y] by {
        assert(mirrored(mirrored(grid))[y] =~= grid[y]);
    }
    assert(mirrored(mirrored(grid)) =~= grid);
}

/// Replacing a region changes no pixel outside the rectangle, whatever the
/// patch holds.
pub proof fn lemma_outside_region_unchanged(grid: Seq<Seq<Pixel>>, rect: Rect, patch: Seq<Seq<Pixel>>, x: int, y: int)
    requires
        0 <= y < grid.len(),
        0 <= x < grid[y].len(),
        !covers(rect, x, y),
    ensures
        with_region(grid, rect, patch)[y][x] == grid[y][x],
{
}

/// After a region is replaced, reading that region back gives the patch.
pub proof fn lemma_region_of_replaced(grid: Seq<Seq<Pixel>>, rect: Rect, patch: Seq<Seq<Pixel>>)
    requires
        rect_within(rect, grid[0].len() as int, grid.len() as int),
        forall|y: int| 0 <= y < grid.len() ==> (#[trigger] grid[y]).len() == grid[0].len(),
        patch.len() == rect.height,
        forall|j: int| 0 <= j < patch.len() ==> (#[trigger] patch[j]).len() == rect.width,
    ensures
        region_of(with_region(grid, rect, patch), rect) == patch,
{
    let got = region_of(with_region(grid, rect, patch), rect);
    assert forall|j: int| 0 <= j < patch.len() implies #[trigger] got[j] == patch[j] by {
        assert(covers(rect, rect.x as int, rect.y + j) || rect.width == 0);
        assert(got[j] =~= patch[j]);
    }
    assert(got =~= patch);
}

} // verus!
