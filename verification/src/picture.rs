//! The picture model: a point-set accumulator with bounds tracking and grid
//! rendering. Width and height never shrink: each is one past the largest
//! coordinate added so far.

use vstd::prelude::*;

verus! {

/// One integer coordinate pair of a picture.
#[derive(Debug, PartialEq, Eq, Clone, Copy, Structural)]
pub struct Point {
    pub x: u32,
    pub y: u32,
}

/// The mathematical content of a `Picture`: its bounds and the points added
/// so far, in order of addition.
#[verifier::ext_equal]
pub struct PictureView {
    pub width: u32,
    pub height: u32,
    pub points: Seq<Point>,
}

/// A 2-D point set with derived bounds.
#[derive(Debug, PartialEq)]
pub struct Picture {
    width: u32,
    height: u32,
    points: Vec<Point>,
}

impl View for Picture {
    type V = PictureView;

    closed spec fn view(&self) -> PictureView {
        PictureView { width: self.width, height: self.height, points: self.points@ }
    }
}

/// The filled marker, the blank marker, and the row separator of a rendering.
pub open spec fn render_row_spec(v: PictureView, y: int) -> Seq<u8> {
    Seq::new(v.width as nat, |x: int| if v.points.contains(Point { x: x as u32, y: y as u32 }) {
        35u8  // '#'
    } else {
        32u8  // ' '
    })
}

/// The first `rows` rows of the rendering, separated by line breaks, with no
/// trailing separator.
pub open spec fn render_upto_spec(v: PictureView, rows: int) -> Seq<u8>
    decreases rows,
{
    if rows <= 0 {
        Seq::empty()
    } else if rows == 1 {
        render_row_spec(v, 0)
    } else {
        render_upto_spec(v, rows - 1) + seq![10u8] + render_row_spec(v, rows - 1)
    }
}

/// The whole rendering: all rows up to the height.
pub open spec fn render_spec(v: PictureView) -> Seq<u8> {
    render_upto_spec(v, v.height as int)
}

impl Clone for Picture {
    /// A clone has the same bounds and points as the original.
    fn clone(&self) -> (res: Self)
        ensures
            res@ == self@,
    {
        let mut points: Vec<Point> = Vec::new();
        let mut i: usize = 0;
        while i < self.points.len()
            invariant
                0 <= i <= self.points@.len(),
                points@ == self.points@.take(i as int),
            decreases self.points@.len() - i,
        {
            proof {
                assert(self.points@.take(i + 1).drop_last() =~= self.points@.take(i as int));
            }
            points.push(self.points[i]);
            i = i + 1;
        }
        proof {
            assert(self.points@.take(self.points@.len() as int) =~= self.points@);
        }
        let res = Picture { width: self.width, height: self.height, points };
        proof {
            assert(res@ =~= self@);
        }
        res
    }
}

impl Picture {
    /// The empty picture: no points, width and height zero.
    pub fn new() -> (r: Self)
        ensures
            r@.width == 0,
            r@.height == 0,
            r@.points == Seq::<Point>::empty(),
    {
        Picture { width: 0, height: 0, points: Vec::new() }
    }

    /// Inserts `(x, y)` and widens the bounds to cover it.
    pub fn add(&mut self, x: u32, y: u32)
        requires
            x < u32::MAX,
            y < u32::MAX,
        ensures
            final(self)@.width == if x >= old(self)@.width {
                x + 1
            } else {
                old(self)@.width as int
            },
            final(self)@.height == if y >= old(self)@.height {
                y + 1
            } else {
                old(self)@.height as int
            },
            final(self)@.points == old(self)@.points.push(Point { x, y }),
    {
        if x >= self.width {
            self.width = x + 1;
        }
        if y >= self.height {
            self.height = y + 1;
        }
        self.points.push(Point { x, y });
    }

    /// The width: one past the largest x added so far, or zero.
    pub fn width(&self) -> (r: u32)
        ensures
            r == self@.width,
    {
        self.width
    }

    /// The height: one past the largest y added so far, or zero.
    pub fn height(&self) -> (r: u32)
        ensures
            r == self@.height,
    {
        self.height
    }

    /// Whether `(x, y)` has been added; duplicates collapse here.
    pub fn contains(&self, x: u32, y: u32) -> (r: bool)
        ensures
            r == self@.points.contains(Point { x, y }),
    {
        let mut i: usize = 0;
        while i < self.points.len()
            invariant
                0 <= i <= self@.points.len(),
                forall|j: int| 0 <= j < i ==> self@.points[j] != (Point { x, y }),
            decreases self.points.len() - i,
        {
            let q = self.points[i];
            if q.x == x && q.y == y {
                assert(self@.points[i as int] == (Point { x, y }));
                return true;
            }
            i = i + 1;
        }
        assert(!self@.points.contains(Point { x, y }));
        false
    }

    /// Renders the grid: for each row, a filled marker for each present
    /// point and a blank marker otherwise, rows separated by a line break
    /// with no trailing separator. An empty picture renders as nothing.
    pub fn render(&self) -> (r: Vec<u8>)
        ensures
            r@ == render_spec(self@),
    {
        let mut out: Vec<u8> = Vec::new();
        let mut y: u32 = 0;
        while y < self.height
            invariant
                0 <= y <= self@.height,
                out@ == render_upto_spec(self@, y as int),
            decreases self@.height - y,
        {
            if y != 0 {
                out.push(10u8);
            }
            let ghost row_start = out@;
            let mut x: u32 = 0;
            while x < self.width
                invariant
                    0 <= x <= self@.width,
                    out@ == row_start + render_row_spec(self@, y as int).take(x as int),
                    row_start == if y == 0 {
                        Seq::<u8>::empty()
                    } else {
                        render_upto_spec(self@, y as int) + seq![10u8]
                    },
                decreases self@.width - x,
            {
                proof {
                    let row = render_row_spec(self@, y as int);
                    assert(row.take(x + 1).drop_last() =~= row.take(x as int));
                    assert(row.take(x + 1).last() == row[x as int]);
                }
                if self.contains(x, y) {
                    out.push(35u8);
                } else {
                    out.push(32u8);
                }
                x = x + 1;
            }
            proof {
                let row = render_row_spec(self@, y as int);
                assert(row.take(self@.width as int) =~= row);
                assert(out@ =~= render_upto_spec(self@, y + 1));
            }
            y = y + 1;
        }
        out
    }
}

} // verus!
