use vstd::prelude::*;

use crate::color::{default_color, Color};

verus! {

/// Why a grid operation was refused.
#[derive(Debug, Clone, Copy, PartialEq, Eq, Structural)]
pub enum GridError {
    /// A grid was asked for with a non-positive size.
    InvalidDimension,
    /// A coordinate lies outside the grid's current extent.
    OutOfBounds,
}

/// Who claimed a pixel.
pub struct Author {
    pub name: String,
}

impl View for Author {
    type V = Seq<char>;

    open spec fn view(&self) -> Seq<char> {
        self.name@
    }
}

impl Author {
    pub fn new(name: String) -> (r: Author)
        ensures
            r@ == name@,
    {
        Author { name }
    }
}

/// What a pixel holds, as plain values.
pub struct PixelView {
    pub x: int,
    pub y: int,
    pub color: Color,
    pub author: Option<Seq<char>>,
}

/// The pixel at `(x, y)` as the grid makes it: unclaimed, default-colored.
pub open spec fn fresh_pixel(x: int, y: int) -> PixelView {
    PixelView { x, y, color: default_color(), author: None }
}

/// One cell of the grid.
pub struct Pixel {
    x: i32,
    y: i32,
    author: Option<Author>,
    color: Color,
}

/// The name of the author, if any.
pub open spec fn author_view(a: Option<Author>) -> Option<Seq<char>> {
    match a {
        Some(a) => Some(a@),
        None => None,
    }
}

impl View for Pixel {
    type V = PixelView;

    closed spec fn view(&self) -> PixelView {
        PixelView {
            x: self.x as int,
            y: self.y as int,
            color: self.color,
            author: author_view(self.author),
        }
    }
}

impl Pixel {
    fn new(x: i32, y: i32) -> (r: Pixel)
        ensures
            r@ == fresh_pixel(x as int, y as int),
    {
        Pixel { x, y, author: None, color: Color::White }
    }

    pub fn x(&self) -> (r: i32)
        ensures
            r as int == self@.x,
    {
        self.x
    }

    pub fn y(&self) -> (r: i32)
        ensures
            r as int == self@.y,
    {
        self.y
    }

    pub fn color(&self) -> (r: Color)
        ensures
            r == self@.color,
    {
        self.color
    }

    /// The author's name, if the pixel is claimed.
    pub fn author(&self) -> (r: Option<&str>)
        ensures
            match r {
                Some(s) => self@.author == Some(s@),
                None => self@.author is None,
            },
    {
        match &self.author {
            Some(a) => Some(a.name.as_str()),
            None => None,
        }
    }
}

/// A square, growable matrix of pixels; `rows[y][x]` is the pixel `(x, y)`.
pub struct Board {
    size: i32,
    rows: Vec<Vec<Pixel>>,
}

impl Board {
    /// The number of rows, and of pixels in each row.
    pub closed spec fn size_spec(&self) -> int {
        self.size as int
    }

    pub open spec fn in_bounds(&self, x: int, y: int) -> bool {
        0 <= x < self.size_spec() && 0 <= y < self.size_spec()
    }

    /// The pixel at `(x, y)`, meaningful for coordinates in bounds.
    pub closed spec fn pixel(&self, x: int, y: int) -> PixelView {
        self.rows@[y]@[x]@
    }

    /// The grid is square and every pixel sits at the coordinates it names.
    pub closed spec fn wf(&self) -> bool {
        &&& self.size > 0
        &&& self.rows@.len() == self.size
        &&& forall|y: int| 0 <= y < self.size ==> #[trigger] self.rows@[y]@.len() == self.size
        &&& forall|x: int, y: int|
            self.in_bounds(x, y) ==> (#[trigger] self.pixel(x, y)).x == x && self.pixel(x, y).y == y
    }

    /// A `size` by `size` grid of unclaimed, default-colored pixels.
    pub fn new(size: i32) -> (r: Result<Board, GridError>)
        ensures
            size <= 0 <==> r == Err::<Board, GridError>(GridError::InvalidDimension),
            size > 0 <==> r is Ok,
            r matches Ok(b) ==> {
                &&& b.wf()
                &&& b.size_spec() == size
                &&& forall|x: int, y: int| b.in_bounds(x, y) ==> #[trigger] b.pixel(x, y) == fresh_pixel(x, y)
            },
    {
        if size <= 0 {
            return Err(GridError::InvalidDimension);
        }
        let mut rows: Vec<Vec<Pixel>> = Vec::new();
        let mut y: i32 = 0;
        while y < size
            invariant
                0 <= y <= size,
                rows@.len() == y,
                forall|j: int| 0 <= j < y ==> #[trigger] rows@[j]@.len() == size,
                forall|i: int, j: int|
                    0 <= i < size && 0 <= j < y ==> #[trigger] rows@[j]@[i]@ == fresh_pixel(i, j),
            decreases size - y,
        {
            let mut row: Vec<Pixel> = Vec::new();
            let mut x: i32 = 0;
            while x < size
                invariant
                    0 <= x <= size,
                    0 <= y < size,
                    row@.len() == x,
                    forall|i: int| 0 <= i < x ==> #[trigger] row@[i]@ == fresh_pixel(i, y as int),
                decreases size - x,
            {
                row.push(Pixel::new(x, y));
                x = x + 1;
            }
            rows.push(row);
            y = y + 1;
        }
        let b = Board { size, rows };
        assert(forall|x: int, y: int| b.in_bounds(x, y) ==> #[trigger] b.pixel(x, y) == fresh_pixel(x, y));
        Ok(b)
    }

    /// The pixel at `(x, y)`.
    pub fn get_pixel(&self, x: i32, y: i32) -> (r: Result<&Pixel, GridError>)
        requires
            self.wf(),
        ensures
            self.in_bounds(x as int, y as int) <==> r is Ok,
            !self.in_bounds(x as int, y as int) ==> r == Err::<&Pixel, GridError>(GridError::OutOfBounds),
            r matches Ok(p) ==> p@ == self.pixel(x as int, y as int),
    {
        if x < 0 || y < 0 || x >= self.size || y >= self.size {
            return Err(GridError::OutOfBounds);
        }
        Ok(&self.rows[y as usize][x as usize])
    }

    /// Paints the pixel at `(x, y)`, leaving its author as it was.
    pub fn set_pixel_color(&mut self, x: i32, y: i32, color: Color) -> (r: Result<(), GridError>)
        requires
            old(self).wf(),
        ensures
            final(self).wf(),
            final(self).size_spec() == old(self).size_spec(),
            old(self).in_bounds(x as int, y as int) <==> r is Ok,
            !old(self).in_bounds(x as int, y as int) ==> r == Err::<(), GridError>(GridError::OutOfBounds),
            forall|i: int, j: int|
                #![trigger final(self).pixel(i, j)]
                old(self).in_bounds(i, j) ==> final(self).pixel(i, j) == if i == x && j == y {
                    PixelView { color, ..old(self).pixel(i, j) }
                } else {
                    old(self).pixel(i, j)
                },
    {
        if x < 0 || y < 0 || x >= self.size || y >= self.size {
            return Err(GridError::OutOfBounds);
        }
        self.rows[y as usize][x as usize].color = color;
        proof {
            assert forall|j: int| 0 <= j < self.size implies #[trigger] self.rows@[j]@.len() == self.size by {
                assert(old(self).rows@[j]@.len() == self.size);
            }
            assert forall|i: int, j: int| self.in_bounds(i, j) implies (#[trigger] self.pixel(i, j)).x == i
                && self.pixel(i, j).y == j by {
                assert(old(self).pixel(i, j).x == i);
            }
        }
        Ok(())
    }

    /// Gives the pixel at `(x, y)` to `author`, replacing any earlier one and
    /// leaving its color as it was.
    pub fn set_pixel_author(&mut self, x: i32, y: i32, author: Author) -> (r: Result<(), GridError>)
        requires
            old(self).wf(),
        ensures
            final(self).wf(),
            final(self).size_spec() == old(self).size_spec(),
            old(self).in_bounds(x as int, y as int) <==> r is Ok,
            !old(self).in_bounds(x as int, y as int) ==> r == Err::<(), GridError>(GridError::OutOfBounds),
            forall|i: int, j: int|
                #![trigger final(self).pixel(i, j)]
                old(self).in_bounds(i, j) ==> final(self).pixel(i, j) == if i == x && j == y {
                    PixelView { author: Some(author@), ..old(self).pixel(i, j) }
                } else {
                    old(self).pixel(i, j)
                },
    {
        if x < 0 || y < 0 || x >= self.size || y >= self.size {
            return Err(GridError::OutOfBounds);
        }
        self.rows[y as usize][x as usize].author = Some(author);
        proof {
            assert forall|j: int| 0 <= j < self.size implies #[trigger] self.rows@[j]@.len() == self.size by {
                assert(old(self).rows@[j]@.len() == self.size);
            }
            assert forall|i: int, j: int| self.in_bounds(i, j) implies (#[trigger] self.pixel(i, j)).x == i
                && self.pixel(i, j).y == j by {
                assert(old(self).pixel(i, j).x == i);
            }
        }
        Ok(())
    }

    /// Adds one row at the bottom and one column at the right, both of fresh
    /// pixels; every pixel already there keeps its coordinates and contents.
    pub fn increase_size(&mut self)
        requires
            old(self).wf(),
            old(self).size_spec() < i32::MAX,
        ensures
            final(self).wf(),
            final(self).size_spec() == old(self).size_spec() + 1,
            forall|i: int, j: int|
                old(self).in_bounds(i, j) ==> #[trigger] final(self).pixel(i, j) == old(self).pixel(i, j),
            forall|i: int, j: int|
                final(self).in_bounds(i, j) && !old(self).in_bounds(i, j) ==> #[trigger] final(self).pixel(i, j)
                    == fresh_pixel(i, j),
    {
        let n = self.size;
        let mut y: i32 = 0;
        while y < n
            invariant
                0 <= y <= n,
                n == old(self).size,
                self.size == n,
                self.rows@.len() == n,
                forall|j: int| 0 <= j < n ==> #[trigger] old(self).rows@[j]@.len() == n,
                forall|j: int| 0 <= j < y ==> #[trigger] self.rows@[j]@.len() == n + 1,
                forall|j: int| y <= j < n ==> #[trigger] self.rows@[j] == old(self).rows@[j],
                forall|i: int, j: int|
                    0 <= i < n && 0 <= j < y ==> #[trigger] self.rows@[j]@[i] == old(self).rows@[j]@[i],
                forall|j: int| 0 <= j < y ==> #[trigger] self.rows@[j]@[n as int]@ == fresh_pixel(n as int, j),
            decreases n - y,
        {
            self.rows[y as usize].push(Pixel::new(n, y));
            y = y + 1;
        }
        let mut row: Vec<Pixel> = Vec::new();
        let mut x: i32 = 0;
        while x <= n
            invariant
                0 <= x <= n + 1,
                n < i32::MAX,
                row@.len() == x,
                forall|i: int| 0 <= i < x ==> #[trigger] row@[i]@ == fresh_pixel(i, n as int),
            decreases n + 1 - x,
        {
            row.push(Pixel::new(x, n));
            x = x + 1;
        }
        self.rows.push(row);
        self.size = n + 1;
        proof {
            assert forall|i: int, j: int| old(self).in_bounds(i, j) implies #[trigger] self.pixel(i, j)
                == old(self).pixel(i, j) by {
                assert(self.rows@[j]@[i] == old(self).rows@[j]@[i]);
            }
            assert forall|i: int, j: int| self.in_bounds(i, j) && !old(self).in_bounds(i, j) implies
                #[trigger] self.pixel(i, j) == fresh_pixel(i, j) by {
                if j < n {
                    assert(i == n);
                }
            }
            assert forall|i: int, j: int| self.in_bounds(i, j) implies (#[trigger] self.pixel(i, j)).x == i
                && self.pixel(i, j).y == j by {
                if old(self).in_bounds(i, j) {
                    assert(self.pixel(i, j) == old(self).pixel(i, j));
                    assert(old(self).pixel(i, j).x == i);
                } else {
                    assert(self.pixel(i, j) == fresh_pixel(i, j));
                }
            }
            assert forall|j: int| 0 <= j < self.size implies #[trigger] self.rows@[j]@.len() == self.size by {
            }
        }
    }

    pub fn get_size(&self) -> (r: i32)
        requires
            self.wf(),
        ensures
            r as int == self.size_spec(),
            r > 0,
    {
        self.size
    }
}

} // verus!
