//! A rectangular pixel buffer addressed by column and row.
use vstd::prelude::*;
use vstd::string::*;
use crate::text::{decimal, push_decimal};

verus! {

/// The message returned for an access outside a `width` x `height` canvas.
pub open spec fn bounds_message(x: nat, y: nat, width: nat, height: nat) -> Seq<char> {
    "Pixel indices ("@ + decimal(x) + ", "@ + decimal(y)
        + ") are out of bounds for a canvas of size "@ + decimal(width) + "x"@ + decimal(height)
        + "."@
}

/// A `width` x `height` grid of pixels, stored row by row.
pub struct Canvas<T> {
    width: usize,
    height: usize,
    pixels: Vec<T>,
}

impl<T> Canvas<T> {
    pub closed spec fn spec_width(&self) -> nat {
        self.width as nat
    }

    pub closed spec fn spec_height(&self) -> nat {
        self.height as nat
    }

    /// All pixels, row after row.
    pub closed spec fn grid(&self) -> Seq<T> {
        self.pixels@
    }

    pub open spec fn wf(&self) -> bool {
        self.grid().len() == self.spec_width() * self.spec_height()
    }

    pub open spec fn in_bounds(&self, x: int, y: int) -> bool {
        0 <= x < self.spec_width() && 0 <= y < self.spec_height()
    }

    /// The pixel in column `x` of row `y`.
    pub open spec fn pixel(&self, x: int, y: int) -> T {
        self.grid()[y * self.spec_width() + x]
    }

    pub fn width(&self) -> (r: usize)
        ensures
            r == self.spec_width(),
    {
        self.width
    }

    pub fn height(&self) -> (r: usize)
        ensures
            r == self.spec_height(),
    {
        self.height
    }

    fn index_of(&self, x: usize, y: usize) -> (r: usize)
        requires
            self.wf(),
            self.in_bounds(x as int, y as int),
        ensures
            r == y * self.spec_width() + x,
            r < self.grid().len(),
    {
        let len = self.pixels.len();
        proof {
            let (w, h) = (self.width as int, self.height as int);
            assert(y * w + x < h * w) by (nonlinear_arith)
                requires
                    0 <= x < w,
                    0 <= y < h,
            ;
            assert(h * w == w * h) by (nonlinear_arith);
            assert(w * h == len);
            assert(y * w <= y * w + x);
        }
        y * self.width + x
    }

    fn out_of_bounds(&self, x: usize, y: usize) -> (r: String)
        ensures
            r@ == bounds_message(x as nat, y as nat, self.spec_width(), self.spec_height()),
    {
        let mut m = String::from_str("Pixel indices (");
        push_decimal(&mut m, x);
        m.append(", ");
        push_decimal(&mut m, y);
        m.append(") are out of bounds for a canvas of size ");
        push_decimal(&mut m, self.width);
        m.append("x");
        push_decimal(&mut m, self.height);
        m.append(".");
        assert(m@ =~= bounds_message(x as nat, y as nat, self.spec_width(), self.spec_height()));
        m
    }

    /// The pixel at column `x` of row `y`.
    pub fn pixel_at(&self, x: usize, y: usize) -> (r: Result<&T, String>)
        requires
            self.wf(),
        ensures
            self.in_bounds(x as int, y as int) ==> r == Ok::<&T, String>(&self.pixel(x as int, y as int)),
            !self.in_bounds(x as int, y as int) ==> r is Err && r->Err_0@ == bounds_message(
                x as nat,
                y as nat,
                self.spec_width(),
                self.spec_height(),
            ),
    {
        if x < self.width && y < self.height {
            let i = self.index_of(x, y);
            Ok(&self.pixels[i])
        } else {
            Err(self.out_of_bounds(x, y))
        }
    }

    /// Stores `colour` at column `x` of row `y`; outside the grid nothing changes.
    pub fn write_pixel(&mut self, x: usize, y: usize, colour: T) -> (r: Result<(), String>)
        requires
            old(self).wf(),
        ensures
            final(self).wf(),
            final(self).spec_width() == old(self).spec_width(),
            final(self).spec_height() == old(self).spec_height(),
            old(self).in_bounds(x as int, y as int) ==> r is Ok && final(self).grid()
                == old(self).grid().update(y * old(self).spec_width() + x, colour),
            !old(self).in_bounds(x as int, y as int) ==> r is Err && final(self).grid()
                == old(self).grid() && r->Err_0@ == bounds_message(
                x as nat,
                y as nat,
                old(self).spec_width(),
                old(self).spec_height(),
            ),
    {
        if x < self.width && y < self.height {
            let i = self.index_of(x, y);
            self.pixels.set(i, colour);
            Ok(())
        } else {
            Err(self.out_of_bounds(x, y))
        }
    }
}

impl<T: Copy> Canvas<T> {
    /// A `width` x `height` canvas with every pixel set to `background`.
    pub fn new(width: usize, height: usize, background: T) -> (r: Self)
        requires
            width * height <= usize::MAX,
        ensures
            r.wf(),
            r.spec_width() == width,
            r.spec_height() == height,
            forall|i: int| 0 <= i < r.grid().len() ==> r.grid()[i] == background,
    {
        let n = width * height;
        let mut pixels: Vec<T> = Vec::new();
        while pixels.len() < n
            invariant
                pixels@.len() <= n,
                forall|i: int| 0 <= i < pixels@.len() ==> pixels@[i] == background,
            decreases n - pixels@.len(),
        {
            pixels.push(background);
        }
        Canvas { width, height, pixels }
    }
}

impl<T> Canvas<T> {
    /// A `width` x `height` canvas whose pixel at column `x` of row `y` is what
    /// `f(x, y)` returned; every pixel is computed exactly once, row by row.
    pub fn render<F: Fn(usize, usize) -> T>(width: usize, height: usize, f: F) -> (r: Self)
        requires
            width * height <= usize::MAX,
            forall|x: usize, y: usize| x < width && y < height ==> f.requires((x, y)),
        ensures
            r.wf(),
            r.spec_width() == width,
            r.spec_height() == height,
            forall|x: usize, y: usize|
                x < width && y < height ==> f.ensures((x, y), #[trigger] r.pixel(x as int, y as int)),
    {
        let mut pixels: Vec<T> = Vec::new();
        let mut y: usize = 0;
        while y < height
            invariant
                width * height <= usize::MAX,
                forall|x: usize, y: usize| x < width && y < height ==> f.requires((x, y)),
                y <= height,
                pixels@.len() == y * width,
                forall|px: usize, py: usize|
                    px < width && py < y ==> f.ensures((px, py), #[trigger] pixels@[py * width + px]),
            decreases height - y,
        {
            let mut x: usize = 0;
            while x < width
                invariant
                    width * height <= usize::MAX,
                    forall|x: usize, y: usize| x < width && y < height ==> f.requires((x, y)),
                    y < height,
                    x <= width,
                    pixels@.len() == y * width + x,
                    forall|px: usize, py: usize|
                        px < width && py < y ==> f.ensures((px, py), #[trigger] pixels@[py * width + px]),
                    forall|px: usize| px < x ==> f.ensures((px, y), #[trigger] pixels@[y * width + px]),
                decreases width - x,
            {
                proof {
                    assert(y * width + x < width * height) by (nonlinear_arith)
                        requires
                            x < width,
                            y < height,
                    ;
                }
                let c = f(x, y);
                let ghost before = pixels@;
                pixels.push(c);
                proof {
                    assert forall|px: usize, py: usize| px < width && py < y implies f.ensures(
                        (px, py),
                        #[trigger] pixels@[py * width + px],
                    ) by {
                        assert(py * width + px < y * width) by (nonlinear_arith)
                            requires
                                px < width,
                                py < y,
                        ;
                        assert(pixels@[py * width + px] == before[py * width + px]);
                    }
                }
                x += 1;
            }
            proof {
                assert((y + 1) * width == y * width + width) by (nonlinear_arith);
                assert forall|px: usize, py: usize|
                    px < width && py < y + 1 implies f.ensures((px, py), #[trigger] pixels@[py * width + px]) by {
                    if py < y {
                    } else {
                        assert(py == y);
                    }
                }
            }
            y += 1;
        }
        proof {
            assert(height * width == width * height) by (nonlinear_arith);
        }
        let r = Canvas { width, height, pixels };
        assert forall|x: usize, y: usize|
            x < width && y < height implies f.ensures((x, y), #[trigger] r.pixel(x as int, y as int)) by {
            assert(r.pixel(x as int, y as int) == pixels@[y * width + x]);
        }
        r
    }
}

} // verus!
