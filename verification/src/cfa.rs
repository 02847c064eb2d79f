//! Color filter array patterns of arbitrary tile size (Bayer 2×2, X-Trans
//! 6×6, ...).
use vstd::prelude::*;

verus! {

/// A repeating color filter pattern: a `width × height` tile of color
/// indices (0 = R, 1 = G, 2 = B), row-major.
pub struct CfaPattern {
    colors: Vec<u8>,
    width: usize,
    height: usize,
}

impl CfaPattern {
    /// The tile holds exactly `width × height` colors.
    #[verifier::type_invariant]
    spec fn tile_complete(self) -> bool {
        self.colors@.len() == self.width * self.height
    }

    /// Tile width.
    pub closed spec fn spec_width(self) -> nat {
        self.width as nat
    }

    /// Tile height.
    pub closed spec fn spec_height(self) -> nat {
        self.height as nat
    }

    /// The color at tile position `(r, c)`.
    pub closed spec fn tile_color(self, r: int, c: int) -> u8 {
        self.colors@[r * self.width + c]
    }

    /// Create from a flat color array with the given tile dimensions.
    ///
    /// Colors: 0=R, 1=G, 2=B (matching rawloader convention).
    pub fn new(colors: Vec<u8>, width: usize, height: usize) -> (r: Self)
        requires
            colors@.len() == width * height,
        ensures
            r.spec_width() == width,
            r.spec_height() == height,
            forall|row: int, col: int|
                0 <= row < height && 0 <= col < width ==> #[trigger] r.tile_color(row, col)
                    == colors@[row * width + col],
    {
        CfaPattern { colors, width, height }
    }

    /// Color index at (row, col), wrapping by the tile dimensions.
    pub fn color_at(&self, row: usize, col: usize) -> (r: usize)
        requires
            self.spec_width() > 0,
            self.spec_height() > 0,
        ensures
            r == self.tile_color(row as int % self.spec_height() as int, col as int % self.spec_width() as int),
    {
        proof {
            use_type_invariant(self);
        }
        let tile_len = self.colors.len();
        let r = row % self.height;
        let c = col % self.width;
        proof {
            assert(r * self.width + c < self.width * self.height) by (nonlinear_arith)
                requires
                    r < self.height,
                    c < self.width,
            ;
            assert(r * self.width <= r * self.width + c);
            assert(r * self.width + c < tile_len);
        }
        self.colors[r * self.width + c] as usize
    }
}

/// The side of a square CFA tile of `len` sites, when `len` is a positive
/// perfect square (an X-Trans pattern has 36 sites, side 6).
pub fn square_tile_side(len: usize) -> (r: Option<usize>)
    ensures
        match r {
            Some(n) => n > 0 && n * n == len,
            None => forall|n: int| 0 < n ==> #[trigger] (n * n) != len,
        },
{
    let mut n: usize = 1;
    while n <= len / n
        invariant
            1 <= n,
            forall|k: int| 0 < k < n ==> #[trigger] (k * k) < len,
        decreases len + 1 - n,
    {
        proof {
            assert(n * n <= len) by (nonlinear_arith)
                requires
                    n <= len / n,
                    n >= 1,
            ;
            assert(n < usize::MAX) by (nonlinear_arith)
                requires
                    n * n <= len,
                    len <= usize::MAX,
                    n >= 1,
            ;
        }
        if n * n == len {
            return Some(n);
        }
        n = n + 1;
    }
    proof {
        assert forall|k: int| 0 < k implies #[trigger] (k * k) != len by {
            if k >= n {
                assert(k * k > len) by (nonlinear_arith)
                    requires
                        k >= n,
                        n > len / n,
                        n >= 1,
                ;
            }
        }
    }
    None
}

} // verus!
