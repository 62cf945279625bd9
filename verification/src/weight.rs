//! Occupancy as small numbers: two grids are laid over each other by adding
//! their cells, and a sum above 1 shows where both are occupied.

use vstd::prelude::*;
use vstd::arithmetic::div_mod::lemma_fundamental_div_mod;
use crate::geometry::{lemma_index_in_area, lemma_index_injective, Position, Size};
use crate::grid::Grid;

verus! {

/// A grid of occupancy weights, row by row.
#[derive(Debug, PartialEq)]
pub struct Weight {
    pub size: Size,
    pub source: Vec<u8>,
}

impl Weight {
    /// There is one weight for each cell of the extent.
    pub open spec fn wf(&self) -> bool {
        self.source@.len() == self.size.area()
    }

    /// The weight at column `x`, row `y`; outside the grid it is 0.
    pub open spec fn at(&self, x: int, y: int) -> int {
        if 0 <= x < self.size.x && 0 <= y < self.size.y {
            self.source@[self.size.x * y + x] as int
        } else {
            0
        }
    }

    /// Whether `other`, with its top left corner at `p`, lies inside this
    /// grid.
    pub open spec fn fits(&self, p: Position, other: &Weight) -> bool {
        p.x + other.size.x <= self.size.x && p.y + other.size.y <= self.size.y
    }

    /// Whether laying `other` on this grid at `p` keeps each sum within a
    /// byte.
    pub open spec fn sums_fit(&self, p: Position, other: &Weight) -> bool {
        forall|x: int, y: int|
            0 <= x < other.size.x && 0 <= y < other.size.y ==> self.at(p.x + x, p.y + y)
                + #[trigger] other.at(x, y) <= u8::MAX
    }

    /// No cell is occupied twice: each weight is at most 1.
    pub open spec fn is_valid(&self) -> bool {
        forall|i: int| 0 <= i < self.source@.len() ==> #[trigger] self.source@[i] <= 1
    }

    /// The grid of the given extent and weights. Nothing is asked of them
    /// here: what needs one weight for each cell says so.
    pub fn new(size: Size, source: Vec<u8>) -> (weight: Self)
        ensures
            weight.size == size,
            weight.source == source,
    {
        Self { size, source }
    }

    /// Whether `other` at `p` lies inside this grid. The answer is that of
    /// the sums over the integers: no extent is too large to be compared.
    pub fn on_inside(&self, p: &Position, other: &Self) -> (inside: bool)
        ensures
            inside == self.fits(*p, other),
    {
        other.size.x <= self.size.x && p.x <= self.size.x - other.size.x && other.size.y
            <= self.size.y && p.y <= self.size.y - other.size.y
    }

    /// The weight of the cell `p`.
    pub fn weight(&self, p: Position) -> (w: u8)
        requires
            self.wf(),
            self.size.contains(p),
        ensures
            w == self.at(p.x as int, p.y as int),
    {
        proof {
            lemma_index_in_area(self.size.x as int, self.size.y as int, p.x as int, p.y as int);
            assert(self.source@.len() == self.source.len());
        }
        self.source[p.index(&self.size)]
    }

    /// Adds `w` to the cell `p` and leaves every other cell as it was.
    pub fn add_weight(&mut self, p: Position, w: u8)
        requires
            old(self).wf(),
            old(self).size.contains(p),
            old(self).at(p.x as int, p.y as int) + w <= u8::MAX,
        ensures
            final(self).wf(),
            final(self).size == old(self).size,
            forall|x: int, y: int|
                #[trigger] final(self).at(x, y) == old(self).at(x, y) + (if x == p.x && y == p.y {
                    w as int
                } else {
                    0
                }),
    {
        proof {
            lemma_index_in_area(self.size.x as int, self.size.y as int, p.x as int, p.y as int);
            assert(self.source@.len() == self.source.len());
        }
        let i = p.index(&self.size);
        let sum = self.source[i] + w;
        self.source.set(i, sum);
        proof {
            assert forall|x: int, y: int|
                #[trigger] self.at(x, y) == old(self).at(x, y) + (if x == p.x && y == p.y {
                    w as int
                } else {
                    0
                }) by {
                if 0 <= x < self.size.x && 0 <= y < self.size.y {
                    lemma_index_in_area(self.size.x as int, self.size.y as int, x, y);
                    if self.size.x * y + x == i {
                        lemma_index_injective(self.size.x as int, x, y, p.x as int, p.y as int);
                    }
                }
            }
        }
    }

    /// Lays `other` on a copy of this grid with its top left corner at `p`.
    ///
    /// It fails exactly when `other` would reach outside this grid.
    /// Otherwise each cell of the result is the sum of the two cells that
    /// lie on it; where `other` does not reach, the cell is unchanged.
    pub fn overlap(&self, p: &Position, other: Self) -> (result: Result<Self, ()>)
        requires
            self.wf(),
            other.wf(),
            self.fits(*p, &other) ==> self.sums_fit(*p, &other),
        ensures
            result is Ok <==> self.fits(*p, &other),
            result matches Ok(sum) ==> {
                &&& sum.wf()
                &&& sum.size == self.size
                &&& forall|x: int, y: int|
                    #[trigger] sum.at(x, y) == self.at(x, y) + other.at(x - p.x, y - p.y)
            },
    {
        if !self.on_inside(p, &other) {
            return Err(());
        }
        let mut weight = Self::new(self.size, self.source.clone());
        assert(weight.source@ =~= self.source@);
        for y in 0..other.size.y
            invariant
                self.wf(),
                other.wf(),
                self.fits(*p, &other),
                self.sums_fit(*p, &other),
                weight.wf(),
                weight.size == self.size,
                forall|cx: int, cy: int|
                    #[trigger] weight.at(cx, cy) == self.at(cx, cy) + (if cy - p.y < y {
                        other.at(cx - p.x, cy - p.y)
                    } else {
                        0
                    }),
        {
            for x in 0..other.size.x
                invariant
                    self.wf(),
                    other.wf(),
                    self.fits(*p, &other),
                    self.sums_fit(*p, &other),
                    y < other.size.y,
                    weight.wf(),
                    weight.size == self.size,
                    forall|cx: int, cy: int|
                        #[trigger] weight.at(cx, cy) == self.at(cx, cy) + (if cy - p.y < y || (cy
                            - p.y == y && cx - p.x < x) {
                            other.at(cx - p.x, cy - p.y)
                        } else {
                            0
                        }),
            {
                let w = other.weight(Position::new(x, y));
                assert(self.at(p.x + x, p.y + y) + other.at(x as int, y as int) <= u8::MAX);
                weight.add_weight(Position::new(p.x + x, p.y + y), w);
            }
        }
        Ok(weight)
    }

    /// Whether no cell is occupied twice.
    pub fn valid(&self) -> (valid: bool)
        ensures
            valid == self.is_valid(),
    {
        for i in 0..self.source.len()
            invariant
                forall|j: int| 0 <= j < i ==> #[trigger] self.source@[j] <= 1,
        {
            if self.source[i] > 1 {
                return false;
            }
        }
        true
    }

    /// Weights taken from a grid of cells weigh each cell where it lies: 1
    /// where the cell is occupied, 0 where it is empty.
    pub proof fn lemma_weighs(&self, grid: Grid)
        requires
            grid.wf(),
            self.size == grid.size,
            self.source@ == grid.weights(),
        ensures
            self.wf(),
            forall|x: int, y: int| #[trigger] self.at(x, y) == grid.at(x, y).weight(),
    {
        assert forall|x: int, y: int| #[trigger] self.at(x, y) == grid.at(x, y).weight() by {
            if 0 <= x < grid.size.x && 0 <= y < grid.size.y {
                lemma_index_in_area(grid.size.x as int, grid.size.y as int, x, y);
            }
        }
    }

    /// A grid of weights is valid exactly when no cell of it weighs more
    /// than 1.
    pub proof fn lemma_valid_by_cells(&self)
        requires
            self.wf(),
        ensures
            self.is_valid() <==> forall|x: int, y: int| #[trigger] self.at(x, y) <= 1,
    {
        if self.is_valid() {
            assert forall|x: int, y: int| #[trigger] self.at(x, y) <= 1 by {
                if 0 <= x < self.size.x && 0 <= y < self.size.y {
                    lemma_index_in_area(self.size.x as int, self.size.y as int, x, y);
                }
            }
        }
        if forall|x: int, y: int| #[trigger] self.at(x, y) <= 1 {
            assert forall|i: int| 0 <= i < self.source@.len() implies #[trigger] self.source@[i]
                <= 1 by {
                let w = self.size.x as int;
                if w == 0 {
                    assert(self.size.x * self.size.y == 0) by (nonlinear_arith)
                        requires
                            self.size.x == 0,
                    ;
                } else {
                    let x = i % w;
                    let y = i / w;
                    lemma_fundamental_div_mod(i, w);
                    assert(0 <= y) by (nonlinear_arith)
                        requires
                            i == w * y + x,
                            x < w,
                            0 <= i,
                            w > 0,
                    ;
                    if y >= self.size.y {
                        assert(w * y >= w * self.size.y) by (nonlinear_arith)
                            requires
                                y >= self.size.y,
                                w > 0,
                        ;
                    }
                    assert(self.at(x, y) <= 1);
                }
            }
        }
    }
}

} // verus!
