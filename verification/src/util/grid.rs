use crate::util::index::GridIndex;
use vstd::prelude::*;

verus! {

/// A dense two-dimensional container of fixed size. The cells are stored
/// row by row, each row from west to east.
pub struct Grid<T> {
    data: Vec<T>,
    size: GridIndex,
}

impl<T> Grid<T> {
    #[verifier::type_invariant]
    spec fn inv(&self) -> bool {
        self.data@.len() == self.size.x * self.size.y
    }

    /// Width and height of the grid.
    pub closed spec fn spec_size(&self) -> GridIndex {
        self.size
    }

    /// The cells of the grid, row by row.
    pub closed spec fn view(&self) -> Seq<T> {
        Seq::new((self.size.x * self.size.y) as nat, |i: int| self.data@[i])
    }

    /// Whether `index` addresses a cell of the grid.
    pub open spec fn spec_bounds_check(&self, index: GridIndex) -> bool {
        index.x < self.spec_size().x && index.y < self.spec_size().y
    }

    /// Where the cell at `index` stands among the cells taken row by row.
    pub open spec fn spec_linear_index(&self, index: GridIndex) -> int {
        index.y * self.spec_size().x + index.x
    }

    /// The cell at `index`.
    pub open spec fn spec_index(&self, index: GridIndex) -> T {
        self@[self.spec_linear_index(index)]
    }

    /// A grid holds one cell for each position below its size.
    pub proof fn lemma_view_len(&self)
        ensures
            self@.len() == self.spec_size().x * self.spec_size().y,
    {
    }

    /// Positions inside the grid have their own place among its cells:
    /// the place lies below the number of cells, and two positions share
    /// a place only if they are the same.
    pub proof fn lemma_linear_index(&self, a: GridIndex, b: GridIndex)
        requires
            self.spec_bounds_check(a),
            self.spec_bounds_check(b),
        ensures
            0 <= self.spec_linear_index(a) < self@.len(),
            self.spec_linear_index(a) == self.spec_linear_index(b) ==> a == b,
    {
        let w = self.spec_size().x as int;
        let h = self.spec_size().y as int;
        assert(a.y * w + a.x < h * w) by (nonlinear_arith)
            requires
                0 <= a.x < w,
                0 <= a.y < h,
        ;
        assert(h * w == w * h) by (nonlinear_arith);
        if self.spec_linear_index(a) == self.spec_linear_index(b) {
            assert(a.y == b.y) by (nonlinear_arith)
                requires
                    a.y * w + a.x == b.y * w + b.x,
                    0 <= a.x < w,
                    0 <= b.x < w,
            ;
        }
    }

    #[verifier::when_used_as_spec(spec_size)]
    pub fn size(&self) -> (r: GridIndex)
        ensures
            r == self.spec_size(),
    {
        self.size
    }

    #[verifier::when_used_as_spec(spec_bounds_check)]
    pub fn bounds_check(&self, index: GridIndex) -> (r: bool)
        ensures
            r == self.spec_bounds_check(index),
    {
        index.x < self.size.x && index.y < self.size.y
    }

    fn linear_index(&self, index: GridIndex) -> (r: usize)
        ensures
            r == self.spec_linear_index(index),
    {
        assert(index.y * self.size.x <= 255 * 255) by (nonlinear_arith)
            requires
                0 <= index.y <= 255,
                0 <= self.size.x <= 255,
        ;
        index.y as usize * self.size.x as usize + index.x as usize
    }

    /// The cell at `index`, which has to address a cell of the grid.
    pub fn index(&self, index: GridIndex) -> (r: &T)
        requires
            self.spec_bounds_check(index),
        ensures
            *r == self.spec_index(index),
    {
        proof {
            use_type_invariant(self);
            self.lemma_linear_index(index, index);
        }
        let i = self.linear_index(index);
        &self.data[i]
    }

    /// The cell at `index`, which has to address a cell of the grid, for
    /// writing. No other cell changes.
    pub fn index_mut(&mut self, index: GridIndex) -> (r: &mut T)
        requires
            old(self).spec_bounds_check(index),
        ensures
            *r == old(self).spec_index(index),
            final(self).spec_size() == old(self).spec_size(),
            final(self)@ == old(self)@.update(old(self).spec_linear_index(index), *final(r)),
            final(self).spec_index(index) == *final(r),
            forall|other: GridIndex|
                old(self).spec_bounds_check(other) && other != index ==> #[trigger] final(self)
                    .spec_index(other) == old(self).spec_index(other),
    {
        proof {
            use_type_invariant(&*self);
            self.lemma_linear_index(index, index);
            assert forall|other: GridIndex|
                self.spec_bounds_check(other) && other != index implies self.spec_linear_index(
                other,
            ) != self.spec_linear_index(index) && 0 <= self.spec_linear_index(other)
                < self@.len() by {
                self.lemma_linear_index(other, index);
            }
        }
        let i = self.linear_index(index);
        &mut self.data[i]
    }
}

impl<T: Default> Grid<T> {
    /// A grid of the given size, every cell of which holds the default
    /// value of its type.
    pub fn of_default(size: GridIndex) -> (r: Grid<T>)
        ensures
            r.spec_size() == size,
            forall|i: int| 0 <= i < r@.len() ==> call_ensures(T::default, (), #[trigger] r@[i]),
    {
        assert(size.x * size.y <= 255 * 255) by (nonlinear_arith)
            requires
                0 <= size.x <= 255,
                0 <= size.y <= 255,
        ;
        let capacity: usize = size.x as usize * size.y as usize;
        let mut vec: Vec<T> = Vec::with_capacity(capacity);
        let mut n: usize = 0;
        while n < capacity
            invariant
                n <= capacity,
                vec@.len() == n,
                forall|i: int| 0 <= i < n ==> call_ensures(T::default, (), #[trigger] vec@[i]),
            decreases capacity - n,
        {
            vec.push(T::default());
            n = n + 1;
        }
        Grid { data: vec, size }
    }
}

impl<T: Clone> Grid<T> {
    /// A grid of the given size, every cell of which holds a clone of
    /// `val`.
    pub fn of(size: GridIndex, val: T) -> (r: Grid<T>)
        ensures
            r.spec_size() == size,
            forall|i: int| 0 <= i < r@.len() ==> cloned(val, #[trigger] r@[i]),
    {
        assert(size.x * size.y <= 255 * 255) by (nonlinear_arith)
            requires
                0 <= size.x <= 255,
                0 <= size.y <= 255,
        ;
        let capacity: usize = size.x as usize * size.y as usize;
        Grid { data: vec![val; capacity], size }
    }
}

impl<T: Clone> Clone for Grid<T> {
    /// A grid of the same size whose cells are clones of the cells of this
    /// one.
    fn clone(&self) -> (r: Grid<T>)
        ensures
            r.spec_size() == self.spec_size(),
            forall|i: int| 0 <= i < self@.len() ==> cloned(self@[i], #[trigger] r@[i]),
    {
        proof {
            use_type_invariant(self);
        }
        Grid { data: self.data.clone(), size: self.size }
    }
}

impl<T> Default for Grid<T> {
    /// The grid without cells.
    fn default() -> (r: Grid<T>)
        ensures
            r.spec_size() == (GridIndex { x: 0, y: 0 }),
    {
        Grid { data: Vec::new(), size: GridIndex { x: 0, y: 0 } }
    }
}

} // verus!
