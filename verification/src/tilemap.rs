//! A small tile map addressed from its bottom row upward.

use vstd::arithmetic::div_mod::lemma_fundamental_div_mod_converse;
use vstd::prelude::*;

verus! {

/// The address of a tile: `x` counts columns from the left, `y` counts
/// rows from the bottom.
#[derive(Clone, Copy, Debug, PartialEq, Eq, Structural)]
pub struct TilePos {
    pub x: u8,
    pub y: u8,
}

/// A map of `width` by `height` tiles. The tiles are stored row by row,
/// the top row first, each row from left to right.
#[derive(Debug)]
pub struct TileMap<T> {
    pub data: Box<[T]>,
    pub width: u8,
    pub height: u8,
}

/// Calls `clone` of the standard library on a boxed slice. Its
/// documentation says that the new box holds a clone of the contents of
/// the old one: as many items, each a clone of the item in its place.
/// This is taken on trust.
#[verifier::external_body]
fn clone_boxed_slice<T: Clone>(items: &Box<[T]>) -> (r: Box<[T]>)
    ensures
        r@.len() == items@.len(),
        forall|i: int| 0 <= i < items@.len() ==> cloned(items@[i], #[trigger] r@[i]),
{
    items.clone()
}

impl<T: Clone> Clone for TileMap<T> {
    /// A map of the same size whose tiles are clones of the tiles of this
    /// one.
    fn clone(&self) -> (r: TileMap<T>)
        ensures
            r.width == self.width,
            r.height == self.height,
            r.data@.len() == self.data@.len(),
            forall|i: int| 0 <= i < self.data@.len() ==> cloned(self.data@[i], #[trigger] r.data@[i]),
    {
        TileMap { data: clone_boxed_slice(&self.data), width: self.width, height: self.height }
    }
}

impl<T> TileMap<T> {
    /// The map holds one tile for each position.
    pub open spec fn wf(&self) -> bool {
        self.data@.len() == self.width * self.height
    }

    /// Whether `index` addresses a tile of the map.
    pub open spec fn contains(&self, index: TilePos) -> bool {
        index.x < self.width && index.y < self.height
    }

    /// Where the tile at `index` stands among the stored tiles.
    pub open spec fn spec_linear_index(&self, index: TilePos) -> int {
        (self.height - index.y - 1) * self.width + index.x
    }

    /// The tile at `index`.
    pub open spec fn spec_index(&self, index: TilePos) -> T {
        self.data@[self.spec_linear_index(index)]
    }

    /// A position inside the map has its place among the stored tiles.
    pub proof fn lemma_linear_index(&self, index: TilePos)
        requires
            self.wf(),
            self.contains(index),
        ensures
            0 <= self.spec_linear_index(index) < self.data@.len(),
    {
        let w = self.width as int;
        let h = self.height as int;
        let row = h - index.y - 1;
        assert(0 <= row * w + index.x < h * w) by (nonlinear_arith)
            requires
                0 <= row < h,
                0 <= index.x < w,
        ;
        assert(h * w == w * h) by (nonlinear_arith);
    }

    #[inline]
    pub fn get_linear_index(&self, index: TilePos) -> (r: u16)
        requires
            index.y < self.height,
        ensures
            r == self.spec_linear_index(index),
    {
        let row: u16 = (self.height - index.y - 1) as u16;
        assert(row * self.width + index.x <= 254 * 255 + 255) by (nonlinear_arith)
            requires
                0 <= row <= 254,
                0 <= self.width <= 255,
                0 <= index.x <= 255,
        ;
        row * self.width as u16 + index.x as u16
    }

    /// The column of the `index`-th stored tile, and the number of rows
    /// that lie between the top edge of the map and the bottom of its row.
    #[inline]
    pub fn get_tile_pos(&self, index: u16) -> (r: TilePos)
        requires
            self.width > 0,
            index / (self.width as u16) <= self.height,
        ensures
            r.x == index % (self.width as u16),
            r.y == self.height - index / (self.width as u16),
    {
        let column: u16 = index % self.width as u16;
        let row: u16 = index / self.width as u16;
        TilePos { x: column as u8, y: self.height - row as u8 }
    }

    /// The tile at `index`, which has to address a tile of the map.
    #[inline]
    pub fn index(&self, index: TilePos) -> (r: &T)
        requires
            self.wf(),
            self.contains(index),
        ensures
            *r == self.spec_index(index),
    {
        proof {
            self.lemma_linear_index(index);
        }
        let i = self.get_linear_index(index);
        &self.data[i as usize]
    }

    /// The tile at `index`, which has to address a tile of the map, for
    /// writing. No other tile changes.
    #[inline]
    pub fn index_mut(&mut self, index: TilePos) -> (r: &mut T)
        requires
            old(self).wf(),
            old(self).contains(index),
        ensures
            *r == old(self).spec_index(index),
            final(self).width == old(self).width,
            final(self).height == old(self).height,
            final(self).data@ == old(self).data@.update(
                old(self).spec_linear_index(index),
                *final(r),
            ),
    {
        proof {
            self.lemma_linear_index(index);
        }
        let i = self.get_linear_index(index);
        &mut self.data[i as usize]
    }
}

/// The positions of a map of the given size, row by row from the bottom
/// row upward, each row from left to right.
pub open spec fn scan(width: u8, height: u8) -> Seq<TilePos> {
    Seq::new(
        (width * height) as nat,
        |k: int| TilePos { x: (k % (width as int)) as u8, y: (k / (width as int)) as u8 },
    )
}

/// The positions of the tiles of `map` that are not 0, in the order of
/// `scan`.
pub open spec fn spec_make_map_offsets(map: &TileMap<u8>) -> Seq<TilePos> {
    scan(map.width, map.height).filter(|p: TilePos| map.spec_index(p) != 0)
}

/// The positions of the tiles of `map` that are not 0: bottom row first,
/// each row from left to right.
pub fn make_map_offsets(map: &TileMap<u8>) -> (offsets: Vec<TilePos>)
    requires
        map.wf(),
    ensures
        offsets@ == spec_make_map_offsets(map),
{
    let ghost all = scan(map.width, map.height);
    let ghost pred = |p: TilePos| map.spec_index(p) != 0;
    let mut offsets: Vec<TilePos> = Vec::new();
    let mut y: u8 = 0;
    assert(all.take(0) =~= Seq::<TilePos>::empty());
    assert(0 * map.width == 0) by (nonlinear_arith);
    while y < map.height
        invariant
            y <= map.height,
            map.wf(),
            all == scan(map.width, map.height),
            pred == (|p: TilePos| map.spec_index(p) != 0),
            offsets@ == all.take(y * map.width).filter(pred),
        decreases map.height - y,
    {
        let mut x: u8 = 0;
        while x < map.width
            invariant
                y < map.height,
                x <= map.width,
                map.wf(),
                all == scan(map.width, map.height),
                pred == (|p: TilePos| map.spec_index(p) != 0),
                offsets@ == all.take(y * map.width + x).filter(pred),
            decreases map.width - x,
        {
            let pos = TilePos { x, y };
            proof {
                let n = y * map.width + x;
                let w = map.width as int;
                assert(0 <= n < map.width * map.height) by (nonlinear_arith)
                    requires
                        n == y * w + x,
                        0 <= x < w,
                        0 <= y < map.height,
                        w == map.width,
                ;
                lemma_fundamental_div_mod_converse(n, w, y as int, x as int);
                assert(all[n] == pos);
                assert(all.take(n + 1) =~= all.take(n).push(pos));
                all.take(n).lemma_filter_push(pos, pred);
            }
            if *map.index(pos) != 0 {
                offsets.push(pos);
            }
            x = x + 1;
        }
        proof {
            assert((y + 1) * map.width == y * map.width + map.width) by (nonlinear_arith);
        }
        y = y + 1;
    }
    proof {
        assert(map.height * map.width == map.width * map.height) by (nonlinear_arith);
        assert(all.take(all.len() as int) =~= all);
    }
    offsets
}

} // verus!
