use crate::util::direction::Direction;
use crate::util::index::GridIndex;
use vstd::arithmetic::div_mod::lemma_fundamental_div_mod;
use vstd::arithmetic::div_mod::lemma_fundamental_div_mod_converse;
use vstd::arithmetic::div_mod::lemma_mod_pos_bound;
use vstd::arithmetic::div_mod::lemma_multiply_divide_lt;
use vstd::arithmetic::div_mod::lemma_div_pos_is_pos;
use vstd::prelude::*;

verus! {

/// The position `k` units away from `origin` in `dir`.
pub open spec fn line_at(origin: GridIndex, dir: Direction, k: int) -> GridIndex {
    match dir {
        Direction::North => GridIndex { x: origin.x, y: (origin.y - k) as u8 },
        Direction::East => GridIndex { x: (origin.x + k) as u8, y: origin.y },
        Direction::South => GridIndex { x: origin.x, y: (origin.y + k) as u8 },
        Direction::West => GridIndex { x: (origin.x - k) as u8, y: origin.y },
    }
}

/// How many positions lie on the line from `origin` to the outer edge of
/// `bound` in `dir`, `origin` included; none if `origin` is outside `bound`.
pub open spec fn line_len(origin: GridIndex, dir: Direction, bound: GridIndex) -> nat {
    if !origin.spec_is_within(bound) {
        0
    } else {
        match dir {
            Direction::North => (origin.y + 1) as nat,
            Direction::East => (bound.x - origin.x) as nat,
            Direction::South => (bound.y - origin.y) as nat,
            Direction::West => (origin.x + 1) as nat,
        }
    }
}

/// The positions of the line from `origin` to the outer edge of `bound` in
/// `dir`, in the order in which they are walked.
pub open spec fn line_seq(origin: GridIndex, dir: Direction, bound: GridIndex) -> Seq<GridIndex> {
    Seq::new(line_len(origin, dir, bound), |k: int| line_at(origin, dir, k))
}

/// A walk over the positions of a line, one step at a time. The walk
/// cannot be rewound; a fresh one is cheap to make.
pub struct LineIterator {
    next: GridIndex,
    dir: Direction,
    bound: GridIndex,
}

impl LineIterator {
    #[verifier::type_invariant]
    spec fn inv(&self) -> bool {
        self.bound == (GridIndex { x: 0, y: 0 }) || self.next.spec_is_within(self.bound)
    }

    /// The positions that the walk has yet to yield, in order.
    #[verifier::opaque]
    pub closed spec fn view(&self) -> Seq<GridIndex> {
        line_seq(self.next, self.dir, self.bound)
    }

    /// The direction of the walk.
    pub closed spec fn direction(&self) -> Direction {
        self.dir
    }

    /// A walk from `origin` in `dir` up to the outer edge of `bound`. It is
    /// empty from the start if `origin` does not lie inside `bound`.
    pub fn new(origin: GridIndex, dir: Direction, bound: GridIndex) -> (r: LineIterator)
        ensures
            r@ == line_seq(origin, dir, bound),
            r.direction() == dir,
            !origin.spec_is_within(bound) ==> r@.len() == 0,
    {
        let bound = if bound.contains(origin) {
            bound
        } else {
            GridIndex { x: 0, y: 0 }
        };
        reveal(LineIterator::view);
        LineIterator { next: origin, dir, bound }
    }

    /// Yields the next position of the walk, or nothing once the walk has
    /// passed the edge.
    pub fn next(&mut self) -> (r: Option<GridIndex>)
        ensures
            final(self).direction() == old(self).direction(),
            old(self)@.len() == 0 ==> r is None && final(self)@ == old(self)@,
            old(self)@.len() > 0 ==> r == Some(old(self)@[0]) && final(self)@ == old(
                self,
            )@.drop_first(),
        no_unwind
    {
        proof {
            use_type_invariant(&*self);
            reveal(LineIterator::view);
        }
        if self.bound == (GridIndex { x: 0, y: 0 }) {
            None
        } else {
            let val = self.next;
            match self.next.step(self.dir, self.bound) {
                Some(step) => {
                    assert(line_seq(step, self.dir, self.bound) =~= line_seq(
                        val,
                        self.dir,
                        self.bound,
                    ).drop_first());
                    self.next = step;
                },
                None => {
                    self.bound = GridIndex { x: 0, y: 0 };
                },
            }
            Some(val)
        }
    }
}

impl GridIndex {
    /// The walk from this position in `dir` up to the outer edge of `bounds`.
    pub fn iter_line(self, dir: Direction, bounds: GridIndex) -> (r: LineIterator)
        ensures
            r@ == line_seq(self, dir, bounds),
            r.direction() == dir,
    {
        LineIterator::new(self, dir, bounds)
    }
}

/// A line that starts outside its bound is empty.
pub proof fn lemma_line_empty_outside(origin: GridIndex, dir: Direction, bound: GridIndex)
    requires
        !origin.spec_is_within(bound),
    ensures
        line_seq(origin, dir, bound) == Seq::<GridIndex>::empty(),
{
    assert(line_seq(origin, dir, bound) =~= Seq::<GridIndex>::empty());
}

/// A line that starts inside its bound begins at its origin, goes on by
/// single steps in its direction, stays inside the bound, and ends on the
/// position from which no further step can be made.
pub proof fn lemma_line_follows_steps(origin: GridIndex, dir: Direction, bound: GridIndex)
    requires
        origin.spec_is_within(bound),
    ensures
        line_seq(origin, dir, bound).len() > 0,
        line_seq(origin, dir, bound)[0] == origin,
        forall|k: int|
            0 <= k < line_seq(origin, dir, bound).len() ==> (#[trigger] line_seq(
                origin,
                dir,
                bound,
            )[k]).spec_is_within(bound),
        forall|k: int|
            0 <= k < line_seq(origin, dir, bound).len() - 1 ==> (#[trigger] line_seq(
                origin,
                dir,
                bound,
            )[k]).spec_step(dir, bound) == Some(line_seq(origin, dir, bound)[k + 1]),
        line_seq(origin, dir, bound).last().spec_step(dir, bound) is None,
{
}

/// The corner at which a sweep of `range` starts: the far corner against
/// both directions of the sweep.
pub open spec fn rect_origin(range: GridIndex, dir_primary: Direction, dir_secondary: Direction) -> GridIndex {
    (GridIndex { x: 0, y: 0 }).spec_snap_to_edge(dir_primary.spec_opposite(), range).spec_snap_to_edge(
        dir_secondary.spec_opposite(),
        range,
    )
}

/// How many positions a sweep yields before it moves on along its
/// secondary direction.
pub open spec fn rect_row_len(range: GridIndex, dir_primary: Direction) -> int {
    match dir_primary {
        Direction::North | Direction::South => range.y as int,
        Direction::East | Direction::West => range.x as int,
    }
}

/// How many lines along the primary direction a sweep is made of.
pub open spec fn rect_row_count(range: GridIndex, dir_primary: Direction) -> int {
    match dir_primary {
        Direction::North | Direction::South => range.x as int,
        Direction::East | Direction::West => range.y as int,
    }
}

/// The `k`-th position of a sweep: `k / n` units from the origin along the
/// secondary direction and then `k % n` units along the primary one, where
/// `n` is the length of a line along the primary direction.
pub open spec fn rect_at(
    range: GridIndex,
    dir_primary: Direction,
    dir_secondary: Direction,
    k: int,
) -> GridIndex {
    let n = rect_row_len(range, dir_primary);
    line_at(
        line_at(rect_origin(range, dir_primary, dir_secondary), dir_secondary, k / n),
        dir_primary,
        k % n,
    )
}

/// The positions of a sweep of `range`, in the order in which they are
/// yielded.
pub open spec fn rect_seq(range: GridIndex, dir_primary: Direction, dir_secondary: Direction) -> Seq<
    GridIndex,
> {
    Seq::new(
        (range.x * range.y) as nat,
        |k: int| rect_at(range, dir_primary, dir_secondary, k),
    )
}

/// The lines in `dir` inside `bound` that start at each position of `outer`
/// in turn, one after the other.
pub open spec fn rows(outer: Seq<GridIndex>, dir: Direction, bound: GridIndex) -> Seq<GridIndex>
    decreases outer.len(),
{
    if outer.len() == 0 {
        Seq::empty()
    } else {
        line_seq(outer[0], dir, bound) + rows(outer.drop_first(), dir, bound)
    }
}

/// Splits an offset into a sweep into the number of its line and the offset
/// within that line.
proof fn lemma_rect_split(range: GridIndex, dir_primary: Direction, k: int)
    requires
        range.x > 0,
        range.y > 0,
        0 <= k < range.x * range.y,
    ensures
        0 <= k % rect_row_len(range, dir_primary) < rect_row_len(range, dir_primary),
        0 <= k / rect_row_len(range, dir_primary) < rect_row_count(range, dir_primary),
        k == (k / rect_row_len(range, dir_primary)) * rect_row_len(range, dir_primary) + k
            % rect_row_len(range, dir_primary),
{
    let n = rect_row_len(range, dir_primary);
    let m = rect_row_count(range, dir_primary);
    assert(n * m == range.x * range.y) by (nonlinear_arith)
        requires
            (n == range.x && m == range.y) || (n == range.y && m == range.x),
    ;
    lemma_mod_pos_bound(k, n);
    lemma_div_pos_is_pos(k, n);
    lemma_multiply_divide_lt(k, n, m);
    lemma_fundamental_div_mod(k, n);
    assert(n * (k / n) == (k / n) * n) by (nonlinear_arith);
}

/// How far `p` lies from the edge of `range` at which a walk in `dir`
/// starts.
pub open spec fn edge_offset(range: GridIndex, dir: Direction, p: GridIndex) -> int {
    match dir {
        Direction::North => range.y - 1 - p.y,
        Direction::East => p.x as int,
        Direction::South => p.y as int,
        Direction::West => range.x - 1 - p.x,
    }
}

/// The offset into a sweep at which a position inside `range` is yielded.
pub open spec fn rect_index_of(
    range: GridIndex,
    dir_primary: Direction,
    dir_secondary: Direction,
    p: GridIndex,
) -> int {
    edge_offset(range, dir_secondary, p) * rect_row_len(range, dir_primary) + edge_offset(
        range,
        dir_primary,
        p,
    )
}

/// The `k`-th position of a sweep lies inside the range, `k % n` units from
/// the starting edge of the primary direction and `k / n` units from that
/// of the secondary one.
proof fn lemma_rect_at(range: GridIndex, dir_primary: Direction, dir_secondary: Direction, k: int)
    requires
        dir_primary.spec_is_orthogonal(dir_secondary),
        0 <= k < range.x * range.y,
    ensures
        range.x > 0,
        range.y > 0,
        rect_at(range, dir_primary, dir_secondary, k).spec_is_within(range),
        edge_offset(range, dir_primary, rect_at(range, dir_primary, dir_secondary, k)) == k
            % rect_row_len(range, dir_primary),
        edge_offset(range, dir_secondary, rect_at(range, dir_primary, dir_secondary, k)) == k
            / rect_row_len(range, dir_primary),
{
    assert(range.x > 0 && range.y > 0) by (nonlinear_arith)
        requires
            0 <= k < range.x * range.y,
    ;
    lemma_rect_split(range, dir_primary, k);
}

/// A position inside `range` is yielded at its offset, and the offset of
/// the position yielded at `k` is `k`.
pub proof fn lemma_rect_index_of(
    range: GridIndex,
    dir_primary: Direction,
    dir_secondary: Direction,
    p: GridIndex,
    k: int,
)
    requires
        dir_primary.spec_is_orthogonal(dir_secondary),
    ensures
        p.spec_is_within(range) ==> {
            let i = rect_index_of(range, dir_primary, dir_secondary, p);
            0 <= i < rect_seq(range, dir_primary, dir_secondary).len() && rect_seq(
                range,
                dir_primary,
                dir_secondary,
            )[i] == p
        },
        0 <= k < rect_seq(range, dir_primary, dir_secondary).len() ==> rect_index_of(
            range,
            dir_primary,
            dir_secondary,
            rect_seq(range, dir_primary, dir_secondary)[k],
        ) == k,
{
    let n = rect_row_len(range, dir_primary);
    let m = rect_row_count(range, dir_primary);
    if p.spec_is_within(range) {
        let i = rect_index_of(range, dir_primary, dir_secondary, p);
        let a = edge_offset(range, dir_primary, p);
        let c = edge_offset(range, dir_secondary, p);
        assert(0 <= c * n + a < n * m) by (nonlinear_arith)
            requires
                0 <= a < n,
                0 <= c < m,
        ;
        assert(n * m == range.x * range.y) by (nonlinear_arith)
            requires
                (n == range.x && m == range.y) || (n == range.y && m == range.x),
        ;
        lemma_fundamental_div_mod_converse(i, n, c, a);
    }
    if 0 <= k < rect_seq(range, dir_primary, dir_secondary).len() {
        lemma_rect_at(range, dir_primary, dir_secondary, k);
        lemma_rect_split(range, dir_primary, k);
    }
}

/// A sweep of a `w` by `h` range yields `w * h` positions, no position
/// twice, and exactly the positions inside the range, whichever pair of
/// orthogonal directions it follows.
pub proof fn lemma_rect_covers_once(
    range: GridIndex,
    dir_primary: Direction,
    dir_secondary: Direction,
)
    requires
        dir_primary.spec_is_orthogonal(dir_secondary),
    ensures
        rect_seq(range, dir_primary, dir_secondary).len() == range.x * range.y,
        rect_seq(range, dir_primary, dir_secondary).no_duplicates(),
        forall|p: GridIndex|
            rect_seq(range, dir_primary, dir_secondary).contains(p) <==> p.spec_is_within(range),
{
    let s = rect_seq(range, dir_primary, dir_secondary);
    assert forall|i: int, j: int| 0 <= i < s.len() && 0 <= j < s.len() && i != j implies s[i]
        != s[j] by {
        lemma_rect_index_of(range, dir_primary, dir_secondary, s[i], i);
        lemma_rect_index_of(range, dir_primary, dir_secondary, s[j], j);
    }
    assert forall|p: GridIndex| s.contains(p) <==> p.spec_is_within(range) by {
        if s.contains(p) {
            let k = choose|k: int| 0 <= k < s.len() && s[k] == p;
            lemma_rect_at(range, dir_primary, dir_secondary, k);
        }
        if p.spec_is_within(range) {
            lemma_rect_index_of(range, dir_primary, dir_secondary, p, 0);
            assert(s[rect_index_of(range, dir_primary, dir_secondary, p)] == p);
        }
    }
}

/// The shape of a sweep of a range that is not empty: the line from the
/// origin along the secondary direction has one position for each line of
/// the sweep, and every line of the sweep has the same length.
proof fn lemma_rect_shape(range: GridIndex, dir_primary: Direction, dir_secondary: Direction, j: int)
    requires
        dir_primary.spec_is_orthogonal(dir_secondary),
        range.x > 0,
        range.y > 0,
        0 <= j < rect_row_count(range, dir_primary),
    ensures
        rect_origin(range, dir_primary, dir_secondary).spec_is_within(range),
        line_len(rect_origin(range, dir_primary, dir_secondary), dir_secondary, range)
            == rect_row_count(range, dir_primary),
        line_at(rect_origin(range, dir_primary, dir_secondary), dir_secondary, j).spec_is_within(
            range,
        ),
        line_len(
            line_at(rect_origin(range, dir_primary, dir_secondary), dir_secondary, j),
            dir_primary,
            range,
        ) == rect_row_len(range, dir_primary),
{
}

/// The `j`-th line of a sweep is the part of the sweep from offset `j * n`
/// up to offset `(j + 1) * n`, where `n` is the length of a line.
#[verifier::rlimit(40)]
proof fn lemma_rect_row(range: GridIndex, dir_primary: Direction, dir_secondary: Direction, j: int)
    requires
        dir_primary.spec_is_orthogonal(dir_secondary),
        range.x > 0,
        range.y > 0,
        0 <= j < rect_row_count(range, dir_primary),
    ensures
        0 <= j * rect_row_len(range, dir_primary),
        (j + 1) * rect_row_len(range, dir_primary) == j * rect_row_len(range, dir_primary)
            + rect_row_len(range, dir_primary),
        (j + 1) * rect_row_len(range, dir_primary) <= range.x * range.y,
        line_seq(
            line_at(rect_origin(range, dir_primary, dir_secondary), dir_secondary, j),
            dir_primary,
            range,
        ) == rect_seq(range, dir_primary, dir_secondary).subrange(
            j * rect_row_len(range, dir_primary),
            (j + 1) * rect_row_len(range, dir_primary),
        ),
{
    let n = rect_row_len(range, dir_primary);
    let m = rect_row_count(range, dir_primary);
    let start = line_at(rect_origin(range, dir_primary, dir_secondary), dir_secondary, j);
    let all = rect_seq(range, dir_primary, dir_secondary);
    let head = line_seq(start, dir_primary, range);
    lemma_rect_shape(range, dir_primary, dir_secondary, j);
    assert(head.len() == n);
    assert(0 <= j * n && (j + 1) * n == j * n + n && (j + 1) * n <= m * n) by (nonlinear_arith)
        requires
            0 <= j < m,
            0 < n,
    ;
    assert(m * n == range.x * range.y) by (nonlinear_arith)
        requires
            (n == range.x && m == range.y) || (n == range.y && m == range.x),
    ;
    let part = all.subrange(j * n, (j + 1) * n);
    assert(part.len() == n);
    assert forall|k: int| 0 <= k < n implies head[k] == part[k] by {
        lemma_fundamental_div_mod_converse(j * n + k, n, j, k);
        assert(part[k] == all[j * n + k]);
        assert(all[j * n + k] == rect_at(range, dir_primary, dir_secondary, j * n + k));
        assert(head[k] == line_at(start, dir_primary, k));
    }
    assert(head =~= part);
}

/// The lines of a sweep from the `j`-th on make up the sweep from offset
/// `j * n` on, where `n` is the length of a line.
#[verifier::rlimit(40)]
proof fn lemma_rows_rect(range: GridIndex, dir_primary: Direction, dir_secondary: Direction, j: int)
    requires
        dir_primary.spec_is_orthogonal(dir_secondary),
        range.x > 0,
        range.y > 0,
        0 <= j <= rect_row_count(range, dir_primary),
    ensures
        0 <= j * rect_row_len(range, dir_primary) <= range.x * range.y,
        rows(
            line_seq(rect_origin(range, dir_primary, dir_secondary), dir_secondary, range).skip(j),
            dir_primary,
            range,
        ) == rect_seq(range, dir_primary, dir_secondary).skip(j * rect_row_len(range, dir_primary)),
    decreases rect_row_count(range, dir_primary) - j,
{
    let n = rect_row_len(range, dir_primary);
    let m = rect_row_count(range, dir_primary);
    let origin = rect_origin(range, dir_primary, dir_secondary);
    let outer = line_seq(origin, dir_secondary, range);
    let all = rect_seq(range, dir_primary, dir_secondary);
    lemma_rect_shape(range, dir_primary, dir_secondary, 0);
    assert(outer.len() == m);
    assert(all.len() == range.x * range.y);
    assert(m * n == range.x * range.y) by (nonlinear_arith)
        requires
            (n == range.x && m == range.y) || (n == range.y && m == range.x),
    ;
    if j == m {
        assert(outer.skip(j) =~= Seq::<GridIndex>::empty());
        assert(all.skip(j * n) =~= Seq::<GridIndex>::empty());
    } else {
        lemma_rows_rect(range, dir_primary, dir_secondary, j + 1);
        lemma_rect_row(range, dir_primary, dir_secondary, j);
        let lines = outer.skip(j);
        assert(lines.len() > 0);
        assert(lines[0] == line_at(origin, dir_secondary, j));
        assert(lines.drop_first() =~= outer.skip(j + 1));
        let head = all.subrange(j * n, (j + 1) * n);
        let tail = all.skip((j + 1) * n);
        assert(rows(lines, dir_primary, range) == head + tail);
        assert(head + tail =~= all.skip(j * n));
    }
}

/// A sweep of a range that is not empty is the line from its origin along
/// the primary direction, followed by the lines that start at the further
/// positions of the line from its origin along the secondary direction.
#[verifier::rlimit(40)]
proof fn lemma_rect_start(range: GridIndex, dir_primary: Direction, dir_secondary: Direction)
    requires
        dir_primary.spec_is_orthogonal(dir_secondary),
        range.x > 0,
        range.y > 0,
    ensures
        ({
            let origin = rect_origin(range, dir_primary, dir_secondary);
            let outer = line_seq(origin, dir_secondary, range);
            &&& origin.spec_is_within(range)
            &&& outer.len() > 0
            &&& outer[0] == origin
            &&& forall|i: int| 0 <= i < outer.len() ==> (#[trigger] outer[i]).spec_is_within(range)
            &&& line_seq(origin, dir_primary, range) + rows(
                outer.drop_first(),
                dir_primary,
                range,
            ) == rect_seq(range, dir_primary, dir_secondary)
        }),
{
    let origin = rect_origin(range, dir_primary, dir_secondary);
    let outer = line_seq(origin, dir_secondary, range);
    let n = rect_row_len(range, dir_primary);
    lemma_rect_shape(range, dir_primary, dir_secondary, 0);
    lemma_line_follows_steps(origin, dir_secondary, range);
    lemma_rows_rect(range, dir_primary, dir_secondary, 0);
    assert(0 * n == 0) by (nonlinear_arith);
    assert(outer.skip(0) =~= outer);
    assert(rect_seq(range, dir_primary, dir_secondary).skip(0) =~= rect_seq(
        range,
        dir_primary,
        dir_secondary,
    ));
    assert(rows(outer, dir_primary, range) == line_seq(outer[0], dir_primary, range) + rows(
        outer.drop_first(),
        dir_primary,
        range,
    ));
}

/// A sweep over every position of a rectangular range: line after line
/// along the primary direction, the lines following each other along the
/// secondary direction.
pub struct RectIterator {
    primary: LineIterator,
    secondary: LineIterator,
    range: GridIndex,
}

impl RectIterator {
    #[verifier::type_invariant]
    spec fn inv(&self) -> bool {
        forall|i: int|
            0 <= i < self.secondary@.len() ==> (#[trigger] self.secondary@[i]).spec_is_within(
                self.range,
            )
    }

    /// The positions that the sweep has yet to yield, in order.
    pub closed spec fn view(&self) -> Seq<GridIndex> {
        self.primary@ + rows(self.secondary@, self.primary.direction(), self.range)
    }

    /// A sweep of `range` that starts in the corner lying against both
    /// directions and yields that corner first.
    pub fn new(range: GridIndex, dir_primary: Direction, dir_secondary: Direction) -> (r:
        RectIterator)
        requires
            dir_primary.spec_is_orthogonal(dir_secondary),
        ensures
            r@ == rect_seq(range, dir_primary, dir_secondary),
    {
        let zero = GridIndex::default();
        if !range.contains(zero) {
            assert(range.x * range.y == 0) by (nonlinear_arith)
                requires
                    range.x == 0 || range.y == 0,
            ;
            let primary = LineIterator::new(zero, dir_primary, zero);
            let secondary = LineIterator::new(zero, dir_secondary, zero);
            assert(primary@ + rows(secondary@, dir_primary, range) =~= rect_seq(
                range,
                dir_primary,
                dir_secondary,
            ));
            return RectIterator { primary, secondary, range };
        }
        let origin = zero.snap_to_edge(dir_primary.opposite(), range).snap_to_edge(
            dir_secondary.opposite(),
            range,
        );
        let mut secondary = LineIterator::new(origin, dir_secondary, range);
        proof {
            lemma_rect_start(range, dir_primary, dir_secondary);
        }
        // the first line starts at the origin itself, so the outer walk is
        // advanced past it here
        let primary = match secondary.next() {
            Some(start) => LineIterator::new(start, dir_primary, range),
            None => LineIterator::new(origin, dir_primary, zero),
        };
        RectIterator { primary, secondary, range }
    }

    /// Yields the next position of the sweep, or nothing once every
    /// position of the range has been yielded.
    #[verifier::rlimit(40)]
    pub fn next(&mut self) -> (r: Option<GridIndex>)
        ensures
            old(self)@.len() == 0 ==> r is None && final(self)@ == old(self)@,
            old(self)@.len() > 0 ==> r == Some(old(self)@[0]) && final(self)@ == old(
                self,
            )@.drop_first(),
    {
        proof {
            use_type_invariant(&*self);
        }
        let ghost rest = rows(self.secondary@, self.primary.direction(), self.range);
        let next = self.primary.next();
        if next.is_none() {
            let dir = self.primary.dir;
            match self.secondary.next() {
                Some(start) => {
                    self.primary = LineIterator::new(start, dir, self.range);
                    proof {
                        lemma_line_follows_steps(start, dir, self.range);
                    }
                    let first = self.primary.next();
                    assert(self@ =~= old(self)@.drop_first());
                    first
                },
                None => {
                    assert(self@ =~= old(self)@);
                    None
                },
            }
        } else {
            assert(self@ =~= old(self)@.drop_first());
            next
        }
    }
}

impl GridIndex {
    /// The sweep over every position of the range whose size this is.
    pub fn iter_rect(self, dir_primary: Direction, dir_secondary: Direction) -> (r: RectIterator)
        requires
            dir_primary.spec_is_orthogonal(dir_secondary),
        ensures
            r@ == rect_seq(self, dir_primary, dir_secondary),
    {
        RectIterator::new(self, dir_primary, dir_secondary)
    }
}

} // verus!
