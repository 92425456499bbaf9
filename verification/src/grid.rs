use vstd::prelude::*;

use crate::point::Point;

verus! {

/// The set of coordinates named by a sequence of points.
pub open spec fn keys_of(s: Seq<Point>) -> Set<(int, int)> {
    Set::new(|q: (int, int)| exists|i: int| 0 <= i < s.len() && (#[trigger] s[i].key()) == q)
}

/// Two coordinates are neighbors when they differ and lie within
/// Chebyshev distance one of each other.
pub open spec fn is_neighbor(c: (int, int), q: (int, int)) -> bool {
    &&& q != c
    &&& -1 <= q.0 - c.0 <= 1
    &&& -1 <= q.1 - c.1 <= 1
}

/// 1 when `(x, y)` is live in `g`, else 0.
pub open spec fn ind(g: Set<(int, int)>, x: int, y: int) -> nat {
    if g.contains((x, y)) {
        1
    } else {
        0
    }
}

/// How many of the eight neighbors of `(x, y)` are live in `g`.
pub open spec fn nbr_count(g: Set<(int, int)>, x: int, y: int) -> nat {
    ind(g, x - 1, y - 1) + ind(g, x, y - 1) + ind(g, x + 1, y - 1) + ind(g, x - 1, y) + ind(
        g,
        x + 1,
        y,
    ) + ind(g, x - 1, y + 1) + ind(g, x, y + 1) + ind(g, x + 1, y + 1)
}

/// The standard birth/survival rule: a live cell keeps living with two or
/// three live neighbors; a dead cell is born with exactly three.
pub open spec fn survives_spec(g: Set<(int, int)>, x: int, y: int) -> bool {
    if g.contains((x, y)) {
        nbr_count(g, x, y) == 2 || nbr_count(g, x, y) == 3
    } else {
        nbr_count(g, x, y) == 3
    }
}

/// The next generation of `g` under the rule.
pub open spec fn next_gen(g: Set<(int, int)>) -> Set<(int, int)> {
    Set::new(|q: (int, int)| survives_spec(g, q.0, q.1))
}

/// The cells whose liveness can change this generation: every live cell
/// together with every cell that has at least one live neighbor.
pub open spec fn active_spec(g: Set<(int, int)>) -> Set<(int, int)> {
    Set::new(|q: (int, int)| g.contains(q) || nbr_count(g, q.0, q.1) > 0)
}

/// Law: the active cells of a grid include every live point, and every
/// point excluded from them is dead and has no live neighbor.
pub proof fn lemma_active_cells_closure(g: Set<(int, int)>)
    ensures
        forall|q: (int, int)| g.contains(q) ==> active_spec(g).contains(q),
        forall|q: (int, int)|
            !active_spec(g).contains(q) ==> !g.contains(q) && nbr_count(g, q.0, q.1) == 0,
{
}

/// The eight neighbor probes of `q` stay within `i64`.
pub open spec fn probe_safe(q: (int, int)) -> bool {
    &&& i64::MIN < q.0 < i64::MAX
    &&& i64::MIN < q.1 < i64::MAX
}

/// Safe margin for one generation step: every neighbor of a cell in this
/// range can itself be probed.
pub open spec fn tick_safe_key(q: (int, int)) -> bool {
    &&& i64::MIN + 2 <= q.0 <= i64::MAX - 2
    &&& i64::MIN + 2 <= q.1 <= i64::MAX - 2
}

/// A positive neighbor count names a live neighbor, and conversely.
pub proof fn lemma_nbr_count_positive(g: Set<(int, int)>, q: (int, int))
    ensures
        nbr_count(g, q.0, q.1) > 0 <==> exists|p: (int, int)|
            g.contains(p) && is_neighbor(q, p),
{
    if nbr_count(g, q.0, q.1) > 0 {
        if g.contains((q.0 - 1, q.1 - 1)) {
            assert(is_neighbor(q, (q.0 - 1, q.1 - 1)));
        } else if g.contains((q.0, q.1 - 1)) {
            assert(is_neighbor(q, (q.0, q.1 - 1)));
        } else if g.contains((q.0 + 1, q.1 - 1)) {
            assert(is_neighbor(q, (q.0 + 1, q.1 - 1)));
        } else if g.contains((q.0 - 1, q.1)) {
            assert(is_neighbor(q, (q.0 - 1, q.1)));
        } else if g.contains((q.0 + 1, q.1)) {
            assert(is_neighbor(q, (q.0 + 1, q.1)));
        } else if g.contains((q.0 - 1, q.1 + 1)) {
            assert(is_neighbor(q, (q.0 - 1, q.1 + 1)));
        } else if g.contains((q.0, q.1 + 1))  {
            assert(is_neighbor(q, (q.0, q.1 + 1)));
        } else {
            assert(g.contains((q.0 + 1, q.1 + 1)));
            assert(is_neighbor(q, (q.0 + 1, q.1 + 1)));
        }
    }
    if exists|p: (int, int)| g.contains(p) && is_neighbor(q, p) {
        let p = choose|p: (int, int)| g.contains(p) && is_neighbor(q, p);
        assert(nbr_count(g, q.0, q.1) > 0) by {
            if p.1 == q.1 - 1 {
                assert(p == (q.0 - 1, q.1 - 1) || p == (q.0, q.1 - 1) || p == (q.0 + 1, q.1 - 1));
            } else if p.1 == q.1 {
                assert(p == (q.0 - 1, q.1) || p == (q.0 + 1, q.1));
            } else {
                assert(p == (q.0 - 1, q.1 + 1) || p == (q.0, q.1 + 1) || p == (q.0 + 1, q.1 + 1));
            }
        }
    }
}

/// Taking one more element of `s` adds exactly its coordinate.
pub proof fn lemma_keys_take_push(s: Seq<Point>, i: int)
    requires
        0 <= i < s.len(),
    ensures
        keys_of(s.take(i + 1)) == keys_of(s.take(i)).insert(s[i].key()),
{
    let a = s.take(i);
    let b = s.take(i + 1);
    assert(forall|j: int| 0 <= j < a.len() ==> a[j] == b[j]);
    assert(b[i] == s[i]);
    assert(keys_of(b) =~= keys_of(a).insert(s[i].key()));
}

/// The midpoint of the bounding box of `g`: the lower corner plus the
/// larger half of each span.
pub open spec fn midpoint_spec(g: Set<(int, int)>) -> (int, int) {
    let b = bounds_of(g);
    (
        b.0.0 + ((b.1.0 - b.0.0) - (b.1.0 - b.0.0) / 2),
        b.0.1 + ((b.1.1 - b.0.1) - (b.1.1 - b.0.1) / 2),
    )
}

/// A Grid represents the world in which the game takes place: the sparse
/// set of live points. The backing vector holds each live point exactly
/// once.
#[derive(Debug)]
pub struct Grid {
    cells: Vec<Point>,
}

impl Grid {
    /// The set of live coordinates.
    pub closed spec fn live(self) -> Set<(int, int)> {
        keys_of(self.cells@)
    }

    /// Well-formed: no point is stored twice.
    pub closed spec fn wf(self) -> bool {
        forall|i: int, j: int|
            0 <= i < j < self.cells@.len() ==> (#[trigger] self.cells@[i]).key() != (
            #[trigger] self.cells@[j]).key()
    }

    /// Create a new Grid holding the given live points (duplicates collapse).
    pub fn new(cells: Vec<Point>) -> (r: Grid)
        ensures
            r.wf(),
            r.live() == keys_of(cells@),
    {
        let mut g = Grid { cells: Vec::new() };
        assert(g.live() =~= Set::<(int, int)>::empty());
        let mut i: usize = 0;
        while i < cells.len()
            invariant
                i <= cells.len(),
                g.wf(),
                g.live() =~= keys_of(cells@.take(i as int)),
            decreases cells.len() - i,
        {
            assert(keys_of(cells@.take(i as int + 1)) =~= keys_of(cells@.take(i as int)).insert(
                cells@[i as int].key(),
            )) by {
                let a = cells@.take(i as int);
                let b = cells@.take(i as int + 1);
                assert(forall|j: int| 0 <= j < a.len() ==> a[j] == b[j]);
                assert(b[i as int] == cells@[i as int]);
            }
            g.set_alive(cells[i]);
            i = i + 1;
        }
        assert(cells@.take(cells@.len() as int) =~= cells@);
        g
    }

    /// Whether the cell at the given Point is alive.
    pub fn is_alive(&self, cell: &Point) -> (r: bool)
        ensures
            r == self.live().contains(cell.key()),
    {
        let mut i: usize = 0;
        while i < self.cells.len()
            invariant
                i <= self.cells@.len(),
                forall|j: int| 0 <= j < i ==> (#[trigger] self.cells@[j]).key() != cell.key(),
            decreases self.cells@.len() - i,
        {
            if self.cells[i] == *cell {
                assert(self.live().contains(cell.key()));
                return true;
            }
            i = i + 1;
        }
        assert(!self.live().contains(cell.key()));
        false
    }

    /// Bring the cell at the given Point to life. Returns true when the
    /// cell was dead before.
    pub fn set_alive(&mut self, cell: Point) -> (r: bool)
        requires
            old(self).wf(),
        ensures
            final(self).wf(),
            final(self).live() == old(self).live().insert(cell.key()),
            r == !old(self).live().contains(cell.key()),
    {
        if self.is_alive(&cell) {
            assert(self.live() =~= self.live().insert(cell.key()));
            false
        } else {
            let ghost before = self.cells@;
            self.cells.push(cell);
            assert(final(self).live() =~= old(self).live().insert(cell.key())) by {
                let after = self.cells@;
                assert(forall|j: int| 0 <= j < before.len() ==> after[j] == before[j]);
                assert(after[before.len() as int] == cell);
            }
            true
        }
    }

    /// Kill the cell at the given Point. Returns true when it was alive.
    pub fn set_dead(&mut self, cell: &Point) -> (r: bool)
        requires
            old(self).wf(),
        ensures
            final(self).wf(),
            final(self).live() == old(self).live().remove(cell.key()),
            r == old(self).live().contains(cell.key()),
    {
        let mut i: usize = 0;
        while i < self.cells.len()
            invariant
                i <= self.cells@.len(),
                self.cells@ == old(self).cells@,
                old(self).wf(),
                forall|j: int| 0 <= j < i ==> (#[trigger] self.cells@[j]).key() != cell.key(),
            decreases self.cells@.len() - i,
        {
            if self.cells[i] == *cell {
                let ghost before = self.cells@;
                let ghost idx = i as int;
                self.cells.remove(i);
                proof {
                    let after = self.cells@;
                    assert(after == before.remove(idx));
                    assert(before[idx] == *cell);
                    assert(forall|k: int| 0 <= k < idx ==> after[k] == #[trigger] before[k]);
                    assert(forall|k: int|
                        idx <= k < after.len() ==> #[trigger] after[k] == before[k + 1]);
                    assert(forall|a: int, b: int|
                        0 <= a < b < before.len() ==> (#[trigger] before[a]).key() != (
                        #[trigger] before[b]).key());
                    assert forall|a: int, b: int|
                        0 <= a < b < after.len() implies (#[trigger] after[a]).key() != (
                    #[trigger] after[b]).key() by {
                        if b < idx {
                            assert(after[a] == before[a] && after[b] == before[b]);
                        } else if a < idx {
                            assert(after[a] == before[a] && after[b] == before[b + 1]);
                        } else {
                            assert(after[a] == before[a + 1] && after[b] == before[b + 1]);
                        }
                    }
                    assert(final(self).wf());
                    assert forall|q: (int, int)| keys_of(after).contains(q) implies keys_of(
                        before,
                    ).contains(q) && q != cell.key() by {
                        let m = choose|m: int|
                            0 <= m < after.len() && (#[trigger] after[m].key()) == q;
                        if m < idx {
                            assert(before[m].key() == q);
                            assert(before[m].key() != before[idx].key());
                        } else {
                            assert(before[m + 1].key() == q);
                            assert(before[m + 1].key() != before[idx].key());
                        }
                    }
                    assert forall|q: (int, int)|
                        keys_of(before).contains(q) && q != cell.key() implies keys_of(
                        after,
                    ).contains(q) by {
                        let k = choose|k: int|
                            0 <= k < before.len() && (#[trigger] before[k].key()) == q;
                        assert(k != idx);
                        if k < idx {
                            assert(after[k].key() == q);
                        } else {
                            assert(after[k - 1].key() == q);
                        }
                    }
                    assert(final(self).live() =~= old(self).live().remove(cell.key()));
                    assert(old(self).live().contains(cell.key()));
                }
                return true;
            }
            i = i + 1;
        }
        assert(!self.live().contains(cell.key()));
        assert(self.live() =~= self.live().remove(cell.key()));
        false
    }

    /// Clear the Grid of all living cells.
    pub fn clear(&mut self)
        ensures
            final(self).wf(),
            final(self).live() == Set::<(int, int)>::empty(),
    {
        self.cells.clear();
        assert(final(self).live() =~= Set::<(int, int)>::empty());
    }

    /// Whether the Grid holds no live cells.
    pub fn is_empty(&self) -> (r: bool)
        ensures
            r == (self.live() == Set::<(int, int)>::empty()),
    {
        if self.cells.len() == 0 {
            assert(self.live() =~= Set::<(int, int)>::empty());
            true
        } else {
            assert(self.live().contains(self.cells@[0].key()));
            false
        }
    }

    /// The live points, each exactly once, in storage order.
    pub fn live_points(&self) -> (r: Vec<Point>)
        ensures
            keys_of(r@) == self.live(),
            self.wf() ==> forall|i: int, j: int|
                0 <= i < j < r@.len() ==> (#[trigger] r@[i]).key() != (#[trigger] r@[j]).key(),
    {
        let mut out: Vec<Point> = Vec::new();
        let mut i: usize = 0;
        while i < self.cells.len()
            invariant
                i <= self.cells@.len(),
                out@ == self.cells@.take(i as int),
            decreases self.cells@.len() - i,
        {
            out.push(self.cells[i]);
            assert(out@ =~= self.cells@.take(i as int + 1));
            i = i + 1;
        }
        assert(out@ =~= self.cells@);
        out
    }

    /// An exact duplicate of this Grid.
    pub fn duplicate(&self) -> (r: Grid)
        ensures
            r.live() == self.live(),
            self.wf() ==> r.wf(),
    {
        let mut cells: Vec<Point> = Vec::new();
        let mut i: usize = 0;
        while i < self.cells.len()
            invariant
                i <= self.cells@.len(),
                cells@ == self.cells@.take(i as int),
            decreases self.cells@.len() - i,
        {
            cells.push(self.cells[i]);
            assert(cells@ =~= self.cells@.take(i as int + 1));
            i = i + 1;
        }
        assert(cells@ =~= self.cells@);
        let r = Grid { cells };
        assert(r.live() =~= self.live());
        r
    }

    /// The number of live points among the eight points adjacent to `point`.
    pub fn live_neighbors(&self, point: &Point) -> (r: usize)
        requires
            probe_safe(point.key()),
        ensures
            r == nbr_count(self.live(), point.key().0, point.key().1),
    {
        let Point(x, y) = *point;
        let mut n: usize = 0;
        if self.is_alive(&Point(x - 1, y - 1)) {
            n = n + 1;
        }
        if self.is_alive(&Point(x, y - 1)) {
            n = n + 1;
        }
        if self.is_alive(&Point(x + 1, y - 1)) {
            n = n + 1;
        }
        if self.is_alive(&Point(x - 1, y)) {
            n = n + 1;
        }
        if self.is_alive(&Point(x + 1, y)) {
            n = n + 1;
        }
        if self.is_alive(&Point(x - 1, y + 1)) {
            n = n + 1;
        }
        if self.is_alive(&Point(x, y + 1)) {
            n = n + 1;
        }
        if self.is_alive(&Point(x + 1, y + 1)) {
            n = n + 1;
        }
        n
    }

    /// All eight Points directly adjacent to `cell`, in a fixed order.
    pub fn adjacent_cells(&self, cell: &Point) -> (r: Vec<Point>)
        requires
            probe_safe(cell.key()),
        ensures
            r@.len() == 8,
            forall|q: (int, int)| keys_of(r@).contains(q) <==> is_neighbor(cell.key(), q),
            forall|i: int, j: int| 0 <= i < j < 8 ==> r@[i].key() != r@[j].key(),
    {
        let Point(x, y) = *cell;
        let mut r: Vec<Point> = Vec::new();
        r.push(Point(x - 1, y - 1));
        r.push(Point(x - 1, y));
        r.push(Point(x - 1, y + 1));
        r.push(Point(x, y - 1));
        r.push(Point(x, y + 1));
        r.push(Point(x + 1, y - 1));
        r.push(Point(x + 1, y));
        r.push(Point(x + 1, y + 1));
        assert(forall|q: (int, int)| keys_of(r@).contains(q) ==> is_neighbor(cell.key(), q));
        assert(forall|q: (int, int)| is_neighbor(cell.key(), q) ==> keys_of(r@).contains(q)) by {
            let c = cell.key();
            assert(r@[0].key() == (c.0 - 1, c.1 - 1));
            assert(r@[1].key() == (c.0 - 1, c.1));
            assert(r@[2].key() == (c.0 - 1, c.1 + 1));
            assert(r@[3].key() == (c.0, c.1 - 1));
            assert(r@[4].key() == (c.0, c.1 + 1));
            assert(r@[5].key() == (c.0 + 1, c.1 - 1));
            assert(r@[6].key() == (c.0 + 1, c.1));
            assert(r@[7].key() == (c.0 + 1, c.1 + 1));
            assert forall|q: (int, int)| is_neighbor(c, q) implies keys_of(r@).contains(q) by {
                if q.0 == c.0 - 1 {
                    assert(q == r@[0].key() || q == r@[1].key() || q == r@[2].key());
                } else if q.0 == c.0 {
                    assert(q == r@[3].key() || q == r@[4].key());
                } else {
                    assert(q == r@[5].key() || q == r@[6].key() || q == r@[7].key());
                }
            }
        }
        r
    }

    /// The set of all Points that must be evaluated for the next
    /// generation: every live point plus each of its neighbors.
    pub fn active_cells(&self) -> (r: Vec<Point>)
        requires
            self.wf(),
            forall|q: (int, int)| self.live().contains(q) ==> probe_safe(q),
        ensures
            keys_of(r@) == active_spec(self.live()),
            forall|i: int, j: int| 0 <= i < j < r@.len() ==> r@[i].key() != r@[j].key(),
    {
        let ghost g = self.live();
        let mut out: Vec<Point> = Vec::new();
        let mut i: usize = 0;
        while i < self.cells.len()
            invariant
                i <= self.cells@.len(),
                self.wf(),
                g == self.live(),
                forall|q: (int, int)| self.live().contains(q) ==> probe_safe(q),
                forall|a: int, b: int| 0 <= a < b < out@.len() ==> out@[a].key() != out@[b].key(),
                forall|q: (int, int)|
                    keys_of(out@).contains(q) ==> g.contains(q) || nbr_count(g, q.0, q.1) > 0,
                forall|k: int| 0 <= k < i ==> keys_of(out@).contains(
                    (#[trigger] self.cells@[k]).key(),
                ),
                forall|k: int, q: (int, int)|
                    0 <= k < i && #[trigger] is_neighbor(self.cells@[k].key(), q) ==> keys_of(
                        out@,
                    ).contains(q),
            decreases self.cells@.len() - i,
        {
            let cell = self.cells[i];
            proof {
                assert(g.contains(cell.key()));
            }
            push_unique(&mut out, cell);
            proof {
                lemma_nbr_count_positive(g, cell.key());
            }
            let adj = self.adjacent_cells(&cell);
            let mut j: usize = 0;
            while j < adj.len()
                invariant
                    j <= adj@.len(),
                    adj@.len() == 8,
                    g == self.live(),
                    g.contains(cell.key()),
                    forall|q: (int, int)| keys_of(adj@).contains(q) <==> is_neighbor(
                        cell.key(),
                        q,
                    ),
                    forall|a: int, b: int|
                        0 <= a < b < out@.len() ==> out@[a].key() != out@[b].key(),
                    forall|q: (int, int)|
                        keys_of(out@).contains(q) ==> g.contains(q) || nbr_count(g, q.0, q.1) > 0,
                    forall|k: int| 0 <= k < i ==> keys_of(out@).contains(
                        (#[trigger] self.cells@[k]).key(),
                    ),
                    forall|k: int, q: (int, int)|
                        0 <= k < i && #[trigger] is_neighbor(self.cells@[k].key(), q) ==> keys_of(
                            out@,
                        ).contains(q),
                    keys_of(out@).contains(cell.key()),
                    forall|m: int| 0 <= m < j ==> keys_of(out@).contains((#[trigger] adj@[m]).key()),
                decreases adj@.len() - j,
            {
                proof {
                    assert(keys_of(adj@).contains(adj@[j as int].key()));
                    assert(is_neighbor(cell.key(), adj@[j as int].key()));
                    lemma_nbr_count_positive(g, adj@[j as int].key());
                    assert(is_neighbor(adj@[j as int].key(), cell.key()));
                }
                push_unique(&mut out, adj[j]);
                j = j + 1;
            }
            proof {
                assert(forall|q: (int, int)|
                    is_neighbor(cell.key(), q) ==> keys_of(adj@).contains(q));
                assert(forall|q: (int, int)|
                    is_neighbor(cell.key(), q) ==> exists|m: int|
                        0 <= m < 8 && (#[trigger] adj@[m]).key() == q);
            }
            i = i + 1;
        }
        proof {
            assert(keys_of(out@) =~= active_spec(g)) by {
                assert forall|q: (int, int)| active_spec(g).contains(q) implies keys_of(
                    out@,
                ).contains(q) by {
                    if g.contains(q) {
                        let k = choose|k: int|
                            0 <= k < self.cells@.len() && (#[trigger] self.cells@[k]).key() == q;
                        assert(keys_of(out@).contains(q));
                    } else {
                        lemma_nbr_count_positive(g, q);
                        let p = choose|p: (int, int)| g.contains(p) && is_neighbor(q, p);
                        let k = choose|k: int|
                            0 <= k < self.cells@.len() && (#[trigger] self.cells@[k]).key() == p;
                        assert(is_neighbor(p, q));
                        assert(keys_of(out@).contains(q));
                    }
                }
            }
        }
        out
    }

    /// The midpoint of the bounding box of the live cells; the origin on
    /// an empty grid.
    pub fn midpoint(&self) -> (r: Point)
        ensures
            r.key() == midpoint_spec(self.live()),
    {
        let (p0, p1) = self.calculate_bounds();
        let sx: i128 = p1.0 as i128 - p0.0 as i128;
        let sy: i128 = p1.1 as i128 - p0.1 as i128;
        proof {
            if self.live() == Set::<(int, int)>::empty() {
                assert(sx == 0 && sy == 0);
            } else {
                let qa = choose|q: (int, int)| self.live().contains(q) && q.0 == p0.key().0;
                assert(p0.key().0 <= qa.0 <= p1.key().0);
                let qc = choose|q: (int, int)| self.live().contains(q) && q.1 == p0.key().1;
                assert(p0.key().1 <= qc.1 <= p1.key().1);
            }
            assert(sx >= 0 && sy >= 0);
            assert(0 <= sx / 2 <= sx);
            assert(0 <= sy / 2 <= sy);
        }
        let mx: i128 = p0.0 as i128 + (sx - sx / 2);
        let my: i128 = p0.1 as i128 + (sy - sy / 2);
        proof {
            assert(p0.key().0 <= mx <= p1.key().0 || (sx == 0 && mx == p0.key().0));
            assert(p0.key().1 <= my <= p1.key().1 || (sy == 0 && my == p0.key().1));
        }
        Point(mx as i64, my as i64)
    }

    /// Whether every live cell keeps the margin that one generation step
    /// needs near the ends of the coordinate range.
    pub fn all_tick_safe(&self) -> (r: bool)
        ensures
            r == forall|q: (int, int)| self.live().contains(q) ==> tick_safe_key(q),
    {
        let mut i: usize = 0;
        while i < self.cells.len()
            invariant
                i <= self.cells@.len(),
                forall|j: int| 0 <= j < i ==> tick_safe_key((#[trigger] self.cells@[j]).key()),
            decreases self.cells@.len() - i,
        {
            let Point(x, y) = self.cells[i];
            if x < i64::MIN + 2 || x > i64::MAX - 2 || y < i64::MIN + 2 || y > i64::MAX - 2 {
                assert(self.live().contains(self.cells@[i as int].key()));
                assert(!tick_safe_key(self.cells@[i as int].key()));
                return false;
            }
            i = i + 1;
        }
        assert forall|q: (int, int)| self.live().contains(q) implies tick_safe_key(q) by {
            let j = choose|j: int|
                0 <= j < self.cells@.len() && (#[trigger] self.cells@[j].key()) == q;
        }
        true
    }

    /// The lowest and highest X and Y coordinates represented in the Grid.
    /// On an empty grid both corners default to the origin.
    pub fn calculate_bounds(&self) -> (r: (Point, Point))
        ensures
            bounds_char(self.live(), r.0.key(), r.1.key()),
            (r.0.key(), r.1.key()) == bounds_of(self.live()),
    {
        let ghost g = self.live();
        if self.cells.len() == 0 {
            proof {
                assert(g =~= Set::<(int, int)>::empty());
                lemma_bounds_of(g, (0, 0), (0, 0));
            }
            return (Point(0, 0), Point(0, 0));
        }
        let Point(first_x, first_y) = self.cells[0];
        let mut x0: i64 = first_x;
        let mut y0: i64 = first_y;
        let mut x1: i64 = first_x;
        let mut y1: i64 = first_y;
        let mut i: usize = 1;
        while i < self.cells.len()
            invariant
                1 <= i <= self.cells@.len(),
                self.cells@.len() > 0,
                g == self.live(),
                forall|j: int|
                    0 <= j < i ==> x0 <= (#[trigger] self.cells@[j]).key().0 <= x1 && y0 <= (
                    #[trigger] self.cells@[j]).key().1 <= y1,
                exists|j: int| 0 <= j < i && (#[trigger] self.cells@[j]).key().0 == x0,
                exists|j: int| 0 <= j < i && (#[trigger] self.cells@[j]).key().0 == x1,
                exists|j: int| 0 <= j < i && (#[trigger] self.cells@[j]).key().1 == y0,
                exists|j: int| 0 <= j < i && (#[trigger] self.cells@[j]).key().1 == y1,
            decreases self.cells@.len() - i,
        {
            let Point(x, y) = self.cells[i];
            if x < x0 {
                x0 = x;
            } else if x > x1 {
                x1 = x;
            }
            if y < y0 {
                y0 = y;
            } else if y > y1 {
                y1 = y;
            }
            i = i + 1;
        }
        proof {
            assert(g.contains(self.cells@[0].key()));
            assert(g != Set::<(int, int)>::empty());
            assert(forall|q: (int, int)| g.contains(q) ==> x0 <= q.0 <= x1 && y0 <= q.1 <= y1);
            let ja = choose|j: int|
                0 <= j < self.cells@.len() && (#[trigger] self.cells@[j]).key().0 == x0 as int;
            assert(g.contains(self.cells@[ja].key()));
            let jb = choose|j: int|
                0 <= j < self.cells@.len() && (#[trigger] self.cells@[j]).key().0 == x1 as int;
            assert(g.contains(self.cells@[jb].key()));
            let jc = choose|j: int|
                0 <= j < self.cells@.len() && (#[trigger] self.cells@[j]).key().1 == y0 as int;
            assert(g.contains(self.cells@[jc].key()));
            let jd = choose|j: int|
                0 <= j < self.cells@.len() && (#[trigger] self.cells@[j]).key().1 == y1 as int;
            assert(g.contains(self.cells@[jd].key()));
            assert(bounds_char(g, (x0 as int, y0 as int), (x1 as int, y1 as int)));
            lemma_bounds_of(g, (x0 as int, y0 as int), (x1 as int, y1 as int));
        }
        (Point(x0, y0), Point(x1, y1))
    }
}

/// Push `p` unless a point with its coordinate is already present.
fn push_unique(out: &mut Vec<Point>, p: Point)
    ensures
        keys_of(final(out)@) == keys_of(old(out)@).insert(p.key()),
        (forall|a: int, b: int|
            0 <= a < b < old(out)@.len() ==> old(out)@[a].key() != old(out)@[b].key()) ==> (
        forall|a: int, b: int|
            0 <= a < b < final(out)@.len() ==> final(out)@[a].key() != final(out)@[b].key()),
{
    let mut i: usize = 0;
    let n = out.len();
    while i < n
        invariant
            i <= out@.len(),
            n == out@.len(),
            forall|j: int| 0 <= j < i ==> (#[trigger] out@[j]).key() != p.key(),
        decreases out@.len() - i,
    {
        if out[i] == p {
            assert(keys_of(out@).contains(p.key()));
            assert(keys_of(out@) =~= keys_of(out@).insert(p.key()));
            return ;
        }
        i = i + 1;
    }
    let ghost before = out@;
    out.push(p);
    assert(keys_of(final(out)@) =~= keys_of(old(out)@).insert(p.key())) by {
        assert(forall|j: int| 0 <= j < before.len() ==> final(out)@[j] == before[j]);
        assert(final(out)@[before.len() as int] == p);
    }
}

/// `lo` and `hi` are the corners of the bounding box of `g`; the origin
/// pair when `g` is empty.
pub open spec fn bounds_char(g: Set<(int, int)>, lo: (int, int), hi: (int, int)) -> bool {
    if g == Set::<(int, int)>::empty() {
        lo == (0int, 0int) && hi == (0int, 0int)
    } else {
        &&& forall|q: (int, int)| g.contains(q) ==> lo.0 <= q.0 <= hi.0 && lo.1 <= q.1 <= hi.1
        &&& exists|q: (int, int)| g.contains(q) && q.0 == lo.0
        &&& exists|q: (int, int)| g.contains(q) && q.0 == hi.0
        &&& exists|q: (int, int)| g.contains(q) && q.1 == lo.1
        &&& exists|q: (int, int)| g.contains(q) && q.1 == hi.1
    }
}

/// The bounding box of `g`, as pinned down by `bounds_char`.
pub open spec fn bounds_of(g: Set<(int, int)>) -> ((int, int), (int, int)) {
    choose|b: ((int, int), (int, int))| bounds_char(g, b.0, b.1)
}

/// `bounds_char` determines the corners uniquely, so any witness equals
/// `bounds_of`.
pub proof fn lemma_bounds_of(g: Set<(int, int)>, lo: (int, int), hi: (int, int))
    requires
        bounds_char(g, lo, hi),
    ensures
        bounds_of(g) == (lo, hi),
{
    let b = (lo, hi);
    assert(bounds_char(g, b.0, b.1));
    let c = bounds_of(g);
    assert(bounds_char(g, c.0, c.1));
    if g != Set::<(int, int)>::empty() {
        let qa = choose|q: (int, int)| g.contains(q) && q.0 == lo.0;
        let qb = choose|q: (int, int)| g.contains(q) && q.0 == hi.0;
        let qc = choose|q: (int, int)| g.contains(q) && q.1 == lo.1;
        let qd = choose|q: (int, int)| g.contains(q) && q.1 == hi.1;
        let ra = choose|q: (int, int)| g.contains(q) && q.0 == c.0.0;
        let rb = choose|q: (int, int)| g.contains(q) && q.0 == c.1.0;
        let rc = choose|q: (int, int)| g.contains(q) && q.1 == c.0.1;
        let rd = choose|q: (int, int)| g.contains(q) && q.1 == c.1.1;
        assert(c == b);
    }
}


impl Default for Grid {
    /// The empty Grid.
    fn default() -> (r: Grid)
        ensures
            r.wf(),
            r.live() == Set::<(int, int)>::empty(),
    {
        let r = Grid { cells: Vec::new() };
        assert(r.live() =~= Set::<(int, int)>::empty());
        r
    }
}

} // verus!
