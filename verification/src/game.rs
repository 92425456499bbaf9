use vstd::prelude::*;

use vstd::view::View as _;

use vstd::string::StringExecFns;

use crate::chars::str_eq;
use crate::config::Settings;
use crate::errors::AppError;
use crate::grid::{
    active_spec, bounds_of, midpoint_spec, next_gen, probe_safe, survives_spec, tick_safe_key,
    Grid, keys_of, lemma_keys_take_push, lemma_nbr_count_positive,
};
use crate::point::Point;

verus! {

/// How the viewport is framed on each render.
#[derive(Debug, Clone, Copy, PartialEq, Eq)]
pub enum View {
    Centered,
    Fixed,
    Follow,
}

impl View {
    pub open spec fn name_spec(self) -> Seq<char> {
        match self {
            View::Centered => "centered"@,
            View::Fixed => "fixed"@,
            View::Follow => "follow"@,
        }
    }

    /// The lowercase name of this mode.
    pub fn name(&self) -> (r: String)
        ensures
            r@ == self.name_spec(),
    {
        match self {
            View::Centered => String::from_str("centered"),
            View::Fixed => String::from_str("fixed"),
            View::Follow => String::from_str("follow"),
        }
    }

    /// Read a viewing mode from its lowercase name.
    pub fn parse_name(s: &str) -> (r: Result<View, AppError>)
        ensures
            s@ == "centered"@ ==> r == Ok::<View, AppError>(View::Centered),
            s@ == "fixed"@ ==> r == Ok::<View, AppError>(View::Fixed),
            s@ == "follow"@ ==> r == Ok::<View, AppError>(View::Follow),
            s@ != "centered"@ && s@ != "fixed"@ && s@ != "follow"@ ==> (r matches Err(e)
                && e matches AppError::Config(m) && m@ == "invalid value for view '"@ + s@
                + "'"@),
    {
        proof {
            lemma_view_names_distinct();
        }
        if str_eq(s, "centered") {
            Ok(View::Centered)
        } else if str_eq(s, "fixed") {
            Ok(View::Fixed)
        } else if str_eq(s, "follow") {
            Ok(View::Follow)
        } else {
            Err(
                AppError::Config(
                    String::from_str("invalid value for view '").concat(s).concat("'"),
                ),
            )
        }
    }
}

/// The three view mode names differ pairwise.
pub proof fn lemma_view_names_distinct()
    ensures
        "centered"@ != "fixed"@,
        "centered"@ != "follow"@,
        "fixed"@ != "follow"@,
{
    reveal_strlit("centered");
    reveal_strlit("fixed");
    reveal_strlit("follow");
    assert("centered"@.len() == 8);
    assert("fixed"@.len() == 5);
    assert("follow"@.len() == 6);
}

/// Split an integer into two halves that always add up to it; the second
/// half takes the remainder.
pub fn split_int(n: i64) -> (r: (i64, i64))
    ensures
        r.0 == n as int / 2,
        r.1 == n as int - n as int / 2,
        r.0 + r.1 == n as int,
{
    let q: i64 = if n >= 0 {
        n / 2
    } else {
        let m: i64 = -(n + 1);
        proof {
            assert(m >= 0);
            assert(-(m / 2 + 1) == n as int / 2) by {
                let a = m as int / 2;
                assert(m as int == 2 * a + m as int % 2);
                assert(n as int == -2 * a - (m as int % 2) - 1);
                assert(n as int == 2 * (-a - 1) + (1 - m as int % 2));
                assert(0 <= 1 - m as int % 2 < 2);
                assert(n as int / 2 == -a - 1);
            }
        }
        -(m / 2 + 1)
    };
    proof {
        assert(n < 0 ==> n as int <= q <= 0);
        assert(n >= 0 ==> 0 <= q <= n as int);
    }
    (q, n - q)
}

/// Window geometry: the pattern's natural top-left corner at construction
/// time, the user's scroll offset, and the fixed window size.
#[derive(Debug, Clone, Copy, PartialEq, Eq)]
pub struct Viewport {
    pub origin: Point,
    pub scroll: Point,
    pub width: u64,
    pub height: u64,
}

impl Viewport {
    /// Well-formed: the window has at least one cell each way and its
    /// size can take part in signed coordinate arithmetic.
    pub open spec fn wf(self) -> bool {
        &&& 1 <= self.width <= i64::MAX
        &&& 1 <= self.height <= i64::MAX
    }

    /// The window anchored at `origin + scroll`.
    pub open spec fn fixed_spec(self) -> ((int, int), (int, int)) {
        let x0 = self.origin.key().0 + self.scroll.key().0;
        let y0 = self.origin.key().1 + self.scroll.key().1;
        ((x0, y0), (x0 + self.width - 1, y0 + self.height - 1))
    }

    /// Both corners of the fixed window stay within `i64`.
    pub open spec fn fixed_fits(self) -> bool {
        let w = self.fixed_spec();
        &&& i64::MIN <= w.0.0
        &&& i64::MIN <= w.0.1
        &&& w.1.0 <= i64::MAX
        &&& w.1.1 <= i64::MAX
    }

    /// The window of the configured size centered on `m`, the larger half
    /// extending toward greater coordinates.
    pub open spec fn centered_spec(self, m: (int, int)) -> ((int, int), (int, int)) {
        let w = self.width as int;
        let h = self.height as int;
        ((m.0 - w / 2, m.1 - h / 2), (m.0 + (w - w / 2) - 1, m.1 + (h - h / 2) - 1))
    }

    /// Both corners of the centered window stay within `i64`.
    pub open spec fn centered_fits(self, m: (int, int)) -> bool {
        let w = self.centered_spec(m);
        &&& i64::MIN <= w.0.0
        &&& i64::MIN <= w.0.1
        &&& w.1.0 <= i64::MAX
        &&& w.1.1 <= i64::MAX
    }

    /// Bounds of the window under a pure pan: anchored at
    /// `origin + scroll`, extending `width - 1` and `height - 1` further.
    pub fn fixed(&self) -> (r: (Point, Point))
        requires
            self.wf(),
            self.fixed_fits(),
        ensures
            (r.0.key(), r.1.key()) == self.fixed_spec(),
    {
        let x0: i128 = self.origin.0 as i128 + self.scroll.0 as i128;
        let y0: i128 = self.origin.1 as i128 + self.scroll.1 as i128;
        let x1: i128 = x0 + self.width as i128 - 1;
        let y1: i128 = y0 + self.height as i128 - 1;
        (Point(x0 as i64, y0 as i64), Point(x1 as i64, y1 as i64))
    }

    /// Bounds of the window of the configured size centered around
    /// `midpoint`.
    pub fn centered(&self, midpoint: Point) -> (r: (Point, Point))
        requires
            self.wf(),
            self.centered_fits(midpoint.key()),
        ensures
            (r.0.key(), r.1.key()) == self.centered_spec(midpoint.key()),
    {
        let (dx0, dx1) = split_int(self.width as i64);
        let (dy0, dy1) = split_int(self.height as i64);
        let x0: i128 = midpoint.0 as i128 - dx0 as i128;
        let y0: i128 = midpoint.1 as i128 - dy0 as i128;
        let x1: i128 = midpoint.0 as i128 + dx1 as i128 - 1;
        let y1: i128 = midpoint.1 as i128 + dy1 as i128 - 1;
        (Point(x0 as i64, y0 as i64), Point(x1 as i64, y1 as i64))
    }
}

/// The width the viewport takes at construction: the explicit setting, or
/// the natural width of the pattern's bounding box.
pub open spec fn derived_width(g: Set<(int, int)>, opts: Settings) -> int {
    match opts.width {
        Some(w) => w as int,
        None => bounds_of(g).1.0 - bounds_of(g).0.0 + 1,
    }
}

pub open spec fn derived_height(g: Set<(int, int)>, opts: Settings) -> int {
    match opts.height {
        Some(h) => h as int,
        None => bounds_of(g).1.1 - bounds_of(g).0.1 + 1,
    }
}

/// The scroll that re-anchors the fixed window onto the centered one.
pub open spec fn centered_scroll_spec(g: Set<(int, int)>, vp: Viewport) -> (int, int) {
    let c = vp.centered_spec(midpoint_spec(g));
    (c.0.0 - vp.origin.key().0, c.0.1 - vp.origin.key().1)
}

/// The viewport after one centering: only the scroll changes, to the
/// offset that re-anchors the fixed window onto the centered one.
pub open spec fn after_center(g: Game) -> Viewport {
    Viewport {
        scroll: Point(
            centered_scroll_spec(g.live(), g.viewport).0 as i64,
            centered_scroll_spec(g.live(), g.viewport).1 as i64,
        ),
        ..g.viewport
    }
}

/// Law: centering the viewport twice in a row produces the same
/// viewport as centering it once. The centered scroll depends on the
/// live cells and the window's origin and size, never on the current
/// scroll, so a second centering recomputes the same offset.
pub proof fn lemma_center_viewport_idempotent(g0: Game, g1: Game, g2: Game)
    requires
        g1.viewport == after_center(g0),
        g1.live() == g0.live(),
        g2.viewport == after_center(g1),
        g2.live() == g1.live(),
    ensures
        g2.viewport == g1.viewport,
{
    assert(centered_scroll_spec(g1.live(), g1.viewport) == centered_scroll_spec(
        g0.live(),
        g0.viewport,
    ));
}

/// Centering arithmetic stays within `i64`.
pub open spec fn center_fits(g: Set<(int, int)>, vp: Viewport) -> bool {
    let s = centered_scroll_spec(g, vp);
    &&& vp.centered_fits(midpoint_spec(g))
    &&& i64::MIN <= s.0 <= i64::MAX
    &&& i64::MIN <= s.1 <= i64::MAX
}

/// The viewport a fresh game starts with, before any command runs.
pub open spec fn initial_viewport(g: Set<(int, int)>, opts: Settings) -> Viewport {
    let lo = bounds_of(g).0;
    let base = Viewport {
        origin: Point(lo.0 as i64, lo.1 as i64),
        scroll: Point(0i64, 0i64),
        width: derived_width(g, opts) as u64,
        height: derived_height(g, opts) as u64,
    };
    if opts.view is Centered {
        Viewport {
            scroll: Point(
                centered_scroll_spec(g, base).0 as i64,
                centered_scroll_spec(g, base).1 as i64,
            ),
            ..base
        }
    } else {
        base
    }
}

/// What `Game::new` needs of its inputs: a window size that is positive
/// and fits the coordinate range, and room for the initial centering.
pub open spec fn new_fits(g: Set<(int, int)>, opts: Settings) -> bool {
    let lo = bounds_of(g).0;
    let base = Viewport {
        origin: Point(lo.0 as i64, lo.1 as i64),
        scroll: Point(0i64, 0i64),
        width: derived_width(g, opts) as u64,
        height: derived_height(g, opts) as u64,
    };
    &&& 1 <= derived_width(g, opts) <= i64::MAX
    &&& 1 <= derived_height(g, opts) <= i64::MAX
    &&& (opts.view is Centered ==> center_fits(g, base))
}

/// Every live cell keeps the margin one generation step needs.
pub open spec fn tick_safe_set(g: Set<(int, int)>) -> bool {
    forall|q: (int, int)| g.contains(q) ==> tick_safe_key(q)
}

/// Game holds the high-level gameplay logic: one live grid, a scratch
/// grid for double buffering, the settings, and the viewport.
#[derive(Debug)]
pub struct Game {
    pub grid: Grid,
    pub swap: Grid,
    pub opts: Settings,
    pub viewport: Viewport,
}

impl Game {
    /// The set of live coordinates.
    pub open spec fn live(self) -> Set<(int, int)> {
        self.grid.live()
    }

    /// The settings this game was built with.
    pub open spec fn settings_spec(self) -> Settings {
        self.opts
    }

    /// Internal invariant: both grids are well-formed, the scratch grid
    /// is empty between ticks, the viewport is well-formed, and the view
    /// mode is one this engine can render.
    pub open spec fn inv(self) -> bool {
        &&& self.grid_wf()
        &&& self.viewport.wf()
        &&& !(self.settings_spec().view is Follow)
    }

    /// The grid parts of the invariant.
    pub open spec fn grid_wf(self) -> bool {
        &&& self.grid.wf()
        &&& self.swap.wf()
        &&& self.swap.live() == Set::<(int, int)>::empty()
    }

    /// The window this game renders, under the configured view mode.
    pub open spec fn window_spec(self) -> ((int, int), (int, int)) {
        if self.settings_spec().view is Fixed {
            self.viewport.fixed_spec()
        } else {
            self.viewport.centered_spec(midpoint_spec(self.live()))
        }
    }

    /// The rendered window stays within `i64`.
    pub open spec fn window_fits(self) -> bool {
        if self.settings_spec().view is Fixed {
            self.viewport.fixed_fits()
        } else {
            self.viewport.centered_fits(midpoint_spec(self.live()))
        }
    }

    pub fn new(grid: Grid, opts: Settings) -> (r: Game)
        requires
            grid.wf(),
            !(opts.view is Follow),
            new_fits(grid.live(), opts),
        ensures
            r.inv(),
            r.live() == grid.live(),
            r.settings_spec() == opts,
            r.viewport == initial_viewport(grid.live(), opts),
    {
        let mut swap = grid.duplicate();
        swap.clear();
        let (p0, p1) = grid.calculate_bounds();
        let width: u64 = match opts.width {
            Some(w) => w,
            None => (p1.0 as i128 - p0.0 as i128 + 1) as u64,
        };
        let height: u64 = match opts.height {
            Some(h) => h,
            None => (p1.1 as i128 - p0.1 as i128 + 1) as u64,
        };
        let viewport = Viewport { origin: p0, scroll: Point(0, 0), width, height };
        let centered = matches!(opts.view, View::Centered);
        let mut game = Game { grid, swap, opts, viewport };
        if centered {
            game.center_viewport();
        }
        game
    }

    /// Execute the next turn: apply the rule to every active point,
    /// writing the survivors and births into the scratch grid, then swap
    /// the buffers.
    pub fn tick(&mut self)
        requires
            old(self).inv(),
            tick_safe_set(old(self).live()),
        ensures
            final(self).inv(),
            final(self).live() == next_gen(old(self).live()),
            final(self).viewport == old(self).viewport,
            final(self).settings_spec() == old(self).settings_spec(),
    {
        let ghost g = self.grid.live();
        proof {
            assert forall|q: (int, int)| self.grid.live().contains(q) implies probe_safe(q) by {
                assert(tick_safe_key(q));
            }
        }
        let active = self.grid.active_cells();
        let mut k: usize = 0;
        while k < active.len()
            invariant
                k <= active@.len(),
                self.grid == old(self).grid,
                self.opts == old(self).opts,
                self.viewport == old(self).viewport,
                g == self.grid.live(),
                self.grid.wf(),
                tick_safe_set(g),
                keys_of(active@) == active_spec(g),
                self.swap.wf(),
                self.swap.live() =~= Set::new(
                    |q: (int, int)|
                        keys_of(active@.take(k as int)).contains(q) && survives_spec(g, q.0, q.1),
                ),
            decreases active@.len() - k,
        {
            let cell = active[k];
            proof {
                assert(keys_of(active@).contains(cell.key()));
                assert(active_spec(g).contains(cell.key()));
                if g.contains(cell.key()) {
                    assert(tick_safe_key(cell.key()));
                } else {
                    lemma_nbr_count_positive(g, cell.key());
                    let p = choose|p: (int, int)|
                        g.contains(p) && crate::grid::is_neighbor(cell.key(), p);
                    assert(tick_safe_key(p));
                }
                assert(probe_safe(cell.key()));
            }
            let lives = self.survives(&cell);
            if lives {
                self.swap.set_alive(cell);
            }
            proof {
                lemma_keys_take_push(active@, k as int);
                assert(self.swap.live() =~= Set::new(
                    |q: (int, int)|
                        keys_of(active@.take(k as int + 1)).contains(q) && survives_spec(
                            g,
                            q.0,
                            q.1,
                        ),
                ));
            }
            k = k + 1;
        }
        proof {
            assert(active@.take(active@.len() as int) =~= active@);
            assert(self.swap.live() =~= next_gen(g)) by {
                assert forall|q: (int, int)| next_gen(g).contains(q) implies self.swap.live()
                    .contains(q) by {
                    assert(survives_spec(g, q.0, q.1));
                    assert(active_spec(g).contains(q));
                    assert(keys_of(active@).contains(q));
                }
            }
        }
        self.grid.clear();
        core::mem::swap(&mut self.grid, &mut self.swap);
    }

    /// Whether the cell at the given Point lives in the next generation.
    pub fn survives(&self, cell: &Point) -> (r: bool)
        requires
            probe_safe(cell.key()),
        ensures
            r == survives_spec(self.live(), cell.key().0, cell.key().1),
    {
        let live_neighbors = self.grid.live_neighbors(cell);
        if self.grid.is_alive(cell) {
            live_neighbors == 2 || live_neighbors == 3
        } else {
            live_neighbors == 3
        }
    }

    /// Whether the Game is over: the grid holds no live points.
    pub fn is_over(&self) -> (r: bool)
        ensures
            r == (self.live() == Set::<(int, int)>::empty()),
    {
        self.grid.is_empty()
    }

    /// Pan the viewport.
    pub fn scroll(&mut self, dx: i64, dy: i64)
        requires
            i64::MIN <= old(self).viewport.scroll.key().0 + dx <= i64::MAX,
            i64::MIN <= old(self).viewport.scroll.key().1 + dy <= i64::MAX,
        ensures
            final(self).viewport == (Viewport {
                scroll: Point(
                    (old(self).viewport.scroll.key().0 + dx) as i64,
                    (old(self).viewport.scroll.key().1 + dy) as i64,
                ),
                ..old(self).viewport
            }),
            final(self).live() == old(self).live(),
            final(self).settings_spec() == old(self).settings_spec(),
            final(self).inv() == old(self).inv(),
            final(self).grid_wf() == old(self).grid_wf(),
    {
        self.viewport.scroll = self.viewport.scroll + Point(dx, dy);
    }

    /// Move the viewport scroll to an absolute offset.
    pub fn scroll_to(&mut self, point: Point)
        ensures
            final(self).viewport == (Viewport { scroll: point, ..old(self).viewport }),
            final(self).live() == old(self).live(),
            final(self).settings_spec() == old(self).settings_spec(),
            final(self).inv() == old(self).inv(),
            final(self).grid_wf() == old(self).grid_wf(),
    {
        self.viewport.scroll = point;
    }

    /// Set the scroll so that a later fixed window reproduces the window
    /// centered on the live cells.
    pub fn center_viewport(&mut self)
        requires
            old(self).viewport.wf(),
            center_fits(old(self).live(), old(self).viewport),
        ensures
            final(self).viewport == after_center(*old(self)),
            final(self).live() == old(self).live(),
            final(self).settings_spec() == old(self).settings_spec(),
            final(self).inv() == old(self).inv(),
            final(self).grid_wf() == old(self).grid_wf(),
    {
        let m = self.grid.midpoint();
        let (c0, _c1) = self.viewport.centered(m);
        let sx: i128 = c0.0 as i128 - self.viewport.origin.0 as i128;
        let sy: i128 = c0.1 as i128 - self.viewport.origin.1 as i128;
        self.viewport.scroll = Point(sx as i64, sy as i64);
    }

    /// The window the configured view mode renders.
    pub fn viewport(&self) -> (r: (Point, Point))
        requires
            self.inv(),
            self.window_fits(),
        ensures
            (r.0.key(), r.1.key()) == self.window_spec(),
    {
        match &self.opts.view {
            View::Fixed => self.viewport.fixed(),
            View::Centered => self.viewport_centered(),
            View::Follow => vstd::pervasive::unreached(),
        }
    }

    /// The window centered on the live cells, whatever the view mode.
    pub fn viewport_centered(&self) -> (r: (Point, Point))
        requires
            self.viewport.wf(),
            self.viewport.centered_fits(midpoint_spec(self.live())),
        ensures
            (r.0.key(), r.1.key()) == self.viewport.centered_spec(midpoint_spec(self.live())),
    {
        self.viewport.centered(self.grid.midpoint())
    }

    /// Whether the configured window can be rendered without leaving the
    /// coordinate range.
    pub fn can_render(&self) -> (r: bool)
        requires
            self.inv(),
        ensures
            r == self.window_fits(),
    {
        match &self.opts.view {
            View::Fixed => {
                let x0: i128 = self.viewport.origin.0 as i128 + self.viewport.scroll.0 as i128;
                let y0: i128 = self.viewport.origin.1 as i128 + self.viewport.scroll.1 as i128;
                let x1: i128 = x0 + self.viewport.width as i128 - 1;
                let y1: i128 = y0 + self.viewport.height as i128 - 1;
                x0 >= i64::MIN as i128 && y0 >= i64::MIN as i128 && x1 <= i64::MAX as i128 && y1
                    <= i64::MAX as i128
            },
            View::Centered => {
                let m = self.grid.midpoint();
                let (dx0, dx1) = split_int(self.viewport.width as i64);
                let (dy0, dy1) = split_int(self.viewport.height as i64);
                let x0: i128 = m.0 as i128 - dx0 as i128;
                let y0: i128 = m.1 as i128 - dy0 as i128;
                let x1: i128 = m.0 as i128 + dx1 as i128 - 1;
                let y1: i128 = m.1 as i128 + dy1 as i128 - 1;
                x0 >= i64::MIN as i128 && y0 >= i64::MIN as i128 && x1 <= i64::MAX as i128 && y1
                    <= i64::MAX as i128
            },
            View::Follow => vstd::pervasive::unreached(),
        }
    }

    /// Whether centering arithmetic would stay in range right now.
    pub fn can_center(&self) -> (r: bool)
        requires
            self.viewport.wf(),
        ensures
            r == center_fits(self.live(), self.viewport),
    {
        center_fits_check(&self.grid, &self.viewport)
    }

    /// Whether every live cell leaves the margin a tick needs.
    pub fn is_tick_safe(&self) -> (r: bool)
        ensures
            r == tick_safe_set(self.live()),
    {
        self.grid.all_tick_safe()
    }

    /// Replace the live grid, leaving viewport and settings untouched.
    pub fn reset_grid(&mut self, grid: Grid)
        requires
            grid.wf(),
        ensures
            final(self).live() == grid.live(),
            final(self).viewport == old(self).viewport,
            final(self).settings_spec() == old(self).settings_spec(),
            old(self).inv() ==> final(self).inv(),
    {
        self.grid = grid;
    }

    /// A game with the same live cells, viewport and settings.
    pub fn duplicate(&self) -> (r: Game)
        ensures
            r.live() == self.live(),
            r.viewport == self.viewport,
            r.settings_spec() == self.settings_spec(),
            self.inv() ==> r.inv(),
    {
        Game {
            grid: self.grid.duplicate(),
            swap: self.swap.duplicate(),
            opts: self.opts,
            viewport: self.viewport,
        }
    }
}


/// Whether centering this grid in this viewport stays in range.
pub fn center_fits_check(grid: &Grid, vp: &Viewport) -> (r: bool)
    requires
        vp.wf(),
    ensures
        r == center_fits(grid.live(), *vp),
{
    let m = grid.midpoint();
    let (dx0, dx1) = split_int(vp.width as i64);
    let (dy0, dy1) = split_int(vp.height as i64);
    let x0: i128 = m.0 as i128 - dx0 as i128;
    let y0: i128 = m.1 as i128 - dy0 as i128;
    let x1: i128 = m.0 as i128 + dx1 as i128 - 1;
    let y1: i128 = m.1 as i128 + dy1 as i128 - 1;
    let sx: i128 = x0 - vp.origin.0 as i128;
    let sy: i128 = y0 - vp.origin.1 as i128;
    x0 >= i64::MIN as i128 && y0 >= i64::MIN as i128 && x1 <= i64::MAX as i128 && y1
        <= i64::MAX as i128 && sx >= i64::MIN as i128 && sx <= i64::MAX as i128 && sy
        >= i64::MIN as i128 && sy <= i64::MAX as i128
}

/// Whether `Game::new` can build a game from this grid and settings.
pub fn check_new_fits(grid: &Grid, opts: &Settings) -> (r: bool)
    ensures
        r == new_fits(grid.live(), *opts),
{
    let (p0, p1) = grid.calculate_bounds();
    let w128: i128 = match opts.width {
        Some(w) => w as i128,
        None => p1.0 as i128 - p0.0 as i128 + 1,
    };
    let h128: i128 = match opts.height {
        Some(h) => h as i128,
        None => p1.1 as i128 - p0.1 as i128 + 1,
    };
    if !(1 <= w128 && w128 <= i64::MAX as i128) {
        return false;
    }
    if !(1 <= h128 && h128 <= i64::MAX as i128) {
        return false;
    }
    if matches!(opts.view, View::Centered) {
        let base = Viewport {
            origin: p0,
            scroll: Point(0, 0),
            width: w128 as u64,
            height: h128 as u64,
        };
        return center_fits_check(grid, &base);
    }
    true
}

} // verus!
