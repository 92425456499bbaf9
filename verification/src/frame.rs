use vstd::prelude::*;

use crate::chars::{is_space, is_space_char};
use crate::errors::AppError;
use crate::game::Game;
use crate::grid::{keys_of, Grid};
use crate::point::Point;
use crate::trusted::chars_to_string;

use vstd::string::StringExecFns;

verus! {

/// Characters of the first line of `t`: everything before the first
/// line feed, or all of `t` when it has none.
pub open spec fn line_len(t: Seq<char>) -> nat
    decreases t.len(),
{
    if t.len() == 0 {
        0
    } else if t[0] == '\n' {
        0
    } else {
        1 + line_len(t.drop_first())
    }
}

pub proof fn lemma_line_len(t: Seq<char>)
    ensures
        line_len(t) <= t.len(),
        forall|j: int| 0 <= j < line_len(t) ==> t[j] != '\n',
        line_len(t) < t.len() ==> t[line_len(t) as int] == '\n',
    decreases t.len(),
{
    if t.len() > 0 && t[0] != '\n' {
        lemma_line_len(t.drop_first());
        let d = t.drop_first();
        assert forall|j: int| 0 <= j < line_len(t) implies t[j] != '\n' by {
            if j > 0 {
                assert(t[j] == d[j - 1]);
            }
        }
        if line_len(t) < t.len() {
            assert(t[line_len(t) as int] == d[line_len(d) as int]);
        }
    }
}

/// The rows of `t`, split at line feeds; a final line feed closes the
/// last row without opening a new one.
pub open spec fn split_lines(t: Seq<char>) -> Seq<Seq<char>>
    decreases t.len(),
{
    if t.len() == 0 {
        seq![]
    } else {
        let k = line_len(t) as int;
        if k >= t.len() {
            seq![t]
        } else {
            seq![t.subrange(0, k)] + split_lines(t.subrange(k + 1, t.len() as int))
        }
    }
}

/// A line without line feeds is one row.
pub proof fn lemma_split_single(t: Seq<char>)
    requires
        t.len() > 0,
        forall|j: int| 0 <= j < t.len() ==> t[j] != '\n',
    ensures
        split_lines(t) == seq![t],
    decreases t.len(),
{
    lemma_line_len_full(t);
}

/// A line feed never occurs before `line_len` says so.
pub proof fn lemma_line_len_full(t: Seq<char>)
    requires
        forall|j: int| 0 <= j < t.len() ==> t[j] != '\n',
    ensures
        line_len(t) == t.len(),
    decreases t.len(),
{
    if t.len() > 0 {
        let d = t.drop_first();
        assert(forall|j: int| 0 <= j < d.len() ==> d[j] == t[j + 1]);
        lemma_line_len_full(d);
    }
}

/// The first line of `row ++ ['\n'] ++ rest` is exactly `row`.
pub proof fn lemma_line_len_prefix(row: Seq<char>, tail: Seq<char>)
    requires
        forall|j: int| 0 <= j < row.len() ==> row[j] != '\n',
        tail.len() > 0,
        tail[0] == '\n',
    ensures
        line_len(row + tail) == row.len(),
    decreases row.len(),
{
    let t = row + tail;
    if row.len() == 0 {
        assert(t =~= tail);
    } else {
        assert(t[0] == row[0]);
        assert(t.drop_first() =~= row.drop_first() + tail);
        lemma_line_len_prefix(row.drop_first(), tail);
    }
}

/// Splitting takes the first row off the front.
pub proof fn lemma_split_first(row: Seq<char>, rest: Seq<char>)
    requires
        forall|j: int| 0 <= j < row.len() ==> row[j] != '\n',
    ensures
        split_lines(row + seq!['\n'] + rest) == seq![row] + split_lines(rest),
{
    let t = row + seq!['\n'] + rest;
    assert(row + seq!['\n'] + rest =~= row + (seq!['\n'] + rest));
    lemma_line_len_prefix(row, seq!['\n'] + rest);
    assert(line_len(t) == row.len());
    assert(line_len(t) < t.len());
    assert(t.subrange(0, row.len() as int) =~= row);
    assert(t.subrange(row.len() as int + 1, t.len() as int) =~= rest);
}

/// There are never more rows than characters plus one.
pub proof fn lemma_split_count(t: Seq<char>)
    ensures
        split_lines(t).len() <= t.len() + 1,
    decreases t.len(),
{
    if t.len() > 0 {
        lemma_line_len(t);
        let k = line_len(t) as int;
        if k < t.len() {
            lemma_split_count(t.subrange(k + 1, t.len() as int));
        }
    }
}

/// Every row is no longer than the whole text.
pub proof fn lemma_split_rows_len(t: Seq<char>)
    ensures
        forall|r: int|
            0 <= r < split_lines(t).len() ==> (#[trigger] split_lines(t)[r]).len() <= t.len(),
    decreases t.len(),
{
    if t.len() > 0 {
        lemma_line_len(t);
        let k = line_len(t) as int;
        if k < t.len() {
            let rest = t.subrange(k + 1, t.len() as int);
            lemma_split_rows_len(rest);
            assert forall|r: int|
                0 <= r < split_lines(t).len() implies (#[trigger] split_lines(t)[r]).len()
                <= t.len() by {
                if r == 0 {
                    assert(split_lines(t)[0] == t.subrange(0, k));
                } else {
                    assert(split_lines(t)[r] == split_lines(rest)[r - 1]);
                }
            }
        }
    }
}

/// A row the parser ignores: blank, or a comment marked by `#`.
pub open spec fn row_blank(row: Seq<char>) -> bool {
    forall|j: int| 0 <= j < row.len() ==> is_space_char(#[trigger] row[j])
}

pub open spec fn row_skipped(row: Seq<char>) -> bool {
    row_blank(row) || (row.len() > 0 && row[0] == '#')
}

/// The rows that carry cells, in order.
pub open spec fn kept_rows_of(rows: Seq<Seq<char>>) -> Seq<Seq<char>>
    decreases rows.len(),
{
    if rows.len() == 0 {
        seq![]
    } else if row_skipped(rows.last()) {
        kept_rows_of(rows.drop_last())
    } else {
        kept_rows_of(rows.drop_last()).push(rows.last())
    }
}

/// The kept rows of a pattern text.
pub open spec fn kept_rows(t: Seq<char>) -> Seq<Seq<char>> {
    kept_rows_of(split_lines(t))
}

/// Keeping rows distributes over concatenation.
pub proof fn lemma_kept_concat(a: Seq<Seq<char>>, b: Seq<Seq<char>>)
    ensures
        kept_rows_of(a + b) == kept_rows_of(a) + kept_rows_of(b),
    decreases b.len(),
{
    if b.len() == 0 {
        assert(a + b =~= a);
        assert(kept_rows_of(a) + kept_rows_of(b) =~= kept_rows_of(a));
    } else {
        assert((a + b).drop_last() =~= a + b.drop_last());
        assert((a + b).last() == b.last());
        lemma_kept_concat(a, b.drop_last());
        if row_skipped(b.last()) {
            assert(kept_rows_of(b) == kept_rows_of(b.drop_last()));
        } else {
            assert(kept_rows_of(a + b) == (kept_rows_of(a) + kept_rows_of(b.drop_last())).push(
                b.last(),
            ));
            assert((kept_rows_of(a) + kept_rows_of(b.drop_last())).push(b.last()) =~= kept_rows_of(
                a,
            ) + kept_rows_of(b.drop_last()).push(b.last()));
        }
    }
}

/// The cells named by kept pattern rows: column is x, row is y.
pub open spec fn pattern_cells(rows: Seq<Seq<char>>, alive: char) -> Set<(int, int)> {
    Set::new(
        |q: (int, int)|
            0 <= q.1 < rows.len() && 0 <= q.0 < rows[q.1].len() && rows[q.1][q.0] == alive,
    )
}

/// Every character of every row is one of the two glyphs.
pub open spec fn rows_ok(rows: Seq<Seq<char>>, alive: char, dead: char) -> bool {
    forall|r: int, j: int|
        0 <= r < rows.len() && 0 <= j < rows[r].len() ==> (#[trigger] rows[r][j]) == alive
            || rows[r][j] == dead
}

/// The column of the first character of `row` that is neither glyph;
/// the row length when there is none.
pub open spec fn row_bad_at(row: Seq<char>, alive: char, dead: char) -> nat
    decreases row.len(),
{
    if row.len() == 0 {
        0
    } else if row[0] != alive && row[0] != dead {
        0
    } else {
        1 + row_bad_at(row.drop_first(), alive, dead)
    }
}

pub proof fn lemma_row_bad_at(row: Seq<char>, alive: char, dead: char)
    ensures
        row_bad_at(row, alive, dead) <= row.len(),
        forall|j: int|
            0 <= j < row_bad_at(row, alive, dead) ==> (#[trigger] row[j]) == alive || row[j]
                == dead,
        row_bad_at(row, alive, dead) < row.len() ==> row[row_bad_at(row, alive, dead) as int]
            != alive && row[row_bad_at(row, alive, dead) as int] != dead,
    decreases row.len(),
{
    if row.len() > 0 && (row[0] == alive || row[0] == dead) {
        lemma_row_bad_at(row.drop_first(), alive, dead);
        let d = row.drop_first();
        assert forall|j: int| 0 <= j < row_bad_at(row, alive, dead) implies (#[trigger] row[j])
            == alive || row[j] == dead by {
            if j > 0 {
                assert(row[j] == d[j - 1]);
            }
        }
        if row_bad_at(row, alive, dead) < row.len() {
            assert(row[row_bad_at(row, alive, dead) as int] == d[row_bad_at(d, alive, dead) as int]);
        }
    }
}

/// The index of the first row that holds a character that is neither
/// glyph; the number of rows when every row is clean.
pub open spec fn bad_row_idx(rows: Seq<Seq<char>>, alive: char, dead: char) -> nat
    decreases rows.len(),
{
    if rows.len() == 0 {
        0
    } else if row_bad_at(rows[0], alive, dead) < rows[0].len() {
        0
    } else {
        1 + bad_row_idx(rows.drop_first(), alive, dead)
    }
}

pub proof fn lemma_bad_row_idx(rows: Seq<Seq<char>>, alive: char, dead: char)
    ensures
        bad_row_idx(rows, alive, dead) <= rows.len(),
        forall|r: int|
            0 <= r < bad_row_idx(rows, alive, dead) ==> row_bad_at(#[trigger] rows[r], alive, dead)
                == rows[r].len(),
        bad_row_idx(rows, alive, dead) < rows.len() ==> row_bad_at(
            rows[bad_row_idx(rows, alive, dead) as int],
            alive,
            dead,
        ) < rows[bad_row_idx(rows, alive, dead) as int].len(),
    decreases rows.len(),
{
    if rows.len() > 0 {
        lemma_row_bad_at(rows[0], alive, dead);
    }
    if rows.len() > 0 && row_bad_at(rows[0], alive, dead) == rows[0].len() {
        lemma_bad_row_idx(rows.drop_first(), alive, dead);
        let d = rows.drop_first();
        assert(d.len() == rows.len() - 1);
        assert(bad_row_idx(rows, alive, dead) == 1 + bad_row_idx(d, alive, dead));
        assert forall|r: int|
            0 <= r < bad_row_idx(rows, alive, dead) implies row_bad_at(
            #[trigger] rows[r],
            alive,
            dead,
        ) == rows[r].len() by {
            if r > 0 {
                assert(rows[r] == d[r - 1]);
            }
        }
        if bad_row_idx(rows, alive, dead) < rows.len() {
            let b = bad_row_idx(d, alive, dead) as int;
            assert(rows[bad_row_idx(rows, alive, dead) as int] == d[b]);
        }
    }
}

/// The first offending character of an unparsable pattern.
pub open spec fn first_bad_char(rows: Seq<Seq<char>>, alive: char, dead: char) -> char {
    let r = bad_row_idx(rows, alive, dead) as int;
    rows[r][row_bad_at(rows[r], alive, dead) as int]
}

/// Clean rows are exactly those without a bad position.
pub proof fn lemma_rows_ok_iff(rows: Seq<Seq<char>>, alive: char, dead: char)
    ensures
        rows_ok(rows, alive, dead) <==> bad_row_idx(rows, alive, dead) == rows.len(),
{
    lemma_bad_row_idx(rows, alive, dead);
    if bad_row_idx(rows, alive, dead) == rows.len() {
        assert forall|r: int, j: int|
            0 <= r < rows.len() && 0 <= j < rows[r].len() implies (#[trigger] rows[r][j]) == alive
            || rows[r][j] == dead by {
            assert(row_bad_at(rows[r], alive, dead) == rows[r].len());
            lemma_row_bad_at(rows[r], alive, dead);
        }
    } else {
        let r = bad_row_idx(rows, alive, dead) as int;
        lemma_row_bad_at(rows[r], alive, dead);
        let j = row_bad_at(rows[r], alive, dead) as int;
        assert(rows[r][j] != alive && rows[r][j] != dead);
    }
}


/// One rendered row of the window: a glyph per cell.
pub open spec fn render_row(
    g: Set<(int, int)>,
    y: int,
    x0: int,
    w: nat,
    alive: char,
    dead: char,
) -> Seq<char> {
    Seq::new(
        w,
        |i: int|
            if g.contains((x0 + i, y)) {
                alive
            } else {
                dead
            },
    )
}

/// The rendered frame: `h` rows of `w` glyphs from `(x0, y0)` down,
/// each row closed by a line feed.
pub open spec fn render_spec(
    g: Set<(int, int)>,
    x0: int,
    y0: int,
    w: nat,
    h: nat,
    alive: char,
    dead: char,
) -> Seq<char>
    decreases h,
{
    if h == 0 {
        Seq::empty()
    } else {
        render_row(g, y0, x0, w, alive, dead) + seq!['\n'] + render_spec(
            g,
            x0,
            y0 + 1,
            w,
            (h - 1) as nat,
            alive,
            dead,
        )
    }
}

/// Rendering one more row appends it at the end.
pub proof fn lemma_render_snoc(
    g: Set<(int, int)>,
    x0: int,
    y0: int,
    w: nat,
    h: nat,
    alive: char,
    dead: char,
)
    ensures
        render_spec(g, x0, y0, w, (h + 1) as nat, alive, dead) == render_spec(
            g,
            x0,
            y0,
            w,
            h,
            alive,
            dead,
        ) + render_row(g, y0 + h, x0, w, alive, dead) + seq!['\n'],
    decreases h,
{
    if h == 0 {
        assert(render_spec(g, x0, y0, w, 0, alive, dead) == Seq::<char>::empty());
        assert(render_spec(g, x0, y0 + 1, w, 0, alive, dead) == Seq::<char>::empty());
        assert(render_spec(g, x0, y0, w, 1, alive, dead) == render_row(g, y0, x0, w, alive, dead)
            + seq!['\n'] + render_spec(g, x0, y0 + 1, w, 0, alive, dead));
        assert(render_spec(g, x0, y0, w, 1, alive, dead) =~= render_spec(g, x0, y0, w, 0, alive, dead)
            + render_row(g, y0, x0, w, alive, dead) + seq!['\n']);
    } else {
        lemma_render_snoc(g, x0, y0 + 1, w, (h - 1) as nat, alive, dead);
        assert(render_spec(g, x0, y0, w, (h + 1) as nat, alive, dead) =~= render_spec(
            g,
            x0,
            y0,
            w,
            h,
            alive,
            dead,
        ) + render_row(g, y0 + h, x0, w, alive, dead) + seq!['\n']);
    }
}

/// The frame this game draws: its window under the configured view
/// mode, rendered with its glyphs.
pub open spec fn render_of(game: Game) -> Seq<char> {
    let w = game.window_spec();
    render_spec(
        game.live(),
        w.0.0,
        w.0.1,
        (w.1.0 - w.0.0 + 1) as nat,
        (w.1.1 - w.0.1 + 1) as nat,
        game.settings_spec().char_alive,
        game.settings_spec().char_dead,
    )
}

impl Game {
    /// Render the given window rectangle, row-major, one text line per
    /// row of cells.
    pub fn draw_viewport(&self, window: (Point, Point)) -> (r: String)
        requires
            window.0.key().0 <= window.1.key().0,
            window.0.key().1 <= window.1.key().1,
            window.1.key().0 - window.0.key().0 + 1 <= i64::MAX,
            window.1.key().1 - window.0.key().1 + 1 <= i64::MAX,
        ensures
            r@ == render_spec(
                self.live(),
                window.0.key().0,
                window.0.key().1,
                (window.1.key().0 - window.0.key().0 + 1) as nat,
                (window.1.key().1 - window.0.key().1 + 1) as nat,
                self.settings_spec().char_alive,
                self.settings_spec().char_dead,
            ),
    {
        let ghost g = self.live();
        let ghost a = self.settings_spec().char_alive;
        let ghost d = self.settings_spec().char_dead;
        let Point(x0, y0) = window.0;
        let Point(x1, y1) = window.1;
        let w: u64 = (x1 as i128 - x0 as i128 + 1) as u64;
        let h: u64 = (y1 as i128 - y0 as i128 + 1) as u64;
        let mut out: Vec<char> = Vec::new();
        let mut ry: u64 = 0;
        while ry < h
            invariant
                ry <= h,
                w == x1 - x0 + 1,
                h == y1 - y0 + 1,
                w >= 1,
                h >= 1,
                g == self.live(),
                a == self.settings_spec().char_alive,
                d == self.settings_spec().char_dead,
                x0 == window.0.key().0,
                y0 == window.0.key().1,
                x1 == window.1.key().0,
                y1 == window.1.key().1,
                out@ == render_spec(g, x0 as int, y0 as int, w as nat, ry as nat, a, d),
            decreases h - ry,
        {
            let y: i64 = (y0 as i128 + ry as i128) as i64;
            let mut rx: u64 = 0;
            while rx < w
                invariant
                    rx <= w,
                    ry < h,
                    w == x1 - x0 + 1,
                    h == y1 - y0 + 1,
                    g == self.live(),
                    a == self.settings_spec().char_alive,
                    d == self.settings_spec().char_dead,
                    y == y0 + ry,
                    out@ == render_spec(g, x0 as int, y0 as int, w as nat, ry as nat, a, d)
                        + render_row(g, y as int, x0 as int, rx as nat, a, d),
                decreases w - rx,
            {
                let x: i64 = (x0 as i128 + rx as i128) as i64;
                let c: char = if self.grid.is_alive(&Point(x, y)) {
                    self.opts.char_alive
                } else {
                    self.opts.char_dead
                };
                out.push(c);
                proof {
                    assert(render_row(g, y as int, x0 as int, rx as nat + 1, a, d) =~= render_row(
                        g,
                        y as int,
                        x0 as int,
                        rx as nat,
                        a,
                        d,
                    ).push(c));
                    assert(out@ =~= render_spec(g, x0 as int, y0 as int, w as nat, ry as nat, a, d)
                        + render_row(g, y as int, x0 as int, rx as nat + 1, a, d));
                }
                rx = rx + 1;
            }
            out.push('\n');
            proof {
                lemma_render_snoc(g, x0 as int, y0 as int, w as nat, ry as nat, a, d);
                assert(out@ =~= render_spec(g, x0 as int, y0 as int, w as nat, ry as nat + 1, a, d));
            }
            ry = ry + 1;
        }
        chars_to_string(&out)
    }

    /// Render the configured viewport rectangle with the configured
    /// glyphs.
    pub fn draw(&self) -> (r: String)
        requires
            self.inv(),
            self.window_fits(),
        ensures
            r@ == render_of(*self),
    {
        let window = self.viewport();
        proof {
            let ws = self.window_spec();
            assert(ws.1.0 - ws.0.0 + 1 == self.viewport.width);
            assert(ws.1.1 - ws.0.1 + 1 == self.viewport.height);
        }
        self.draw_viewport(window)
    }
}


/// The default glyph read as a live cell.
pub const READ_CHAR_ALIVE: char = 'x';

/// The default glyph read as a dead cell.
pub const READ_CHAR_DEAD: char = '.';

/// The views of a vector of rows.
pub open spec fn rows_view(rs: Seq<Vec<char>>) -> Seq<Seq<char>> {
    rs.map_values(|v: Vec<char>| v@)
}

/// Whether the parser ignores this row.
fn row_is_skipped(row: &Vec<char>) -> (r: bool)
    ensures
        r == row_skipped(row@),
{
    if row.len() > 0 && row[0] == '#' {
        return true;
    }
    let mut i: usize = 0;
    while i < row.len()
        invariant
            i <= row@.len(),
            !(row@.len() > 0 && row@[0] == '#'),
            forall|j: int| 0 <= j < i ==> is_space_char(#[trigger] row@[j]),
        decreases row@.len() - i,
    {
        if !is_space(row[i]) {
            return false;
        }
        i = i + 1;
    }
    true
}

/// Read a Grid from pattern text: rows of glyphs separated by line
/// feeds, with blank rows and `#`-comment rows ignored. Column becomes
/// x and kept-row index becomes y, both from zero. Any character that is
/// neither glyph is an error naming the first such character.
pub fn parse_pattern(s: &str, alive: char, dead: char) -> (r: Result<Grid, AppError>)
    ensures
        s@.len() <= i64::MAX ==> ({
            let rows = kept_rows(s@);
            &&& (rows_ok(rows, alive, dead) <==> r is Ok)
            &&& (r matches Ok(g) ==> g.wf() && g.live() == pattern_cells(rows, alive))
            &&& (!rows_ok(rows, alive, dead) ==> (r matches Err(e) && e matches AppError::ParseGrid(
                m,
            ) && m@ == "unknown character: '"@ + seq![first_bad_char(rows, alive, dead)] + "'"@))
        }),
        s@.len() > i64::MAX ==> (r matches Err(e) && e is ParseGrid),
{
    let n = s.unicode_len();
    if n as u64 > i64::MAX as u64 {
        assert(s@.len() > i64::MAX);
        return Err(AppError::ParseGrid(String::from_str("pattern too large")));
    }
    let chars = crate::chars::str_chars(s);
    let mut rows: Vec<Vec<char>> = Vec::new();
    let mut cur: Vec<char> = Vec::new();
    let mut i: usize = 0;
    proof {
        assert(cur@ + s@.skip(0) =~= s@);
    }
    while i < n
        invariant
            i <= n,
            n == s@.len(),
            n <= i64::MAX,
            chars@ == s@,
            forall|j: int| 0 <= j < cur@.len() ==> cur@[j] != '\n',
            split_lines(s@) == rows_view(rows@) + split_lines(cur@ + s@.skip(i as int)),
        decreases n - i,
    {
        let c = chars[i];
        let ghost rows_before = rows@;
        let ghost cur_before = cur@;
        if c == '\n' {
            proof {
                assert(cur@ + s@.skip(i as int) =~= cur@ + seq!['\n'] + s@.skip(i as int + 1));
                lemma_split_first(cur@, s@.skip(i as int + 1));
            }
            rows.push(cur);
            cur = Vec::new();
            proof {
                assert(rows_view(rows@) =~= rows_view(rows_before).push(cur_before));
                assert(rows_view(rows_before).push(cur_before) + split_lines(
                    cur@ + s@.skip(i as int + 1),
                ) =~= rows_view(rows_before) + (seq![cur_before] + split_lines(
                    s@.skip(i as int + 1),
                )));
                assert(cur@ + s@.skip(i as int + 1) =~= s@.skip(i as int + 1));
            }
        } else {
            cur.push(c);
            proof {
                assert(cur@ + s@.skip(i as int + 1) =~= cur_before + s@.skip(i as int));
            }
        }
        i = i + 1;
    }
    proof {
        assert(cur@ + s@.skip(n as int) =~= cur@);
    }
    if cur.len() > 0 {
        let ghost rows_before = rows@;
        let ghost cur_before = cur@;
        proof {
            lemma_split_single(cur@);
        }
        rows.push(cur);
        proof {
            assert(rows_view(rows@) =~= rows_view(rows_before).push(cur_before));
            assert(rows_view(rows_before) + seq![cur_before] =~= rows_view(rows@));
        }
    } else {
        proof {
            assert(split_lines(cur@) =~= Seq::<Seq<char>>::empty());
        }
    }
    proof {
        assert(rows_view(rows@) =~= split_lines(s@));
    }
    let ghost all_rows = split_lines(s@);
    let ghost kept = kept_rows_of(all_rows);
    proof {
        lemma_split_count(s@);
        lemma_split_rows_len(s@);
    }
    let mut cells: Vec<Point> = Vec::new();
    let mut y: usize = 0;
    let mut yi: usize = 0;
    proof {
        assert(all_rows.take(0) =~= Seq::<Seq<char>>::empty());
        assert(keys_of(cells@) =~= pattern_cells(kept_rows_of(all_rows.take(0)), alive));
    }
    while yi < rows.len()
        invariant
            yi <= rows@.len(),
            y <= yi,
            n == s@.len(),
            n <= i64::MAX,
            rows_view(rows@) == all_rows,
            all_rows == split_lines(s@),
            kept == kept_rows_of(all_rows),
            all_rows.len() <= n + 1,
            rows@.len() == all_rows.len(),
            forall|r: int| 0 <= r < all_rows.len() ==> (#[trigger] all_rows[r]).len() <= n,
            y == kept_rows_of(all_rows.take(yi as int)).len(),
            rows_ok(kept_rows_of(all_rows.take(yi as int)), alive, dead),
            keys_of(cells@) == pattern_cells(kept_rows_of(all_rows.take(yi as int)), alive),
        decreases rows@.len() - yi,
    {
        let ghost prefix = kept_rows_of(all_rows.take(yi as int));
        let row = &rows[yi];
        proof {
            assert(row@ == all_rows[yi as int]);
            assert(all_rows.take(yi as int + 1).drop_last() =~= all_rows.take(yi as int));
            assert(all_rows.take(yi as int + 1).last() == all_rows[yi as int]);
        }
        if row_is_skipped(row) {
            proof {
                assert(kept_rows_of(all_rows.take(yi as int + 1)) == prefix);
            }
            yi = yi + 1;
            continue ;
        }
        proof {
            assert(kept_rows_of(all_rows.take(yi as int + 1)) == prefix.push(row@));
        }
        let mut x: usize = 0;
        while x < row.len()
            invariant
                x <= row@.len(),
                row@.len() <= n,
                n <= i64::MAX,
                y <= yi < rows@.len(),
                rows@.len() <= n + 1,
                rows_view(rows@) == all_rows,
                row@ == all_rows[yi as int],
                kept == kept_rows_of(all_rows),
                all_rows == split_lines(s@),
                prefix == kept_rows_of(all_rows.take(yi as int)),
                kept_rows_of(all_rows.take(yi as int + 1)) == prefix.push(row@),
                y == prefix.len(),
                rows_ok(prefix, alive, dead),
                forall|j: int| 0 <= j < x ==> (#[trigger] row@[j]) == alive || row@[j] == dead,
                forall|q: (int, int)|
                    keys_of(cells@).contains(q) <==> (pattern_cells(prefix, alive).contains(q) || (
                    q.1 == y && 0 <= q.0 < x && row@[q.0] == alive)),
            decreases row@.len() - x,
        {
            let c = row[x];
            if c == alive {
                let ghost cells_before = cells@;
                proof {
                    assert(x < row@.len() <= n <= i64::MAX);
                    assert(y <= yi < rows@.len() <= n + 1);
                    assert(y as int <= i64::MAX);
                }
                cells.push(Point(x as i64, y as i64));
                proof {
                    assert(Point(x as i64, y as i64).key() == (x as int, y as int));
                    assert(keys_of(cells@) =~= keys_of(cells_before).insert(
                        (x as int, y as int),
                    )) by {
                        assert(forall|j: int|
                            0 <= j < cells_before.len() ==> cells@[j] == cells_before[j]);
                        assert(cells@[cells_before.len() as int] == Point(x as i64, y as i64));
                    }
                }
            } else if c != dead {
                proof {
                    lemma_kept_concat(
                        all_rows.take(yi as int + 1),
                        all_rows.skip(yi as int + 1),
                    );
                    assert(all_rows.take(yi as int + 1) + all_rows.skip(yi as int + 1)
                        =~= all_rows);
                    assert(kept == prefix.push(row@) + kept_rows_of(all_rows.skip(yi as int + 1)));
                    assert(kept[y as int] == row@);
                    assert(forall|r: int| 0 <= r < y ==> kept[r] == prefix[r]);
                    lemma_row_bad_at(row@, alive, dead);
                    assert(row_bad_at(row@, alive, dead) == x) by {
                        let b = row_bad_at(row@, alive, dead) as int;
                        if b < x {
                            assert(row@[b] == alive || row@[b] == dead);
                        }
                        if b > x {
                            assert(row@[x as int] == alive || row@[x as int] == dead);
                        }
                    }
                    lemma_bad_row_idx(kept, alive, dead);
                    assert(kept.len() > y);
                    assert(bad_row_idx(kept, alive, dead) == y) by {
                        let b = bad_row_idx(kept, alive, dead) as int;
                        assert(row_bad_at(kept[y as int], alive, dead) == x);
                        assert(x < kept[y as int].len());
                        if b < y {
                            assert(kept[b] == prefix[b]);
                            lemma_row_bad_at(prefix[b], alive, dead);
                            let p = row_bad_at(prefix[b], alive, dead) as int;
                            assert(p < prefix[b].len());
                            assert(prefix[b][p] == alive || prefix[b][p] == dead);
                        }
                        if b > y {
                            assert(0 <= y < b);
                            assert(row_bad_at(kept[y as int], alive, dead) == kept[y as int].len());
                        }
                    }
                    assert(first_bad_char(kept, alive, dead) == row@[x as int]);
                    assert(!rows_ok(kept, alive, dead)) by {
                        lemma_rows_ok_iff(kept, alive, dead);
                    }
                }
                let mut cv: Vec<char> = Vec::new();
                cv.push(c);
                let msg = String::from_str("unknown character: '").concat(
                    chars_to_string(&cv).as_str(),
                ).concat("'");
                proof {
                    assert(msg@ == "unknown character: '"@ + seq![
                        first_bad_char(kept, alive, dead),
                    ] + "'"@);
                }
                return Err(AppError::ParseGrid(msg));
            }
            x = x + 1;
        }
        proof {
            assert(keys_of(cells@) =~= pattern_cells(prefix.push(row@), alive)) by {
                assert forall|q: (int, int)|
                    pattern_cells(prefix.push(row@), alive).contains(q) implies keys_of(
                    cells@,
                ).contains(q) by {
                    if q.1 < y {
                        assert(prefix.push(row@)[q.1] == prefix[q.1]);
                        assert(pattern_cells(prefix, alive).contains(q));
                    } else {
                        assert(q.1 == y);
                        assert(prefix.push(row@)[q.1] == row@);
                    }
                }
                assert forall|q: (int, int)| keys_of(cells@).contains(q) implies pattern_cells(
                    prefix.push(row@),
                    alive,
                ).contains(q) by {
                    if pattern_cells(prefix, alive).contains(q) {
                        assert(prefix.push(row@)[q.1] == prefix[q.1]);
                    } else {
                        assert(q.1 == y && 0 <= q.0 < row@.len() && row@[q.0] == alive);
                        assert(prefix.push(row@)[q.1] == row@);
                    }
                }
            }
            assert(rows_ok(prefix.push(row@), alive, dead)) by {
                assert forall|r: int, j: int|
                    0 <= r < prefix.push(row@).len() && 0 <= j < prefix.push(row@)[r].len()
                    implies (#[trigger] prefix.push(row@)[r][j]) == alive || prefix.push(
                    row@,
                )[r][j] == dead by {
                    if r < prefix.len() {
                        assert(prefix.push(row@)[r] == prefix[r]);
                        assert(prefix[r][j] == alive || prefix[r][j] == dead);
                    } else {
                        assert(prefix.push(row@)[r] == row@);
                    }
                }
            }
        }
        y = y + 1;
        yi = yi + 1;
    }
    proof {
        assert(all_rows.take(rows@.len() as int) =~= all_rows);
    }
    let g = Grid::new(cells);
    proof {
        assert(g.live() == pattern_cells(kept, alive));
    }
    Ok(g)
}

impl core::str::FromStr for Grid {
    type Err = AppError;

    /// Read a Grid from pattern text with the default glyphs.
    fn from_str(s: &str) -> Result<Grid, AppError> {
        parse_pattern(s, READ_CHAR_ALIVE, READ_CHAR_DEAD)
    }
}


/// The window's live cells, shifted so the window corner is the origin.
pub open spec fn shift_window(g: Set<(int, int)>, x0: int, y0: int, w: nat, h: nat) -> Set<
    (int, int),
> {
    Set::new(
        |q: (int, int)| 0 <= q.0 < w && 0 <= q.1 < h && g.contains((q.0 + x0, q.1 + y0)),
    )
}

/// A rendered frame splits into exactly its rows.
pub proof fn lemma_split_render(
    g: Set<(int, int)>,
    x0: int,
    y0: int,
    w: nat,
    h: nat,
    alive: char,
    dead: char,
)
    requires
        alive != '\n',
        dead != '\n',
    ensures
        split_lines(render_spec(g, x0, y0, w, h, alive, dead)) == Seq::new(
            h,
            |r: int| render_row(g, y0 + r, x0, w, alive, dead),
        ),
    decreases h,
{
    let text = render_spec(g, x0, y0, w, h, alive, dead);
    if h == 0 {
        assert(text =~= Seq::<char>::empty());
        assert(split_lines(text) =~= Seq::new(0, |r: int| render_row(g, y0 + r, x0, w, alive, dead)));
    } else {
        let row = render_row(g, y0, x0, w, alive, dead);
        let rest = render_spec(g, x0, y0 + 1, w, (h - 1) as nat, alive, dead);
        assert(text == row + seq!['\n'] + rest);
        assert(forall|j: int| 0 <= j < row.len() ==> row[j] != '\n');
        lemma_split_first(row, rest);
        lemma_split_render(g, x0, y0 + 1, w, (h - 1) as nat, alive, dead);
        assert(split_lines(text) =~= Seq::new(
            h,
            |r: int| render_row(g, y0 + r, x0, w, alive, dead),
        )) by {
            let lhs = seq![row] + Seq::new(
                (h - 1) as nat,
                |r: int| render_row(g, y0 + 1 + r, x0, w, alive, dead),
            );
            assert(split_lines(text) == lhs);
            assert forall|r: int|
                0 <= r < h implies lhs[r] == render_row(g, y0 + r, x0, w, alive, dead) by {
                if r > 0 {
                    assert(lhs[r] == render_row(g, y0 + 1 + (r - 1), x0, w, alive, dead));
                }
            }
        }
    }
}

/// When no row is skipped, keeping rows keeps them all.
pub proof fn lemma_kept_all(rows: Seq<Seq<char>>)
    requires
        forall|r: int| 0 <= r < rows.len() ==> !row_skipped(#[trigger] rows[r]),
    ensures
        kept_rows_of(rows) == rows,
    decreases rows.len(),
{
    if rows.len() > 0 {
        let d = rows.drop_last();
        assert(forall|r: int| 0 <= r < d.len() ==> d[r] == rows[r]);
        lemma_kept_all(d);
        assert(kept_rows_of(rows) =~= rows);
    }
}

/// Rendering the shifted window from the origin gives the same rows.
pub proof fn lemma_render_shift(
    g: Set<(int, int)>,
    x0: int,
    y0: int,
    w: nat,
    h: nat,
    yy: int,
    hh: nat,
    alive: char,
    dead: char,
)
    requires
        0 <= yy,
        yy + hh <= h,
    ensures
        render_spec(shift_window(g, x0, y0, w, h), 0, yy, w, hh, alive, dead) == render_spec(
            g,
            x0,
            y0 + yy,
            w,
            hh,
            alive,
            dead,
        ),
    decreases hh,
{
    let sh = shift_window(g, x0, y0, w, h);
    if hh > 0 {
        lemma_render_shift(g, x0, y0, w, h, yy + 1, (hh - 1) as nat, alive, dead);
        assert(render_row(sh, yy, 0, w, alive, dead) =~= render_row(
            g,
            y0 + yy,
            x0,
            w,
            alive,
            dead,
        )) by {
            assert forall|i: int|
                0 <= i < w implies render_row(sh, yy, 0, w, alive, dead)[i] == render_row(
                g,
                y0 + yy,
                x0,
                w,
                alive,
                dead,
            )[i] by {
                assert(sh.contains((0 + i, yy)) == g.contains((i + x0, yy + y0)));
            }
        }
        assert(render_spec(sh, 0, yy, w, hh, alive, dead) =~= render_spec(
            g,
            x0,
            y0 + yy,
            w,
            hh,
            alive,
            dead,
        ));
    } else {
        assert(render_spec(sh, 0, yy, w, 0, alive, dead) =~= render_spec(
            g,
            x0,
            y0 + yy,
            w,
            0,
            alive,
            dead,
        ));
    }
}

/// Law: parsing a rendered frame yields exactly the window's cells,
/// shifted to the origin, and re-rendering them at the same window size
/// reproduces the original text character for character. This holds for
/// any two distinct glyphs that are not whitespace and not the comment
/// marker.
pub proof fn lemma_render_parse_round_trip(
    g: Set<(int, int)>,
    x0: int,
    y0: int,
    w: nat,
    h: nat,
    alive: char,
    dead: char,
)
    requires
        w >= 1,
        h >= 1,
        alive != dead,
        !is_space_char(alive),
        !is_space_char(dead),
        alive != '#',
        dead != '#',
    ensures
        ({
            let text = render_spec(g, x0, y0, w, h, alive, dead);
            let shifted = shift_window(g, x0, y0, w, h);
            &&& rows_ok(kept_rows(text), alive, dead)
            &&& pattern_cells(kept_rows(text), alive) == shifted
            &&& render_spec(shifted, 0, 0, w, h, alive, dead) == text
        }),
{
    let text = render_spec(g, x0, y0, w, h, alive, dead);
    let shifted = shift_window(g, x0, y0, w, h);
    let rows = Seq::new(h, |r: int| render_row(g, y0 + r, x0, w, alive, dead));
    lemma_split_render(g, x0, y0, w, h, alive, dead);
    assert(split_lines(text) == rows);
    assert forall|r: int| 0 <= r < rows.len() implies !row_skipped(#[trigger] rows[r]) by {
        assert(rows[r].len() == w);
        assert(rows[r][0] == alive || rows[r][0] == dead);
        assert(!is_space_char(rows[r][0]));
        assert(!row_blank(rows[r]));
        assert(rows[r][0] != '#');
    }
    lemma_kept_all(rows);
    assert(kept_rows(text) == rows);
    assert(rows_ok(rows, alive, dead)) by {
        assert forall|r: int, j: int|
            0 <= r < rows.len() && 0 <= j < rows[r].len() implies (#[trigger] rows[r][j]) == alive
            || rows[r][j] == dead by {
            assert(rows[r] == render_row(g, y0 + r, x0, w, alive, dead));
        }
    }
    assert(pattern_cells(rows, alive) =~= shifted) by {
        assert forall|q: (int, int)| pattern_cells(rows, alive).contains(q) implies
            shifted.contains(q) by {
            assert(rows[q.1] == render_row(g, y0 + q.1, x0, w, alive, dead));
            assert(rows[q.1][q.0] == if g.contains((x0 + q.0, y0 + q.1)) {
                alive
            } else {
                dead
            });
        }
        assert forall|q: (int, int)| shifted.contains(q) implies pattern_cells(
            rows,
            alive,
        ).contains(q) by {
            assert(rows[q.1] == render_row(g, y0 + q.1, x0, w, alive, dead));
            assert(rows[q.1][q.0] == alive);
        }
    }
    lemma_render_shift(g, x0, y0, w, h, 0, h, alive, dead);
}

} // verus!
