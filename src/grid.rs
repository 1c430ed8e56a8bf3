use vstd::prelude::*;

use crate::bunker::Bunker;
use crate::color::Color;

verus! {

/// Why a grid operation was refused.
#[derive(Clone, Copy, Debug, PartialEq, Eq, Structural)]
pub enum GridError {
    /// The rectangle reaches past the right or bottom edge of the grid.
    OutOfBounds,
}

/// Number of cells in `s` that hold material: neither empty nor transient.
pub open spec fn count_material(s: Seq<Color>) -> nat
    decreases s.len(),
{
    if s.len() == 0 {
        0
    } else {
        count_material(s.drop_last()) + if s.last().is_solid() {
            1nat
        } else {
            0nat
        }
    }
}

/// Number of cells in `s` that are not empty.
pub open spec fn count_non_empty(s: Seq<Color>) -> nat
    decreases s.len(),
{
    if s.len() == 0 {
        0
    } else {
        count_non_empty(s.drop_last()) + if s.last() != Color::EMPTY {
            1nat
        } else {
            0nat
        }
    }
}

/// Without transient markers, the cells holding material are exactly the non-empty ones.
pub proof fn lemma_material_is_non_empty(s: Seq<Color>)
    requires
        no_blur(s),
    ensures
        count_material(s) == count_non_empty(s),
    decreases s.len(),
{
    if s.len() > 0 {
        lemma_material_is_non_empty(s.drop_last());
    }
}

pub open spec fn no_blur(s: Seq<Color>) -> bool {
    forall|k: int| 0 <= k < s.len() ==> s[k] != Color::BLUR
}

/// Whether flat index `k` of a grid `w` wide lies in `[x0, x1) x [y0, y1)`.
pub open spec fn in_rect(k: int, w: nat, x0: int, y0: int, x1: int, y1: int) -> bool {
    x0 <= k % (w as int) < x1 && y0 <= k / (w as int) < y1
}

/// Whether flat index `k` lies strictly within distance `r` of `(cx, cy)`.
pub open spec fn in_circle(k: int, w: nat, cx: int, cy: int, r: int) -> bool {
    let dx = k % (w as int) - cx;
    let dy = k / (w as int) - cy;
    dx * dx + dy * dy < r * r
}

/// The cells after painting a rectangle with `c`.
pub open spec fn paint(s: Seq<Color>, w: nat, c: Color, x0: int, y0: int, x1: int, y1: int) -> Seq<
    Color,
> {
    Seq::new(s.len(), |k: int| if in_rect(k, w, x0, y0, x1, y1) { c } else { s[k] })
}

/// The cells after clearing a disc, bunker markers excepted.
pub open spec fn carve(s: Seq<Color>, w: nat, cx: int, cy: int, r: int) -> Seq<Color> {
    Seq::new(
        s.len(),
        |k: int|
            if in_circle(k, w, cx, cy, r) && !s[k].spec_is_bunker() {
                Color::EMPTY
            } else {
                s[k]
            },
    )
}

/// `b` follows from `a` by physics alone: as much material, and nothing fixed has moved.
pub open spec fn settles(a: Seq<Color>, b: Seq<Color>) -> bool {
    &&& a.len() == b.len()
    &&& count_material(a) == count_material(b)
    &&& forall|k: int| 0 <= k < a.len() && (#[trigger] a[k]).is_fixed() ==> b[k] == a[k]
}

/// The loose material at `k` has an empty cell right below it, `w` further on.
pub open spec fn falls(s: Seq<Color>, w: int, k: int) -> bool {
    0 <= k && k + w < s.len() && s[k].spec_can_fall() && s[k + w] == Color::EMPTY
}

/// The cells after the vertical pass: each loose cell above an empty one moves down
/// and leaves the transient marker behind.
pub open spec fn fall_step(s: Seq<Color>, w: int) -> Seq<Color> {
    Seq::new(
        s.len(),
        |k: int|
            if falls(s, w, k) {
                Color::BLUR
            } else if falls(s, w, k - w) {
                s[k - w]
            } else {
                s[k]
            },
    )
}

/// First column that a sideways pass in direction `d` takes as a source.
pub open spec fn side_first(w: int, d: int) -> int {
    if d == 1 {
        0
    } else {
        1
    }
}

/// Column just past the last one that a sideways pass in direction `d` takes as a source.
pub open spec fn side_last(w: int, d: int) -> int {
    if d == 1 {
        w - 1
    } else {
        w
    }
}

/// Whether the loose material at `(x, y)` slides to column `x + d` in state `s`: nothing
/// moved through the cells above and below it this step, and the three cells from
/// `(x + d, y)` down are empty.
pub open spec fn slides(s: Seq<Color>, w: int, x: int, y: int, d: int) -> bool {
    let i = y * w + x;
    let t = i + d;
    &&& s[i].spec_can_fall()
    &&& s[i + w] != Color::BLUR
    &&& (y == 0 || s[i - w] != Color::BLUR)
    &&& s[t] == Color::EMPTY
    &&& s[t + w] == Color::EMPTY
    &&& s[t + w + w] == Color::EMPTY
}

/// State `s` after the sideways pass has looked at `(x, y)`.
pub open spec fn slide_at(s: Seq<Color>, w: int, x: int, y: int, d: int) -> Seq<Color> {
    let i = y * w + x;
    let t = i + d;
    if slides(s, w, x, y, d) {
        s.update(t, s[i]).update(i, Color::BLUR).update(t + w, Color::BLUR).update(
            t + w + w,
            Color::BLUR,
        )
    } else {
        s
    }
}

/// State of a sideways pass in direction `d` over `s`, once every source cell of the rows
/// above `y`, and those of row `y` left of column `x`, has been looked at.
pub open spec fn side_scan(s: Seq<Color>, w: int, d: int, y: int, x: int) -> Seq<Color>
    decreases y, x,
{
    if x > side_first(w, d) {
        slide_at(side_scan(s, w, d, y, x - 1), w, x - 1, y, d)
    } else if y > 0 {
        side_scan(s, w, d, y - 1, side_last(w, d))
    } else {
        s
    }
}

/// The cells after a whole sideways pass in direction `d`: rows top to bottom, all but
/// the last two, each in the order of its columns.
pub open spec fn side_pass(s: Seq<Color>, w: int, h: int, d: int) -> Seq<Color> {
    if h < 3 || w < 2 {
        s
    } else {
        side_scan(s, w, d, h - 2, side_first(w, d))
    }
}

/// The cells after one whole physics step.
pub open spec fn stride_result(s: Seq<Color>, w: int, h: int) -> Seq<Color> {
    let settled = side_pass(side_pass(fall_step(s, w), w, h, 1), w, h, -1);
    Seq::new(settled.len(), |k: int| unblur(settled[k]))
}

/// Transient markers stay, and material under a transient marker stays.
pub open spec fn keeps_marked(a: Seq<Color>, b: Seq<Color>, w: int) -> bool {
    &&& a.len() == b.len()
    &&& forall|k: int| 0 <= k < a.len() && a[k] == Color::BLUR ==> #[trigger] b[k] == Color::BLUR
    &&& forall|k: int|
        w <= k < a.len() && a[k].is_solid() && a[k - w] == Color::BLUR ==> #[trigger] b[k]
            == a[k]
}

/// A cell once the transient marker is cleared.
pub open spec fn unblur(c: Color) -> Color {
    if c == Color::BLUR {
        Color::EMPTY
    } else {
        c
    }
}

/// Region of a row-by-row scan over `[x0, x1) x [y0, ..)` that is done once the scan
/// stands at column `x` of row `y`.
pub open spec fn scanned(k: int, w: nat, x0: int, y0: int, x1: int, y: int, x: int) -> bool {
    in_rect(k, w, x0, y0, x1, y) || (k / (w as int) == y && x0 <= k % (w as int) < x)
}

proof fn lemma_count_update(s: Seq<Color>, i: int, c: Color)
    requires
        0 <= i < s.len(),
    ensures
        count_material(s.update(i, c)) + (if s[i].is_solid() {
            1nat
        } else {
            0nat
        }) == count_material(s) + (if c.is_solid() {
            1nat
        } else {
            0nat
        }),
    decreases s.len(),
{
    let t = s.update(i, c);
    if i == s.len() - 1 {
        assert(t.drop_last() =~= s.drop_last());
    } else {
        assert(t.drop_last() =~= s.drop_last().update(i, c));
        lemma_count_update(s.drop_last(), i, c);
    }
}

/// Carving a disc a second time changes nothing, and carving never touches a bunker
/// marker, however close to the center it stands.
pub proof fn lemma_carve_idempotent(s: Seq<Color>, w: nat, cx: int, cy: int, r: int)
    ensures
        carve(carve(s, w, cx, cy, r), w, cx, cy, r) == carve(s, w, cx, cy, r),
        forall|k: int|
            0 <= k < s.len() && (#[trigger] s[k]).spec_is_bunker() ==> carve(s, w, cx, cy, r)[k]
                == s[k],
{
    assert(carve(carve(s, w, cx, cy, r), w, cx, cy, r) =~= carve(s, w, cx, cy, r));
}

proof fn lemma_index(w: int, h: int, x: int, y: int)
    requires
        0 <= x < w,
        0 <= y < h,
    ensures
        0 <= y * w + x < w * h,
        (y * w + x) % w == x,
        (y * w + x) / w == y,
        (y + 1) * w == y * w + w,
        (y + 2) * w == y * w + w + w,
{
    assert(0 <= y * w + x < w * h) by (nonlinear_arith)
        requires
            0 <= x < w,
            0 <= y < h,
    ;
    vstd::arithmetic::div_mod::lemma_fundamental_div_mod_converse(y * w + x, w, y, x);
    assert((y + 1) * w == y * w + w) by (nonlinear_arith);
    assert((y + 2) * w == y * w + w + w) by (nonlinear_arith);
}

/// Whether some bunker of `bs` carries the marker color `c`.
pub open spec fn has_owner(bs: Seq<Bunker>, c: Color) -> bool {
    exists|j: int| 0 <= j < bs.len() && (#[trigger] bs[j]).spec_color() == c
}

/// No bunker before `bs[j]` carries its color.
pub open spec fn first_of_color(bs: Seq<Bunker>, j: int) -> bool {
    forall|j2: int| 0 <= j2 < j ==> (#[trigger] bs[j2]).spec_color() != bs[j].spec_color()
}

/// `bs[j]` is the first bunker that carries `c`.
pub open spec fn owner_of(bs: Seq<Bunker>, c: Color, j: int) -> bool {
    0 <= j < bs.len() && bs[j].spec_color() == c && first_of_color(bs, j)
}

/// `k` is the last index before `end` where the bunker marker `c` stands.
pub open spec fn last_marker(s: Seq<Color>, c: Color, k: int, end: int) -> bool {
    &&& c.spec_is_bunker()
    &&& 0 <= k < end
    &&& s[k] == c
    &&& forall|k2: int| k < k2 < end ==> s[k2] != c
}

/// No bunker marker `c` stands before `end`.
pub open spec fn no_marker(s: Seq<Color>, c: Color, end: int) -> bool {
    !c.spec_is_bunker() || forall|k: int| 0 <= k < end ==> s[k] != c
}

/// The cells once every marker that no bunker of `bs` carries is emptied.
pub open spec fn heal_markers(s: Seq<Color>, bs: Seq<Bunker>) -> Seq<Color> {
    Seq::new(
        s.len(),
        |k: int|
            if s[k].spec_is_bunker() && !has_owner(bs, s[k]) {
                Color::EMPTY
            } else {
                s[k]
            },
    )
}

/// `b2` is `b1` once the cells `s[0..end]` of a grid `w` wide have been scanned: the first
/// bunker of a color stands on the last marker of that color, and every other bunker
/// has kept its position.
pub open spec fn synced(b1: Bunker, b2: Bunker, first: bool, s: Seq<Color>, w: int, end: int) -> bool {
    &&& b2.same_state(&b1)
    &&& first ==> forall|k: int|
        #[trigger] last_marker(s, b1.spec_color(), k, end) ==> b2.spec_x() == k % w && b2.spec_y()
            == k / w
    &&& (!first || no_marker(s, b1.spec_color(), end)) ==> b2.spec_x() == b1.spec_x()
        && b2.spec_y() == b1.spec_y()
}

/// Material that fell in the vertical pass stays where it fell for the rest of the
/// step, and the cell it left ends up empty.
proof fn lemma_fallen_stays(
    s: Seq<Color>,
    f: Seq<Color>,
    m1: Seq<Color>,
    m2: Seq<Color>,
    fin: Seq<Color>,
    w: int,
)
    requires
        w >= 1,
        f == fall_step(s, w),
        keeps_marked(f, m1, w),
        keeps_marked(m1, m2, w),
        fin == Seq::new(m2.len(), |k: int| unblur(m2[k])),
    ensures
        forall|k: int| #[trigger] falls(s, w, k) ==> fin[k] == Color::EMPTY && fin[k + w] == s[k],
{
    assert forall|k: int| #[trigger] falls(s, w, k) implies fin[k] == Color::EMPTY && fin[k + w]
        == s[k] by {
        assert(f[k] == Color::BLUR);
        assert(!falls(s, w, k + w));
        assert(f[k + w] == s[k]);
        assert(m1[k] == Color::BLUR);
        assert(m1[k + w] == s[k]);
        assert(m2[k] == Color::BLUR);
        assert(m2[k + w] == s[k]);
    }
}

/// Both relations between successive states carry over to the first and the last.
proof fn lemma_chain(a: Seq<Color>, b: Seq<Color>, c: Seq<Color>, w: int)
    requires
        w >= 1,
        settles(a, b),
        settles(b, c),
        keeps_marked(a, b, w),
        keeps_marked(b, c, w),
    ensures
        settles(a, c),
        keeps_marked(a, c, w),
{
    assert forall|k: int|
        w <= k < a.len() && a[k].is_solid() && a[k - w] == Color::BLUR implies #[trigger] c[k]
        == a[k] by {
        assert(b[k - w] == Color::BLUR);
    }
}

/// A flat index splits into its column and row.
proof fn lemma_coords(w: int, h: int, k: int)
    requires
        0 < w,
        0 <= k < w * h,
    ensures
        k == (k / w) * w + k % w,
        0 <= k % w < w,
        0 <= k / w < h,
{
    vstd::arithmetic::div_mod::lemma_fundamental_div_mod(k, w);
    vstd::arithmetic::div_mod::lemma_mod_pos_bound(k, w);
    vstd::arithmetic::div_mod::lemma_div_pos_is_pos(k, w);
    vstd::arithmetic::div_mod::lemma_multiply_divide_lt(k, w, h);
    assert(w * (k / w) == (k / w) * w) by (nonlinear_arith);
}

/// A square is at least the square of any smaller magnitude.
proof fn lemma_square_grows(a: int, r: int)
    requires
        0 <= r,
        a <= -r || r <= a,
    ensures
        a * a >= r * r,
        a * a >= 0,
{
    assert(a * a >= 0) by (nonlinear_arith);
    if a >= r {
        assert(a * a >= r * r) by (nonlinear_arith)
            requires
                0 <= r <= a,
        ;
    } else {
        assert(a * a >= r * r) by (nonlinear_arith)
            requires
                a <= -r,
                0 <= r,
        ;
    }
}

fn square(a: usize) -> (r: u128)
    ensures
        r == a * a,
{
    assert(a * a <= 0xffff_ffff_ffff_ffffu128 * 0xffff_ffff_ffff_ffffu128) by (nonlinear_arith)
        requires
            a <= 0xffff_ffff_ffff_ffffu128,
    ;
    (a as u128) * (a as u128)
}

/// Distance between two coordinates.
fn gap(a: usize, b: usize) -> (r: usize)
    ensures
        r * r == (a - b) * (a - b),
        r == if a >= b {
            a - b
        } else {
            b - a
        },
{
    if a >= b {
        a - b
    } else {
        assert((b - a) * (b - a) == (a - b) * (a - b)) by (nonlinear_arith);
        b - a
    }
}

/// An 800 by 500 field with some terrain and one marker for each of the eight bunkers.
pub fn create_test_grid() -> (r: Grid)
    ensures
        r.wf(),
        r.spec_width() == 800,
        r.spec_height() == 500,
        r.at(50, 40) == Color::BunkerBlue,
        r.at(150, 40) == Color::BunkerRed,
        r.at(250, 40) == Color::BunkerGreen,
        r.at(350, 40) == Color::BunkerYellow,
        r.at(450, 40) == Color::BunkerTeal,
        r.at(550, 40) == Color::BunkerPurple,
        r.at(650, 40) == Color::BunkerGrey,
        r.at(750, 40) == Color::BunkerOrange,
{
    let mut grid = Grid::new(800, 500);

    let _ = grid.set_rect(Color::DIRT, 40, 40, 80, 80);
    let _ = grid.set_rect(Color::ROCK, 20, 100, 140, 210);
    let _ = grid.set_rect(Color::SNOW, 300, 20, 390, 140);
    let _ = grid.set_rect(Color::WATER, 150, 100, 300, 200);
    let _ = grid.set_rect(Color::ROCK, 350, 140, 400, 240);
    let _ = grid.set_rect(Color::BETON, 350, 400, 600, 450);

    let _ = grid.set_rect(Color::BunkerBlue, 50, 40, 51, 41);
    let _ = grid.set_rect(Color::BunkerRed, 150, 40, 151, 41);
    let _ = grid.set_rect(Color::BunkerGreen, 250, 40, 251, 41);
    let _ = grid.set_rect(Color::BunkerYellow, 350, 40, 351, 41);
    let _ = grid.set_rect(Color::BunkerTeal, 450, 40, 451, 41);
    let _ = grid.set_rect(Color::BunkerPurple, 550, 40, 551, 41);
    let _ = grid.set_rect(Color::BunkerGrey, 650, 40, 651, 41);
    let _ = grid.set_rect(Color::BunkerOrange, 750, 40, 751, 41);

    grid
}

/// A rectangular field of materials, stored row by row.
pub struct Grid {
    width: usize,
    height: usize,
    cells: Vec<Color>,
}

impl Grid {
    pub closed spec fn spec_width(&self) -> nat {
        self.width as nat
    }

    pub closed spec fn spec_height(&self) -> nat {
        self.height as nat
    }

    /// All cells, row by row: the cell `(x, y)` stands at `y * width + x`.
    pub closed spec fn cells(&self) -> Seq<Color> {
        self.cells@
    }

    /// The dimensions are positive and the store holds one cell for each coordinate pair.
    pub open spec fn shape_ok(&self) -> bool {
        self.spec_width() > 0 && self.spec_height() > 0 && self.cells().len() == self.spec_width()
            * self.spec_height()
    }

    /// Well formed between steps: no transient marker is left.
    pub open spec fn wf(&self) -> bool {
        self.shape_ok() && no_blur(self.cells())
    }

    pub open spec fn at(&self, x: int, y: int) -> Color {
        self.cells()[y * self.spec_width() + x]
    }

    pub open spec fn same_shape(&self, other: &Grid) -> bool {
        self.spec_width() == other.spec_width() && self.spec_height() == other.spec_height()
            && self.cells().len() == other.cells().len()
    }

    /// A grid of the given size with every cell empty.
    pub fn new(width: usize, height: usize) -> (r: Grid)
        requires
            width > 0,
            height > 0,
            width * height <= usize::MAX,
        ensures
            r.wf(),
            r.spec_width() == width,
            r.spec_height() == height,
            forall|k: int| 0 <= k < r.cells().len() ==> r.cells()[k] == Color::EMPTY,
    {
        let n = width * height;
        let mut cells: Vec<Color> = Vec::with_capacity(n);
        let mut i: usize = 0;
        while i < n
            invariant
                i <= n,
                cells@.len() == i,
                forall|k: int| 0 <= k < i ==> cells@[k] == Color::EMPTY,
            decreases n - i,
        {
            cells.push(Color::EMPTY);
            i = i + 1;
        }
        Grid { width, height, cells }
    }

    pub fn width(&self) -> (r: usize)
        ensures
            r == self.spec_width(),
    {
        self.width
    }

    pub fn height(&self) -> (r: usize)
        ensures
            r == self.spec_height(),
    {
        self.height
    }

    fn index(&self, x: usize, y: usize) -> (r: usize)
        requires
            self.shape_ok(),
            x < self.spec_width(),
            y < self.spec_height(),
        ensures
            r == y * self.spec_width() + x,
            r < self.cells().len(),
            r as int % self.spec_width() as int == x,
            r as int / self.spec_width() as int == y,
    {
        let n = self.cells.len();
        proof {
            lemma_index(self.width as int, self.height as int, x as int, y as int);
            assert(y * self.width + x < n);
        }
        y * self.width + x
    }

    /// The material at `(x, y)`.
    pub fn color_at(&self, x: usize, y: usize) -> (r: Color)
        requires
            self.shape_ok(),
            x < self.spec_width(),
            y < self.spec_height(),
        ensures
            r == self.at(x as int, y as int),
    {
        let i = self.index(x, y);
        self.cells[i]
    }

    fn put(&mut self, i: usize, c: Color)
        requires
            i < old(self).cells().len(),
        ensures
            final(self).cells() == old(self).cells().update(i as int, c),
            final(self).spec_width() == old(self).spec_width(),
            final(self).spec_height() == old(self).spec_height(),
            count_material(final(self).cells()) + (if old(self).cells()[i as int].is_solid() {
                1nat
            } else {
                0nat
            }) == count_material(old(self).cells()) + (if c.is_solid() {
                1nat
            } else {
                0nat
            }),
    {
        proof {
            lemma_count_update(self.cells@, i as int, c);
        }
        self.cells.set(i, c);
    }

    /// Advances the terrain by one step: loose material falls straight down, then
    /// slides diagonally to the right, then to the left, and at last every cell marked
    /// transient during the step is emptied.
    pub fn stride(&mut self)
        requires
            old(self).wf(),
        ensures
            final(self).wf(),
            final(self).same_shape(old(self)),
            final(self).cells() == stride_result(
                old(self).cells(),
                old(self).spec_width() as int,
                old(self).spec_height() as int,
            ),
            no_blur(final(self).cells()),
            count_non_empty(final(self).cells()) == count_non_empty(old(self).cells()),
            forall|k: int|
                0 <= k < old(self).cells().len() && (#[trigger] old(self).cells()[k]).is_fixed()
                    ==> final(self).cells()[k] == old(self).cells()[k],
            forall|k: int|
                #[trigger] falls(old(self).cells(), old(self).spec_width() as int, k)
                    ==> final(self).cells()[k] == Color::EMPTY
                    && final(self).cells()[k + old(self).spec_width()] == old(self).cells()[k],
    {
        let ghost w = self.width as int;
        self.fall_down();
        let ghost fallen = self.cells@;
        self.fall_side(1);
        let ghost right = self.cells@;
        self.fall_side(-1);
        let ghost left = self.cells@;
        self.clear_blur();
        proof {
            lemma_fallen_stays(old(self).cells(), fallen, right, left, self.cells@, w);
            lemma_material_is_non_empty(old(self).cells());
            lemma_material_is_non_empty(self.cells());
        }
    }

    /// Scans from the bottom row up; within a row each column falls on its own, so the
    /// cells are taken in reverse storage order.
    fn fall_down(&mut self)
        requires
            old(self).shape_ok(),
        ensures
            final(self).shape_ok(),
            final(self).same_shape(old(self)),
            settles(old(self).cells(), final(self).cells()),
            final(self).cells() == fall_step(old(self).cells(), old(self).spec_width() as int),
    {
        let w = self.width;
        let h = self.height;
        let ghost orig = self.cells@;
        let n = self.cells.len();
        proof {
            assert(w * h >= w) by (nonlinear_arith)
                requires
                    h >= 1,
                    w >= 1,
            ;
        }
        let mut i: usize = n - w;
        while i > 0
            invariant
                self.width == w,
                self.height == h,
                self.shape_ok(),
                self.cells@.len() == n,
                orig.len() == n,
                w >= 1,
                i + w <= n,
                settles(orig, self.cells@),
                forall|k: int|
                    0 <= k < n ==> self.cells@[k] == if k >= i && falls(orig, w as int, k) {
                        Color::BLUR
                    } else if k - w >= i && falls(orig, w as int, k - w) {
                        orig[k - w]
                    } else {
                        orig[k]
                    },
            decreases i,
        {
            i = i - 1;
            let j = i + w;
            if self.cells[i].can_fall() && self.cells[j].can_move_into() {
                let c = self.cells[i];
                self.put(j, c);
                self.put(i, Color::BLUR);
            }
        }
        assert(self.cells@ =~= fall_step(orig, w as int));
    }

    fn fall_side(&mut self, sign: i8)
        requires
            old(self).shape_ok(),
            sign == 1 || sign == -1,
        ensures
            final(self).shape_ok(),
            final(self).same_shape(old(self)),
            settles(old(self).cells(), final(self).cells()),
            keeps_marked(old(self).cells(), final(self).cells(), old(self).spec_width() as int),
            final(self).cells() == side_pass(
                old(self).cells(),
                old(self).spec_width() as int,
                old(self).spec_height() as int,
                sign as int,
            ),
    {
        let w = self.width;
        let h = self.height;
        if h < 3 || w < 2 {
            return ;
        }
        let ghost orig = self.cells@;
        let x_start: usize = if sign == 1 {
            0
        } else {
            1
        };
        let x_end: usize = if sign == 1 {
            w - 1
        } else {
            w
        };
        let mut y: usize = 0;
        while y < h - 2
            invariant
                self.width == w,
                self.height == h,
                self.shape_ok(),
                h >= 3,
                w >= 2,
                y <= h - 2,
                x_end <= w,
                sign == 1 ==> x_end == w - 1,
                sign == -1 ==> x_start == 1,
                sign == 1 || sign == -1,
                x_start as int == side_first(w as int, sign as int),
                x_end as int == side_last(w as int, sign as int),
                settles(orig, self.cells@),
                keeps_marked(orig, self.cells@, w as int),
                self.cells@ == side_scan(orig, w as int, sign as int, y as int, x_start as int),
            decreases h - y,
        {
            let mut x: usize = x_start;
            while x < x_end
                invariant
                    self.width == w,
                    self.height == h,
                    self.shape_ok(),
                    y < h - 2,
                    x_end <= w,
                    sign == 1 ==> x_end == w - 1,
                    sign == -1 ==> x >= 1,
                    sign == 1 || sign == -1,
                    x_start as int == side_first(w as int, sign as int),
                    x_end as int == side_last(w as int, sign as int),
                    x_start <= x <= x_end,
                    settles(orig, self.cells@),
                    keeps_marked(orig, self.cells@, w as int),
                    self.cells@ == side_scan(orig, w as int, sign as int, y as int, x as int),
                decreases x_end - x,
            {
                let tx: usize = if sign == 1 {
                    x + 1
                } else {
                    x - 1
                };
                let i = self.index(x, y);
                let below = self.index(x, y + 1);
                let t0 = self.index(tx, y);
                let t1 = self.index(tx, y + 1);
                let t2 = self.index(tx, y + 2);
                proof {
                    lemma_index(w as int, h as int, x as int, y as int);
                    if y > 0 {
                        lemma_index(w as int, h as int, x as int, (y - 1) as int);
                    }
                }
                let ghost cur = self.cells@;
                let above_clear = y == 0 || !self.cells[self.index(x, y - 1)].is_blur();
                if self.cells[i].can_fall() && !self.cells[below].is_blur() && above_clear
                    && self.cells[t0].can_move_into() && self.cells[t1].can_move_into()
                    && self.cells[t2].can_move_into() {
                    self.slide(i, t0, t1, t2);
                    proof {
                        lemma_chain(orig, cur, self.cells@, w as int);
                    }
                }
                assert(self.cells@ == slide_at(cur, w as int, x as int, y as int, sign as int));
                x = x + 1;
            }
            y = y + 1;
        }
    }

    fn clear_blur(&mut self)
        requires
            old(self).shape_ok(),
        ensures
            final(self).shape_ok(),
            final(self).same_shape(old(self)),
            final(self).cells() == Seq::new(
                old(self).cells().len(),
                |k: int| unblur(old(self).cells()[k]),
            ),
            no_blur(final(self).cells()),
            count_material(final(self).cells()) == count_material(old(self).cells()),
    {
        let w = self.width;
        let h = self.height;
        let ghost orig = self.cells@;
        let n = self.cells.len();
        let mut i: usize = 0;
        while i < n
            invariant
                self.width == w,
                self.height == h,
                self.shape_ok(),
                self.cells@.len() == n,
                orig.len() == n,
                i <= n,
                forall|k: int| 0 <= k < i ==> self.cells@[k] == unblur(orig[k]),
                forall|k: int| i <= k < n ==> self.cells@[k] == orig[k],
                count_material(self.cells@) == count_material(orig),
            decreases n - i,
        {
            if self.cells[i].is_blur() {
                self.put(i, Color::EMPTY);
            }
            i = i + 1;
        }
        assert(self.cells@ =~= Seq::new(orig.len(), |k: int| unblur(orig[k])));
    }

    /// Whether `(x, y)` names a cell of the grid.
    pub fn is_inside_grid(&self, x_pos: usize, y_pos: usize) -> (r: bool)
        ensures
            r == (x_pos < self.spec_width() && y_pos < self.spec_height()),
            x_pos >= self.spec_width() || y_pos >= self.spec_height() ==> !r,
    {
        x_pos < self.width && y_pos < self.height
    }

    /// Whether `(x, y)` is a cell of the grid holding anything but empty space.
    /// Outside the grid nothing collides.
    pub fn collides_at_position(&mut self, x_pos: usize, y_pos: usize) -> (r: bool)
        requires
            old(self).wf(),
        ensures
            *final(self) == *old(self),
            r == (x_pos < old(self).spec_width() && y_pos < old(self).spec_height() && old(
                self,
            ).at(x_pos as int, y_pos as int) != Color::EMPTY),
            x_pos >= old(self).spec_width() || y_pos >= old(self).spec_height() ==> !r,
    {
        self.is_inside_grid(x_pos, y_pos) && self.color_at(x_pos, y_pos) != Color::EMPTY
    }

    /// Paints the half-open rectangle `[x_start, x_end) x [y_start, y_end)` with `color`.
    /// A rectangle that reaches past the grid is refused and nothing is painted.
    pub fn set_rect(
        &mut self,
        color: Color,
        x_start: usize,
        y_start: usize,
        x_end: usize,
        y_end: usize,
    ) -> (r: Result<(), GridError>)
        requires
            old(self).wf(),
            color != Color::BLUR,
        ensures
            final(self).wf(),
            final(self).same_shape(old(self)),
            r is Err <==> (x_end > old(self).spec_width() || y_end > old(self).spec_height()),
            r is Err ==> r == Err::<(), GridError>(GridError::OutOfBounds) && final(self).cells()
                == old(self).cells(),
            r is Ok ==> final(self).cells() == paint(
                old(self).cells(),
                old(self).spec_width(),
                color,
                x_start as int,
                y_start as int,
                x_end as int,
                y_end as int,
            ),
    {
        let w = self.width;
        let h = self.height;
        if x_end > w || y_end > h {
            return Err(GridError::OutOfBounds);
        }
        let ghost orig = self.cells@;
        let ghost n = orig.len();
        let mut y: usize = y_start;
        while y < y_end
            invariant
                self.width == w,
                self.height == h,
                self.shape_ok(),
                self.cells@.len() == n,
                n == w * h,
                no_blur(orig),
                color != Color::BLUR,
                x_end <= w,
                y_end <= h,
                y >= y_start,
                y_start <= y_end ==> y <= y_end,
                y_start > y_end ==> y == y_start,
                forall|k: int|
                    0 <= k < n ==> self.cells@[k] == if in_rect(
                        k,
                        w as nat,
                        x_start as int,
                        y_start as int,
                        x_end as int,
                        y as int,
                    ) {
                        color
                    } else {
                        orig[k]
                    },
            decreases y_end - y,
        {
            let mut x: usize = x_start;
            while x < x_end
                invariant
                    self.width == w,
                    self.height == h,
                    self.shape_ok(),
                    self.cells@.len() == n,
                    n == w * h,
                    x_end <= w,
                    y < y_end,
                    y_end <= h,
                    x >= x_start,
                    x_start <= x_end ==> x <= x_end,
                    x_start > x_end ==> x == x_start,
                    forall|k: int|
                        0 <= k < n ==> self.cells@[k] == if scanned(
                            k,
                            w as nat,
                            x_start as int,
                            y_start as int,
                            x_end as int,
                            y as int,
                            x as int,
                        ) {
                            color
                        } else {
                            orig[k]
                        },
                decreases x_end - x,
            {
                let i = self.index(x, y);
                self.put(i, color);
                proof {
                    assert forall|k: int|
                        0 <= k < n && #[trigger] (k / (w as int)) == y && k % (w as int) == x implies k
                        == i by {
                        lemma_coords(w as int, h as int, k);
                    }
                }
                x = x + 1;
            }
            y = y + 1;
        }
        assert(self.cells@ =~= paint(
            orig,
            w as nat,
            color,
            x_start as int,
            y_start as int,
            x_end as int,
            y_end as int,
        ));
        Ok(())
    }

    /// Empties every cell strictly closer than `radius` to `(x_pos, y_pos)`, leaving
    /// bunker markers in place. The center may lie outside the grid.
    pub fn delete_radius_leave_out_bunkers(&mut self, x_pos: usize, y_pos: usize, radius: usize)
        requires
            old(self).wf(),
        ensures
            final(self).wf(),
            final(self).same_shape(old(self)),
            final(self).cells() == carve(
                old(self).cells(),
                old(self).spec_width(),
                x_pos as int,
                y_pos as int,
                radius as int,
            ),
    {
        let w = self.width;
        let h = self.height;
        let ghost orig = self.cells@;
        let ghost n = orig.len();
        let ghost target = carve(orig, w as nat, x_pos as int, y_pos as int, radius as int);
        let x_start: usize = if x_pos >= radius {
            x_pos - radius
        } else {
            0
        };
        let y_start: usize = if y_pos >= radius {
            y_pos - radius
        } else {
            0
        };
        let x_end: usize = if x_pos < w && radius < w - x_pos {
            x_pos + radius
        } else {
            w
        };
        let y_end: usize = if y_pos < h && radius < h - y_pos {
            y_pos + radius
        } else {
            h
        };
        let r2 = square(radius);
        let mut y: usize = y_start;
        while y < y_end
            invariant
                self.width == w,
                self.height == h,
                self.shape_ok(),
                self.cells@.len() == n,
                n == w * h,
                no_blur(orig),
                target == carve(orig, w as nat, x_pos as int, y_pos as int, radius as int),
                orig.len() == n,
                r2 == radius * radius,
                x_end <= w,
                y_end <= h,
                y >= y_start,
                y_start <= y_end ==> y <= y_end,
                y_start > y_end ==> y == y_start,
                forall|k: int|
                    0 <= k < n ==> self.cells@[k] == if in_rect(
                        k,
                        w as nat,
                        x_start as int,
                        y_start as int,
                        x_end as int,
                        y as int,
                    ) {
                        target[k]
                    } else {
                        orig[k]
                    },
            decreases y_end - y,
        {
            let mut x: usize = x_start;
            while x < x_end
                invariant
                    self.width == w,
                    self.height == h,
                    self.shape_ok(),
                    self.cells@.len() == n,
                    n == w * h,
                    target == carve(orig, w as nat, x_pos as int, y_pos as int, radius as int),
                    orig.len() == n,
                    r2 == radius * radius,
                    x_end <= w,
                    y < y_end,
                    y_end <= h,
                    x >= x_start,
                    x_start <= x_end ==> x <= x_end,
                    x_start > x_end ==> x == x_start,
                    forall|k: int|
                        0 <= k < n ==> self.cells@[k] == if scanned(
                            k,
                            w as nat,
                            x_start as int,
                            y_start as int,
                            x_end as int,
                            y as int,
                            x as int,
                        ) {
                            target[k]
                        } else {
                            orig[k]
                        },
                decreases x_end - x,
            {
                let i = self.index(x, y);
                let dx2 = square(gap(x, x_pos));
                let dy2 = square(gap(y, y_pos));
                if dx2 < r2 && dy2 < r2 - dx2 && !self.cells[i].is_bunker() {
                    self.put(i, Color::EMPTY);
                }
                proof {
                    assert(in_circle(i as int, w as nat, x_pos as int, y_pos as int, radius as int)
                        == (dx2 < r2 && dy2 < r2 - dx2));
                    assert forall|k: int|
                        0 <= k < n && #[trigger] (k / (w as int)) == y && k % (w as int) == x implies k
                        == i by {
                        lemma_coords(w as int, h as int, k);
                    }
                }
                x = x + 1;
            }
            y = y + 1;
        }
        proof {
            assert forall|k: int|
                0 <= k < n && !in_rect(
                    k,
                    w as nat,
                    x_start as int,
                    y_start as int,
                    x_end as int,
                    y_end as int,
                ) implies !#[trigger] in_circle(
                k,
                w as nat,
                x_pos as int,
                y_pos as int,
                radius as int,
            ) by {
                lemma_coords(w as int, h as int, k);
                let dx = k % (w as int) - x_pos;
                let dy = k / (w as int) - y_pos;
                if dx <= -radius || radius <= dx {
                    lemma_square_grows(dx, radius as int);
                    lemma_square_grows(dy, 0);
                } else {
                    lemma_square_grows(dy, radius as int);
                    lemma_square_grows(dx, 0);
                }
            }
        }
        assert(self.cells@ =~= target);
    }

    /// Moves each bunker onto its marker in the grid, and empties every marker that
    /// no bunker carries. Cells are scanned row by row; where a color marks several
    /// cells, the last one scanned wins, and where several bunkers carry a color, the
    /// first of them is moved.
    pub fn update_bunkers(&mut self, bunkers: &mut Vec<Bunker>)
        requires
            old(self).wf(),
            old(self).spec_width() <= 32768,
            old(self).spec_height() <= 32768,
        ensures
            final(self).wf(),
            final(self).same_shape(old(self)),
            final(self).cells() == heal_markers(old(self).cells(), old(bunkers)@),
            final(bunkers)@.len() == old(bunkers)@.len(),
            forall|j: int|
                0 <= j < old(bunkers)@.len() ==> synced(
                    old(bunkers)@[j],
                    #[trigger] final(bunkers)@[j],
                    first_of_color(old(bunkers)@, j),
                    old(self).cells(),
                    old(self).spec_width() as int,
                    old(self).cells().len() as int,
                ),
    {
        let w = self.width;
        let h = self.height;
        let n = self.cells.len();
        let ghost orig = self.cells@;
        let ghost ob = bunkers@;
        let ghost healed = heal_markers(orig, ob);
        let mut i: usize = 0;
        while i < n
            invariant
                self.width == w,
                self.height == h,
                self.shape_ok(),
                w <= 32768,
                h <= 32768,
                n == w * h,
                self.cells@.len() == n,
                orig.len() == n,
                no_blur(orig),
                healed == heal_markers(orig, ob),
                i <= n,
                forall|k: int| 0 <= k < i ==> self.cells@[k] == healed[k],
                forall|k: int| i <= k < n ==> self.cells@[k] == orig[k],
                bunkers@.len() == ob.len(),
                forall|j: int|
                    0 <= j < ob.len() ==> (#[trigger] bunkers@[j]).spec_color() == ob[j].spec_color(),
                forall|j: int|
                    0 <= j < ob.len() ==> synced(
                        ob[j],
                        #[trigger] bunkers@[j],
                        first_of_color(ob, j),
                        orig,
                        w as int,
                        i as int,
                    ),
            decreases n - i,
        {
            proof {
                lemma_coords(w as int, h as int, i as int);
            }
            let x = i % w;
            let y = i / w;
            let ghost before = bunkers@;
            assert(forall|j2: int|
                0 <= j2 < ob.len() ==> (#[trigger] before[j2]).spec_color() == ob[j2].spec_color());
            assert(forall|j2: int|
                0 <= j2 < ob.len() ==> before[j2].spec_color() == (#[trigger] ob[j2]).spec_color());
            if self.cells[i].is_bunker() {
                self.update_bunker_at(x, y, bunkers);
            }
            proof {
                let c = orig[i as int];
                assert forall|j: int| 0 <= j < ob.len() implies synced(
                    ob[j],
                    #[trigger] bunkers@[j],
                    first_of_color(ob, j),
                    orig,
                    w as int,
                    i + 1,
                ) by {
                    let cj = ob[j].spec_color();
                    assert(first_of_color(ob, j) == first_of_color(before, j));
                    if cj == c && c.spec_is_bunker() {
                        assert(!no_marker(orig, cj, i + 1));
                        assert forall|k: int| #[trigger] last_marker(orig, cj, k, i + 1) implies k == i by {
                            if k < i {
                                assert(orig[i as int] != cj);
                            }
                        }
                        if first_of_color(ob, j) {
                            assert(owner_of(before, c, j));
                        } else {
                            let j2 = choose|j2: int|
                                0 <= j2 < j && (#[trigger] ob[j2]).spec_color() == cj;
                            assert(before[j2].spec_color() == c);
                        }
                    } else {
                        assert forall|k: int| #[trigger] last_marker(orig, cj, k, i + 1) implies last_marker(
                            orig,
                            cj,
                            k,
                            i as int,
                        ) by {}
                        assert(no_marker(orig, cj, i as int) ==> no_marker(orig, cj, i + 1));
                        if c.spec_is_bunker() {
                            assert(!owner_of(before, c, j));
                        }
                    }
                }
                assert(has_owner(before, c) == has_owner(ob, c)) by {
                    if has_owner(ob, c) {
                        let j = choose|j: int| 0 <= j < ob.len() && (#[trigger] ob[j]).spec_color() == c;
                        assert(before[j].spec_color() == c);
                    }
                    if has_owner(before, c) {
                        let j = choose|j: int| 0 <= j < before.len() && (#[trigger] before[j]).spec_color() == c;
                        assert(ob[j].spec_color() == c);
                    }
                }
            }
            i = i + 1;
        }
        assert(self.cells@ =~= healed);
    }

    #[verifier::loop_isolation(false)]
    fn update_bunker_at(&mut self, x_pos: usize, y_pos: usize, bunkers: &mut Vec<Bunker>)
        requires
            old(self).shape_ok(),
            x_pos < old(self).spec_width(),
            y_pos < old(self).spec_height(),
            old(self).spec_width() <= 32768,
            old(self).spec_height() <= 32768,
            old(self).at(x_pos as int, y_pos as int).spec_is_bunker(),
        ensures
            final(self).shape_ok(),
            final(self).same_shape(old(self)),
            final(bunkers)@.len() == old(bunkers)@.len(),
            has_owner(old(bunkers)@, old(self).at(x_pos as int, y_pos as int))
                ==> final(self).cells() == old(self).cells(),
            !has_owner(old(bunkers)@, old(self).at(x_pos as int, y_pos as int))
                ==> final(self).cells() == old(self).cells().update(
                y_pos * old(self).spec_width() + x_pos,
                Color::EMPTY,
            ),
            forall|j: int|
                0 <= j < old(bunkers)@.len() ==> if owner_of(
                    old(bunkers)@,
                    old(self).at(x_pos as int, y_pos as int),
                    j,
                ) {
                    (#[trigger] final(bunkers)@[j]).spec_x() == x_pos && final(bunkers)@[j].spec_y()
                        == y_pos && final(bunkers)@[j].same_state(&old(bunkers)@[j])
                } else {
                    final(bunkers)@[j] == old(bunkers)@[j]
                },
    {
        let i = self.index(x_pos, y_pos);
        let color = self.cells[i];
        let mut j: usize = 0;
        while j < bunkers.len()
            invariant
                j <= bunkers@.len(),
                bunkers@ == old(bunkers)@,
                forall|j2: int| 0 <= j2 < j ==> (#[trigger] bunkers@[j2]).spec_color() != color,
            decreases bunkers@.len() - j,
        {
            if bunkers[j].get_color() == color {
                bunkers[j].place(x_pos as i16, y_pos as i16);
                return ;
            }
            j = j + 1;
        }
        self.put(i, Color::EMPTY);
    }

    /// Moves the loose material at `i` sideways into the empty `t0`, and marks the cell
    /// it left and the two cells below `t0` as transient.
    fn slide(&mut self, i: usize, t0: usize, t1: usize, t2: usize)
        requires
            old(self).shape_ok(),
            i < old(self).cells().len(),
            t0 < old(self).cells().len(),
            t1 < old(self).cells().len(),
            t2 < old(self).cells().len(),
            i != t0 && i != t1 && i != t2 && t0 != t1 && t0 != t2 && t1 != t2,
            old(self).cells()[i as int].spec_can_fall(),
            old(self).cells()[t0 as int] == Color::EMPTY,
            old(self).cells()[t1 as int] == Color::EMPTY,
            old(self).cells()[t2 as int] == Color::EMPTY,
            i >= old(self).spec_width() ==> old(self).cells()[i - old(self).spec_width()]
                != Color::BLUR,
        ensures
            final(self).shape_ok(),
            final(self).same_shape(old(self)),
            settles(old(self).cells(), final(self).cells()),
            keeps_marked(old(self).cells(), final(self).cells(), old(self).spec_width() as int),
            final(self).cells() == old(self).cells().update(t0 as int, old(self).cells()[i as int]).update(
                i as int,
                Color::BLUR,
            ).update(t1 as int, Color::BLUR).update(t2 as int, Color::BLUR),
    {
        let c = self.cells[i];
        self.put(t0, c);
        self.put(i, Color::BLUR);
        self.put(t1, Color::BLUR);
        self.put(t2, Color::BLUR);
    }
}

} // verus!
