//! Colours, the per-key grid and the effects that paint it.

pub mod capture;
pub mod grid;

use crate::effects::grid::{
    cells, filled, grid, has_shape, lemma_shift_columns_keeps_cells, lemma_shift_rows_keeps_cells,
    merged, shift_columns, shift_rows,
};
use vstd::prelude::*;

pub use crate::effects::capture::{CaptureDisplayEffect, Snapshot};

verus! {

/// The way an effect moves.
#[derive(Debug, Copy, Clone, PartialEq, Eq, PartialOrd, Ord, Structural)]
pub enum EffectDir {
    Up,
    Down,
    Left,
    Right,
    UpLeft,
    UpRight,
    DownLeft,
    DownRight,
}

/// A colour as red, green and blue.
#[derive(Debug, Copy, Clone, PartialEq, Eq, PartialOrd, Ord, Hash, Structural)]
pub struct Colour {
    pub r: u8,
    pub g: u8,
    pub b: u8,
}

impl Colour {
    /// Black: the colour of a cell that nothing was written to.
    pub open spec fn black() -> Colour {
        Colour { r: 0, g: 0, b: 0 }
    }

    /// Black.
    pub fn new() -> (c: Self)
        ensures
            c == Colour::black(),
    {
        Colour { r: 0, g: 0, b: 0 }
    }

    pub fn new_colour(r: u8, g: u8, b: u8) -> (c: Self)
        ensures
            c == (Colour { r, g, b }),
    {
        Colour { r, g, b }
    }

    /// The three bytes of the colour as the device takes them: red, green,
    /// blue.
    pub open spec fn bytes(self) -> Seq<u8> {
        seq![self.r, self.g, self.b]
    }

    /// The colours between this one and `other`. No interpolation is
    /// computed: the result is empty, whatever `steps` is.
    pub fn gradient(&self, other: &Colour, steps: usize) -> (colours: Vec<Colour>)
        ensures
            colours@ == Seq::<Colour>::empty(),
    {
        Vec::new()
    }
}

impl Default for Colour {
    fn default() -> (c: Self)
        ensures
            c == Colour::black(),
    {
        Colour { r: 0, g: 0, b: 0 }
    }
}

/// The key grid: the working cells that effects paint, the mask that says
/// which cells an effect may reach, and the committed cells that go to the
/// device.
pub struct EffectLayer<const X: usize, const Y: usize> {
    internal_matrix: [[Colour; X]; Y],
    matrix: [[Colour; X]; Y],
    mask: [[bool; X]; Y],
}

/// A layer as plain values: three grids of the same shape.
pub struct LayerView {
    pub working: Seq<Seq<Colour>>,
    pub committed: Seq<Seq<Colour>>,
    pub mask: Seq<Seq<bool>>,
}

impl LayerView {
    /// What reading the cell in column `x` of row `y` through the mask
    /// gives: nothing outside the grid and where the mask is not set.
    pub open spec fn key(self, x: int, y: int) -> Option<Colour> {
        if 0 <= y < self.mask.len() && 0 <= x < self.mask[y].len() && self.mask[y][x] {
            Some(self.working[y][x])
        } else {
            None
        }
    }

    /// The layer after a commit.
    pub open spec fn commit(self) -> LayerView {
        LayerView { committed: merged(self.working, self.committed, self.mask), ..self }
    }

    /// This layer with other working cells.
    pub open spec fn with_working(self, working: Seq<Seq<Colour>>) -> LayerView {
        LayerView { working, ..self }
    }
}

impl<const X: usize, const Y: usize> View for EffectLayer<X, Y> {
    type V = LayerView;

    closed spec fn view(&self) -> LayerView {
        LayerView {
            working: grid(self.matrix),
            committed: grid(self.internal_matrix),
            mask: grid(self.mask),
        }
    }
}

/// `Y` rows of `X` cells that all hold `c`.
fn uniform<T: Copy, const X: usize, const Y: usize>(c: T) -> (cells: [[T; X]; Y])
    ensures
        grid(cells) == filled(X as nat, Y as nat, c),
{
    let row = [c; X];
    let cells = [row; Y];
    assert forall|y: int| 0 <= y < Y implies #[trigger] grid(cells)[y] == filled(
        X as nat,
        Y as nat,
        c,
    )[y] by {
        assert(cells@[y] == row);
        assert(row@ =~= Seq::new(X as nat, |x: int| c));
    }
    assert(grid(cells) =~= filled(X as nat, Y as nat, c));
    cells
}

impl<const X: usize, const Y: usize> EffectLayer<X, Y> {
    /// All three grids of a layer have `Y` rows of `X` cells.
    pub proof fn lemma_shape(&self)
        ensures
            has_shape(self@.working, X as nat, Y as nat),
            has_shape(self@.committed, X as nat, Y as nat),
            has_shape(self@.mask, X as nat, Y as nat),
    {
    }

    /// A layer with the given mask and all cells black.
    pub fn create_blank(mask: [[bool; X]; Y]) -> (layer: Self)
        ensures
            layer@.mask == grid(mask),
            layer@.working == filled(X as nat, Y as nat, Colour::black()),
            layer@.committed == filled(X as nat, Y as nat, Colour::black()),
    {
        Self { mask, internal_matrix: uniform(Colour::new()), matrix: uniform(Colour::new()) }
    }

    /// The working colour of the key in column `x` of row `y`; none where
    /// the mask is not set, and none outside the grid.
    pub fn get_key(&self, x: usize, y: usize) -> (key: Option<&Colour>)
        ensures
            match key {
                Some(c) => self@.key(x as int, y as int) == Some(*c),
                None => self@.key(x as int, y as int) is None,
            },
    {
        if y < Y && x < X && self.mask[y][x] {
            Some(&self.matrix[y][x])
        } else {
            None
        }
    }

    /// Paints the working cell in column `x` of row `y` with `c`, whatever
    /// the mask says there. Outside the grid nothing is painted.
    pub fn set_key(&mut self, x: usize, y: usize, c: Colour)
        ensures
            final(self)@ == (if x < X && y < Y {
                old(self)@.with_working(
                    old(self)@.working.update(
                        y as int,
                        old(self)@.working[y as int].update(x as int, c),
                    ),
                )
            } else {
                old(self)@
            }),
    {
        if x < X && y < Y {
            self.matrix[y][x] = c;
            assert(self@.working =~~= old(self)@.working.update(
                y as int,
                old(self)@.working[y as int].update(x as int, c),
            ));
        }
    }

    /// Commits the working cells: every cell whose mask is set is copied to
    /// the committed grid, every other committed cell stays as it was.
    /// Returns the committed grid.
    pub fn update_matrix(&mut self) -> (out: &[[Colour; X]; Y])
        ensures
            final(self)@ == old(self)@.commit(),
            grid(*out) == final(self)@.committed,
            forall|x: int, y: int|
                0 <= y < Y && 0 <= x < X && !old(self)@.mask[y][x] ==> final(self)@.committed[y][x] == old(self)@.committed[y][x],
            forall|x: int, y: int|
                0 <= y < Y && 0 <= x < X && old(self)@.mask[y][x] ==> final(self)@.committed[y][x]
                    == old(self)@.working[y][x],
    {
        let mut y: usize = 0;
        while y < Y
            invariant
                y <= Y,
                self.matrix == old(self).matrix,
                self.mask == old(self).mask,
                forall|j: int|
                    y <= j < Y ==> self.internal_matrix@[j] == old(self).internal_matrix@[j],
                forall|j: int, i: int|
                    0 <= j < y && 0 <= i < X ==> self.internal_matrix@[j]@[i] == (if self.mask@[j]@[i] {
                        self.matrix@[j]@[i]
                    } else {
                        old(self).internal_matrix@[j]@[i]
                    }),
            decreases Y - y,
        {
            let mut x: usize = 0;
            while x < X
                invariant
                    x <= X,
                    y < Y,
                    self.matrix == old(self).matrix,
                    self.mask == old(self).mask,
                    forall|j: int|
                        y < j < Y ==> self.internal_matrix@[j] == old(self).internal_matrix@[j],
                    forall|j: int, i: int|
                        0 <= j < y && 0 <= i < X ==> self.internal_matrix@[j]@[i] == (if self.mask@[j]@[i] {
                            self.matrix@[j]@[i]
                        } else {
                            old(self).internal_matrix@[j]@[i]
                        }),
                    forall|i: int|
                        0 <= i < x ==> self.internal_matrix@[y as int]@[i] == (if self.mask@[y as int]@[i] {
                            self.matrix@[y as int]@[i]
                        } else {
                            old(self).internal_matrix@[y as int]@[i]
                        }),
                    forall|i: int|
                        x <= i < X ==> self.internal_matrix@[y as int]@[i] == old(self).internal_matrix@[y as int]@[i],
                decreases X - x,
            {
                if self.mask[y][x] {
                    self.internal_matrix[y][x] = self.matrix[y][x];
                }
                x += 1;
            }
            y += 1;
        }
        assert(self@.committed =~~= old(self)@.commit().committed);
        &self.internal_matrix
    }

    /// Number of columns.
    pub fn get_width(&self) -> (w: u32)
        ensures
            w == X as u32,
    {
        X as u32
    }

    /// Number of rows.
    pub fn get_height(&self) -> (h: u32)
        ensures
            h == Y as u32,
    {
        Y as u32
    }

    /// Moves the working rows by one place, up or down, the row that leaves
    /// at one end coming back at the other.
    pub fn shift_matrix_vertical(&mut self, up: bool)
        ensures
            final(self)@ == old(self)@.with_working(shift_rows(old(self)@.working, up)),
            cells(final(self)@.working) == cells(old(self)@.working),
    {
        let before = self.matrix;
        let mut y: usize = 0;
        while y < Y
            invariant
                y <= Y,
                self.mask == old(self).mask,
                self.internal_matrix == old(self).internal_matrix,
                before == old(self).matrix,
                forall|j: int|
                    0 <= j < y ==> self.matrix@[j]@ == shift_rows(grid(before), up)[j],
            decreases Y - y,
        {
            let from: usize = if up {
                if y + 1 == Y {
                    0
                } else {
                    y + 1
                }
            } else {
                if y == 0 {
                    Y - 1
                } else {
                    y - 1
                }
            };
            self.matrix[y] = before[from];
            proof {
                assert(self.matrix@[y as int]@ =~= shift_rows(grid(before), up)[y as int]);
            }
            y += 1;
        }
        proof {
            assert(self@.working =~~= shift_rows(old(self)@.working, up));
            lemma_shift_rows_keeps_cells(old(self)@.working, up);
        }
    }

    /// Moves the working cells of every row by one place, left or right, the
    /// cell that leaves at one end coming back at the other.
    pub fn shift_matrix_horizontal(&mut self, left: bool)
        ensures
            final(self)@ == old(self)@.with_working(shift_columns(old(self)@.working, left)),
            cells(final(self)@.working) == cells(old(self)@.working),
    {
        let before = self.matrix;
        let mut y: usize = 0;
        while y < Y
            invariant
                y <= Y,
                self.mask == old(self).mask,
                self.internal_matrix == old(self).internal_matrix,
                before == old(self).matrix,
                forall|j: int|
                    0 <= j < y ==> self.matrix@[j]@ == shift_columns(grid(before), left)[j],
            decreases Y - y,
        {
            let mut x: usize = 0;
            while x < X
                invariant
                    x <= X,
                    y < Y,
                    self.mask == old(self).mask,
                    self.internal_matrix == old(self).internal_matrix,
                    before == old(self).matrix,
                    forall|j: int|
                        0 <= j < y ==> self.matrix@[j]@ == shift_columns(grid(before), left)[j],
                    forall|i: int|
                        0 <= i < x ==> self.matrix@[y as int]@[i] == shift_columns(
                            grid(before),
                            left,
                        )[y as int][i],
                decreases X - x,
            {
                let from: usize = if left {
                    if x + 1 == X {
                        0
                    } else {
                        x + 1
                    }
                } else {
                    if x == 0 {
                        X - 1
                    } else {
                        x - 1
                    }
                };
                self.matrix[y][x] = before[y][from];
                x += 1;
            }
            proof {
                assert(self.matrix@[y as int]@ =~= shift_columns(grid(before), left)[y as int]);
            }
            y += 1;
        }
        proof {
            assert(self@.working =~~= shift_columns(old(self)@.working, left));
            lemma_shift_columns_keeps_cells(old(self)@.working, left);
        }
    }

    /// Paints every working cell with `c`.
    pub fn set_matrix_bg(&mut self, c: Colour)
        ensures
            final(self)@ == old(self)@.with_working(filled(X as nat, Y as nat, c)),
    {
        self.matrix = uniform(c);
    }

    /// Replaces the working cells by `cells`.
    pub fn set_matrix(&mut self, cells: [[Colour; X]; Y])
        ensures
            final(self)@ == old(self)@.with_working(grid(cells)),
    {
        self.matrix = cells;
    }

    /// Paints every working cell black.
    pub fn clear_matrix(&mut self)
        ensures
            final(self)@ == old(self)@.with_working(filled(X as nat, Y as nat, Colour::black())),
    {
        self.set_matrix_bg(Colour::new_colour(0, 0, 0));
    }
}

/// Something that paints the working cells of a layer, tick by tick. An
/// effect never touches the mask or the committed cells.
pub trait Effect<const X: usize, const Y: usize>: Sized + Clone + core::fmt::Debug {
    /// Runs once, when the effect becomes active, before the first tick.
    fn init(&mut self, layer: &mut EffectLayer<X, Y>)
        ensures
            final(layer)@.mask == old(layer)@.mask,
            final(layer)@.committed == old(layer)@.committed,
    ;

    /// Runs once per tick.
    fn update(&mut self, matrix: &mut EffectLayer<X, Y>)
        ensures
            final(matrix)@.mask == old(matrix)@.mask,
            final(matrix)@.committed == old(matrix)@.committed,
    ;
}

/// One colour on every key.
#[derive(Debug, Clone, Copy)]
pub struct StaticEffect {
    colour: Colour,
}

impl View for StaticEffect {
    type V = Colour;

    closed spec fn view(&self) -> Colour {
        self.colour
    }
}

impl StaticEffect {
    pub fn new(colour: Colour) -> (effect: Self)
        ensures
            effect@ == colour,
    {
        StaticEffect { colour }
    }
}

impl<const X: usize, const Y: usize> Effect<X, Y> for StaticEffect {
    /// Paints every working cell with the effect's colour.
    fn init(&mut self, layer: &mut EffectLayer<X, Y>)
        ensures
            final(self)@ == old(self)@,
            final(layer)@ == old(layer)@.with_working(filled(X as nat, Y as nat, old(self)@)),
    {
        layer.set_matrix_bg(self.colour);
    }

    /// Paints every working cell with the effect's colour again.
    fn update(&mut self, matrix: &mut EffectLayer<X, Y>)
        ensures
            final(self)@ == old(self)@,
            final(matrix)@ == old(matrix)@.with_working(filled(X as nat, Y as nat, old(self)@)),
    {
        matrix.set_matrix_bg(self.colour);
    }
}

/// The fastest wave.
pub const WAVE_EFFECT_MAX_SPD: u32 = 10;

/// The speed that a wave asked for with `speed` runs at: 0 counts as 1, and
/// anything above 10 as 10.
pub open spec fn clamp_speed(speed: u32) -> u32 {
    if speed == 0 {
        1
    } else if speed > WAVE_EFFECT_MAX_SPD {
        WAVE_EFFECT_MAX_SPD
    } else {
        speed
    }
}

/// Number of ticks from one step of a wave to the next: 10 at speed 1, one
/// less for each step of speed, 1 at speed 10.
pub open spec fn wave_period(speed: u32) -> int {
    WAVE_EFFECT_MAX_SPD + 1 - speed
}

/// The grid after a wave moved it one step in `dir`; a diagonal step moves
/// the rows first, then the cells of every row.
pub open spec fn wave_step(g: Seq<Seq<Colour>>, dir: EffectDir) -> Seq<Seq<Colour>> {
    match dir {
        EffectDir::Up => shift_rows(g, true),
        EffectDir::Down => shift_rows(g, false),
        EffectDir::Left => shift_columns(g, true),
        EffectDir::Right => shift_columns(g, false),
        EffectDir::UpLeft => shift_columns(shift_rows(g, true), true),
        EffectDir::UpRight => shift_columns(shift_rows(g, true), false),
        EffectDir::DownLeft => shift_columns(shift_rows(g, false), true),
        EffectDir::DownRight => shift_columns(shift_rows(g, false), false),
    }
}

/// A wave as plain values.
pub struct WaveView {
    pub dir: EffectDir,
    /// Between 1 and 10.
    pub speed: u32,
    /// Ticks since the last step.
    pub elapsed: u32,
}

impl WaveView {
    /// The wave that `WaveEffect::new` makes.
    pub open spec fn new(dir: EffectDir, speed: u32) -> WaveView {
        WaveView { dir, speed: clamp_speed(speed), elapsed: 0 }
    }

    /// Whether the next tick moves the grid.
    pub open spec fn due(self) -> bool {
        self.elapsed + 1 >= wave_period(self.speed)
    }

    /// The wave after a tick.
    pub open spec fn tick(self) -> WaveView {
        if self.due() {
            WaveView { elapsed: 0, ..self }
        } else {
            WaveView { elapsed: (self.elapsed + 1) as u32, ..self }
        }
    }

    /// The working cells after a tick of this wave.
    pub open spec fn paint(self, g: Seq<Seq<Colour>>) -> Seq<Seq<Colour>> {
        if self.due() {
            wave_step(g, self.dir)
        } else {
            g
        }
    }
}

/// Whatever is on the keys, moving in one direction: one step every few
/// ticks, the faster the fewer.
#[derive(Debug, Clone, Copy)]
pub struct WaveEffect {
    dir: EffectDir,
    speed: u32,
    elapsed: u32,
}

impl View for WaveEffect {
    type V = WaveView;

    closed spec fn view(&self) -> WaveView {
        WaveView { dir: self.dir, speed: self.speed, elapsed: self.elapsed }
    }
}

impl WaveEffect {
    #[verifier::type_invariant]
    spec fn valid(self) -> bool {
        1 <= self.speed <= WAVE_EFFECT_MAX_SPD && self.elapsed < wave_period(self.speed)
    }

    /// A wave in direction `dir`. `speed` runs from 1, slowest, to 10.
    pub fn new(dir: EffectDir, speed: u32) -> (wave: Self)
        ensures
            wave@ == WaveView::new(dir, speed),
    {
        let mut spd = speed;
        if spd == 0 {
            spd = 1;
        } else if spd > WAVE_EFFECT_MAX_SPD {
            spd = WAVE_EFFECT_MAX_SPD;
        }
        Self { dir, speed: spd, elapsed: 0 }
    }
}

/// A wave made with an out-of-range speed is the wave made with the nearest
/// speed in range: 0 gives what 1 gives, and everything above 10 what 10
/// gives. Every wave runs at a speed between 1 and 10.
pub proof fn lemma_wave_speed_is_clamped(dir: EffectDir, speed: u32)
    ensures
        WaveView::new(dir, speed) == WaveView::new(dir, clamp_speed(speed)),
        1 <= WaveView::new(dir, speed).speed <= 10,
        speed == 0 ==> WaveView::new(dir, speed) == WaveView::new(dir, 1),
        speed > 10 ==> WaveView::new(dir, speed) == WaveView::new(dir, 10),
        1 <= speed <= 10 ==> WaveView::new(dir, speed).speed == speed,
{
}

/// A step of a wave keeps the multiset of the grid's cells.
pub proof fn lemma_wave_step_keeps_cells(g: Seq<Seq<Colour>>, dir: EffectDir)
    ensures
        cells(wave_step(g, dir)) == cells(g),
{
    lemma_shift_rows_keeps_cells(g, true);
    lemma_shift_rows_keeps_cells(g, false);
    lemma_shift_columns_keeps_cells(g, true);
    lemma_shift_columns_keeps_cells(g, false);
    lemma_shift_columns_keeps_cells(shift_rows(g, true), true);
    lemma_shift_columns_keeps_cells(shift_rows(g, true), false);
    lemma_shift_columns_keeps_cells(shift_rows(g, false), true);
    lemma_shift_columns_keeps_cells(shift_rows(g, false), false);
}

impl<const X: usize, const Y: usize> Effect<X, Y> for WaveEffect {
    /// Starts the count of ticks anew. The cells stay as they are.
    fn init(&mut self, layer: &mut EffectLayer<X, Y>)
        ensures
            final(self)@ == (WaveView { elapsed: 0, ..old(self)@ }),
            final(layer)@ == old(layer)@,
    {
        proof {
            use_type_invariant(&*self);
        }
        self.elapsed = 0;
    }

    /// Counts one tick, and moves the working cells one step in the wave's
    /// direction when the wave's period is over.
    fn update(&mut self, matrix: &mut EffectLayer<X, Y>)
        ensures
            final(self)@ == old(self)@.tick(),
            final(matrix)@ == old(matrix)@.with_working(old(self)@.paint(old(matrix)@.working)),
            cells(final(matrix)@.working) == cells(old(matrix)@.working),
    {
        proof {
            use_type_invariant(&*self);
            lemma_wave_step_keeps_cells(matrix@.working, self.dir);
        }
        let period: u32 = WAVE_EFFECT_MAX_SPD + 1 - self.speed;
        if self.elapsed + 1 < period {
            self.elapsed = self.elapsed + 1;
            return ;
        }
        self.elapsed = 0;
        match self.dir {
            EffectDir::Up => {
                matrix.shift_matrix_vertical(true);
            },
            EffectDir::Down => {
                matrix.shift_matrix_vertical(false);
            },
            EffectDir::Left => {
                matrix.shift_matrix_horizontal(true);
            },
            EffectDir::Right => {
                matrix.shift_matrix_horizontal(false);
            },
            EffectDir::UpLeft => {
                matrix.shift_matrix_vertical(true);
                matrix.shift_matrix_horizontal(true);
            },
            EffectDir::UpRight => {
                matrix.shift_matrix_vertical(true);
                matrix.shift_matrix_horizontal(false);
            },
            EffectDir::DownLeft => {
                matrix.shift_matrix_vertical(false);
                matrix.shift_matrix_horizontal(true);
            },
            EffectDir::DownRight => {
                matrix.shift_matrix_vertical(false);
                matrix.shift_matrix_horizontal(false);
            },
        }
    }
}

} // verus!
