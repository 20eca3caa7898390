//! Text console driver over a fixed WIDTH x HEIGHT character grid.
//!
//! The driver owns the cursor, the current style and the grid of character
//! cells.  Every access to the grid goes through a volatile accessor so that
//! a write to the display region is never reordered or elided.

use vstd::prelude::*;
use vstd::string::StringSliceAdditionalSpecFns;
use volatile::Volatile;

verus! {

/// Number of character columns in the grid.
pub const BUFFER_WIDTH: usize = 80;

/// Number of character rows in the grid.
pub const BUFFER_HEIGHT: usize = 25;

/// Total number of cells in the grid.
pub const BUFFER_SIZE: usize = 80 * 25;

/// The sixteen palette entries of the text display.
#[derive(Clone, Copy, Debug, PartialEq, Eq, Structural)]
pub enum Color {
    Black,
    Blue,
    Green,
    Cyan,
    Red,
    Magenta,
    Brown,
    LightGray,
    DarkGray,
    LightBlue,
    LightGreen,
    LightCyan,
    LightRed,
    Pink,
    Yellow,
    White,
}

impl Color {
    /// Palette index of this color, 0 through 15.
    pub open spec fn spec_code(self) -> u8 {
        match self {
            Color::Black => 0,
            Color::Blue => 1,
            Color::Green => 2,
            Color::Cyan => 3,
            Color::Red => 4,
            Color::Magenta => 5,
            Color::Brown => 6,
            Color::LightGray => 7,
            Color::DarkGray => 8,
            Color::LightBlue => 9,
            Color::LightGreen => 10,
            Color::LightCyan => 11,
            Color::LightRed => 12,
            Color::Pink => 13,
            Color::Yellow => 14,
            Color::White => 15,
        }
    }

    /// Palette index of this color.
    pub fn code(self) -> (r: u8)
        ensures
            r == self.spec_code(),
            r < 16,
    {
        match self {
            Color::Black => 0,
            Color::Blue => 1,
            Color::Green => 2,
            Color::Cyan => 3,
            Color::Red => 4,
            Color::Magenta => 5,
            Color::Brown => 6,
            Color::LightGray => 7,
            Color::DarkGray => 8,
            Color::LightBlue => 9,
            Color::LightGreen => 10,
            Color::LightCyan => 11,
            Color::LightRed => 12,
            Color::Pink => 13,
            Color::Yellow => 14,
            Color::White => 15,
        }
    }
}

/// A style byte: low nibble is the foreground palette index, high nibble the
/// background palette index.
#[derive(Clone, Copy, Debug, PartialEq, Eq, Structural)]
pub struct ColorSet(pub u8);

/// The style byte that a foreground and a background color pack into.
pub open spec fn spec_style_byte(foreground: Color, background: Color) -> u8 {
    (background.spec_code() * 16 + foreground.spec_code()) as u8
}

impl ColorSet {
    /// Packs a foreground and a background color into one style byte.
    pub fn new(foreground: Color, background: Color) -> (r: Self)
        ensures
            r.0 == spec_style_byte(foreground, background),
    {
        let fg = foreground.code();
        let bg = background.code();
        let packed = bg << 4 | fg;
        proof {
            assert(bg < 16 && fg < 16 ==> (bg << 4 | fg) == bg * 16 + fg) by (bit_vector);
        }
        Self(packed)
    }

    /// Foreground palette index: the low nibble.
    pub open spec fn spec_foreground(self) -> u8 {
        self.0 % 16
    }

    /// Background palette index: the high nibble.
    pub open spec fn spec_background(self) -> u8 {
        self.0 / 16
    }
}

impl Default for ColorSet {
    /// The startup style: light-gray text on a black background.
    fn default() -> (r: Self)
        ensures
            r == ColorSet(spec_style_byte(Color::LightGray, Color::Black)),
            r.0 == 0x07,
    {
        ColorSet::new(Color::LightGray, Color::Black)
    }
}

/// A style byte decomposes losslessly into the two palette indices that
/// built it.
pub proof fn lemma_style_round_trip(foreground: Color, background: Color)
    ensures
        ColorSet(spec_style_byte(foreground, background)).spec_foreground()
            == foreground.spec_code(),
        ColorSet(spec_style_byte(foreground, background)).spec_background()
            == background.spec_code(),
{
    let f = foreground.spec_code();
    let b = background.spec_code();
    assert(f < 16 && b < 16);
    assert((b * 16 + f) % 16 == f);
    assert((b * 16 + f) / 16 == b);
}

/// One cell of the grid: a character byte together with the style it is
/// drawn in.
#[derive(Clone, Copy, Debug, PartialEq, Eq, Structural)]
pub struct Char {
    pub character: u8,
    pub appearance: ColorSet,
}

impl Char {
    /// Pairs a character byte with a style.
    pub fn new(character: u8, appearance: ColorSet) -> (r: Self)
        ensures
            r == (Char { character, appearance }),
    {
        Self { character, appearance }
    }
}

/// The cell content of a blank, freshly initialized grid: a space in the
/// default style.
pub open spec fn blank_cell() -> Char {
    Char { character: 0x20, appearance: ColorSet(0x07) }
}

/// Mathematical model of the console: the cursor as an unbounded integer,
/// the current style, and the grid as a sequence of cells.
#[verifier::ext_equal]
pub struct ConsoleView {
    pub position: int,
    pub style: ColorSet,
    pub cells: Seq<Char>,
}

impl ConsoleView {
    /// The grid always holds exactly WIDTH x HEIGHT cells.
    pub open spec fn wf(self) -> bool {
        self.cells.len() == BUFFER_SIZE
    }
}

/// The cell of a row-major grid at the given row and column.
pub open spec fn cell_at(cells: Seq<Char>, row: int, column: int) -> Char {
    cells[row * (BUFFER_WIDTH as int) + column]
}

/// The grid after the content of each row r in [lines, HEIGHT) moved up into
/// row r - lines.  The vacated bottom rows keep their previous content; they
/// are not cleared.
pub open spec fn scrolled_cells(cells: Seq<Char>, lines: int) -> Seq<Char> {
    Seq::new(
        cells.len(),
        |i: int|
            if i + lines * (BUFFER_WIDTH as int) < cells.len() {
                cells[i + lines * (BUFFER_WIDTH as int)]
            } else {
                cells[i]
            },
    )
}

/// Scrolling is possible when the cursor sits at or below the scrolled
/// distance, so that pulling it back cannot underflow.
pub open spec fn scroll_ok(c: ConsoleView, lines: int) -> bool {
    0 <= lines && lines * (BUFFER_WIDTH as int) <= c.position
}

/// The console after scrolling the given number of rows up.
pub open spec fn spec_scroll(c: ConsoleView, lines: int) -> ConsoleView {
    ConsoleView {
        position: c.position - lines * (BUFFER_WIDTH as int),
        style: c.style,
        cells: scrolled_cells(c.cells, lines),
    }
}

/// The console after a line break: the cursor moves to column 0 of the row
/// after the one it stands in.
pub open spec fn spec_new_line(c: ConsoleView) -> ConsoleView {
    ConsoleView {
        position: (c.position / (BUFFER_WIDTH as int) + 1) * (BUFFER_WIDTH as int),
        ..c
    }
}

/// A line break stays within the machine word.
pub open spec fn new_line_ok(c: ConsoleView) -> bool {
    c.position + BUFFER_WIDTH <= usize::MAX
}

/// A byte write lands inside the grid, also after the one scroll it may
/// trigger.
pub open spec fn write_byte_ok(c: ConsoleView) -> bool {
    0 <= c.position < BUFFER_SIZE + BUFFER_WIDTH
}

/// The console after a byte write: one scroll if the cursor left the grid,
/// then the byte in the current style at the cursor cell, then the cursor
/// one step forward.
pub open spec fn spec_write_byte(c: ConsoleView, byte: u8) -> ConsoleView {
    let cs = if c.position >= BUFFER_SIZE {
        spec_scroll(c, 1)
    } else {
        c
    };
    ConsoleView {
        position: cs.position + 1,
        style: cs.style,
        cells: cs.cells.update(cs.position, Char { character: byte, appearance: cs.style }),
    }
}

/// Relies on volatile::Volatile::read (a volatile read of the referenced
/// cell, never optimized away): it returns the value stored at the cell.
#[verifier::external_body]
fn grid_read(cells: &Vec<Char>, index: usize) -> (r: Char)
    requires
        index < cells@.len(),
    ensures
        r == cells@[index as int],
{
    Volatile::new(&cells[index]).read()
}

/// Relies on volatile::Volatile::write (a volatile write to the referenced
/// cell, never optimized away): it stores exactly the given value there.
#[verifier::external_body]
fn grid_write(cells: &mut Vec<Char>, index: usize, cell: Char)
    requires
        index < old(cells)@.len(),
    ensures
        final(cells)@ == old(cells)@.update(index as int, cell),
{
    Volatile::new(&mut cells[index]).write(cell);
}

/// How one byte of a written string steps the console: bytes renderable in
/// the code page, 0x20 through 0x7E, are written as they are; the newline
/// byte breaks the line; every other byte is written as the sentinel glyph
/// 0xFE.
pub open spec fn spec_step(c: ConsoleView, byte: u8) -> ConsoleView {
    if 0x20 <= byte <= 0x7e {
        spec_write_byte(c, byte)
    } else if byte == 0x0a {
        spec_new_line(c)
    } else {
        spec_write_byte(c, 0xfe)
    }
}

/// When one byte of a written string steps the console without leaving its
/// operating bounds.
pub open spec fn step_ok(c: ConsoleView, byte: u8) -> bool {
    if byte == 0x0a {
        new_line_ok(c)
    } else {
        write_byte_ok(c)
    }
}

/// The console after a whole byte sequence was written, byte by byte.
pub open spec fn spec_run(c: ConsoleView, bytes: Seq<u8>) -> ConsoleView
    decreases bytes.len(),
{
    if bytes.len() == 0 {
        c
    } else {
        spec_run(spec_step(c, bytes[0]), bytes.drop_first())
    }
}

/// When a whole byte sequence can be written without any byte leaving the
/// operating bounds.
pub open spec fn run_ok(c: ConsoleView, bytes: Seq<u8>) -> bool
    decreases bytes.len(),
{
    bytes.len() == 0 || (step_ok(c, bytes[0]) && run_ok(spec_step(c, bytes[0]), bytes.drop_first()))
}

/// A run over one more byte is the run over the prefix followed by one step,
/// and it stays in bounds exactly when the prefix does and the last step
/// does.
pub proof fn lemma_run_snoc(c: ConsoleView, bytes: Seq<u8>, byte: u8)
    ensures
        spec_run(c, bytes.push(byte)) == spec_step(spec_run(c, bytes), byte),
        run_ok(c, bytes.push(byte)) == (run_ok(c, bytes) && step_ok(spec_run(c, bytes), byte)),
    decreases bytes.len(),
{
    let s = bytes.push(byte);
    assert(s.len() == bytes.len() + 1);
    if bytes.len() == 0 {
        assert(s[0] == byte);
        assert(s.drop_first() =~= Seq::<u8>::empty());
        assert(spec_run(spec_step(c, byte), Seq::<u8>::empty()) == spec_step(c, byte));
        assert(run_ok(spec_step(c, byte), Seq::<u8>::empty()));
    } else {
        assert(s[0] == bytes[0]);
        assert(s.drop_first() =~= bytes.drop_first().push(byte));
        lemma_run_snoc(spec_step(c, bytes[0]), bytes.drop_first(), byte);
    }
}

/// A run that stays in bounds stays in bounds over every prefix.
pub proof fn lemma_run_ok_take(c: ConsoleView, bytes: Seq<u8>, i: int)
    requires
        0 <= i <= bytes.len(),
        run_ok(c, bytes),
    ensures
        run_ok(c, bytes.take(i)),
    decreases bytes.len() - i,
{
    if i == bytes.len() {
        assert(bytes.take(i) =~= bytes);
    } else {
        lemma_run_ok_take(c, bytes, i + 1);
        assert(bytes.take(i).push(bytes[i]) =~= bytes.take(i + 1));
        lemma_run_snoc(c, bytes.take(i), bytes[i]);
    }
}

/// The console driver: cursor, current style, and the character grid.
/// All grid traffic goes through the volatile accessors.
pub struct Output {
    position: usize,
    style: ColorSet,
    cells: Vec<Char>,
}

impl View for Output {
    type V = ConsoleView;

    closed spec fn view(&self) -> ConsoleView {
        ConsoleView { position: self.position as int, style: self.style, cells: self.cells@ }
    }
}

impl Output {
    /// A console over a blank grid, cursor at the top-left corner, default
    /// style selected.
    pub fn new() -> (r: Output)
        ensures
            r@.wf(),
            r@.position == 0,
            r@.style == ColorSet(0x07),
            forall|i: int| 0 <= i < BUFFER_SIZE ==> r@.cells[i] == blank_cell(),
    {
        let style: ColorSet = Default::default();
        let blank = Char::new(0x20, style);
        let mut cells: Vec<Char> = Vec::new();
        let mut i: usize = 0;
        while i < BUFFER_SIZE
            invariant
                i <= BUFFER_SIZE,
                cells@.len() == i,
                style == ColorSet(0x07),
                blank == blank_cell(),
                forall|j: int| 0 <= j < i ==> cells@[j] == blank_cell(),
            decreases BUFFER_SIZE - i,
        {
            cells.push(blank);
            i += 1;
        }
        Output { position: 0, style, cells }
    }

    /// Replaces the style used for subsequent writes.
    pub fn set_style(&mut self, style: ColorSet)
        ensures
            final(self)@ == (ConsoleView { style, ..old(self)@ }),
    {
        self.style = style;
    }

    /// The cursor as a linear offset into the grid.
    pub fn cursor(&self) -> (r: usize)
        ensures
            r == self@.position,
    {
        self.position
    }

    /// The style currently used for writes.
    pub fn current_style(&self) -> (r: ColorSet)
        ensures
            r == self@.style,
    {
        self.style
    }

    /// The cell at a linear offset, read through the volatile accessor.
    pub fn char_at(&self, index: usize) -> (r: Char)
        requires
            index < self@.cells.len(),
        ensures
            r == self@.cells[index as int],
    {
        grid_read(&self.cells, index)
    }

    /// Breaks the line: the cursor moves to column 0 of the next row, also
    /// when it already stands at column 0.
    pub fn new_line(&mut self)
        requires
            new_line_ok(old(self)@),
        ensures
            final(self)@ == spec_new_line(old(self)@),
    {
        proof {
            let p = old(self)@.position;
            let w = BUFFER_WIDTH as int;
            assert((p / w) * w <= p < (p / w) * w + w) by (nonlinear_arith)
                requires
                    p >= 0,
                    w == 80,
            ;
        }
        self.position = (self.position / BUFFER_WIDTH + 1) * BUFFER_WIDTH;
    }

    /// Shifts the content of every row r in [lines, HEIGHT) up into row
    /// r - lines and pulls the cursor back by lines * WIDTH.  The vacated
    /// bottom rows are not cleared; they keep their previous content.
    pub fn scroll(&mut self, lines: usize)
        requires
            old(self)@.wf(),
            scroll_ok(old(self)@, lines as int),
        ensures
            final(self)@.wf(),
            final(self)@ == spec_scroll(old(self)@, lines as int),
    {
        let mut row = lines;
        while row < BUFFER_HEIGHT
            invariant
                self@.wf(),
                lines <= row,
                row <= BUFFER_HEIGHT || row == lines,
                self@.position == old(self)@.position,
                self@.style == old(self)@.style,
                scroll_ok(old(self)@, lines as int),
                forall|p: int|
                    0 <= p < (row - lines) * (BUFFER_WIDTH as int) ==> self@.cells[p]
                        == old(self)@.cells[p + lines * (BUFFER_WIDTH as int)],
                forall|p: int|
                    (row - lines) * (BUFFER_WIDTH as int) <= p < BUFFER_SIZE ==> self@.cells[p]
                        == old(self)@.cells[p],
            decreases BUFFER_HEIGHT - row,
        {
            let mut column: usize = 0;
            while column < BUFFER_WIDTH
                invariant
                    self@.wf(),
                    lines <= row < BUFFER_HEIGHT,
                    column <= BUFFER_WIDTH,
                    self@.position == old(self)@.position,
                    self@.style == old(self)@.style,
                    forall|p: int|
                        0 <= p < (row - lines) * (BUFFER_WIDTH as int) + column ==> self@.cells[p]
                            == old(self)@.cells[p + lines * (BUFFER_WIDTH as int)],
                    forall|p: int|
                        (row - lines) * (BUFFER_WIDTH as int) + column <= p < BUFFER_SIZE
                            ==> self@.cells[p] == old(self)@.cells[p],
                decreases BUFFER_WIDTH - column,
            {
                let current = row * BUFFER_WIDTH + column;
                let previous = (row - lines) * BUFFER_WIDTH + column;
                let cell = grid_read(&self.cells, current);
                grid_write(&mut self.cells, previous, cell);
                column += 1;
            }
            row += 1;
        }
        proof {
            assert(self@.cells =~= scrolled_cells(old(self)@.cells, lines as int));
        }
        self.position = self.position - lines * BUFFER_WIDTH;
    }

    /// Writes one byte at the cursor in the current style.  A cursor at or
    /// past the end of the grid first triggers one scroll of one row.  The
    /// cursor then advances by one.
    pub fn write_byte(&mut self, byte: u8)
        requires
            old(self)@.wf(),
            write_byte_ok(old(self)@),
        ensures
            final(self)@.wf(),
            final(self)@ == spec_write_byte(old(self)@, byte),
    {
        if self.position >= BUFFER_SIZE {
            self.scroll(1);
        }
        let cell = Char::new(byte, self.style);
        grid_write(&mut self.cells, self.position, cell);
        self.position = self.position + 1;
    }

    /// Writes every byte of the string in order, with no buffering: bytes
    /// 0x20 through 0x7E as they are, the newline byte as a line break, and
    /// every other byte as the sentinel glyph 0xFE.
    pub fn write_str(&mut self, string: &str)
        requires
            old(self)@.wf(),
            run_ok(old(self)@, string.spec_bytes()),
        ensures
            final(self)@.wf(),
            final(self)@ == spec_run(old(self)@, string.spec_bytes()),
    {
        let bytes: &[u8] = string.as_bytes();
        let n = bytes.len();
        proof {
            assert(bytes@.skip(0) =~= bytes@);
        }
        let mut i: usize = 0;
        while i < n
            invariant
                i <= n,
                n == bytes@.len(),
                bytes@ == string.spec_bytes(),
                self@.wf(),
                run_ok(self@, bytes@.skip(i as int)),
                spec_run(self@, bytes@.skip(i as int)) == spec_run(old(self)@, bytes@),
            decreases n - i,
        {
            let byte = bytes[i];
            proof {
                assert(bytes@.skip(i as int)[0] == bytes@[i as int]);
                assert(bytes@.skip(i as int).drop_first() =~= bytes@.skip(i as int + 1));
            }
            if 0x20 <= byte && byte <= 0x7e {
                self.write_byte(byte);
            } else if byte == 0x0a {
                self.new_line();
            } else {
                self.write_byte(0xfe);
            }
            i += 1;
        }
        proof {
            assert(bytes@.skip(n as int) =~= Seq::<u8>::empty());
        }
    }

    /// Writes the string only when every byte of it can be written within
    /// the console's operating bounds from the current state.  Returns
    /// whether it wrote; when it did not, the console is unchanged.
    pub fn try_write_str(&mut self, string: &str) -> (ok: bool)
        requires
            old(self)@.wf(),
        ensures
            final(self)@.wf(),
            ok == run_ok(old(self)@, string.spec_bytes()),
            ok ==> final(self)@ == spec_run(old(self)@, string.spec_bytes()),
            !ok ==> final(self)@ == old(self)@,
    {
        let bytes: &[u8] = string.as_bytes();
        let n = bytes.len();
        let mut position = self.cursor();
        let mut i: usize = 0;
        while i < n
            invariant
                i <= n,
                n == bytes@.len(),
                bytes@ == string.spec_bytes(),
                self@ == old(self)@,
                self@.wf(),
                run_ok(self@, bytes@.take(i as int)),
                position == spec_run(self@, bytes@.take(i as int)).position,
            decreases n - i,
        {
            let byte = bytes[i];
            proof {
                lemma_run_snoc(self@, bytes@.take(i as int), bytes@[i as int]);
                assert(bytes@.take(i as int).push(bytes@[i as int]) =~= bytes@.take(
                    i as int + 1,
                ));
            }
            if byte == 0x0a {
                if position > usize::MAX - BUFFER_WIDTH {
                    proof {
                        if run_ok(self@, bytes@) {
                            lemma_run_ok_take(self@, bytes@, i as int + 1);
                            assert(false);
                        }
                    }
                    return false;
                }
                proof {
                    let p = position as int;
                    let w = BUFFER_WIDTH as int;
                    assert((p / w) * w <= p < (p / w) * w + w) by (nonlinear_arith)
                        requires
                            p >= 0,
                            w == 80,
                    ;
                }
                position = (position / BUFFER_WIDTH + 1) * BUFFER_WIDTH;
            } else {
                if position >= BUFFER_SIZE + BUFFER_WIDTH {
                    proof {
                        if run_ok(self@, bytes@) {
                            lemma_run_ok_take(self@, bytes@, i as int + 1);
                            assert(false);
                        }
                    }
                    return false;
                }
                if position >= BUFFER_SIZE {
                    position = position - BUFFER_WIDTH;
                }
                position = position + 1;
            }
            i += 1;
        }
        proof {
            assert(bytes@.take(n as int) =~= bytes@);
        }
        self.write_str(string);
        true
    }

    /// Moves the cursor to the given row and column.  No bound is checked
    /// beyond what the machine word forces; the caller owns the consequences
    /// of an offset outside the grid.
    pub fn set_cursor(&mut self, row: usize, column: usize)
        requires
            row * BUFFER_WIDTH + column <= usize::MAX,
        ensures
            final(self)@ == (ConsoleView {
                position: row * BUFFER_WIDTH + column,
                ..old(self)@
            }),
    {
        self.position = row * BUFFER_WIDTH + column;
    }
}

/// A byte written with the cursor inside the grid is stored exactly as the
/// pair of that byte and the current style at the old cursor cell; the
/// cursor advances by exactly one, and no other cell and not the style
/// changes.
pub proof fn lemma_write_byte_in_grid(c: ConsoleView, byte: u8)
    requires
        c.wf(),
        0 <= c.position < BUFFER_SIZE,
    ensures
        spec_write_byte(c, byte).position == c.position + 1,
        spec_write_byte(c, byte).style == c.style,
        spec_write_byte(c, byte).cells[c.position] == (Char {
            character: byte,
            appearance: c.style,
        }),
        forall|i: int|
            0 <= i < BUFFER_SIZE && i != c.position ==> spec_write_byte(c, byte).cells[i]
                == c.cells[i],
{
}

/// A byte outside 0x20..=0x7E that is not the newline steps a written string
/// exactly as writing the sentinel glyph 0xFE in the current style would.
pub proof fn lemma_unprintable_byte_is_sentinel(c: ConsoleView, byte: u8)
    requires
        !(0x20 <= byte <= 0x7e),
        byte != 0x0a,
    ensures
        spec_step(c, byte) == spec_write_byte(c, 0xfe),
{
}

/// A line break always lands on column 0 of the row after the one the
/// cursor stands in, also when the cursor already stands at column 0; the
/// grid and the style are untouched.
pub proof fn lemma_new_line_next_row(c: ConsoleView)
    requires
        c.position >= 0,
    ensures
        spec_new_line(c).position % (BUFFER_WIDTH as int) == 0,
        spec_new_line(c).position / (BUFFER_WIDTH as int) == c.position / (BUFFER_WIDTH as int)
            + 1,
        spec_new_line(c).position > c.position,
        spec_new_line(c).cells == c.cells,
        spec_new_line(c).style == c.style,
{
    let p = c.position;
    let w = BUFFER_WIDTH as int;
    let q = p / w;
    assert((q + 1) * w == q * w + w) by (nonlinear_arith);
    assert(q * w <= p < q * w + w) by (nonlinear_arith)
        requires
            p >= 0,
            w == 80,
            q == p / w,
    ;
    assert((q * w + w) % w == 0 && (q * w + w) / w == q + 1) by (nonlinear_arith)
        requires
            w == 80,
    ;
}

/// A sequence of renderable bytes that fits between the cursor and the end
/// of the grid fills consecutive cells in order, each in the current style,
/// with no scroll: every other cell is unchanged and the cursor advances by
/// exactly the number of bytes.
pub proof fn lemma_fill_without_scroll(c: ConsoleView, bytes: Seq<u8>)
    requires
        c.wf(),
        0 <= c.position,
        c.position + bytes.len() <= BUFFER_SIZE,
        forall|i: int| 0 <= i < bytes.len() ==> 0x20 <= #[trigger] bytes[i] <= 0x7e,
    ensures
        spec_run(c, bytes).position == c.position + bytes.len(),
        spec_run(c, bytes).style == c.style,
        spec_run(c, bytes).cells.len() == c.cells.len(),
        forall|i: int|
            0 <= i < bytes.len() ==> spec_run(c, bytes).cells[c.position + i] == (Char {
                character: bytes[i],
                appearance: c.style,
            }),
        forall|j: int|
            0 <= j < BUFFER_SIZE && !(c.position <= j < c.position + bytes.len()) ==> spec_run(
                c,
                bytes,
            ).cells[j] == c.cells[j],
    decreases bytes.len(),
{
    if bytes.len() > 0 {
        let c1 = spec_step(c, bytes[0]);
        let rest = bytes.drop_first();
        assert(c1 == spec_write_byte(c, bytes[0]));
        assert forall|i: int| 0 <= i < rest.len() implies 0x20 <= #[trigger] rest[i] <= 0x7e by {
            assert(rest[i] == bytes[i + 1]);
        }
        lemma_fill_without_scroll(c1, rest);
        assert forall|i: int| 0 <= i < bytes.len() implies spec_run(c, bytes).cells[c.position
            + i] == (Char { character: bytes[i], appearance: c.style }) by {
            if i == 0 {
                assert(spec_run(c1, rest).cells[c.position] == c1.cells[c.position]);
                assert(c1.cells[c.position] == (Char {
                    character: bytes[0],
                    appearance: c.style,
                }));
            } else {
                assert(rest[i - 1] == bytes[i]);
                assert(spec_run(c1, rest).cells[c1.position + (i - 1)] == (Char {
                    character: rest[i - 1],
                    appearance: c1.style,
                }));
            }
        }
        assert forall|j: int|
            0 <= j < BUFFER_SIZE && !(c.position <= j < c.position + bytes.len()) implies spec_run(
            c,
            bytes,
        ).cells[j] == c.cells[j] by {
            assert(spec_run(c1, rest).cells[j] == c1.cells[j]);
            assert(c1.cells[j] == c.cells[j]);
        }
    }
}

/// A write with the cursor exactly at the end of the grid triggers exactly
/// one scroll of one row before the byte is placed: the step equals a scroll
/// of one row followed by an in-grid write, and that scroll pulls the cursor
/// back to the start of the last row.
pub proof fn lemma_write_at_full_grid_scrolls_once(c: ConsoleView, byte: u8)
    requires
        c.wf(),
        c.position == BUFFER_SIZE,
    ensures
        spec_write_byte(c, byte) == spec_write_byte(spec_scroll(c, 1), byte),
        spec_scroll(c, 1).position == BUFFER_SIZE - BUFFER_WIDTH,
{
}

/// Scrolling n rows with the cursor at offset P sets the cursor to
/// P - n * WIDTH; every row r in [n, HEIGHT) moves into row r - n unchanged,
/// and the bottom n rows keep their previous content.
pub proof fn lemma_scroll_rows(c: ConsoleView, n: int)
    requires
        c.wf(),
        0 <= n <= BUFFER_HEIGHT,
    ensures
        spec_scroll(c, n).position == c.position - n * (BUFFER_WIDTH as int),
        spec_scroll(c, n).style == c.style,
        spec_scroll(c, n).cells.len() == c.cells.len(),
        forall|r: int, col: int|
            n <= r < BUFFER_HEIGHT && 0 <= col < BUFFER_WIDTH ==> #[trigger] cell_at(
                spec_scroll(c, n).cells,
                r - n,
                col,
            ) == cell_at(c.cells, r, col),
        forall|r: int, col: int|
            BUFFER_HEIGHT - n <= r < BUFFER_HEIGHT && 0 <= col < BUFFER_WIDTH ==> #[trigger] cell_at(
                spec_scroll(c, n).cells,
                r,
                col,
            ) == cell_at(c.cells, r, col),
{
    assert forall|r: int, col: int| n <= r < BUFFER_HEIGHT && 0 <= col < BUFFER_WIDTH implies #[trigger] cell_at(
        spec_scroll(c, n).cells,
        r - n,
        col,
    ) == cell_at(c.cells, r, col) by {
        assert((r - n) * 80 + col + n * 80 == r * 80 + col);
        assert(0 <= (r - n) * 80 + col);
        assert(r * 80 + col < BUFFER_SIZE);
    }
    assert forall|r: int, col: int|
        BUFFER_HEIGHT - n <= r < BUFFER_HEIGHT && 0 <= col < BUFFER_WIDTH implies #[trigger] cell_at(
        spec_scroll(c, n).cells,
        r,
        col,
    ) == cell_at(c.cells, r, col) by {
        assert(r * 80 + col + n * 80 >= BUFFER_SIZE);
        assert(0 <= r * 80 + col < BUFFER_SIZE);
    }
}

} // verus!
