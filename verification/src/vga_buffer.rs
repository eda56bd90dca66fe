//! The diagnostic console: a cursor-tracked 25x80 grid of character cells
//! with true scrolling and raw-byte sanitization.
//!
//! This module holds the console's state and its whole write logic as plain
//! data. The binding of the grid onto the text-mode display memory is hardware
//! work and lives outside the library; it mirrors this model cell for cell.

use vstd::prelude::*;
use vstd::string::StringSliceAdditionalSpecFns;

verus! {

/// Number of visible rows of the text-mode display.
pub const BUFFER_HEIGHT: usize = 25;

/// Number of visible columns of the text-mode display.
pub const BUFFER_WIDTH: usize = 80;

/// Physical address of the text-mode display memory. The model never
/// dereferences it; the hardware binding does.
pub const VGA_START_POINT: u32 = 0xb8000;

/// The sixteen colors of the text-mode palette.
#[allow(dead_code)]
#[derive(Clone, Copy, Debug, PartialEq, Eq, Structural)]
pub enum Colors {
    Black,
    Blue,
    Green,
    Cyan,
    Red,
    Magenta,
    Brown,
    LightGray,
    DarkGray,
    LightBlue,
    LightGreen,
    LightCyan,
    LightRed,
    Pink,
    Yellow,
    White,
}

impl Colors {
    /// The 4-bit palette index of this color.
    pub open spec fn spec_value(self) -> u8 {
        match self {
            Colors::Black => 0,
            Colors::Blue => 1,
            Colors::Green => 2,
            Colors::Cyan => 3,
            Colors::Red => 4,
            Colors::Magenta => 5,
            Colors::Brown => 6,
            Colors::LightGray => 7,
            Colors::DarkGray => 8,
            Colors::LightBlue => 9,
            Colors::LightGreen => 10,
            Colors::LightCyan => 11,
            Colors::LightRed => 12,
            Colors::Pink => 13,
            Colors::Yellow => 14,
            Colors::White => 15,
        }
    }

    pub fn value(self) -> (r: u8)
        ensures
            r == self.spec_value(),
            r < 16,
    {
        match self {
            Colors::Black => 0,
            Colors::Blue => 1,
            Colors::Green => 2,
            Colors::Cyan => 3,
            Colors::Red => 4,
            Colors::Magenta => 5,
            Colors::Brown => 6,
            Colors::LightGray => 7,
            Colors::DarkGray => 8,
            Colors::LightBlue => 9,
            Colors::LightGreen => 10,
            Colors::LightCyan => 11,
            Colors::LightRed => 12,
            Colors::Pink => 13,
            Colors::Yellow => 14,
            Colors::White => 15,
        }
    }
}

/// A packed color attribute: background palette index in the high nibble,
/// foreground in the low nibble.
#[derive(Clone, Copy, Debug, PartialEq, Eq, Structural)]
pub struct Color(pub u8);

impl Color {
    /// Packs a foreground/background pair into one attribute byte.
    pub fn new(foreground: Colors, background: Colors) -> (c: Color)
        ensures
            c.0 == background.spec_value() * 16 + foreground.spec_value(),
    {
        let f = foreground.value();
        let b = background.value();
        proof {
            assert(((b << 4) | f) == b * 16 + f) by (bit_vector)
                requires
                    b < 16 && f < 16,
            ;
        }
        Color((b << 4) | f)
    }
}

/// One character cell: a displayable code and its color attribute. The layout
/// the display hardware expects is exactly these two bytes.
#[derive(Clone, Copy, Debug, PartialEq, Eq, Structural)]
pub struct Char {
    pub ascii_character: u8,
    pub color: Color,
}

/// The mathematical state of the console: cursor column, current attribute,
/// and the grid of cells.
#[verifier::ext_equal]
pub ghost struct ConsoleView {
    pub col: int,
    pub color: Color,
    pub grid: Seq<Seq<Char>>,
}

/// A byte the console renders as itself.
pub open spec fn is_printable(b: u8) -> bool {
    0x20 <= b && b <= 0x7e
}

pub open spec fn is_newline(b: u8) -> bool {
    b == 0x0au8
}

/// The fixed substitute for bytes outside the printable range.
pub open spec fn sentinel() -> u8 {
    0xfeu8
}

/// What a raw byte degrades to before it reaches the grid: itself if
/// printable or newline, the sentinel otherwise.
pub open spec fn sanitize_spec(b: u8) -> u8 {
    if is_printable(b) || is_newline(b) {
        b
    } else {
        sentinel()
    }
}

/// A byte the low-level writer accepts: printable, newline, or the sentinel.
pub open spec fn is_storable(b: u8) -> bool {
    is_printable(b) || is_newline(b) || b == sentinel()
}

/// A code a grid cell may hold: printable or the sentinel; a newline is acted
/// on, never stored.
pub open spec fn cell_code_ok(b: u8) -> bool {
    is_printable(b) || b == sentinel()
}

pub open spec fn blank_cell(color: Color) -> Char {
    Char { ascii_character: 0x20u8, color }
}

pub open spec fn blank_row(color: Color) -> Seq<Char> {
    Seq::new(BUFFER_WIDTH as nat, |c: int| blank_cell(color))
}

/// Shape of a console state: cursor within the row, grid of exactly
/// `BUFFER_HEIGHT` rows of `BUFFER_WIDTH` cells.
pub open spec fn view_wf(v: ConsoleView) -> bool {
    &&& 0 <= v.col <= BUFFER_WIDTH
    &&& v.grid.len() == BUFFER_HEIGHT
    &&& forall|r: int| 0 <= r < BUFFER_HEIGHT ==> (#[trigger] v.grid[r]).len() == BUFFER_WIDTH
}

/// Every stored cell code is printable or the sentinel.
pub open spec fn cells_stored_ok(grid: Seq<Seq<Char>>) -> bool {
    forall|r: int, c: int|
        0 <= r < grid.len() && 0 <= c < grid[r].len() ==> cell_code_ok(
            (#[trigger] grid[r][c]).ascii_character,
        )
}

/// A scroll: every row shifts up by one, the last row becomes blank cells in
/// the current attribute, and the cursor returns to column 0. Content of the
/// former first row is discarded.
pub open spec fn scroll_spec(v: ConsoleView) -> ConsoleView {
    ConsoleView {
        col: 0,
        color: v.color,
        grid: Seq::new(
            BUFFER_HEIGHT as nat,
            |r: int|
                if r < BUFFER_HEIGHT - 1 {
                    v.grid[r + 1]
                } else {
                    blank_row(v.color)
                },
        ),
    }
}

/// Writing one non-newline byte: scroll first if the cursor is at or past the
/// last column, then store the byte at the cursor in the last row and advance.
pub open spec fn put_spec(v: ConsoleView, b: u8) -> ConsoleView {
    let w = if v.col >= BUFFER_WIDTH {
        scroll_spec(v)
    } else {
        v
    };
    ConsoleView {
        col: w.col + 1,
        color: w.color,
        grid: w.grid.update(
            BUFFER_HEIGHT - 1,
            w.grid[BUFFER_HEIGHT - 1].update(w.col, Char { ascii_character: b, color: w.color }),
        ),
    }
}

/// One step of the console on a storable byte.
pub open spec fn byte_step(v: ConsoleView, b: u8) -> ConsoleView {
    if is_newline(b) {
        scroll_spec(v)
    } else {
        put_spec(v, b)
    }
}

/// The console's run over a whole byte sequence, each byte sanitized first.
pub open spec fn write_seq_spec(v: ConsoleView, bytes: Seq<u8>) -> ConsoleView
    decreases bytes.len(),
{
    if bytes.len() == 0 {
        v
    } else {
        write_seq_spec(byte_step(v, sanitize_spec(bytes[0])), bytes.drop_first())
    }
}

/// Whether one step scrolls the grid.
pub open spec fn byte_scrolls(v: ConsoleView, b: u8) -> nat {
    if is_newline(b) {
        1
    } else if v.col >= BUFFER_WIDTH {
        1
    } else {
        0
    }
}

/// How many scrolls a whole write performs.
pub open spec fn scroll_count_spec(v: ConsoleView, bytes: Seq<u8>) -> nat
    decreases bytes.len(),
{
    if bytes.len() == 0 {
        0
    } else {
        byte_scrolls(v, sanitize_spec(bytes[0])) + scroll_count_spec(
            byte_step(v, sanitize_spec(bytes[0])),
            bytes.drop_first(),
        )
    }
}

/// The state a fresh console starts in: cursor at column 0, light green on
/// black, all cells blank.
pub open spec fn default_color() -> Color {
    Color(0x0au8)
}

pub open spec fn initial_view() -> ConsoleView {
    ConsoleView {
        col: 0,
        color: default_color(),
        grid: Seq::new(BUFFER_HEIGHT as nat, |r: int| blank_row(default_color())),
    }
}

/// The diagnostic console. One instance models the single shared screen; its
/// state changes only through the write operations below.
pub struct Writer {
    column_position: usize,
    color: Color,
    grid: Vec<Vec<Char>>,
}

impl View for Writer {
    type V = ConsoleView;

    closed spec fn view(&self) -> ConsoleView {
        ConsoleView {
            col: self.column_position as int,
            color: self.color,
            grid: Seq::new(self.grid@.len(), |r: int| self.grid@[r]@),
        }
    }
}

impl Writer {
    /// Well-formedness: the grid has its fixed shape and holds only
    /// printable-or-sentinel codes.
    pub open spec fn wf(self) -> bool {
        view_wf(self@) && cells_stored_ok(self@.grid)
    }

    /// A fresh console: cursor at column 0, default attribute, blank grid.
    pub fn new() -> (w: Writer)
        ensures
            w.wf(),
            w@ == initial_view(),
    {
        let color = Color::new(Colors::LightGreen, Colors::Black);
        let mut grid: Vec<Vec<Char>> = Vec::new();
        let mut r: usize = 0;
        while r < BUFFER_HEIGHT
            invariant
                r == grid@.len(),
                r <= BUFFER_HEIGHT,
                color == default_color(),
                forall|i: int| 0 <= i < r ==> #[trigger] grid@[i]@ == blank_row(default_color()),
            decreases BUFFER_HEIGHT - r,
        {
            let mut row: Vec<Char> = Vec::new();
            let mut c: usize = 0;
            while c < BUFFER_WIDTH
                invariant
                    c == row@.len(),
                    c <= BUFFER_WIDTH,
                    color == default_color(),
                    forall|j: int| 0 <= j < c ==> #[trigger] row@[j] == blank_cell(default_color()),
                decreases BUFFER_WIDTH - c,
            {
                row.push(Char { ascii_character: 0x20u8, color });
                c = c + 1;
            }
            proof {
                assert(row@ =~= blank_row(default_color()));
            }
            grid.push(row);
            r = r + 1;
        }
        let w = Writer { column_position: 0, color, grid };
        proof {
            assert(w@.grid =~~= initial_view().grid);
            assert(w@ =~= initial_view());
        }
        w
    }

    /// The current cursor column.
    pub fn column_position(&self) -> (c: usize)
        ensures
            c as int == self@.col,
    {
        self.column_position
    }

    /// The current color attribute.
    pub fn current_color(&self) -> (c: Color)
        ensures
            c == self@.color,
    {
        self.color
    }

    /// The cell at a grid position.
    pub fn char_at(&self, row: usize, col: usize) -> (ch: Char)
        requires
            self.wf(),
            row < BUFFER_HEIGHT,
            col < BUFFER_WIDTH,
        ensures
            ch == self@.grid[row as int][col as int],
    {
        proof {
            lemma_view_rows(*self);
            assert(self@.grid[row as int] == self.grid@[row as int]@);
            assert(self.grid@[row as int]@.len() == BUFFER_WIDTH);
        }
        self.grid[row][col]
    }

    /// Writes one storable byte: a newline scrolls; any other byte lands at
    /// the cursor in the last row (scrolling first if the row is full) and
    /// advances the cursor.
    pub fn write_byte(&mut self, byte: u8)
        requires
            old(self).wf(),
            is_storable(byte),
        ensures
            final(self).wf(),
            final(self)@ == byte_step(old(self)@, byte),
    {
        if byte == 0x0au8 {
            self.new_line();
        } else {
            if self.column_position >= BUFFER_WIDTH {
                self.new_line();
            }
            let ghost pre = *self;
            let row = BUFFER_HEIGHT - 1;
            let column = self.column_position;
            let color = self.color;
            proof {
                lemma_view_rows(pre);
                assert(self.grid@.len() == BUFFER_HEIGHT);
                assert(pre@.grid[row as int] == self.grid@[row as int]@);
                assert(self.grid@[row as int]@.len() == BUFFER_WIDTH);
            }
            self.grid[row][column] = Char { ascii_character: byte, color };
            self.column_position = column + 1;
            proof {
                lemma_view_rows(*self);
                assert(self@.grid =~~= pre@.grid.update(
                    BUFFER_HEIGHT - 1,
                    pre@.grid[BUFFER_HEIGHT - 1].update(
                        column as int,
                        Char { ascii_character: byte, color: pre@.color },
                    ),
                ));
                assert(self@ =~= put_spec(old(self)@, byte));
                assert forall|rr: int, cc: int|
                    0 <= rr < self@.grid.len() && 0 <= cc < self@.grid[rr].len() implies cell_code_ok(
                    (#[trigger] self@.grid[rr][cc]).ascii_character,
                ) by {
                    assert(cells_stored_ok(pre@.grid));
                }
            }
        }
    }

    /// Writes a whole byte sequence, substituting the sentinel for every byte
    /// that is neither printable nor a newline. Total: no input raises.
    pub fn write_bytes(&mut self, bytes: &[u8])
        requires
            old(self).wf(),
        ensures
            final(self).wf(),
            final(self)@ == write_seq_spec(old(self)@, bytes@),
    {
        let n = bytes.len();
        let mut i: usize = 0;
        while i < n
            invariant
                i <= n,
                n == bytes@.len(),
                self.wf(),
                self@ == write_seq_spec(old(self)@, bytes@.take(i as int)),
            decreases n - i,
        {
            let b = bytes[i];
            let sb = if (0x20 <= b && b <= 0x7e) || b == 0x0au8 {
                b
            } else {
                0xfeu8
            };
            proof {
                assert(sb == sanitize_spec(b));
                assert(is_storable(sb));
            }
            let ghost before = self@;
            self.write_byte(sb);
            proof {
                assert(bytes@.take(i as int + 1) =~= bytes@.take(i as int).push(bytes@[i as int]));
                lemma_write_seq_snoc(old(self)@, bytes@.take(i as int), bytes@[i as int]);
            }
            i = i + 1;
        }
        proof {
            assert(bytes@.take(n as int) =~= bytes@);
        }
    }

    /// Writes a string's bytes with the same sanitization.
    pub fn write_string(&mut self, s: &str)
        requires
            old(self).wf(),
        ensures
            final(self).wf(),
            final(self)@ == write_seq_spec(old(self)@, s.spec_bytes()),
    {
        self.write_bytes(s.as_bytes());
    }

    /// Fills one row with blank cells in the current attribute.
    fn clear_row(&mut self, row: usize)
        requires
            old(self).wf(),
            row < BUFFER_HEIGHT,
        ensures
            final(self).wf(),
            final(self)@.col == old(self)@.col,
            final(self)@.color == old(self)@.color,
            final(self)@.grid == old(self)@.grid.update(row as int, blank_row(old(self)@.color)),
    {
        let blank = Char { ascii_character: 0x20u8, color: self.color };
        let mut fresh: Vec<Char> = Vec::new();
        let mut c: usize = 0;
        while c < BUFFER_WIDTH
            invariant
                c == fresh@.len(),
                c <= BUFFER_WIDTH,
                blank == blank_cell(old(self)@.color),
                forall|j: int| 0 <= j < c ==> #[trigger] fresh@[j] == blank_cell(old(self)@.color),
            decreases BUFFER_WIDTH - c,
        {
            fresh.push(blank);
            c = c + 1;
        }
        proof {
            lemma_view_rows(*self);
            assert(fresh@ =~= blank_row(old(self)@.color));
            assert(self.grid@.len() == BUFFER_HEIGHT);
        }
        self.grid[row] = fresh;
        proof {
            lemma_view_rows(*self);
            lemma_view_rows(*old(self));
            assert(self@.grid =~~= old(self)@.grid.update(row as int, blank_row(old(self)@.color)));
            assert forall|rr: int, cc: int|
                0 <= rr < self@.grid.len() && 0 <= cc < self@.grid[rr].len() implies cell_code_ok(
                (#[trigger] self@.grid[rr][cc]).ascii_character,
            ) by {
                assert(cells_stored_ok(old(self)@.grid));
            }
        }
    }

    /// A true scroll: row `r` moves to row `r - 1` for every interior row,
    /// the last row is cleared to blanks in the current attribute, and the
    /// cursor returns to column 0.
    fn new_line(&mut self)
        requires
            old(self).wf(),
        ensures
            final(self).wf(),
            final(self)@ == scroll_spec(old(self)@),
    {
        let mut r: usize = 1;
        while r < BUFFER_HEIGHT
            invariant
                1 <= r <= BUFFER_HEIGHT,
                self.wf(),
                self@.col == old(self)@.col,
                self@.color == old(self)@.color,
                forall|i: int| 0 <= i < r - 1 ==> #[trigger] self@.grid[i] == old(self)@.grid[i + 1],
                forall|i: int|
                    r - 1 <= i < BUFFER_HEIGHT ==> #[trigger] self@.grid[i] == old(self)@.grid[i],
            decreases BUFFER_HEIGHT - r,
        {
            let ghost row_start = *self;
            proof {
                lemma_view_rows(row_start);
                assert(self.grid@.len() == BUFFER_HEIGHT);
                assert(row_start@.grid[r as int] == self.grid@[r as int]@);
                assert(self.grid@[r as int]@.len() == BUFFER_WIDTH);
            }
            let mut moved: Vec<Char> = Vec::new();
            let mut c: usize = 0;
            while c < BUFFER_WIDTH
                invariant
                    c == moved@.len(),
                    c <= BUFFER_WIDTH,
                    1 <= r < BUFFER_HEIGHT,
                    self.grid@.len() == BUFFER_HEIGHT,
                    self.grid@[r as int]@.len() == BUFFER_WIDTH,
                    forall|j: int| 0 <= j < c ==> #[trigger] moved@[j] == self.grid@[r as int]@[j],
                decreases BUFFER_WIDTH - c,
            {
                let character = self.grid[r][c];
                moved.push(character);
                c = c + 1;
            }
            proof {
                assert(moved@ =~= self.grid@[r as int]@);
                assert(moved@ == row_start@.grid[r as int]);
            }
            self.grid[r - 1] = moved;
            proof {
                lemma_view_rows(*self);
                assert(self@.grid =~~= row_start@.grid.update(r - 1, row_start@.grid[r as int]));
                assert forall|rr: int, cc: int|
                    0 <= rr < self@.grid.len() && 0 <= cc < self@.grid[rr].len() implies cell_code_ok(
                    (#[trigger] self@.grid[rr][cc]).ascii_character,
                ) by {
                    assert(cells_stored_ok(row_start@.grid));
                }
            }
            r = r + 1;
        }
        self.clear_row(BUFFER_HEIGHT - 1);
        self.column_position = 0;
        proof {
            assert(self@.grid =~~= scroll_spec(old(self)@).grid);
            assert(self@ =~= scroll_spec(old(self)@));
        }
    }
}

/// The rows of a writer's view are the views of its rows.
proof fn lemma_view_rows(w: Writer)
    ensures
        w@.grid.len() == w.grid@.len(),
        forall|i: int| 0 <= i < w.grid@.len() ==> #[trigger] w@.grid[i] == w.grid@[i]@,
{
}

/// Appending one byte to a write is one more step of the console.
pub proof fn lemma_write_seq_snoc(v: ConsoleView, s: Seq<u8>, b: u8)
    ensures
        write_seq_spec(v, s.push(b)) == byte_step(write_seq_spec(v, s), sanitize_spec(b)),
    decreases s.len(),
{
    if s.len() == 0 {
        assert(s.push(b).len() == 1);
        assert(s.push(b)[0] == b);
        assert(s.push(b).drop_first() =~= Seq::<u8>::empty());
        assert(write_seq_spec(v, s.push(b)) == write_seq_spec(
            byte_step(v, sanitize_spec(b)),
            Seq::<u8>::empty(),
        ));
        assert(write_seq_spec(v, s) == v);
    } else {
        assert(s.push(b)[0] == s[0]);
        assert(s.push(b).drop_first() =~= s.drop_first().push(b));
        lemma_write_seq_snoc(byte_step(v, sanitize_spec(s[0])), s.drop_first(), b);
        assert(write_seq_spec(v, s.push(b)) == write_seq_spec(
            byte_step(v, sanitize_spec(s[0])),
            s.drop_first().push(b),
        ));
        assert(write_seq_spec(v, s) == write_seq_spec(
            byte_step(v, sanitize_spec(s[0])),
            s.drop_first(),
        ));
    }
}

/// A scroll keeps the grid's shape.
pub proof fn lemma_scroll_wf(v: ConsoleView)
    requires
        view_wf(v),
    ensures
        view_wf(scroll_spec(v)),
{
    let s = scroll_spec(v);
    assert forall|r: int| 0 <= r < BUFFER_HEIGHT implies (#[trigger] s.grid[r]).len()
        == BUFFER_WIDTH by {
        if r < BUFFER_HEIGHT - 1 {
            assert(s.grid[r] == v.grid[r + 1]);
        } else {
            assert(s.grid[r] == blank_row(v.color));
        }
    }
}

/// One console step keeps the grid's shape.
pub proof fn lemma_byte_step_wf(v: ConsoleView, b: u8)
    requires
        view_wf(v),
    ensures
        view_wf(byte_step(v, b)),
{
    if is_newline(b) {
        lemma_scroll_wf(v);
    } else {
        let w = if v.col >= BUFFER_WIDTH {
            scroll_spec(v)
        } else {
            v
        };
        if v.col >= BUFFER_WIDTH {
            lemma_scroll_wf(v);
        }
        let p = put_spec(v, b);
        assert forall|r: int| 0 <= r < BUFFER_HEIGHT implies (#[trigger] p.grid[r]).len()
            == BUFFER_WIDTH by {
            if r == BUFFER_HEIGHT - 1 {
                assert(p.grid[r] == w.grid[r].update(w.col, Char { ascii_character: b, color: w.color }));
            } else {
                assert(p.grid[r] == w.grid[r]);
            }
        }
    }
}

/// After a scroll, the row that stood at index `r` stands at index `r - 1`
/// for every interior row, and the new last row is entirely blank cells in
/// the then-current attribute.
pub proof fn lemma_scroll_shifts_rows(v: ConsoleView)
    requires
        view_wf(v),
    ensures
        forall|r: int| 1 <= r < BUFFER_HEIGHT ==> scroll_spec(v).grid[r - 1] == v.grid[r],
        forall|c: int|
            0 <= c < BUFFER_WIDTH ==> #[trigger] scroll_spec(v).grid[BUFFER_HEIGHT - 1][c]
                == blank_cell(v.color),
{
    assert forall|r: int| 1 <= r < BUFFER_HEIGHT implies scroll_spec(v).grid[r - 1]
        == v.grid[r] by {
        assert(scroll_spec(v).grid[r - 1] == v.grid[(r - 1) + 1]);
    }
    assert(scroll_spec(v).grid[BUFFER_HEIGHT - 1] == blank_row(v.color));
}

/// Accounting for a run of printable bytes from an arbitrary cursor column:
/// either the run still fits in the cursor's row and nothing scrolls, or the
/// grid scrolls exactly as often as further rows are needed.
proof fn lemma_printable_run(v: ConsoleView, bytes: Seq<u8>)
    requires
        view_wf(v),
        forall|i: int| 0 <= i < bytes.len() ==> is_printable(#[trigger] bytes[i]),
    ensures
        v.col + bytes.len() <= BUFFER_WIDTH ==> scroll_count_spec(v, bytes) == 0 && write_seq_spec(
            v,
            bytes,
        ).col == v.col + bytes.len(),
        v.col + bytes.len() > BUFFER_WIDTH ==> scroll_count_spec(v, bytes) >= 1 && (
        scroll_count_spec(v, bytes) - 1) * BUFFER_WIDTH < v.col + bytes.len() - BUFFER_WIDTH
            <= scroll_count_spec(v, bytes) * BUFFER_WIDTH && write_seq_spec(v, bytes).col == v.col
            + bytes.len() - BUFFER_WIDTH - (scroll_count_spec(v, bytes) - 1) * BUFFER_WIDTH,
    decreases bytes.len(),
{
    if bytes.len() > 0 {
        let b = bytes[0];
        assert(sanitize_spec(b) == b);
        let v1 = byte_step(v, b);
        lemma_byte_step_wf(v, b);
        let rest = bytes.drop_first();
        assert forall|i: int| 0 <= i < rest.len() implies is_printable(#[trigger] rest[i]) by {
            assert(rest[i] == bytes[i + 1]);
        }
        lemma_printable_run(v1, rest);
        if v.col >= BUFFER_WIDTH {
            assert(v1.col == 1);
            assert(byte_scrolls(v, b) == 1);
        } else {
            assert(v1.col == v.col + 1);
            assert(byte_scrolls(v, b) == 0);
        }
    }
}

/// Writing a string of printable bytes with the cursor at column 0: one that
/// is no longer than the row width scrolls nothing and leaves the cursor at
/// the string's length; a longer one scrolls exactly as often as needed —
/// the bytes fit in one more row than the scrolls made, and in no fewer.
pub proof fn lemma_write_row_accounting(v: ConsoleView, bytes: Seq<u8>)
    requires
        view_wf(v),
        v.col == 0,
        forall|i: int| 0 <= i < bytes.len() ==> is_printable(#[trigger] bytes[i]),
    ensures
        bytes.len() <= BUFFER_WIDTH ==> scroll_count_spec(v, bytes) == 0 && write_seq_spec(
            v,
            bytes,
        ).col == bytes.len(),
        bytes.len() > BUFFER_WIDTH ==> scroll_count_spec(v, bytes) * BUFFER_WIDTH < bytes.len()
            <= (scroll_count_spec(v, bytes) + 1) * BUFFER_WIDTH,
{
    lemma_printable_run(v, bytes);
}

} // verus!
