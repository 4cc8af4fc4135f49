//! The VGA text-mode screen: colours and styles, the character grid, and the
//! writer that prints bytes on the bottom line and scrolls the screen up.
use vstd::prelude::*;

verus! {

use vstd::string::StringSliceAdditionalSpecFns;

/// Number of text rows on the screen.
pub const BUFFER_HEIGHT: usize = 25;

/// Number of character cells per row.
pub const BUFFER_WIDTH: usize = 80;

/// The eight base colours of VGA text mode.
#[derive(Debug, Clone, Copy, PartialEq, Eq, Structural)]
pub enum Color {
    Black,
    Blue,
    Green,
    Cyan,
    Red,
    Magenta,
    Yellow,
    Gray,
}

/// The VGA number of a colour.
pub open spec fn color_number(c: Color) -> u8 {
    match c {
        Color::Black => 0,
        Color::Blue => 1,
        Color::Green => 2,
        Color::Cyan => 3,
        Color::Red => 4,
        Color::Magenta => 5,
        Color::Yellow => 6,
        Color::Gray => 7,
    }
}

impl Color {
    /// The VGA number of the colour, from 0 (black) to 7 (gray).
    pub fn as_u8(self) -> (r: u8)
        ensures
            r == color_number(self),
    {
        match self {
            Color::Black => 0,
            Color::Blue => 1,
            Color::Green => 2,
            Color::Cyan => 3,
            Color::Red => 4,
            Color::Magenta => 5,
            Color::Yellow => 6,
            Color::Gray => 7,
        }
    }
}

/// The attribute byte of a styled cell: foreground colour in bits 0-2, the
/// "light" flag in bit 3, background colour in bits 4-6, blinking in bit 7.
pub open spec fn style_code(fg: Color, bg: Color, light: bool, blink: bool) -> u8 {
    (color_number(bg) * 16 + color_number(fg) + (if light { 8int } else { 0int }) + (if blink {
        128int
    } else {
        0int
    })) as u8
}

/// The attribute byte of a screen cell.
#[derive(Debug, Clone, Copy, PartialEq, Eq, Structural)]
pub struct Style(u8);

/// The style of blank cells: black on black, no flags.
pub closed spec fn default_style() -> Style {
    Style(0)
}

impl Style {
    /// The attribute byte.
    pub closed spec fn code_value(self) -> u8 {
        self.0
    }

    /// The style with foreground `fg` on background `bg`, light and/or
    /// blinking as asked.
    pub fn new(fg: Color, bg: Color, light: bool, blink: bool) -> (r: Self)
        ensures
            r.code_value() == style_code(fg, bg, light, blink),
    {
        let b = bg.as_u8();
        let f = fg.as_u8();
        let mut code = b << 4 | f;
        proof {
            assert(b << 4 | f == b * 16 + f) by (bit_vector)
                requires
                    b < 8,
                    f < 8,
            ;
        }
        let ghost base = code;
        if light {
            proof {
                assert(code | 8 == code + 8) by (bit_vector)
                    requires
                        code == b * 16 + f,
                        b < 8,
                        f < 8,
                ;
                assert((1u8 << 3) == 8u8) by (bit_vector);
            }
            code |= 1u8 << 3;
        }
        assert(code == base + (if light { 8int } else { 0int }));
        if blink {
            proof {
                assert(code | 128 == code + 128) by (bit_vector)
                    requires
                        code < 128,
                ;
                assert((1u8 << 7) == 128u8) by (bit_vector);
            }
            code |= 1u8 << 7;
        }
        Style(code)
    }

    /// The attribute byte.
    pub fn code(&self) -> (r: u8)
        ensures
            r == self.code_value(),
    {
        self.0
    }
}

impl Default for Style {
    fn default() -> (r: Self)
        ensures
            r == default_style(),
            r.code_value() == 0,
    {
        Style(0)
    }
}

/// A styled character on the screen.
#[derive(Debug, Clone, Copy, PartialEq, Eq, Structural)]
pub struct ScreenChar {
    pub ch: u8,
    pub style: Style,
}

/// The character shown in a blank cell: a space in the default style.
pub open spec fn blank() -> ScreenChar {
    ScreenChar { ch: 32, style: default_style() }
}

/// Number of cells on the screen.
pub open spec fn screen_cells() -> int {
    BUFFER_HEIGHT * BUFFER_WIDTH
}

/// Index of the cell at `row`, `col` in the row-major cell sequence.
pub open spec fn cell_index(row: int, col: int) -> int {
    row * BUFFER_WIDTH + col
}

/// The screen scrolled up by one line: every row moves up, the top row is
/// lost and the bottom row becomes blank.
pub open spec fn scrolled(cells: Seq<ScreenChar>) -> Seq<ScreenChar> {
    Seq::new(
        screen_cells() as nat,
        |i: int|
            if i < cell_index(BUFFER_HEIGHT - 1, 0) {
                cells[i + BUFFER_WIDTH]
            } else {
                blank()
            },
    )
}

/// The screen after printing `byte` in `style` with the cursor in column
/// `col` of the bottom line: the new cells and the new column. A newline
/// scrolls; any other byte is put at the cursor, after scrolling first when
/// the line is full.
pub open spec fn write_byte_spec(cells: Seq<ScreenChar>, col: nat, style: Style, byte: u8) -> (Seq<
    ScreenChar,
>, nat) {
    if byte == 10 {
        (scrolled(cells), 0)
    } else {
        let (base, c) = if col >= BUFFER_WIDTH {
            (scrolled(cells), 0nat)
        } else {
            (cells, col)
        };
        (base.update(cell_index(BUFFER_HEIGHT - 1, c as int), ScreenChar { ch: byte, style }), c + 1)
    }
}

/// The byte that is printed for `byte`: printable ASCII and newline as they
/// are, anything else as the block character 0xfe.
pub open spec fn shown_byte(byte: u8) -> u8 {
    if (0x20 <= byte && byte <= 0x7e) || byte == 10 {
        byte
    } else {
        0xfe
    }
}

/// The screen after printing `bytes` one after the other.
pub open spec fn write_bytes_spec(cells: Seq<ScreenChar>, col: nat, style: Style, bytes: Seq<u8>) -> (Seq<
    ScreenChar,
>, nat)
    decreases bytes.len(),
{
    if bytes.len() == 0 {
        (cells, col)
    } else {
        let (c1, col1) = write_bytes_spec(cells, col, style, bytes.drop_last());
        write_byte_spec(c1, col1, style, shown_byte(bytes.last()))
    }
}

/// The character grid of the screen, `BUFFER_HEIGHT` rows of
/// `BUFFER_WIDTH` cells, stored row by row.
pub struct Buffer {
    chars: Vec<ScreenChar>,
}

impl Buffer {
    /// The grid always has exactly one cell per screen position.
    #[verifier::type_invariant]
    closed spec fn inv(self) -> bool {
        self.chars@.len() == screen_cells()
    }

    /// The cells, row by row.
    pub closed spec fn cells(self) -> Seq<ScreenChar> {
        self.chars@
    }

    /// A screen of blank cells.
    pub fn new() -> (r: Self)
        ensures
            r.cells() == Seq::new(screen_cells() as nat, |i: int| blank()),
    {
        let mut chars: Vec<ScreenChar> = Vec::new();
        let mut i: usize = 0;
        while i < BUFFER_HEIGHT * BUFFER_WIDTH
            invariant
                i <= screen_cells(),
                chars@ == Seq::new(i as nat, |k: int| blank()),
            decreases screen_cells() - i,
        {
            chars.push(ScreenChar { ch: 32, style: Style::default() });
            i = i + 1;
        }
        Buffer { chars }
    }

    /// The number of cells, which never changes.
    pub fn len(&self) -> (r: usize)
        ensures
            r == self.cells().len(),
            r == screen_cells(),
    {
        proof {
            use_type_invariant(self);
        }
        self.chars.len()
    }

    /// The character at `row`, `col`.
    pub fn read(&self, row: usize, col: usize) -> (r: ScreenChar)
        requires
            row < BUFFER_HEIGHT,
            col < BUFFER_WIDTH,
        ensures
            r == self.cells()[cell_index(row as int, col as int)],
    {
        proof {
            use_type_invariant(self);
        }
        self.chars[row * BUFFER_WIDTH + col]
    }

    /// Puts `ch` at `row`, `col`.
    pub fn write(&mut self, row: usize, col: usize, ch: ScreenChar)
        requires
            row < BUFFER_HEIGHT,
            col < BUFFER_WIDTH,
        ensures
            final(self).cells() == old(self).cells().update(cell_index(row as int, col as int), ch),
        no_unwind
    {
        proof {
            use_type_invariant(&*self);
        }
        self.chars[row * BUFFER_WIDTH + col] = ch;
    }
}

/// The screen with row `row` blanked and every other cell kept.
pub open spec fn row_cleared(cells: Seq<ScreenChar>, row: int) -> Seq<ScreenChar> {
    Seq::new(
        cells.len(),
        |i: int|
            if cell_index(row, 0) <= i < cell_index(row + 1, 0) {
                blank()
            } else {
                cells[i]
            },
    )
}

/// Prints bytes on the bottom line of a screen and scrolls it up as lines
/// fill or end.
pub struct Writer {
    /// Column of the next character on the bottom line.
    pub col_pos: usize,
    /// Style in which characters are printed.
    pub style: Style,
    /// The screen.
    pub vga_buf: Buffer,
}

impl Writer {
    /// Prints one byte: a newline ends the line, any other byte is put at the
    /// cursor of the bottom line, after a new line when the line is full.
    pub fn write_byte(&mut self, byte: u8)
        ensures
            ({
                let (cells, col) = write_byte_spec(
                    old(self).vga_buf.cells(),
                    old(self).col_pos as nat,
                    old(self).style,
                    byte,
                );
                &&& final(self).vga_buf.cells() == cells
                &&& final(self).col_pos == col
            }),
            final(self).style == old(self).style,
    {
        match byte {
            10 => self.new_line(),
            byte => {
                if self.col_pos >= BUFFER_WIDTH {
                    self.new_line();
                }
                let row = BUFFER_HEIGHT - 1;
                let col = self.col_pos;

                self.vga_buf.write(row, col, ScreenChar { ch: byte, style: self.style });
                self.col_pos += 1;
            },
        }
    }

    /// Prints the bytes of `bytes`, each printable ASCII byte and newline as it
    /// is and any other byte as the block character 0xfe.
    pub fn write_string(&mut self, bytes: &str)
        ensures
            ({
                let (cells, col) = write_bytes_spec(
                    old(self).vga_buf.cells(),
                    old(self).col_pos as nat,
                    old(self).style,
                    bytes.spec_bytes(),
                );
                &&& final(self).vga_buf.cells() == cells
                &&& final(self).col_pos == col
            }),
            final(self).style == old(self).style,
    {
        let bs = bytes.as_bytes();
        let mut i: usize = 0;
        while i < bs.len()
            invariant
                0 <= i <= bs@.len(),
                bs@ == bytes.spec_bytes(),
                self.style == old(self).style,
                ({
                    let (cells, col) = write_bytes_spec(
                        old(self).vga_buf.cells(),
                        old(self).col_pos as nat,
                        old(self).style,
                        bs@.subrange(0, i as int),
                    );
                    &&& self.vga_buf.cells() == cells
                    &&& self.col_pos == col
                }),
            decreases bs@.len() - i,
        {
            let byte = bs[i];
            proof {
                assert(bs@.subrange(0, i + 1).drop_last() =~= bs@.subrange(0, i as int));
                assert(bs@.subrange(0, i + 1).last() == byte);
            }
            if (0x20 <= byte && byte <= 0x7e) || byte == 10 {
                self.write_byte(byte);
            } else {
                self.write_byte(0xfe);
            }
            i = i + 1;
        }
        proof {
            assert(bs@.subrange(0, bs@.len() as int) =~= bs@);
        }
    }

    /// Moves every line up by one, blanks the bottom line and puts the cursor
    /// at its start.
    pub fn new_line(&mut self)
        ensures
            final(self).vga_buf.cells() == scrolled(old(self).vga_buf.cells()),
            final(self).col_pos == 0,
            final(self).style == old(self).style,
    {
        let len = self.vga_buf.len();
        let ghost old_cells = self.vga_buf.cells();
        for row in 1..BUFFER_HEIGHT
            invariant
                self.vga_buf.cells().len() == screen_cells(),
                old_cells == old(self).vga_buf.cells(),
                old_cells.len() == screen_cells(),
                self.style == old(self).style,
                forall|k: int|
                    0 <= k < cell_index(row - 1, 0) ==> self.vga_buf.cells()[k] == old_cells[k
                        + BUFFER_WIDTH],
                forall|k: int|
                    cell_index(row - 1, 0) <= k < screen_cells() ==> self.vga_buf.cells()[k]
                        == old_cells[k],
        {
            for col in 0..BUFFER_WIDTH
                invariant
                    1 <= row < BUFFER_HEIGHT,
                    self.vga_buf.cells().len() == screen_cells(),
                    old_cells.len() == screen_cells(),
                    self.style == old(self).style,
                    forall|k: int|
                        0 <= k < cell_index(row - 1, col as int) ==> self.vga_buf.cells()[k]
                            == old_cells[k + BUFFER_WIDTH],
                    forall|k: int|
                        cell_index(row - 1, col as int) <= k < screen_cells()
                            ==> self.vga_buf.cells()[k] == old_cells[k],
            {
                let ch = self.vga_buf.read(row, col);
                self.vga_buf.write(row - 1, col, ch);
            }
        }
        self.clear_row(BUFFER_HEIGHT - 1);
        self.col_pos = 0;
        proof {
            assert(self.vga_buf.cells() =~= scrolled(old_cells));
        }
    }

    /// Blanks row `row`.
    fn clear_row(&mut self, row: usize)
        requires
            row < BUFFER_HEIGHT,
        ensures
            final(self).vga_buf.cells() == row_cleared(old(self).vga_buf.cells(), row as int),
            final(self).col_pos == old(self).col_pos,
            final(self).style == old(self).style,
    {
        let len = self.vga_buf.len();
        let ghost old_cells = self.vga_buf.cells();
        for col in 0..BUFFER_WIDTH
            invariant
                row < BUFFER_HEIGHT,
                old_cells == old(self).vga_buf.cells(),
                old_cells.len() == screen_cells(),
                self.col_pos == old(self).col_pos,
                self.style == old(self).style,
                self.vga_buf.cells() == Seq::new(
                    old_cells.len(),
                    |i: int|
                        if cell_index(row as int, 0) <= i < cell_index(row as int, col as int) {
                            blank()
                        } else {
                            old_cells[i]
                        },
                ),
        {
            self.vga_buf.write(row, col, ScreenChar { ch: 32, style: Style::default() });
            proof {
                assert(self.vga_buf.cells() =~= Seq::new(
                    old_cells.len(),
                    |i: int|
                        if cell_index(row as int, 0) <= i < cell_index(row as int, col + 1) {
                            blank()
                        } else {
                            old_cells[i]
                        },
                ));
            }
        }
        proof {
            assert(self.vga_buf.cells() =~= row_cleared(old_cells, row as int));
        }
    }
}

/// A byte other than newline printed with the cursor inside the bottom line
/// lands at the cursor in the current style, the cursor moves one column to
/// the right, and no other cell changes.
pub proof fn lemma_byte_lands_at_cursor(cells: Seq<ScreenChar>, col: nat, style: Style, byte: u8)
    requires
        byte != 10,
        col < BUFFER_WIDTH,
    ensures
        ({
            let (new_cells, new_col) = write_byte_spec(cells, col, style, byte);
            &&& new_col == col + 1
            &&& new_cells == cells.update(cell_index(BUFFER_HEIGHT - 1, col as int), ScreenChar { ch: byte, style })
        }),
{
}

/// The cursor never moves past the end of the bottom line, whatever is
/// printed.
pub proof fn lemma_cursor_stays_on_line(cells: Seq<ScreenChar>, col: nat, style: Style, bytes: Seq<u8>)
    requires
        bytes.len() > 0,
    ensures
        write_bytes_spec(cells, col, style, bytes).1 <= BUFFER_WIDTH,
    decreases bytes.len(),
{
}

/// Printing never changes the size of the screen.
pub proof fn lemma_screen_size_kept(cells: Seq<ScreenChar>, col: nat, style: Style, bytes: Seq<u8>)
    requires
        cells.len() == screen_cells(),
    ensures
        write_bytes_spec(cells, col, style, bytes).0.len() == screen_cells(),
    decreases bytes.len(),
{
    if bytes.len() > 0 {
        lemma_screen_size_kept(cells, col, style, bytes.drop_last());
    }
}

/// Printing two pieces one after the other shows the same screen, with the
/// cursor in the same place, as printing them joined in one go.
pub proof fn lemma_write_in_pieces(
    cells: Seq<ScreenChar>,
    col: nat,
    style: Style,
    first: Seq<u8>,
    second: Seq<u8>,
)
    ensures
        ({
            let (cells1, col1) = write_bytes_spec(cells, col, style, first);
            write_bytes_spec(cells1, col1, style, second)
        }) == write_bytes_spec(cells, col, style, first + second),
    decreases second.len(),
{
    if second.len() == 0 {
        assert(first + second =~= first);
    } else {
        lemma_write_in_pieces(cells, col, style, first, second.drop_last());
        assert((first + second).drop_last() =~= first + second.drop_last());
        assert((first + second).last() == second.last());
    }
}

/// A newline moves every line up by one: after it, each row shows what the
/// row below it showed, and the bottom row is blank with the cursor at its
/// start.
pub proof fn lemma_newline_scrolls(cells: Seq<ScreenChar>, col: nat, style: Style, row: int, c: int)
    requires
        cells.len() == screen_cells(),
        0 <= row < BUFFER_HEIGHT,
        0 <= c < BUFFER_WIDTH,
    ensures
        ({
            let (new_cells, new_col) = write_byte_spec(cells, col, style, 10);
            &&& new_col == 0
            &&& new_cells[cell_index(row, c)] == (if row < BUFFER_HEIGHT - 1 {
                cells[cell_index(row + 1, c)]
            } else {
                blank()
            })
        }),
{
}

/// A style is its attribute byte: two styles with the same byte are equal.
/// So `Style::default()` is `Style::new(Color::Black, Color::Black, false,
/// false)`, whose byte is 0 as well.
pub proof fn lemma_style_is_its_code(a: Style, b: Style)
    requires
        a.code_value() == b.code_value(),
    ensures
        a == b,
{
}

/// The default style is black on black with no flags.
pub proof fn lemma_default_style_code()
    ensures
        default_style().code_value() == style_code(Color::Black, Color::Black, false, false),
{
}

/// The screen scrolled up `k` times.
pub open spec fn scrolled_times(cells: Seq<ScreenChar>, k: nat) -> Seq<ScreenChar>
    decreases k,
{
    if k == 0 {
        cells
    } else {
        scrolled(scrolled_times(cells, (k - 1) as nat))
    }
}

/// Scrolling `k` times (as `k` calls of `Writer::new_line` do) moves every
/// row up by `k`: a row shows what the row `k` below it showed, and the
/// bottom `k` rows are blank; from 25 calls on the whole screen is blank.
pub proof fn lemma_scrolled_times(cells: Seq<ScreenChar>, k: nat, row: int, col: int)
    requires
        cells.len() == screen_cells(),
        0 <= row < BUFFER_HEIGHT,
        0 <= col < BUFFER_WIDTH,
    ensures
        scrolled_times(cells, k).len() == screen_cells(),
        scrolled_times(cells, k)[cell_index(row, col)] == (if row + k < BUFFER_HEIGHT {
            cells[cell_index(row + k, col)]
        } else {
            blank()
        }),
    decreases k,
{
    if k > 0 {
        lemma_scrolled_times(cells, (k - 1) as nat, row, col);
        if row + 1 < BUFFER_HEIGHT {
            lemma_scrolled_times(cells, (k - 1) as nat, row + 1, col);
        }
    }
}

/// Calling `Writer::new_line` `k` times in a row scrolls the screen `k`
/// times: when each screen in `screens` is the one before it scrolled, as
/// `new_line` ensures, the last one is the first scrolled `k` times, so by
/// `lemma_scrolled_times` it shows the rows `k` further down, and is blank
/// from 25 calls on.
pub proof fn lemma_new_lines_in_a_row(screens: Seq<Seq<ScreenChar>>, k: nat)
    requires
        screens.len() == k + 1,
        forall|t: int| 0 <= t < k ==> #[trigger] screens[t + 1] == scrolled(screens[t]),
    ensures
        screens[k as int] == scrolled_times(screens[0], k),
    decreases k,
{
    if k > 0 {
        let shorter = screens.subrange(0, k as int);
        assert forall|t: int| 0 <= t < k - 1 implies #[trigger] shorter[t + 1] == scrolled(shorter[t]) by {
            assert(shorter[t + 1] == screens[t + 1]);
            assert(shorter[t] == screens[t]);
        }
        lemma_new_lines_in_a_row(shorter, (k - 1) as nat);
        assert(screens[k as int] == scrolled(screens[k - 1]));
    }
}

/// A printable ASCII byte (0x20 to 0x7e, the space included) or a newline
/// given to `write_string` is printed exactly as `write_byte` prints it:
/// only other bytes are replaced.
pub proof fn lemma_string_prints_printable_bytes_as_they_are(
    cells: Seq<ScreenChar>,
    col: nat,
    style: Style,
    byte: u8,
)
    requires
        (0x20 <= byte && byte <= 0x7e) || byte == 10,
    ensures
        write_bytes_spec(cells, col, style, seq![byte]) == write_byte_spec(cells, col, style, byte),
{
    assert(seq![byte].drop_last() =~= Seq::<u8>::empty());
    assert(seq![byte].last() == byte);
    assert(write_bytes_spec(cells, col, style, Seq::<u8>::empty()) == (cells, col));
}

/// Any other byte given to `write_string` is printed as the block
/// character 0xfe.
pub proof fn lemma_string_prints_other_bytes_as_block(cells: Seq<ScreenChar>, col: nat, style: Style, byte: u8)
    requires
        !((0x20 <= byte && byte <= 0x7e) || byte == 10),
    ensures
        write_bytes_spec(cells, col, style, seq![byte]) == write_byte_spec(cells, col, style, 0xfe),
{
    assert(seq![byte].drop_last() =~= Seq::<u8>::empty());
    assert(seq![byte].last() == byte);
    assert(write_bytes_spec(cells, col, style, Seq::<u8>::empty()) == (cells, col));
}

/// A run of printable ASCII bytes (spaces included) that fits on the bottom
/// line after the cursor shows up there byte for byte, in the writer's
/// style, the cursor moves past it, and no other cell changes.
pub proof fn lemma_printable_run_shown_on_bottom_line(
    cells: Seq<ScreenChar>,
    col: nat,
    style: Style,
    bytes: Seq<u8>,
)
    requires
        cells.len() == screen_cells(),
        col + bytes.len() <= BUFFER_WIDTH,
        forall|j: int| 0 <= j < bytes.len() ==> 0x20 <= #[trigger] bytes[j] <= 0x7e,
    ensures
        ({
            let (new_cells, new_col) = write_bytes_spec(cells, col, style, bytes);
            &&& new_col == col + bytes.len()
            &&& new_cells.len() == screen_cells()
            &&& forall|j: int|
                0 <= j < bytes.len() ==> new_cells[cell_index(BUFFER_HEIGHT - 1, col + j)] == ScreenChar {
                    ch: bytes[j],
                    style,
                }
            &&& forall|k: int|
                0 <= k < screen_cells() && !(cell_index(BUFFER_HEIGHT - 1, col as int) <= k < cell_index(
                    BUFFER_HEIGHT - 1,
                    (col + bytes.len()) as int,
                )) ==> new_cells[k] == cells[k]
        }),
    decreases bytes.len(),
{
    if bytes.len() > 0 {
        let front = bytes.drop_last();
        assert forall|j: int| 0 <= j < front.len() implies 0x20 <= #[trigger] front[j] <= 0x7e by {
            assert(front[j] == bytes[j]);
        }
        lemma_printable_run_shown_on_bottom_line(cells, col, style, front);
        let last = bytes.last();
        assert(last == bytes[bytes.len() - 1]);
        assert forall|j: int| 0 <= j < front.len() implies front[j] == bytes[j] by {}
    }
}

/// A byte other than newline printed with the bottom line full is the same as
/// a newline followed by that byte: the whole screen moves up one line first.
pub proof fn lemma_full_line_wraps_like_newline(cells: Seq<ScreenChar>, col: nat, style: Style, byte: u8)
    requires
        byte != 10,
        col >= BUFFER_WIDTH,
    ensures
        ({
            let (after_newline, newline_col) = write_byte_spec(cells, col, style, 10);
            write_byte_spec(cells, col, style, byte) == write_byte_spec(after_newline, newline_col, style, byte)
        }),
{
}

/// Printing a byte other than newline on a full bottom line moves every row
/// up by one (the top row is lost), puts the byte in the first column of a
/// fresh bottom line, leaves the rest of that line blank, and puts the
/// cursor right after the byte.
pub proof fn lemma_full_line_scrolls_whole_screen(
    cells: Seq<ScreenChar>,
    col: nat,
    style: Style,
    byte: u8,
    row: int,
    c: int,
)
    requires
        cells.len() == screen_cells(),
        byte != 10,
        col >= BUFFER_WIDTH,
        0 <= row < BUFFER_HEIGHT,
        0 <= c < BUFFER_WIDTH,
    ensures
        ({
            let (new_cells, new_col) = write_byte_spec(cells, col, style, byte);
            &&& new_col == 1
            &&& new_cells[cell_index(row, c)] == (if row < BUFFER_HEIGHT - 1 {
                cells[cell_index(row + 1, c)]
            } else if c == 0 {
                ScreenChar { ch: byte, style }
            } else {
                blank()
            })
        }),
{
}

/// The attribute byte keeps every part of a style apart: the foreground
/// colour, the background colour and both flags can be read back from it.
pub proof fn lemma_style_code_fields(fg: Color, bg: Color, light: bool, blink: bool)
    ensures
        style_code(fg, bg, light, blink) & 7 == color_number(fg),
        (style_code(fg, bg, light, blink) >> 4u8) & 7 == color_number(bg),
        (style_code(fg, bg, light, blink) & 8 != 0) == light,
        (style_code(fg, bg, light, blink) & 128 != 0) == blink,
{
    let f = color_number(fg);
    let b = color_number(bg);
    let c = style_code(fg, bg, light, blink);
    assert(c & 7 == f && (c >> 4u8) & 7 == b && (c & 8 != 0) == light && (c & 128 != 0) == blink)
        by (bit_vector)
        requires
            f < 8,
            b < 8,
            c == b * 16 + f + (if light { 8u8 } else { 0u8 }) + (if blink { 128u8 } else { 0u8 }),
    ;
}

/// Different styles have different attribute bytes.
pub proof fn lemma_style_code_injective(
    fg1: Color,
    bg1: Color,
    light1: bool,
    blink1: bool,
    fg2: Color,
    bg2: Color,
    light2: bool,
    blink2: bool,
)
    requires
        style_code(fg1, bg1, light1, blink1) == style_code(fg2, bg2, light2, blink2),
    ensures
        fg1 == fg2,
        bg1 == bg2,
        light1 == light2,
        blink1 == blink2,
{
    lemma_style_code_fields(fg1, bg1, light1, blink1);
    lemma_style_code_fields(fg2, bg2, light2, blink2);
}

} // verus!
