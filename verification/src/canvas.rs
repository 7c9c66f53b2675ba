//! A canvas: a grid of colors, addressed by column `x` and row `y`, and its
//! text in the plain PPM format.
use crate::color::{channel_byte, Color, ColorView};
use crate::scalar::Scalar;
use crate::text::{decimal, push_decimal};
use vstd::prelude::*;
use vstd::string::StringExecFns;

verus! {

/// A canvas as mathematics: its size and its pixels, row after row, the top
/// row first and each row from left to right.
pub struct CanvasView {
    pub width: nat,
    pub height: nat,
    pub pixels: Seq<ColorView>,
}

/// Black: all three channels zero.
pub open spec fn black() -> ColorView {
    ColorView { red: 0, green: 0, blue: 0 }
}

/// The text of one pixel: its three channel bytes in decimal, red, green and
/// blue, with one space between them.
pub open spec fn pixel_text(c: ColorView) -> Seq<char> {
    decimal(channel_byte(c.red) as nat) + seq![' '] + decimal(channel_byte(c.green) as nat)
        + seq![' '] + decimal(channel_byte(c.blue) as nat)
}

/// Channel `i` of a color: red, green and blue are channels 0, 1 and 2.
pub open spec fn channel(c: ColorView, i: int) -> int {
    if i == 0 {
        c.red
    } else if i == 1 {
        c.green
    } else {
        c.blue
    }
}

impl CanvasView {
    /// There is one pixel for every cell of the grid.
    pub open spec fn wf(self) -> bool {
        self.pixels.len() == self.width * self.height
    }

    /// The canvas of the given size with every pixel black.
    pub open spec fn blank(width: nat, height: nat) -> CanvasView {
        CanvasView { width, height, pixels: Seq::new(width * height, |i: int| black()) }
    }

    /// Whether column `x` of row `y` is a cell of the canvas.
    pub open spec fn in_bounds(self, x: int, y: int) -> bool {
        0 <= x < self.width && 0 <= y < self.height
    }

    /// The pixel in column `x` of row `y`.
    pub open spec fn pixel(self, x: int, y: int) -> ColorView
        recommends
            self.in_bounds(x, y),
    {
        self.pixels[y * self.width + x]
    }

    /// The canvas with the pixel in column `x` of row `y` replaced.
    pub open spec fn with_pixel(self, x: int, y: int, c: ColorView) -> CanvasView
        recommends
            self.in_bounds(x, y),
    {
        CanvasView {
            width: self.width,
            height: self.height,
            pixels: self.pixels.update(y * self.width + x, c),
        }
    }

    /// The header: the magic word, the size, and the largest channel value,
    /// each on a line of its own.
    pub open spec fn header_text(self) -> Seq<char> {
        seq!['P', '3', '\n'] + decimal(self.width) + seq![' '] + decimal(self.height) + seq!['\n']
            + seq!['2', '5', '5', '\n']
    }

    /// The first `k` pixels of row `y`, with one space between neighbours.
    pub open spec fn row_prefix(self, y: int, k: int) -> Seq<char>
        decreases k,
    {
        if k <= 0 {
            Seq::empty()
        } else if k == 1 {
            pixel_text(self.pixel(0, y))
        } else {
            self.row_prefix(y, k - 1) + seq![' '] + pixel_text(self.pixel(k - 1, y))
        }
    }

    /// The line of row `y`: all its pixels, then a newline.
    pub open spec fn row_text(self, y: int) -> Seq<char> {
        self.row_prefix(y, self.width as int) + seq!['\n']
    }

    /// The lines of the first `k` rows.
    pub open spec fn rows_text(self, k: int) -> Seq<char>
        decreases k,
    {
        if k <= 0 {
            Seq::empty()
        } else {
            self.rows_text(k - 1) + self.row_text(k - 1)
        }
    }

    /// The whole image as plain PPM text: the header, then one line for
    /// every row.
    pub open spec fn ppm_text(self) -> Seq<char> {
        self.header_text() + self.rows_text(self.height as int)
    }

    /// Number `k` of row `y`: the row holds three numbers for every pixel,
    /// the bytes of its red, green and blue channels.
    pub open spec fn number_text(self, y: int, k: int) -> Seq<char> {
        decimal(channel_byte(channel(self.pixel(k / 3, y), k % 3)) as nat)
    }

    /// How many characters stand on the last line once the first `k` numbers
    /// of row `y` are laid out on lines of at most `limit` characters. A
    /// number joins the line of the number before it where the line stays
    /// within the limit, and starts a new line where it does not.
    pub open spec fn line_fill(self, y: int, k: int, limit: int) -> int
        decreases k,
    {
        if k <= 0 {
            0
        } else {
            let before = self.line_fill(y, k - 1, limit);
            let next = self.number_text(y, k - 1).len() as int;
            if k > 1 && before + 1 + next <= limit {
                before + 1 + next
            } else {
                next
            }
        }
    }

    /// Whether number `k` of row `y` joins the line of the number before it.
    pub open spec fn joins_line(self, y: int, k: int, limit: int) -> bool {
        k >= 1 && self.line_fill(y, k, limit) + 1 + self.number_text(y, k).len() <= limit
    }

    /// What stands before number `k` of row `y`: nothing before the first
    /// number, a space before a number that joins a line, a newline before
    /// one that starts a new line.
    pub open spec fn separator(self, y: int, k: int, limit: int) -> Seq<char> {
        if k <= 0 {
            Seq::empty()
        } else if self.joins_line(y, k, limit) {
            seq![' ']
        } else {
            seq!['\n']
        }
    }

    /// The first `k` numbers of row `y` on lines of at most `limit`
    /// characters.
    pub open spec fn wrapped_prefix(self, y: int, k: int, limit: int) -> Seq<char>
        decreases k,
    {
        if k <= 0 {
            Seq::empty()
        } else {
            self.wrapped_prefix(y, k - 1, limit) + self.separator(y, k - 1, limit)
                + self.number_text(y, k - 1)
        }
    }

    /// The lines of row `y`, none longer than `limit` characters unless a
    /// single number is, with a newline after the last.
    pub open spec fn wrapped_row_text(self, y: int, limit: int) -> Seq<char> {
        self.wrapped_prefix(y, 3 * (self.width as int), limit) + seq!['\n']
    }

    /// The wrapped lines of the first `k` rows.
    pub open spec fn wrapped_rows_text(self, k: int, limit: int) -> Seq<char>
        decreases k,
    {
        if k <= 0 {
            Seq::empty()
        } else {
            self.wrapped_rows_text(k - 1, limit) + self.wrapped_row_text(k - 1, limit)
        }
    }

    /// The whole image as plain PPM text with long rows wrapped: the
    /// header, then the wrapped lines of every row. Every row starts on a
    /// new line.
    pub open spec fn wrapped_ppm_text(self, limit: int) -> Seq<char> {
        self.header_text() + self.wrapped_rows_text(self.height as int, limit)
    }
}

/// A grid of colors.
#[derive(Debug)]
pub struct Canvas {
    width: usize,
    height: usize,
    cells: Vec<Color>,
}

impl View for Canvas {
    type V = CanvasView;

    closed spec fn view(&self) -> CanvasView {
        CanvasView {
            width: self.width as nat,
            height: self.height as nat,
            pixels: Seq::new(self.cells@.len(), |i: int| self.cells@[i]@),
        }
    }
}

proof fn lemma_cell_index(x: int, y: int, width: int, height: int)
    by (nonlinear_arith)
    requires
        0 <= x < width,
        0 <= y < height,
    ensures
        0 <= y * width,
        0 <= y * width + x < width * height,
{
}

impl Canvas {
    #[verifier::type_invariant]
    spec fn inv(&self) -> bool {
        self.cells.len() == self.width * self.height
    }

    /// A canvas of the given size with every pixel black.
    pub fn new(width: usize, height: usize) -> (canvas: Canvas)
        requires
            width * height <= usize::MAX,
        ensures
            canvas@ == CanvasView::blank(width as nat, height as nat),
    {
        let count: usize = width * height;
        let zero = Scalar::zero();
        let mut cells: Vec<Color> = Vec::with_capacity(count);
        let mut i: usize = 0;
        while i < count
            invariant
                i <= count,
                cells@.len() == i,
                zero@ == 0,
                forall|k: int| 0 <= k < i ==> (#[trigger] cells@[k])@ == black(),
            decreases count - i,
        {
            cells.push(Color::new(zero, zero, zero));
            i += 1;
        }
        let canvas = Canvas { width, height, cells };
        assert(canvas@.pixels =~= CanvasView::blank(width as nat, height as nat).pixels);
        canvas
    }

    /// The number of columns.
    pub fn width(&self) -> (w: usize)
        ensures
            w == self@.width,
            self@.wf(),
    {
        proof {
            use_type_invariant(self);
        }
        self.width
    }

    /// The number of rows.
    pub fn height(&self) -> (h: usize)
        ensures
            h == self@.height,
            self@.wf(),
    {
        proof {
            use_type_invariant(self);
        }
        self.height
    }

    /// Whether column `x` of row `y` is a cell of this canvas.
    pub fn is_in_bounds(&self, x: usize, y: usize) -> (r: bool)
        ensures
            r == self@.in_bounds(x as int, y as int),
    {
        x < self.width && y < self.height
    }

    /// The color in column `x` of row `y`.
    pub fn get(&self, x: usize, y: usize) -> (c: Color)
        requires
            self@.in_bounds(x as int, y as int),
        ensures
            c@ == self@.pixel(x as int, y as int),
    {
        proof {
            use_type_invariant(self);
            lemma_cell_index(x as int, y as int, self.width as int, self.height as int);
        }
        self.cells[y * self.width + x]
    }

    /// Replaces the color in column `x` of row `y`; every other pixel stays.
    pub fn set(&mut self, x: usize, y: usize, color: Color)
        requires
            old(self)@.in_bounds(x as int, y as int),
        ensures
            final(self)@ == old(self)@.with_pixel(x as int, y as int, color@),
    {
        proof {
            use_type_invariant(&*self);
            lemma_cell_index(x as int, y as int, self.width as int, self.height as int);
        }
        let i: usize = y * self.width + x;
        self.cells[i] = color;
        assert(self@.pixels =~= old(self)@.with_pixel(x as int, y as int, color@).pixels);
    }

    /// Appends channel `c` of the pixel in column `x` of row `y` to a
    /// wrapped row. `fill` counts the characters on the last line.
    fn push_number(
        &self,
        out: &mut String,
        fill: &mut usize,
        x: usize,
        y: usize,
        c: usize,
        limit: usize,
    )
        requires
            self@.in_bounds(x as int, y as int),
            c < 3,
            *old(fill) == self@.line_fill(y as int, 3 * x + c, limit as int),
            *old(fill) <= limit || *old(fill) <= 3,
        ensures
            final(out)@ == old(out)@ + self@.separator(y as int, 3 * x + c, limit as int)
                + self@.number_text(y as int, 3 * x + c),
            *final(fill) == self@.line_fill(y as int, 3 * x + c + 1, limit as int),
            *final(fill) <= limit || *final(fill) <= 3,
    {
        proof {
            reveal_strlit(" ");
            reveal_strlit("\n");
        }
        let pixel = self.get(x, y);
        let byte = if c == 0 {
            pixel.red_u8()
        } else if c == 1 {
            pixel.green_u8()
        } else {
            pixel.blue_u8()
        };
        let ghost k = 3 * x + c;
        assert(self@.number_text(y as int, k) == decimal(byte as nat));
        let len = digits(byte);
        if x == 0 && c == 0 {
            *fill = len;
        } else if len < limit && *fill <= limit - 1 - len {
            out.append(" ");
            *fill = *fill + 1 + len;
        } else {
            out.append("\n");
            *fill = len;
        }
        push_decimal(out, byte as u64);
        assert(out@ =~= old(out)@ + self@.separator(y as int, k, limit as int)
            + self@.number_text(y as int, k));
    }

    /// The image as plain PPM text with long rows wrapped: no line holds
    /// more than `limit` characters, unless a single number does.
    pub fn to_ppm_wrapped(&self, limit: usize) -> (text: String)
        ensures
            text@ == self@.wrapped_ppm_text(limit as int),
    {
        let mut s = self.header();
        let mut y: usize = 0;
        while y < self.height
            invariant
                y <= self.height,
                s@ == self@.header_text() + self@.wrapped_rows_text(y as int, limit as int),
            decreases self.height - y,
        {
            let ghost before = s@;
            let mut fill: usize = 0;
            let mut x: usize = 0;
            while x < self.width
                invariant
                    x <= self.width,
                    y < self.height,
                    before == self@.header_text() + self@.wrapped_rows_text(
                        y as int,
                        limit as int,
                    ),
                    s@ == before + self@.wrapped_prefix(y as int, 3 * x, limit as int),
                    fill == self@.line_fill(y as int, 3 * x, limit as int),
                    fill <= limit || fill <= 3,
                decreases self.width - x,
            {
                let mut c: usize = 0;
                while c < 3
                    invariant
                        c <= 3,
                        x < self.width,
                        y < self.height,
                        s@ == before + self@.wrapped_prefix(y as int, 3 * x + c, limit as int),
                        fill == self@.line_fill(y as int, 3 * x + c, limit as int),
                        fill <= limit || fill <= 3,
                    decreases 3 - c,
                {
                    self.push_number(&mut s, &mut fill, x, y, c, limit);
                    c += 1;
                    assert(s@ =~= before + self@.wrapped_prefix(
                        y as int,
                        3 * x + c,
                        limit as int,
                    ));
                }
                x += 1;
            }
            proof {
                reveal_strlit("\n");
            }
            s.append("\n");
            y += 1;
            assert(s@ =~= self@.header_text() + self@.wrapped_rows_text(y as int, limit as int))
                by {
                assert(self@.wrapped_rows_text(y as int, limit as int) == self@.wrapped_rows_text(
                    y - 1,
                    limit as int,
                ) + self@.wrapped_row_text(y - 1, limit as int));
            }
        }
        s
    }

    fn push_pixel(&self, out: &mut String, x: usize, y: usize)
        requires
            self@.in_bounds(x as int, y as int),
        ensures
            final(out)@ == old(out)@ + pixel_text(self@.pixel(x as int, y as int)),
    {
        proof {
            reveal_strlit(" ");
        }
        let pixel = self.get(x, y);
        push_decimal(out, pixel.red_u8() as u64);
        out.append(" ");
        push_decimal(out, pixel.green_u8() as u64);
        out.append(" ");
        push_decimal(out, pixel.blue_u8() as u64);
        assert(out@ =~= old(out)@ + pixel_text(self@.pixel(x as int, y as int)));
    }

    fn header(&self) -> (text: String)
        ensures
            text@ == self@.header_text(),
    {
        proof {
            reveal_strlit("P3\n");
            reveal_strlit(" ");
            reveal_strlit("\n");
            reveal_strlit("255\n");
        }
        let mut s = String::new();
        s.append("P3\n");
        push_decimal(&mut s, self.width as u64);
        s.append(" ");
        push_decimal(&mut s, self.height as u64);
        s.append("\n");
        s.append("255\n");
        assert(s@ =~= self@.header_text());
        s
    }

    /// The image as plain PPM text, one line for every row however long.
    pub fn to_ppm(&self) -> (text: String)
        ensures
            text@ == self@.ppm_text(),
    {
        let mut s = self.header();

        let mut y: usize = 0;
        while y < self.height
            invariant
                y <= self.height,
                s@ == self@.header_text() + self@.rows_text(y as int),
            decreases self.height - y,
        {
            let ghost before = s@;
            let mut x: usize = 0;
            while x < self.width
                invariant
                    x <= self.width,
                    y < self.height,
                    before == self@.header_text() + self@.rows_text(y as int),
                    s@ == before + self@.row_prefix(y as int, x as int),
                decreases self.width - x,
            {
                proof {
                    reveal_strlit(" ");
                }
                let ghost row = self@.row_prefix(y as int, x as int);
                if x > 0 {
                    s.append(" ");
                }
                self.push_pixel(&mut s, x, y);
                x += 1;
                assert(s@ =~= before + self@.row_prefix(y as int, x as int)) by {
                    let next = pixel_text(self@.pixel(x - 1, y as int));
                    if x == 1 {
                        assert(row =~= Seq::<char>::empty());
                        assert(self@.row_prefix(y as int, 1) == next);
                    } else {
                        assert(self@.row_prefix(y as int, x as int) == row + seq![' '] + next);
                    }
                }
            }
            proof {
                reveal_strlit("\n");
            }
            s.append("\n");
            y += 1;
            assert(s@ =~= self@.header_text() + self@.rows_text(y as int)) by {
                assert(self@.rows_text(y as int) == self@.rows_text(y - 1) + self@.row_text(
                    y - 1,
                ));
            }
        }
        s
    }
}

fn digits(byte: u8) -> (n: usize)
    ensures
        n == decimal(byte as nat).len(),
        1 <= n <= 3,
{
    reveal_with_fuel(decimal, 3);
    if byte < 10 {
        1
    } else if byte < 100 {
        2
    } else {
        3
    }
}

/// The text of a canvas depends on its state alone: whenever two canvases
/// hold the same pixels in the same grid, serializing them gives the same
/// text, character for character, wrapped or not. In particular
/// serializing one canvas twice gives the same text twice.
pub proof fn lemma_ppm_text_repeats(first: Canvas, second: Canvas)
    requires
        first@ == second@,
    ensures
        first@.ppm_text() == second@.ppm_text(),
        forall|limit: int| first@.wrapped_ppm_text(limit) == second@.wrapped_ppm_text(limit),
{
}

/// No line of a wrapped row is longer than the limit, unless it holds a
/// single number: after any count of numbers the last line either fits the
/// limit or holds the last number alone.
pub proof fn lemma_wrapped_lines_fit(canvas: Canvas, y: int, k: int, limit: int)
    requires
        k >= 1,
    ensures
        canvas@.line_fill(y, k, limit) <= limit || canvas@.line_fill(y, k, limit)
            == canvas@.number_text(y, k - 1).len(),
{
}

proof fn lemma_number_is_short(v: CanvasView, y: int, k: int)
    ensures
        1 <= v.number_text(y, k).len() <= 3,
{
    reveal_with_fuel(decimal, 3);
}

proof fn lemma_wide_line_takes_all(v: CanvasView, y: int, k: int, limit: int)
    requires
        0 <= k,
        4 * k <= limit + 1,
    ensures
        k >= 1 ==> 1 <= v.line_fill(y, k, limit) <= 4 * k - 1,
        forall|j: int| 1 <= j < k ==> v.joins_line(y, j, limit),
    decreases k,
{
    if k >= 1 {
        lemma_wide_line_takes_all(v, y, k - 1, limit);
        lemma_number_is_short(v, y, k - 1);
        if k >= 2 {
            assert(v.joins_line(y, k - 1, limit));
        }
    }
}

proof fn lemma_wide_row_prefix(v: CanvasView, y: int, x: int, limit: int)
    requires
        0 <= x,
        12 * x <= limit + 1,
    ensures
        v.wrapped_prefix(y, 3 * x, limit) == v.row_prefix(y, x),
    decreases x,
{
    if x >= 1 {
        let k = 3 * (x - 1);
        lemma_wide_row_prefix(v, y, x - 1, limit);
        lemma_wide_line_takes_all(v, y, 3 * x, limit);
        let p = v.pixel(x - 1, y);
        assert(v.number_text(y, k) == decimal(channel_byte(p.red) as nat));
        assert(v.number_text(y, k + 1) == decimal(channel_byte(p.green) as nat));
        assert(v.number_text(y, k + 2) == decimal(channel_byte(p.blue) as nat));
        assert(v.separator(y, k + 1, limit) == seq![' ']);
        assert(v.separator(y, k + 2, limit) == seq![' ']);
        assert(v.wrapped_prefix(y, k + 1, limit) == v.wrapped_prefix(y, k, limit) + v.separator(
            y,
            k,
            limit,
        ) + v.number_text(y, k));
        assert(v.wrapped_prefix(y, k + 2, limit) == v.wrapped_prefix(y, k + 1, limit)
            + v.separator(y, k + 1, limit) + v.number_text(y, k + 1));
        assert(v.wrapped_prefix(y, k + 3, limit) == v.wrapped_prefix(y, k + 2, limit)
            + v.separator(y, k + 2, limit) + v.number_text(y, k + 2));
        if x == 1 {
            assert(v.wrapped_prefix(y, 0, limit) =~= Seq::<char>::empty());
            assert(v.separator(y, 0, limit) =~= Seq::<char>::empty());
            assert(v.wrapped_prefix(y, 3, limit) =~= pixel_text(p));
        } else {
            assert(v.separator(y, k, limit) == seq![' ']);
            assert(v.row_prefix(y, x) == v.row_prefix(y, x - 1) + seq![' '] + pixel_text(p));
            assert(v.wrapped_prefix(y, 3 * x, limit) =~= v.row_prefix(y, x - 1) + seq![' ']
                + pixel_text(p));
        }
    }
}

proof fn lemma_wide_rows(v: CanvasView, k: int, limit: int)
    requires
        12 * v.width <= limit + 1,
    ensures
        v.wrapped_rows_text(k, limit) == v.rows_text(k),
    decreases k,
{
    if k > 0 {
        lemma_wide_rows(v, k - 1, limit);
        lemma_wide_row_prefix(v, k - 1, v.width as int, limit);
    }
}

/// Where the limit leaves room for a whole row, wrapping changes nothing:
/// with twelve characters for every pixel, less the one that the last pixel
/// does not need, the wrapped text is the text with one line for every row.
pub proof fn lemma_wide_limit_does_not_wrap(canvas: Canvas, limit: usize)
    requires
        12 * canvas@.width <= limit + 1,
    ensures
        canvas@.wrapped_ppm_text(limit as int) == canvas@.ppm_text(),
{
    lemma_wide_rows(canvas@, canvas@.height as int, limit as int);
}

} // verus!
