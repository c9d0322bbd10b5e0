//! SSD1306 128x64 OLED driver: a framebuffer with pixel and text drawing, and the
//! command sequences that initialise the panel and push the framebuffer to it.
//!
//! The bus is left to the firmware: `init` and `flush` name, one at a time, the
//! writes to perform and are told the outcome of each.
use vstd::prelude::*;
use vstd::string::StringSliceAdditionalSpecFns;
use crate::font::FONT_5X7;

verus! {

/// I2C address of the panel.
pub const DEVICE_ADDRESS: u8 = 0x3C;
/// Width of the panel in pixels.
pub const WIDTH: usize = 128;
/// Height of the panel in pixels.
pub const HEIGHT: usize = 64;
/// Control byte that precedes a command.
pub const COMMAND_CONTROL: u8 = 0x00;
/// Control byte that precedes display data.
pub const DATA_CONTROL: u8 = 0x40;

/// Commands sent by `init`, in order: display off; multiplex ratio 63; display offset 0;
/// start line 0; segment re-map; COM scan direction remapped; COM pins configuration;
/// contrast 0x7F; display follows RAM; normal (not inverted) display; oscillator
/// frequency; charge pump on; horizontal addressing mode; display on.
pub const INIT_COMMANDS: [u8; 21] = [
    0xAE, 0xA8, 0x3F, 0xD3, 0x00, 0x40, 0xA1, 0xC8, 0xDA, 0x12, 0x81, 0x7F, 0xA4, 0xA6, 0xD5,
    0x80, 0x8D, 0x14, 0x20, 0x00, 0xAF,
];

/// Commands sent by `flush` before the data: columns 0..=127, pages 0..=7.
pub const FLUSH_COMMANDS: [u8; 6] = [0x21, 0x00, 0x7F, 0x22, 0x00, 0x07];

#[derive(Debug)]
pub enum Error<E> {
    I2c(E),
}

/// One write to the panel at `DEVICE_ADDRESS`.
#[derive(Clone, Copy, Debug, PartialEq, Eq, Structural)]
pub enum Write {
    /// The two bytes `[COMMAND_CONTROL, command]`.
    Command(u8),
    /// The bytes of `frame_payload`: `DATA_CONTROL` followed by the framebuffer.
    Frame,
}

/// What a command sequence asks for next.
#[derive(Debug)]
pub enum Progress<E> {
    Send(Write),
    Finished(Result<(), Error<E>>),
}

/// Bit `i` (0 = least significant) of `b`.
pub open spec fn bit_set(b: u8, i: u8) -> bool {
    (b >> i) & 1 == 1
}

/// Whether `(x, y)` lies on the panel.
pub open spec fn on_screen(x: int, y: int) -> bool {
    0 <= x < 128 && 0 <= y < 64
}

/// Index of the framebuffer byte holding pixel `(x, y)`: pages of eight rows, one byte
/// per column and page.
pub open spec fn frame_index(x: int, y: int) -> int {
    (y / 8) * 128 + x
}

/// Whether pixel `(x, y)` is lit in `frame`: bit `y % 8` of its byte.
pub open spec fn pixel(frame: Seq<u8>, x: int, y: int) -> bool {
    bit_set(frame[frame_index(x, y)], (y % 8) as u8)
}

/// Whether character `c` has a glyph in the font.
pub open spec fn printable(c: u8) -> bool {
    0x20 <= c <= 0x7E
}

/// Whether the glyph of `c` lights its pixel at column `col`, row `row`.
pub open spec fn glyph_pixel(c: u8, col: int, row: int) -> bool {
    &&& printable(c)
    &&& 0 <= col < 5
    &&& 0 <= row < 7
    &&& bit_set(FONT_5X7[c - 0x20][col], row as u8)
}

/// Whether drawing `c` with its top-left corner at `(x, y)` lights pixel `(px, py)`;
/// a character that is not printable or does not fit on the panel draws nothing.
pub open spec fn char_pixel(c: u8, x: int, y: int, px: int, py: int) -> bool {
    &&& x + 5 <= 128
    &&& y + 7 <= 64
    &&& glyph_pixel(c, px - x, py - y)
}

/// How many of `len` characters drawn 6 pixels apart from column `x` fit on the panel.
pub open spec fn drawn_count(len: int, x: int) -> int {
    if x + 5 > 128 {
        0
    } else if len <= (123 - x) / 6 + 1 {
        len
    } else {
        (123 - x) / 6 + 1
    }
}

/// Whether one of the first `n` characters of `text`, drawn 6 pixels apart from `(x, y)`,
/// lights pixel `(px, py)`.
pub open spec fn text_pixel(text: Seq<u8>, n: int, x: int, y: int, px: int, py: int) -> bool
    decreases n,
{
    if n <= 0 {
        false
    } else {
        text_pixel(text, n - 1, x, y, px, py) || char_pixel(text[n - 1], x + 6 * (n - 1), y, px, py)
    }
}

/// `after` is the 1024-byte framebuffer that drawing `c` at `(x, y)` leaves on `before`:
/// the pixels of `before`, plus those of the glyph.
pub open spec fn draws_char(before: Seq<u8>, after: Seq<u8>, c: u8, x: int, y: int) -> bool {
    &&& after.len() == 1024
    &&& forall|px: int, py: int| on_screen(px, py) ==> pixel(after, px, py)
        == (pixel(before, px, py) || char_pixel(c, x, y, px, py))
}

/// `after` is the 1024-byte framebuffer that drawing `text` from `(x, y)` leaves on
/// `before`: the pixels of `before`, plus those of the characters that fit.
pub open spec fn draws_text(before: Seq<u8>, after: Seq<u8>, text: Seq<u8>, x: int, y: int) -> bool {
    &&& after.len() == 1024
    &&& forall|px: int, py: int| on_screen(px, py) ==> pixel(after, px, py)
        == (pixel(before, px, py) || text_pixel(text, drawn_count(text.len() as int, x), x, y, px, py))
}

proof fn lemma_bits(b: u8, k: u8, j: u8)
    requires
        k < 8,
        j < 8,
    ensures
        bit_set(b | (1u8 << k), j) == (j == k || bit_set(b, j)),
        bit_set(b & !(1u8 << k), j) == (j != k && bit_set(b, j)),
        (b & (1u8 << k) != 0) == bit_set(b, k),
        !bit_set(0u8, j),
{
    assert(k < 8 && j < 8 ==> bit_set(b | (1u8 << k), j) == (j == k || bit_set(b, j))) by (bit_vector);
    assert(k < 8 && j < 8 ==> bit_set(b & !(1u8 << k), j) == (j != k && bit_set(b, j))) by (bit_vector);
    assert(k < 8 ==> ((b & (1u8 << k) != 0) == bit_set(b, k))) by (bit_vector);
    assert(j < 8 ==> !bit_set(0u8, j)) by (bit_vector);
}

proof fn lemma_frame_index(x: int, y: int)
    requires
        on_screen(x, y),
    ensures
        0 <= frame_index(x, y) < 1024,
        frame_index(x, y) / 128 == y / 8,
        frame_index(x, y) % 128 == x,
{
}

proof fn lemma_byte_from_bits(a: u8, b: u8)
    requires
        forall|j: u8| j < 8 ==> #[trigger] bit_set(a, j) == bit_set(b, j),
    ensures
        a == b,
{
    assert(bit_set(a, 0) == bit_set(b, 0));
    assert(bit_set(a, 1) == bit_set(b, 1));
    assert(bit_set(a, 2) == bit_set(b, 2));
    assert(bit_set(a, 3) == bit_set(b, 3));
    assert(bit_set(a, 4) == bit_set(b, 4));
    assert(bit_set(a, 5) == bit_set(b, 5));
    assert(bit_set(a, 6) == bit_set(b, 6));
    assert(bit_set(a, 7) == bit_set(b, 7));
    assert(
        (bit_set(a, 0) == bit_set(b, 0) && bit_set(a, 1) == bit_set(b, 1) && bit_set(a, 2) == bit_set(b, 2)
        && bit_set(a, 3) == bit_set(b, 3) && bit_set(a, 4) == bit_set(b, 4) && bit_set(a, 5) == bit_set(b, 5)
        && bit_set(a, 6) == bit_set(b, 6) && bit_set(a, 7) == bit_set(b, 7)) ==> a == b
    ) by (bit_vector);
}

/// Law: a framebuffer holds nothing but its 128x64 pixels; two framebuffers that light
/// the same pixels are the same bytes, so what `flush` sends is fixed by the pixels.
pub proof fn lemma_pixels_determine_frame(a: Seq<u8>, b: Seq<u8>)
    requires
        a.len() == 1024,
        b.len() == 1024,
        forall|x: int, y: int| on_screen(x, y) ==> pixel(a, x, y) == pixel(b, x, y),
    ensures
        a == b,
{
    assert forall|k: int| 0 <= k < 1024 implies a[k] == b[k] by {
        let x = k % 128;
        let page = k / 128;
        assert forall|j: u8| j < 8 implies #[trigger] bit_set(a[k], j) == bit_set(b[k], j) by {
            let y = page * 8 + j;
            assert(on_screen(x, y));
            assert(frame_index(x, y) == k);
            assert(y % 8 == j as int);
            assert(pixel(a, x, y) == pixel(b, x, y));
        }
        lemma_byte_from_bits(a[k], b[k]);
    }
    assert(a =~= b);
}

/// Law: `drawn_count(len, x)` is the number of characters that fit: the last of the
/// first `n` (and so each of them) ends within the panel's 128 columns, and the next
/// one, if any, would not.
pub proof fn lemma_drawn_count(len: int, x: int)
    requires
        0 <= len,
        0 <= x,
    ensures
        0 <= drawn_count(len, x) <= len,
        drawn_count(len, x) > 0 ==> x + 6 * (drawn_count(len, x) - 1) + 5 <= 128,
        drawn_count(len, x) < len ==> x + 6 * drawn_count(len, x) + 5 > 128,
{
}

/// Law: a byte that is not printable ASCII (a control byte, DEL, or any byte of a
/// multi-byte UTF-8 character) lights no pixel; in a string it only takes its 6-pixel
/// cell.
pub proof fn lemma_unprintable_draws_nothing(c: u8, x: int, y: int)
    requires
        !printable(c),
    ensures
        forall|px: int, py: int| !char_pixel(c, x, y, px, py),
{
}

proof fn lemma_char_frames(text: Seq<u8>, x: int, y: int, frames: Seq<Seq<u8>>, k: int)
    requires
        0 <= k < frames.len(),
        frames[0].len() == 1024,
        forall|i: int| 0 <= i < frames.len() - 1 ==> #[trigger] draws_char(frames[i], frames[i + 1], text[i], x + 6 * i, y),
    ensures
        frames[k].len() == 1024,
        forall|px: int, py: int| on_screen(px, py) ==> pixel(frames[k], px, py)
            == (pixel(frames[0], px, py) || text_pixel(text, k, x, y, px, py)),
    decreases k,
{
    if k > 0 {
        let i = k - 1;
        lemma_char_frames(text, x, y, frames, i);
        assert(draws_char(frames[i], frames[i + 1], text[i], x + 6 * i, y));
    }
}

/// Law: drawing a string is drawing its characters one after the other with `draw_char`,
/// 6 pixels apart from column `x`, as many as fit on the panel's width
/// (`drawn_count`); the characters after them are dropped, not wrapped.
///
/// `frames[0]` is the framebuffer before; `frames[i + 1]` is what drawing the `i`-th byte
/// leaves on `frames[i]`. The framebuffer that drawing the whole string leaves on
/// `frames[0]` is then the last of them.
pub proof fn lemma_draw_str_is_draw_chars(
    text: Seq<u8>,
    x: int,
    y: int,
    frames: Seq<Seq<u8>>,
    after: Seq<u8>,
)
    requires
        0 <= x,
        0 <= y,
        frames.len() == drawn_count(text.len() as int, x) + 1,
        frames[0].len() == 1024,
        forall|i: int| 0 <= i < frames.len() - 1 ==> #[trigger] draws_char(frames[i], frames[i + 1], text[i], x + 6 * i, y),
        draws_text(frames[0], after, text, x, y),
    ensures
        after == frames.last(),
{
    let n = frames.len() - 1;
    lemma_char_frames(text, x, y, frames, n);
    lemma_pixels_determine_frame(after, frames[n]);
}

/// Driver for one panel on the bus `i2c`.
pub struct Ssd1306<I2C> {
    /// The bus the panel hangs on; the firmware performs the writes on it.
    pub i2c: I2C,
    framebuffer: [u8; 1024],
}

impl<I2C> View for Ssd1306<I2C> {
    type V = Seq<u8>;

    /// The framebuffer, 1024 bytes.
    closed spec fn view(&self) -> Seq<u8> {
        self.framebuffer@
    }
}

impl<I2C> Ssd1306<I2C> {
    /// The bus the driver was built on.
    pub closed spec fn bus(&self) -> I2C {
        self.i2c
    }

    /// The framebuffer always holds one byte per column and page.
    pub proof fn lemma_frame_len(&self)
        ensures
            self@.len() == 1024,
    {
    }

    /// A driver on `i2c` with a blank framebuffer.
    pub fn new(i2c: I2C) -> (r: Self)
        ensures
            r.bus() == i2c,
            r@ == Seq::new(1024, |i: int| 0u8),
            forall|x: int, y: int| on_screen(x, y) ==> !pixel(r@, x, y),
    {
        let r = Self { i2c, framebuffer: [0u8; 1024] };
        assert(r@ =~= Seq::new(1024, |i: int| 0u8));
        assert forall|x: int, y: int| on_screen(x, y) implies !pixel(r@, x, y) by {
            lemma_frame_index(x, y);
            lemma_bits(0, 0, (y % 8) as u8);
        }
        r
    }

    /// Turns pixel `(x, y)` on or off; `None`, with nothing changed, when it lies off the
    /// panel.
    pub fn set_pixel(&mut self, x: usize, y: usize, on: bool) -> (r: Option<()>)
        ensures
            final(self).bus() == old(self).bus(),
            final(self)@.len() == 1024,
            r is Some <==> on_screen(x as int, y as int),
            r is None ==> final(self)@ == old(self)@,
            r is Some ==> forall|px: int, py: int| on_screen(px, py) ==> pixel(final(self)@, px, py)
                == if px == x && py == y { on } else { pixel(old(self)@, px, py) },
    {
        if x >= 128 || y >= 64 {
            return None;
        }
        let byte_index = (y / 8) * 128 + x;
        let bit_index = y % 8;
        let ghost old_frame = self.framebuffer@;
        let b = self.framebuffer[byte_index];
        if on {
            self.framebuffer[byte_index] = b | (1u8 << bit_index);
        } else {
            self.framebuffer[byte_index] = b & !(1u8 << bit_index);
        }
        assert forall|px: int, py: int| on_screen(px, py) implies pixel(self@, px, py)
            == if px == x && py == y { on } else { pixel(old_frame, px, py) } by {
            lemma_frame_index(px, py);
            lemma_frame_index(x as int, y as int);
            lemma_bits(b, bit_index as u8, (py % 8) as u8);
            if frame_index(px, py) == byte_index as int {
                assert(px == x);
                assert(py / 8 == y / 8);
            }
        }
        Some(())
    }

    /// Draws character `c` with its top-left corner at `(x, y)` by turning on the pixels
    /// of its glyph; nothing happens when `c` is not printable ASCII or the 5x7 cell does
    /// not fit on the panel. Pixels are only turned on, never off.
    pub fn draw_char(&mut self, x: usize, y: usize, c: u8)
        requires
            printable(c) ==> x + 5 <= usize::MAX,
            printable(c) && x + 5 <= 128 ==> y + 7 <= usize::MAX,
        ensures
            final(self).bus() == old(self).bus(),
            draws_char(old(self)@, final(self)@, c, x as int, y as int),
    {
        if c < 0x20 || c > 0x7E || x + 5 > 128 || y + 7 > 64 {
            return;
        }
        let glyph = &FONT_5X7[(c - 0x20) as usize];
        let ghost old_frame = self@;
        let mut col: usize = 0;
        while col < 5
            invariant
                0 <= col <= 5,
                x + 5 <= 128,
                y + 7 <= 64,
                printable(c),
                *glyph == FONT_5X7[c - 0x20],
                self.bus() == old(self).bus(),
                old_frame == old(self)@,
                self@.len() == 1024,
                forall|px: int, py: int| on_screen(px, py) ==> pixel(self@, px, py)
                    == (pixel(old_frame, px, py) || (px < x + col && char_pixel(c, x as int, y as int, px, py))),
            decreases 5 - col,
        {
            let mut row: usize = 0;
            while row < 7
                invariant
                    0 <= col < 5,
                    0 <= row <= 7,
                    x + 5 <= 128,
                    y + 7 <= 64,
                    printable(c),
                    *glyph == FONT_5X7[c - 0x20],
                    self.bus() == old(self).bus(),
                    old_frame == old(self)@,
                    self@.len() == 1024,
                    forall|px: int, py: int| on_screen(px, py) ==> pixel(self@, px, py)
                        == (pixel(old_frame, px, py) || (px < x + col && char_pixel(c, x as int, y as int, px, py))
                            || (px == x + col && py < y + row && char_pixel(c, x as int, y as int, px, py))),
                decreases 7 - row,
            {
                proof { lemma_bits(glyph[col as int], row as u8, row as u8); }
                if glyph[col] & (1 << row) != 0 {
                    self.set_pixel(x + col, y + row, true);
                }
                row = row + 1;
            }
            col = col + 1;
        }
    }

    /// Draws the bytes of `s` left to right from `(x, y)`, one character every 6 pixels,
    /// stopping at the first character that would not fit within the panel's width.
    pub fn draw_str(&mut self, x: usize, y: usize, s: &str)
        requires
            s.spec_bytes().len() > 0 ==> x + 5 <= usize::MAX,
            (exists|i: int| 0 <= i < drawn_count(s.spec_bytes().len() as int, x as int)
                && #[trigger] printable(s.spec_bytes()[i])) ==> y + 7 <= usize::MAX,
        ensures
            final(self).bus() == old(self).bus(),
            draws_text(old(self)@, final(self)@, s.spec_bytes(), x as int, y as int),
    {
        let bytes = s.as_bytes();
        let ghost text = bytes@;
        let ghost old_frame = self@;
        proof { self.lemma_frame_len(); }
        let mut cx = x;
        let mut i: usize = 0;
        while i < bytes.len()
            invariant_except_break
                0 <= i <= bytes@.len(),
                cx == x + 6 * i,
                i <= drawn_count(text.len() as int, x as int),
            invariant
                text == bytes@,
                text == s.spec_bytes(),
                self.bus() == old(self).bus(),
                old_frame == old(self)@,
                self@.len() == 1024,
                text.len() > 0 ==> x + 5 <= usize::MAX,
                (exists|j: int| 0 <= j < drawn_count(text.len() as int, x as int)
                    && #[trigger] printable(text[j])) ==> y + 7 <= usize::MAX,
                forall|px: int, py: int| on_screen(px, py) ==> pixel(self@, px, py)
                    == (pixel(old_frame, px, py) || text_pixel(text, i as int, x as int, y as int, px, py)),
            ensures
                i == drawn_count(text.len() as int, x as int),
                forall|px: int, py: int| on_screen(px, py) ==> pixel(self@, px, py)
                    == (pixel(old_frame, px, py) || text_pixel(text, i as int, x as int, y as int, px, py)),
            decreases bytes@.len() - i,
        {
            if cx + 5 > 128 {
                break;
            }
            let c = bytes[i];
            assert(i < drawn_count(text.len() as int, x as int));
            let ghost before = self@;
            self.draw_char(cx, y, c);
            assert forall|px: int, py: int| on_screen(px, py) implies pixel(self@, px, py)
                == (pixel(old_frame, px, py) || text_pixel(text, i + 1, x as int, y as int, px, py)) by {
                assert(pixel(before, px, py) == (pixel(old_frame, px, py) || text_pixel(text, i as int, x as int, y as int, px, py)));
            }
            cx = cx + 6;
            i = i + 1;
        }
    }

    /// The initialisation sequence: after `sent` writes, of which the latest ended with
    /// `last` (ignored when `sent == 0`), the next write or the outcome.
    ///
    /// The commands of `INIT_COMMANDS` go out in order; a failure of the first one
    /// (display off) is ignored, a failure of any later one ends the sequence with
    /// `Error::I2c`.
    pub fn init<E>(&self, sent: usize, last: Result<(), E>) -> (r: Progress<E>)
        ensures
            match last {
                Err(e) if sent >= 2 => r == Progress::<E>::Finished(Err(Error::I2c(e))),
                _ => if sent < 21 {
                    r == Progress::<E>::Send(Write::Command(INIT_COMMANDS[sent as int]))
                } else {
                    r == Progress::<E>::Finished(Ok(()))
                },
            },
    {
        if sent >= 2 {
            if let Err(e) = last {
                return Progress::Finished(Err(Error::I2c(e)));
            }
        }
        if sent < 21 {
            Progress::Send(Write::Command(INIT_COMMANDS[sent]))
        } else {
            Progress::Finished(Ok(()))
        }
    }

    /// Pushing the framebuffer to the panel: after `sent` writes, of which the latest
    /// ended with `last` (ignored when `sent == 0`), the next write or the outcome.
    ///
    /// The commands of `FLUSH_COMMANDS` go out in order, then the frame; any failure ends
    /// the sequence with `Error::I2c`.
    pub fn flush<E>(&self, sent: usize, last: Result<(), E>) -> (r: Progress<E>)
        ensures
            match last {
                Err(e) if sent >= 1 => r == Progress::<E>::Finished(Err(Error::I2c(e))),
                _ => if sent < 6 {
                    r == Progress::<E>::Send(Write::Command(FLUSH_COMMANDS[sent as int]))
                } else if sent == 6 {
                    r == Progress::<E>::Send(Write::Frame)
                } else {
                    r == Progress::<E>::Finished(Ok(()))
                },
            },
    {
        if sent >= 1 {
            if let Err(e) = last {
                return Progress::Finished(Err(Error::I2c(e)));
            }
        }
        if sent < 6 {
            Progress::Send(Write::Command(FLUSH_COMMANDS[sent]))
        } else if sent == 6 {
            Progress::Send(Write::Frame)
        } else {
            Progress::Finished(Ok(()))
        }
    }

    /// The bytes that write `w` puts on the bus: `[COMMAND_CONTROL, c]` for a command,
    /// `DATA_CONTROL` followed by the framebuffer for the frame.
    pub fn write_bytes(&self, w: Write) -> (b: Vec<u8>)
        ensures
            b@ == match w {
                Write::Command(c) => seq![COMMAND_CONTROL, c],
                Write::Frame => seq![DATA_CONTROL] + self@,
            },
    {
        match w {
            Write::Command(c) => vec![COMMAND_CONTROL, c],
            Write::Frame => self.frame_payload(),
        }
    }

    /// The bytes of a `Write::Frame`: `DATA_CONTROL` followed by the framebuffer.
    pub fn frame_payload(&self) -> (payload: Vec<u8>)
        ensures
            payload@ == seq![DATA_CONTROL] + self@,
            payload@.len() == 1025,
    {
        let mut payload: Vec<u8> = Vec::with_capacity(1025);
        payload.push(DATA_CONTROL);
        let mut i: usize = 0;
        while i < 1024
            invariant
                0 <= i <= 1024,
                self@.len() == 1024,
                payload@ == seq![DATA_CONTROL] + self@.subrange(0, i as int),
            decreases 1024 - i,
        {
            payload.push(self.framebuffer[i]);
            i = i + 1;
            assert(self@.subrange(0, i as int) =~= self@.subrange(0, i - 1).push(self@[i - 1]));
        }
        assert(self@.subrange(0, 1024) =~= self@);
        payload
    }

    /// Turns every pixel off.
    pub fn clear(&mut self)
        ensures
            final(self).bus() == old(self).bus(),
            final(self)@ == Seq::new(1024, |i: int| 0u8),
            forall|x: int, y: int| on_screen(x, y) ==> !pixel(final(self)@, x, y),
    {
        self.framebuffer = [0u8; 1024];
        assert(self@ =~= Seq::new(1024, |i: int| 0u8));
        assert forall|x: int, y: int| on_screen(x, y) implies !pixel(self@, x, y) by {
            lemma_frame_index(x, y);
            lemma_bits(0, 0, (y % 8) as u8);
        }
    }
}

} // verus!
