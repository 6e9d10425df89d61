//! Text console model: the VGA word buffer of 25 lines by 80 columns.
//!
//! Each cell holds a character byte with the attribute 0x0f00; output
//! appends on the last line and scrolls the whole buffer up one line on a
//! newline or when the line fills.

use vstd::prelude::*;

verus! {

/// Lines of the text buffer.
pub const VGA_LINES: usize = 25;

/// Columns of the text buffer.
pub const VGA_COLS: usize = 80;

/// Cells of the whole buffer.
pub const VGA_WORDS: usize = 2000;

/// Blank cell: a space with white-on-black attribute.
pub const BLANK: u16 = 0x0f20;

/// The console: the cell words and the cursor column on the last line.
pub struct Vga {
    pub words: Vec<u16>,
    pub col: usize,
}

impl Vga {
    pub open spec fn wf(&self) -> bool {
        &&& self.words@.len() == VGA_WORDS
        &&& self.col <= VGA_COLS
    }

    /// A cleared console.
    pub fn new() -> (r: Vga)
        ensures
            r.wf(),
            r.col == 0,
            forall|i: int| 0 <= i < VGA_WORDS ==> r.words@[i] == BLANK,
    {
        let mut words: Vec<u16> = Vec::new();
        let mut i: usize = 0;
        while i < VGA_WORDS
            invariant
                i <= VGA_WORDS,
                words@.len() == i,
                forall|k: int| 0 <= k < i ==> words@[k] == BLANK,
            decreases VGA_WORDS - i,
        {
            words.push(BLANK);
            i += 1;
        }
        Vga { words, col: 0 }
    }

    /// Blank every cell.
    pub fn cls(&mut self)
        requires
            old(self).wf(),
        ensures
            final(self).wf(),
            final(self).col == old(self).col,
            forall|i: int| 0 <= i < VGA_WORDS ==> final(self).words@[i] == BLANK,
    {
        let mut i: usize = 0;
        while i < VGA_WORDS
            invariant
                i <= VGA_WORDS,
                self.words@.len() == VGA_WORDS,
                self.col == old(self).col,
                self.col <= VGA_COLS,
                forall|k: int| 0 <= k < i ==> self.words@[k] == BLANK,
            decreases VGA_WORDS - i,
        {
            self.words.set(i, BLANK);
            i += 1;
        }
    }

    /// Scroll one line: every line takes the cells of the one below, the
    /// last line blanks, and the cursor returns to column zero.
    pub fn next_line(&mut self)
        requires
            old(self).wf(),
        ensures
            final(self).wf(),
            final(self).col == 0,
            forall|i: int|
                0 <= i < VGA_WORDS - VGA_COLS ==> final(self).words@[i] == old(self).words@[i
                    + VGA_COLS],
            forall|i: int|
                VGA_WORDS - VGA_COLS <= i < VGA_WORDS ==> final(self).words@[i] == BLANK,
    {
        let mut i: usize = 0;
        while i < VGA_WORDS - VGA_COLS
            invariant
                i <= VGA_WORDS - VGA_COLS,
                self.words@.len() == VGA_WORDS,
                forall|k: int| 0 <= k < i ==> self.words@[k] == old(self).words@[k + VGA_COLS],
                forall|k: int| i <= k < VGA_WORDS ==> self.words@[k] == old(self).words@[k],
            decreases VGA_WORDS - VGA_COLS - i,
        {
            let w = self.words[i + VGA_COLS];
            self.words.set(i, w);
            i += 1;
        }
        let mut j: usize = VGA_WORDS - VGA_COLS;
        while j < VGA_WORDS
            invariant
                VGA_WORDS - VGA_COLS <= j <= VGA_WORDS,
                self.words@.len() == VGA_WORDS,
                forall|k: int|
                    0 <= k < VGA_WORDS - VGA_COLS ==> self.words@[k] == old(self).words@[k
                        + VGA_COLS],
                forall|k: int| VGA_WORDS - VGA_COLS <= k < j ==> self.words@[k] == BLANK,
            decreases VGA_WORDS - j,
        {
            self.words.set(j, BLANK);
            j += 1;
        }
        self.col = 0;
    }

    /// Print one character at the cursor on the last line; a newline, or a
    /// full line, scrolls first.
    pub fn put_char(&mut self, c: u8)
        requires
            old(self).wf(),
        ensures
            final(self).wf(),
            c == 10 ==> final(self).col == 0,
            c != 10 && old(self).col < VGA_COLS ==> final(self).col == old(self).col + 1
                && final(self).words@[(VGA_LINES - 1) * VGA_COLS + old(self).col] == (
            c as u16) | 0x0f00,
            c != 10 && old(self).col < VGA_COLS ==> (forall|i: int|
                0 <= i < VGA_WORDS && i != (VGA_LINES - 1) * VGA_COLS + old(self).col
                    ==> final(self).words@[i] == old(self).words@[i]),
            c != 10 && old(self).col == VGA_COLS ==> final(self).col == 1 && final(self).words@[(
            VGA_LINES - 1) * VGA_COLS] == (c as u16) | 0x0f00 && (forall|i: int|
                0 <= i < VGA_WORDS - VGA_COLS ==> final(self).words@[i] == old(self).words@[i
                    + VGA_COLS]),
    {
        if c == 10 {
            self.next_line();
            return ;
        }
        if self.col >= VGA_COLS {
            self.next_line();
        }
        let cx: u16 = (c as u16) | 0x0f00;
        let i = (VGA_LINES - 1) * VGA_COLS + self.col;
        self.words.set(i, cx);
        let cc = self.col;
        self.col = cc + 1;
    }

    /// Print a byte string. A string of plain characters that fits on the
    /// rest of the line lands at the cursor as written, advancing it by the
    /// string's length.
    pub fn puts(&mut self, s: &Vec<u8>)
        requires
            old(self).wf(),
        ensures
            final(self).wf(),
            (forall|k: int| 0 <= k < s@.len() ==> s@[k] != 10) && old(self).col + s@.len()
                <= VGA_COLS ==> final(self).col == old(self).col + s@.len() && (forall|k: int|
                0 <= k < s@.len() ==> final(self).words@[(VGA_LINES - 1) * VGA_COLS + old(
                    self,
                ).col + k] == (s@[k] as u16) | 0x0f00),
    {
        let ghost plain = (forall|k: int| 0 <= k < s@.len() ==> s@[k] != 10) && old(self).col
            + s@.len() <= VGA_COLS;
        let mut i: usize = 0;
        while i < s.len()
            invariant
                i <= s@.len(),
                self.wf(),
                plain == ((forall|k: int| 0 <= k < s@.len() ==> s@[k] != 10) && old(self).col
                    + s@.len() <= VGA_COLS),
                plain ==> self.col == old(self).col + i,
                plain ==> (forall|k: int|
                    0 <= k < i ==> self.words@[(VGA_LINES - 1) * VGA_COLS + old(self).col + k] == (
                    s@[k] as u16) | 0x0f00),
            decreases s@.len() - i,
        {
            let c = s[i];
            self.put_char(c);
            i += 1;
        }
    }
}

/// The port writes that set up the first serial port: 38400 baud, 8 data
/// bits, no parity, one stop bit, FIFO on, ending in loopback self-test and
/// normal operation.
pub fn init_com1() -> (r: Vec<(u16, u8)>)
    ensures
        r@.len() == 10,
        r@[0] == (0x3f9u16, 0x00u8),
        r@[1] == (0x3fbu16, 0x80u8),
        r@[2] == (0x3f8u16, 0x03u8),
        r@[3] == (0x3f9u16, 0x00u8),
        r@[4] == (0x3fbu16, 0x03u8),
        r@[5] == (0x3fau16, 0xc7u8),
        r@[6] == (0x3fcu16, 0x0bu8),
        r@[7] == (0x3fcu16, 0x1eu8),
        r@[8] == (0x3f8u16, 0xaeu8),
        r@[9] == (0x3fcu16, 0x0fu8),
{
    let mut r: Vec<(u16, u8)> = Vec::new();
    r.push((0x3f9, 0x00));
    r.push((0x3fb, 0x80));
    r.push((0x3f8, 0x03));
    r.push((0x3f9, 0x00));
    r.push((0x3fb, 0x03));
    r.push((0x3fa, 0xc7));
    r.push((0x3fc, 0x0b));
    r.push((0x3fc, 0x1e));
    r.push((0x3f8, 0xae));
    r.push((0x3fc, 0x0f));
    r
}

} // verus!
