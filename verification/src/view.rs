//! Layout of a document view: page geometry, field widths and positions.
use crate::curses::Color;
use std::collections::BTreeSet;
use vstd::prelude::*;

verus! {

/// Number of words per line in fixed mode.
pub const FIXED_WIDTH: usize = 4;
/// Length of a byte in hex representation.
pub const HEX_LEN: usize = 2;
/// Margin size between fields offset/hex/ascii.
pub const FIELD_MARGIN: usize = 3;
/// Margin between bytes in a word.
pub const BYTE_MARGIN: usize = 1;
/// Margin between words.
pub const WORD_MARGIN: usize = 2;
/// Number of bytes in a single word.
pub const BYTES_IN_WORD: usize = 4;
/// Min width of the screen.
pub const MIN_WIDTH: usize = 30;
/// Min height of the window (status bar and at least one line of data).
pub const MIN_HEIGHT: usize = 2;

/// Document view: everything the editor logic reads of a view; the
/// terminal windows that display it are kept by the application.
pub struct HexView {
    /// Line width mode (fixed/dynamic).
    pub fixed_width: bool,
    /// Identifier of the ASCII characters table (None hides the field).
    pub ascii_table: Option<String>,
    /// Max offset (file size).
    pub max_offset: u64,
    /// Number of lines per page.
    pub lines: usize,
    /// Number of bytes per line.
    pub columns: usize,
    /// Size of the offset field.
    pub offset_width: usize,
    /// Size of the hex field.
    pub hex_width: usize,
    /// Start address of currently displayed page.
    pub offset: u64,
    /// File data of currently displayed page.
    pub data: Vec<u8>,
    /// Addresses of changed values on the current page.
    pub changes: BTreeSet<u64>,
    /// Addresses of diff values on the current page.
    pub differs: BTreeSet<u64>,
}

/// Number of hex digits used to print offsets below `max_offset`
/// (at least 4, two per byte that the largest offset needs).
pub open spec fn spec_offset_digits(max_offset: u64) -> usize {
    if max_offset >= 0x100_0000_0000_0000 {
        16
    } else if max_offset >= 0x1_0000_0000_0000 {
        14
    } else if max_offset >= 0x100_0000_0000 {
        12
    } else if max_offset >= 0x1_0000_0000 {
        10
    } else if max_offset >= 0x100_0000 {
        8
    } else if max_offset >= 0x1_0000 {
        6
    } else {
        4
    }
}

/// Number of words per line for a workspace of the given width.
pub open spec fn spec_words(fixed_width: bool, has_ascii: bool, width: int, offset_width: int) -> int {
    if fixed_width {
        FIXED_WIDTH as int
    } else {
        let hex_word = (BYTES_IN_WORD * HEX_LEN + (BYTES_IN_WORD - 1) * BYTE_MARGIN
            + WORD_MARGIN) as int;
        let word_width = hex_word + if has_ascii {
            BYTES_IN_WORD as int
        } else {
            0
        };
        let free_space = width - offset_width - FIELD_MARGIN + if has_ascii {
            -((FIELD_MARGIN - WORD_MARGIN) as int)
        } else {
            WORD_MARGIN as int
        };
        free_space / word_width
    }
}

/// Width of the hex field for the given number of words.
pub open spec fn spec_hex_width(words: int) -> int {
    words * ((BYTES_IN_WORD * HEX_LEN + (BYTES_IN_WORD - 1) * BYTE_MARGIN) as int) + (words - 1)
        * (WORD_MARGIN as int)
}

/// Width of the data fields (offset, hex and, if shown, ascii).
pub open spec fn spec_data_width(offset_width: int, hex_width: int, has_ascii: bool, columns: int) -> int {
    FIELD_MARGIN + hex_width + offset_width + if has_ascii {
        FIELD_MARGIN + columns
    } else {
        0
    }
}

/// Offset width after using the free space (up to 8 digits).
pub open spec fn spec_final_offset_width(digits: int, data_width: int, width: int) -> int {
    if data_width < width && digits < 8 {
        let free = width - data_width;
        let room = 8 - digits;
        digits + if free < room {
            free
        } else {
            room
        }
    } else {
        digits
    }
}

/// Column of a byte inside the hex field.
pub open spec fn spec_hex_column(column: int) -> int {
    column * (BYTES_IN_WORD - 1) + column / (BYTES_IN_WORD as int)
}

impl HexView {
    /// Page size in bytes.
    pub open spec fn page(&self) -> int {
        self.lines * self.columns
    }

    /// Create new view instance.
    ///
    /// # Arguments
    ///
    /// * `fixed_width` - line width mode
    /// * `ascii_table` - identifier of the ascii table (None hides the field)
    /// * `file_size` - file size
    pub fn new(fixed_width: bool, ascii_table: Option<String>, file_size: u64) -> (r: Self)
        ensures
            r.fixed_width == fixed_width,
            r.ascii_table == ascii_table,
            r.max_offset == file_size,
            r.lines == 1,
            r.columns == 1,
            r.offset_width == 0,
            r.hex_width == 0,
            r.offset == 0,
            r.data@.len() == 0,
            r.changes@.is_empty(),
            r.differs@.is_empty(),
    {
        HexView {
            fixed_width,
            ascii_table,
            max_offset: file_size,
            lines: 1,
            columns: 1,
            offset_width: 0,
            hex_width: 0,
            offset: 0,
            data: Vec::new(),
            changes: BTreeSet::new(),
            differs: BTreeSet::new(),
        }
    }

    /// Recalculate the view scheme for a workspace of the given size.
    ///
    /// # Arguments
    ///
    /// * `width` - width of the workspace
    /// * `height` - height of the workspace (number of lines)
    pub fn reinit(&mut self, width: usize, height: usize)
        requires
            width >= MIN_WIDTH,
            width <= 0x0fff_ffff,
            spec_words(
                old(self).fixed_width,
                old(self).ascii_table is Some,
                width as int,
                spec_offset_digits(old(self).max_offset) as int,
            ) > 0,
        ensures
            ({
                let digits = spec_offset_digits(old(self).max_offset) as int;
                let has_ascii = old(self).ascii_table is Some;
                let words = spec_words(old(self).fixed_width, has_ascii, width as int, digits);
                let hex_width = spec_hex_width(words);
                let columns = words * (BYTES_IN_WORD as int);
                &&& final(self).lines == height
                &&& final(self).columns == columns
                &&& final(self).hex_width == hex_width
                &&& final(self).offset_width == spec_final_offset_width(
                    digits,
                    spec_data_width(digits, hex_width, has_ascii, columns),
                    width as int,
                )
            }),
            final(self).fixed_width == old(self).fixed_width,
            final(self).ascii_table == old(self).ascii_table,
            final(self).max_offset == old(self).max_offset,
            final(self).offset == old(self).offset,
            final(self).data == old(self).data,
            final(self).changes == old(self).changes,
            final(self).differs == old(self).differs,
    {
        // define size of the offset field
        let m = self.max_offset;
        let digits: usize = if m >= 0x100_0000_0000_0000 {
            16
        } else if m >= 0x1_0000_0000_0000 {
            14
        } else if m >= 0x100_0000_0000 {
            12
        } else if m >= 0x1_0000_0000 {
            10
        } else if m >= 0x100_0000 {
            8
        } else if m >= 0x1_0000 {
            6
        } else {
            4
        };
        let has_ascii = self.ascii_table.is_some();

        // calculate number of words per line
        let words: usize = if self.fixed_width {
            FIXED_WIDTH
        } else {
            let hex_word = BYTES_IN_WORD * HEX_LEN + (BYTES_IN_WORD - 1) * BYTE_MARGIN
                + WORD_MARGIN;
            let ascii_width = if has_ascii {
                BYTES_IN_WORD
            } else {
                0
            };
            let word_width = hex_word + ascii_width;
            let mut free_space = width - digits - FIELD_MARGIN;
            if has_ascii {
                free_space = free_space - (FIELD_MARGIN - WORD_MARGIN);
            } else {
                free_space = free_space + WORD_MARGIN;
            }
            let words = free_space / word_width;
            assert(words <= free_space) by (nonlinear_arith)
                requires
                    words == free_space / word_width,
                    word_width > 0,
                    free_space >= 0,
            ;
            words
        };
        assert(words <= width);
        assert(words * 11 + (words - 1) * 2 <= 13 * width) by (nonlinear_arith)
            requires
                words <= width,
                words >= 1,
        ;

        self.lines = height;
        self.columns = words * BYTES_IN_WORD;

        // calculate hex field size
        let word_width = BYTES_IN_WORD * HEX_LEN + (BYTES_IN_WORD - 1) * BYTE_MARGIN;
        self.hex_width = words * word_width + (words - 1) * WORD_MARGIN;

        // increase the offset length if possible
        let data_width = FIELD_MARGIN + self.hex_width + digits + if has_ascii {
            FIELD_MARGIN + self.columns
        } else {
            0
        };
        let mut offset_width = digits;
        if data_width < width && digits < 8 {
            let free_space = width - data_width;
            let max_offset_len = 8 - digits;
            offset_width = digits + if free_space < max_offset_len {
                free_space
            } else {
                max_offset_len
            };
        }
        self.offset_width = offset_width;
    }

    /// Whether a workspace `width` columns wide suits the view: wide
    /// enough for one word per line.
    pub fn fits_width(&self, width: usize) -> (r: bool)
        ensures
            r == (width >= MIN_WIDTH && width <= 0x0fff_ffff && spec_words(
                self.fixed_width,
                self.ascii_table is Some,
                width as int,
                spec_offset_digits(self.max_offset) as int,
            ) > 0),
    {
        if width < MIN_WIDTH || width > 0x0fff_ffff {
            return false;
        }
        if self.fixed_width {
            return true;
        }
        let m = self.max_offset;
        let digits: usize = if m >= 0x100_0000_0000_0000 {
            16
        } else if m >= 0x1_0000_0000_0000 {
            14
        } else if m >= 0x100_0000_0000 {
            12
        } else if m >= 0x1_0000_0000 {
            10
        } else if m >= 0x100_0000 {
            8
        } else if m >= 0x1_0000 {
            6
        } else {
            4
        };
        let hex_word = BYTES_IN_WORD * HEX_LEN + (BYTES_IN_WORD - 1) * BYTE_MARGIN + WORD_MARGIN;
        let has_ascii = self.ascii_table.is_some();
        let word_width = hex_word + if has_ascii {
            BYTES_IN_WORD
        } else {
            0
        };
        let mut free_space = width - digits - FIELD_MARGIN;
        if has_ascii {
            free_space = free_space - (FIELD_MARGIN - WORD_MARGIN);
        } else {
            free_space = free_space + WORD_MARGIN;
        }
        free_space / word_width > 0
    }

    /// Get coordinates of specified offset inside the hex or ascii fields.
    ///
    /// # Arguments
    ///
    /// * `offset` - address of the byte
    /// * `hex` - field type, `true` for hex, `false` for ascii
    ///
    /// # Return value
    ///
    /// Coordinates of the byte relative to the view window.
    pub fn get_position(&self, offset: u64, hex: bool) -> (r: Option<(usize, usize)>)
        requires
            self.columns > 0,
            self.offset_width + self.hex_width + 2 * FIELD_MARGIN + 4 * self.columns
                <= usize::MAX,
        ensures
            r == (if offset < self.offset || (offset - self.offset) / (self.columns as int)
                >= self.lines {
                None
            } else {
                let column = (offset as int) % (self.columns as int);
                Some(
                    (
                        (self.offset_width + FIELD_MARGIN + if hex {
                            spec_hex_column(column)
                        } else {
                            self.hex_width + FIELD_MARGIN + column
                        }) as usize,
                        ((offset - self.offset) / (self.columns as int)) as usize,
                    ),
                )
            }),
    {
        if offset < self.offset {
            return None;
        }
        let y = (offset - self.offset) / (self.columns as u64);
        if y >= self.lines as u64 {
            return None;
        }
        let column = (offset % (self.columns as u64)) as usize;
        let mut x = self.offset_width + FIELD_MARGIN;
        if hex {
            x = x + column * (BYTES_IN_WORD - 1) + column / BYTES_IN_WORD;
        } else {
            x = x + self.hex_width + FIELD_MARGIN + column;
        }
        Some((x, y as usize))
    }
}

/// The byte at `offset` shares the line or the column of the cursor on a
/// page that starts at `page` with `columns` bytes per line.
pub open spec fn crosses_cursor(offset: u64, cursor: u64, page: u64, columns: usize) -> bool {
    offset % (columns as u64) == cursor % (columns as u64) || (offset - page) / (columns as int) == (cursor
        - page) / (columns as int)
}

/// Color of a highlighted byte in the hex (or ASCII) field: a byte that
/// differs from the other files, or (`changed`) one that was modified;
/// brighter on the line and the column of the cursor.
pub fn highlight_color(offset: u64, cursor: u64, page: u64, columns: usize, changed: bool, hex: bool) -> (r: Color)
    requires
        columns > 0,
        page <= offset,
        page <= cursor,
    ensures
        r == (if crosses_cursor(offset, cursor, page, columns) {
            if changed {
                if hex {
                    Color::HexModHi
                } else {
                    Color::AsciiModHi
                }
            } else {
                if hex {
                    Color::HexDiffHi
                } else {
                    Color::AsciiDiffHi
                }
            }
        } else {
            if changed {
                if hex {
                    Color::HexMod
                } else {
                    Color::AsciiMod
                }
            } else {
                if hex {
                    Color::HexDiff
                } else {
                    Color::AsciiDiff
                }
            }
        }),
{
    let cols = columns as u64;
    let cursor_x = cursor % cols;
    let cursor_y = (cursor - page) / cols;
    let cx = offset % cols;
    let cy = (offset - page) / cols;
    let near = cx == cursor_x || cy == cursor_y;
    match (near, changed, hex) {
        (true, true, true) => Color::HexModHi,
        (true, true, false) => Color::AsciiModHi,
        (true, false, true) => Color::HexDiffHi,
        (true, false, false) => Color::AsciiDiffHi,
        (false, true, true) => Color::HexMod,
        (false, true, false) => Color::AsciiMod,
        (false, false, true) => Color::HexDiff,
        (false, false, false) => Color::AsciiDiff,
    }
}

} // verus!
