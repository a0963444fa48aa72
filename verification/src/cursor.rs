//! Cursor position and movement.
use crate::view::HexView;
use vstd::prelude::*;

verus! {

/// Number of bytes in a word.
pub const WORD_SIZE: u64 = 4;

/// Position inside a hex byte (left/right half byte).
#[derive(PartialEq, Eq, Structural, Clone, Copy, Debug)]
pub enum HalfByte {
    Left,
    Right,
}

/// Edit mode (hex/ascii).
#[derive(PartialEq, Eq, Structural, Clone, Copy, Debug)]
pub enum Place {
    Hex,
    Ascii,
}

/// Cursor direction to move.
#[derive(PartialEq, Eq, Structural, Clone, Copy, Debug)]
pub enum Direction {
    /// Previous half of byte (hex mode only).
    PrevHalf,
    /// Next half of byte (hex mode only).
    NextHalf,
    /// Previous byte.
    PrevByte,
    /// Next byte.
    NextByte,
    /// Previous word (4 bytes).
    PrevWord,
    /// Next word (4 bytes).
    NextWord,
    /// First byte of current line.
    LineBegin,
    /// Last byte of current line.
    LineEnd,
    /// Previous line.
    LineUp,
    /// Next line.
    LineDown,
    /// Scroll one line up.
    ScrollUp,
    /// Scroll one line down.
    ScrollDown,
    /// Page up.
    PageUp,
    /// Page down.
    PageDown,
    /// File beginning.
    FileBegin,
    /// End of file.
    FileEnd,
    /// Absolute offset (offset, desirable base offset).
    Absolute(u64, u64),
}

/// Cursor position and movement.
#[derive(PartialEq, Eq, Structural, Clone, Copy, Debug)]
pub struct Cursor {
    /// Absolute offset (current position) of the cursor.
    pub offset: u64,
    /// Position inside a hex byte (left/right half byte).
    pub half: HalfByte,
    /// Edit mode (hex/ascii).
    pub place: Place,
}

/// `b` rounded down to a multiple of `c`.
pub open spec fn align_down(b: int, c: int) -> int {
    b - b % c
}

/// Base offset of the last page: the page that shows the end of a file of
/// `m` bytes with `p` bytes per page and `c` bytes per line.
pub open spec fn end_base(m: int, p: int, c: int) -> int {
    if p > m {
        0
    } else {
        let a = m % c;
        m - p - a + if a != 0 {
            c
        } else {
            0
        }
    }
}

/// Base of the page after a backward step to `o` from the page at `b`.
pub open spec fn base_back(o: int, b: int, c: int) -> int {
    if o < b {
        b - c
    } else {
        b
    }
}

/// Base of the page after a forward step to `o` from the page at `b`.
pub open spec fn base_fwd(o: int, b: int, p: int, c: int) -> int {
    if o >= b + p {
        b + c
    } else {
        b
    }
}

/// Cursor with new offset and half, same place.
pub open spec fn moved(cur: Cursor, offset: int, half: HalfByte) -> Cursor {
    Cursor { offset: offset as u64, half, place: cur.place }
}

/// New cursor and (not yet aligned) page base after moving `cur` in the
/// direction `dir` on the view `v`.
pub open spec fn spec_move(cur: Cursor, dir: Direction, v: HexView) -> (Cursor, int) {
    let o = cur.offset as int;
    let b = v.offset as int;
    let m = v.max_offset as int;
    let c = v.columns as int;
    let p = v.lines * v.columns;
    let w = WORD_SIZE as int;
    match dir {
        Direction::PrevHalf => {
            let (no, nh) = if cur.place == Place::Hex && cur.half == HalfByte::Right {
                (o, HalfByte::Left)
            } else if o != 0 {
                (o - 1, if cur.place == Place::Hex {
                    HalfByte::Right
                } else {
                    HalfByte::Left
                })
            } else {
                (o, cur.half)
            };
            (moved(cur, no, nh), base_back(no, b, c))
        },
        Direction::NextHalf => {
            if o == m - 1 || (cur.place == Place::Hex && cur.half == HalfByte::Left) {
                (moved(cur, o, HalfByte::Right), b)
            } else {
                (moved(cur, o + 1, HalfByte::Left), base_fwd(o + 1, b, p, c))
            }
        },
        Direction::PrevByte => {
            if o != 0 {
                (moved(cur, o - 1, HalfByte::Left), base_back(o - 1, b, c))
            } else {
                (moved(cur, o, HalfByte::Left), b)
            }
        },
        Direction::NextByte => {
            if o < m - 1 {
                (moved(cur, o + 1, HalfByte::Left), base_fwd(o + 1, b, p, c))
            } else {
                (moved(cur, o, HalfByte::Left), b)
            }
        },
        Direction::PrevWord => {
            if o != 0 {
                let no = align_down(o - 1, w);
                (moved(cur, no, HalfByte::Left), base_back(no, b, c))
            } else {
                (moved(cur, o, HalfByte::Left), b)
            }
        },
        Direction::NextWord => {
            let step = align_down(o, w) + w;
            let no = if step > m - 1 {
                m - 1
            } else {
                step
            };
            (moved(cur, no, HalfByte::Left), base_fwd(no, b, p, c))
        },
        Direction::LineBegin => (moved(cur, o - o % c, HalfByte::Left), b),
        Direction::LineEnd => {
            let end = o + c - o % c - 1;
            (moved(cur, if end > m - 1 {
                m - 1
            } else {
                end
            }, HalfByte::Left), b)
        },
        Direction::LineUp => {
            if o >= c {
                (moved(cur, o - c, cur.half), base_back(o - c, b, c))
            } else {
                (cur, b)
            }
        },
        Direction::LineDown => {
            let (no, nh) = if o + c < m {
                (o + c, cur.half)
            } else if o + c - o % c < m {
                (m - 1, HalfByte::Left)
            } else {
                (o, cur.half)
            };
            (moved(cur, no, nh), base_fwd(no, b, p, c))
        },
        Direction::ScrollUp => {
            if b != 0 {
                (moved(cur, o - c, cur.half), b - c)
            } else {
                (cur, b)
            }
        },
        Direction::ScrollDown => {
            if b + p + 1 < m {
                (moved(cur, o + c, cur.half), b + c)
            } else {
                (cur, b)
            }
        },
        Direction::PageUp => {
            if b >= p {
                (moved(cur, o - p, cur.half), b - p)
            } else {
                (moved(cur, 0, HalfByte::Left), 0)
            }
        },
        Direction::PageDown => {
            if b + p * 2 < m {
                (moved(cur, o + p, cur.half), b + p)
            } else {
                (moved(cur, m - 1, HalfByte::Left), end_base(m, p, c))
            }
        },
        Direction::FileBegin => (moved(cur, 0, HalfByte::Left), 0),
        Direction::FileEnd => (moved(cur, m - 1, HalfByte::Left), end_base(m, p, c)),
        Direction::Absolute(target, desired) => {
            let no = if target < m {
                target as int
            } else {
                m - 1
            };
            let db = desired as int;
            let nb = if no < db || no > db + p {
                align_down(
                    if no > p / 3 {
                        no - p / 3
                    } else {
                        no
                    },
                    c,
                )
            } else {
                db
            };
            (moved(cur, no, HalfByte::Left), if nb + p > m {
                end_base(m, p, c)
            } else {
                nb
            })
        },
    }
}

/// Geometry of the view that every move needs: a non-empty file, a
/// non-empty page and offsets far from the numeric limits.
pub open spec fn geometry_ok(v: HexView) -> bool {
    &&& v.columns > 0
    &&& v.lines > 0
    &&& v.lines * v.columns <= usize::MAX
    &&& v.max_offset > 0
    &&& v.max_offset + 4 * (v.lines * v.columns) + 16 <= u64::MAX
}

/// Condition under which a move neither underflows nor overflows.
pub open spec fn move_ok(cur: Cursor, dir: Direction, v: HexView) -> bool {
    &&& geometry_ok(v)
    &&& match dir {
        Direction::Absolute(_, desired) => desired + v.lines * v.columns <= u64::MAX,
        _ => {
            &&& (v.offset as int) % (v.columns as int) == 0
            &&& v.offset <= cur.offset <= v.offset + v.lines * v.columns
            &&& cur.offset <= v.max_offset + v.lines * v.columns
        },
    }
}

/// Whether the cursor can make the move (see `move_ok`).
pub fn can_move(cur: &Cursor, dir: &Direction, v: &HexView) -> (r: bool)
    ensures
        r == move_ok(*cur, *dir, *v),
{
    let columns = v.columns as u128;
    let lines = v.lines as u128;
    assert(lines * columns <= 0xffff_ffff_ffff_ffffu128 * 0xffff_ffff_ffff_ffffu128) by (nonlinear_arith)
        requires
            lines <= 0xffff_ffff_ffff_ffffu128,
            columns <= 0xffff_ffff_ffff_ffffu128,
    ;
    let page = lines * columns;
    if !(v.columns > 0 && v.lines > 0 && page <= usize::MAX as u128 && v.max_offset > 0 && (v.max_offset as u128)
        + 4 * page + 16 <= u64::MAX as u128) {
        return false;
    }
    match dir {
        Direction::Absolute(_, desired) => (*desired as u128) + page <= u64::MAX as u128,
        _ => {
            (v.offset as u128) % columns == 0 && v.offset <= cur.offset && (cur.offset as u128) <= (v.offset as u128)
                + page && (cur.offset as u128) <= (v.max_offset as u128) + page
        },
    }
}

/// Non-negative remainder bound.
proof fn lemma_mod_bound(a: int, c: int)
    requires
        c > 0,
    ensures
        0 <= a % c < c,
        a >= 0 ==> a % c <= a,
{
    if a >= 0 {
        vstd::arithmetic::div_mod::lemma_mod_decreases(a as nat, c as nat);
    }
}

/// A multiple of `c` that is positive is at least `c`.
proof fn lemma_aligned_positive(b: int, c: int)
    requires
        c > 0,
        b > 0,
        b % c == 0,
    ensures
        b >= c,
{
    vstd::arithmetic::div_mod::lemma_fundamental_div_mod(b, c);
    assert(b == c * (b / c));
    assert(b / c >= 1) by (nonlinear_arith)
        requires
            b == c * (b / c),
            b > 0,
            c > 0,
    ;
    assert(c * (b / c) >= c) by (nonlinear_arith)
        requires
            b / c >= 1,
            c > 0,
    ;
}

/// The last page base is well defined: it is a multiple of `c` that lies
/// in `[0, m)`, and the last byte of the file is on the page it starts.
proof fn lemma_end_base(m: int, l: int, c: int)
    requires
        m > 0,
        l > 0,
        c > 0,
    ensures
        0 <= end_base(m, l * c, c) <= m - 1,
        end_base(m, l * c, c) % c == 0,
        m - 1 < end_base(m, l * c, c) + l * c,
        l * c <= m ==> m - l * c - m % c >= 0,
{
    let p = l * c;
    assert(p >= c) by (nonlinear_arith)
        requires
            l > 0,
            c > 0,
            p == l * c,
    ;
    if p <= m {
        let a = m % c;
        vstd::arithmetic::div_mod::lemma_fundamental_div_mod(m, c);
        assert(m - a == c * (m / c));
        assert(m / c >= l) by (nonlinear_arith)
            requires
                m - a == c * (m / c),
                0 <= a < c,
                m >= l * c,
                c > 0,
        ;
        assert(m - a - p == c * (m / c - l)) by (nonlinear_arith)
            requires
                m - a == c * (m / c),
                p == l * c,
        ;
        assert(c * (m / c - l) >= 0) by (nonlinear_arith)
            requires
                m / c >= l,
                c > 0,
        ;
        vstd::arithmetic::div_mod::lemma_mod_multiples_basic(m / c - l, c);
        if a != 0 {
            vstd::arithmetic::div_mod::lemma_mod_multiples_basic(m / c - l + 1, c);
            assert(c * (m / c - l) + c == (m / c - l + 1) * c) by (nonlinear_arith);
        } else {
            assert(c * (m / c - l) == (m / c - l) * c) by (nonlinear_arith);
        }
    }
}

impl Cursor {
    /// Set current place (ascii/hex).
    pub fn set_place(&mut self, place: Place)
        ensures
            final(self).place == place,
            final(self).half == HalfByte::Left,
            final(self).offset == old(self).offset,
    {
        self.place = place;
        self.half = HalfByte::Left;
    }

    /// Move cursor.
    ///
    /// # Arguments
    ///
    /// * `dir` - move direction
    /// * `view` - view instance
    ///
    /// # Return value
    ///
    /// New page offset.
    #[verifier::rlimit(60)]
    pub fn move_to(&mut self, dir: &Direction, view: &HexView) -> (r: u64)
        requires
            move_ok(*old(self), *dir, *view),
        ensures
            *final(self) == spec_move(*old(self), *dir, *view).0,
            r == align_down(spec_move(*old(self), *dir, *view).1, view.columns as int),
            (r as int) % (view.columns as int) == 0,
    {
        let columns = view.columns as u64;
        let page_usize = view.lines * view.columns;
        let page_size = page_usize as u64;
        let max = view.max_offset;
        let mut new_base = view.offset;
        proof {
            assert(page_size >= columns) by (nonlinear_arith)
                requires
                    page_size == view.lines * view.columns,
                    view.lines > 0,
                    columns == view.columns,
            ;
            lemma_mod_bound(self.offset as int, columns as int);
            lemma_mod_bound(self.offset as int, WORD_SIZE as int);
            if !(*dir is Absolute) && new_base != 0 {
                lemma_aligned_positive(new_base as int, columns as int);
            }
        }
        match dir {
            Direction::PrevHalf => {
                if self.place == Place::Hex && self.half == HalfByte::Right {
                    self.half = HalfByte::Left;
                } else if self.offset != 0 {
                    if self.place == Place::Hex {
                        self.half = HalfByte::Right;
                    } else {
                        self.half = HalfByte::Left;
                    }
                    self.offset = self.offset - 1;
                }
                if self.offset < new_base {
                    new_base = new_base - columns;
                }
            },
            Direction::NextHalf => {
                if self.offset == max - 1 || (self.place == Place::Hex && self.half
                    == HalfByte::Left) {
                    self.half = HalfByte::Right;
                } else {
                    self.half = HalfByte::Left;
                    self.offset = self.offset + 1;
                    if self.offset >= new_base + page_size {
                        new_base = new_base + columns;
                    }
                }
            },
            Direction::PrevByte => {
                self.half = HalfByte::Left;
                if self.offset != 0 {
                    self.offset = self.offset - 1;
                    if self.offset < new_base {
                        new_base = new_base - columns;
                    }
                }
            },
            Direction::NextByte => {
                self.half = HalfByte::Left;
                if self.offset < max - 1 {
                    self.offset = self.offset + 1;
                    if self.offset >= new_base + page_size {
                        new_base = new_base + columns;
                    }
                }
            },
            Direction::PrevWord => {
                if self.offset != 0 {
                    let step = if self.offset % WORD_SIZE == 0 {
                        WORD_SIZE
                    } else {
                        self.offset % WORD_SIZE
                    };
                    self.offset = self.offset - step;
                    if self.offset < new_base {
                        new_base = new_base - columns;
                    }
                }
                self.half = HalfByte::Left;
            },
            Direction::NextWord => {
                self.offset = self.offset + (WORD_SIZE - self.offset % WORD_SIZE);
                if self.offset > max - 1 {
                    self.offset = max - 1;
                }
                if self.offset >= new_base + page_size {
                    new_base = new_base + columns;
                }
                self.half = HalfByte::Left;
            },
            Direction::LineBegin => {
                self.offset = self.offset - self.offset % columns;
                self.half = HalfByte::Left;
            },
            Direction::LineEnd => {
                self.offset = self.offset + (columns - self.offset % columns - 1);
                if self.offset > max - 1 {
                    self.offset = max - 1;
                }
                self.half = HalfByte::Left;
            },
            Direction::LineUp => {
                if self.offset >= columns {
                    self.offset = self.offset - columns;
                    if self.offset < new_base {
                        new_base = new_base - columns;
                    }
                }
            },
            Direction::LineDown => {
                if self.offset + columns < max {
                    self.offset = self.offset + columns;
                } else if self.offset + columns - self.offset % columns < max {
                    self.offset = max - 1;
                    self.half = HalfByte::Left;
                }
                if self.offset >= new_base + page_size {
                    new_base = new_base + columns;
                }
            },
            Direction::ScrollUp => {
                if new_base != 0 {
                    new_base = new_base - columns;
                    self.offset = self.offset - columns;
                }
            },
            Direction::ScrollDown => {
                if new_base + page_size + 1 < max {
                    new_base = new_base + columns;
                    self.offset = self.offset + columns;
                }
            },
            Direction::PageUp => {
                if new_base >= page_size {
                    new_base = new_base - page_size;
                    self.offset = self.offset - page_size;
                } else {
                    new_base = 0;
                    self.offset = 0;
                    self.half = HalfByte::Left;
                }
            },
            Direction::PageDown => {
                if new_base + page_size * 2 < max {
                    new_base = new_base + page_size;
                    self.offset = self.offset + page_size;
                } else {
                    new_base = Self::last_page_base(max, page_size, columns, Ghost(view.lines as int));
                    self.offset = max - 1;
                    self.half = HalfByte::Left;
                }
            },
            Direction::FileBegin => {
                new_base = 0;
                self.offset = 0;
                self.half = HalfByte::Left;
            },
            Direction::FileEnd => {
                self.offset = max - 1;
                self.half = HalfByte::Left;
                new_base = Self::last_page_base(max, page_size, columns, Ghost(view.lines as int));
            },
            Direction::Absolute(offset, base) => {
                self.offset = if *offset < max {
                    *offset
                } else {
                    max - 1
                };
                self.half = HalfByte::Left;

                // try to use desirable base offset
                new_base = *base;

                if self.offset < new_base || self.offset > new_base + page_size {
                    if self.offset > page_size / 3 {
                        new_base = self.offset - page_size / 3;
                    } else {
                        new_base = self.offset;
                    }
                    proof {
                        lemma_mod_bound(new_base as int, columns as int);
                    }
                    new_base = new_base - new_base % columns;
                }
                if new_base + page_size > max {
                    new_base = Self::last_page_base(max, page_size, columns, Ghost(view.lines as int));
                }
            },
        }
        proof {
            lemma_mod_bound(new_base as int, columns as int);
            assert((new_base - new_base % columns) % (columns as int) == 0) by {
                vstd::arithmetic::div_mod::lemma_fundamental_div_mod(new_base as int, columns as int);
                vstd::arithmetic::div_mod::lemma_mod_multiples_basic(new_base as int / columns as int, columns as int);
                assert(new_base - new_base % columns == (new_base as int / columns as int) * columns) by (nonlinear_arith)
                    requires
                        new_base == columns * (new_base as int / columns as int) + new_base % columns,
                ;
            }
        }
        new_base - new_base % columns
    }

    /// Base offset of the page that shows the end of the file.
    fn last_page_base(max: u64, page_size: u64, columns: u64, Ghost(lines): Ghost<int>) -> (r: u64)
        requires
            max > 0,
            columns > 0,
            lines > 0,
            page_size == lines * columns,
        ensures
            r == end_base(max as int, page_size as int, columns as int),
            r <= max - 1,
    {
        proof {
            lemma_end_base(max as int, lines, columns as int);
        }
        if page_size > max {
            0
        } else {
            let align = max % columns;
            let mut base = max - page_size - align;
            if align != 0 {
                base = base + columns;
            }
            base
        }
    }
}

impl Default for Cursor {
    fn default() -> (r: Self)
        ensures
            r.offset == u64::MAX,
            r.half == HalfByte::Left,
            r.place == Place::Hex,
    {
        Cursor { offset: u64::MAX, half: HalfByte::Left, place: Place::Hex }
    }
}

/// The cursor is inside the file and on the page that starts at the
/// (line aligned) base offset of the view.
pub open spec fn on_page(cur: Cursor, v: HexView) -> bool {
    &&& (v.offset as int) % (v.columns as int) == 0
    &&& v.offset <= cur.offset < v.offset + v.lines * v.columns
    &&& cur.offset < v.max_offset
}

/// The start of the line that holds `o` lies on the page and so does its
/// last byte.
proof fn lemma_line_on_page(o: int, b: int, c: int, l: int)
    requires
        c > 0,
        l > 0,
        b >= 0,
        b % c == 0,
        b <= o < b + l * c,
    ensures
        b <= o - o % c,
        o - o % c + c <= b + l * c,
        (o - o % c) % c == 0,
{
    vstd::arithmetic::div_mod::lemma_fundamental_div_mod(o, c);
    vstd::arithmetic::div_mod::lemma_fundamental_div_mod(b, c);
    let q = o / c;
    let bq = b / c;
    assert(o - o % c == c * q);
    assert(b == c * bq);
    assert(0 <= o % c < c);
    assert(bq <= q) by (nonlinear_arith)
        requires
            c * bq <= o,
            o == c * q + o % c,
            0 <= o % c < c,
            c > 0,
    ;
    assert(q < bq + l) by (nonlinear_arith)
        requires
            o < c * bq + l * c,
            o == c * q + o % c,
            0 <= o % c,
            c > 0,
    ;
    assert(c * bq <= c * q) by (nonlinear_arith)
        requires
            bq <= q,
            c > 0,
    ;
    assert(c * q + c <= c * bq + l * c) by (nonlinear_arith)
        requires
            q + 1 <= bq + l,
            c > 0,
    ;
    vstd::arithmetic::div_mod::lemma_mod_multiples_basic(q, c);
    assert(c * q == q * c) by (nonlinear_arith);
}

/// A cursor that is inside the file and on the page stays inside the file
/// with every move but scrolling down, and stays on the (possibly moved)
/// page, whose base stays a multiple of the line size, with every move but
/// a jump to an absolute offset.
#[verifier::rlimit(80)]
pub proof fn law_move_keeps_cursor_on_page(cur: Cursor, dir: Direction, v: HexView)
    requires
        geometry_ok(v),
        on_page(cur, v),
        (dir == Direction::PrevWord || dir == Direction::NextWord) ==> (v.columns as int) % (WORD_SIZE as int) == 0,
    ensures
        ({
            let (nc, nb) = spec_move(cur, dir, v);
            let c = v.columns as int;
            &&& !(dir is Absolute) ==> align_down(nb, c) == nb
            &&& !(dir is Absolute) ==> nb <= nc.offset < nb + v.lines * v.columns
            &&& dir != Direction::ScrollDown ==> nc.offset < v.max_offset
        }),
{
    let o = cur.offset as int;
    let b = v.offset as int;
    let m = v.max_offset as int;
    let c = v.columns as int;
    let l = v.lines as int;
    let p = l * c;
    assert(p >= c) by (nonlinear_arith)
        requires
            l > 0,
            c > 0,
            p == l * c,
    ;
    if dir == Direction::PrevWord || dir == Direction::NextWord {
        assert(c >= 4) by (nonlinear_arith)
            requires
                c > 0,
                c % 4 == 0,
        ;
    }
    lemma_mod_bound(o, c);
    lemma_mod_bound(o, 4);
    lemma_line_on_page(o, b, c, l);
    lemma_end_base(m, l, c);
    if b != 0 {
        lemma_aligned_positive(b, c);
    }
    // the bases that a move may choose are multiples of the line size
    vstd::arithmetic::div_mod::lemma_fundamental_div_mod(b, c);
    let bq = b / c;
    assert(b == bq * c) by (nonlinear_arith)
        requires
            b == c * bq + b % c,
            b % c == 0,
    ;
    assert((bq - 1) * c == b - c && (bq + 1) * c == b + c && (bq - l) * c == b - p && (bq + l) * c
        == b + p) by (nonlinear_arith)
        requires
            b == bq * c,
            p == l * c,
    ;
    vstd::arithmetic::div_mod::lemma_mod_multiples_basic(bq - 1, c);
    vstd::arithmetic::div_mod::lemma_mod_multiples_basic(bq + 1, c);
    vstd::arithmetic::div_mod::lemma_mod_multiples_basic(bq - l, c);
    vstd::arithmetic::div_mod::lemma_mod_multiples_basic(bq + l, c);
    vstd::arithmetic::div_mod::lemma_mod_multiples_basic(0, c);
    let (nc, nb) = spec_move(cur, dir, v);
    match dir {
        Direction::PrevHalf | Direction::PrevByte | Direction::LineUp | Direction::ScrollUp => {
            assert(nb == b || nb == b - c);
        },
        Direction::NextHalf | Direction::NextByte | Direction::NextWord | Direction::LineDown => {
            assert(nb == b || nb == b + c);
        },
        Direction::PrevWord => {
            assert(nb == b || nb == b - c);
        },
        Direction::PageUp | Direction::PageDown => {
            assert(nb == b - p || nb == b + p || nb == 0 || nb == end_base(m, p, c));
        },
        Direction::ScrollDown => {
            assert(nb == b || nb == b + c);
        },
        _ => {},
    }
}

/// Jumping to an absolute offset puts the cursor on the chosen offset (or
/// the last byte of the file), at most one page past the returned base: on
/// the page that starts there, or on the first byte after it where the
/// target lies exactly one page past the desired base. This holds when the
/// desired base is line aligned and a page holds more than one line.
pub proof fn law_absolute_lands_on_page(cur: Cursor, target: u64, desired: u64, v: HexView)
    requires
        geometry_ok(v),
        desired + v.lines * v.columns <= u64::MAX,
        (desired as int) % (v.columns as int) == 0,
        v.lines >= 2,
    ensures
        ({
            let (nc, nb) = spec_move(cur, Direction::Absolute(target, desired), v);
            let base = align_down(nb, v.columns as int);
            &&& nc.offset == (if target < v.max_offset {
                target
            } else {
                (v.max_offset - 1) as u64
            })
            &&& nc.half == HalfByte::Left
            &&& base <= nc.offset <= base + v.lines * v.columns
        }),
{
    let m = v.max_offset as int;
    let c = v.columns as int;
    let l = v.lines as int;
    let p = l * c;
    let no = if target < m {
        target as int
    } else {
        m - 1
    };
    let db = desired as int;
    lemma_end_base(m, l, c);
    lemma_mod_bound(db, c);
    let x = if no > p / 3 {
        no - p / 3
    } else {
        no
    };
    lemma_mod_bound(x, c);
    let nb = if no < db || no > db + p {
        align_down(x, c)
    } else {
        db
    };
    assert(p / 3 + c <= p) by (nonlinear_arith)
        requires
            p == l * c,
            l >= 2,
            c > 0,
    ;
    // `nb` is a multiple of `c` that is not above the cursor
    vstd::arithmetic::div_mod::lemma_fundamental_div_mod(x, c);
    vstd::arithmetic::div_mod::lemma_mod_multiples_basic(x / c, c);
    assert(x - x % c == (x / c) * c) by (nonlinear_arith)
        requires
            x == c * (x / c) + x % c,
    ;
    assert(nb % c == 0);
    assert(nb <= no);
    if nb + p > m && p <= m {
        // the last page starts at the smallest multiple of `c` not below `m - p`
        let a = m % c;
        vstd::arithmetic::div_mod::lemma_fundamental_div_mod(m, c);
        vstd::arithmetic::div_mod::lemma_fundamental_div_mod(nb, c);
        let e = end_base(m, p, c);
        assert(m - a == c * (m / c));
        assert(nb == c * (nb / c));
        if a != 0 {
            assert(e == c * (m / c) - p + c);
            assert(nb / c > m / c - l) by (nonlinear_arith)
                requires
                    c * (nb / c) + p > c * (m / c) + a,
                    p == l * c,
                    0 <= a < c,
                    c > 0,
            ;
            assert(c * (nb / c) >= c * (m / c - l + 1)) by (nonlinear_arith)
                requires
                    nb / c >= m / c - l + 1,
                    c > 0,
            ;
            assert(c * (m / c - l + 1) == c * (m / c) - p + c) by (nonlinear_arith)
                requires
                    p == l * c,
            ;
        } else {
            assert(e == c * (m / c) - p);
        }
        assert(e <= nb);
    }
    vstd::arithmetic::div_mod::lemma_mod_multiples_basic(0, c);
}

/// Moving to the previous byte undoes a move to the next one, where there
/// is a next byte.
pub proof fn law_prev_byte_undoes_next(cur: Cursor, v: HexView, w: HexView)
    requires
        cur.offset + 1 < v.max_offset,
    ensures
        ({
            let next = spec_move(cur, Direction::NextByte, v).0;
            let back = spec_move(next, Direction::PrevByte, w).0;
            &&& back.offset == cur.offset
            &&& back.half == HalfByte::Left
            &&& back.place == cur.place
        }),
{
}

/// In the hex field, moving to the previous half byte undoes a move to the
/// next one, where there is a next one.
pub proof fn law_prev_half_undoes_next(cur: Cursor, v: HexView, w: HexView)
    requires
        cur.place == Place::Hex,
        cur.half == HalfByte::Left || cur.offset + 1 < v.max_offset,
    ensures
        ({
            let next = spec_move(cur, Direction::NextHalf, v).0;
            let back = spec_move(next, Direction::PrevHalf, w).0;
            &&& back.offset == cur.offset
            &&& back.half == cur.half
            &&& back.place == cur.place
        }),
{
}

/// The End key moves the cursor to the last byte of its line that lies in
/// the file: the cursor stays on its line (a cursor inside the file), lands
/// on the line's last column or on the file's last byte, and the page stays.
pub proof fn law_line_end(cur: Cursor, v: HexView)
    requires
        geometry_ok(v),
    ensures
        ({
            let (nc, nb) = spec_move(cur, Direction::LineEnd, v);
            let o = cur.offset as int;
            let c = v.columns as int;
            let line_start = o - o % c;
            &&& nc.offset == (if line_start + c - 1 < v.max_offset {
                line_start + c - 1
            } else {
                v.max_offset - 1
            })
            &&& nc.half == HalfByte::Left
            &&& nc.place == cur.place
            &&& nb == v.offset
            &&& cur.offset < v.max_offset ==> (nc.offset as int) / c == o / c && cur.offset <= nc.offset
            &&& (nc.offset as int) % c == c - 1 || nc.offset == v.max_offset - 1
        }),
{
    let o = cur.offset as int;
    let c = v.columns as int;
    let m = v.max_offset as int;
    let (nc, nb) = spec_move(cur, Direction::LineEnd, v);
    vstd::arithmetic::div_mod::lemma_fundamental_div_mod(o, c);
    let q = o / c;
    let r = o % c;
    assert(0 <= r < c);
    assert(o - r == c * q);
    if o - r + c - 1 < m {
        vstd::arithmetic::div_mod::lemma_fundamental_div_mod_converse(o - r + c - 1, c, q, c - 1);
    } else if o < m {
        let x = m - 1;
        assert(c * q <= x < c * q + c);
        vstd::arithmetic::div_mod::lemma_fundamental_div_mod_converse(x, c, q, x - c * q);
    }
}

/// Byte and half byte moves: the next byte is one further (the last byte
/// of the file stays), the previous one back (the first byte stays); in
/// the hex field a half byte move goes between the two halves of a byte
/// and on to the neighbouring byte.
pub proof fn law_byte_moves(cur: Cursor, v: HexView)
    requires
        geometry_ok(v),
        cur.offset < v.max_offset,
    ensures
        ({
            let o = cur.offset as int;
            let m = v.max_offset as int;
            let next = spec_move(cur, Direction::NextByte, v).0;
            let prev = spec_move(cur, Direction::PrevByte, v).0;
            let next_half = spec_move(cur, Direction::NextHalf, v).0;
            let prev_half = spec_move(cur, Direction::PrevHalf, v).0;
            &&& next.offset == (if o + 1 < m {
                o + 1
            } else {
                o
            }) && next.half == HalfByte::Left && next.place == cur.place
            &&& prev.offset == (if o > 0 {
                o - 1
            } else {
                o
            }) && prev.half == HalfByte::Left && prev.place == cur.place
            &&& next_half.place == cur.place && prev_half.place == cur.place
            &&& cur.place == Place::Hex && cur.half == HalfByte::Left ==> next_half.offset == o && next_half.half
                == HalfByte::Right
            &&& !(cur.place == Place::Hex && cur.half == HalfByte::Left) && o + 1 < m ==> next_half.offset == o + 1
                && next_half.half == HalfByte::Left
            &&& cur.place == Place::Hex && cur.half == HalfByte::Right ==> prev_half.offset == o && prev_half.half
                == HalfByte::Left
            &&& !(cur.place == Place::Hex && cur.half == HalfByte::Right) && o > 0 ==> prev_half.offset == o - 1
                && prev_half.half == (if cur.place == Place::Hex {
                HalfByte::Right
            } else {
                HalfByte::Left
            })
            &&& !(cur.place == Place::Hex && cur.half == HalfByte::Right) && o == 0 ==> prev_half == cur
        }),
{
}

/// Word moves go to the start of a 4-byte word: the next word starts above
/// the cursor, at most a word further (the last byte of the file where
/// that lies beyond it), the previous word below the cursor, at most a word
/// back (the first byte stays).
pub proof fn law_word_moves(cur: Cursor, v: HexView)
    requires
        geometry_ok(v),
        cur.offset < v.max_offset,
    ensures
        ({
            let o = cur.offset as int;
            let m = v.max_offset as int;
            let next = spec_move(cur, Direction::NextWord, v).0;
            let prev = spec_move(cur, Direction::PrevWord, v).0;
            &&& next.half == HalfByte::Left && next.place == cur.place
            &&& prev.half == HalfByte::Left && prev.place == cur.place
            &&& next.offset == m - 1 || (next.offset % 4 == 0 && o < next.offset <= o + 4)
            &&& next.offset < m
            &&& o + 4 < m ==> next.offset % 4 == 0 && o < next.offset <= o + 4
            &&& o > 0 ==> prev.offset % 4 == 0 && o - 4 <= prev.offset < o
            &&& o == 0 ==> prev.offset == 0
        }),
{
    let o = cur.offset as int;
    lemma_mod_bound(o, 4);
    lemma_mod_bound(o - 1, 4);
    vstd::arithmetic::div_mod::lemma_fundamental_div_mod(o, 4);
    vstd::arithmetic::div_mod::lemma_mod_multiples_basic(o / 4 + 1, 4);
    if o > 0 {
        vstd::arithmetic::div_mod::lemma_fundamental_div_mod(o - 1, 4);
        vstd::arithmetic::div_mod::lemma_mod_multiples_basic((o - 1) / 4, 4);
    }
}

/// Line moves: Home goes to the first byte of the line, a line up or down
/// is a line width back or further with the same half; at the bottom a
/// move down goes to the last byte where the next line is only partly in
/// the file, and stays otherwise; at the top a move up stays.
pub proof fn law_line_moves(cur: Cursor, v: HexView)
    requires
        geometry_ok(v),
        cur.offset < v.max_offset,
    ensures
        ({
            let o = cur.offset as int;
            let m = v.max_offset as int;
            let c = v.columns as int;
            let (begin, begin_base) = spec_move(cur, Direction::LineBegin, v);
            let up = spec_move(cur, Direction::LineUp, v).0;
            let down = spec_move(cur, Direction::LineDown, v).0;
            &&& (begin.offset as int) % c == 0 && begin.offset <= o < begin.offset + c
            &&& begin.half == HalfByte::Left && begin.place == cur.place && begin_base == v.offset
            &&& o >= c ==> up.offset == o - c && up.half == cur.half && up.place == cur.place
            &&& o < c ==> up == cur
            &&& o + c < m ==> down.offset == o + c && down.half == cur.half && down.place == cur.place
            &&& o + c >= m && o - o % c + c < m ==> down.offset == m - 1 && down.half == HalfByte::Left
                && down.place == cur.place
            &&& o - o % c + c >= m ==> down == cur
        }),
{
    let o = cur.offset as int;
    let c = v.columns as int;
    lemma_mod_bound(o, c);
    vstd::arithmetic::div_mod::lemma_fundamental_div_mod(o, c);
    vstd::arithmetic::div_mod::lemma_mod_multiples_basic(o / c, c);
    assert(c * (o / c) == (o / c) * c) by (nonlinear_arith);
    assert(o + c - c >= 0);
}

/// Page and file moves: the first and last byte of the file with their
/// pages; a page up or down moves the cursor and the page by a page where
/// a whole page lies there, and goes to the first or last byte otherwise;
/// scrolling moves the cursor and the page by a line where the file goes
/// on, and stays otherwise.
pub proof fn law_page_moves(cur: Cursor, v: HexView)
    requires
        geometry_ok(v),
        v.offset <= cur.offset < v.max_offset,
        (v.offset as int) % (v.columns as int) == 0,
    ensures
        ({
            let o = cur.offset as int;
            let m = v.max_offset as int;
            let c = v.columns as int;
            let b = v.offset as int;
            let p = v.lines * v.columns;
            let (first, first_base) = spec_move(cur, Direction::FileBegin, v);
            let (last, last_base) = spec_move(cur, Direction::FileEnd, v);
            let (up, up_base) = spec_move(cur, Direction::PageUp, v);
            let (down, down_base) = spec_move(cur, Direction::PageDown, v);
            let (sup, sup_base) = spec_move(cur, Direction::ScrollUp, v);
            let (sdown, sdown_base) = spec_move(cur, Direction::ScrollDown, v);
            &&& first.offset == 0 && first.half == HalfByte::Left && first.place == cur.place && first_base == 0
            &&& last.offset == m - 1 && last.half == HalfByte::Left && last.place == cur.place && last_base
                <= m - 1 < last_base + p && last_base % c == 0
            &&& b >= p ==> up.offset == o - p && up.half == cur.half && up_base == b - p
            &&& b < p ==> up.offset == 0 && up.half == HalfByte::Left && up_base == 0
            &&& b + 2 * p < m ==> down.offset == o + p && down.half == cur.half && down_base == b + p
            &&& b + 2 * p >= m ==> down.offset == m - 1 && down.half == HalfByte::Left && down_base == last_base
            &&& up.place == cur.place && down.place == cur.place
            &&& b != 0 ==> sup.offset == o - c && sup.half == cur.half && sup.place == cur.place && sup_base == b - c
            &&& b == 0 ==> sup == cur && sup_base == b
            &&& b + p + 1 < m ==> sdown.offset == o + c && sdown.half == cur.half && sdown.place == cur.place
                && sdown_base == b + c
            &&& b + p + 1 >= m ==> sdown == cur && sdown_base == b
        }),
{
    let m = v.max_offset as int;
    let c = v.columns as int;
    let p = v.lines * v.columns;
    assert(p >= c) by (nonlinear_arith)
        requires
            v.lines > 0,
            c > 0,
            p == v.lines * c,
    ;
    lemma_end_base(m, v.lines as int, c);
    if v.offset != 0 {
        lemma_aligned_positive(v.offset as int, c);
    }
}

} // verus!
