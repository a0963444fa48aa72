//! App configuration: view mode, ASCII table and the color palette, read
//! from the ini form of the configuration file.
use crate::curses::Color;
use crate::inifile::{lemma_keyval_line, lines_view, lookup, spec_get_strval, spec_keyval, IniFile};
use crate::num::{
    digit_value, lemma_digits_roundtrip, lemma_parse_signed_dec, parse_i64, spec_digits, spec_parse_i64, spec_signed_dec,
};
use crate::text::{
    find_char, first_index_of, from_chars, is_first, lemma_first_index_of, lemma_trim_plain, lowercase, spec_is_whitespace,
    spec_lowercase, spec_trim, str_eq, to_chars, trim,
};
use vstd::prelude::*;
use vstd::string::StringExecFns;

verus! {

/// A pair of colors: foreground and background.
pub type ColorPair = (i16, i16);

/// Color palette.
#[derive(Clone, Copy, Debug)]
pub struct Palette {
    pub general: ColorPair,
    pub highlight: ColorPair,
    pub offset: ColorPair,
    pub ascii: ColorPair,
    pub modified: ColorPair,
    pub diff: ColorPair,
    pub bar: ColorPair,
    pub dialog: ColorPair,
    pub error: ColorPair,
    pub disabled: ColorPair,
    pub focused: ColorPair,
    pub input: ColorPair,
    pub select: ColorPair,
}

/// Number as `i16`'s `FromStr` reads it (decimal, optional sign).
pub open spec fn spec_parse_i16(s: Seq<char>) -> Option<i16> {
    match spec_parse_i64(s, 10) {
        Some(v) => if -0x8000 <= v <= 0x7fff {
            Some(v as i16)
        } else {
            None
        },
        None => None,
    }
}

/// Palette with the color `key` set to `c` (unknown keys change nothing).
pub open spec fn set_color(p: Palette, key: Seq<char>, c: ColorPair) -> Palette {
    if key == "general"@ {
        Palette { general: c, ..p }
    } else if key == "highlight"@ {
        Palette { highlight: c, ..p }
    } else if key == "offset"@ {
        Palette { offset: c, ..p }
    } else if key == "ascii"@ {
        Palette { ascii: c, ..p }
    } else if key == "modified"@ {
        Palette { modified: c, ..p }
    } else if key == "diff"@ {
        Palette { diff: c, ..p }
    } else if key == "bar"@ {
        Palette { bar: c, ..p }
    } else if key == "dialog"@ {
        Palette { dialog: c, ..p }
    } else if key == "error"@ {
        Palette { error: c, ..p }
    } else if key == "disabled"@ {
        Palette { disabled: c, ..p }
    } else if key == "focused"@ {
        Palette { focused: c, ..p }
    } else if key == "input"@ {
        Palette { input: c, ..p }
    } else if key == "select"@ {
        Palette { select: c, ..p }
    } else {
        p
    }
}

/// Colors of a `key = fg, bg` value: two numbers around the first comma.
pub open spec fn spec_color_pair(value: Seq<char>) -> Option<ColorPair> {
    match first_index_of(value, ',') {
        Some(i) => match (
            spec_parse_i16(spec_trim(value.subrange(0, i))),
            spec_parse_i16(spec_trim(value.subrange(i + 1, value.len() as int))),
        ) {
            (Some(fg), Some(bg)) => Some((fg, bg)),
            _ => None,
        },
        None => None,
    }
}

/// Palette after reading one line of the colors section.
pub open spec fn palette_line(p: Palette, line: Seq<char>) -> Palette {
    match spec_keyval(line) {
        Some((key, value)) => match spec_color_pair(value) {
            Some(c) => set_color(p, key, c),
            None => p,
        },
        None => p,
    }
}

/// Palette after reading the lines of the colors section in order.
pub open spec fn palette_after(p: Palette, lines: Seq<Seq<char>>) -> Palette
    decreases lines.len(),
{
    if lines.len() == 0 {
        p
    } else {
        palette_line(palette_after(p, lines.drop_last()), lines.last())
    }
}

/// Characters of a decimal number (a minus sign, then digits) are neither
/// whitespace nor commas.
proof fn lemma_signed_dec_chars(n: int)
    ensures
        spec_signed_dec(n).len() > 0,
        forall|i: int|
            0 <= i < spec_signed_dec(n).len() ==> !spec_is_whitespace(#[trigger] spec_signed_dec(n)[i])
                && spec_signed_dec(n)[i] != ',',
        !spec_is_whitespace(spec_signed_dec(n).last()),
{
    let m: nat = if n < 0 {
        (-n) as nat
    } else {
        n as nat
    };
    let d = spec_digits(m, 10);
    let t = spec_signed_dec(n);
    lemma_digits_roundtrip(m, 10);
    assert forall|i: int| 0 <= i < t.len() implies !spec_is_whitespace(#[trigger] t[i]) && t[i] != ',' by {
        if n < 0 && i == 0 {
            assert(t[0] == '-');
        } else {
            let k = if n < 0 {
                i - 1
            } else {
                i
            };
            assert(t[i] == d[k]);
            assert(0 <= digit_value(d[k]));
        }
    }
    assert(t.last() == t[t.len() - 1]);
}

/// The text `fg,bg` of two decimal colors is trimmed and reads back as the
/// pair.
proof fn lemma_pair_text(fg: i16, bg: i16)
    ensures
        spec_trim(spec_signed_dec(fg as int) + ","@ + spec_signed_dec(bg as int)) == spec_signed_dec(fg as int) + ","@
            + spec_signed_dec(bg as int),
        spec_color_pair(spec_signed_dec(fg as int) + ","@ + spec_signed_dec(bg as int)) == Some((fg, bg)),
{
    reveal_strlit(",");
    let a = spec_signed_dec(fg as int);
    let b = spec_signed_dec(bg as int);
    let x = a + ","@ + b;
    lemma_signed_dec_chars(fg as int);
    lemma_signed_dec_chars(bg as int);
    assert(x[0] == a[0]);
    assert(x.last() == b.last());
    lemma_trim_plain(x);
    lemma_trim_plain(a);
    lemma_trim_plain(b);
    assert(is_first(x, ',', a.len() as int)) by {
        assert forall|k: int| 0 <= k < a.len() implies x[k] != ',' by {
            assert(x[k] == a[k]);
        }
    }
    lemma_first_index_of(x, ',', a.len() as int);
    assert(x.subrange(0, a.len() as int) =~= a);
    assert(x.subrange(a.len() as int + 1, x.len() as int) =~= b);
    lemma_parse_signed_dec(fg as int);
    lemma_parse_signed_dec(bg as int);
}

/// A color line `key = fg,bg`, with the colors in decimal and a key in
/// lower case (without `=` and without whitespace around it), sets that
/// color of the palette to the pair.
pub proof fn law_color_line(p: Palette, key: Seq<char>, fg: i16, bg: i16)
    requires
        forall|i: int| 0 <= i < key.len() ==> key[i] != '=',
        spec_trim(key) == key,
        spec_lowercase(key) == key,
    ensures
        palette_line(p, key + " = "@ + (spec_signed_dec(fg as int) + ","@ + spec_signed_dec(bg as int))) == set_color(
            p,
            key,
            (fg, bg),
        ),
{
    lemma_keyval_line(key, spec_signed_dec(fg as int) + ","@ + spec_signed_dec(bg as int));
    lemma_pair_text(fg, bg);
}

/// Each color name sets the color of that name, and a name that is none
/// of them changes nothing.
pub proof fn law_color_names(p: Palette, c: ColorPair, other: Seq<char>)
    requires
        other != "general"@,
        other != "highlight"@,
        other != "offset"@,
        other != "ascii"@,
        other != "modified"@,
        other != "diff"@,
        other != "bar"@,
        other != "dialog"@,
        other != "error"@,
        other != "disabled"@,
        other != "focused"@,
        other != "input"@,
        other != "select"@,
    ensures
        set_color(p, "general"@, c).general == c,
        set_color(p, "highlight"@, c).highlight == c,
        set_color(p, "offset"@, c).offset == c,
        set_color(p, "ascii"@, c).ascii == c,
        set_color(p, "modified"@, c).modified == c,
        set_color(p, "diff"@, c).diff == c,
        set_color(p, "bar"@, c).bar == c,
        set_color(p, "dialog"@, c).dialog == c,
        set_color(p, "error"@, c).error == c,
        set_color(p, "disabled"@, c).disabled == c,
        set_color(p, "focused"@, c).focused == c,
        set_color(p, "input"@, c).input == c,
        set_color(p, "select"@, c).select == c,
        set_color(p, other, c) == p,
{
    reveal_strlit("general");
    reveal_strlit("highlight");
    reveal_strlit("offset");
    reveal_strlit("ascii");
    reveal_strlit("modified");
    reveal_strlit("diff");
    reveal_strlit("bar");
    reveal_strlit("dialog");
    reveal_strlit("error");
    reveal_strlit("disabled");
    reveal_strlit("focused");
    reveal_strlit("input");
    reveal_strlit("select");
    assert("highlight"@.len() != "general"@.len());
    assert("offset"@.len() != "general"@.len());
    assert("offset"@.len() != "highlight"@.len());
    assert("ascii"@.len() != "general"@.len());
    assert("ascii"@.len() != "highlight"@.len());
    assert("ascii"@.len() != "offset"@.len());
    assert("modified"@.len() != "general"@.len());
    assert("modified"@.len() != "highlight"@.len());
    assert("modified"@.len() != "offset"@.len());
    assert("modified"@.len() != "ascii"@.len());
    assert("diff"@.len() != "general"@.len());
    assert("diff"@.len() != "highlight"@.len());
    assert("diff"@.len() != "offset"@.len());
    assert("diff"@.len() != "ascii"@.len());
    assert("diff"@.len() != "modified"@.len());
    assert("bar"@.len() != "general"@.len());
    assert("bar"@.len() != "highlight"@.len());
    assert("bar"@.len() != "offset"@.len());
    assert("bar"@.len() != "ascii"@.len());
    assert("bar"@.len() != "modified"@.len());
    assert("bar"@.len() != "diff"@.len());
    assert("dialog"@.len() != "general"@.len());
    assert("dialog"@.len() != "highlight"@.len());
    assert("dialog"@[0] != "offset"@[0]);
    assert("dialog"@.len() != "ascii"@.len());
    assert("dialog"@.len() != "modified"@.len());
    assert("dialog"@.len() != "diff"@.len());
    assert("dialog"@.len() != "bar"@.len());
    assert("error"@.len() != "general"@.len());
    assert("error"@.len() != "highlight"@.len());
    assert("error"@.len() != "offset"@.len());
    assert("error"@[0] != "ascii"@[0]);
    assert("error"@.len() != "modified"@.len());
    assert("error"@.len() != "diff"@.len());
    assert("error"@.len() != "bar"@.len());
    assert("error"@.len() != "dialog"@.len());
    assert("disabled"@.len() != "general"@.len());
    assert("disabled"@.len() != "highlight"@.len());
    assert("disabled"@.len() != "offset"@.len());
    assert("disabled"@.len() != "ascii"@.len());
    assert("disabled"@[0] != "modified"@[0]);
    assert("disabled"@.len() != "diff"@.len());
    assert("disabled"@.len() != "bar"@.len());
    assert("disabled"@.len() != "dialog"@.len());
    assert("disabled"@.len() != "error"@.len());
    assert("focused"@[0] != "general"@[0]);
    assert("focused"@.len() != "highlight"@.len());
    assert("focused"@.len() != "offset"@.len());
    assert("focused"@.len() != "ascii"@.len());
    assert("focused"@.len() != "modified"@.len());
    assert("focused"@.len() != "diff"@.len());
    assert("focused"@.len() != "bar"@.len());
    assert("focused"@.len() != "dialog"@.len());
    assert("focused"@.len() != "error"@.len());
    assert("focused"@.len() != "disabled"@.len());
    assert("input"@.len() != "general"@.len());
    assert("input"@.len() != "highlight"@.len());
    assert("input"@.len() != "offset"@.len());
    assert("input"@[0] != "ascii"@[0]);
    assert("input"@.len() != "modified"@.len());
    assert("input"@.len() != "diff"@.len());
    assert("input"@.len() != "bar"@.len());
    assert("input"@.len() != "dialog"@.len());
    assert("input"@[0] != "error"@[0]);
    assert("input"@.len() != "disabled"@.len());
    assert("input"@.len() != "focused"@.len());
    assert("select"@.len() != "general"@.len());
    assert("select"@.len() != "highlight"@.len());
    assert("select"@[0] != "offset"@[0]);
    assert("select"@.len() != "ascii"@.len());
    assert("select"@.len() != "modified"@.len());
    assert("select"@.len() != "diff"@.len());
    assert("select"@.len() != "bar"@.len());
    assert("select"@[0] != "dialog"@[0]);
    assert("select"@.len() != "error"@.len());
    assert("select"@.len() != "disabled"@.len());
    assert("select"@.len() != "focused"@.len());
    assert("select"@.len() != "input"@.len());
}

/// Color table of a palette.
pub open spec fn spec_colors(p: Palette) -> Seq<(Color, i16, i16)> {
    seq![
        (Color::HexNorm, p.general.0, p.general.1),
        (Color::HexMod, p.modified.0, p.modified.1),
        (Color::HexDiff, p.diff.0, p.diff.1),
        (Color::HexNormHi, p.highlight.0, p.highlight.1),
        (Color::HexModHi, p.modified.0, p.highlight.1),
        (Color::HexDiffHi, p.diff.0, p.highlight.1),
        (Color::AsciiNorm, p.ascii.0, p.ascii.1),
        (Color::AsciiMod, p.modified.0, p.modified.1),
        (Color::AsciiDiff, p.diff.0, p.diff.1),
        (Color::AsciiNormHi, p.highlight.0, p.highlight.1),
        (Color::AsciiModHi, p.modified.0, p.highlight.1),
        (Color::AsciiDiffHi, p.diff.0, p.highlight.1),
        (Color::Offset, p.offset.0, p.offset.1),
        (Color::OffsetHi, p.highlight.0, p.highlight.1),
        (Color::Bar, p.bar.0, p.bar.1),
        (Color::Dialog, p.dialog.0, p.dialog.1),
        (Color::Error, p.error.0, p.error.1),
        (Color::Disabled, p.disabled.0, p.disabled.1),
        (Color::Focused, p.focused.0, p.focused.1),
        (Color::Input, p.input.0, p.input.1),
        (Color::Select, p.select.0, p.select.1),
    ]
}

/// Default color palette for the dark theme.
pub open spec fn dark_palette() -> Palette {
    Palette {
        general: (-1i16, -1i16),
        highlight: (-1i16, 235i16),
        offset: (241i16, -1i16),
        ascii: (241i16, -1i16),
        modified: (220i16, -1i16),
        diff: (124i16, -1i16),
        bar: (242i16, 236i16),
        dialog: (235i16, 245i16),
        error: (250i16, 88i16),
        disabled: (239i16, 245i16),
        focused: (250i16, 238i16),
        input: (235i16, 243i16),
        select: (250i16, 235i16),
    }
}

/// Default color palette for the light theme.
pub open spec fn light_palette() -> Palette {
    Palette {
        general: (7i16, 4i16),
        highlight: (0i16, 12i16),
        offset: (7i16, 4i16),
        ascii: (7i16, 4i16),
        modified: (11i16, 4i16),
        diff: (1i16, 4i16),
        bar: (0i16, 6i16),
        dialog: (0i16, 7i16),
        error: (15i16, 1i16),
        disabled: (8i16, 7i16),
        focused: (0i16, 6i16),
        input: (0i16, 6i16),
        select: (15i16, 0i16),
    }
}

impl Palette {
    /// Default color palette for the dark theme.
    pub fn dark() -> (r: Palette)
        ensures
            r == dark_palette(),
    {
        Palette {
            general: (-1, -1),
            highlight: (-1, 235),
            offset: (241, -1),
            ascii: (241, -1),
            modified: (220, -1),
            diff: (124, -1),
            bar: (242, 236),
            dialog: (235, 245),
            error: (250, 88),
            disabled: (239, 245),
            focused: (250, 238),
            input: (235, 243),
            select: (250, 235),
        }
    }

    /// Default color palette for the light theme.
    pub fn light() -> (r: Palette)
        ensures
            r == light_palette(),
    {
        Palette {
            general: (7, 4),
            highlight: (0, 12),
            offset: (7, 4),
            ascii: (7, 4),
            modified: (11, 4),
            diff: (1, 4),
            bar: (0, 6),
            dialog: (0, 7),
            error: (15, 1),
            disabled: (8, 7),
            focused: (0, 6),
            input: (0, 6),
            select: (15, 0),
        }
    }

    /// Set the color named `key` (unknown names change nothing).
    fn set(&mut self, key: &str, c: ColorPair)
        ensures
            *final(self) == set_color(*old(self), key@, c),
    {
        proof {
            reveal_strlit("general");
            reveal_strlit("highlight");
            reveal_strlit("offset");
            reveal_strlit("ascii");
            reveal_strlit("modified");
            reveal_strlit("diff");
            reveal_strlit("bar");
            reveal_strlit("dialog");
            reveal_strlit("error");
            reveal_strlit("disabled");
            reveal_strlit("focused");
            reveal_strlit("input");
            reveal_strlit("select");
        }
        if str_eq(key, "general") {
            self.general = c;
        } else if str_eq(key, "highlight") {
            self.highlight = c;
        } else if str_eq(key, "offset") {
            self.offset = c;
        } else if str_eq(key, "ascii") {
            self.ascii = c;
        } else if str_eq(key, "modified") {
            self.modified = c;
        } else if str_eq(key, "diff") {
            self.diff = c;
        } else if str_eq(key, "bar") {
            self.bar = c;
        } else if str_eq(key, "dialog") {
            self.dialog = c;
        } else if str_eq(key, "error") {
            self.error = c;
        } else if str_eq(key, "disabled") {
            self.disabled = c;
        } else if str_eq(key, "focused") {
            self.focused = c;
        } else if str_eq(key, "input") {
            self.input = c;
        } else if str_eq(key, "select") {
            self.select = c;
        }
    }

    /// Parse ini section with palette setup: each `name = fg, bg` line sets
    /// a color.
    pub fn parse(&mut self, section: &Vec<String>)
        ensures
            *final(self) == palette_after(*old(self), lines_view(section@)),
    {
        let ghost lv = lines_view(section@);
        let mut i: usize = 0;
        while i < section.len()
            invariant
                lv == lines_view(section@),
                i <= section@.len(),
                *self == palette_after(*old(self), lv.subrange(0, i as int)),
            decreases section.len() - i,
        {
            proof {
                assert(lv.subrange(0, i + 1).drop_last() =~= lv.subrange(0, i as int));
                assert(lv.subrange(0, i + 1).last() == section@[i as int]@);
            }
            if let Some((key, val)) = IniFile::keyval(section[i].as_str()) {
                if let Some(c) = color_pair(val.as_str()) {
                    self.set(key.as_str(), c);
                }
            }
            i = i + 1;
        }
        assert(lv.subrange(0, i as int) =~= lv);
    }

    /// Compose color table from palette.
    pub fn colors(&self) -> (r: Vec<(Color, i16, i16)>)
        ensures
            r@ == spec_colors(*self),
    {
        let r = vec![
            (Color::HexNorm, self.general.0, self.general.1),
            (Color::HexMod, self.modified.0, self.modified.1),
            (Color::HexDiff, self.diff.0, self.diff.1),
            (Color::HexNormHi, self.highlight.0, self.highlight.1),
            (Color::HexModHi, self.modified.0, self.highlight.1),
            (Color::HexDiffHi, self.diff.0, self.highlight.1),
            (Color::AsciiNorm, self.ascii.0, self.ascii.1),
            (Color::AsciiMod, self.modified.0, self.modified.1),
            (Color::AsciiDiff, self.diff.0, self.diff.1),
            (Color::AsciiNormHi, self.highlight.0, self.highlight.1),
            (Color::AsciiModHi, self.modified.0, self.highlight.1),
            (Color::AsciiDiffHi, self.diff.0, self.highlight.1),
            (Color::Offset, self.offset.0, self.offset.1),
            (Color::OffsetHi, self.highlight.0, self.highlight.1),
            (Color::Bar, self.bar.0, self.bar.1),
            (Color::Dialog, self.dialog.0, self.dialog.1),
            (Color::Error, self.error.0, self.error.1),
            (Color::Disabled, self.disabled.0, self.disabled.1),
            (Color::Focused, self.focused.0, self.focused.1),
            (Color::Input, self.input.0, self.input.1),
            (Color::Select, self.select.0, self.select.1),
        ];
        assert(r@ =~= spec_colors(*self));
        r
    }
}

/// Number as `i16`'s `FromStr` reads it.
fn parse_i16(s: &str) -> (r: Option<i16>)
    ensures
        r == spec_parse_i16(s@),
{
    proof {
        crate::num::lemma_parse_i64_bounds(s@, 10);
    }
    match parse_i64(s, 10) {
        Some(v) => if -0x8000 <= v && v <= 0x7fff {
            Some(v as i16)
        } else {
            None
        },
        None => None,
    }
}

/// Colors of a `fg, bg` value.
fn color_pair(value: &str) -> (r: Option<ColorPair>)
    ensures
        r == spec_color_pair(value@),
{
    let chars = to_chars(value);
    match find_char(&chars, ',') {
        Some(i) => {
            let head = from_chars(&chars, 0, i);
            let tail = from_chars(&chars, i + 1, chars.len());
            let fg = parse_i16(trim(head.as_str()).as_str());
            let bg = parse_i16(trim(tail.as_str()).as_str());
            match (fg, bg) {
                (Some(fg), Some(bg)) => Some((fg, bg)),
                _ => None,
            }
        },
        None => None,
    }
}

/// App configuration.
pub struct Config {
    /// Line width mode (fixed/dynamic).
    pub fixed_width: bool,
    /// ASCII table identifier (none hides the ASCII field).
    pub ascii_table: Option<String>,
    /// Color scheme.
    pub colors: Vec<(Color, i16, i16)>,
}

/// Whether `id` is one of the known table identifiers.
pub open spec fn known_table(tables: Seq<String>, id: Seq<char>) -> bool {
    exists|i: int| 0 <= i < tables.len() && tables[i]@ == id
}

/// ASCII table chosen by an `Ascii` value: `none` hides the field, a known
/// identifier selects its table, anything else selects none.
pub open spec fn spec_table_choice(tables: Seq<String>, value: Seq<char>) -> Option<Seq<char>> {
    if value == "none"@ {
        None
    } else if known_table(tables, value) {
        Some(value)
    } else {
        None
    }
}

/// Palette chosen by the configuration: the theme's defaults overridden by
/// the colors section.
pub open spec fn spec_config_palette(v: Seq<(Seq<char>, Seq<Seq<char>>)>) -> Palette {
    let base = match spec_get_strval(v, "Colors"@, "Theme"@) {
        Some(t) => if spec_lowercase(t) == "light"@ {
            light_palette()
        } else {
            dark_palette()
        },
        None => dark_palette(),
    };
    match lookup(v, "colors"@) {
        Some(lines) => palette_after(base, lines),
        None => base,
    }
}

impl Config {
    /// Default configuration: dynamic width, the default ASCII table, the
    /// dark palette.
    pub fn new(default_table: &str) -> (r: Config)
        ensures
            !r.fixed_width,
            r.ascii_table matches Some(t) && t@ == default_table@,
            r.colors@ == spec_colors(dark_palette()),
    {
        Config {
            fixed_width: false,
            ascii_table: Some(String::from_str(default_table)),
            colors: Palette::dark().colors(),
        }
    }

    /// Configuration read from the ini form of the configuration file, over
    /// the defaults; `tables` holds the known ASCII table identifiers.
    pub fn from_ini(ini: &IniFile, default_table: &str, tables: &Vec<String>) -> (r: Config)
        ensures
            r.fixed_width == (match crate::inifile::spec_get_strval(ini.model(), "View"@, "FixedWidth"@) {
                Some(v) => match crate::num::spec_parse_unsigned(v, 10, usize::MAX as int) {
                    Some(n) => n != 0,
                    None => false,
                },
                None => false,
            }),
            (match r.ascii_table {
                Some(t) => Some(t@),
                None => None,
            }) == (match spec_get_strval(ini.model(), "View"@, "Ascii"@) {
                Some(v) => spec_table_choice(tables@, v),
                None => Some(default_table@),
            }),
            r.colors@ == spec_colors(spec_config_palette(ini.model())),
    {
        let mut instance = Config::new(default_table);
        if let Some(val) = ini.get_boolval("View", "FixedWidth") {
            instance.fixed_width = val;
        }
        if let Some(val) = ini.get_strval("View", "Ascii") {
            instance.ascii_table = table_choice(tables, val.as_str());
        }
        let mut palette = Palette::dark();
        if let Some(val) = ini.get_strval("Colors", "Theme") {
            proof {
                reveal_strlit("light");
            }
            if str_eq(lowercase(val.as_str()).as_str(), "light") {
                palette = Palette::light();
            }
        }
        if let Some(section) = ini.section("colors") {
            palette.parse(section);
        }
        instance.colors = palette.colors();
        instance
    }
}

/// ASCII table chosen by an `Ascii` value.
fn table_choice(tables: &Vec<String>, value: &str) -> (r: Option<String>)
    ensures
        (match r {
            Some(t) => Some(t@),
            None => None,
        }) == spec_table_choice(tables@, value@),
{
    proof {
        reveal_strlit("none");
    }
    if str_eq(value, "none") {
        return None;
    }
    let mut i: usize = 0;
    while i < tables.len()
        invariant
            i <= tables@.len(),
            value@ != "none"@,
            forall|k: int| 0 <= k < i ==> #[trigger] tables@[k]@ != value@,
        decreases tables.len() - i,
    {
        if str_eq(tables[i].as_str(), value) {
            assert(known_table(tables@, value@));
            return Some(String::from_str(value));
        }
        i = i + 1;
    }
    assert(!known_table(tables@, value@));
    None
}

} // verus!
