//! History: holds editor history (file positions, searches, goto addresses)
//! and converts it to and from its ini form.
use crate::inifile::{
    filled, ini_lines, ini_text, law_insert_then_lookup, law_parse_reads_text, lemma_insert_pos, lemma_lookup_filled,
    lemma_lookup_index, lines_text, lines_view, lookup, plain_line, readable_sections, seq_less, spec_parse,
    IniFile, SectionModel,
};
use crate::num::{
    byte_hex, digit_value, hex_digit, lemma_digits_roundtrip, lemma_hex_digit_value, parse_u64, spec_digits,
    spec_parse_unsigned, to_hex,
};
use crate::text::{append_str, from_chars, last_index_of, lemma_trim_plain, rfind_char, spec_is_whitespace, spec_lowercase, to_chars};
use vstd::prelude::*;
use vstd::string::StringExecFns;

verus! {

/// Max number of stored file positions.
pub const MAX_FILE: usize = 10;
/// Max number of stored search sequences.
pub const MAX_SEARCH: usize = 10;
/// Max number of stored goto addresses.
pub const MAX_GOTO: usize = 10;

/// History: loads, holds and saves editor history (offsets, searches, etc).
pub struct History {
    /// Last position in files.
    pub file_pos: Vec<(String, u64)>,
    /// Search history.
    pub search: Vec<Vec<u8>>,
    /// Last used search direction (volatile).
    pub search_backward: bool,
    /// Goto address history.
    pub goto: Vec<u64>,
    /// Last used pattern to fill (volatile).
    pub pattern: Vec<u8>,
}

/// Views of file positions.
pub open spec fn file_pos_view(f: Seq<(String, u64)>) -> Seq<(Seq<char>, u64)> {
    f.map_values(|e: (String, u64)| (e.0@, e.1))
}

/// Views of byte sequences.
pub open spec fn seqs_view(s: Seq<Vec<u8>>) -> Seq<Seq<u8>> {
    s.map_values(|v: Vec<u8>| v@)
}

/// `x` in front of the entries of `s` that differ from it, at most `max`
/// entries.
pub open spec fn spec_add_front<T>(s: Seq<T>, x: T, max: int) -> Seq<T> {
    let added = seq![x] + s.filter(differs(x));
    if added.len() > max {
        added.take(max)
    } else {
        added
    }
}

/// Entries other than `x`.
pub open spec fn differs<T>(x: T) -> spec_fn(T) -> bool {
    |e: T| e != x
}

/// Records of paths other than `path`.
pub open spec fn other_path(path: Seq<char>) -> spec_fn((Seq<char>, u64)) -> bool {
    |e: (Seq<char>, u64)| e.0 != path
}

/// File positions after recording `path` at `offset`: the new record in
/// front of the records of the other paths, at most `MAX_FILE` records.
pub open spec fn spec_add_filepos(f: Seq<(Seq<char>, u64)>, path: Seq<char>, offset: u64) -> Seq<(Seq<char>, u64)> {
    let added = seq![(path, offset)] + f.filter(other_path(path));
    if added.len() > MAX_FILE {
        added.take(MAX_FILE as int)
    } else {
        added
    }
}

/// Position of `path` from the first record of it, if any.
pub open spec fn spec_get_filepos(f: Seq<(Seq<char>, u64)>, path: Seq<char>) -> Option<u64>
    decreases f.len(),
{
    if f.len() == 0 {
        None
    } else if f[0].0 == path {
        Some(f[0].1)
    } else {
        spec_get_filepos(f.drop_first(), path)
    }
}

/// At most the first `n` entries of `s`.
pub open spec fn first_n<T>(s: Seq<T>, n: int) -> Seq<T> {
    if s.len() > n {
        s.take(n)
    } else {
        s
    }
}

/// Record of a `path:offset` line (the offset in hex after the last colon).
pub open spec fn spec_file_record(line: Seq<char>) -> Option<(Seq<char>, u64)> {
    match last_index_of(line, ':') {
        Some(i) => match spec_parse_unsigned(line.subrange(i + 1, line.len() as int), 16, u64::MAX as int) {
            Some(v) => Some((line.subrange(0, i), v as u64)),
            None => None,
        },
        None => None,
    }
}

/// Records of the valid lines.
pub open spec fn spec_file_records(lines: Seq<Seq<char>>) -> Seq<(Seq<char>, u64)>
    decreases lines.len(),
{
    if lines.len() == 0 {
        Seq::empty()
    } else {
        let prev = spec_file_records(lines.drop_last());
        match spec_file_record(lines.last()) {
            Some(r) => prev.push(r),
            None => prev,
        }
    }
}

/// Offsets of the lines that hold a hex number.
pub open spec fn spec_goto_records(lines: Seq<Seq<char>>) -> Seq<u64>
    decreases lines.len(),
{
    if lines.len() == 0 {
        Seq::empty()
    } else {
        let prev = spec_goto_records(lines.drop_last());
        match spec_parse_unsigned(lines.last(), 16, u64::MAX as int) {
            Some(v) => prev.push(v as u64),
            None => prev,
        }
    }
}

/// Value of a hex digit byte, or -1.
pub open spec fn hex_byte(b: u8) -> int {
    if 0x30 <= b <= 0x39 {
        b - 0x30
    } else if 0x61 <= b <= 0x66 {
        b - 0x61 + 10
    } else if 0x41 <= b <= 0x46 {
        b - 0x41 + 10
    } else {
        -1
    }
}

/// Value of a two byte hex number (as `u8::from_str_radix` reads it: two
/// digits, or a plus sign and one digit), or -1.
pub open spec fn pair_value(a: u8, b: u8) -> int {
    if hex_byte(a) >= 0 && hex_byte(b) >= 0 {
        hex_byte(a) * 16 + hex_byte(b)
    } else if a == 0x2b && hex_byte(b) >= 0 {
        hex_byte(b)
    } else {
        -1
    }
}

/// Bytes of the leading valid pairs of `bytes`.
pub open spec fn decode_pairs(bytes: Seq<u8>) -> Seq<u8>
    decreases bytes.len(),
{
    if bytes.len() < 2 || pair_value(bytes[0], bytes[1]) < 0 {
        Seq::empty()
    } else {
        seq![pair_value(bytes[0], bytes[1]) as u8] + decode_pairs(bytes.subrange(2, bytes.len() as int))
    }
}

/// Reading the pairs of `bytes` never cuts a character: where reading
/// stops at an invalid pair, the pair ends on a character boundary.
pub open spec fn pairs_cut_ok(bytes: Seq<u8>) -> bool
    decreases bytes.len(),
{
    if bytes.len() < 2 {
        true
    } else if pair_value(bytes[0], bytes[1]) < 0 {
        bytes.len() == 2 || !(0x80 <= bytes[2] < 0xc0)
    } else {
        pairs_cut_ok(bytes.subrange(2, bytes.len() as int))
    }
}

/// Sequence of a search line: lines of even length in bytes that start
/// with a valid pair give the bytes of their leading valid pairs.
pub open spec fn spec_search_record(line: Seq<u8>) -> Option<Seq<u8>> {
    if line.len() % 2 == 0 && decode_pairs(line).len() > 0 {
        Some(decode_pairs(line))
    } else {
        None
    }
}

/// Sequences of the valid search lines.
pub open spec fn spec_search_records(lines: Seq<Seq<u8>>) -> Seq<Seq<u8>>
    decreases lines.len(),
{
    if lines.len() == 0 {
        Seq::empty()
    } else {
        let prev = spec_search_records(lines.drop_last());
        match spec_search_record(lines.last()) {
            Some(r) => prev.push(r),
            None => prev,
        }
    }
}

/// Bytes of the lines (UTF-8).
pub open spec fn bytes_view(lines: Seq<Seq<char>>) -> Seq<Seq<u8>> {
    lines.map_values(|l: Seq<char>| vstd::utf8::encode_utf8(l))
}

/// Lines of a section of the ini file (empty if absent).
pub open spec fn section_lines(v: Seq<SectionModel>, name: Seq<char>) -> Seq<Seq<char>> {
    match lookup(v, name) {
        Some(l) => l,
        None => Seq::empty(),
    }
}

/// The search lines that loading reads can be read without cutting a
/// character.
pub open spec fn search_lines_ok(lines: Seq<Seq<char>>) -> bool {
    forall|i: int|
        0 <= i < first_n(lines, MAX_SEARCH as int).len() ==> (encode_len_even(lines[i])
            ==> pairs_cut_ok(#[trigger] vstd::utf8::encode_utf8(lines[i])))
}

/// The line has an even length in bytes.
pub open spec fn encode_len_even(line: Seq<char>) -> bool {
    vstd::utf8::encode_utf8(line).len() % 2 == 0
}

/// Sections that saving writes for the given records: at most ten records
/// of each kind, the sections in name order.
pub open spec fn saved_sections(f: Seq<(Seq<char>, u64)>, s: Seq<Seq<u8>>, g: Seq<u64>) -> Seq<SectionModel> {
    seq![
        ("file"@, first_n(f, MAX_FILE as int).map_values(|e: (Seq<char>, u64)| file_line(e.0, e.1))),
        ("goto"@, first_n(g, MAX_GOTO as int).map_values(|o: u64| spec_digits(o as nat, 16))),
        ("search"@, first_n(s, MAX_SEARCH as int).map_values(|x: Seq<u8>| hex_text(x))),
    ]
}

/// Text of a file position record: `path:offset` with the offset in hex.
pub open spec fn file_line(path: Seq<char>, offset: u64) -> Seq<char> {
    path + ":"@ + spec_digits(offset as nat, 16)
}

/// Hex text of a byte sequence (two lower case digits per byte).
pub open spec fn hex_text(s: Seq<u8>) -> Seq<char>
    decreases s.len(),
{
    if s.len() == 0 {
        Seq::empty()
    } else {
        hex_text(s.drop_last()) + seq![
            crate::num::hex_digit((s.last() / 16) as int),
            crate::num::hex_digit((s.last() % 16) as int),
        ]
    }
}

impl History {
    /// Empty history (fill pattern: a single zero byte).
    pub fn new() -> (r: Self)
        ensures
            r.file_pos@.len() == 0,
            r.search@.len() == 0,
            !r.search_backward,
            r.goto@.len() == 0,
            r.pattern@ == seq![0u8],
    {
        History {
            file_pos: Vec::new(),
            search: Vec::new(),
            search_backward: false,
            goto: Vec::new(),
            pattern: vec![0],
        }
    }

    /// Load history from the ini file: records of the valid lines among the
    /// first ten of each section are appended.
    pub fn load(&mut self, ini: &IniFile)
        requires
            search_lines_ok(section_lines(ini.model(), "search"@)),
        ensures
            file_pos_view(final(self).file_pos@) == file_pos_view(old(self).file_pos@)
                + spec_file_records(first_n(section_lines(ini.model(), "file"@), MAX_FILE as int)),
            seqs_view(final(self).search@) == seqs_view(old(self).search@) + spec_search_records(
                bytes_view(first_n(section_lines(ini.model(), "search"@), MAX_SEARCH as int)),
            ),
            final(self).goto@ == old(self).goto@ + spec_goto_records(
                first_n(section_lines(ini.model(), "goto"@), MAX_GOTO as int),
            ),
            final(self).search_backward == old(self).search_backward,
            final(self).pattern == old(self).pattern,
    {
        // read recent file position history
        let ghost file_lines = section_lines(ini.model(), "file"@);
        if let Some(section) = ini.section("file") {
            let ghost lv = lines_view(section@);
            let n = if section.len() < MAX_FILE {
                section.len()
            } else {
                MAX_FILE
            };
            let mut i: usize = 0;
            assert(file_pos_view(self.file_pos@) =~= file_pos_view(old(self).file_pos@) + spec_file_records(
                lv.subrange(0, 0),
            ));
            while i < n
                invariant
                    lv == lines_view(section@),
                    lv == file_lines,
                    self.search == old(self).search,
                    self.goto == old(self).goto,
                    self.search_backward == old(self).search_backward,
                    self.pattern == old(self).pattern,
                    n == first_n(lv, MAX_FILE as int).len(),
                    n <= section@.len(),
                    i <= n,
                    file_pos_view(self.file_pos@) == file_pos_view(old(self).file_pos@)
                        + spec_file_records(lv.subrange(0, i as int)),
                decreases n - i,
            {
                let chars = to_chars(section[i].as_str());
                proof {
                    assert(lv.subrange(0, i + 1).drop_last() =~= lv.subrange(0, i as int));
                    assert(lv.subrange(0, i + 1).last() == chars@);
                }
                if let Some(colon) = rfind_char(&chars, ':') {
                    assert(colon < chars.len());
                    let digits = from_chars(&chars, colon + 1, chars.len());
                    if let Some(offset) = parse_u64(digits.as_str(), 16) {
                        let path = from_chars(&chars, 0, colon);
                        let ghost before = self.file_pos@;
                        self.file_pos.push((path, offset));
                        assert(file_pos_view(self.file_pos@) =~= file_pos_view(before).push(
                            (path@, offset),
                        ));
                    }
                }
                i = i + 1;
            }
            assert(lv.subrange(0, i as int) =~= first_n(lv, MAX_FILE as int));
        } else {
            assert(first_n(file_lines, MAX_FILE as int) =~= Seq::<Seq<char>>::empty());
            assert(file_pos_view(self.file_pos@) =~= file_pos_view(old(self).file_pos@)
                + Seq::<(Seq<char>, u64)>::empty());
        }

        // read search history
        let ghost fp_loaded = self.file_pos;
        let ghost search_lines = section_lines(ini.model(), "search"@);
        if let Some(section) = ini.section("search") {
            let ghost lv = lines_view(section@);
            let ghost bv = bytes_view(first_n(lv, MAX_SEARCH as int));
            let n = if section.len() < MAX_SEARCH {
                section.len()
            } else {
                MAX_SEARCH
            };
            let mut i: usize = 0;
            assert(seqs_view(self.search@) =~= seqs_view(old(self).search@) + spec_search_records(
                bv.subrange(0, 0),
            ));
            while i < n
                invariant
                    lv == lines_view(section@),
                    lv == search_lines,
                    self.file_pos == fp_loaded,
                    self.goto == old(self).goto,
                    self.search_backward == old(self).search_backward,
                    self.pattern == old(self).pattern,
                    search_lines_ok(search_lines),
                    bv == bytes_view(first_n(lv, MAX_SEARCH as int)),
                    n == first_n(lv, MAX_SEARCH as int).len(),
                    n <= section@.len(),
                    i <= n,
                    seqs_view(self.search@) == seqs_view(old(self).search@) + spec_search_records(
                        bv.subrange(0, i as int),
                    ),
                decreases n - i,
            {
                let bytes = section[i].as_str().as_bytes();
                proof {
                    assert(bv.subrange(0, i + 1).drop_last() =~= bv.subrange(0, i as int));
                    assert(first_n(lv, MAX_SEARCH as int)[i as int] == lv[i as int]);
                    assert(bv.subrange(0, i + 1).last() == bytes@);
                }
                if bytes.len() % 2 == 0 {
                    proof {
                        assert(pairs_cut_ok(bytes@));
                    }
                    let seq = decode_hex_pairs(bytes);
                    if seq.len() > 0 {
                        let ghost before = self.search@;
                        self.search.push(seq);
                        assert(seqs_view(self.search@) =~= seqs_view(before).push(seq@));
                    }
                }
                i = i + 1;
            }
            assert(bv.subrange(0, i as int) =~= bv);
        } else {
            assert(bytes_view(first_n(search_lines, MAX_SEARCH as int)) =~= Seq::<Seq<u8>>::empty());
            assert(seqs_view(self.search@) =~= seqs_view(old(self).search@) + spec_search_records(
                bytes_view(first_n(search_lines, MAX_SEARCH as int)),
            ));
        }

        // read "goto" history
        let ghost search_loaded = self.search;
        let ghost goto_lines = section_lines(ini.model(), "goto"@);
        if let Some(section) = ini.section("goto") {
            let ghost lv = lines_view(section@);
            let n = if section.len() < MAX_GOTO {
                section.len()
            } else {
                MAX_GOTO
            };
            let mut i: usize = 0;
            assert(self.goto@ =~= old(self).goto@ + spec_goto_records(lv.subrange(0, 0)));
            while i < n
                invariant
                    lv == lines_view(section@),
                    lv == goto_lines,
                    self.file_pos == fp_loaded,
                    self.search == search_loaded,
                    self.search_backward == old(self).search_backward,
                    self.pattern == old(self).pattern,
                    n == first_n(lv, MAX_GOTO as int).len(),
                    n <= section@.len(),
                    i <= n,
                    self.goto@ == old(self).goto@ + spec_goto_records(lv.subrange(0, i as int)),
                decreases n - i,
            {
                proof {
                    assert(lv.subrange(0, i + 1).drop_last() =~= lv.subrange(0, i as int));
                    assert(lv.subrange(0, i + 1).last() == section@[i as int]@);
                }
                if let Some(offset) = parse_u64(section[i].as_str(), 16) {
                    self.goto.push(offset);
                }
                i = i + 1;
            }
            assert(lv.subrange(0, i as int) =~= first_n(lv, MAX_GOTO as int));
        } else {
            assert(first_n(goto_lines, MAX_GOTO as int) =~= Seq::<Seq<char>>::empty());
            assert(self.goto@ =~= old(self).goto@ + Seq::<u64>::empty());
        }
    }

    /// Compose the ini file that saving the history writes: at most ten
    /// records per section.
    pub fn save(&self) -> (r: IniFile)
        ensures
            r.model() == saved_sections(file_pos_view(self.file_pos@), seqs_view(self.search@), self.goto@),
            lookup(r.model(), "file"@) == Some(
                first_n(file_pos_view(self.file_pos@), MAX_FILE as int).map_values(
                    |e: (Seq<char>, u64)| file_line(e.0, e.1),
                ),
            ),
            lookup(r.model(), "search"@) == Some(
                first_n(seqs_view(self.search@), MAX_SEARCH as int).map_values(
                    |s: Seq<u8>| hex_text(s),
                ),
            ),
            lookup(r.model(), "goto"@) == Some(
                first_n(self.goto@, MAX_GOTO as int).map_values(
                    |o: u64| spec_digits(o as nat, 16),
                ),
            ),
    {
        let mut ini = IniFile::new();

        // recent file position history
        let n = if self.file_pos.len() < MAX_FILE {
            self.file_pos.len()
        } else {
            MAX_FILE
        };
        let ghost fv = file_pos_view(self.file_pos@);
        let mut lines: Vec<String> = Vec::new();
        let mut i: usize = 0;
        while i < n
            invariant
                fv == file_pos_view(self.file_pos@),
                n == first_n(fv, MAX_FILE as int).len(),
                n <= self.file_pos@.len(),
                i <= n,
                lines_view(lines@) == fv.subrange(0, i as int).map_values(
                    |e: (Seq<char>, u64)| file_line(e.0, e.1),
                ),
            decreases n - i,
        {
            let mut line = String::new();
            append_str(&mut line, self.file_pos[i].0.as_str());
            append_str(&mut line, ":");
            let hex = to_hex(self.file_pos[i].1);
            append_str(&mut line, hex.as_str());
            let ghost before = lines@;
            lines.push(line);
            proof {
                assert(fv[i as int] == (self.file_pos@[i as int].0@, self.file_pos@[i as int].1));
                assert(line@ =~= file_line(fv[i as int].0, fv[i as int].1));
                assert(lines_view(lines@) =~= lines_view(before).push(line@));
                assert(fv.subrange(0, i + 1) =~= fv.subrange(0, i as int).push(fv[i as int]));
                assert(fv.subrange(0, i + 1).map_values(|e: (Seq<char>, u64)| file_line(e.0, e.1))
                    =~= fv.subrange(0, i as int).map_values(
                    |e: (Seq<char>, u64)| file_line(e.0, e.1),
                ).push(file_line(fv[i as int].0, fv[i as int].1)));
            }
            i = i + 1;
        }
        assert(fv.subrange(0, i as int) =~= first_n(fv, MAX_FILE as int));
        let ghost file_lines = lines_view(lines@);
        ini.insert_section(String::from_str("file"), lines);
        let ghost after_file = ini.model();

        // search history
        let n = if self.search.len() < MAX_SEARCH {
            self.search.len()
        } else {
            MAX_SEARCH
        };
        let ghost sv = seqs_view(self.search@);
        let mut lines: Vec<String> = Vec::new();
        let mut i: usize = 0;
        while i < n
            invariant
                sv == seqs_view(self.search@),
                n == first_n(sv, MAX_SEARCH as int).len(),
                n <= self.search@.len(),
                i <= n,
                lines_view(lines@) == sv.subrange(0, i as int).map_values(|s: Seq<u8>| hex_text(s)),
            decreases n - i,
        {
            let line = hex_string(self.search[i].as_slice());
            let ghost before = lines@;
            lines.push(line);
            proof {
                assert(sv[i as int] == self.search@[i as int]@);
                assert(lines_view(lines@) =~= lines_view(before).push(line@));
                assert(sv.subrange(0, i + 1) =~= sv.subrange(0, i as int).push(sv[i as int]));
                assert(sv.subrange(0, i + 1).map_values(|s: Seq<u8>| hex_text(s)) =~= sv.subrange(
                    0,
                    i as int,
                ).map_values(|s: Seq<u8>| hex_text(s)).push(hex_text(sv[i as int])));
            }
            i = i + 1;
        }
        assert(sv.subrange(0, i as int) =~= first_n(sv, MAX_SEARCH as int));
        let ghost search_lines = lines_view(lines@);
        ini.insert_section(String::from_str("search"), lines);
        let ghost after_search = ini.model();

        // "goto" history
        let n = if self.goto.len() < MAX_GOTO {
            self.goto.len()
        } else {
            MAX_GOTO
        };
        let ghost gv = self.goto@;
        let mut lines: Vec<String> = Vec::new();
        let mut i: usize = 0;
        while i < n
            invariant
                gv == self.goto@,
                n == first_n(gv, MAX_GOTO as int).len(),
                n <= self.goto@.len(),
                i <= n,
                lines_view(lines@) == gv.subrange(0, i as int).map_values(
                    |o: u64| spec_digits(o as nat, 16),
                ),
            decreases n - i,
        {
            let line = to_hex(self.goto[i]);
            let ghost before = lines@;
            lines.push(line);
            proof {
                assert(lines_view(lines@) =~= lines_view(before).push(line@));
                assert(gv.subrange(0, i + 1) =~= gv.subrange(0, i as int).push(gv[i as int]));
                assert(gv.subrange(0, i + 1).map_values(|o: u64| spec_digits(o as nat, 16))
                    =~= gv.subrange(0, i as int).map_values(|o: u64| spec_digits(o as nat, 16)).push(
                    spec_digits(gv[i as int] as nat, 16),
                ));
            }
            i = i + 1;
        }
        assert(gv.subrange(0, i as int) =~= first_n(gv, MAX_GOTO as int));
        ini.insert_section(String::from_str("goto"), lines);
        proof {
            reveal_strlit("file");
            reveal_strlit("search");
            reveal_strlit("goto");
            assert("file"@[0] != "goto"@[0]);
            assert("search"@[0] != "goto"@[0]);
            assert("file"@.len() != "search"@.len());
            let m = ini.model();
            law_insert_then_lookup(after_search, "goto"@, lines_view(lines@), "file"@);
            law_insert_then_lookup(after_search, "goto"@, lines_view(lines@), "search"@);
            law_insert_then_lookup(after_search, "goto"@, lines_view(lines@), "goto"@);
            law_insert_then_lookup(after_file, "search"@, search_lines, "file"@);
            law_insert_then_lookup(after_file, "search"@, search_lines, "search"@);
            law_insert_then_lookup(Seq::empty(), "file"@, file_lines, "file"@);
            assert(seq_less("file"@, "search"@));
            assert(seq_less("file"@, "goto"@));
            assert(!seq_less("search"@, "goto"@));
            assert(after_file =~= seq![("file"@, file_lines)]);
            lemma_insert_pos(after_file, "search"@, 1);
            assert(after_search =~= seq![("file"@, file_lines), ("search"@, search_lines)]);
            lemma_insert_pos(after_search, "goto"@, 1);
            assert(m =~= saved_sections(file_pos_view(self.file_pos@), seqs_view(self.search@), self.goto@));
        }
        ini
    }

    /// Get last position for the specified file (absolute path).
    pub fn get_filepos(&self, path: &str) -> (r: Option<u64>)
        ensures
            r == spec_get_filepos(file_pos_view(self.file_pos@), path@),
    {
        let ghost fv = file_pos_view(self.file_pos@);
        let mut i: usize = 0;
        assert(fv.subrange(0, fv.len() as int) =~= fv);
        while i < self.file_pos.len()
            invariant
                fv == file_pos_view(self.file_pos@),
                i <= self.file_pos@.len(),
                spec_get_filepos(fv, path@) == spec_get_filepos(fv.subrange(i as int, fv.len() as int), path@),
            decreases self.file_pos.len() - i,
        {
            let ghost rest = fv.subrange(i as int, fv.len() as int);
            assert(rest[0] == fv[i as int]);
            assert(rest.drop_first() =~= fv.subrange(i + 1, fv.len() as int));
            if crate::text::str_eq(self.file_pos[i].0.as_str(), path) {
                return Some(self.file_pos[i].1);
            }
            i = i + 1;
        }
        assert(fv.subrange(i as int, fv.len() as int).len() == 0);
        None
    }

    /// Add last position for the specified file (absolute path): earlier
    /// records of the file are dropped, the new one comes first.
    pub fn add_filepos(&mut self, path: &str, offset: u64)
        ensures
            file_pos_view(final(self).file_pos@) == spec_add_filepos(
                file_pos_view(old(self).file_pos@),
                path@,
                offset,
            ),
            final(self).search == old(self).search,
            final(self).goto == old(self).goto,
            final(self).search_backward == old(self).search_backward,
            final(self).pattern == old(self).pattern,
    {
        let ghost ov = file_pos_view(self.file_pos@);
        let ghost p = other_path(path@);
        let mut i: usize = 0;
        let ghost mut j: int = 0;
        while i < self.file_pos.len()
            invariant
                0 <= j <= ov.len(),
                p == other_path(path@),
                file_pos_view(self.file_pos@) == ov.subrange(0, j).filter(p) + ov.subrange(j, ov.len() as int),
                i == ov.subrange(0, j).filter(p).len(),
                self.search == old(self).search,
                self.goto == old(self).goto,
                self.search_backward == old(self).search_backward,
                self.pattern == old(self).pattern,
            decreases self.file_pos.len() - i,
        {
            let ghost before = self.file_pos@;
            proof {
                assert(file_pos_view(before)[i as int] == ov[j]);
                assert(ov.subrange(0, j + 1) =~= ov.subrange(0, j).push(ov[j]));
                ov.subrange(0, j).lemma_filter_push(ov[j], p);
                assert(ov.subrange(j, ov.len() as int).drop_first() =~= ov.subrange(j + 1, ov.len() as int));
            }
            if crate::text::str_eq(self.file_pos[i].0.as_str(), path) {
                self.file_pos.remove(i);
                assert(file_pos_view(self.file_pos@) =~= file_pos_view(before).remove(i as int));
            } else {
                i = i + 1;
            }
            proof {
                j = j + 1;
            }
        }
        self.file_pos.insert(0, (String::from_str(path), offset));
        self.file_pos.truncate(MAX_FILE);
        proof {
            assert(ov.subrange(j, ov.len() as int).len() == 0);
            assert(ov.subrange(0, j) =~= ov);
            let added = seq![(path@, offset)] + ov.filter(p);
            assert(file_pos_view(self.file_pos@) =~= first_n(added, MAX_FILE as int));
        }
    }

    /// Add search sequence to history: an earlier equal sequence is dropped,
    /// the new one comes first.
    pub fn add_search(&mut self, sequence: &[u8])
        ensures
            seqs_view(final(self).search@) == spec_add_front(
                seqs_view(old(self).search@),
                sequence@,
                MAX_SEARCH as int,
            ),
            final(self).goto == old(self).goto,
            final(self).file_pos == old(self).file_pos,
            final(self).search_backward == old(self).search_backward,
            final(self).pattern == old(self).pattern,
    {
        let ghost ov = seqs_view(self.search@);
        let ghost p = differs(sequence@);
        let mut i: usize = 0;
        let ghost mut j: int = 0;
        while i < self.search.len()
            invariant
                0 <= j <= ov.len(),
                p == differs(sequence@),
                seqs_view(self.search@) == ov.subrange(0, j).filter(p) + ov.subrange(j, ov.len() as int),
                i == ov.subrange(0, j).filter(p).len(),
                self.goto == old(self).goto,
                self.file_pos == old(self).file_pos,
                self.search_backward == old(self).search_backward,
                self.pattern == old(self).pattern,
            decreases self.search.len() - i,
        {
            let ghost before = self.search@;
            proof {
                assert(seqs_view(before)[i as int] == ov[j]);
                assert(ov.subrange(0, j + 1) =~= ov.subrange(0, j).push(ov[j]));
                ov.subrange(0, j).lemma_filter_push(ov[j], p);
                assert(ov.subrange(j, ov.len() as int).drop_first() =~= ov.subrange(j + 1, ov.len() as int));
            }
            if bytes_eq(&self.search[i], sequence) {
                self.search.remove(i);
                assert(seqs_view(self.search@) =~= seqs_view(before).remove(i as int));
            } else {
                i = i + 1;
            }
            proof {
                j = j + 1;
            }
        }
        self.search.insert(0, vstd::slice::slice_to_vec(sequence));
        self.search.truncate(MAX_SEARCH);
        proof {
            assert(ov.subrange(j, ov.len() as int).len() == 0);
            assert(ov.subrange(0, j) =~= ov);
            let added = seq![sequence@] + ov.filter(p);
            assert(seqs_view(self.search@) =~= first_n(added, MAX_SEARCH as int));
        }
    }

    /// Add "goto" address to history: an earlier equal address is dropped,
    /// the new one comes first.
    pub fn add_goto(&mut self, offset: u64)
        ensures
            final(self).goto@ == spec_add_front(old(self).goto@, offset, MAX_GOTO as int),
            final(self).search == old(self).search,
            final(self).file_pos == old(self).file_pos,
            final(self).search_backward == old(self).search_backward,
            final(self).pattern == old(self).pattern,
    {
        let ghost ov = self.goto@;
        let ghost p = differs(offset);
        let mut i: usize = 0;
        let ghost mut j: int = 0;
        while i < self.goto.len()
            invariant
                0 <= j <= ov.len(),
                p == differs(offset),
                self.goto@ == ov.subrange(0, j).filter(p) + ov.subrange(j, ov.len() as int),
                i == ov.subrange(0, j).filter(p).len(),
                self.search == old(self).search,
                self.file_pos == old(self).file_pos,
                self.search_backward == old(self).search_backward,
                self.pattern == old(self).pattern,
            decreases self.goto.len() - i,
        {
            let ghost before = self.goto@;
            proof {
                assert(before[i as int] == ov[j]);
                assert(ov.subrange(0, j + 1) =~= ov.subrange(0, j).push(ov[j]));
                ov.subrange(0, j).lemma_filter_push(ov[j], p);
                assert(ov.subrange(j, ov.len() as int).drop_first() =~= ov.subrange(j + 1, ov.len() as int));
            }
            if self.goto[i] == offset {
                self.goto.remove(i);
            } else {
                i = i + 1;
            }
            proof {
                j = j + 1;
            }
        }
        self.goto.insert(0, offset);
        self.goto.truncate(MAX_GOTO);
        proof {
            assert(ov.subrange(j, ov.len() as int).len() == 0);
            assert(ov.subrange(0, j) =~= ov);
            let added = seq![offset] + ov.filter(p);
            assert(self.goto@ =~= first_n(added, MAX_GOTO as int));
        }
    }
}

/// Whether a byte vector holds the bytes of a slice.
fn bytes_eq(a: &Vec<u8>, b: &[u8]) -> (r: bool)
    ensures
        r == (a@ == b@),
{
    if a.len() != b.len() {
        return false;
    }
    let mut i: usize = 0;
    while i < a.len()
        invariant
            a@.len() == b@.len(),
            i <= a@.len(),
            a@.subrange(0, i as int) == b@.subrange(0, i as int),
        decreases a.len() - i,
    {
        if a[i] != b[i] {
            assert(a@[i as int] != b@[i as int]);
            return false;
        }
        assert(a@.subrange(0, i + 1) =~= a@.subrange(0, i as int).push(a@[i as int]));
        assert(b@.subrange(0, i + 1) =~= b@.subrange(0, i as int).push(b@[i as int]));
        i = i + 1;
    }
    assert(a@.subrange(0, i as int) =~= a@);
    assert(b@.subrange(0, i as int) =~= b@);
    true
}

/// Hex text of a byte sequence.
pub fn hex_string(s: &[u8]) -> (r: String)
    ensures
        r@ == hex_text(s@),
{
    let mut r = String::new();
    let mut i: usize = 0;
    while i < s.len()
        invariant
            i <= s@.len(),
            r@ == hex_text(s@.subrange(0, i as int)),
        decreases s.len() - i,
    {
        let pair = byte_hex(s[i]);
        append_str(&mut r, pair.as_str());
        proof {
            assert(s@.subrange(0, i + 1).drop_last() =~= s@.subrange(0, i as int));
            assert(s@.subrange(0, i + 1).last() == s@[i as int]);
        }
        i = i + 1;
    }
    assert(s@.subrange(0, i as int) =~= s@);
    r
}

/// Value of a hex digit byte.
fn hex_byte_value(b: u8) -> (r: i32)
    ensures
        r == hex_byte(b),
{
    if 0x30 <= b && b <= 0x39 {
        (b - 0x30) as i32
    } else if 0x61 <= b && b <= 0x66 {
        (b - 0x61 + 10) as i32
    } else if 0x41 <= b && b <= 0x46 {
        (b - 0x41 + 10) as i32
    } else {
        -1
    }
}

/// Bytes of the leading valid hex pairs.
fn decode_hex_pairs(bytes: &[u8]) -> (r: Vec<u8>)
    ensures
        r@ == decode_pairs(bytes@),
{
    let mut r: Vec<u8> = Vec::new();
    let mut i: usize = 0;
    assert(bytes@.subrange(0, bytes@.len() as int) =~= bytes@);
    assert(r@ + decode_pairs(bytes@) =~= decode_pairs(bytes@));
    while i < bytes.len() && bytes.len() - i >= 2
        invariant
            i <= bytes@.len(),
            decode_pairs(bytes@) == r@ + decode_pairs(bytes@.subrange(i as int, bytes@.len() as int)),
        decreases bytes.len() - i,
    {
        let ghost rest = bytes@.subrange(i as int, bytes@.len() as int);
        let hi = hex_byte_value(bytes[i]);
        let lo = hex_byte_value(bytes[i + 1]);
        let value: i32 = if hi >= 0 && lo >= 0 {
            hi * 16 + lo
        } else if bytes[i] == 0x2b && lo >= 0 {
            lo
        } else {
            -1
        };
        assert(rest[0] == bytes@[i as int] && rest[1] == bytes@[i + 1]);
        if value < 0 {
            assert(r@ + Seq::<u8>::empty() =~= r@);
            return r;
        }
        r.push(value as u8);
        assert(rest.subrange(2, rest.len() as int) =~= bytes@.subrange(i + 2, bytes@.len() as int));
        i = i + 2;
    }
    assert(r@ + Seq::<u8>::empty() =~= r@);
    r
}

/// Reading the pairs of the bytes never cuts a character.
fn pairs_cut(bytes: &[u8]) -> (r: bool)
    ensures
        r == pairs_cut_ok(bytes@),
{
    let mut i: usize = 0;
    assert(bytes@.subrange(0, bytes@.len() as int) =~= bytes@);
    while i < bytes.len() && bytes.len() - i >= 2
        invariant
            i <= bytes@.len(),
            pairs_cut_ok(bytes@) == pairs_cut_ok(bytes@.subrange(i as int, bytes@.len() as int)),
        decreases bytes.len() - i,
    {
        let ghost rest = bytes@.subrange(i as int, bytes@.len() as int);
        let hi = hex_byte_value(bytes[i]);
        let lo = hex_byte_value(bytes[i + 1]);
        let valid = (hi >= 0 && lo >= 0) || (bytes[i] == 0x2b && lo >= 0);
        assert(rest[0] == bytes@[i as int] && rest[1] == bytes@[i + 1]);
        if !valid {
            if bytes.len() - i == 2 {
                return true;
            }
            assert(rest[2] == bytes@[i + 2]);
            return !(0x80 <= bytes[i + 2] && bytes[i + 2] < 0xc0);
        }
        assert(rest.subrange(2, rest.len() as int) =~= bytes@.subrange(i + 2, bytes@.len() as int));
        i = i + 2;
    }
    true
}

impl History {
    /// Whether `load` can read the ini file: no search line of even length
    /// has an invalid pair that ends inside a character.
    pub fn can_load(ini: &IniFile) -> (r: bool)
        ensures
            r == search_lines_ok(section_lines(ini.model(), "search"@)),
    {
        if let Some(section) = ini.section("search") {
            let ghost lv = lines_view(section@);
            let n = if section.len() < MAX_SEARCH {
                section.len()
            } else {
                MAX_SEARCH
            };
            let mut i: usize = 0;
            while i < n
                invariant
                    lv == lines_view(section@),
                    lv == section_lines(ini.model(), "search"@),
                    n == first_n(lv, MAX_SEARCH as int).len(),
                    n <= section@.len(),
                    i <= n,
                    forall|k: int|
                        0 <= k < i ==> (encode_len_even(lv[k]) ==> pairs_cut_ok(
                            #[trigger] vstd::utf8::encode_utf8(lv[k]),
                        )),
                decreases n - i,
            {
                let bytes = section[i].as_str().as_bytes();
                assert(lv[i as int] == section@[i as int]@);
                if bytes.len() % 2 == 0 && !pairs_cut(bytes) {
                    return false;
                }
                i = i + 1;
            }
            true
        } else {
            true
        }
    }
}

/// No entry occurs twice.
pub open spec fn no_duplicates<T>(s: Seq<T>) -> bool {
    forall|i: int, j: int| 0 <= i < j < s.len() ==> s[i] != s[j]
}

proof fn lemma_filter_differs<T>(s: Seq<T>, x: T)
    ensures
        forall|k: int| 0 <= k < s.filter(differs(x)).len() ==> #[trigger] s.filter(differs(x))[k] != x
            && s.contains(s.filter(differs(x))[k]),
        no_duplicates(s) ==> no_duplicates(s.filter(differs(x))),
    decreases s.len(),
{
    reveal(Seq::filter);
    if s.len() > 0 {
        let t = s.drop_last();
        lemma_filter_differs(t, x);
        assert(s =~= t.push(s.last()));
        t.lemma_filter_push(s.last(), differs(x));
        let ft = t.filter(differs(x));
        assert forall|k: int| 0 <= k < s.filter(differs(x)).len() implies #[trigger] s.filter(differs(x))[k] != x
            && s.contains(s.filter(differs(x))[k]) by {
            if k < ft.len() {
                assert(s.filter(differs(x))[k] == ft[k]);
                assert(t.contains(ft[k]));
                let w = choose|w: int| 0 <= w < t.len() && t[w] == ft[k];
                assert(s[w] == t[w]);
            } else {
                assert(s[s.len() - 1] == s.last());
            }
        }
        if no_duplicates(s) {
            assert(no_duplicates(t)) by {
                assert forall|i: int, j: int| 0 <= i < j < t.len() implies t[i] != t[j] by {
                    assert(t[i] == s[i] && t[j] == s[j]);
                }
            }
            if differs(x)(s.last()) {
                assert forall|i: int, j: int| 0 <= i < j < s.filter(differs(x)).len() implies s.filter(
                    differs(x),
                )[i] != s.filter(differs(x))[j] by {
                    if j == ft.len() {
                        assert(t.contains(ft[i]));
                        let w = choose|w: int| 0 <= w < t.len() && t[w] == ft[i];
                        assert(s[w] == t[w] && s[s.len() - 1] == s.last());
                    }
                }
            }
        }
    }
}

/// Adding to the front keeps the other items in their order behind the new
/// one, as many as there is room for.
pub proof fn law_add_front_keeps_order<T>(s: Seq<T>, x: T, max: int)
    requires
        max >= 1,
    ensures
        ({
            let rest = s.filter(differs(x));
            let r = spec_add_front(s, x, max);
            &&& r.len() == if 1 + rest.len() < max {
                1 + rest.len() as int
            } else {
                max
            }
            &&& forall|k: int| 1 <= k < r.len() ==> #[trigger] r[k] == rest[k - 1]
        }),
{
}

/// Adding an entry puts it first, keeps it nowhere else, keeps at most
/// `max` entries, takes every other entry from the history, and keeps a
/// history without duplicates free of them.
pub proof fn law_add_front<T>(s: Seq<T>, x: T, max: int)
    requires
        max >= 1,
    ensures
        spec_add_front(s, x, max).len() >= 1,
        spec_add_front(s, x, max)[0] == x,
        spec_add_front(s, x, max).len() <= max,
        forall|k: int| 1 <= k < spec_add_front(s, x, max).len() ==> #[trigger] spec_add_front(s, x, max)[k]
            != x && s.contains(spec_add_front(s, x, max)[k]),
        no_duplicates(s) ==> no_duplicates(spec_add_front(s, x, max)),
{
    lemma_filter_differs(s, x);
    let f = s.filter(differs(x));
    let added = seq![x] + f;
    let r = spec_add_front(s, x, max);
    assert forall|k: int| 1 <= k < r.len() implies #[trigger] r[k] != x && s.contains(r[k]) by {
        assert(r[k] == added[k]);
        assert(added[k] == f[k - 1]);
    }
    if no_duplicates(s) {
        assert forall|i: int, j: int| 0 <= i < j < r.len() implies r[i] != r[j] by {
            assert(r[i] == added[i] && r[j] == added[j]);
            assert(added[j] == f[j - 1]);
            if i > 0 {
                assert(added[i] == f[i - 1]);
            }
        }
    }
}

/// The last position recorded for a file is the one read back for it.
pub proof fn law_filepos_read_after_write(f: Seq<(Seq<char>, u64)>, path: Seq<char>, offset: u64)
    ensures
        spec_get_filepos(spec_add_filepos(f, path, offset), path) == Some(offset),
{
    let r = spec_add_filepos(f, path, offset);
    assert(r[0] == (path, offset));
}

/// Recording a file position leaves the positions of the other files that
/// stay among the first records as they were read before.
pub proof fn law_filepos_keeps_others(f: Seq<(Seq<char>, u64)>, path: Seq<char>, offset: u64, other: Seq<char>)
    requires
        other != path,
        f.filter(other_path(path)).len() < MAX_FILE,
    ensures
        spec_get_filepos(spec_add_filepos(f, path, offset), other) == spec_get_filepos(f, other),
{
    reveal(Seq::filter);
    let r = spec_add_filepos(f, path, offset);
    assert(r =~= seq![(path, offset)] + f.filter(other_path(path)));
    assert(r.drop_first() =~= f.filter(other_path(path)));
    lemma_get_filepos_filter(f, path, other);
}

proof fn lemma_get_filepos_filter(f: Seq<(Seq<char>, u64)>, path: Seq<char>, other: Seq<char>)
    requires
        other != path,
    ensures
        spec_get_filepos(f.filter(other_path(path)), other) == spec_get_filepos(f, other),
    decreases f.len(),
{
    reveal(Seq::filter);
    if f.len() > 0 {
        let t = f.drop_first();
        lemma_get_filepos_filter(t, path, other);
        lemma_filter_prepend_pos(t, f[0], path);
        assert(f =~= seq![f[0]] + t);
        if f[0].0 != path {
            assert((seq![f[0]] + t.filter(other_path(path))).drop_first() =~= t.filter(other_path(path)));
        }
    }
}

proof fn lemma_filter_prepend_pos(t: Seq<(Seq<char>, u64)>, e: (Seq<char>, u64), path: Seq<char>)
    ensures
        (seq![e] + t).filter(other_path(path)) == if e.0 != path {
            seq![e] + t.filter(other_path(path))
        } else {
            t.filter(other_path(path))
        },
{
    t.lemma_filter_prepend(e, other_path(path));
    if e.0 != path {
        assert(seq![e] + t.filter(other_path(path)) =~= (seq![e]) + t.filter(other_path(path)));
    } else {
        assert(Seq::<(Seq<char>, u64)>::empty() + t.filter(other_path(path)) =~= t.filter(other_path(path)));
    }
}

/// The hex lines of offsets read back as the offsets.
proof fn lemma_goto_roundtrip(g: Seq<u64>)
    ensures
        spec_goto_records(g.map_values(|o: u64| spec_digits(o as nat, 16))) == g,
    decreases g.len(),
{
    let lines = g.map_values(|o: u64| spec_digits(o as nat, 16));
    if g.len() == 0 {
        assert(lines.len() == 0);
        assert(g =~= Seq::<u64>::empty());
    } else {
        lemma_goto_roundtrip(g.drop_last());
        assert(lines.drop_last() =~= g.drop_last().map_values(|o: u64| spec_digits(o as nat, 16)));
        assert(lines.last() == spec_digits(g.last() as nat, 16));
        crate::num::lemma_parse_hex_digits(g.last());
        assert(g.drop_last().push(g.last()) =~= g);
    }
}

/// A file position line reads back as its record.
/// A file position line is the path, a colon and the offset in hex, and it
/// reads back as the path and the offset (the path may hold colons too).
pub proof fn law_file_line(path: Seq<char>, offset: u64)
    ensures
        file_line(path, offset) == path + ":"@ + spec_digits(offset as nat, 16),
        spec_file_record(path + ":"@ + spec_digits(offset as nat, 16)) == Some((path, offset)),
{
    lemma_file_record(path, offset);
}

proof fn lemma_file_record(path: Seq<char>, offset: u64)
    ensures
        spec_file_record(file_line(path, offset)) == Some((path, offset)),
{
    reveal_strlit(":");
    let line = file_line(path, offset);
    let d = spec_digits(offset as nat, 16);
    crate::num::lemma_digits_roundtrip(offset as nat, 16);
    let i = path.len() as int;
    assert(line[i] == ':');
    assert forall|k: int| i < k < line.len() implies line[k] != ':' by {
        assert(line[k] == d[k - i - 1]);
    }
    crate::text::lemma_last_index_of(line, ':', i);
    assert(line.subrange(i + 1, line.len() as int) =~= d);
    assert(line.subrange(0, i) =~= path);
    crate::num::lemma_parse_hex_digits(offset);
}

/// File position lines read back as the records.
proof fn lemma_file_roundtrip(f: Seq<(Seq<char>, u64)>)
    ensures
        spec_file_records(f.map_values(|e: (Seq<char>, u64)| file_line(e.0, e.1))) == f,
    decreases f.len(),
{
    let lines = f.map_values(|e: (Seq<char>, u64)| file_line(e.0, e.1));
    if f.len() == 0 {
        assert(lines.len() == 0);
        assert(f =~= Seq::<(Seq<char>, u64)>::empty());
    } else {
        lemma_file_roundtrip(f.drop_last());
        assert(lines.drop_last() =~= f.drop_last().map_values(|e: (Seq<char>, u64)| file_line(e.0, e.1)));
        assert(lines.last() == file_line(f.last().0, f.last().1));
        lemma_file_record(f.last().0, f.last().1);
        assert(f.drop_last().push(f.last()) =~= f);
    }
}

/// The hex text of bytes: two digits per byte.
pub(crate) proof fn lemma_hex_text_digits(s: Seq<u8>)
    ensures
        hex_text(s).len() == 2 * s.len(),
        forall|i: int|
            0 <= i < s.len() ==> hex_text(s)[2 * i] == crate::num::hex_digit((s[i] / 16) as int) && hex_text(
                s,
            )[2 * i + 1] == crate::num::hex_digit((s[i] % 16) as int),
    decreases s.len(),
{
    if s.len() > 0 {
        lemma_hex_text_digits(s.drop_last());
        assert forall|i: int| 0 <= i < s.len() implies hex_text(s)[2 * i] == crate::num::hex_digit(
            (s[i] / 16) as int,
        ) && hex_text(s)[2 * i + 1] == crate::num::hex_digit((s[i] % 16) as int) by {
            if i < s.len() - 1 {
                assert(s.drop_last()[i] == s[i]);
            }
        }
    }
}

/// A hex digit character, as a byte, reads back as its value.
proof fn lemma_hex_digit_byte(d: int)
    requires
        0 <= d < 16,
    ensures
        hex_byte(crate::num::hex_digit(d) as u8) == d,
        (crate::num::hex_digit(d) as u32) < 128,
{
    let c = crate::num::hex_digit(d);
    if d < 10 {
        assert((c as u8) as int == 0x30 + d);
    } else {
        assert((c as u8) as int == 0x61 + d - 10);
    }
}

/// Bytes made of valid pairs decode to the values of the pairs, and
/// reading them never cuts a character.
proof fn lemma_decode_all_pairs(b: Seq<u8>, s: Seq<u8>)
    requires
        b.len() == 2 * s.len(),
        forall|i: int| 0 <= i < s.len() ==> #[trigger] pair_value(b[2 * i], b[2 * i + 1]) == s[i],
    ensures
        decode_pairs(b) == s,
        pairs_cut_ok(b),
    decreases s.len(),
{
    if s.len() > 0 {
        let b2 = b.subrange(2, b.len() as int);
        let s2 = s.drop_first();
        assert forall|i: int| 0 <= i < s2.len() implies #[trigger] pair_value(b2[2 * i], b2[2 * i + 1]) == s2[i] by {
            assert(b2[2 * i] == b[2 * (i + 1)]);
            assert(b2[2 * i + 1] == b[2 * (i + 1) + 1]);
            assert(pair_value(b[2 * (i + 1)], b[2 * (i + 1) + 1]) == s[i + 1]);
        }
        lemma_decode_all_pairs(b2, s2);
        assert(pair_value(b[2 * 0int], b[2 * 0int + 1]) == s[0]);
        assert(pair_value(b[0], b[1]) == s[0]);
        assert(seq![s[0]] + s2 =~= s);
    } else {
        assert(b.len() == 0);
        assert(s =~= Seq::<u8>::empty());
    }
}

/// The bytes of the hex text of a sequence decode to the sequence.
proof fn lemma_hex_line(x: Seq<u8>)
    ensures
        decode_pairs(vstd::utf8::encode_utf8(hex_text(x))) == x,
        pairs_cut_ok(vstd::utf8::encode_utf8(hex_text(x))),
        vstd::utf8::encode_utf8(hex_text(x)).len() == 2 * x.len(),
{
    let t = hex_text(x);
    lemma_hex_text_digits(x);
    assert forall|k: int| 0 <= k < t.len() implies '\0' <= #[trigger] t[k] <= '\u{7f}' by {
        let i = k / 2;
        assert(k == 2 * i || k == 2 * i + 1);
        crate::num::lemma_hex_digit_value((x[i] / 16) as int);
        crate::num::lemma_hex_digit_value((x[i] % 16) as int);
    }
    assert(vstd::utf8::is_ascii_chars(t));
    vstd::utf8::is_ascii_chars_encode_utf8(t);
    let b = vstd::utf8::encode_utf8(t);
    assert forall|i: int| 0 <= i < x.len() implies #[trigger] pair_value(b[2 * i], b[2 * i + 1]) == x[i] by {
        lemma_hex_digit_byte((x[i] / 16) as int);
        lemma_hex_digit_byte((x[i] % 16) as int);
        assert(b[2 * i] == t[2 * i] as u8);
        assert(b[2 * i + 1] == t[2 * i + 1] as u8);
    }
    lemma_decode_all_pairs(b, x);
}

/// The hex text of bytes is made of hex digits and reads back, pair by
/// pair, as the bytes.
pub proof fn lemma_hex_text_pairs(x: Seq<u8>)
    ensures
        crate::num::all_digits(hex_text(x), 16),
        crate::num::spec_hex_pairs(hex_text(x)) == x,
{
    let t = hex_text(x);
    lemma_hex_text_digits(x);
    assert forall|k: int| 0 <= k < t.len() implies 0 <= #[trigger] digit_value(t[k]) < 16 by {
        let i = k / 2;
        assert(k == 2 * i || k == 2 * i + 1);
        crate::num::lemma_hex_digit_value((x[i] / 16) as int);
        crate::num::lemma_hex_digit_value((x[i] % 16) as int);
    }
    assert(crate::num::padded_hex(t) == t);
    assert forall|i: int| 0 <= i < x.len() implies #[trigger] crate::num::spec_hex_pairs(t)[i] == x[i] by {
        crate::num::lemma_hex_digit_value((x[i] / 16) as int);
        crate::num::lemma_hex_digit_value((x[i] % 16) as int);
    }
    assert(crate::num::spec_hex_pairs(t) =~= x);
}

/// The hex lines of non-empty sequences read back as the sequences.
proof fn lemma_search_roundtrip(s: Seq<Seq<u8>>)
    requires
        forall|i: int| 0 <= i < s.len() ==> #[trigger] s[i].len() > 0,
    ensures
        spec_search_records(bytes_view(s.map_values(|x: Seq<u8>| hex_text(x)))) == s,
        search_lines_ok(s.map_values(|x: Seq<u8>| hex_text(x))),
    decreases s.len(),
{
    let lines = s.map_values(|x: Seq<u8>| hex_text(x));
    let bv = bytes_view(lines);
    if s.len() == 0 {
        assert(bv.len() == 0);
        assert(s =~= Seq::<Seq<u8>>::empty());
    } else {
        lemma_search_roundtrip(s.drop_last());
        assert(lines.drop_last() =~= s.drop_last().map_values(|x: Seq<u8>| hex_text(x)));
        assert(bv.drop_last() =~= bytes_view(lines.drop_last()));
        assert(bv.last() == vstd::utf8::encode_utf8(hex_text(s.last())));
        lemma_hex_line(s.last());
        assert(s.drop_last().push(s.last()) =~= s);
    }
    assert forall|i: int| 0 <= i < first_n(lines, MAX_SEARCH as int).len() implies pairs_cut_ok(
        #[trigger] vstd::utf8::encode_utf8(lines[i]),
    ) by {
        lemma_hex_line(s[i]);
    }
}

/// What saving writes, loading reads back: an ini file with the sections
/// that saving writes for the given records gives, on loading, the first
/// records of each kind (the search sequences being non-empty).
pub proof fn law_load_reads_saved(
    v: Seq<SectionModel>,
    f: Seq<(Seq<char>, u64)>,
    s: Seq<Seq<u8>>,
    g: Seq<u64>,
)
    requires
        lookup(v, "file"@) == Some(
            first_n(f, MAX_FILE as int).map_values(|e: (Seq<char>, u64)| file_line(e.0, e.1)),
        ),
        lookup(v, "search"@) == Some(first_n(s, MAX_SEARCH as int).map_values(|x: Seq<u8>| hex_text(x))),
        lookup(v, "goto"@) == Some(first_n(g, MAX_GOTO as int).map_values(|o: u64| spec_digits(o as nat, 16))),
        forall|i: int| 0 <= i < s.len() ==> #[trigger] s[i].len() > 0,
    ensures
        search_lines_ok(section_lines(v, "search"@)),
        spec_file_records(first_n(section_lines(v, "file"@), MAX_FILE as int)) == first_n(f, MAX_FILE as int),
        spec_search_records(bytes_view(first_n(section_lines(v, "search"@), MAX_SEARCH as int))) == first_n(
            s,
            MAX_SEARCH as int,
        ),
        spec_goto_records(first_n(section_lines(v, "goto"@), MAX_GOTO as int)) == first_n(g, MAX_GOTO as int),
{
    let f10 = first_n(f, MAX_FILE as int);
    let s10 = first_n(s, MAX_SEARCH as int);
    let g10 = first_n(g, MAX_GOTO as int);
    let fl = f10.map_values(|e: (Seq<char>, u64)| file_line(e.0, e.1));
    let sl = s10.map_values(|x: Seq<u8>| hex_text(x));
    let gl = g10.map_values(|o: u64| spec_digits(o as nat, 16));
    assert(first_n(fl, MAX_FILE as int) == fl);
    assert(first_n(sl, MAX_SEARCH as int) == sl);
    assert(first_n(gl, MAX_GOTO as int) == gl);
    lemma_file_roundtrip(f10);
    lemma_goto_roundtrip(g10);
    assert forall|i: int| 0 <= i < s10.len() implies #[trigger] s10[i].len() > 0 by {
        assert(s10[i] == s[i]);
    }
    lemma_search_roundtrip(s10);
}

/// A digit is neither whitespace nor a character that marks a comment or
/// a section header.
proof fn lemma_digit_char(c: char)
    requires
        0 <= digit_value(c),
    ensures
        !spec_is_whitespace(c),
        c != '#',
        c != ']',
{
}

proof fn lemma_digits_plain(o: u64)
    ensures
        plain_line(spec_digits(o as nat, 16)),
{
    let d = spec_digits(o as nat, 16);
    lemma_digits_roundtrip(o as nat, 16);
    lemma_digit_char(d[0]);
    lemma_digit_char(d[d.len() - 1]);
    lemma_trim_plain(d);
}

proof fn lemma_hex_line_plain(x: Seq<u8>)
    requires
        x.len() > 0,
    ensures
        plain_line(hex_text(x)),
{
    let t = hex_text(x);
    lemma_hex_text_digits(x);
    let k = x.len() - 1;
    assert(t[0] == hex_digit((x[0] / 16) as int));
    assert(t[2 * k + 1] == hex_digit((x[k] % 16) as int));
    lemma_hex_digit_value((x[0] / 16) as int);
    lemma_hex_digit_value((x[k] % 16) as int);
    lemma_digit_char(t[0]);
    lemma_digit_char(t[t.len() - 1]);
    lemma_trim_plain(t);
}

proof fn lemma_file_line_plain(path: Seq<char>, offset: u64)
    requires
        path.len() > 0 ==> !spec_is_whitespace(path[0]) && path[0] != '#',
    ensures
        plain_line(file_line(path, offset)),
{
    reveal_strlit(":");
    let d = spec_digits(offset as nat, 16);
    let l = file_line(path, offset);
    lemma_digits_roundtrip(offset as nat, 16);
    assert(l.last() == d[d.len() - 1]);
    lemma_digit_char(d[d.len() - 1]);
    if path.len() > 0 {
        assert(l[0] == path[0]);
    } else {
        assert(l[0] == ':');
    }
    lemma_trim_plain(l);
}

/// History saved as text reads back: the text that saving writes is that
/// of its lines, and reading those lines then loading them gives the first
/// records of each kind, where no saved path starts with whitespace or `#`
/// and the search sequences are non-empty.
pub proof fn law_history_text_roundtrip(f: Seq<(Seq<char>, u64)>, s: Seq<Seq<u8>>, g: Seq<u64>)
    requires
        forall|i: int|
            0 <= i < first_n(f, MAX_FILE as int).len() && f[i].0.len() > 0 ==> !spec_is_whitespace(
                #[trigger] f[i].0[0],
            ) && f[i].0[0] != '#',
        forall|i: int| 0 <= i < s.len() ==> #[trigger] s[i].len() > 0,
    ensures
        ({
            let saved = saved_sections(f, s, g);
            let v = spec_parse(ini_lines(saved)).0;
            &&& lines_text(ini_lines(saved)) == ini_text(saved)
            &&& search_lines_ok(section_lines(v, "search"@))
            &&& spec_file_records(first_n(section_lines(v, "file"@), MAX_FILE as int)) == first_n(f, MAX_FILE as int)
            &&& spec_search_records(bytes_view(first_n(section_lines(v, "search"@), MAX_SEARCH as int)))
                == first_n(s, MAX_SEARCH as int)
            &&& spec_goto_records(first_n(section_lines(v, "goto"@), MAX_GOTO as int)) == first_n(g, MAX_GOTO as int)
        }),
{
    reveal_strlit("file");
    reveal_strlit("goto");
    reveal_strlit("search");
    assert(spec_lowercase("file"@) =~= "file"@);
    assert(spec_lowercase("goto"@) =~= "goto"@);
    assert(spec_lowercase("search"@) =~= "search"@);
    let saved = saved_sections(f, s, g);
    let f10 = first_n(f, MAX_FILE as int);
    let s10 = first_n(s, MAX_SEARCH as int);
    let g10 = first_n(g, MAX_GOTO as int);
    let fl = f10.map_values(|e: (Seq<char>, u64)| file_line(e.0, e.1));
    let gl = g10.map_values(|o: u64| spec_digits(o as nat, 16));
    let sl = s10.map_values(|x: Seq<u8>| hex_text(x));
    assert(seq_less("file"@, "search"@));
    assert(seq_less("file"@, "goto"@));
    assert(seq_less("goto"@, "search"@));
    assert forall|j: int| 0 <= j < fl.len() implies plain_line(#[trigger] fl[j]) by {
        assert(f10[j] == f[j]);
        lemma_file_line_plain(f10[j].0, f10[j].1);
    }
    assert forall|j: int| 0 <= j < gl.len() implies plain_line(#[trigger] gl[j]) by {
        lemma_digits_plain(g10[j]);
    }
    assert forall|j: int| 0 <= j < sl.len() implies plain_line(#[trigger] sl[j]) by {
        assert(s10[j] == s[j]);
        lemma_hex_line_plain(s10[j]);
    }
    assert(readable_sections(saved));
    law_parse_reads_text(saved);
    let v = spec_parse(ini_lines(saved)).0;
    assert("file"@ != "goto"@ && "file"@ != "search"@ && "goto"@ != "search"@) by {
        assert("file"@[0] != "goto"@[0]);
        assert("file"@[0] != "search"@[0]);
        assert("goto"@[0] != "search"@[0]);
    }
    lemma_lookup_index(saved, "file"@, 0);
    lemma_lookup_index(saved, "goto"@, 1);
    lemma_lookup_index(saved, "search"@, 2);
    lemma_lookup_filled(saved, "file"@);
    lemma_lookup_filled(saved, "goto"@);
    lemma_lookup_filled(saved, "search"@);
    assert(section_lines(v, "file"@) == section_lines(saved, "file"@));
    assert(section_lines(v, "goto"@) == section_lines(saved, "goto"@));
    assert(section_lines(v, "search"@) == section_lines(saved, "search"@));
    law_load_reads_saved(saved, f, s, g);
}

} // verus!
