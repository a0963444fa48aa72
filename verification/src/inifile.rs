//! INI file (DOS-like, very simple): named sections of text lines.
use crate::num::{parse_unsigned, spec_parse_unsigned};
use crate::text::{
    append_str, concat, find_char, first_index_of, is_first, lemma_first_index_of, lemma_trim_space_after,
    lemma_trim_space_before, lemma_trim_plain, from_chars, is_ascii, lemma_lowercase_ascii, lowercase, spec_lowercase, spec_trim,
    to_chars, trim, trim_bounds,
};
use vstd::prelude::*;
use vstd::string::StringExecFns;

verus! {

/// Named section of an ini file.
pub struct IniSection {
    /// Section name.
    pub name: String,
    /// Lines of the section.
    pub lines: Vec<String>,
}

/// INI file: sections ordered by name.
pub struct IniFile {
    pub sections: Vec<IniSection>,
}

/// Abstract section: name and lines.
pub type SectionModel = (Seq<char>, Seq<Seq<char>>);

/// Views of a list of strings.
pub open spec fn lines_view(lines: Seq<String>) -> Seq<Seq<char>> {
    lines.map_values(|s: String| s@)
}

/// Abstract section of a section.
pub open spec fn section_view(s: IniSection) -> SectionModel {
    (s.name@, lines_view(s.lines@))
}

/// Lexicographic order of character sequences (the order of `str`).
pub open spec fn seq_less(a: Seq<char>, b: Seq<char>) -> bool
    decreases a.len(),
{
    if a.len() == 0 {
        b.len() > 0
    } else if b.len() == 0 {
        false
    } else if a[0] != b[0] {
        (a[0] as u32) < (b[0] as u32)
    } else {
        seq_less(a.drop_first(), b.drop_first())
    }
}

/// Sections of the first `i` entries are in increasing name order.
pub open spec fn sorted(v: Seq<SectionModel>) -> bool {
    forall|i: int, j: int| 0 <= i < j < v.len() ==> seq_less(v[i].0, v[j].0)
}

/// Lines of the section `name`, if present.
pub open spec fn lookup(v: Seq<SectionModel>, name: Seq<char>) -> Option<Seq<Seq<char>>>
    decreases v.len(),
{
    if v.len() == 0 {
        None
    } else if v[0].0 == name {
        Some(v[0].1)
    } else {
        lookup(v.drop_first(), name)
    }
}

/// Number of leading sections whose name is below `name`.
pub open spec fn insert_pos(v: Seq<SectionModel>, name: Seq<char>) -> int
    decreases v.len(),
{
    if v.len() == 0 || !seq_less(v[0].0, name) {
        0
    } else {
        1 + insert_pos(v.drop_first(), name)
    }
}

/// Sections after setting the lines of the section `name`: an existing
/// section is replaced, a new one is inserted in name order.
pub open spec fn spec_insert(v: Seq<SectionModel>, name: Seq<char>, lines: Seq<Seq<char>>) -> Seq<
    SectionModel,
> {
    let pos = insert_pos(v, name);
    if pos < v.len() && v[pos].0 == name {
        v.update(pos, (name, lines))
    } else {
        v.insert(pos, (name, lines))
    }
}

/// Key (trimmed, lower case) and value (trimmed) of a `key = value` line.
pub open spec fn spec_keyval(line: Seq<char>) -> Option<(Seq<char>, Seq<char>)> {
    match first_index_of(line, '=') {
        Some(i) => Some(
            (
                spec_lowercase(spec_trim(line.subrange(0, i))),
                spec_trim(line.subrange(i + 1, line.len() as int)),
            ),
        ),
        None => None,
    }
}

/// Value of the first line of `lines` with the key `key`.
pub open spec fn find_value(lines: Seq<Seq<char>>, key: Seq<char>) -> Option<Seq<char>>
    decreases lines.len(),
{
    if lines.len() == 0 {
        None
    } else {
        match spec_keyval(lines[0]) {
            Some((k, v)) => if k == key {
                Some(v)
            } else {
                find_value(lines.drop_first(), key)
            },
            None => find_value(lines.drop_first(), key),
        }
    }
}

/// Position of the first line of `lines` with the key `key`, or the number
/// of lines.
pub open spec fn key_pos(lines: Seq<Seq<char>>, key: Seq<char>) -> int
    decreases lines.len(),
{
    if lines.len() == 0 {
        0
    } else if spec_keyval(lines[0]) matches Some((k, _)) && k == key {
        0
    } else {
        1 + key_pos(lines.drop_first(), key)
    }
}

/// String value of `key` in `section` (both compared in lower case).
pub open spec fn spec_get_strval(v: Seq<SectionModel>, section: Seq<char>, key: Seq<char>) -> Option<
    Seq<char>,
> {
    match lookup(v, spec_lowercase(section)) {
        Some(lines) => find_value(lines, spec_lowercase(key)),
        None => None,
    }
}

/// Sections after `set_keyval`.
pub open spec fn spec_set_keyval(v: Seq<SectionModel>, section: Seq<char>, key: Seq<char>, value: Seq<char>) -> Seq<SectionModel> {
    let name = spec_lowercase(section);
    let lkey = spec_lowercase(key);
    let line = lkey + " = "@ + value;
    let lines = match lookup(v, name) {
        Some(l) => l,
        None => Seq::empty(),
    };
    let pos = key_pos(lines, lkey);
    let new_lines = if pos < lines.len() {
        lines.update(pos, line)
    } else {
        lines.push(line)
    };
    spec_insert(v, name, new_lines)
}

/// Sections and current section name after reading one line of a file.
pub open spec fn process_line(v: Seq<SectionModel>, last: Seq<char>, line: Seq<char>) -> (Seq<SectionModel>, Seq<char>) {
    let t = spec_trim(line);
    if t.len() == 0 || t[0] == '#' {
        (v, last)
    } else if t[0] == '[' && t.last() == ']' {
        (v, spec_lowercase(t.subrange(1, t.len() - 1)))
    } else {
        let lines = match lookup(v, last) {
            Some(l) => l,
            None => Seq::empty(),
        };
        (spec_insert(v, last, lines.push(t)), last)
    }
}

/// Sections and current section name after reading the lines of a file.
pub open spec fn spec_parse(lines: Seq<Seq<char>>) -> (Seq<SectionModel>, Seq<char>)
    decreases lines.len(),
{
    if lines.len() == 0 {
        (Seq::empty(), Seq::empty())
    } else {
        let (v, last) = spec_parse(lines.drop_last());
        process_line(v, last, lines.last())
    }
}

/// Text of the lines of a section, each followed by a line feed.
pub open spec fn lines_text(lines: Seq<Seq<char>>) -> Seq<char>
    decreases lines.len(),
{
    if lines.len() == 0 {
        Seq::empty()
    } else {
        lines_text(lines.drop_last()) + lines.last() + "\n"@
    }
}

/// Text of an ini file: each section as `[name]` followed by its lines.
pub open spec fn ini_text(v: Seq<SectionModel>) -> Seq<char>
    decreases v.len(),
{
    if v.len() == 0 {
        Seq::empty()
    } else {
        ini_text(v.drop_last()) + "["@ + v.last().0 + "]\n"@ + lines_text(v.last().1)
    }
}

pub(crate) proof fn lemma_lookup_index(v: Seq<SectionModel>, name: Seq<char>, i: int)
    requires
        0 <= i < v.len(),
        v[i].0 == name,
        forall|k: int| 0 <= k < i ==> v[k].0 != name,
    ensures
        lookup(v, name) == Some(v[i].1),
    decreases i,
{
    if i > 0 {
        lemma_lookup_index(v.drop_first(), name, i - 1);
    }
}

proof fn lemma_lookup_none(v: Seq<SectionModel>, name: Seq<char>)
    requires
        forall|k: int| 0 <= k < v.len() ==> v[k].0 != name,
    ensures
        lookup(v, name) == None::<Seq<Seq<char>>>,
    decreases v.len(),
{
    if v.len() > 0 {
        lemma_lookup_none(v.drop_first(), name);
    }
}

pub(crate) proof fn lemma_insert_pos(v: Seq<SectionModel>, name: Seq<char>, i: int)
    requires
        0 <= i <= v.len(),
        forall|k: int| 0 <= k < i ==> seq_less(#[trigger] v[k].0, name),
        i < v.len() ==> !seq_less(v[i].0, name),
    ensures
        insert_pos(v, name) == i,
    decreases i,
{
    if i > 0 {
        assert forall|k: int| 0 <= k < i - 1 implies seq_less(#[trigger] v.drop_first()[k].0, name) by {
            assert(v.drop_first()[k] == v[k + 1]);
        }
        lemma_insert_pos(v.drop_first(), name, i - 1);
    }
}

proof fn lemma_seq_less_irreflexive(a: Seq<char>)
    ensures
        !seq_less(a, a),
    decreases a.len(),
{
    if a.len() > 0 {
        lemma_seq_less_irreflexive(a.drop_first());
    }
}

proof fn lemma_seq_less_prefix(a: Seq<char>, b: Seq<char>, i: int)
    requires
        0 <= i <= a.len(),
        i <= b.len(),
        a.subrange(0, i) == b.subrange(0, i),
    ensures
        seq_less(a, b) == seq_less(a.subrange(i, a.len() as int), b.subrange(i, b.len() as int)),
    decreases i,
{
    if i > 0 {
        assert(a[0] == a.subrange(0, i)[0]);
        assert(b[0] == b.subrange(0, i)[0]);
        assert(a.drop_first().subrange(0, i - 1) =~= a.subrange(0, i).drop_first());
        assert(b.drop_first().subrange(0, i - 1) =~= b.subrange(0, i).drop_first());
        lemma_seq_less_prefix(a.drop_first(), b.drop_first(), i - 1);
        assert(a.drop_first().subrange(i - 1, a.len() - 1) =~= a.subrange(i, a.len() as int));
        assert(b.drop_first().subrange(i - 1, b.len() - 1) =~= b.subrange(i, b.len() as int));
    } else {
        assert(a.subrange(0, a.len() as int) =~= a);
        assert(b.subrange(0, b.len() as int) =~= b);
    }
}

proof fn lemma_insert_pos_below(v: Seq<SectionModel>, name: Seq<char>)
    ensures
        0 <= insert_pos(v, name) <= v.len(),
        forall|k: int| 0 <= k < insert_pos(v, name) ==> seq_less(#[trigger] v[k].0, name),
    decreases v.len(),
{
    if v.len() > 0 && seq_less(v[0].0, name) {
        lemma_insert_pos_below(v.drop_first(), name);
        assert forall|k: int| 0 <= k < insert_pos(v, name) implies seq_less(#[trigger] v[k].0, name) by {
            if k > 0 {
                assert(v[k] == v.drop_first()[k - 1]);
            }
        }
    }
}

proof fn lemma_lookup_other(v: Seq<SectionModel>, w: Seq<SectionModel>, q: Seq<char>)
    requires
        forall|k: int| 0 <= k < v.len() && v[k].0 == q ==> k < w.len() && w[k] == v[k],
        forall|k: int| 0 <= k < w.len() && w[k].0 == q ==> k < v.len() && w[k] == v[k],
        forall|k: int| 0 <= k < v.len() && k < w.len() && (v[k].0 == q || w[k].0 == q) ==> w[k] == v[k],
    ensures
        lookup(w, q) == lookup(v, q),
    decreases v.len(),
{
    if v.len() > 0 && w.len() > 0 {
        if v[0].0 == q || w[0].0 == q {
        } else {
            assert forall|k: int| 0 <= k < v.drop_first().len() && v.drop_first()[k].0 == q implies k < w.drop_first().len()
                && w.drop_first()[k] == v.drop_first()[k] by {
                assert(v.drop_first()[k] == v[k + 1]);
            }
            assert forall|k: int| 0 <= k < w.drop_first().len() && w.drop_first()[k].0 == q implies k < v.drop_first().len()
                && w.drop_first()[k] == v.drop_first()[k] by {
                assert(w.drop_first()[k] == w[k + 1]);
            }
            assert forall|k: int| 0 <= k < v.drop_first().len() && k < w.drop_first().len() && (v.drop_first()[k].0 == q
                || w.drop_first()[k].0 == q) implies w.drop_first()[k] == v.drop_first()[k] by {
                assert(v.drop_first()[k] == v[k + 1]);
                assert(w.drop_first()[k] == w[k + 1]);
            }
            lemma_lookup_other(v.drop_first(), w.drop_first(), q);
        }
    } else if v.len() > 0 {
        lemma_lookup_none(v, q);
    } else if w.len() > 0 {
        lemma_lookup_none(w, q);
    }
}

/// Setting the lines of a section is read back by looking the section up,
/// and leaves every other section as it was.
pub proof fn law_insert_then_lookup(v: Seq<SectionModel>, name: Seq<char>, lines: Seq<Seq<char>>, q: Seq<char>)
    ensures
        lookup(spec_insert(v, name, lines), q) == if q == name {
            Some(lines)
        } else {
            lookup(v, q)
        },
{
    let pos = insert_pos(v, name);
    let w = spec_insert(v, name, lines);
    lemma_insert_pos_below(v, name);
    if q == name {
        assert forall|k: int| 0 <= k < pos implies #[trigger] w[k].0 != name by {
            lemma_seq_less_irreflexive(name);
            assert(w[k] == v[k]);
            assert(seq_less(v[k].0, name));
        }
        assert(w[pos] == (name, lines));
        lemma_lookup_index(w, name, pos);
    } else {
        if pos < v.len() && v[pos].0 == name {
            lemma_lookup_other(v, w, q);
        } else {
            assert(w =~= v.insert(pos, (name, lines)));
            lemma_lookup_insert_other(v, pos, (name, lines), q);
        }
    }
}

/// The line has a key, and it is `key`.
spec fn line_has_key(line: Seq<char>, key: Seq<char>) -> bool {
    spec_keyval(line) matches Some((k, _)) && k == key
}

proof fn lemma_key_pos(lines: Seq<Seq<char>>, key: Seq<char>)
    ensures
        0 <= key_pos(lines, key) <= lines.len(),
        forall|q: int| 0 <= q < key_pos(lines, key) ==> !line_has_key(#[trigger] lines[q], key),
        key_pos(lines, key) < lines.len() ==> line_has_key(lines[key_pos(lines, key)], key),
    decreases lines.len(),
{
    if lines.len() > 0 {
        lemma_key_pos(lines.drop_first(), key);
        assert forall|q: int| 0 <= q < key_pos(lines, key) implies !line_has_key(#[trigger] lines[q], key) by {
            if q > 0 {
                assert(lines[q] == lines.drop_first()[q - 1]);
            }
        }
        if 0 < key_pos(lines, key) < lines.len() {
            assert(lines[key_pos(lines, key)] == lines.drop_first()[key_pos(lines, key) - 1]);
        }
    }
}

proof fn lemma_find_at(lines: Seq<Seq<char>>, key: Seq<char>, p: int, value: Seq<char>)
    requires
        0 <= p < lines.len(),
        forall|q: int| 0 <= q < p ==> !line_has_key(#[trigger] lines[q], key),
        spec_keyval(lines[p]) == Some((key, value)),
    ensures
        find_value(lines, key) == Some(value),
    decreases p,
{
    if p > 0 {
        assert(!line_has_key(lines[0], key));
        assert forall|q: int| 0 <= q < p - 1 implies !line_has_key(#[trigger] lines.drop_first()[q], key) by {
            assert(lines.drop_first()[q] == lines[q + 1]);
        }
        lemma_find_at(lines.drop_first(), key, p - 1, value);
    }
}

/// A `key = value` line, with a key in lower case, without `=` and without
/// whitespace around it, reads as the key and the trimmed value.
pub proof fn lemma_keyval_line(key: Seq<char>, value: Seq<char>)
    requires
        forall|i: int| 0 <= i < key.len() ==> key[i] != '=',
        spec_trim(key) == key,
        spec_lowercase(key) == key,
    ensures
        spec_keyval(key + " = "@ + value) == Some((key, spec_trim(value))),
{
    reveal_strlit(" = ");
    let line = key + " = "@ + value;
    let i = key.len() as int + 1;
    assert(is_first(line, '=', i));
    lemma_first_index_of(line, '=', i);
    assert(line.subrange(0, i) =~= key + seq![' ']);
    lemma_trim_space_after(key, ' ');
    assert(line.subrange(i + 1, line.len() as int) =~= seq![' '] + value);
    lemma_trim_space_before(' ', value);
}

/// Setting an ASCII key is read back: where the key holds no `=` and has no
/// whitespace around it, the value of the key in the section is then the
/// value, trimmed.
pub proof fn law_set_then_get(v: Seq<SectionModel>, section: Seq<char>, key: Seq<char>, value: Seq<char>)
    requires
        is_ascii(key),
        forall|i: int| 0 <= i < key.len() ==> key[i] != '=',
        spec_trim(key) == key,
    ensures
        spec_get_strval(spec_set_keyval(v, section, key, value), section, key) == Some(spec_trim(value)),
{
    lemma_lowercase_ascii(key);
    let l = spec_lowercase(key);
    assert forall|i: int| 0 <= i < l.len() implies l[i] != '=' by {
        assert(key[i] != '=');
    }
    law_set_then_get_lowered(v, section, key, value);
}

/// Setting a key is read back: the value of the key in the section is then
/// the value, trimmed. This holds where the key in lower case holds no `=`,
/// has no whitespace around it and is its own lower case form.
pub proof fn law_set_then_get_lowered(v: Seq<SectionModel>, section: Seq<char>, key: Seq<char>, value: Seq<char>)
    requires
        forall|i: int| 0 <= i < spec_lowercase(key).len() ==> spec_lowercase(key)[i] != '=',
        spec_trim(spec_lowercase(key)) == spec_lowercase(key),
        spec_lowercase(spec_lowercase(key)) == spec_lowercase(key),
    ensures
        spec_get_strval(spec_set_keyval(v, section, key, value), section, key) == Some(spec_trim(value)),
{
    reveal_strlit(" = ");
    let name = spec_lowercase(section);
    let lkey = spec_lowercase(key);
    let line = lkey + " = "@ + value;
    let lines = match lookup(v, name) {
        Some(l) => l,
        None => Seq::empty(),
    };
    let pos = key_pos(lines, lkey);
    let new_lines = if pos < lines.len() {
        lines.update(pos, line)
    } else {
        lines.push(line)
    };
    law_insert_then_lookup(v, name, new_lines, name);
    lemma_keyval_line(lkey, value);
    lemma_key_pos(lines, lkey);
    assert forall|q: int| 0 <= q < pos implies !line_has_key(#[trigger] new_lines[q], lkey) by {
        assert(new_lines[q] == lines[q]);
    }
    lemma_find_at(new_lines, lkey, pos, spec_trim(value));
}

/// A line that reads back as itself: not empty, without whitespace around
/// it, neither a comment nor a section header.
pub open spec fn plain_line(line: Seq<char>) -> bool {
    &&& line.len() > 0
    &&& spec_trim(line) == line
    &&& line[0] != '#'
    &&& !(line[0] == '[' && line.last() == ']')
}

/// Header line of the section `name`.
pub open spec fn header_line(name: Seq<char>) -> Seq<char> {
    "["@ + name + "]"@
}

/// Lines of the text of an ini file: each section as its header line
/// followed by its lines.
pub open spec fn ini_lines(v: Seq<SectionModel>) -> Seq<Seq<char>>
    decreases v.len(),
{
    if v.len() == 0 {
        Seq::empty()
    } else {
        ini_lines(v.drop_last()).push(header_line(v.last().0)) + v.last().1
    }
}

/// Sections that the text of an ini file gives back: in name order, each
/// name its own lower case form, each line plain.
pub open spec fn readable_sections(v: Seq<SectionModel>) -> bool {
    &&& sorted(v)
    &&& forall|i: int| 0 <= i < v.len() ==> spec_lowercase(#[trigger] v[i].0) == v[i].0
    &&& forall|i: int, j: int| 0 <= i < v.len() && 0 <= j < v[i].1.len() ==> plain_line(#[trigger] v[i].1[j])
}

/// The sections of `v` that have lines.
pub open spec fn filled(v: Seq<SectionModel>) -> Seq<SectionModel>
    decreases v.len(),
{
    if v.len() == 0 {
        Seq::empty()
    } else if v[0].1.len() > 0 {
        seq![v[0]] + filled(v.drop_first())
    } else {
        filled(v.drop_first())
    }
}

proof fn lemma_filled_push(v: Seq<SectionModel>, e: SectionModel)
    ensures
        filled(v.push(e)) == if e.1.len() > 0 {
            filled(v).push(e)
        } else {
            filled(v)
        },
    decreases v.len(),
{
    let w = v.push(e);
    if v.len() == 0 {
        assert(w.drop_first() =~= Seq::<SectionModel>::empty());
        assert(w[0] == e);
        assert(filled(w.drop_first()) == Seq::<SectionModel>::empty());
        assert(filled(v) == Seq::<SectionModel>::empty());
        assert(seq![e] + Seq::<SectionModel>::empty() =~= Seq::<SectionModel>::empty().push(e));
    } else {
        assert(w.drop_first() =~= v.drop_first().push(e));
        assert(w[0] == v[0]);
        lemma_filled_push(v.drop_first(), e);
        if e.1.len() > 0 {
            assert(seq![v[0]] + filled(v.drop_first()).push(e) =~= (seq![v[0]] + filled(v.drop_first())).push(e));
        }
    }
}

proof fn lemma_filled_below(v: Seq<SectionModel>, name: Seq<char>)
    requires
        forall|i: int| 0 <= i < v.len() ==> seq_less(#[trigger] v[i].0, name),
    ensures
        forall|i: int| 0 <= i < filled(v).len() ==> seq_less(#[trigger] filled(v)[i].0, name),
    decreases v.len(),
{
    if v.len() > 0 {
        assert forall|i: int| 0 <= i < v.drop_first().len() implies seq_less(#[trigger] v.drop_first()[i].0, name) by {
            assert(v.drop_first()[i] == v[i + 1]);
        }
        lemma_filled_below(v.drop_first(), name);
        assert(seq_less(v[0].0, name));
        let f = filled(v.drop_first());
        if v[0].1.len() > 0 {
            assert forall|i: int| 0 <= i < filled(v).len() implies seq_less(#[trigger] filled(v)[i].0, name) by {
                if i > 0 {
                    assert(filled(v)[i] == f[i - 1]);
                } else {
                    assert(filled(v)[i] == v[0]);
                }
            }
        }
    }
}

/// Looking a section up among the sections with lines gives its lines, or
/// nothing where it has none.
pub proof fn lemma_lookup_filled(v: Seq<SectionModel>, name: Seq<char>)
    requires
        sorted(v),
    ensures
        lookup(filled(v), name) == match lookup(v, name) {
            Some(l) => if l.len() > 0 {
                Some(l)
            } else {
                None
            },
            None => None,
        },
    decreases v.len(),
{
    if v.len() > 0 {
        let u = v.drop_first();
        assert(sorted(u)) by {
            assert forall|i: int, j: int| 0 <= i < j < u.len() implies seq_less(u[i].0, u[j].0) by {
                assert(u[i] == v[i + 1] && u[j] == v[j + 1]);
            }
        }
        lemma_lookup_filled(u, name);
        if v[0].1.len() > 0 {
            assert((seq![v[0]] + filled(u))[0] == v[0]);
            assert((seq![v[0]] + filled(u)).drop_first() =~= filled(u));
        }
        if v[0].0 == name && v[0].1.len() == 0 {
            lemma_seq_less_irreflexive(name);
            assert forall|k: int| 0 <= k < u.len() implies u[k].0 != name by {
                assert(u[k] == v[k + 1]);
                assert(seq_less(v[0].0, v[k + 1].0));
            }
            lemma_lookup_none(u, name);
        }
    }
}

/// State after reading `lines` from the state `st`.
spec fn parse_from(st: (Seq<SectionModel>, Seq<char>), lines: Seq<Seq<char>>) -> (Seq<SectionModel>, Seq<char>)
    decreases lines.len(),
{
    if lines.len() == 0 {
        st
    } else {
        let (v, last) = parse_from(st, lines.drop_last());
        process_line(v, last, lines.last())
    }
}

proof fn lemma_parse_from_start(lines: Seq<Seq<char>>)
    ensures
        spec_parse(lines) == parse_from((Seq::empty(), Seq::empty()), lines),
    decreases lines.len(),
{
    if lines.len() > 0 {
        lemma_parse_from_start(lines.drop_last());
    }
}

proof fn lemma_parse_from_append(st: (Seq<SectionModel>, Seq<char>), a: Seq<Seq<char>>, b: Seq<Seq<char>>)
    ensures
        parse_from(st, a + b) == parse_from(parse_from(st, a), b),
    decreases b.len(),
{
    if b.len() == 0 {
        assert(a + b =~= a);
    } else {
        assert((a + b).drop_last() =~= a + b.drop_last());
        assert((a + b).last() == b.last());
        lemma_parse_from_append(st, a, b.drop_last());
    }
}

proof fn lemma_lines_text_append(a: Seq<Seq<char>>, b: Seq<Seq<char>>)
    ensures
        lines_text(a + b) == lines_text(a) + lines_text(b),
    decreases b.len(),
{
    if b.len() == 0 {
        assert(a + b =~= a);
        assert(lines_text(a) + lines_text(b) =~= lines_text(a));
    } else {
        assert((a + b).drop_last() =~= a + b.drop_last());
        assert((a + b).last() == b.last());
        lemma_lines_text_append(a, b.drop_last());
        assert(lines_text(a + b) =~= lines_text(a) + lines_text(b));
    }
}

/// Reading a header and the first `k` lines of a section that comes after
/// every section read so far.
proof fn lemma_parse_section(w: Seq<SectionModel>, last: Seq<char>, name: Seq<char>, lines: Seq<Seq<char>>, k: int)
    requires
        forall|i: int| 0 <= i < w.len() ==> seq_less(#[trigger] w[i].0, name),
        spec_lowercase(name) == name,
        0 <= k <= lines.len(),
        forall|j: int| 0 <= j < lines.len() ==> plain_line(#[trigger] lines[j]),
    ensures
        parse_from((w, last), seq![header_line(name)] + lines.take(k)) == if k == 0 {
            (w, name)
        } else {
            (w.push((name, lines.take(k))), name)
        },
    decreases k,
{
    let h = header_line(name);
    let t = seq![h] + lines.take(k);
    lemma_seq_less_irreflexive(name);
    assert forall|i: int| 0 <= i < w.len() implies #[trigger] w[i].0 != name by {
        assert(seq_less(w[i].0, name));
    }
    if k == 0 {
        reveal_strlit("[");
        reveal_strlit("]");
        assert(t.drop_last() =~= Seq::<Seq<char>>::empty());
        assert(h[0] == '[');
        assert(h.last() == ']');
        lemma_trim_plain(h);
        assert(h.subrange(1, h.len() - 1) =~= name);
        assert(t.last() == h);
        assert(parse_from((w, last), t.drop_last()) == (w, last));
        assert(process_line(w, last, h) == (w, name));
    } else {
        assert(t.drop_last() =~= seq![h] + lines.take(k - 1));
        assert(t.last() == lines[k - 1]);
        lemma_parse_section(w, last, name, lines, k - 1);
        let line = lines[k - 1];
        assert(plain_line(line));
        if k == 1 {
            lemma_lookup_none(w, name);
            lemma_insert_pos(w, name, w.len() as int);
            assert(Seq::<Seq<char>>::empty().push(line) =~= lines.take(1));
            assert(w.insert(w.len() as int, (name, lines.take(1))) =~= w.push((name, lines.take(1))));
        } else {
            let v = w.push((name, lines.take(k - 1)));
            assert forall|i: int| 0 <= i < w.len() implies #[trigger] v[i].0 != name by {
                assert(v[i] == w[i]);
            }
            lemma_lookup_index(v, name, w.len() as int);
            assert forall|i: int| 0 <= i < w.len() implies seq_less(#[trigger] v[i].0, name) by {
                assert(v[i] == w[i]);
            }
            lemma_insert_pos(v, name, w.len() as int);
            assert(lines.take(k - 1).push(line) =~= lines.take(k));
            assert(v.update(w.len() as int, (name, lines.take(k))) =~= w.push((name, lines.take(k))));
        }
    }
}

proof fn lemma_parse_ini_lines(v: Seq<SectionModel>)
    requires
        readable_sections(v),
    ensures
        parse_from((Seq::empty(), Seq::empty()), ini_lines(v)).0 == filled(v),
    decreases v.len(),
{
    if v.len() > 0 {
        let u = v.drop_last();
        let (name, lines) = v.last();
        lemma_readable_prefix(v);
        lemma_parse_ini_lines(u);
        let init = (Seq::<SectionModel>::empty(), Seq::<char>::empty());
        let st = parse_from(init, ini_lines(u));
        let section = seq![header_line(name)] + lines;
        assert(ini_lines(v) =~= ini_lines(u) + section);
        lemma_parse_from_append(init, ini_lines(u), section);
        assert forall|i: int| 0 <= i < u.len() implies seq_less(#[trigger] u[i].0, name) by {
            assert(u[i] == v[i]);
            assert(v[v.len() - 1].0 == name);
        }
        lemma_filled_below(u, name);
        assert(lines == v[v.len() - 1].1);
        assert forall|j: int| 0 <= j < lines.len() implies plain_line(#[trigger] lines[j]) by {
            assert(plain_line(v[v.len() - 1].1[j]));
        }
        assert(lines.take(lines.len() as int) =~= lines);
        assert(st == (filled(u), st.1));
        lemma_parse_section(filled(u), st.1, name, lines, lines.len() as int);
        assert(u.push((name, lines)) =~= v);
        lemma_filled_push(u, (name, lines));
    }
}

proof fn lemma_readable_prefix(v: Seq<SectionModel>)
    requires
        readable_sections(v),
        v.len() > 0,
    ensures
        readable_sections(v.drop_last()),
{
    let u = v.drop_last();
    assert forall|i: int, j: int| 0 <= i < u.len() && 0 <= j < u[i].1.len() implies plain_line(
        #[trigger] u[i].1[j],
    ) by {
        assert(u[i] == v[i]);
    }
    assert forall|i: int| 0 <= i < u.len() implies spec_lowercase(#[trigger] u[i].0) == u[i].0 by {
        assert(u[i] == v[i]);
    }
}

/// What an ini file writes, reading gives back: its text is that of its
/// lines, each followed by a line feed, and reading those lines gives the
/// same sections (but those without lines), where the sections are in name
/// order, each name is its own lower case form and each line is plain.
pub proof fn law_parse_reads_text(v: Seq<SectionModel>)
    requires
        readable_sections(v),
    ensures
        lines_text(ini_lines(v)) == ini_text(v),
        spec_parse(ini_lines(v)).0 == filled(v),
    decreases v.len(),
{
    lemma_parse_ini_lines(v);
    lemma_parse_from_start(ini_lines(v));
    if v.len() > 0 {
        let u = v.drop_last();
        lemma_readable_prefix(v);
        law_parse_reads_text(u);
        reveal_strlit("[");
        reveal_strlit("]");
        reveal_strlit("]\n");
        reveal_strlit("\n");
        let h = header_line(v.last().0);
        lemma_lines_text_append(ini_lines(u).push(h), v.last().1);
        assert(lines_text(ini_lines(u).push(h)) == lines_text(ini_lines(u)) + h + "\n"@) by {
            assert(ini_lines(u).push(h).drop_last() =~= ini_lines(u));
        }
        assert(lines_text(ini_lines(v)) =~= ini_text(v));
    }
}

proof fn lemma_lookup_insert_other(v: Seq<SectionModel>, pos: int, e: SectionModel, q: Seq<char>)
    requires
        0 <= pos <= v.len(),
        e.0 != q,
    ensures
        lookup(v.insert(pos, e), q) == lookup(v, q),
    decreases v.len(),
{
    let w = v.insert(pos, e);
    if pos == 0 {
        assert(w.drop_first() =~= v);
    } else {
        assert(w[0] == v[0]);
        if v[0].0 != q {
            assert(w.drop_first() =~= v.drop_first().insert(pos - 1, e));
            lemma_lookup_insert_other(v.drop_first(), pos - 1, e, q);
        }
    }
}

/// Whether `a` is below `b` in lexicographic order.
fn chars_less(a: &Vec<char>, b: &Vec<char>) -> (r: bool)
    ensures
        r == seq_less(a@, b@),
{
    let mut i: usize = 0;
    while i < a.len() && i < b.len() && a[i] == b[i]
        invariant
            i <= a@.len(),
            i <= b@.len(),
            a@.subrange(0, i as int) == b@.subrange(0, i as int),
        decreases a.len() - i,
    {
        assert(a@.subrange(0, i + 1) =~= a@.subrange(0, i as int).push(a@[i as int]));
        assert(b@.subrange(0, i + 1) =~= b@.subrange(0, i as int).push(b@[i as int]));
        i = i + 1;
    }
    proof {
        lemma_seq_less_prefix(a@, b@, i as int);
        let ra = a@.subrange(i as int, a@.len() as int);
        let rb = b@.subrange(i as int, b@.len() as int);
        if i < a.len() && i < b.len() {
            assert(ra[0] == a@[i as int]);
            assert(rb[0] == b@[i as int]);
        }
    }
    if i == a.len() {
        i < b.len()
    } else if i == b.len() {
        false
    } else {
        (a[i] as u32) < (b[i] as u32)
    }
}

/// Views of the sections of an ini file.
pub open spec fn sections_view(s: Seq<IniSection>) -> Seq<SectionModel> {
    s.map_values(|x: IniSection| section_view(x))
}

impl IniFile {
    /// Abstract sections.
    pub open spec fn model(&self) -> Seq<SectionModel> {
        sections_view(self.sections@)
    }

    /// Create instance.
    pub fn new() -> (r: Self)
        ensures
            r.model() == Seq::<SectionModel>::empty(),
    {
        IniFile { sections: Vec::new() }
    }

    /// Position of the section `name`, if present.
    fn find_section(&self, name: &str) -> (r: Option<usize>)
        ensures
            match r {
                Some(i) => i < self.sections@.len() && lookup(self.model(), name@) == Some(
                    self.model()[i as int].1,
                ) && self.model()[i as int].0 == name@,
                None => lookup(self.model(), name@) == None::<Seq<Seq<char>>>,
            },
    {
        let target = to_chars(name);
        let mut i: usize = 0;
        while i < self.sections.len()
            invariant
                target@ == name@,
                i <= self.sections@.len(),
                forall|k: int| 0 <= k < i ==> #[trigger] self.model()[k].0 != name@,
            decreases self.sections.len() - i,
        {
            let current = to_chars(self.sections[i].name.as_str());
            if crate::text::chars_eq(&current, &target) {
                proof {
                    lemma_lookup_index(self.model(), name@, i as int);
                }
                return Some(i);
            }
            i = i + 1;
        }
        proof {
            lemma_lookup_none(self.model(), name@);
        }
        None
    }

    /// Lines of the section `name`, if present.
    pub fn section(&self, name: &str) -> (r: Option<&Vec<String>>)
        ensures
            match r {
                Some(l) => lookup(self.model(), name@) == Some(lines_view(l@)),
                None => lookup(self.model(), name@) == None::<Seq<Seq<char>>>,
            },
    {
        match self.find_section(name) {
            Some(i) => Some(&self.sections[i].lines),
            None => None,
        }
    }

    /// Position where the section `name` belongs in name order.
    fn insert_position(&self, target: &Vec<char>) -> (r: usize)
        ensures
            r == insert_pos(self.model(), target@),
            r <= self.sections@.len(),
    {
        let ghost v = self.model();
        let mut i: usize = 0;
        while i < self.sections.len()
            invariant
                v == self.model(),
                i <= self.sections@.len(),
                forall|k: int| 0 <= k < i ==> seq_less(#[trigger] v[k].0, target@),
            decreases self.sections.len() - i,
        {
            let current = to_chars(self.sections[i].name.as_str());
            if !chars_less(&current, target) {
                proof {
                    lemma_insert_pos(v, target@, i as int);
                }
                return i;
            }
            i = i + 1;
        }
        proof {
            lemma_insert_pos(v, target@, i as int);
        }
        i
    }

    /// Set the lines of the section `name` (replacing an existing section).
    pub fn insert_section(&mut self, name: String, lines: Vec<String>)
        ensures
            final(self).model() == spec_insert(old(self).model(), name@, lines_view(lines@)),
    {
        let target = to_chars(name.as_str());
        let ghost v = self.model();
        let i = self.insert_position(&target);
        let same = if i < self.sections.len() {
            let current = to_chars(self.sections[i].name.as_str());
            crate::text::chars_eq(&current, &target)
        } else {
            false
        };
        let ghost item = (name@, lines_view(lines@));
        let section = IniSection { name, lines };
        assert(section_view(section) == item);
        if same {
            self.sections.set(i, section);
            assert(self.model() =~= v.update(i as int, item));
        } else {
            self.sections.insert(i, section);
            assert(self.model() =~= v.insert(i as int, item));
        }
    }

    /// Append a line to the section `name` (creating the section).
    pub fn push_line(&mut self, name: &str, line: String)
        ensures
            final(self).model() == spec_insert(
                old(self).model(),
                name@,
                match lookup(old(self).model(), name@) {
                    Some(l) => l,
                    None => Seq::empty(),
                }.push(line@),
            ),
    {
        let mut lines: Vec<String> = match self.find_section(name) {
            Some(i) => {
                assert(self.model()[i as int] == section_view(self.sections@[i as int]));
                clone_lines(&self.sections[i].lines)
            },
            None => Vec::new(),
        };
        assert(lines_view(lines@) =~= match lookup(self.model(), name@) {
            Some(l) => l,
            None => Seq::empty(),
        });
        let ghost before = lines@;
        lines.push(line);
        assert(lines_view(lines@) =~= lines_view(before).push(line@));
        self.insert_section(String::from_str(name), lines);
    }

    /// Load configuration from the lines of a file.
    pub fn parse(text: &Vec<String>) -> (r: Self)
        ensures
            r.model() == spec_parse(lines_view(text@)).0,
    {
        let ghost tv = lines_view(text@);
        let mut instance = IniFile::new();
        let mut last_section = String::new();
        let mut i: usize = 0;
        while i < text.len()
            invariant
                tv == lines_view(text@),
                i <= text@.len(),
                (instance.model(), last_section@) == spec_parse(tv.subrange(0, i as int)),
            decreases text.len() - i,
        {
            proof {
                assert(tv.subrange(0, i + 1).drop_last() =~= tv.subrange(0, i as int));
                assert(tv.subrange(0, i + 1).last() == text@[i as int]@);
            }
            let chars = to_chars(text[i].as_str());
            let (a, b) = trim_bounds(&chars);
            if a == b || chars[a] == '#' {
                // skip comments and empty lines
            } else if chars[a] == '[' && chars[b - 1] == ']' {
                assert(spec_trim(text@[i as int]@)[0] == chars@[a as int]);
                let name = from_chars(&chars, a + 1, b - 1);
                assert(name@ =~= spec_trim(text@[i as int]@).subrange(1, (b - a) - 1));
                last_section = lowercase(name.as_str());
            } else {
                let line = from_chars(&chars, a, b);
                instance.push_line(last_section.as_str(), line);
            }
            i = i + 1;
        }
        assert(tv.subrange(0, i as int) =~= tv);
        instance
    }

    /// Text of the file: sections as `[name]` followed by their lines.
    pub fn to_text(&self) -> (r: String)
        ensures
            r@ == ini_text(self.model()),
    {
        let mut r = String::new();
        let mut i: usize = 0;
        while i < self.sections.len()
            invariant
                i <= self.sections@.len(),
                r@ == ini_text(self.model().subrange(0, i as int)),
            decreases self.sections.len() - i,
        {
            let section = &self.sections[i];
            append_str(&mut r, "[");
            append_str(&mut r, section.name.as_str());
            append_str(&mut r, "]\n");
            let mut k: usize = 0;
            let ghost head = r@;
            while k < section.lines.len()
                invariant
                    k <= section.lines@.len(),
                    r@ == head + lines_text(lines_view(section.lines@).subrange(0, k as int)),
                decreases section.lines.len() - k,
            {
                append_str(&mut r, section.lines[k].as_str());
                append_str(&mut r, "\n");
                proof {
                    let lv = lines_view(section.lines@);
                    assert(lv.subrange(0, k + 1).drop_last() =~= lv.subrange(0, k as int));
                    assert(lv.subrange(0, k + 1).last() == section.lines@[k as int]@);
                }
                k = k + 1;
            }
            proof {
                let m = self.model();
                assert(lines_view(section.lines@).subrange(0, k as int) =~= lines_view(section.lines@));
                assert(m.subrange(0, i + 1).drop_last() =~= m.subrange(0, i as int));
                assert(m.subrange(0, i + 1).last() == section_view(*section));
            }
            i = i + 1;
        }
        assert(self.model().subrange(0, i as int) =~= self.model());
        r
    }

    /// Set value for specified key in the named section.
    pub fn set_keyval(&mut self, section: &str, key: &str, value: &str)
        ensures
            final(self).model() == spec_set_keyval(old(self).model(), section@, key@, value@),
    {
        let lkey = lowercase(key);
        let with_sep = concat(lkey.as_str(), " = ");
        let new_line = concat(with_sep.as_str(), value);
        let name = lowercase(section);
        let mut lines: Vec<String> = match self.find_section(name.as_str()) {
            Some(i) => {
                assert(self.model()[i as int] == section_view(self.sections@[i as int]));
                clone_lines(&self.sections[i].lines)
            },
            None => Vec::new(),
        };
        let ghost lv = lines_view(lines@);
        assert(lv =~= match lookup(self.model(), name@) {
            Some(l) => l,
            None => Seq::empty(),
        });
        assert(lv.subrange(0, lv.len() as int) =~= lv);
        let mut index: usize = 0;
        while index < lines.len()
            invariant
                lv == lines_view(lines@),
                index <= lines@.len(),
                lkey@ == spec_lowercase(key@),
                name@ == spec_lowercase(section@),
                new_line@ == lkey@ + " = "@ + value@,
                self.model() == old(self).model(),
                lv == match lookup(self.model(), name@) {
                    Some(l) => l,
                    None => Seq::empty(),
                },
                key_pos(lv, lkey@) == index + key_pos(lv.subrange(index as int, lv.len() as int), lkey@),
            decreases lines.len() - index,
        {
            let ghost rest = lv.subrange(index as int, lv.len() as int);
            assert(rest[0] == lines@[index as int]@);
            assert(rest.drop_first() =~= lv.subrange(index + 1, lv.len() as int));
            if let Some((ckey, _)) = IniFile::keyval(lines[index].as_str()) {
                if crate::text::str_eq(ckey.as_str(), lkey.as_str()) {
                    let ghost before = lines@;
                    lines.set(index, new_line);
                    assert(lines_view(lines@) =~= lv.update(index as int, new_line@));
                    self.insert_section(name, lines);
                    return;
                }
            }
            index = index + 1;
        }
        assert(lv.subrange(index as int, lv.len() as int) =~= Seq::<Seq<char>>::empty());
        let ghost before = lines@;
        lines.push(new_line);
        assert(lines_view(lines@) =~= lv.push(new_line@));
        self.insert_section(name, lines);
    }

    /// Get string value for specified key in the named section.
    pub fn get_strval(&self, section: &str, key: &str) -> (r: Option<String>)
        ensures
            match r {
                Some(v) => spec_get_strval(self.model(), section@, key@) == Some(v@),
                None => spec_get_strval(self.model(), section@, key@) == None::<Seq<char>>,
            },
    {
        let name = lowercase(section);
        if let Some(lines) = self.section(name.as_str()) {
            let lkey = lowercase(key);
            let ghost lv = lines_view(lines@);
            assert(lv.subrange(0, lv.len() as int) =~= lv);
            let mut i: usize = 0;
            while i < lines.len()
                invariant
                    lv == lines_view(lines@),
                    i <= lines@.len(),
                    lkey@ == spec_lowercase(key@),
                    lookup(self.model(), spec_lowercase(section@)) == Some(lv),
                    find_value(lv, lkey@) == find_value(lv.subrange(i as int, lv.len() as int), lkey@),
                decreases lines.len() - i,
            {
                let ghost rest = lv.subrange(i as int, lv.len() as int);
                assert(rest[0] == lines@[i as int]@);
                assert(rest.drop_first() =~= lv.subrange(i + 1, lv.len() as int));
                if let Some((ckey, val)) = IniFile::keyval(lines[i].as_str()) {
                    if crate::text::str_eq(ckey.as_str(), lkey.as_str()) {
                        assert(spec_keyval(rest[0]) == Some((ckey@, val@)));
                        assert(find_value(rest, lkey@) == Some(val@));
                        return Some(val);
                    }
                }
                i = i + 1;
            }
            assert(lv.subrange(i as int, lv.len() as int) =~= Seq::<Seq<char>>::empty());
        }
        None
    }

    /// Get numeric value for specified key in the named section.
    pub fn get_numval(&self, section: &str, key: &str) -> (r: Option<usize>)
        ensures
            r == (match spec_get_strval(self.model(), section@, key@) {
                Some(v) => match spec_parse_unsigned(v, 10, usize::MAX as int) {
                    Some(n) => Some(n as usize),
                    None => None,
                },
                None => None,
            }),
    {
        if let Some(val) = self.get_strval(section, key) {
            if let Some(n) = parse_unsigned(val.as_str(), 10, usize::MAX as u64) {
                return Some(n as usize);
            }
        }
        None
    }

    /// Get boolean value for specified key in the named section.
    pub fn get_boolval(&self, section: &str, key: &str) -> (r: Option<bool>)
        ensures
            r == (match spec_get_strval(self.model(), section@, key@) {
                Some(v) => match spec_parse_unsigned(v, 10, usize::MAX as int) {
                    Some(n) => Some(n != 0),
                    None => None,
                },
                None => None,
            }),
    {
        proof {
            if let Some(v) = spec_get_strval(self.model(), section@, key@) {
                crate::num::lemma_parse_unsigned_bounds(v, 10, usize::MAX as int);
            }
        }
        if let Some(val) = self.get_numval(section, key) {
            return Some(val != 0);
        }
        None
    }

    /// Parse and convert line to the Key/Value pair.
    pub fn keyval(line: &str) -> (r: Option<(String, String)>)
        ensures
            match r {
                Some((k, v)) => spec_keyval(line@) == Some((k@, v@)),
                None => spec_keyval(line@) == None::<(Seq<char>, Seq<char>)>,
            },
    {
        let chars = to_chars(line);
        match find_char(&chars, '=') {
            Some(i) => {
                let key_part = from_chars(&chars, 0, i);
                let value_part = from_chars(&chars, i + 1, chars.len());
                let key = lowercase(trim(key_part.as_str()).as_str());
                let value = trim(value_part.as_str());
                Some((key, value))
            },
            None => None,
        }
    }
}

/// Copy of a list of lines.
fn clone_lines(lines: &Vec<String>) -> (r: Vec<String>)
    ensures
        lines_view(r@) == lines_view(lines@),
{
    let mut r: Vec<String> = Vec::new();
    let mut i: usize = 0;
    while i < lines.len()
        invariant
            i <= lines@.len(),
            lines_view(r@) == lines_view(lines@).subrange(0, i as int),
        decreases lines.len() - i,
    {
        let item = lines[i].clone();
        let ghost before = r@;
        r.push(item);
        assert(lines_view(r@) =~= lines_view(before).push(item@));
        assert(lines_view(lines@).subrange(0, i + 1) =~= lines_view(lines@).subrange(0, i as int).push(lines@[i as int]@));
        i = i + 1;
    }
    assert(lines_view(lines@).subrange(0, i as int) =~= lines_view(lines@));
    r
}

} // verus!
