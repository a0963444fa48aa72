//! Search settings of the classic editor and the rules of its dialog.
use crate::dialog::{data_text, CopyData};
use crate::history::{hex_string, hex_text};
use crate::num::{all_digits, byte_hex, digit_of, digit_value, hex_digit, hex_pairs, is_hex_text, spec_hex_pairs};
use crate::text::{append_str, push_char, to_chars};
use crate::widget::WidgetData;
use vstd::prelude::*;

verus! {

/// Search properties.
pub struct Search {
    /// Sequence to search.
    pub data: Vec<u8>,
    /// Search direction.
    pub backward: bool,
}

impl Search {
    /// Text of the hex field when the dialog opens: the sequence in hex.
    pub fn initial_text(&self) -> (r: String)
        ensures
            r@ == hex_text(self.data@),
    {
        hex_string(self.data.as_slice())
    }

    /// Take the values of a closed dialog: the sequence from the hex field
    /// (an odd last digit is the high half of its byte) and the direction.
    pub fn configure_result(&mut self, hex: &str, backward: bool)
        requires
            all_digits(hex@, 16),
        ensures
            final(self).data@ == spec_hex_pairs(hex@),
            final(self).backward == backward,
    {
        self.data = hex_pairs(hex);
        self.backward = backward;
    }
}

/// Bytes of the hex field as the classic dialog reads them: each pair of
/// digits is one byte; an odd last digit is a byte of its own.
pub open spec fn field_bytes(v: Seq<char>) -> Seq<u8> {
    Seq::new(
        ((v.len() + 1) / 2) as nat,
        |i: int|
            if 2 * i + 1 < v.len() {
                (digit_value(v[2 * i]) * 16 + digit_value(v[2 * i + 1])) as u8
            } else {
                digit_value(v[2 * i]) as u8
            },
    )
}

/// The hex field reads back the bytes whose hex text it holds, a byte for
/// each pair of digits; an odd last digit is a byte of its own.
pub proof fn law_field_bytes(x: Seq<u8>, c: char)
    ensures
        field_bytes(hex_text(x)) == x,
        field_bytes(hex_text(x).push(c)) == x.push(digit_value(c) as u8),
{
    let t = hex_text(x);
    crate::history::lemma_hex_text_pairs(x);
    crate::history::lemma_hex_text_digits(x);
    assert forall|i: int| 0 <= i < x.len() implies #[trigger] field_bytes(t)[i] == x[i] by {
        assert(crate::num::spec_hex_pairs(t)[i] == x[i]);
    }
    assert(field_bytes(t) =~= x);
    let u = t.push(c);
    assert forall|i: int| 0 <= i < x.len() implies #[trigger] field_bytes(u)[i] == x[i] by {
        assert(crate::num::spec_hex_pairs(t)[i] == x[i]);
        assert(u[2 * i] == t[2 * i] && u[2 * i + 1] == t[2 * i + 1]);
    }
    assert(field_bytes(u) =~= x.push(digit_value(c) as u8));
}

/// Printable ASCII form of bytes: graphic characters as they are, others
/// as a question mark.
pub open spec fn ascii_of(bytes: Seq<u8>) -> Seq<char> {
    bytes.map_values(|b: u8| if 0x20 < b < 0x7f { b as char } else { '?' })
}

/// Hex form of a text: two digits for each character, from its low byte.
pub open spec fn chars_hex(v: Seq<char>) -> Seq<char> {
    Seq::new(
        2 * v.len(),
        |i: int|
            if i % 2 == 0 {
                hex_digit(((v[i / 2] as u32) as u8 / 16) as int)
            } else {
                hex_digit(((v[i / 2] as u32) as u8 % 16) as int)
            },
    )
}

/// Bytes of a text of hex digits, read as the classic dialog does.
pub fn get_hex(value: &str) -> (r: Vec<u8>)
    requires
        all_digits(value@, 16),
    ensures
        r@ == field_bytes(value@),
{
    let chars = to_chars(value);
    let n = chars.len();
    let m = n / 2 + n % 2;
    let mut r: Vec<u8> = Vec::new();
    let mut k: usize = 0;
    while k < m
        invariant
            chars@ == value@,
            n == value@.len(),
            m == (n + 1) / 2,
            all_digits(value@, 16),
            k <= m,
            r@ == field_bytes(value@).take(k as int),
        decreases m - k,
    {
        let i = 2 * k;
        let hi = digit_of(chars[i], 16).unwrap();
        if n - i >= 2 {
            let lo = digit_of(chars[i + 1], 16).unwrap();
            r.push((hi * 16 + lo) as u8);
        } else {
            r.push(hi as u8);
        }
        assert(r@ =~= field_bytes(value@).take(k + 1));
        k = k + 1;
    }
    assert(field_bytes(value@).take(k as int) =~= field_bytes(value@));
    r
}

/// Printable ASCII form of bytes.
pub fn ascii_string(bytes: &Vec<u8>) -> (r: String)
    ensures
        r@ == ascii_of(bytes@),
{
    let mut r = String::new();
    let mut i: usize = 0;
    while i < bytes.len()
        invariant
            i <= bytes@.len(),
            r@ == ascii_of(bytes@.take(i as int)),
        decreases bytes@.len() - i,
    {
        let b = bytes[i];
        let c = if 0x20 < b && b < 0x7f {
            b as char
        } else {
            '?'
        };
        push_char(&mut r, c);
        assert(ascii_of(bytes@.take(i + 1)) =~= ascii_of(bytes@.take(i as int)).push(c));
        i = i + 1;
    }
    assert(bytes@.take(i as int) =~= bytes@);
    r
}

/// Dialog rule: set ASCII text from the hex field.
pub struct HexToAscii;

impl CopyData for HexToAscii {
    /// A text that is not all hex digits gives nothing.
    fn copy_data(&self, data: &WidgetData) -> (r: Option<WidgetData>)
        ensures
            match data_text(*data) {
                Some(v) => if all_digits(v, 16) {
                    r matches Some(WidgetData::Text(t)) && t@ == ascii_of(field_bytes(v))
                } else {
                    r is None
                },
                None => r matches Some(WidgetData::Text(t)) && t@ == Seq::<char>::empty(),
            },
    {
        match data {
            WidgetData::Text(value) => {
                if !is_hex_text(value.as_str()) {
                    return None;
                }
                let bytes = get_hex(value.as_str());
                Some(WidgetData::Text(ascii_string(&bytes)))
            },
            _ => {
                let bytes: Vec<u8> = Vec::new();
                let r = ascii_string(&bytes);
                assert(r@ =~= Seq::<char>::empty());
                Some(WidgetData::Text(r))
            },
        }
    }
}

/// Dialog rule: set hex text from the ASCII field.
pub struct AsciiToHex;

impl CopyData for AsciiToHex {
    fn copy_data(&self, data: &WidgetData) -> (r: Option<WidgetData>)
        ensures
            match data_text(*data) {
                Some(v) => r matches Some(WidgetData::Text(t)) && t@ == chars_hex(v),
                None => r is None,
            },
    {
        match data {
            WidgetData::Text(value) => {
                let chars = to_chars(value.as_str());
                let mut text = String::new();
                let mut i: usize = 0;
                while i < chars.len()
                    invariant
                        chars@ == value@,
                        i <= chars@.len(),
                        text@ == chars_hex(chars@.take(i as int)),
                    decreases chars@.len() - i,
                {
                    let b = (chars[i] as u32) as u8;
                    let pair = byte_hex(b);
                    append_str(&mut text, pair.as_str());
                    assert(text@ =~= chars_hex(chars@.take(i + 1)));
                    i = i + 1;
                }
                assert(chars@.take(i as int) =~= chars@);
                Some(WidgetData::Text(text))
            },
            _ => None,
        }
    }
}

} // verus!
