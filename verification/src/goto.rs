//! Rules of the classic "Go to" dialog: each offset field, when changed,
//! rewrites the others.
use crate::dialog::{data_text, CopyData};
use crate::num::{parse_i64, spec_digits, spec_signed_dec, to_dec, to_hex};
use crate::text::append_str;
use crate::ui::goto::typed_signed;
use crate::widget::{EditFormat, WidgetData};
use vstd::prelude::*;

verus! {

/// Dialog rule: convert offset to different type.
pub struct OffsetConverter {
    src: EditFormat,
    dst: EditFormat,
    current: u64,
}

/// Format of an offset field.
pub open spec fn offset_format(f: EditFormat) -> bool {
    f is HexSigned || f is HexUnsigned || f is DecSigned || f is DecUnsigned
}

impl OffsetConverter {
    /// Both formats are those of offset fields.
    #[verifier::type_invariant]
    spec fn formats_ok(self) -> bool {
        offset_format(self.src) && offset_format(self.dst)
    }

    /// Format of the source field.
    pub closed spec fn source(self) -> EditFormat {
        self.src
    }

    /// Format of the target field.
    pub closed spec fn target(self) -> EditFormat {
        self.dst
    }

    /// Current offset, that relative offsets count from.
    pub closed spec fn base(self) -> u64 {
        self.current
    }

    /// Create new rule.
    pub fn new(src: EditFormat, dst: EditFormat, current: u64) -> (r: Box<Self>)
        requires
            offset_format(src),
            offset_format(dst),
        ensures
            r.source() == src,
            r.target() == dst,
            r.base() == current,
    {
        Box::new(OffsetConverter { src, dst, current })
    }
}

/// Offset typed into a field of format `f` (as a 64-bit two's complement
/// number; relative ones added to the current offset).
pub open spec fn typed_offset(f: EditFormat, text: Seq<char>, current: u64) -> i64 {
    match f {
        EditFormat::HexSigned => (current as i64).wrapping_add(typed_signed(text, 16) as i64),
        EditFormat::HexUnsigned => typed_signed(text, 16) as i64,
        EditFormat::DecSigned => (current as i64).wrapping_add(typed_signed(text, 10) as i64),
        _ => typed_signed(text, 10) as i64,
    }
}

/// Magnitude of a 64-bit signed number.
pub open spec fn magnitude(n: i64) -> nat {
    if n < 0 {
        (-n) as nat
    } else {
        n as nat
    }
}

/// Offset shown in a field of format `f`: absolute ones (0 for negative
/// values), relative ones with their sign.
pub open spec fn offset_text(f: EditFormat, offset: i64, current: u64) -> Seq<char> {
    let rel = offset.wrapping_sub(current as i64);
    let abs = if offset >= 0 {
        offset as nat
    } else {
        0
    };
    match f {
        EditFormat::HexSigned => (if rel < 0 {
            "-"@
        } else {
            "+"@
        }) + spec_digits(magnitude(rel), 16),
        EditFormat::HexUnsigned => spec_digits(abs, 16),
        EditFormat::DecSigned => if rel < 0 {
            spec_signed_dec(rel as int)
        } else {
            "+"@ + spec_digits(rel as nat, 10)
        },
        _ => spec_digits(abs, 10),
    }
}

/// Number typed into a field (0 where it is not a number).
fn typed(text: &str, radix: u32) -> (r: i64)
    requires
        radix == 10 || radix == 16,
    ensures
        r == typed_signed(text@, radix as int),
{
    proof {
        crate::num::lemma_parse_i64_bounds(text@, radix as int);
    }
    match parse_i64(text, radix) {
        Some(v) => v,
        None => 0,
    }
}

/// Magnitude of a signed number.
fn magnitude_of(n: i64) -> (r: u64)
    ensures
        r == magnitude(n),
{
    if n >= 0 {
        n as u64
    } else if n == i64::MIN {
        0x8000_0000_0000_0000u64
    } else {
        (-n) as u64
    }
}

impl CopyData for OffsetConverter {
    fn copy_data(&self, data: &WidgetData) -> (r: Option<WidgetData>)
        ensures
            match data_text(*data) {
                Some(v) => r matches Some(WidgetData::Text(t)) && t@ == offset_text(
                    self.target(),
                    typed_offset(self.source(), v, self.base()),
                    self.base(),
                ),
                None => r is None,
            },
    {
        proof {
            use_type_invariant(self);
            reveal_strlit("-");
            reveal_strlit("+");
        }
        if let WidgetData::Text(value) = data {
            let src: i64 = match self.src {
                EditFormat::HexSigned => (self.current as i64).wrapping_add(typed(value.as_str(), 16)),
                EditFormat::HexUnsigned => typed(value.as_str(), 16),
                EditFormat::DecSigned => (self.current as i64).wrapping_add(typed(value.as_str(), 10)),
                _ => typed(value.as_str(), 10),
            };
            let rel = src.wrapping_sub(self.current as i64);
            let abs: u64 = if src >= 0 {
                src as u64
            } else {
                0
            };
            let mut text = String::new();
            match self.dst {
                EditFormat::HexSigned => {
                    if rel < 0 {
                        append_str(&mut text, "-");
                    } else {
                        append_str(&mut text, "+");
                    }
                    let digits = to_hex(magnitude_of(rel));
                    append_str(&mut text, digits.as_str());
                },
                EditFormat::HexUnsigned => {
                    text = to_hex(abs);
                },
                EditFormat::DecSigned => {
                    if rel >= 0 {
                        append_str(&mut text, "+");
                    }
                    let digits = crate::num::to_signed_dec(rel);
                    append_str(&mut text, digits.as_str());
                },
                _ => {
                    text = to_dec(abs);
                },
            }
            Some(WidgetData::Text(text))
        } else {
            None
        }
    }
}

} // verus!
