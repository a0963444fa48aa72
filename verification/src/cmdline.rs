//! Command line arguments.
use crate::num::{parse_u64, spec_parse_unsigned, spec_digits};
use crate::text::{concat, lowercase, spec_lowercase, str_eq, to_chars};
use vstd::prelude::*;
use vstd::string::StringExecFns;

verus! {

/// Command line arguments.
pub struct CmdLineArgs {
    /// Initial cursor offset.
    pub offset: Option<u64>,
    /// Flag to print version info.
    pub version: bool,
    /// Flag to print help.
    pub help: bool,
    /// List of files to open.
    pub files: Vec<String>,
}

/// Flags gathered while reading options.
pub struct ArgsState {
    pub offset: Option<u64>,
    pub version: bool,
    pub help: bool,
}

/// Views of a list of strings.
pub open spec fn views(args: Seq<String>) -> Seq<Seq<char>> {
    args.map_values(|s: String| s@)
}

/// Start of the digits and radix of an offset argument: `0x` prefix or a
/// hex letter (after lower casing) selects hex, else decimal.
pub open spec fn offset_radix(text: Seq<char>) -> (int, int) {
    if text.len() >= 2 && text[0] == '0' && text[1] == 'x' {
        (2, 16)
    } else if exists|i: int|
        0 <= i < spec_lowercase(text).len() && 'a' <= #[trigger] spec_lowercase(text)[i] <= 'f' {
        (0, 16)
    } else {
        (0, 10)
    }
}

/// Value of an offset argument.
pub open spec fn spec_parse_offset(text: Seq<char>) -> Option<int> {
    let (start, radix) = offset_radix(text);
    spec_parse_unsigned(text.subrange(start, text.len() as int), radix, u64::MAX as int)
}

/// An offset written in decimal, or in hex after `0x`, reads back as the
/// number.
pub proof fn law_offset_reads_back(n: u64)
    ensures
        spec_parse_offset(spec_digits(n as nat, 10)) == Some(n as int),
        spec_parse_offset("0x"@ + spec_digits(n as nat, 16)) == Some(n as int),
{
    reveal_strlit("0x");
    let d = spec_digits(n as nat, 10);
    crate::num::lemma_digits_roundtrip(n as nat, 10);
    crate::num::lemma_parse_digits(n as nat, 10, u64::MAX as int);
    crate::num::lemma_parse_digits(n as nat, 16, u64::MAX as int);
    assert forall|i: int| 0 <= i < d.len() implies '0' <= #[trigger] d[i] <= '9' by {
        assert(0 <= crate::num::digit_value(d[i]) < 10);
    }
    assert(crate::text::is_ascii(d));
    let l = spec_lowercase(d);
    assert forall|i: int| 0 <= i < l.len() implies !('a' <= #[trigger] l[i] <= 'f') by {
        assert('0' <= d[i] <= '9');
    }
    if d.len() >= 2 {
        assert(d[1] != 'x');
    }
    assert(d.subrange(0, d.len() as int) =~= d);
    let h = "0x"@ + spec_digits(n as nat, 16);
    assert(h.subrange(2, h.len() as int) =~= spec_digits(n as nat, 16));
}

/// Result of reading the options from position `i` on: the flags and the
/// position of the first file name, or the error message.
pub open spec fn spec_parse_from(args: Seq<Seq<char>>, i: int, st: ArgsState) -> Result<(ArgsState, int), Seq<char>>
    decreases args.len() - i,
{
    if i < 0 || i >= args.len() {
        Ok((st, args.len() as int))
    } else {
        let arg = args[i];
        if !(arg.len() > 0 && arg[0] == '-') {
            Ok((st, i))
        } else if arg == "-o"@ || arg == "--offset"@ {
            if i + 1 < args.len() {
                let text = args[i + 1];
                match spec_parse_offset(text) {
                    Some(v) => spec_parse_from(
                        args,
                        i + 2,
                        ArgsState { offset: Some(v as u64), version: st.version, help: st.help },
                    ),
                    None => Err("Invalid offset value: "@ + text),
                }
            } else {
                Err("Offset not specified"@)
            }
        } else if arg == "-v"@ || arg == "--version"@ {
            spec_parse_from(
                args,
                i + 1,
                ArgsState { offset: st.offset, version: true, help: st.help },
            )
        } else if arg == "-h"@ || arg == "--help"@ {
            spec_parse_from(
                args,
                i + 1,
                ArgsState { offset: st.offset, version: st.version, help: true },
            )
        } else if arg == "--"@ {
            Ok((st, i + 1))
        } else {
            Err("Invalid argument: "@ + arg)
        }
    }
}

/// Parse the value of the offset option.
fn parse_offset(text: &String) -> (r: Option<u64>)
    ensures
        r == (match spec_parse_offset(text@) {
            Some(v) => Some(v as u64),
            None => None,
        }),
{
    let chars = to_chars(text.as_str());
    let lower = to_chars(lowercase(text.as_str()).as_str());
    let mut has_hex_letter = false;
    let mut i: usize = 0;
    while i < lower.len()
        invariant
            lower@ == spec_lowercase(text@),
            i <= lower@.len(),
            has_hex_letter == exists|k: int| 0 <= k < i && 'a' <= #[trigger] lower@[k] <= 'f',
        decreases lower.len() - i,
    {
        if 'a' <= lower[i] && lower[i] <= 'f' {
            has_hex_letter = true;
        }
        i = i + 1;
    }
    let (start, radix): (usize, u32) = if chars.len() >= 2 && chars[0] == '0' && chars[1] == 'x' {
        (2, 16)
    } else if has_hex_letter {
        (0, 16)
    } else {
        (0, 10)
    };
    let digits = crate::text::from_chars(&chars, start, chars.len());
    parse_u64(digits.as_str(), radix)
}

impl CmdLineArgs {
    /// Parse command line arguments.
    ///
    /// # Arguments
    ///
    /// * `args` - command line arguments without self file name
    pub fn parse(args: Vec<String>) -> (r: Result<Self, String>)
        ensures
            ({
                let start = ArgsState { offset: None, version: false, help: false };
                match spec_parse_from(views(args@), 0, start) {
                    Ok((st, first)) => r matches Ok(a) && a.offset == st.offset && a.version
                        == st.version && a.help == st.help && views(a.files@) == views(
                        args@,
                    ).subrange(first, args@.len() as int),
                    Err(msg) => r matches Err(e) && e@ == msg,
                }
            }),
    {
        let ghost va = views(args@);
        let mut offset: Option<u64> = None;
        let mut version = false;
        let mut help = false;
        let mut i: usize = 0;
        let mut last_index = args.len();
        while i < args.len()
            invariant_except_break
                va == views(args@),
                i <= args@.len(),
                last_index == args@.len(),
                spec_parse_from(va, 0, ArgsState { offset: None, version: false, help: false })
                    == spec_parse_from(va, i as int, ArgsState { offset, version, help }),
            ensures
                va == views(args@),
                last_index <= args@.len(),
                spec_parse_from(va, 0, ArgsState { offset: None, version: false, help: false })
                    == Ok::<(ArgsState, int), Seq<char>>((ArgsState { offset, version, help }, last_index as int)),
            decreases args.len() - i,
        {
            let ghost st = ArgsState { offset, version, help };
            let arg = &args[i];
            assert(va[i as int] == arg@);
            let chars = to_chars(arg.as_str());
            if !(chars.len() > 0 && chars[0] == '-') {
                last_index = i;
                break;
            }
            if str_eq(arg.as_str(), "-o") || str_eq(arg.as_str(), "--offset") {
                if i + 1 < args.len() {
                    let text = &args[i + 1];
                    assert(va[i + 1] == text@);
                    match parse_offset(text) {
                        Some(value) => {
                            offset = Some(value);
                            i = i + 2;
                        },
                        None => {
                            return Err(concat("Invalid offset value: ", text.as_str()));
                        },
                    }
                } else {
                    return Err(String::from_str("Offset not specified"));
                }
            } else if str_eq(arg.as_str(), "-v") || str_eq(arg.as_str(), "--version") {
                version = true;
                i = i + 1;
            } else if str_eq(arg.as_str(), "-h") || str_eq(arg.as_str(), "--help") {
                help = true;
                i = i + 1;
            } else if str_eq(arg.as_str(), "--") {
                last_index = i + 1;
                break;
            } else {
                return Err(concat("Invalid argument: ", arg.as_str()));
            }
        }
        let mut files: Vec<String> = Vec::new();
        let mut k = last_index;
        while k < args.len()
            invariant
                va == views(args@),
                last_index <= k <= args@.len(),
                views(files@) == va.subrange(last_index as int, k as int),
            decreases args.len() - k,
        {
            let item = args[k].clone();
            assert(va[k as int] == item@);
            let ghost before = files@;
            files.push(item);
            assert(files@ == before.push(item));
            assert(views(files@) =~= views(before).push(item@));
            assert(va.subrange(last_index as int, k + 1) =~= va.subrange(last_index as int, k as int).push(va[k as int]));
            k = k + 1;
        }
        Ok(CmdLineArgs { offset, version, help, files })
    }
}

} // verus!
