//! Text for source-attribution chains.
//!
//! A chain prints one reference per line; a callsite chain continues on the
//! next line, indented two spaces per nesting level behind a marker arrow.

use vstd::prelude::*;
use vstd::string::StringExecFns;
use vstd::string::StrSliceExecFns;
use crate::data_model::FileReference;
use crate::numeric::{dec_digits_of, digit_glyph};

verus! {

/// Two spaces per indentation step.
pub open spec fn chunk_spaces(m: int) -> Seq<char>
    decreases m,
{
    if m <= 0 {
        Seq::empty()
    } else {
        chunk_spaces(m - 1) + "  "@
    }
}

/// What precedes a reference at a nesting level: nothing at the top, else a
/// line break, the indentation and the callsite marker.
pub open spec fn spec_preamble(level: int) -> Seq<char> {
    if level > 0 {
        "\n"@ + chunk_spaces(level - 1) + "⮤ "@
    } else {
        Seq::empty()
    }
}

/// The next nesting level; the count stays put at the machine limit.
pub open spec fn spec_next_level(level: int) -> int {
    if level < usize::MAX {
        level + 1
    } else {
        level
    }
}

/// One reference: its preamble, path, line, optional column and, continued
/// on further lines, its callsite chain.
pub open spec fn spec_format_file_reference(fr: FileReference, level: int) -> Seq<char>
    decreases fr, 0nat,
{
    spec_preamble(level) + fr.file_name@ + " (line: "@ + dec_digits_of(fr.line as nat) + (
    match fr.column_number {
        Some(c) => ", column: "@ + dec_digits_of(c as nat),
        None => Seq::empty(),
    }) + ")"@ + spec_format_frs(fr.callsite@, fr.callsite@.len() as int, spec_next_level(level))
}

/// The first `n` references of a chain, one per line.
pub open spec fn spec_format_frs(frs: Seq<FileReference>, n: int, level: int) -> Seq<char>
    decreases frs, n,
{
    if n <= 0 || n > frs.len() {
        Seq::empty()
    } else if n == 1 {
        spec_format_file_reference(frs[0], level)
    } else {
        spec_format_frs(frs, n - 1, level) + "\n"@ + spec_format_file_reference(frs[n - 1], level)
    }
}

/// One decimal digit as text.
fn digit_str(d: u32) -> (r: &'static str)
    requires
        d < 10,
    ensures
        r@ == seq![digit_glyph(d as nat)],
{
    proof {
        reveal_strlit("0");
        reveal_strlit("1");
        reveal_strlit("2");
        reveal_strlit("3");
        reveal_strlit("4");
        reveal_strlit("5");
        reveal_strlit("6");
        reveal_strlit("7");
        reveal_strlit("8");
        reveal_strlit("9");
    }
    if d == 0 {
        "0"
    } else if d == 1 {
        "1"
    } else if d == 2 {
        "2"
    } else if d == 3 {
        "3"
    } else if d == 4 {
        "4"
    } else if d == 5 {
        "5"
    } else if d == 6 {
        "6"
    } else if d == 7 {
        "7"
    } else if d == 8 {
        "8"
    } else {
        "9"
    }
}

/// Appends a number in decimal.
fn push_u32_decimal(out: &mut String, n: u32)
    ensures
        final(out)@ == old(out)@ + dec_digits_of(n as nat),
    decreases n,
{
    if n < 10 {
        out.append(digit_str(n));
    } else {
        push_u32_decimal(out, n / 10);
        out.append(digit_str(n % 10));
        proof {
            assert(old(out)@ + dec_digits_of((n / 10) as nat) + seq![
                digit_glyph((n % 10) as nat),
            ] =~= old(out)@ + dec_digits_of(n as nat));
        }
    }
}

/// Renders a source-attribution chain, one reference per line, callsites
/// indented beneath their callers.
#[verifier::loop_isolation(false)]
#[verifier::rlimit(100)]
pub fn format_file_references(file_references: &[FileReference], level: usize) -> (r: String)
    ensures
        r@ == spec_format_frs(
            file_references@,
            file_references@.len() as int,
            level as int,
        ),
    decreases file_references@,
{
    let ghost frs = file_references@;
    let mut out = String::new();
    let mut i: usize = 0;
    while i < file_references.len()
        invariant
            0 <= i <= frs.len(),
            out@ == spec_format_frs(frs, i as int, level as int),
        decreases frs.len() - i,
    {
        let ghost before = out@;
        if i > 0 {
            out.append("\n");
        }
        let ghost after_sep = out@;
        if level > 0 {
            out.append("\n");
            let mut p: usize = 0;
            let ghost mid = out@;
            while p < level - 1
                invariant
                    0 <= p,
                    level > 0,
                    p <= level - 1,
                    out@ == mid + chunk_spaces(p as int),
                decreases level - 1 - p,
            {
                out.append("  ");
                p += 1;
            }
            out.append("⮤ ");
            proof {
                assert(out@ =~= after_sep + spec_preamble(level as int));
            }
        }
        let fr = &file_references[i];
        out.append(fr.file_name.as_str());
        out.append(" (line: ");
        push_u32_decimal(&mut out, fr.line);
        match fr.column_number {
            Some(c) => {
                out.append(", column: ");
                push_u32_decimal(&mut out, c);
            },
            None => {},
        }
        out.append(")");
        let next: usize = if level < usize::MAX {
            level + 1
        } else {
            level
        };
        proof {
            assert(decreases_to!(frs => frs[i as int]));
            assert(decreases_to!(frs[i as int] => frs[i as int].callsite@));
        }
        let cs = format_file_references(fr.callsite.as_slice(), next);
        out.append(cs.as_str());
        proof {
            assert(out@ =~= before + (if i > 0 {
                "\n"@
            } else {
                Seq::<char>::empty()
            }) + spec_format_file_reference(frs[i as int], level as int));
            assert(out@ =~= spec_format_frs(frs, i + 1, level as int));
        }
        i += 1;
    }
    out
}

} // verus!
