//! The text of the backtrace and of the error messages.

use crate::image::{ImageError, Loadable};
use crate::symbols::{RangeNames, SymbolRangeView};
use crate::unwind::{Output, UnwindError};
use vstd::prelude::*;
use vstd::string::StringExecFns;

verus! {

/// The character for one digit below sixteen: `0`-`9`, then `a`-`f`.
pub open spec fn digit_char(value: int) -> char {
    if value < 10 {
        ('0' as int + value) as char
    } else {
        ('a' as int + value - 10) as char
    }
}

/// `value` in decimal digits, without leading zeros.
pub open spec fn decimal(value: nat) -> Seq<char>
    decreases value,
{
    if value < 10 {
        seq![digit_char(value as int)]
    } else {
        decimal(value / 10).push(digit_char((value % 10) as int))
    }
}

/// The lowest `digits` hexadecimal digits of `value`, in lower case.
pub open spec fn hex(value: nat, digits: nat) -> Seq<char>
    decreases digits,
{
    if digits == 0 {
        Seq::empty()
    } else {
        hex(value / 16, (digits - 1) as nat).push(digit_char((value % 16) as int))
    }
}

/// `0x` and the eight hexadecimal digits of `value`.
pub open spec fn address(value: u32) -> Seq<char> {
    seq!['0', 'x'] + hex(value as nat, 8)
}

/// `text` with spaces before it up to `width` characters.
pub open spec fn right_aligned(text: Seq<char>, width: nat) -> Seq<char> {
    if text.len() >= width {
        text
    } else {
        Seq::new((width - text.len()) as nat, |i: int| ' ') + text
    }
}

/// The line of a frame: its number in a column of four, its program
/// counter, and its name.
pub open spec fn frame_line(index: u64, pc: u32, name: Seq<char>) -> Seq<char> {
    right_aligned(decimal(index as nat), 4) + seq![':', ' '] + address(pc) + seq![' ', '-', ' ']
        + name
}

/// The name that a frame is printed with: that of the range, where one was
/// found.
pub open spec fn label(names: Seq<SymbolRangeView>, name: Option<usize>) -> Seq<char> {
    match name {
        Some(index) => if index < names.len() {
            names[index as int].name
        } else {
            "<unknown>"@
        },
        None => "<unknown>"@,
    }
}

/// The text of one line of the backtrace.
pub open spec fn rendered(output: Output, names: Seq<SymbolRangeView>) -> Seq<char> {
    match output {
        Output::Header => "stack backtrace:"@,
        Output::Frame { index, pc, name } => frame_line(index, pc, label(names, name)),
        Output::ExceptionEntry => "      <exception entry>"@,
        Output::Corrupted => "error: the stack appears to be corrupted beyond this point"@,
    }
}

/// The name of a loaded section.
pub open spec fn section_name(kind: Loadable) -> Seq<char> {
    match kind {
        Loadable::VectorTable => ".vector_table"@,
        Loadable::Text => ".text"@,
        Loadable::Rodata => ".rodata"@,
        Loadable::Data => ".data"@,
    }
}

/// The message for a fault of the file.
pub open spec fn image_error_text(fault: ImageError) -> Seq<char> {
    match fault {
        ImageError::UnalignedSection(kind) => "section `"@ + section_name(kind)
            + "` is not 4-byte aligned"@,
        ImageError::AddressOutOfRange => "out of range integral type conversion attempted"@,
        ImageError::SectionOutOfFile => "section contents lie beyond the end of the ELF"@,
        ImageError::TruncatedVectorTable => "`.vector_table` section is too short"@,
        ImageError::MissingDataPhysAddr => "couldn't extract `.data` physical address from the ELF"@,
        ImageError::MissingVectorTable => "`.vector_table` section is missing"@,
        ImageError::MissingTracingAddress => "RTT control block not found"@,
        ImageError::MissingDebugFrame => "`.debug_frame` section not found"@,
        ImageError::MissingSymbolTable => "`.symtab` section not found"@,
    }
}

/// The message for a failure of the unwinder.
pub open spec fn unwind_error_text(failure: UnwindError) -> Seq<char> {
    match failure {
        UnwindError::NoUnwindInfo => "no unwind information for the program counter"@,
        UnwindError::UnsupportedCfiRule => "unsupported call frame rule"@,
        UnwindError::ThumbBitMissing { lr } => "bug? LR (0x"@ + hex(lr as nat, 8)
            + ") didn't have the Thumb bit set"@,
    }
}

fn digit(value: u8) -> (c: char)
    requires
        value < 16,
    ensures
        c == digit_char(value as int),
{
    if value < 10 {
        (0x30u8 + value) as char
    } else {
        (0x61u8 - 10 + value) as char
    }
}

fn push_all(text: &mut String, chars: &Vec<char>)
    ensures
        final(text)@ == old(text)@ + chars@,
{
    let mut i: usize = 0;
    while i < chars.len()
        invariant
            i <= chars.len(),
            text@ == old(text)@ + chars@.take(i as int),
        decreases chars.len() - i,
    {
        text.push(chars[i]);
        assert(chars@.take(i + 1) =~= chars@.take(i as int).push(chars@[i as int]));
        i += 1;
    }
    assert(chars@.take(i as int) =~= chars@);
}

fn decimal_digits(value: u64) -> (digits: Vec<char>)
    ensures
        digits@ == decimal(value as nat),
{
    let mut digits: Vec<char> = Vec::new();
    let mut rest: u64 = value;
    while rest >= 10
        invariant
            decimal(value as nat) == decimal(rest as nat) + digits@,
        decreases rest,
    {
        digits.insert(0, digit((rest % 10) as u8));
        rest = rest / 10;
    }
    digits.insert(0, digit(rest as u8));
    digits
}

fn hex_digits(value: u32) -> (digits: Vec<char>)
    ensures
        digits@ == hex(value as nat, 8),
{
    let mut digits: Vec<char> = Vec::new();
    let mut rest: u32 = value;
    let mut count: usize = 0;
    while count < 8
        invariant
            count <= 8,
            hex(value as nat, 8) == hex(rest as nat, (8 - count) as nat) + digits@,
        decreases 8 - count,
    {
        digits.insert(0, digit((rest % 16) as u8));
        rest = rest / 16;
        count += 1;
    }
    digits
}

/// Renders the line of a frame.
pub fn frame_text(index: u64, pc: u32, name: &str) -> (text: String)
    ensures
        text@ == frame_line(index, pc, name@),
{
    let number = decimal_digits(index);
    let mut text = String::new();
    let mut width: usize = number.len();
    while width < 4
        invariant
            number@ == decimal(index as nat),
            number@.len() <= width <= 4 || width == number@.len(),
            text@ == Seq::new((width - number@.len()) as nat, |i: int| ' '),
        decreases 4 - width,
    {
        text.push(' ');
        width += 1;
    }
    push_all(&mut text, &number);
    assert(text@ == right_aligned(decimal(index as nat), 4));
    text.push(':');
    text.push(' ');
    text.push('0');
    text.push('x');
    push_all(&mut text, &hex_digits(pc));
    text.push(' ');
    text.push('-');
    text.push(' ');
    text.append(name);
    text
}

/// The message for a fault of the file.
pub fn image_error_message(fault: ImageError) -> (text: String)
    ensures
        text@ == image_error_text(fault),
{
    match fault {
        ImageError::UnalignedSection(kind) => {
            let mut text = String::from_str("section `");
            text.append(
                match kind {
                    Loadable::VectorTable => ".vector_table",
                    Loadable::Text => ".text",
                    Loadable::Rodata => ".rodata",
                    Loadable::Data => ".data",
                },
            );
            text.append("` is not 4-byte aligned");
            text
        },
        ImageError::AddressOutOfRange => String::from_str(
            "out of range integral type conversion attempted",
        ),
        ImageError::SectionOutOfFile => String::from_str(
            "section contents lie beyond the end of the ELF",
        ),
        ImageError::TruncatedVectorTable => String::from_str("`.vector_table` section is too short"),
        ImageError::MissingDataPhysAddr => String::from_str(
            "couldn't extract `.data` physical address from the ELF",
        ),
        ImageError::MissingVectorTable => String::from_str("`.vector_table` section is missing"),
        ImageError::MissingTracingAddress => String::from_str("RTT control block not found"),
        ImageError::MissingDebugFrame => String::from_str("`.debug_frame` section not found"),
        ImageError::MissingSymbolTable => String::from_str("`.symtab` section not found"),
    }
}

/// The message for a failure of the unwinder.
pub fn unwind_error_message(failure: UnwindError) -> (text: String)
    ensures
        text@ == unwind_error_text(failure),
{
    match failure {
        UnwindError::NoUnwindInfo => String::from_str(
            "no unwind information for the program counter",
        ),
        UnwindError::UnsupportedCfiRule => String::from_str("unsupported call frame rule"),
        UnwindError::ThumbBitMissing { lr } => {
            let mut text = String::from_str("bug? LR (0x");
            push_all(&mut text, &hex_digits(lr));
            text.append(") didn't have the Thumb bit set");
            text
        },
    }
}

/// Renders one line of the backtrace; `names` is the table that the
/// unwinder searched.
pub fn render(output: &Output, names: &RangeNames) -> (text: String)
    ensures
        text@ == rendered(*output, names@),
{
    match *output {
        Output::Header => String::from_str("stack backtrace:"),
        Output::Frame { index, pc, name } => {
            let found = match name {
                Some(at) => at < names.len(),
                None => false,
            };
            if found {
                frame_text(index, pc, names.range(name.unwrap()).name.as_str())
            } else {
                frame_text(index, pc, "<unknown>")
            }
        },
        Output::ExceptionEntry => String::from_str("      <exception entry>"),
        Output::Corrupted => String::from_str(
            "error: the stack appears to be corrupted beyond this point",
        ),
    }
}

} // verus!
