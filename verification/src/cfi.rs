//! Call-frame information: the rules by which `.debug_frame` says how to
//! recover the caller's registers at a given program counter.
//!
//! The table itself is read by `gimli`; this module holds the rules as plain
//! values and names what `gimli` finds.

use gimli::{BaseAddresses, DebugFrame, LittleEndian, UnwindContext, UnwindSection};
use vstd::prelude::*;

verus! {

/// How the canonical frame address of a frame is found.
#[derive(Clone, Copy, Debug, PartialEq, Eq, Structural)]
pub enum CfaRule {
    /// The value of `register` plus `offset`.
    RegisterAndOffset { register: u16, offset: i64 },
    /// The result of a DWARF expression.
    Expression,
}

/// How the caller's value of one register is found.
#[derive(Clone, Copy, Debug, PartialEq, Eq, Structural)]
pub enum RegisterRule {
    /// The register has no recoverable value.
    Undefined,
    /// The value is stored at the canonical frame address plus this offset.
    Offset(i64),
    /// Any other rule.
    Other,
}

/// One row of the unwind table: the rules in force at one program counter.
#[derive(Debug, PartialEq, Eq)]
pub struct UnwindRow {
    pub cfa: CfaRule,
    /// The register rules, each with the number of its register.
    pub registers: Vec<(u16, RegisterRule)>,
}

/// The mathematical content of an [`UnwindRow`].
pub struct UnwindRowView {
    pub cfa: CfaRule,
    pub registers: Seq<(u16, RegisterRule)>,
}

impl View for UnwindRow {
    type V = UnwindRowView;

    open spec fn view(&self) -> UnwindRowView {
        UnwindRowView { cfa: self.cfa, registers: self.registers@ }
    }
}

/// The view of a row that may be missing.
pub open spec fn row_view(row: Option<UnwindRow>) -> Option<UnwindRowView> {
    match row {
        Some(found) => Some(found@),
        None => None,
    }
}

/// The row that `gimli` finds for `pc` in the contents of `.debug_frame`,
/// read as little-endian with four-byte addresses and without base
/// addresses: its CFA rule and its register rules in the order in which
/// `gimli` hands them out. `None` where `gimli` finds no row.
pub uninterp spec fn unwind_row_at(debug_frame: Seq<u8>, pc: u32) -> Option<UnwindRowView>;

/// Calls `gimli::UnwindSection::unwind_info_for_address` on a `DebugFrame`
/// over `debug_frame` and converts the row that it returns: the rule of
/// `UnwindTableRow::cfa` and the rules that `UnwindTableRow::registers`
/// iterates over. Trusted: the result is what `unwind_row_at` names, that
/// is, it depends on the section's bytes and on `pc` alone; every error of
/// `gimli` becomes `None`.
#[verifier::external_body]
pub(crate) fn unwind_row(debug_frame: &[u8], pc: u32) -> (row: Option<UnwindRow>)
    ensures
        row_view(row) == unwind_row_at(debug_frame@, pc),
{
    let mut section = DebugFrame::new(debug_frame, LittleEndian);
    section.set_address_size(4);
    let bases = BaseAddresses::default();
    let mut ctx = UnwindContext::new();
    let row = section.unwind_info_for_address(&bases, &mut ctx, pc.into(), DebugFrame::cie_from_offset).ok()?;
    let cfa = match *row.cfa() {
        gimli::CfaRule::RegisterAndOffset { register, offset } => CfaRule::RegisterAndOffset { register: register.0, offset },
        gimli::CfaRule::Expression(_) => CfaRule::Expression,
    };
    let registers = row.registers().map(|(register, rule)| (register.0, match *rule {
        gimli::RegisterRule::Undefined => RegisterRule::Undefined,
        gimli::RegisterRule::Offset(offset) => RegisterRule::Offset(offset),
        _ => RegisterRule::Other,
    })).collect();
    Some(UnwindRow { cfa, registers })
}

} // verus!
