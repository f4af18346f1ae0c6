use dk_run::elf::ElfSymbol;
use dk_run::symbols::{range_names_from, RangeNames};
use dk_run::unwind::{Finish, Next, Output, Phase, Reply, Request, Step, UnwindError, Unwinder};

/// A `.debug_frame` section with one CIE and five FDEs.
///
/// The CIE: version 1, code alignment 2, data alignment -4, return address
/// in r14, CFA = r13 + 0.
///
/// The first FDE covers 0x2000_0150 to 0x2000_0170: after two bytes the CFA
/// is r13 + 8, r14 lies at CFA - 4 and r7 at CFA - 8. The second covers
/// 0x2000_0200 to 0x2000_0210 and keeps r4. The third covers 0x2000_0300 to
/// 0x2000_0310 and gives the CFA by an expression. The fourth covers
/// 0x2000_0400 to 0x2000_0410, has r14 at CFA - 4 and leaves r5 undefined.
/// The fifth covers 0x2000_0500 to 0x2000_0510 and has its CFA at r7 + 16.
fn debug_frame() -> Vec<u8> {
    let mut bytes = Vec::new();
    bytes.extend_from_slice(&[
        0x0c, 0x00, 0x00, 0x00, 0xff, 0xff, 0xff, 0xff, 0x01, 0x00, 0x02, 0x7c, 0x0e, 0x0c, 0x0d,
        0x00,
    ]);
    bytes.extend_from_slice(&[
        0x14, 0x00, 0x00, 0x00, 0x00, 0x00, 0x00, 0x00, 0x50, 0x01, 0x00, 0x20, 0x20, 0x00, 0x00,
        0x00, 0x41, 0x0e, 0x08, 0x8e, 0x01, 0x87, 0x02, 0x00,
    ]);
    bytes.extend_from_slice(&[
        0x10, 0x00, 0x00, 0x00, 0x00, 0x00, 0x00, 0x00, 0x00, 0x02, 0x00, 0x20, 0x10, 0x00, 0x00,
        0x00, 0x08, 0x04, 0x00, 0x00,
    ]);
    bytes.extend_from_slice(&[
        0x10, 0x00, 0x00, 0x00, 0x00, 0x00, 0x00, 0x00, 0x00, 0x03, 0x00, 0x20, 0x10, 0x00, 0x00,
        0x00, 0x0f, 0x01, 0x96, 0x00,
    ]);
    bytes.extend_from_slice(&[
        0x10, 0x00, 0x00, 0x00, 0x00, 0x00, 0x00, 0x00, 0x00, 0x04, 0x00, 0x20, 0x10, 0x00, 0x00,
        0x00, 0x8e, 0x01, 0x07, 0x05,
    ]);
    bytes.extend_from_slice(&[
        0x10, 0x00, 0x00, 0x00, 0x00, 0x00, 0x00, 0x00, 0x00, 0x05, 0x00, 0x20, 0x10, 0x00, 0x00,
        0x00, 0x0c, 0x07, 0x10, 0x00,
    ]);
    bytes
}

fn names() -> RangeNames {
    let symbols =
        vec![ElfSymbol { name: Some("f".to_string()), value: 0x2000_0151, size: 0x20, shndx: 1 }];
    range_names_from(&symbols, Some(1)).0
}

const SP: u32 = 0x2003_ff00;

/// The first step of an unwinder at `pc` with the return address
/// 0x2000_0501 and the stack pointer `SP`.
fn first_step(debug_frame: &[u8], pc: u32) -> (Unwinder, Step) {
    let mut unwinder = Unwinder::new(pc, 0x2000_0501, SP);
    let step = unwinder.step(debug_frame, &names(), Reply::Nothing);
    (unwinder, step)
}

fn failed(failure: UnwindError) -> Next {
    Next::Stop(Finish::Failed(failure))
}

#[test]
fn row_at_function_entry_has_no_register_rules() {
    for pc in [0x2000_0150, 0x2000_0151] {
        let (unwinder, step) = first_step(&debug_frame(), pc);
        assert_eq!(
            step,
            Step {
                output: vec![Output::Header, Output::Frame { index: 0, pc, name: Some(0) }],
                next: Next::Continue,
            }
        );
        assert_eq!(unwinder.pc(), 0x2000_0500);
    }
}

#[test]
fn row_after_prologue_restores_from_the_stack() {
    for pc in [0x2000_0152, 0x2000_016f] {
        let (mut unwinder, step) = first_step(&debug_frame(), pc);
        // r14 lies at CFA - 4, and the CFA is the stack pointer plus 8
        assert_eq!(step.next, Next::Read(Request::Word(SP + 8 - 4)));
        let step = unwinder.step(&debug_frame(), &names(), Reply::Value(0x2000_0501));
        // r7 lies at CFA - 8
        assert_eq!(step.next, Next::Read(Request::Word(SP + 8 - 8)));
        let step = unwinder.step(&debug_frame(), &names(), Reply::Value(0x2003_ff40));
        assert_eq!(step.next, Next::Continue);
        assert_eq!(unwinder.pc(), 0x2000_0500);
        // the CFA of the caller rests on r7, which was restored: r7 + 16
        let step = unwinder.step(&debug_frame(), &names(), Reply::Nothing);
        assert_eq!(
            step,
            Step {
                output: vec![Output::Frame { index: 1, pc: 0x2000_0500, name: None }],
                next: Next::Continue,
            }
        );
        assert_eq!(unwinder.phase(), Phase::Frame);
    }
}

#[test]
fn base_register_of_the_cfa_is_asked_for() {
    let (mut unwinder, step) = first_step(&debug_frame(), 0x2000_0504);
    assert_eq!(step.next, Next::Read(Request::Register(7)));
    assert_eq!(unwinder.phase(), Phase::Base { register: 7, offset: 16 });
    let step = unwinder.step(&debug_frame(), &names(), Reply::Value(0x2003_ff40));
    assert_eq!(step.next, Next::Continue);
}

#[test]
fn no_row_outside_of_every_function() {
    for pc in [0x2000_014f, 0x2000_0170, 0, 0xffff_ffff] {
        let (_, step) = first_step(&debug_frame(), pc);
        assert_eq!(step.next, failed(UnwindError::NoUnwindInfo));
    }
}

#[test]
fn no_row_in_an_empty_section() {
    let (_, step) = first_step(&[], 0x2000_0150);
    assert_eq!(step.next, failed(UnwindError::NoUnwindInfo));
}

#[test]
fn no_row_in_a_truncated_section() {
    let bytes = debug_frame();
    for len in [16, 30] {
        let (_, step) = first_step(&bytes[..len], 0x2000_0150);
        assert_eq!(step.next, failed(UnwindError::NoUnwindInfo));
    }
}

#[test]
fn rule_other_than_offset_is_told_apart() {
    let (_, step) = first_step(&debug_frame(), 0x2000_0204);
    assert_eq!(step.next, failed(UnwindError::UnsupportedCfiRule));
}

#[test]
fn cfa_by_expression_is_told_apart() {
    let (_, step) = first_step(&debug_frame(), 0x2000_0300);
    assert_eq!(step.next, failed(UnwindError::UnsupportedCfiRule));
}

#[test]
fn undefined_register_is_told_apart() {
    let (mut unwinder, step) = first_step(&debug_frame(), 0x2000_040f);
    assert_eq!(step.next, Next::Read(Request::Word(SP - 4)));
    let step = unwinder.step(&debug_frame(), &names(), Reply::Value(0x2000_0501));
    assert_eq!(step.next, failed(UnwindError::UnsupportedCfiRule));
}

/// A sequence of bytes that looks arbitrary and is the same on every run.
fn scrambled(seed: u32, len: usize) -> Vec<u8> {
    let mut state = seed;
    let mut bytes = Vec::with_capacity(len);
    for _ in 0..len {
        state = state.wrapping_mul(1_664_525).wrapping_add(1_013_904_223);
        bytes.push((state >> 24) as u8);
    }
    bytes
}

#[test]
fn lookup_in_arbitrary_bytes_returns() {
    for seed in 0..500u32 {
        let bytes = scrambled(seed, 8 + (seed as usize % 96));
        for pc in [0, 0x2000_0150, 0xffff_ffff] {
            assert_eq!(first_step(&bytes, pc).1, first_step(&bytes, pc).1);
        }
    }
}

#[test]
fn lookup_in_a_damaged_section_returns() {
    let intact = debug_frame();
    for at in 0..intact.len() {
        for value in [0x00, 0x01, 0x7f, 0x80, 0xff] {
            let mut bytes = debug_frame();
            bytes[at] = value;
            for pc in [0x2000_0150, 0x2000_0160, 0x2000_0204, 0x2000_0300, 0x2000_0400] {
                assert_eq!(first_step(&bytes, pc).1, first_step(&bytes, pc).1);
            }
        }
    }
}

#[test]
fn lookup_depends_on_the_bytes_and_the_address_alone() {
    let first = debug_frame();
    let mut second = vec![0u8; 3];
    second.extend_from_slice(&first);
    // the same bytes at another place in memory
    for pc in [0x2000_0160, 0x2000_0300, 0x2000_0504] {
        assert_eq!(first_step(&second[3..], pc).1, first_step(&first, pc).1);
    }
}
