use std::collections::HashMap;

use dk_run::cfi::{CfaRule, RegisterRule, UnwindRow};
use dk_run::elf::ElfSymbol;
use dk_run::render::render;
use dk_run::symbols::{range_names_from, RangeNames};
use dk_run::unwind::{
    Finish, Next, Output, Phase, Reply, Request, Stacked, Step, UnwindError, Unwinder,
};

/// The CIE of the tests: version 1, code alignment 2, data alignment -4,
/// return address in r14, CFA = r13 + 0.
fn cie() -> Vec<u8> {
    vec![
        0x0c, 0x00, 0x00, 0x00, 0xff, 0xff, 0xff, 0xff, 0x01, 0x00, 0x02, 0x7c, 0x0e, 0x0c, 0x0d,
        0x00,
    ]
}

/// An FDE of the CIE at offset 0, padded with no-operations.
fn fde(start: u32, len: u32, instructions: &[u8]) -> Vec<u8> {
    let mut body = Vec::new();
    body.extend_from_slice(&0u32.to_le_bytes());
    body.extend_from_slice(&start.to_le_bytes());
    body.extend_from_slice(&len.to_le_bytes());
    body.extend_from_slice(instructions);
    while body.len() % 4 != 0 {
        body.push(0);
    }
    let mut bytes = (body.len() as u32).to_le_bytes().to_vec();
    bytes.extend_from_slice(&body);
    bytes
}

/// After the first two bytes of the function: CFA = r13 + 8, r14 at CFA - 4,
/// r7 at CFA - 8.
const PROLOGUE: [u8; 7] = [0x41, 0x0e, 0x08, 0x8e, 0x01, 0x87, 0x02];

/// `main` at 0x2000_0100, `app::inner` at 0x2000_0150, `HardFault` at
/// 0x2000_0200 without any instructions.
fn debug_frame() -> Vec<u8> {
    let mut bytes = cie();
    bytes.extend_from_slice(&fde(0x2000_0100, 0x40, &PROLOGUE));
    bytes.extend_from_slice(&fde(0x2000_0150, 0x20, &PROLOGUE));
    bytes.extend_from_slice(&fde(0x2000_0200, 0x10, &[]));
    bytes
}

fn names() -> RangeNames {
    let symbols = vec![
        ElfSymbol {
            name: Some("_ZN3app5inner17hd881d91ced85c2b0E".to_string()),
            value: 0x2000_0151,
            size: 0x20,
            shndx: 2,
        },
        ElfSymbol { name: Some("main".to_string()), value: 0x2000_0101, size: 0x40, shndx: 2 },
        ElfSymbol { name: Some("HardFault".to_string()), value: 0x2000_0201, size: 0x10, shndx: 2 },
    ];
    range_names_from(&symbols, Some(2)).0
}

struct Target {
    registers: HashMap<u16, u32>,
    memory: HashMap<u32, u32>,
}

impl Target {
    fn new(sp: u32, lr: u32) -> Target {
        let mut registers = HashMap::new();
        registers.insert(13, sp);
        registers.insert(14, lr);
        Target { registers, memory: HashMap::new() }
    }

    fn word(&self, address: u32) -> u32 {
        *self.memory.get(&address).unwrap_or(&0)
    }

    fn answer(&self, request: Request) -> Reply {
        match request {
            Request::Register(register) => Reply::Value(self.registers[&register]),
            Request::Word(address) => Reply::Value(self.word(address)),
            Request::Stacked(address) => {
                let mut words = [0u32; 8];
                for i in 0..8u32 {
                    words[i as usize] = self.word(address + 4 * i);
                }
                Reply::Stacked(Stacked::from_words(&words))
            }
        }
    }
}

struct Backtrace {
    lines: Vec<String>,
    requests: Vec<Request>,
    finish: Finish,
}

fn backtrace(target: &Target, pc: u32) -> Backtrace {
    let debug_frame = debug_frame();
    let names = names();
    let mut unwinder = Unwinder::new(pc, target.registers[&14], target.registers[&13]);
    let mut lines = Vec::new();
    let mut requests = Vec::new();
    let mut reply = Reply::Nothing;
    for _ in 0..100 {
        let step = unwinder.step(&debug_frame, &names, reply);
        for output in &step.output {
            lines.push(render(output, &names));
        }
        match step.next {
            Next::Read(request) => {
                requests.push(request);
                reply = target.answer(request);
            }
            Next::Continue => reply = Reply::Nothing,
            Next::Stop(finish) => return Backtrace { lines, requests, finish },
        }
    }
    panic!("the unwinder did not stop");
}

fn row(register: u16, offset: i64, registers: Vec<(u16, RegisterRule)>) -> Option<UnwindRow> {
    Some(UnwindRow { cfa: CfaRule::RegisterAndOffset { register, offset }, registers })
}

#[test]
fn normal_termination() {
    let mut target = Target::new(0x2003_ff00, 0x2000_0121);
    // the frame of `main`: r7 and the return address
    target.memory.insert(0x2003_ff00, 0x2003_ff08);
    target.memory.insert(0x2003_ff04, 0xffff_ffff);
    let trace = backtrace(&target, 0x2000_0150);
    assert_eq!(
        trace.lines,
        vec![
            "stack backtrace:",
            "   0: 0x20000150 - app::inner",
            "   1: 0x20000120 - main",
        ]
    );
    assert_eq!(trace.finish, Finish::EndOfStack);
    assert_eq!(trace.requests, vec![Request::Word(0x2003_ff04), Request::Word(0x2003_ff00)]);
}

#[test]
fn nested_frames_are_restored_from_the_stack() {
    let mut target = Target::new(0x2003_fef8, 0x2000_0199);
    // halted after the prologue of `app::inner`
    target.memory.insert(0x2003_fef8, 0x2003_ff00);
    target.memory.insert(0x2003_fefc, 0x2000_0121);
    target.memory.insert(0x2003_ff00, 0x2003_ff08);
    target.memory.insert(0x2003_ff04, 0xffff_ffff);
    let trace = backtrace(&target, 0x2000_0156);
    assert_eq!(
        trace.lines,
        vec![
            "stack backtrace:",
            "   0: 0x20000156 - app::inner",
            "   1: 0x20000120 - main",
        ]
    );
    assert_eq!(trace.finish, Finish::EndOfStack);
    assert_eq!(
        trace.requests,
        vec![
            Request::Word(0x2003_fefc),
            Request::Word(0x2003_fef8),
            Request::Word(0x2003_ff04),
            Request::Word(0x2003_ff00),
        ]
    );
}

#[test]
fn exception_boundary() {
    let mut target = Target::new(0x2003_ff00, 0xffff_fffd);
    // the stacked registers: r0-r3, r12, lr, pc, xpsr
    for i in 0..5 {
        target.memory.insert(0x2003_ff00 + 4 * i, 0x1000 + i);
    }
    target.memory.insert(0x2003_ff14, 0x2000_0199);
    target.memory.insert(0x2003_ff18, 0x2000_0160);
    target.memory.insert(0x2003_ff1c, 0x0100_0000);
    // the frame of `app::inner`, above the stacked registers
    target.memory.insert(0x2003_ff20, 0x2003_ff28);
    target.memory.insert(0x2003_ff24, 0x2000_0121);
    // the frame of `main`
    target.memory.insert(0x2003_ff28, 0x2003_ff30);
    target.memory.insert(0x2003_ff2c, 0xffff_ffff);
    let trace = backtrace(&target, 0x2000_0204);
    assert_eq!(
        trace.lines,
        vec![
            "stack backtrace:",
            "   0: 0x20000204 - HardFault",
            "      <exception entry>",
            "   1: 0x20000160 - app::inner",
            "   2: 0x20000120 - main",
        ]
    );
    assert_eq!(trace.finish, Finish::EndOfStack);
    assert_eq!(
        trace.requests,
        vec![
            Request::Stacked(0x2003_ff00),
            // the stack pointer has gone up by 32
            Request::Word(0x2003_ff24),
            Request::Word(0x2003_ff20),
            Request::Word(0x2003_ff2c),
            Request::Word(0x2003_ff28),
        ]
    );
}

#[test]
fn stack_corruption() {
    // the return address is the program counter itself
    let target = Target::new(0x2003_ff00, 0x2000_0150);
    let trace = backtrace(&target, 0x2000_0150);
    assert_eq!(
        trace.lines,
        vec![
            "stack backtrace:",
            "   0: 0x20000150 - app::inner",
            "error: the stack appears to be corrupted beyond this point",
        ]
    );
    assert_eq!(trace.finish, Finish::Corrupted);
    assert!(trace.requests.is_empty());
}

#[test]
fn program_counter_outside_of_every_function() {
    let target = Target::new(0x2003_ff00, 0x2000_0121);
    let trace = backtrace(&target, 0x0800_0000);
    assert_eq!(trace.lines, vec!["stack backtrace:", "   0: 0x08000000 - <unknown>"]);
    assert_eq!(trace.finish, Finish::Failed(UnwindError::NoUnwindInfo));
}

#[test]
fn return_address_without_thumb_bit() {
    let target = Target::new(0x2003_ff00, 0x2000_0120);
    let trace = backtrace(&target, 0x2000_0150);
    assert_eq!(trace.lines, vec!["stack backtrace:", "   0: 0x20000150 - app::inner"]);
    assert_eq!(trace.finish, Finish::Failed(UnwindError::ThumbBitMissing { lr: 0x2000_0120 }));
}

#[test]
fn link_register_at_the_end_mark_stops_at_once() {
    let mut unwinder = Unwinder::new(0x2000_0150, 0xffff_ffff, 0x2003_ff00);
    let step = unwinder.step_with(row(13, 0, vec![]), Some(3), Reply::Nothing);
    assert_eq!(
        step,
        Step {
            output: vec![Output::Header, Output::Frame { index: 0, pc: 0x2000_0150, name: Some(3) }],
            next: Next::Stop(Finish::EndOfStack),
        }
    );
    assert_eq!(unwinder.phase(), Phase::Done(Finish::EndOfStack));
    // and stays stopped
    let again = unwinder.step_with(row(13, 0, vec![]), None, Reply::Value(1));
    assert_eq!(again, Step { output: vec![], next: Next::Stop(Finish::EndOfStack) });
}

#[test]
fn restored_end_mark_stops_after_the_row() {
    let mut unwinder = Unwinder::new(0x2000_0150, 0x2000_0121, 0x2003_ff00);
    let rules = vec![(14, RegisterRule::Offset(-4)), (7, RegisterRule::Offset(-8))];
    let step = unwinder.step_with(row(13, 8, rules), None, Reply::Nothing);
    assert_eq!(step.next, Next::Read(Request::Word(0x2003_ff04)));
    let step = unwinder.step_with(None, None, Reply::Value(0xffff_ffff));
    // the row is applied to its end
    assert_eq!(step, Step { output: vec![], next: Next::Read(Request::Word(0x2003_ff00)) });
    let step = unwinder.step_with(None, None, Reply::Value(0));
    assert_eq!(step, Step { output: vec![], next: Next::Stop(Finish::EndOfStack) });
}

#[test]
fn least_exception_return_is_an_exception_return() {
    let mut unwinder = Unwinder::new(0x2000_0150, 0xffff_fff0, 0x2003_ff00);
    let step = unwinder.step_with(row(13, 0, vec![]), None, Reply::Nothing);
    assert_eq!(
        step,
        Step {
            output: vec![
                Output::Header,
                Output::Frame { index: 0, pc: 0x2000_0150, name: None },
                Output::ExceptionEntry,
            ],
            next: Next::Read(Request::Stacked(0x2003_ff00)),
        }
    );
    assert_eq!(unwinder.phase(), Phase::Exception);
}

#[test]
fn value_below_the_exception_returns_is_a_return_address() {
    let mut unwinder = Unwinder::new(0x2000_0150, 0xffff_ffef, 0x2003_ff00);
    let step = unwinder.step_with(row(13, 0, vec![]), None, Reply::Nothing);
    assert_eq!(
        step,
        Step {
            output: vec![Output::Header, Output::Frame { index: 0, pc: 0x2000_0150, name: None }],
            next: Next::Continue,
        }
    );
    assert_eq!(unwinder.phase(), Phase::Frame);
    assert_eq!(unwinder.pc(), 0xffff_ffee);
}

#[test]
fn stacked_registers_give_the_next_frame() {
    let mut unwinder = Unwinder::new(0x2000_0204, 0xffff_fff9, 0x2003_ff00);
    let step = unwinder.step_with(row(13, 0, vec![]), None, Reply::Nothing);
    assert_eq!(step.next, Next::Read(Request::Stacked(0x2003_ff00)));
    let stacked = Stacked::from_words(&[1, 2, 3, 4, 5, 0x2000_0121, 0x2000_0160, 0x0100_0000]);
    let step = unwinder.step_with(None, None, Reply::Stacked(stacked));
    assert_eq!(step, Step { output: vec![], next: Next::Continue });
    assert_eq!(unwinder.pc(), 0x2000_0160);
    // the next frame is the second, its CFA lies above the stacked registers,
    // and the stacked link register is the one that counts
    let rules = vec![(7, RegisterRule::Offset(-8))];
    let step = unwinder.step_with(row(13, 8, rules), Some(0), Reply::Nothing);
    assert_eq!(
        step,
        Step {
            output: vec![Output::Frame { index: 1, pc: 0x2000_0160, name: Some(0) }],
            next: Next::Read(Request::Word(0x2003_ff20)),
        }
    );
    let step = unwinder.step_with(None, None, Reply::Value(0));
    assert_eq!(step.next, Next::Continue);
    assert_eq!(unwinder.pc(), 0x2000_0120);
}

#[test]
fn stacked_words_are_taken_in_memory_order() {
    let stacked = Stacked::from_words(&[10, 11, 12, 13, 14, 15, 16, 17]);
    assert_eq!(
        stacked,
        Stacked { r0: 10, r1: 11, r2: 12, r3: 13, r12: 14, lr: 15, pc: 16, xpsr: 17 }
    );
}

#[test]
fn cfa_by_expression_is_unsupported() {
    let mut unwinder = Unwinder::new(0x2000_0150, 0x2000_0121, 0x2003_ff00);
    let row = Some(UnwindRow { cfa: CfaRule::Expression, registers: vec![] });
    let step = unwinder.step_with(row, None, Reply::Nothing);
    assert_eq!(step.next, Next::Stop(Finish::Failed(UnwindError::UnsupportedCfiRule)));
    assert_eq!(step.output.len(), 2);
}

#[test]
fn register_rule_other_than_offset_is_unsupported() {
    for rule in [RegisterRule::Other, RegisterRule::Undefined] {
        let mut unwinder = Unwinder::new(0x2000_0150, 0x2000_0121, 0x2003_ff00);
        let rules = vec![(14, RegisterRule::Offset(-4)), (4, rule)];
        let step = unwinder.step_with(row(13, 8, rules), None, Reply::Nothing);
        assert_eq!(step.next, Next::Read(Request::Word(0x2003_ff04)));
        let step = unwinder.step_with(None, None, Reply::Value(0x2000_0121));
        assert_eq!(
            step,
            Step {
                output: vec![],
                next: Next::Stop(Finish::Failed(UnwindError::UnsupportedCfiRule)),
            }
        );
    }
}

#[test]
fn missing_row_is_an_error() {
    let mut unwinder = Unwinder::new(0x2000_0150, 0x2000_0121, 0x2003_ff00);
    let step = unwinder.step_with(None, None, Reply::Nothing);
    assert_eq!(
        step,
        Step {
            output: vec![Output::Header, Output::Frame { index: 0, pc: 0x2000_0150, name: None }],
            next: Next::Stop(Finish::Failed(UnwindError::NoUnwindInfo)),
        }
    );
}

#[test]
fn base_register_is_fetched_once() {
    let mut unwinder = Unwinder::new(0x2000_0150, 0x2000_0121, 0x2003_ff00);
    let step = unwinder.step_with(row(7, 8, vec![]), None, Reply::Nothing);
    assert_eq!(step.next, Next::Read(Request::Register(7)));
    assert_eq!(unwinder.phase(), Phase::Base { register: 7, offset: 8 });
    let step = unwinder.step_with(None, None, Reply::Value(0x2003_ff10));
    assert_eq!(step, Step { output: vec![], next: Next::Continue });
    assert_eq!(unwinder.pc(), 0x2000_0120);
    // the second time the cache holds r7, and the CFA is the stack pointer
    let rules = vec![(14, RegisterRule::Offset(0))];
    let step = unwinder.step_with(row(7, 16, rules), None, Reply::Nothing);
    assert_eq!(step.next, Next::Read(Request::Word(0x2003_ff20)));
}

#[test]
fn reply_that_answers_nothing_is_passed_over() {
    let mut unwinder = Unwinder::new(0x2000_0150, 0x2000_0121, 0x2003_ff00);
    unwinder.step_with(row(7, 8, vec![(14, RegisterRule::Offset(-4))]), None, Reply::Nothing);
    let stacked = Stacked::from_words(&[0; 8]);
    for reply in [Reply::Nothing, Reply::Stacked(stacked)] {
        let step = unwinder.step_with(None, None, reply);
        assert_eq!(step, Step { output: vec![], next: Next::Read(Request::Register(7)) });
    }
    let step = unwinder.step_with(None, None, Reply::Value(0x2003_ff10));
    assert_eq!(step.next, Next::Read(Request::Word(0x2003_ff14)));
    for reply in [Reply::Nothing, Reply::Stacked(stacked)] {
        let step = unwinder.step_with(None, None, reply);
        assert_eq!(step, Step { output: vec![], next: Next::Read(Request::Word(0x2003_ff14)) });
    }
    let mut unwinder = Unwinder::new(0x2000_0204, 0xffff_fffd, 0x2003_ff00);
    unwinder.step_with(row(13, 0, vec![]), None, Reply::Nothing);
    for reply in [Reply::Nothing, Reply::Value(7)] {
        let step = unwinder.step_with(None, None, reply);
        assert_eq!(step, Step { output: vec![], next: Next::Read(Request::Stacked(0x2003_ff00)) });
    }
}

#[test]
fn cfa_is_computed_in_32_bits() {
    let mut unwinder = Unwinder::new(0x2000_0150, 0x2000_0121, 0xffff_fff8);
    let rules = vec![(14, RegisterRule::Offset(-4))];
    let step = unwinder.step_with(row(13, 16, rules), None, Reply::Nothing);
    // 0xffff_fff8 + 16 - 4 wraps around
    assert_eq!(step.next, Next::Read(Request::Word(4)));

    let mut unwinder = Unwinder::new(0x2000_0150, 0x2000_0121, 0x10);
    let rules = vec![(14, RegisterRule::Offset(-0x20))];
    let step = unwinder.step_with(row(13, -8, rules), None, Reply::Nothing);
    assert_eq!(step.next, Next::Read(Request::Word(0xffff_ffe8)));

    let mut unwinder = Unwinder::new(0x2000_0150, 0x2000_0121, 0x10);
    let rules = vec![(14, RegisterRule::Offset(i64::MIN))];
    let step = unwinder.step_with(row(13, i64::MAX, rules), None, Reply::Nothing);
    assert_eq!(step.next, Next::Read(Request::Word(0x0f)));
}

#[test]
fn unchanged_cfa_with_another_return_address_is_no_corruption() {
    let mut unwinder = Unwinder::new(0x2000_0150, 0x2000_0151, 0x2003_ff00);
    let step = unwinder.step_with(row(13, 0, vec![]), None, Reply::Nothing);
    assert_eq!(step.next, Next::Continue);
    assert_eq!(unwinder.pc(), 0x2000_0150);
}

#[test]
fn changed_cfa_with_the_same_return_address_is_no_corruption() {
    let mut unwinder = Unwinder::new(0x2000_0150, 0x2000_0150, 0x2003_ff00);
    let step = unwinder.step_with(row(13, 8, vec![]), None, Reply::Nothing);
    assert_eq!(
        step.next,
        Next::Stop(Finish::Failed(UnwindError::ThumbBitMissing { lr: 0x2000_0150 }))
    );
}

#[test]
fn stack_pointer_does_not_fall_in_a_normal_unwind() {
    let mut target = Target::new(0x2003_fef8, 0x2000_0199);
    target.memory.insert(0x2003_fefc, 0x2000_0121);
    target.memory.insert(0x2003_ff04, 0xffff_ffff);
    let trace = backtrace(&target, 0x2000_0156);
    let mut floor = 0x2003_fef8;
    for request in trace.requests {
        if let Request::Word(address) = request {
            // the words lie in the frame just below the CFA
            assert!(address + 8 >= floor);
            floor = floor.max(address);
        }
    }
    assert_eq!(floor, 0x2003_ff04);
}

#[test]
fn same_target_gives_same_backtrace() {
    let mut target = Target::new(0x2003_ff00, 0x2000_0121);
    target.memory.insert(0x2003_ff04, 0xffff_ffff);
    let first = backtrace(&target, 0x2000_0150);
    let second = backtrace(&target, 0x2000_0150);
    assert_eq!(first.lines, second.lines);
    assert_eq!(first.requests, second.requests);
    assert_eq!(first.finish, second.finish);
}
