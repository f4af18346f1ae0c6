//! The unwinder: it walks the call stack of the halted target, frame by
//! frame, by the rules of the call-frame information.
//!
//! The unwinder never touches the target. It is a state machine: each
//! [`Unwinder::step`] takes the answer to what the step before asked for,
//! and says what to print and what to read next. Whoever holds the probe
//! runs the loop.

use crate::cfi::{
    row_view, unwind_row, unwind_row_at, CfaRule, RegisterRule, UnwindRow, UnwindRowView,
};
use crate::registers::{RegisterCache, LR, LR_END, SP};
use crate::symbols::{index_of, RangeNames};
use vstd::prelude::*;

verus! {

/// The least value of the link register that marks a return from an
/// exception.
pub const EXC_RETURN: u32 = 0xFFFF_FFF0;

/// The size in bytes of the registers that the core stacks on exception
/// entry, floating-point registers not among them.
pub const STACKED_BYTES: u32 = 32;

/// The registers that the core stacks on exception entry, in the order in
/// which they lie in memory.
#[derive(Clone, Copy, Debug, PartialEq, Eq, Structural)]
pub struct Stacked {
    pub r0: u32,
    pub r1: u32,
    pub r2: u32,
    pub r3: u32,
    pub r12: u32,
    pub lr: u32,
    pub pc: u32,
    pub xpsr: u32,
}

impl Stacked {
    /// The stacked registers that eight words read from the stack pointer
    /// upwards hold.
    pub fn from_words(words: &[u32; 8]) -> (stacked: Stacked)
        ensures
            stacked == (Stacked {
                r0: words[0],
                r1: words[1],
                r2: words[2],
                r3: words[3],
                r12: words[4],
                lr: words[5],
                pc: words[6],
                xpsr: words[7],
            }),
    {
        Stacked {
            r0: words[0],
            r1: words[1],
            r2: words[2],
            r3: words[3],
            r12: words[4],
            lr: words[5],
            pc: words[6],
            xpsr: words[7],
        }
    }
}

/// Why unwinding fails.
#[derive(Clone, Copy, Debug, PartialEq, Eq, Structural)]
pub enum UnwindError {
    /// The call-frame information has no row for the program counter.
    NoUnwindInfo,
    /// The row holds a rule that is not supported: a CFA given by an
    /// expression, or a register rule other than an offset from the CFA.
    UnsupportedCfiRule,
    /// The link register holds a return address without the Thumb bit.
    ThumbBitMissing { lr: u32 },
}

/// How unwinding ends.
#[derive(Clone, Copy, Debug, PartialEq, Eq, Structural)]
pub enum Finish {
    /// The outermost frame was reached.
    EndOfStack,
    /// A frame returns to itself: the stack is corrupted from here on.
    Corrupted,
    /// Unwinding failed.
    Failed(UnwindError),
}

/// What the unwinder asks the target for.
#[derive(Clone, Copy, Debug, PartialEq, Eq, Structural)]
pub enum Request {
    /// The value of the core register with this number.
    Register(u16),
    /// The word at this address.
    Word(u32),
    /// The stacked registers: eight words from this address on.
    Stacked(u32),
}

/// The answer to a [`Request`].
#[derive(Clone, Copy, Debug, PartialEq, Eq, Structural)]
pub enum Reply {
    /// No answer: nothing was asked for.
    Nothing,
    /// The value of the register or of the word.
    Value(u32),
    /// The stacked registers.
    Stacked(Stacked),
}

/// What is to be done after a step.
#[derive(Clone, Copy, Debug, PartialEq, Eq, Structural)]
pub enum Next {
    /// Read from the target, and hand the answer to the next step.
    Read(Request),
    /// Take the next step; nothing is asked for.
    Continue,
    /// Unwinding is over.
    Stop(Finish),
}

/// One line of the backtrace.
#[derive(Clone, Copy, Debug, PartialEq, Eq, Structural)]
pub enum Output {
    /// The line above the first frame.
    Header,
    /// A frame: its number, its program counter, and the index of the range
    /// that names it, if one was found.
    Frame { index: u64, pc: u32, name: Option<usize> },
    /// The mark between a frame and the frame that an exception interrupted.
    ExceptionEntry,
    /// The notice that the stack is corrupted beyond the last frame.
    Corrupted,
}

/// Where the unwinder stands.
#[derive(Clone, Copy, Debug, PartialEq, Eq, Structural)]
pub enum Phase {
    /// Before the first frame.
    Start,
    /// Before a frame other than the first.
    Frame,
    /// Waiting for the register on which the frame's CFA rests.
    Base { register: u16, offset: i64 },
    /// Waiting for the word at `address`, which the register rule at `next`
    /// restores.
    Restore { cfa_changed: bool, next: usize, address: u32 },
    /// Waiting for the stacked registers.
    Exception,
    /// Unwinding is over.
    Done(Finish),
}

/// What a step gives back.
#[derive(Debug, PartialEq, Eq)]
pub struct Step {
    /// The lines to print, in order.
    pub output: Vec<Output>,
    pub next: Next,
}

/// The unwinder's state.
#[derive(Debug)]
pub struct Unwinder {
    cache: RegisterCache,
    pc: u32,
    frame: u64,
    phase: Phase,
    rules: Vec<(u16, RegisterRule)>,
}

/// The mathematical content of an [`Unwinder`].
pub struct UnwinderView {
    /// The register values reconstructed so far.
    pub cache: Map<u16, u32>,
    /// The program counter of the current frame.
    pub pc: u32,
    /// The number of the current frame.
    pub frame: u64,
    pub phase: Phase,
    /// The register rules of the current frame's row.
    pub rules: Seq<(u16, RegisterRule)>,
}

impl View for Unwinder {
    type V = UnwinderView;

    closed spec fn view(&self) -> UnwinderView {
        UnwinderView {
            cache: self.cache@,
            pc: self.pc,
            frame: self.frame,
            phase: self.phase,
            rules: self.rules@,
        }
    }
}

/// A state and what the step that led to it gave back.
pub struct Stepped {
    pub state: UnwinderView,
    pub output: Seq<Output>,
    pub next: Next,
}

/// What holds of every state: the cache holds the stack pointer and the link
/// register, the rules can be counted, and a word is awaited only for one of
/// the rules.
pub open spec fn wf(state: UnwinderView) -> bool {
    &&& state.cache.contains_key(SP)
    &&& state.cache.contains_key(LR)
    &&& state.rules.len() <= usize::MAX
    &&& state.phase matches Phase::Restore { next, .. } ==> next < state.rules.len()
}

/// `value` brought into 32 bits: what is left of it modulo 2^32.
pub open spec fn wrap32(value: int) -> u32 {
    (value % 0x1_0000_0000) as u32
}

/// The number of the frame after frame `index`. The count stops at the
/// greatest number.
pub open spec fn frame_after(index: u64) -> u64 {
    if index < u64::MAX {
        (index + 1) as u64
    } else {
        index
    }
}

/// The end of unwinding.
pub open spec fn stop(state: UnwinderView, finish: Finish, output: Seq<Output>) -> Stepped {
    Stepped {
        state: UnwinderView { phase: Phase::Done(finish), ..state },
        output,
        next: Next::Stop(finish),
    }
}

/// The end of a frame, once its row is applied: unwinding stops where the
/// link register holds the end mark, and where the frame returns to itself
/// with its CFA unchanged; else the next frame is the one that an exception
/// interrupted, where the link register marks that, or the one that the link
/// register returns to.
pub open spec fn finish_frame(state: UnwinderView, cfa_changed: bool, output: Seq<Output>) -> Stepped {
    let lr = state.cache[LR];
    if lr == LR_END {
        stop(state, Finish::EndOfStack, output)
    } else if !cfa_changed && lr == state.pc {
        stop(state, Finish::Corrupted, output.push(Output::Corrupted))
    } else if lr >= EXC_RETURN {
        Stepped {
            state: UnwinderView { phase: Phase::Exception, ..state },
            output: output.push(Output::ExceptionEntry),
            next: Next::Read(Request::Stacked(state.cache[SP])),
        }
    } else if lr & 1 == 0 {
        stop(state, Finish::Failed(UnwindError::ThumbBitMissing { lr }), output)
    } else {
        Stepped {
            state: UnwinderView {
                pc: lr & !1u32,
                frame: frame_after(state.frame),
                phase: Phase::Frame,
                ..state
            },
            output,
            next: Next::Continue,
        }
    }
}

/// The register rules from `next` on: the first is carried out if it
/// restores from the stack, at the stack pointer plus its offset in 32 bits,
/// which takes a word from the target; any other rule ends unwinding. After
/// the last rule the frame ends.
pub open spec fn restore_from(
    state: UnwinderView,
    cfa_changed: bool,
    next: int,
    output: Seq<Output>,
) -> Stepped {
    if next < state.rules.len() {
        match state.rules[next].1 {
            RegisterRule::Offset(offset) => {
                let address = wrap32(state.cache[SP] + offset);
                Stepped {
                    state: UnwinderView {
                        phase: Phase::Restore { cfa_changed, next: next as usize, address },
                        ..state
                    },
                    output,
                    next: Next::Read(Request::Word(address)),
                }
            },
            _ => stop(state, Finish::Failed(UnwindError::UnsupportedCfiRule), output),
        }
    } else {
        finish_frame(state, cfa_changed, output)
    }
}

/// The CFA rule: the CFA is `base` plus `offset` in 32 bits and becomes the
/// stack pointer; then the register rules follow.
pub open spec fn apply_cfa(state: UnwinderView, base: u32, offset: i64, output: Seq<Output>) -> Stepped {
    let cfa = wrap32(base + offset);
    restore_from(
        UnwinderView { cache: state.cache.insert(SP, cfa), ..state },
        state.cache[SP] != cfa,
        0,
        output,
    )
}

/// The start of a frame: its line is printed, and its row is taken up. The
/// register on which the CFA rests is read from the target where the cache
/// does not hold it.
pub open spec fn begin_frame(
    state: UnwinderView,
    row: Option<UnwindRowView>,
    name: Option<usize>,
    output: Seq<Output>,
) -> Stepped {
    let output = output.push(Output::Frame { index: state.frame, pc: state.pc, name });
    match row {
        None => stop(state, Finish::Failed(UnwindError::NoUnwindInfo), output),
        Some(row) => match row.cfa {
            CfaRule::Expression => stop(
                state,
                Finish::Failed(UnwindError::UnsupportedCfiRule),
                output,
            ),
            CfaRule::RegisterAndOffset { register, offset } => {
                let state = UnwinderView { rules: row.registers, ..state };
                if state.cache.contains_key(register) {
                    apply_cfa(state, state.cache[register], offset, output)
                } else {
                    Stepped {
                        state: UnwinderView { phase: Phase::Base { register, offset }, ..state },
                        output,
                        next: Next::Read(Request::Register(register)),
                    }
                }
            },
        },
    }
}

/// One step of the unwinder. `row` is the row of the current program
/// counter and `name` the index of the range that names it; both count at
/// the start of a frame only. A reply that does not answer what was asked
/// for leaves the state as it is, and the request is made again.
pub open spec fn step_of(
    state: UnwinderView,
    row: Option<UnwindRowView>,
    name: Option<usize>,
    reply: Reply,
) -> Stepped {
    match state.phase {
        Phase::Start => begin_frame(state, row, name, seq![Output::Header]),
        Phase::Frame => begin_frame(state, row, name, Seq::empty()),
        Phase::Base { register, offset } => match reply {
            Reply::Value(value) => apply_cfa(
                UnwinderView { cache: state.cache.insert(register, value), ..state },
                value,
                offset,
                Seq::empty(),
            ),
            _ => Stepped {
                state,
                output: Seq::empty(),
                next: Next::Read(Request::Register(register)),
            },
        },
        Phase::Restore { cfa_changed, next, address } => match reply {
            Reply::Value(word) => restore_from(
                UnwinderView {
                    cache: state.cache.insert(state.rules[next as int].0, word),
                    ..state
                },
                cfa_changed,
                next + 1,
                Seq::empty(),
            ),
            _ => Stepped {
                state,
                output: Seq::empty(),
                next: Next::Read(Request::Word(address)),
            },
        },
        Phase::Exception => match reply {
            Reply::Stacked(stacked) => Stepped {
                state: UnwinderView {
                    cache: state.cache.insert(LR, stacked.lr).insert(
                        SP,
                        wrap32(state.cache[SP] + STACKED_BYTES),
                    ),
                    pc: stacked.pc,
                    frame: frame_after(state.frame),
                    phase: Phase::Frame,
                    ..state
                },
                output: Seq::empty(),
                next: Next::Continue,
            },
            _ => Stepped {
                state,
                output: Seq::empty(),
                next: Next::Read(Request::Stacked(state.cache[SP])),
            },
        },
        Phase::Done(finish) => Stepped { state, output: Seq::empty(), next: Next::Stop(finish) },
    }
}

/// The index that the search of the table gives, as a machine index.
pub open spec fn name_index(found: Option<int>) -> Option<usize> {
    match found {
        Some(index) => Some(index as usize),
        None => None,
    }
}

/// Whether a row is looked up in this phase.
pub open spec fn starts_frame(phase: Phase) -> bool {
    phase is Start || phase is Frame
}

fn counted_on(index: u64) -> (next: u64)
    ensures
        next == frame_after(index),
{
    if index < u64::MAX {
        index + 1
    } else {
        index
    }
}

fn wrapped_sum(base: u32, offset: i64) -> (sum: u32)
    ensures
        sum == wrap32(base + offset),
{
    let biased: i128 = base as i128 + offset as i128 + 0x1_0000_0000_0000_0000;
    (biased % 0x1_0000_0000) as u32
}

impl Unwinder {
    /// The unwinder at the innermost frame: `pc`, `lr` and `sp` are the
    /// values of the program counter, the link register and the stack
    /// pointer of the halted core.
    pub fn new(pc: u32, lr: u32, sp: u32) -> (unwinder: Unwinder)
        ensures
            wf(unwinder@),
            unwinder@ == (UnwinderView {
                cache: Map::<u16, u32>::empty().insert(LR, lr).insert(SP, sp),
                pc,
                frame: 0,
                phase: Phase::Start,
                rules: Seq::empty(),
            }),
    {
        Unwinder {
            cache: RegisterCache::new(lr, sp),
            pc,
            frame: 0,
            phase: Phase::Start,
            rules: Vec::new(),
        }
    }

    /// The program counter of the current frame.
    pub fn pc(&self) -> (pc: u32)
        ensures
            pc == self@.pc,
    {
        self.pc
    }

    /// Where the unwinder stands.
    pub fn phase(&self) -> (phase: Phase)
        ensures
            phase == self@.phase,
    {
        self.phase
    }

    /// Whether the state is one that a step can start from. Every state
    /// that `new` and the steps give is.
    pub fn is_well_formed(&self) -> (well_formed: bool)
        ensures
            well_formed == wf(self@),
    {
        assert(self.rules.len() == self.rules@.len());
        let awaited = match self.phase {
            Phase::Restore { next, .. } => next < self.rules.len(),
            _ => true,
        };
        self.cache.get(SP).is_some() && self.cache.get(LR).is_some() && awaited
    }

    /// The value of a register that the cache holds.
    fn held(&self, register: u16) -> (value: u32)
        requires
            self@.cache.contains_key(register),
        ensures
            value == self@.cache[register],
    {
        self.cache.get(register).unwrap()
    }

    fn stop(&mut self, finish: Finish, output: Vec<Output>) -> (step: Step)
        ensures
            (Stepped { state: final(self)@, output: step.output@, next: step.next }) == stop(
                old(self)@,
                finish,
                output@,
            ),
    {
        self.phase = Phase::Done(finish);
        Step { output, next: Next::Stop(finish) }
    }

    fn finish_frame(&mut self, cfa_changed: bool, output: Vec<Output>) -> (step: Step)
        requires
            wf(old(self)@),
        ensures
            (Stepped { state: final(self)@, output: step.output@, next: step.next })
                == finish_frame(old(self)@, cfa_changed, output@),
    {
        let mut output = output;
        let lr = self.held(LR);
        if lr == LR_END {
            self.stop(Finish::EndOfStack, output)
        } else if !cfa_changed && lr == self.pc {
            output.push(Output::Corrupted);
            self.stop(Finish::Corrupted, output)
        } else if lr >= EXC_RETURN {
            let sp = self.held(SP);
            output.push(Output::ExceptionEntry);
            self.phase = Phase::Exception;
            Step { output, next: Next::Read(Request::Stacked(sp)) }
        } else if lr & 1 == 0 {
            self.stop(Finish::Failed(UnwindError::ThumbBitMissing { lr }), output)
        } else {
            self.pc = lr & !1u32;
            self.frame = counted_on(self.frame);
            self.phase = Phase::Frame;
            Step { output, next: Next::Continue }
        }
    }

    fn restore_from(&mut self, cfa_changed: bool, next: usize, output: Vec<Output>) -> (step: Step)
        requires
            wf(old(self)@),
        ensures
            (Stepped { state: final(self)@, output: step.output@, next: step.next })
                == restore_from(old(self)@, cfa_changed, next as int, output@),
    {
        if next < self.rules.len() {
            match self.rules[next].1 {
                RegisterRule::Offset(offset) => {
                    let address = wrapped_sum(self.held(SP), offset);
                    self.phase = Phase::Restore { cfa_changed, next, address };
                    Step { output, next: Next::Read(Request::Word(address)) }
                },
                _ => self.stop(Finish::Failed(UnwindError::UnsupportedCfiRule), output),
            }
        } else {
            self.finish_frame(cfa_changed, output)
        }
    }

    fn apply_cfa(&mut self, base: u32, offset: i64, output: Vec<Output>) -> (step: Step)
        requires
            wf(old(self)@),
        ensures
            (Stepped { state: final(self)@, output: step.output@, next: step.next }) == apply_cfa(
                old(self)@,
                base,
                offset,
                output@,
            ),
    {
        let cfa = wrapped_sum(base, offset);
        let cfa_changed = self.held(SP) != cfa;
        self.cache.insert(SP, cfa);
        self.restore_from(cfa_changed, 0, output)
    }

    fn begin_frame(
        &mut self,
        row: Option<UnwindRow>,
        name: Option<usize>,
        output: Vec<Output>,
    ) -> (step: Step)
        requires
            wf(old(self)@),
            starts_frame(old(self)@.phase),
        ensures
            (Stepped { state: final(self)@, output: step.output@, next: step.next })
                == begin_frame(
                old(self)@,
                row_view(row),
                name,
                output@,
            ),
    {
        let mut output = output;
        output.push(Output::Frame { index: self.frame, pc: self.pc, name });
        match row {
            None => self.stop(Finish::Failed(UnwindError::NoUnwindInfo), output),
            Some(row) => match row.cfa {
                CfaRule::Expression => self.stop(
                    Finish::Failed(UnwindError::UnsupportedCfiRule),
                    output,
                ),
                CfaRule::RegisterAndOffset { register, offset } => {
                    self.rules = row.registers;
                    assert(self.rules.len() == self.rules@.len());
                    match self.cache.get(register) {
                        Some(base) => self.apply_cfa(base, offset, output),
                        None => {
                            self.phase = Phase::Base { register, offset };
                            Step { output, next: Next::Read(Request::Register(register)) }
                        },
                    }
                },
            },
        }
    }

    /// Takes one step with the row and the name of the current program
    /// counter given.
    pub fn step_with(&mut self, row: Option<UnwindRow>, name: Option<usize>, reply: Reply) -> (step:
        Step)
        requires
            wf(old(self)@),
        ensures
            wf(final(self)@),
            (Stepped { state: final(self)@, output: step.output@, next: step.next }) == step_of(
                old(self)@,
                row_view(row),
                name,
                reply,
            ),
    {
        let ghost given = row_view(row);
        assert(row is Some ==> row->Some_0.registers.len() == row->Some_0.registers@.len());
        let output: Vec<Output> = Vec::new();
        let step = match self.phase {
            Phase::Start => {
                let mut output = output;
                output.push(Output::Header);
                assert(output@ =~= seq![Output::Header]);
                self.begin_frame(row, name, output)
            },
            Phase::Frame => self.begin_frame(row, name, output),
            Phase::Base { register, offset } => match reply {
                Reply::Value(value) => {
                    self.cache.insert(register, value);
                    self.apply_cfa(value, offset, output)
                },
                _ => Step { output, next: Next::Read(Request::Register(register)) },
            },
            Phase::Restore { cfa_changed, next, address } => match reply {
                Reply::Value(word) => {
                    let register = self.rules[next].0;
                    self.cache.insert(register, word);
                    self.restore_from(cfa_changed, next + 1, output)
                },
                _ => Step { output, next: Next::Read(Request::Word(address)) },
            },
            Phase::Exception => {
                let sp = self.held(SP);
                match reply {
                    Reply::Stacked(stacked) => {
                        self.cache.insert(LR, stacked.lr);
                        self.cache.insert(SP, wrapped_sum(sp, 32));
                        self.pc = stacked.pc;
                        self.frame = counted_on(self.frame);
                        self.phase = Phase::Frame;
                        Step { output, next: Next::Continue }
                    },
                    _ => Step { output, next: Next::Read(Request::Stacked(sp)) },
                }
            },
            Phase::Done(finish) => Step { output, next: Next::Stop(finish) },
        };
        proof {
            lemma_step_keeps_wf(old(self)@, given, name, reply);
        }
        step
    }

    /// Takes one step: at the start of a frame the row of the program
    /// counter is looked up in `debug_frame`, the contents of the
    /// `.debug_frame` section, and its name in `names`.
    pub fn step(&mut self, debug_frame: &[u8], names: &RangeNames, reply: Reply) -> (step: Step)
        requires
            wf(old(self)@),
        ensures
            wf(final(self)@),
            (Stepped { state: final(self)@, output: step.output@, next: step.next }) == step_of(
                old(self)@,
                unwind_row_at(debug_frame@, old(self)@.pc),
                name_index(index_of(names@, old(self)@.pc)),
                reply,
            ),
    {
        match self.phase {
            Phase::Start | Phase::Frame => {
                let row = unwind_row(debug_frame, self.pc);
                let name = names.find(self.pc);
                self.step_with(row, name, reply)
            },
            _ => self.step_with(None, None, reply),
        }
    }
}

/// Every step leads from a well-formed state to a well-formed state.
pub proof fn lemma_step_keeps_wf(
    state: UnwinderView,
    row: Option<UnwindRowView>,
    name: Option<usize>,
    reply: Reply,
)
    requires
        wf(state),
        row matches Some(found) ==> found.registers.len() <= usize::MAX,
    ensures
        wf(step_of(state, row, name, reply).state),
{
}

/// The backtrace is determined by the tables, by the registers at the halt
/// and by what the target answers: two steps from the same state, with the
/// same tables and the same reply, print the same lines, ask for the same
/// and lead to the same state.
pub proof fn law_same_answers_same_backtrace(
    first: Stepped,
    second: Stepped,
    state: UnwinderView,
    debug_frame: Seq<u8>,
    names: Seq<crate::symbols::SymbolRangeView>,
    reply: Reply,
)
    requires
        first == step_of(
            state,
            unwind_row_at(debug_frame, state.pc),
            name_index(index_of(names, state.pc)),
            reply,
        ),
        second == step_of(
            state,
            unwind_row_at(debug_frame, state.pc),
            name_index(index_of(names, state.pc)),
            reply,
        ),
    ensures
        first.output == second.output,
        first.next == second.next,
        first.state == second.state,
{
}

/// A link register that holds the end mark ends unwinding once the row is
/// applied: nothing more is printed, read or changed.
pub proof fn law_end_mark_stops_unwinding(
    state: UnwinderView,
    cfa_changed: bool,
    output: Seq<Output>,
)
    requires
        state.cache[LR] == LR_END,
    ensures
        finish_frame(state, cfa_changed, output) == stop(state, Finish::EndOfStack, output),
{
}

/// Where unwinding goes on after a frame, the next frame is that of an
/// interrupted program exactly if the link register holds `EXC_RETURN` or
/// more.
pub proof fn law_exception_return_from_threshold(
    state: UnwinderView,
    cfa_changed: bool,
    output: Seq<Output>,
)
    requires
        state.cache[LR] != LR_END,
        cfa_changed || state.cache[LR] != state.pc,
    ensures
        state.cache[LR] >= EXC_RETURN <==> finish_frame(state, cfa_changed, output).next
            == Next::Read(Request::Stacked(state.cache[SP])),
        state.cache[LR] >= EXC_RETURN <==> finish_frame(
            state,
            cfa_changed,
            output,
        ).state.phase is Exception,
{
}

/// In an unwind of the usual shape the stack pointer in the cache never
/// falls from one step to the next. The usual shape: the CFA of a frame
/// lies at or above the stack pointer and within the address space, no
/// register rule restores the stack pointer itself, and the stacked
/// registers of an exception end within the address space.
pub proof fn law_stack_pointer_never_falls(
    state: UnwinderView,
    row: Option<UnwindRowView>,
    name: Option<usize>,
    reply: Reply,
)
    requires
        wf(state),
        starts_frame(state.phase) ==> (row matches Some(found) ==> (found.cfa matches CfaRule::RegisterAndOffset {
            register,
            offset,
        } ==> (state.cache.contains_key(register) ==> state.cache[SP] <= state.cache[register]
            + offset <= u32::MAX))),
        state.phase matches Phase::Base { offset, .. } ==> (reply matches Reply::Value(base)
            ==> state.cache[SP] <= base + offset <= u32::MAX),
        state.phase matches Phase::Restore { next, .. } ==> state.rules[next as int].0 != SP,
        state.phase is Exception ==> state.cache[SP] + STACKED_BYTES <= u32::MAX,
    ensures
        step_of(state, row, name, reply).state.cache[SP] >= state.cache[SP],
{
}

} // verus!
