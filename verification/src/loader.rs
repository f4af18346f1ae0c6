//! The plan of the load: what is done to the target, in order, to bring the
//! image onto it and to start it.

use crate::image::{Image, ImageView, ResetVector, SectionView};
use crate::registers::{LR, LR_END, PC, SP};
use vstd::prelude::*;

verus! {

/// The address from which on the target's memory is RAM.
pub const RAM_START: u32 = 0x2000_0000;

/// The address of the vector table offset register.
pub const VTOR: u32 = 0xE000_ED08;

/// One operation on the target.
#[derive(Clone, Copy, Debug, PartialEq, Eq, Structural)]
pub enum TargetOp {
    /// Reset the core and halt it.
    ResetAndHalt,
    /// Write the words of the image's section with this index to `address`.
    WriteSection { index: usize, address: u32 },
    /// Write the words of the image's `.data` section to `address`.
    WriteData { address: u32 },
    /// Set a core register.
    WriteCoreRegister { register: u16, value: u32 },
    /// Write one word to memory.
    WriteWord { address: u32, value: u32 },
    /// Let the core run.
    Run,
    /// Flash the ELF file as a whole.
    Flash,
    /// Reset the core and let it boot.
    Reset,
}

/// Whether the program lives in RAM: its vector table does.
pub open spec fn lives_in_ram(reset: ResetVector) -> bool {
    reset.vtor >= RAM_START
}

/// The writes of the sections, each to its start, in order.
pub open spec fn section_writes(sections: Seq<SectionView>) -> Seq<TargetOp> {
    Seq::new(
        sections.len(),
        |i: int| TargetOp::WriteSection { index: i as usize, address: sections[i].start },
    )
}

/// The write of `.data` to its physical address, where the image has one.
pub open spec fn data_write(image: ImageView) -> Seq<TargetOp> {
    match image.data {
        Some(data) => seq![TargetOp::WriteData { address: data.phys }],
        None => Seq::empty(),
    }
}

/// The start of a program in RAM: the link register gets the end mark, the
/// stack pointer and the program counter their values from the vector
/// table, and the vector table offset register the table's address; then the
/// core runs.
pub open spec fn launch(reset: ResetVector) -> Seq<TargetOp> {
    seq![
        TargetOp::WriteCoreRegister { register: LR, value: LR_END },
        TargetOp::WriteCoreRegister { register: SP, value: reset.sp },
        TargetOp::WriteCoreRegister { register: PC, value: reset.pc },
        TargetOp::WriteWord { address: VTOR, value: reset.vtor },
        TargetOp::Run,
    ]
}

/// The plan of the load. The core is reset and halted first. A program in
/// RAM is written section by section and then launched; any other program is
/// flashed, and the core is reset to boot it.
pub open spec fn load_plan_of(image: ImageView) -> Seq<TargetOp> {
    if lives_in_ram(image.reset) {
        seq![TargetOp::ResetAndHalt] + section_writes(image.sections) + data_write(image) + launch(
            image.reset,
        )
    } else {
        seq![TargetOp::ResetAndHalt, TargetOp::Flash, TargetOp::Reset]
    }
}

/// The words that an operation writes from the image, if it writes any.
pub open spec fn payload_of(image: ImageView, op: TargetOp) -> Option<Seq<u32>> {
    match op {
        TargetOp::WriteSection { index, .. } => if index < image.sections.len() {
            Some(image.sections[index as int].data)
        } else {
            None
        },
        TargetOp::WriteData { .. } => match image.data {
            Some(data) => Some(data.data),
            None => None,
        },
        _ => None,
    }
}

/// Plans the load of `image`.
pub fn load_plan(image: &Image) -> (plan: Vec<TargetOp>)
    ensures
        plan@ == load_plan_of(image@),
{
    let mut plan: Vec<TargetOp> = Vec::new();
    plan.push(TargetOp::ResetAndHalt);
    if image.reset.vtor >= RAM_START {
        let mut i: usize = 0;
        while i < image.sections.len()
            invariant
                i <= image.sections.len(),
                plan@ == seq![TargetOp::ResetAndHalt] + section_writes(image@.sections).take(
                    i as int,
                ),
            decreases image.sections.len() - i,
        {
            plan.push(TargetOp::WriteSection { index: i, address: image.sections[i].start });
            i += 1;
        }
        assert(section_writes(image@.sections).take(i as int) == section_writes(image@.sections));
        match &image.data {
            Some(data) => {
                plan.push(TargetOp::WriteData { address: data.phys });
            },
            None => {},
        }
        plan.push(TargetOp::WriteCoreRegister { register: LR, value: LR_END });
        plan.push(TargetOp::WriteCoreRegister { register: SP, value: image.reset.sp });
        plan.push(TargetOp::WriteCoreRegister { register: PC, value: image.reset.pc });
        plan.push(TargetOp::WriteWord { address: VTOR, value: image.reset.vtor });
        plan.push(TargetOp::Run);
    } else {
        plan.push(TargetOp::Flash);
        plan.push(TargetOp::Reset);
    }
    plan
}

/// The words that `op` writes from `image`.
pub fn payload<'a>(image: &'a Image, op: TargetOp) -> (words: Option<&'a Vec<u32>>)
    ensures
        words matches Some(found) ==> payload_of(image@, op) == Some(found@),
        words is None ==> payload_of(image@, op) is None,
{
    match op {
        TargetOp::WriteSection { index, .. } => if index < image.sections.len() {
            Some(&image.sections[index].data)
        } else {
            None
        },
        TargetOp::WriteData { .. } => match &image.data {
            Some(data) => Some(&data.data),
            None => None,
        },
        _ => None,
    }
}

/// The plan is made from the reset vector and from where the sections go
/// alone: two images that agree in these are loaded by the same
/// operations, and an operation of the plan writes the same words from
/// both where they agree in their contents too.
pub proof fn law_same_image_same_load(first: ImageView, second: ImageView)
    requires
        first.sections == second.sections,
        first.data == second.data,
        first.reset == second.reset,
    ensures
        load_plan_of(first) == load_plan_of(second),
        forall|op: TargetOp| payload_of(first, op) == payload_of(second, op),
{
}

/// A program whose vector table lies below the RAM is flashed and booted
/// by a reset: nothing is written to memory or to a core register, and the
/// core is not told to run.
pub proof fn law_flash_writes_nothing(image: ImageView)
    requires
        !lives_in_ram(image.reset),
    ensures
        load_plan_of(image) == seq![TargetOp::ResetAndHalt, TargetOp::Flash, TargetOp::Reset],
{
}

} // verus!
