//! The first draft of the printing device, whose start-up code only turns on
//! the clock of GPIO port C.

use vstd::prelude::*;
use crate::regs::{final_value, value_after, Register, RegOp};

verus! {

/// The register operations of the draft's start-up code.
pub open spec fn init_plan() -> Seq<RegOp> {
    seq![RegOp::Write { reg: Register::RccApb2enr, value: 1u32 << 4u32 }]
}

/// The draft's start-up turns on the clock of GPIO port C (bit 4 of
/// RCC_APB2ENR) and no other peripheral clock, whatever the register held.
pub proof fn lemma_init_enables_gpioc(start: u32)
    ensures
        final_value(init_plan(), Register::RccApb2enr, start) == 0x10u32,
{
    reveal_with_fuel(value_after, 2);
    assert(1u32 << 4u32 == 0x10u32) by (bit_vector);
}

/// The register operations of the draft's start-up code: the GPIOC clock on.
pub fn init() -> (plan: Vec<RegOp>)
    ensures
        plan@ == init_plan(),
{
    let mut plan: Vec<RegOp> = Vec::new();
    plan.push(RegOp::Write { reg: Register::RccApb2enr, value: 1 << 4 });
    assert(plan@ =~= init_plan());
    plan
}

} // verus!
