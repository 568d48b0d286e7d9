//! Peripheral register operations of the STM32F103 and its Cortex-M3 core,
//! as plain values: the start-up code computes a list of them and the
//! firmware carries them out in order.

use vstd::prelude::*;

verus! {

/// The registers that the programs configure.
#[derive(Clone, Copy, Debug, PartialEq, Eq, Structural)]
pub enum Register {
    RccApb2enr,
    RccApb1enr,
    GpioaCrl,
    GpioaCrh,
    GpioaOdr,
    GpiocCrh,
    Tim2Psc,
    Tim2Arr,
    Tim2Dier,
    Tim2Egr,
    Tim2Cr1,
    Tim3Psc,
    Tim3Arr,
    Tim3Egr,
    Tim3Cr1,
    Usart1Cr1,
    Usart1Brr,
    AfioExticr1,
    ExtiImr,
    ExtiFtsr,
    SystCsr,
    SystRvr,
    DwtCtrl,
    DwtCyccnt,
    DwtSleepcnt,
}

/// One operation on a register.
#[derive(Clone, Copy, Debug, PartialEq, Eq, Structural)]
pub enum RegOp {
    /// The register takes `value`.
    Write { reg: Register, value: u32 },
    /// The register keeps its bits outside `clear`, loses those in `clear`,
    /// and gains those in `set`.
    Modify { reg: Register, clear: u32, set: u32 },
}

/// The value of the register after `op`, when it held `old` before.
pub open spec fn after(op: RegOp, old: u32) -> u32 {
    match op {
        RegOp::Write { value, .. } => value,
        RegOp::Modify { clear, set, .. } => (old & !clear) | set,
    }
}

/// The register that `op` acts on.
pub open spec fn target(op: RegOp) -> Register {
    match op {
        RegOp::Write { reg, .. } => reg,
        RegOp::Modify { reg, .. } => reg,
    }
}

/// The mask of the `width` bits from bit `offset` on.
pub open spec fn field_mask(offset: u32, width: u32) -> u32 {
    (((1u64 << width) - 1) as u32) << offset
}

impl RegOp {
    /// The register this operation acts on.
    pub fn register(&self) -> (r: Register)
        ensures
            r == target(*self),
    {
        match self {
            RegOp::Write { reg, .. } => *reg,
            RegOp::Modify { reg, .. } => *reg,
        }
    }

    /// The value of the register after this operation, when it held `old`.
    pub fn apply(&self, old: u32) -> (r: u32)
        ensures
            r == after(*self, old),
    {
        match self {
            RegOp::Write { value, .. } => *value,
            RegOp::Modify { clear, set, .. } => (old & !*clear) | *set,
        }
    }
}

/// A modification leaves every bit outside its `clear` and `set` masks as it
/// was, and leaves each bit of `set` on.
pub proof fn lemma_modify_keeps_other_bits(reg: Register, clear: u32, set: u32, old: u32, bit: u32)
    requires
        bit < 32,
    ensures
        ({
            let new = after(RegOp::Modify { reg, clear, set }, old);
            let m = 1u32 << bit;
            &&& (clear & m == 0 && set & m == 0) ==> new & m == old & m
            &&& set & m != 0 ==> new & m == m
        }),
{
    assert(bit < 32 ==> ((clear & (1u32 << bit) == 0 && set & (1u32 << bit) == 0) ==> ((old & !clear)
        | set) & (1u32 << bit) == old & (1u32 << bit))) by (bit_vector);
    assert(bit < 32 ==> (set & (1u32 << bit) != 0 ==> ((old & !clear) | set) & (1u32 << bit) == (1u32
        << bit))) by (bit_vector);
}

/// Writing a field of `width` bits at `offset` with `v`, starting from the
/// register's reset value `reset`: the bits outside the field keep the reset
/// value.
pub open spec fn write_field(reset: u32, offset: u32, width: u32, v: u32) -> u32 {
    (reset & !field_mask(offset, width)) | (v << offset)
}

/// Setting the mode of pin 13 to 1 (output, 10 MHz) from the reset value
/// 0x4444_4444 of a GPIO configuration register gives 0x4454_4444.
pub proof fn lemma_led_pin_output()
    ensures
        write_field(0x4444_4444, 20, 2, 1) == 0x4454_4444u32,
{
    assert(write_field(0x4444_4444, 20, 2, 1) == 0x4454_4444u32) by (bit_vector);
}

/// The value of `reg` after the first `n` operations of `plan`, when it held
/// `start` before them; operations on other registers leave it alone.
pub open spec fn value_after(plan: Seq<RegOp>, reg: Register, start: u32, n: nat) -> u32
    decreases n,
{
    if n == 0 {
        start
    } else {
        let before = value_after(plan, reg, start, (n - 1) as nat);
        if target(plan[n - 1]) == reg {
            after(plan[n - 1], before)
        } else {
            before
        }
    }
}

/// The value of `reg` after all of `plan`.
pub open spec fn final_value(plan: Seq<RegOp>, reg: Register, start: u32) -> u32 {
    value_after(plan, reg, start, plan.len())
}

/// A write gives the register its value, whatever it held.
pub proof fn lemma_write_sets_value(reg: Register, value: u32, old: u32)
    ensures
        after(RegOp::Write { reg, value }, old) == value,
{
}

} // verus!
