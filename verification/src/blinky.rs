//! The blinking LED program: a timer toggles the LED, the serial command line
//! (see [`crate::console`]) starts, pauses and paces it, and the processor's
//! busy and idle cycles are counted and reported once per logging period.

use vstd::prelude::*;
use crate::regs::{final_value, lemma_led_pin_output, value_after, write_field, Register, RegOp};
use crate::decoder::{wadd, wsub};

verus! {

/// The core clock, in hertz.
pub const CORE_CLOCK_HZ: u32 = 8_000_000;

/// How often the load is reported, in hertz.
pub const LOGGING_FREQUENCY: u32 = 1;

/// The speed of the serial line, in bits per second.
pub const BAUD_RATE: u32 = 115_200;

/// The reset value of the GPIO port configuration registers.
pub const GPIO_CR_RESET: u32 = 0x4444_4444;

/// The register operations of the start-up code, in order.
pub open spec fn init_plan() -> Seq<RegOp> {
    seq![
        // GPIOC clock on.
        RegOp::Write { reg: Register::RccApb2enr, value: 1u32 << 4u32 },
        // SysTick from the core clock, once per logging period.
        RegOp::Modify { reg: Register::SystCsr, clear: 0, set: 1u32 << 2u32 },
        RegOp::Write { reg: Register::SystRvr, value: CORE_CLOCK_HZ / LOGGING_FREQUENCY },
        RegOp::Modify { reg: Register::SystCsr, clear: 0, set: 1u32 << 1u32 },
        RegOp::Modify { reg: Register::SystCsr, clear: 0, set: 1u32 },
        RegOp::Modify { reg: Register::RccApb2enr, clear: 1u32 << 4u32, set: 1u32 << 4u32 },
        // PC13 (the LED) as an output.
        RegOp::Write { reg: Register::GpiocCrh, value: write_field(GPIO_CR_RESET, 20, 2, 1) },
        // TIM2 at 1 kHz, reloading every 1000 ticks, with its update interrupt.
        RegOp::Modify { reg: Register::RccApb1enr, clear: 1u32, set: 1u32 },
        RegOp::Write { reg: Register::Tim2Psc, value: 7999 },
        RegOp::Write { reg: Register::Tim2Arr, value: 1000 },
        RegOp::Write { reg: Register::Tim2Dier, value: 1u32 },
        RegOp::Write { reg: Register::Tim2Egr, value: 1u32 },
        // Each write of CR1 starts from its reset value: the second leaves
        // only the counter enable on.
        RegOp::Write { reg: Register::Tim2Cr1, value: 1u32 << 7u32 },
        RegOp::Write { reg: Register::Tim2Cr1, value: 1u32 },
        // The cycle counter from zero.
        RegOp::Write { reg: Register::DwtCyccnt, value: 0 },
        RegOp::Write { reg: Register::DwtSleepcnt, value: 0 },
        RegOp::Modify { reg: Register::DwtCtrl, clear: 0, set: 1u32 },
        // USART1 on PA9, receiving with an interrupt.
        RegOp::Modify { reg: Register::RccApb2enr, clear: 1u32 << 14u32, set: 1u32 << 14u32 },
        RegOp::Modify { reg: Register::RccApb2enr, clear: 1u32 << 2u32, set: 1u32 << 2u32 },
        RegOp::Modify { reg: Register::GpioaCrh, clear: 0xf0, set: (1u32 << 4u32) | (2u32 << 6u32) },
        RegOp::Write {
            reg: Register::Usart1Cr1,
            value: (1u32 << 13u32) | (1u32 << 2u32) | (1u32 << 3u32) | (1u32 << 5u32),
        },
        RegOp::Write { reg: Register::Usart1Brr, value: CORE_CLOCK_HZ / BAUD_RATE },
    ]
}

/// The register operations that configure the clocks, the LED pin, TIM2,
/// SysTick, the cycle counter and USART1.
pub fn init() -> (plan: Vec<RegOp>)
    ensures
        plan@ == init_plan(),
{
    let mut plan: Vec<RegOp> = Vec::new();
    plan.push(RegOp::Write { reg: Register::RccApb2enr, value: 1 << 4 });
    plan.push(RegOp::Modify { reg: Register::SystCsr, clear: 0, set: 1 << 2 });
    plan.push(RegOp::Write { reg: Register::SystRvr, value: CORE_CLOCK_HZ / LOGGING_FREQUENCY });
    plan.push(RegOp::Modify { reg: Register::SystCsr, clear: 0, set: 1 << 1 });
    plan.push(RegOp::Modify { reg: Register::SystCsr, clear: 0, set: 1 });
    plan.push(RegOp::Modify { reg: Register::RccApb2enr, clear: 1 << 4, set: 1 << 4 });
    proof {
        lemma_led_pin_output();
    }
    plan.push(RegOp::Write { reg: Register::GpiocCrh, value: 0x4454_4444 });
    plan.push(RegOp::Modify { reg: Register::RccApb1enr, clear: 1, set: 1 });
    let prescaler: u32 = 8000 - 1;
    plan.push(RegOp::Write { reg: Register::Tim2Psc, value: prescaler });
    let arr_value: u32 = 1000;
    plan.push(RegOp::Write { reg: Register::Tim2Arr, value: arr_value });
    plan.push(RegOp::Write { reg: Register::Tim2Dier, value: 1 });
    plan.push(RegOp::Write { reg: Register::Tim2Egr, value: 1 });
    plan.push(RegOp::Write { reg: Register::Tim2Cr1, value: 1 << 7 });
    plan.push(RegOp::Write { reg: Register::Tim2Cr1, value: 1 });
    plan.push(RegOp::Write { reg: Register::DwtCyccnt, value: 0 });
    plan.push(RegOp::Write { reg: Register::DwtSleepcnt, value: 0 });
    plan.push(RegOp::Modify { reg: Register::DwtCtrl, clear: 0, set: 1 });
    plan.push(RegOp::Modify { reg: Register::RccApb2enr, clear: 1 << 14, set: 1 << 14 });
    plan.push(RegOp::Modify { reg: Register::RccApb2enr, clear: 1 << 2, set: 1 << 2 });
    plan.push(RegOp::Modify { reg: Register::GpioaCrh, clear: 0xf0, set: (1 << 4) | (2 << 6) });
    plan.push(
        RegOp::Write { reg: Register::Usart1Cr1, value: (1 << 13) | (1 << 2) | (1 << 3) | (1 << 5) },
    );
    let baud = CORE_CLOCK_HZ / BAUD_RATE;
    plan.push(RegOp::Write { reg: Register::Usart1Brr, value: baud });
    assert(plan@ =~= init_plan());
    plan
}

/// Start-up runs SysTick from the core clock with its interrupt and counter
/// on and a reload of one logging period (8 000 000 cycles), runs TIM2 at
/// 1 kHz with reload 1000 and its update interrupt and counter on, starts
/// the cycle counter from zero, and sets USART1 to 115 200 baud (divider 69)
/// with receiver, transmitter and receive interrupt on, whatever the
/// registers held before.
pub proof fn lemma_init_configures_board(start: u32)
    ensures
        final_value(init_plan(), Register::SystCsr, start) & 0x7u32 == 0x7u32,
        final_value(init_plan(), Register::SystRvr, start) == 8_000_000,
        final_value(init_plan(), Register::Tim2Psc, start) == 7999,
        final_value(init_plan(), Register::Tim2Arr, start) == 1000,
        final_value(init_plan(), Register::Tim2Dier, start) == 1,
        final_value(init_plan(), Register::Tim2Cr1, start) & 1 == 1,
        final_value(init_plan(), Register::Tim2Egr, start) == 1,
        final_value(init_plan(), Register::DwtCyccnt, start) == 0,
        final_value(init_plan(), Register::DwtSleepcnt, start) == 0,
        final_value(init_plan(), Register::DwtCtrl, start) & 1 == 1,
        final_value(init_plan(), Register::Usart1Brr, start) == 69,
        final_value(init_plan(), Register::Usart1Cr1, start) == 0x202cu32,
{
    reveal_with_fuel(value_after, 32);
    let s = start;
    assert(((((((s & !0u32) | (1u32 << 2u32)) & !0u32) | (1u32 << 1u32)) & !0u32) | 1u32) & 0x7u32
        == 0x7u32) by (bit_vector);
    assert(((s & !0u32) | 1u32) & 1 == 1) by (bit_vector);
    assert(1u32 & 1 == 1) by (bit_vector);
    assert((1u32 << 13u32) | (1u32 << 2u32) | (1u32 << 3u32) | (1u32 << 5u32) == 0x202cu32) by (bit_vector);
}

/// Start-up turns on the clocks of ports A and C, of USART1 and of TIM2,
/// makes PC13 (the LED) an output, and PA9 (the serial transmit pin) an
/// alternate-function push-pull output, keeping the other pins of PA8 to
/// PA15.
pub proof fn lemma_init_sets_pins(apb2: u32, apb1: u32, crh_a: u32, crh_c: u32)
    ensures
        final_value(init_plan(), Register::RccApb2enr, apb2) == 0x4014u32,
        final_value(init_plan(), Register::RccApb1enr, apb1) & 1 == 1,
        final_value(init_plan(), Register::GpiocCrh, crh_c) == 0x4454_4444u32,
        final_value(init_plan(), Register::GpioaCrh, crh_a) & 0xf0u32 == 0x90u32,
        final_value(init_plan(), Register::GpioaCrh, crh_a) & !0xf0u32 == crh_a & !0xf0u32,
{
    reveal_with_fuel(value_after, 32);
    lemma_led_pin_output();
    assert(((((((1u32 << 4u32) & !(1u32 << 4u32)) | (1u32 << 4u32)) & !(1u32 << 14u32)) | (1u32
        << 14u32)) & !(1u32 << 2u32)) | (1u32 << 2u32) == 0x4014u32) by (bit_vector);
    let a1 = apb1;
    assert(((a1 & !1u32) | 1u32) & 1 == 1) by (bit_vector);
    let c = crh_a;
    assert(((c & !0xf0u32) | ((1u32 << 4u32) | (2u32 << 6u32))) & 0xf0u32 == 0x90u32 && ((c
        & !0xf0u32) | ((1u32 << 4u32) | (2u32 << 6u32))) & !0xf0u32 == c & !0xf0u32) by (bit_vector);
}

/// The share of busy cycles, in percent, that the load report gives: with
/// `total = idle + busy`, `busy * 100 / total`, in wrapping 32-bit
/// arithmetic; 0 when `total` is 0.
pub open spec fn percent_spec(busy: u32, idle: u32) -> u32 {
    let total = wadd(idle, busy);
    if total > 0 {
        (vstd::wrapping::u32_specs::wrapping_mul(busy, 100) / total) as u32
    } else {
        0
    }
}

/// The busy share in percent of the counted cycles (see [`percent_spec`]).
pub fn busy_percent(busy: u32, idle: u32) -> (p: u32)
    ensures
        p == percent_spec(busy, idle),
{
    let mut percent: u32 = 0;
    let total_time = idle.wrapping_add(busy);
    if total_time > 0 {
        // Wrapping division of unsigned words is plain division.
        percent = busy.wrapping_mul(100) / total_time;
    }
    percent
}

/// When nothing wraps, the busy share is `busy * 100 / (busy + idle)`,
/// rounded down, and at most 100.
pub proof fn lemma_percent_exact(busy: u32, idle: u32)
    requires
        busy + idle > 0,
        busy + idle <= u32::MAX,
        busy * 100 <= u32::MAX,
    ensures
        percent_spec(busy, idle) == (busy * 100) / (busy + idle),
        percent_spec(busy, idle) <= 100,
{
    let total = busy + idle;
    assert(vstd::wrapping::u32_specs::wrapping_mul(busy, 100) == busy * 100) by {
        vstd::arithmetic::div_mod::lemma_small_mod((busy * 100) as nat, 0x1_0000_0000nat);
    }
    assert((busy * 100) / total <= 100) by {
        vstd::arithmetic::div_mod::lemma_div_is_ordered(busy * 100, total * 100, total);
        vstd::arithmetic::div_mod::lemma_div_by_multiple(100, total);
        vstd::arithmetic::mul::lemma_mul_is_commutative(total, 100);
    }
}

/// The number of cycles from `earlier` to `later` on a wrapping cycle counter.
pub open spec fn elapsed(earlier: u32, later: u32) -> u32 {
    wsub(later, earlier)
}

/// Counting on from `earlier` by the elapsed cycles reaches `later`, even
/// when the counter wrapped around in between.
pub proof fn lemma_elapsed_reaches(earlier: u32, later: u32)
    ensures
        wadd(earlier, elapsed(earlier, later)) == later,
{
}

/// What the load report shows.
#[derive(Clone, Copy, Debug, PartialEq, Eq, Structural)]
pub struct LoadReport {
    pub busy: u32,
    pub idle: u32,
    pub percent: u32,
}

/// The counts of busy and idle cycles since the last report, and the cycle
/// count at which the last sleep ended.
pub struct CpuLoad {
    idle_counter: u32,
    busy_counter: u32,
    prev_time: u32,
}

impl CpuLoad {
    /// Idle cycles counted since the last report.
    pub closed spec fn idle_spec(&self) -> u32 {
        self.idle_counter
    }

    /// Busy cycles counted since the last report.
    pub closed spec fn busy_spec(&self) -> u32 {
        self.busy_counter
    }

    /// The cycle count at which the last sleep ended.
    pub closed spec fn prev_spec(&self) -> u32 {
        self.prev_time
    }

    /// Nothing counted yet, with the cycle counter at 0.
    pub fn new() -> (l: CpuLoad)
        ensures
            l.idle_spec() == 0,
            l.busy_spec() == 0,
            l.prev_spec() == 0,
    {
        CpuLoad { idle_counter: 0, busy_counter: 0, prev_time: 0 }
    }

    /// One round of the idle loop: the work since the last sleep ended at
    /// cycle count `work_end`; the processor then slept from `sleep_start`
    /// to `sleep_end`. The work's cycles are busy cycles, the sleep's are
    /// idle cycles, and the next work starts at `sleep_end`.
    pub fn idle_iteration(&mut self, work_end: u32, sleep_start: u32, sleep_end: u32)
        ensures
            final(self).busy_spec() == wadd(old(self).busy_spec(), elapsed(old(self).prev_spec(), work_end)),
            final(self).idle_spec() == wadd(old(self).idle_spec(), elapsed(sleep_start, sleep_end)),
            final(self).prev_spec() == sleep_end,
    {
        self.busy_counter = self.busy_counter.wrapping_add(work_end.wrapping_sub(self.prev_time));
        self.idle_counter = self.idle_counter.wrapping_add(sleep_end.wrapping_sub(sleep_start));
        self.prev_time = sleep_end;
    }

    /// The report of one logging period: the counted cycles and the busy
    /// share; the counts start again from zero.
    pub fn logging(&mut self) -> (r: LoadReport)
        ensures
            r.busy == old(self).busy_spec(),
            r.idle == old(self).idle_spec(),
            r.percent == percent_spec(r.busy, r.idle),
            final(self).busy_spec() == 0,
            final(self).idle_spec() == 0,
            final(self).prev_spec() == old(self).prev_spec(),
    {
        let time_idle = self.idle_counter;
        let time_busy = self.busy_counter;
        let percent = busy_percent(time_busy, time_idle);
        self.idle_counter = 0;
        self.busy_counter = 0;
        LoadReport { busy: time_busy, idle: time_idle, percent }
    }
}

/// What the timer interrupt does to the LED: while blinking is paused,
/// nothing (not even clearing the interrupt flag); else the interrupt flag is
/// cleared and the LED takes the opposite state, which is returned.
pub fn blink_led(blink_enable: bool, led_on: bool) -> (r: Option<bool>)
    ensures
        !blink_enable ==> r == None::<bool>,
        blink_enable ==> r == Some(!led_on),
{
    if blink_enable == false {
        return None;
    }
    Some(!led_on)
}

} // verus!
