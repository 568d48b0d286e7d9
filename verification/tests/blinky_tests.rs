use embedded_course::blinky::{blink_led, busy_percent, init, CpuLoad, LoadReport};
use embedded_course::regs::{Register, RegOp};

fn final_value(plan: &[RegOp], reg: Register, start: u32) -> u32 {
    let mut v = start;
    for op in plan {
        if op.register() == reg {
            v = op.apply(v);
        }
    }
    v
}

#[test]
fn init_configures_timers_and_serial() {
    let plan = init();
    assert_eq!(plan.len(), 22);
    assert_eq!(plan[2], RegOp::Write { reg: Register::SystRvr, value: 8_000_000 });
    assert_eq!(plan[8], RegOp::Write { reg: Register::Tim2Psc, value: 7999 });
    assert_eq!(plan[9], RegOp::Write { reg: Register::Tim2Arr, value: 1000 });
    assert_eq!(plan[21], RegOp::Write { reg: Register::Usart1Brr, value: 69 });
    assert_eq!(final_value(&plan, Register::SystCsr, 0), 0b111);
    assert_eq!(final_value(&plan, Register::GpiocCrh, 0x4444_4444), 0x4454_4444);
    assert_eq!(final_value(&plan, Register::RccApb2enr, 0), (1 << 14) | (1 << 4) | (1 << 2));
    assert_eq!(final_value(&plan, Register::GpioaCrh, 0x4444_4444), 0x4444_4494);
    assert_eq!(final_value(&plan, Register::Usart1Cr1, 0), 0x202c);
    // The second write of CR1 starts from the reset value: only the
    // counter enable stays on.
    assert_eq!(final_value(&plan, Register::Tim2Cr1, 0), 1);
}

#[test]
fn percent_of_busy_cycles() {
    assert_eq!(busy_percent(25, 75), 25);
    assert_eq!(busy_percent(1, 2), 33);
    assert_eq!(busy_percent(100, 0), 100);
    assert_eq!(busy_percent(0, 0), 0);
    assert_eq!(busy_percent(0, 10), 0);
    // busy * 100 wraps around.
    assert_eq!(busy_percent(50_000_000, 0), 50_000_000u32.wrapping_mul(100) / 50_000_000);
    // idle + busy wraps around to zero.
    assert_eq!(busy_percent(1, u32::MAX), 0);
}

#[test]
fn cycles_are_counted_across_wraparound() {
    let mut load = CpuLoad::new();
    load.idle_iteration(100, 100, 400);
    load.idle_iteration(450, 0xffff_fff0, 0x10);
    let r = load.logging();
    assert_eq!(r, LoadReport { busy: 100 + 50, idle: 300 + 0x20, percent: 150 * 100 / 482 });
    let r2 = load.logging();
    assert_eq!(r2, LoadReport { busy: 0, idle: 0, percent: 0 });
}

#[test]
fn led_toggles_only_when_enabled() {
    assert_eq!(blink_led(false, true), None);
    assert_eq!(blink_led(false, false), None);
    assert_eq!(blink_led(true, true), Some(false));
    assert_eq!(blink_led(true, false), Some(true));
    assert_eq!(blink_led(true, blink_led(true, true).unwrap()), Some(true));
}

#[test]
fn idle_round_counts_work_and_sleep() {
    let mut load = CpuLoad::new();
    load.idle_iteration(0x10, 0x20, 0x120);
    load.idle_iteration(0x130, 0x130, 0x130);
    let r = load.logging();
    assert_eq!(r.busy, 0x10 + 0x10);
    assert_eq!(r.idle, 0x100);
}
