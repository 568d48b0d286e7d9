//! The printing device: a stick of five LEDs spins; a hall sensor marks the
//! start of each revolution, a timer marks the slots of it, and in each slot
//! the LEDs show one column of the text.

use vstd::prelude::*;
use crate::regs::{final_value, lemma_led_pin_output, value_after, write_field, Register, RegOp};
use crate::blinky::GPIO_CR_RESET;

verus! {

/// One column of a character: the five LEDs from the outer end of the stick
/// inwards.
pub type Column = [bool; 5];

/// A character: six columns, from left to right.
pub type Glyph = [[bool; 5]; 6];

/// The angle of one slot, in degrees.
pub const SLOT_ANGLE: u32 = 6;

/// The smallest reload value of the slot timer.
pub const RELOAD_MIN: u32 = 10;

/// The largest reload value of the slot timer.
pub const RELOAD_MAX: u32 = 0xffff;

/// The columns of the characters `glyphs`, one character after the other.
pub open spec fn columns_of(glyphs: Seq<Glyph>) -> Seq<Column>
    decreases glyphs.len(),
{
    if glyphs.len() == 0 {
        Seq::empty()
    } else {
        columns_of(glyphs.drop_last()) + glyphs.last()@
    }
}

/// Lays the characters out as a text of columns.
pub fn build_text(glyphs: &[Glyph]) -> (text: Vec<Column>)
    ensures
        text@ == columns_of(glyphs@),
{
    let mut text: Vec<Column> = Vec::new();
    let mut i: usize = 0;
    while i < glyphs.len()
        invariant
            i <= glyphs@.len(),
            text@ == columns_of(glyphs@.take(i as int)),
        decreases glyphs@.len() - i,
    {
        let g = glyphs[i];
        let mut j: usize = 0;
        while j < 6
            invariant
                i < glyphs@.len(),
                g == glyphs@[i as int],
                j <= 6,
                text@ == columns_of(glyphs@.take(i as int)) + g@.take(j as int),
            decreases 6 - j,
        {
            text.push(g[j]);
            assert(g@.take(j + 1) =~= g@.take(j as int).push(g@[j as int]));
            j = j + 1;
        }
        assert(glyphs@.take(i + 1).drop_last() =~= glyphs@.take(i as int));
        assert(g@.take(6) =~= g@);
        i = i + 1;
    }
    assert(glyphs@.take(glyphs@.len() as int) =~= glyphs@);
    text
}

/// The GPIOA output data register value that shows `c`: LEDs on PA7, PA6,
/// PA5, PA4 and PA3 take the five dots, PA2 is on, every other pin is off.
pub open spec fn odr_of(c: Seq<bool>) -> u32 {
    (if c[0] { 1u32 << 7u32 } else { 0u32 }) | (if c[1] { 1u32 << 6u32 } else { 0u32 }) | (if c[2] {
        1u32 << 5u32
    } else {
        0u32
    }) | (if c[3] { 1u32 << 4u32 } else { 0u32 }) | (if c[4] { 1u32 << 3u32 } else { 0u32 }) | (1u32
        << 2u32)
}

/// The output data register value that shows the column `c`.
pub fn column_odr(c: &Column) -> (v: u32)
    ensures
        v == odr_of(c@),
{
    (if c[0] { 1u32 << 7u32 } else { 0u32 }) | (if c[1] { 1u32 << 6u32 } else { 0u32 }) | (if c[2] {
        1u32 << 5u32
    } else {
        0u32
    }) | (if c[3] { 1u32 << 4u32 } else { 0u32 }) | (if c[4] { 1u32 << 3u32 } else { 0u32 }) | (1u32
        << 2u32)
}

/// The slot timer reload for a revolution of `ticks_per_rev` timer ticks:
/// the ticks of one slot angle, kept within `[RELOAD_MIN, RELOAD_MAX]`.
pub open spec fn slot_reload_spec(ticks_per_rev: u32) -> u32 {
    let v = ticks_per_rev * SLOT_ANGLE;
    if v < RELOAD_MIN {
        RELOAD_MIN
    } else if v > RELOAD_MAX {
        RELOAD_MAX
    } else {
        v as u32
    }
}

/// Computes the slot timer reload from the time of one revolution (see
/// [`slot_reload_spec`]).
pub fn slot_reload(ticks_per_rev: u32) -> (r: u32)
    requires
        ticks_per_rev * SLOT_ANGLE <= u32::MAX,
    ensures
        r == slot_reload_spec(ticks_per_rev),
        RELOAD_MIN <= r <= RELOAD_MAX,
{
    let u_sec_per_rev = ticks_per_rev;
    let u_sec_per_deg = u_sec_per_rev;
    let mut arr_value = u_sec_per_deg * SLOT_ANGLE;
    if arr_value < RELOAD_MIN {
        arr_value = RELOAD_MIN;
    } else if arr_value > RELOAD_MAX {
        arr_value = RELOAD_MAX;
    }
    arr_value
}

/// What the main loop of the device does next.
#[derive(Clone, Copy, Debug, PartialEq, Eq, Structural)]
pub enum IdleAction {
    /// Nothing to do yet.
    Wait,
    /// A revolution starts: the slot timer counts from zero.
    RestartSlotTimer,
    /// A slot starts: the output data register takes this value.
    ShowColumn(u32),
    /// The text is out; the device waits for the next revolution.
    Finished,
}

/// The state of the device, as the contracts see it.
pub struct PrinterView {
    /// The columns of the text.
    pub text: Seq<Column>,
    /// The hall sensor marked the start of a revolution not yet finished.
    pub start: bool,
    /// The slot timer marked a slot not yet served.
    pub slot: bool,
    /// The text is being shown.
    pub printing: bool,
    /// The index of the next column to show.
    pub column: int,
}

/// One step of the main loop from `v`: the state afterwards and what the
/// hardware does. Outside a revolution it waits for the hall sensor, then
/// restarts the slot timer; within one it waits for each slot and shows the
/// next column; after the last column it clears the start of the revolution.
pub open spec fn idle_step(v: PrinterView) -> (PrinterView, IdleAction) {
    if !v.printing {
        if v.start {
            (PrinterView { printing: true, column: 0, ..v }, IdleAction::RestartSlotTimer)
        } else {
            (v, IdleAction::Wait)
        }
    } else if v.column < v.text.len() {
        if v.slot {
            (
                PrinterView { slot: false, column: v.column + 1, ..v },
                IdleAction::ShowColumn(odr_of(v.text[v.column]@)),
            )
        } else {
            (v, IdleAction::Wait)
        }
    } else {
        (PrinterView { printing: false, start: false, ..v }, IdleAction::Finished)
    }
}

/// The state after the slot timer expires in `v`.
pub open spec fn slot_event(v: PrinterView) -> PrinterView {
    PrinterView { slot: true, ..v }
}

/// The state after the hall sensor passes its magnet in `v`.
pub open spec fn hall_event(v: PrinterView) -> PrinterView {
    PrinterView { start: true, ..v }
}

/// `k` slots from `v`, each followed by one step of the main loop: the state
/// afterwards and the actions of those steps.
pub open spec fn run_slots(v: PrinterView, k: nat) -> (PrinterView, Seq<IdleAction>)
    decreases k,
{
    if k == 0 {
        (v, Seq::empty())
    } else {
        let before = run_slots(v, (k - 1) as nat);
        let step = idle_step(slot_event(before.0));
        (step.0, before.1.push(step.1))
    }
}

/// The actions that show the columns `cols`, in order.
pub open spec fn show_all(cols: Seq<Column>) -> Seq<IdleAction> {
    cols.map_values(|c: Column| IdleAction::ShowColumn(odr_of(c@)))
}

proof fn lemma_run_slots_prefix(v: PrinterView, k: nat)
    requires
        v.printing,
        v.column == 0,
        k <= v.text.len(),
    ensures
        ({
            let r = run_slots(v, k);
            &&& r.0.text == v.text
            &&& r.0.printing
            &&& r.0.column == k
            &&& k > 0 ==> !r.0.slot
            &&& r.0.start == v.start
            &&& r.1 == show_all(v.text.take(k as int))
        }),
    decreases k,
{
    if k == 0 {
        assert(show_all(v.text.take(0)) =~= Seq::<IdleAction>::empty());
    } else {
        lemma_run_slots_prefix(v, (k - 1) as nat);
        assert(v.text.take(k as int) =~= v.text.take(k - 1).push(v.text[k - 1]));
        assert(show_all(v.text.take(k as int)) =~= show_all(v.text.take(k - 1)).push(
            IdleAction::ShowColumn(odr_of(v.text[k - 1]@)),
        ));
    }
}

/// A revolution shows the whole text: once the slot timer has restarted, one
/// slot per column shows the columns of the text in order, each once, and
/// the next step of the main loop ends the revolution and clears its start.
pub proof fn lemma_revolution_shows_text(v: PrinterView)
    requires
        v.printing,
        v.column == 0,
    ensures
        ({
            let r = run_slots(v, v.text.len());
            let last = idle_step(r.0);
            &&& r.1 == show_all(v.text)
            &&& last.1 == IdleAction::Finished
            &&& !last.0.printing
            &&& !last.0.start
            &&& last.0.text == v.text
        }),
{
    lemma_run_slots_prefix(v, v.text.len());
    assert(v.text.take(v.text.len() as int) =~= v.text);
}

/// Every revolution shows the whole text from its first column: from any
/// state outside a revolution with the hall sensor's flag raised, the next
/// step restarts the slot timer with the first column next; then one slot per
/// column shows column `i` of the text as the `i`-th action, for every `i`,
/// and the step after the last column finishes the revolution.
pub proof fn lemma_every_revolution_shows_text(v: PrinterView)
    requires
        !v.printing,
        v.start,
    ensures
        ({
            let first = idle_step(v);
            let r = run_slots(first.0, v.text.len());
            let last = idle_step(r.0);
            &&& first.1 == IdleAction::RestartSlotTimer
            &&& first.0.column == 0
            &&& first.0.printing
            &&& r.1.len() == v.text.len()
            &&& forall|i: int|
                0 <= i < v.text.len() ==> #[trigger] r.1[i] == IdleAction::ShowColumn(
                    odr_of(v.text[i]@),
                )
            &&& last.1 == IdleAction::Finished
            &&& !last.0.start
            &&& !last.0.printing
        }),
{
    let first = idle_step(v);
    lemma_revolution_shows_text(first.0);
}

/// The output register value lights PA7, PA6, PA5, PA4 and PA3 exactly for
/// the dots 0, 1, 2, 3 and 4 of the column, always lights PA2, and sets no
/// other bit.
pub proof fn lemma_odr_lights_column(c: Seq<bool>)
    requires
        c.len() == 5,
    ensures
        (odr_of(c) & 0x80u32 != 0) == c[0],
        (odr_of(c) & 0x40u32 != 0) == c[1],
        (odr_of(c) & 0x20u32 != 0) == c[2],
        (odr_of(c) & 0x10u32 != 0) == c[3],
        (odr_of(c) & 0x08u32 != 0) == c[4],
        odr_of(c) & 0x04u32 != 0,
        odr_of(c) & !0xfcu32 == 0,
{
    let x = odr_of(c);
    let b0 = c[0];
    let b1 = c[1];
    let b2 = c[2];
    let b3 = c[3];
    let b4 = c[4];
    assert(x == (if b0 { 1u32 << 7u32 } else { 0u32 }) | (if b1 { 1u32 << 6u32 } else { 0u32 }) | (
    if b2 { 1u32 << 5u32 } else { 0u32 }) | (if b3 { 1u32 << 4u32 } else { 0u32 }) | (if b4 {
        1u32 << 3u32
    } else {
        0u32
    }) | (1u32 << 2u32));
    assert({
        &&& (x & 0x80u32 != 0) == b0
        &&& (x & 0x40u32 != 0) == b1
        &&& (x & 0x20u32 != 0) == b2
        &&& (x & 0x10u32 != 0) == b3
        &&& (x & 0x08u32 != 0) == b4
        &&& x & 0x04u32 != 0
        &&& x & !0xfcu32 == 0
    }) by (bit_vector)
        requires
            x == (if b0 { 1u32 << 7u32 } else { 0u32 }) | (if b1 { 1u32 << 6u32 } else { 0u32 }) | (
            if b2 { 1u32 << 5u32 } else { 0u32 }) | (if b3 { 1u32 << 4u32 } else { 0u32 }) | (if b4 {
                1u32 << 3u32
            } else {
                0u32
            }) | (1u32 << 2u32),
    ;
}

/// The state of the device: the text, the flags that the interrupts raise,
/// and how far the text has been shown in this revolution.
pub struct Printer {
    text: Vec<Column>,
    start_position: bool,
    next_slot: bool,
    printing: bool,
    column: usize,
}

impl View for Printer {
    type V = PrinterView;

    closed spec fn view(&self) -> PrinterView {
        PrinterView {
            text: self.text@,
            start: self.start_position,
            slot: self.next_slot,
            printing: self.printing,
            column: self.column as int,
        }
    }
}

impl Printer {
    /// The next column to show is within the text, or just past its end.
    pub open spec fn wf(&self) -> bool {
        0 <= self@.column <= self@.text.len()
    }

    /// A device that shows `text`, before the first revolution.
    pub fn new(text: Vec<Column>) -> (p: Printer)
        ensures
            p.wf(),
            p@ == (PrinterView { text: text@, start: false, slot: false, printing: false, column: 0 }),
    {
        Printer { text, start_position: false, next_slot: false, printing: false, column: 0 }
    }

    /// The hall sensor passed its magnet, `time_stamp` timer ticks after the
    /// last time: a revolution starts. Returns the reload value of the slot
    /// timer for this revolution time (see [`slot_reload_spec`]), so that a
    /// slot spans the same angle at any speed.
    pub fn hall_sensor(&mut self, time_stamp: u16) -> (reload: u32)
        requires
            old(self).wf(),
        ensures
            final(self).wf(),
            reload == slot_reload_spec(time_stamp as u32),
            final(self)@ == hall_event(old(self)@),
    {
        self.start_position = true;
        slot_reload(time_stamp as u32)
    }

    /// The slot timer expired: a slot starts.
    pub fn blink_led(&mut self)
        requires
            old(self).wf(),
        ensures
            final(self).wf(),
            final(self)@ == slot_event(old(self)@),
    {
        self.next_slot = true;
    }

    /// One step of the main loop (see [`idle_step`]).
    pub fn idle(&mut self) -> (a: IdleAction)
        requires
            old(self).wf(),
        ensures
            final(self).wf(),
            (final(self)@, a) == idle_step(old(self)@),
    {
        if !self.printing {
            if self.start_position {
                self.printing = true;
                self.column = 0;
                IdleAction::RestartSlotTimer
            } else {
                IdleAction::Wait
            }
        } else if self.column < self.text.len() {
            if self.next_slot {
                self.next_slot = false;
                let v = column_odr(&self.text[self.column]);
                self.column = self.column + 1;
                IdleAction::ShowColumn(v)
            } else {
                IdleAction::Wait
            }
        } else {
            self.printing = false;
            self.start_position = false;
            IdleAction::Finished
        }
    }
}

/// The register operations of the device's start-up code, in order.
pub open spec fn init_plan() -> Seq<RegOp> {
    seq![
        // GPIOC clock on, PC13 (the board LED) as an output.
        RegOp::Write { reg: Register::RccApb2enr, value: 1u32 << 4u32 },
        RegOp::Write { reg: Register::GpiocCrh, value: write_field(GPIO_CR_RESET, 20, 2, 1) },
        // TIM2, the slot timer: 100 kHz, reloading every 25 ticks.
        RegOp::Modify { reg: Register::RccApb1enr, clear: 1u32, set: 1u32 },
        RegOp::Write { reg: Register::Tim2Psc, value: 79 },
        RegOp::Write { reg: Register::Tim2Arr, value: 25 },
        RegOp::Write { reg: Register::Tim2Dier, value: 1u32 },
        RegOp::Write { reg: Register::Tim2Egr, value: 1u32 },
        RegOp::Write { reg: Register::Tim2Cr1, value: 1u32 << 7u32 },
        RegOp::Write { reg: Register::Tim2Cr1, value: 1u32 },
        // TIM3, the revolution timer: 1 MHz, free running over 16 bits.
        RegOp::Modify { reg: Register::RccApb1enr, clear: 1u32 << 1u32, set: 1u32 << 1u32 },
        RegOp::Write { reg: Register::Tim3Psc, value: 7 },
        RegOp::Write { reg: Register::Tim3Arr, value: 0xffff },
        RegOp::Write { reg: Register::Tim3Egr, value: 1u32 },
        RegOp::Write { reg: Register::Tim3Cr1, value: 1u32 << 7u32 },
        RegOp::Write { reg: Register::Tim3Cr1, value: 1u32 },
        // GPIOA clock on, PA7 to PA2 as fast push-pull outputs, all low.
        RegOp::Modify { reg: Register::RccApb2enr, clear: 1u32 << 2u32, set: 1u32 << 2u32 },
        RegOp::Modify { reg: Register::GpioaCrl, clear: 0xfu32 << 28u32, set: 3u32 << 28u32 },
        RegOp::Modify { reg: Register::GpioaCrl, clear: 0xfu32 << 24u32, set: 3u32 << 24u32 },
        RegOp::Modify { reg: Register::GpioaCrl, clear: 0xfu32 << 20u32, set: 3u32 << 20u32 },
        RegOp::Modify { reg: Register::GpioaCrl, clear: 0xfu32 << 16u32, set: 3u32 << 16u32 },
        RegOp::Modify { reg: Register::GpioaCrl, clear: 0xfu32 << 12u32, set: 3u32 << 12u32 },
        RegOp::Modify { reg: Register::GpioaCrl, clear: 0xfu32 << 8u32, set: 3u32 << 8u32 },
        RegOp::Write { reg: Register::GpioaOdr, value: 0 },
        RegOp::Write { reg: Register::GpioaOdr, value: 0 },
        RegOp::Write { reg: Register::GpioaOdr, value: 0 },
        RegOp::Write { reg: Register::GpioaOdr, value: 0 },
        RegOp::Write { reg: Register::GpioaOdr, value: 0 },
        RegOp::Write { reg: Register::GpioaOdr, value: 0 },
        // The hall sensor on PA1: EXTI1, on falling edges.
        RegOp::Modify { reg: Register::AfioExticr1, clear: 0xfu32 << 4u32, set: 0 },
        RegOp::Modify { reg: Register::ExtiImr, clear: 1u32 << 1u32, set: 1u32 << 1u32 },
        RegOp::Modify { reg: Register::ExtiFtsr, clear: 1u32 << 1u32, set: 1u32 << 1u32 },
    ]
}

/// The register operations that configure the timers, the LED outputs and
/// the hall sensor input.
pub fn init() -> (plan: Vec<RegOp>)
    ensures
        plan@ == init_plan(),
{
    let mut plan: Vec<RegOp> = Vec::new();
    plan.push(RegOp::Write { reg: Register::RccApb2enr, value: 1 << 4 });
    proof {
        lemma_led_pin_output();
    }
    plan.push(RegOp::Write { reg: Register::GpiocCrh, value: 0x4454_4444 });
    plan.push(RegOp::Modify { reg: Register::RccApb1enr, clear: 1, set: 1 });
    let prescaler: u32 = 80 - 1;
    plan.push(RegOp::Write { reg: Register::Tim2Psc, value: prescaler });
    let arr_value: u32 = 25;
    plan.push(RegOp::Write { reg: Register::Tim2Arr, value: arr_value });
    plan.push(RegOp::Write { reg: Register::Tim2Dier, value: 1 });
    plan.push(RegOp::Write { reg: Register::Tim2Egr, value: 1 });
    plan.push(RegOp::Write { reg: Register::Tim2Cr1, value: 1 << 7 });
    plan.push(RegOp::Write { reg: Register::Tim2Cr1, value: 1 });
    plan.push(RegOp::Modify { reg: Register::RccApb1enr, clear: 1 << 1, set: 1 << 1 });
    let tim3_psc: u32 = 8 - 1;
    plan.push(RegOp::Write { reg: Register::Tim3Psc, value: tim3_psc });
    let tim3_arr: u32 = 0xffff;
    plan.push(RegOp::Write { reg: Register::Tim3Arr, value: tim3_arr });
    plan.push(RegOp::Write { reg: Register::Tim3Egr, value: 1 });
    plan.push(RegOp::Write { reg: Register::Tim3Cr1, value: 1 << 7 });
    plan.push(RegOp::Write { reg: Register::Tim3Cr1, value: 1 });
    plan.push(RegOp::Modify { reg: Register::RccApb2enr, clear: 1 << 2, set: 1 << 2 });
    let mut pin: u32 = 7;
    while pin >= 2
        invariant
            1 <= pin <= 7,
            plan@ =~= init_plan().take(16 + 7 - pin),
        decreases pin,
    {
        plan.push(RegOp::Modify { reg: Register::GpioaCrl, clear: 0xf << (4 * pin), set: 3 << (4 * pin) });
        pin = pin - 1;
    }
    let mut k: u32 = 0;
    while k < 6
        invariant
            k <= 6,
            plan@ =~= init_plan().take(22 + k),
        decreases 6 - k,
    {
        plan.push(RegOp::Write { reg: Register::GpioaOdr, value: 0 });
        k = k + 1;
    }
    plan.push(RegOp::Modify { reg: Register::AfioExticr1, clear: 0xf << 4, set: 0 });
    plan.push(RegOp::Modify { reg: Register::ExtiImr, clear: 1 << 1, set: 1 << 1 });
    plan.push(RegOp::Modify { reg: Register::ExtiFtsr, clear: 1 << 1, set: 1 << 1 });
    assert(plan@ =~= init_plan());
    plan
}

/// Start-up leaves the hall sensor line EXTI1 unmasked and triggered on
/// falling edges, and routes it to port A, whatever the registers held
/// before.
pub proof fn lemma_init_enables_hall_sensor(imr: u32, ftsr: u32, exticr1: u32)
    ensures
        final_value(init_plan(), Register::ExtiImr, imr) & 0x2u32 == 0x2u32,
        final_value(init_plan(), Register::ExtiFtsr, ftsr) & 0x2u32 == 0x2u32,
        final_value(init_plan(), Register::AfioExticr1, exticr1) & 0xf0u32 == 0u32,
{
    reveal_with_fuel(value_after, 32);
    assert(1u32 << 1u32 == 0x2u32) by (bit_vector);
    assert(0xfu32 << 4u32 == 0xf0u32) by (bit_vector);
    let a = value_after(init_plan(), Register::ExtiImr, imr, 29);
    let b = value_after(init_plan(), Register::ExtiFtsr, ftsr, 30);
    let c = value_after(init_plan(), Register::AfioExticr1, exticr1, 28);
    let p = init_plan();
    assert(p.len() == 31);
    assert(p[29] == RegOp::Modify { reg: Register::ExtiImr, clear: 0x2u32, set: 0x2u32 });
    assert(p[30] == RegOp::Modify { reg: Register::ExtiFtsr, clear: 0x2u32, set: 0x2u32 });
    assert(value_after(p, Register::ExtiImr, imr, 30) == (a & !0x2u32) | 0x2u32);
    assert(value_after(p, Register::ExtiImr, imr, 31) == value_after(p, Register::ExtiImr, imr, 30));
    assert(value_after(p, Register::ExtiFtsr, ftsr, 31) == (b & !0x2u32) | 0x2u32);
    assert(((a & !0x2u32) | 0x2u32) & 0x2u32 == 0x2u32) by (bit_vector);
    assert(((b & !0x2u32) | 0x2u32) & 0x2u32 == 0x2u32) by (bit_vector);
    assert(p[28] == RegOp::Modify { reg: Register::AfioExticr1, clear: 0xf0u32, set: 0u32 });
    assert(value_after(p, Register::AfioExticr1, exticr1, 29) == (c & !0xf0u32) | 0u32);
    assert(((c & !0xf0u32) | 0u32) & 0xf0u32 == 0u32) by (bit_vector);
}

/// Start-up sets the slot timer TIM2 to 100 kHz with reload 25, its update
/// interrupt and counter on, and the revolution timer TIM3 to 1 MHz over the
/// full 16 bits with its counter on, whatever the registers held before.
pub proof fn lemma_init_sets_timers(start: u32)
    ensures
        final_value(init_plan(), Register::Tim2Psc, start) == 79,
        final_value(init_plan(), Register::Tim2Arr, start) == 25,
        final_value(init_plan(), Register::Tim2Dier, start) == 1,
        final_value(init_plan(), Register::Tim2Egr, start) == 1,
        final_value(init_plan(), Register::Tim2Cr1, start) & 1 == 1,
        final_value(init_plan(), Register::Tim3Egr, start) == 1,
        final_value(init_plan(), Register::Tim3Psc, start) == 7,
        final_value(init_plan(), Register::Tim3Arr, start) == 0xffff,
        final_value(init_plan(), Register::Tim3Cr1, start) & 1 == 1,
{
    reveal_with_fuel(value_after, 32);
    assert(1u32 & 1 == 1) by (bit_vector);
}

/// Start-up makes PA7 to PA2 (the five LEDs and PA2) push-pull outputs at
/// 50 MHz, all low, keeps the other pins of port A, turns on the clocks of
/// ports A and C and of both timers, and makes PC13 an output.
pub proof fn lemma_init_sets_outputs(crl: u32, odr: u32, apb2: u32, apb1: u32, crh: u32)
    ensures
        final_value(init_plan(), Register::GpioaCrl, crl) & 0xffff_ff00u32 == 0x3333_3300u32,
        final_value(init_plan(), Register::GpioaCrl, crl) & 0xffu32 == crl & 0xffu32,
        final_value(init_plan(), Register::GpioaOdr, odr) == 0,
        final_value(init_plan(), Register::RccApb2enr, apb2) & 0x14u32 == 0x14u32,
        final_value(init_plan(), Register::RccApb1enr, apb1) & 0x3u32 == 0x3u32,
        final_value(init_plan(), Register::GpiocCrh, crh) == 0x4454_4444u32,
{
    reveal_with_fuel(value_after, 32);
    lemma_led_pin_output();
    let x = value_after(init_plan(), Register::GpioaCrl, crl, 16);
    assert(x == crl);
    let y = ((((((((((((x & !(0xfu32 << 28u32)) | (3u32 << 28u32)) & !(0xfu32 << 24u32)) | (3u32
        << 24u32)) & !(0xfu32 << 20u32)) | (3u32 << 20u32)) & !(0xfu32 << 16u32)) | (3u32 << 16u32))
        & !(0xfu32 << 12u32)) | (3u32 << 12u32)) & !(0xfu32 << 8u32)) | (3u32 << 8u32));
    assert(final_value(init_plan(), Register::GpioaCrl, crl) == y);
    assert(y & 0xffff_ff00u32 == 0x3333_3300u32 && y & 0xffu32 == x & 0xffu32) by (bit_vector)
        requires
            y == ((((((((((((x & !(0xfu32 << 28u32)) | (3u32 << 28u32)) & !(0xfu32 << 24u32)) | (3u32
                << 24u32)) & !(0xfu32 << 20u32)) | (3u32 << 20u32)) & !(0xfu32 << 16u32)) | (3u32
                << 16u32)) & !(0xfu32 << 12u32)) | (3u32 << 12u32)) & !(0xfu32 << 8u32)) | (3u32
                << 8u32)),
    ;
    assert(((((1u32 << 4u32) & !(1u32 << 2u32)) | (1u32 << 2u32)) & 0x14u32) == 0x14u32) by (bit_vector);
    let a1 = apb1;
    assert(((((a1 & !1u32) | 1u32) & !(1u32 << 1u32)) | (1u32 << 1u32)) & 0x3u32 == 0x3u32) by (bit_vector);
}

/// The text holds six columns per character: column `j` of character `i` is
/// column `6 * i + j` of the text.
pub proof fn lemma_text_layout(glyphs: Seq<Glyph>)
    ensures
        columns_of(glyphs).len() == 6 * glyphs.len(),
        forall|i: int, j: int|
            0 <= i < glyphs.len() && 0 <= j < 6 ==> #[trigger] columns_of(glyphs)[6 * i + j]
                == glyphs[i]@[j],
    decreases glyphs.len(),
{
    if glyphs.len() > 0 {
        let init = glyphs.drop_last();
        lemma_text_layout(init);
        assert forall|i: int, j: int|
            0 <= i < glyphs.len() && 0 <= j < 6 implies #[trigger] columns_of(glyphs)[6 * i + j]
            == glyphs[i]@[j] by {
            if i < glyphs.len() - 1 {
                assert(init[i] == glyphs[i]);
                assert(columns_of(init)[6 * i + j] == init[i]@[j]);
            } else {
                assert(glyphs.last() == glyphs[i]);
            }
        }
    }
}

/// The slot timer reload is the revolution time times the slot angle while
/// that lies within `[RELOAD_MIN, RELOAD_MAX]`, and the nearer bound outside;
/// a longer revolution never gets a shorter slot.
pub proof fn lemma_slot_reload_clamps(t: u32, u: u32)
    requires
        t * 6 <= u32::MAX,
        u * 6 <= u32::MAX,
    ensures
        10 <= t * 6 <= 0xffff ==> slot_reload_spec(t) == t * 6,
        t * 6 < 10 ==> slot_reload_spec(t) == 10,
        t * 6 > 0xffff ==> slot_reload_spec(t) == 0xffff,
        t <= u ==> slot_reload_spec(t) <= slot_reload_spec(u),
{
}

} // verus!
