use embedded_course::printer::{build_text, column_odr, init, slot_reload, Column, Glyph, IdleAction, Printer};
use embedded_course::regs::{Register, RegOp};
use embedded_course::draft;

fn glyph(seed: u8) -> Glyph {
    let mut g = [[false; 5]; 6];
    for c in 0..6 {
        for r in 0..5 {
            g[c][r] = (seed as usize + c * 5 + r) % 3 == 0;
        }
    }
    g
}

#[test]
fn text_is_the_columns_in_order() {
    let glyphs = [glyph(0), glyph(1), glyph(2)];
    let text = build_text(&glyphs);
    assert_eq!(text.len(), 18);
    for (k, col) in text.iter().enumerate() {
        assert_eq!(*col, glyphs[k / 6][k % 6]);
    }
    assert!(build_text(&[]).is_empty());
}

#[test]
fn column_register_values() {
    assert_eq!(column_odr(&[false; 5]), 0b100);
    assert_eq!(column_odr(&[true; 5]), 0b1111_1100);
    assert_eq!(column_odr(&[true, false, false, false, false]), 0b1000_0100);
    assert_eq!(column_odr(&[false, false, false, false, true]), 0b0000_1100);
}

#[test]
fn slot_reload_is_clamped() {
    assert_eq!(slot_reload(0), 10);
    assert_eq!(slot_reload(1), 10);
    assert_eq!(slot_reload(2), 12);
    assert_eq!(slot_reload(10_000), 60_000);
    assert_eq!(slot_reload(10_923), 0xffff);
    assert_eq!(slot_reload(0xffff), 0xffff);
}

#[test]
fn one_revolution_shows_every_column() {
    let cols: Vec<Column> = vec![[true; 5], [false; 5], [true, false, true, false, true]];
    let mut p = Printer::new(cols.clone());
    assert_eq!(p.idle(), IdleAction::Wait);
    assert_eq!(p.hall_sensor(1000), 6000);
    assert_eq!(p.idle(), IdleAction::RestartSlotTimer);
    let mut shown = Vec::new();
    let mut steps = 0;
    loop {
        steps += 1;
        assert!(steps < 100);
        match p.idle() {
            IdleAction::Wait => p.blink_led(),
            IdleAction::ShowColumn(v) => shown.push(v),
            IdleAction::Finished => break,
            IdleAction::RestartSlotTimer => panic!("restarted within a revolution"),
        }
    }
    let expected: Vec<u32> = cols.iter().map(|c| column_odr(c)).collect();
    assert_eq!(shown, expected);
    assert_eq!(p.idle(), IdleAction::Wait);
}

#[test]
fn each_slot_shows_one_column() {
    let mut p = Printer::new(vec![[true; 5], [true; 5]]);
    p.hall_sensor(0);
    assert_eq!(p.idle(), IdleAction::RestartSlotTimer);
    assert_eq!(p.idle(), IdleAction::Wait);
    p.blink_led();
    assert_eq!(p.idle(), IdleAction::ShowColumn(0b1111_1100));
    assert_eq!(p.idle(), IdleAction::Wait);
    p.blink_led();
    p.blink_led();
    assert_eq!(p.idle(), IdleAction::ShowColumn(0b1111_1100));
    assert_eq!(p.idle(), IdleAction::Finished);
}

#[test]
fn empty_text_finishes_at_once() {
    let mut p = Printer::new(Vec::new());
    p.hall_sensor(7);
    assert_eq!(p.idle(), IdleAction::RestartSlotTimer);
    assert_eq!(p.idle(), IdleAction::Finished);
    assert_eq!(p.idle(), IdleAction::Wait);
}

#[test]
fn device_init_plan() {
    let plan = init();
    assert_eq!(plan.len(), 31);
    assert_eq!(plan[3], RegOp::Write { reg: Register::Tim2Psc, value: 79 });
    assert_eq!(plan[4], RegOp::Write { reg: Register::Tim2Arr, value: 25 });
    let mut crl = 0x4444_4444u32;
    for op in plan.iter() {
        if op.register() == Register::GpioaCrl {
            crl = op.apply(crl);
        }
    }
    assert_eq!(crl, 0x3333_3344);
    assert_eq!(plan[28], RegOp::Modify { reg: Register::AfioExticr1, clear: 0xf0, set: 0 });
    let mut cr1 = [0u32; 2];
    for op in plan.iter() {
        match op.register() {
            Register::Tim2Cr1 => cr1[0] = op.apply(cr1[0]),
            Register::Tim3Cr1 => cr1[1] = op.apply(cr1[1]),
            _ => {}
        }
    }
    assert_eq!(cr1, [1, 1]);
}

#[test]
fn draft_init_enables_gpioc() {
    assert_eq!(draft::init(), vec![RegOp::Write { reg: Register::RccApb2enr, value: 0x10 }]);
}

#[test]
fn slot_timer_follows_revolution_time() {
    let mut p = Printer::new(Vec::new());
    assert_eq!(p.hall_sensor(0), 10);
    assert_eq!(p.hall_sensor(1), 10);
    assert_eq!(p.hall_sensor(100), 600);
    assert_eq!(p.hall_sensor(10_922), 65_532);
    assert_eq!(p.hall_sensor(0xffff), 0xffff);
}
