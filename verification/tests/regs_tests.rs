use embedded_course::regs::{Register, RegOp};

#[test]
fn write_replaces_and_modify_masks() {
    let w = RegOp::Write { reg: Register::Tim2Arr, value: 25 };
    assert_eq!(w.apply(0xdead_beef), 25);
    assert_eq!(w.register(), Register::Tim2Arr);
    let m = RegOp::Modify { reg: Register::GpioaCrl, clear: 0xf000_0000, set: 0x3000_0000 };
    assert_eq!(m.apply(0x4444_4444), 0x3444_4444);
    assert_eq!(m.apply(0xffff_ffff), 0x3fff_ffff);
    let or = RegOp::Modify { reg: Register::SystCsr, clear: 0, set: 0b100 };
    assert_eq!(or.apply(0b011), 0b111);
    assert_eq!(or.apply(or.apply(0)), or.apply(0));
}
