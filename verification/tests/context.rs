use mist::context::{is_hardware_breakpoint_exception, u32_from_bytes, Edit};
use mist::system::{ContextPart, ThreadContext};

fn registers(part: ContextPart) -> ThreadContext {
    ThreadContext {
        part,
        ebp: 1,
        eip: 0x40_1000,
        seg_cs: 2,
        eflags: 0x202,
        esp: 3,
        seg_ss: 4,
        dr0: 10,
        dr1: 11,
        dr2: 12,
        dr3: 13,
        dr6: 0xffff_0ff1,
        dr7: 0xffff_ffff,
    }
}

#[test]
fn the_trap_flag_is_one_bit() {
    let before = registers(ContextPart::Control);
    let set = Edit::EnableTrap.apply(before);
    assert_eq!(set.eflags, 0x302);
    assert_eq!(Edit::ClearTrap.apply(set), before);
    assert_eq!(Edit::ClearTrap.apply(before), before);
    assert_eq!(Edit::EnableTrap.part(), ContextPart::Control);
}

#[test]
fn stepping_back_stops_at_zero() {
    let mut before = registers(ContextPart::Control);
    assert_eq!(Edit::StepBack.apply(before).eip, 0x40_0fff);
    before.eip = 0;
    assert_eq!(Edit::StepBack.apply(before), before);
}

#[test]
fn a_filled_slot_stops_on_execution() {
    let mut before = registers(ContextPart::Debug);
    before.dr7 = 0;
    let edit = Edit::HardwareSlot { slot: 2, address: Some(0x1234) };
    let after = edit.apply(before);
    assert_eq!(edit.part(), ContextPart::Debug);
    assert_eq!((after.dr0, after.dr1, after.dr2, after.dr3), (10, 11, 0x1234, 13));
    assert_eq!(after.dr7, 0x10);
    assert_eq!(after.dr6, 0);
    assert_eq!(after.eip, before.eip);
}

#[test]
fn slots_share_dr7_without_touching_each_other() {
    let before = registers(ContextPart::Debug);
    let slot = |slot: usize, address: Option<u32>| Edit::HardwareSlot { slot, address }.apply(before).dr7;
    assert_eq!(slot(0, Some(1)), 0xfff0_ffff);
    assert_eq!(slot(1, None), 0xff0f_fffb);
    assert_eq!(slot(2, None), 0xf0ff_ffef);
    assert_eq!(slot(3, None), 0x0fff_ffbf);
}

#[test]
fn an_emptied_slot_holds_zero() {
    let after = Edit::HardwareSlot { slot: 3, address: None }.apply(registers(ContextPart::Debug));
    assert_eq!(after.dr3, 0);
    assert_eq!(after.dr0, 10);
}

#[test]
fn there_are_four_slots() {
    assert!(Edit::HardwareSlot { slot: 3, address: None }.is_in_range());
    assert!(!Edit::HardwareSlot { slot: 4, address: None }.is_in_range());
    assert!(Edit::ClearStatus.is_in_range());
}

#[test]
fn the_low_bits_of_dr6_tell_a_hit() {
    let mut context = registers(ContextPart::Debug);
    assert!(is_hardware_breakpoint_exception(&context));
    assert_eq!(Edit::ClearStatus.apply(context).dr6, 0);
    context.dr6 = 0xffff_fff0;
    assert!(!is_hardware_breakpoint_exception(&context));
}

#[test]
fn numbers_are_little_endian() {
    assert_eq!(u32_from_bytes(&vec![0x78, 0x56, 0x34, 0x12]), 0x1234_5678);
    assert_eq!(u32_from_bytes(&vec![0xff, 0xff, 0xff, 0xff]), u32::MAX);
}
