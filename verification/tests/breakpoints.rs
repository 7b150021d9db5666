use mist::breakpoints::{
    clear_function_symbols, current_generation, mist_clear_function_symbols,
    mist_register_function_symbol_rva, mist_register_function_symbol_va,
    register_function_symbol_rva, register_function_symbol_va, set_image_base,
    set_requested_function_breakpoints, take_desired_function_breakpoint_addresses,
    BreakpointState,
};
use mist::symbols::BareDigits;

fn requests(names: &[&str]) -> Vec<String> {
    names.iter().map(|name| name.to_string()).collect()
}

#[test]
fn nothing_is_taken_before_the_first_change() {
    let state = BreakpointState::default();
    let mut seen: u64 = 0;
    assert_eq!(current_generation(&state), 0);
    assert_eq!(take_desired_function_breakpoint_addresses(&state, &mut seen), None);
    assert_eq!(seen, 0);
}

#[test]
fn requests_are_taken_once() {
    let mut state = BreakpointState::default();
    let mut seen: u64 = 0;
    let known = set_requested_function_breakpoints(&mut state, requests(&["0x10", "main"]));
    assert_eq!(known, vec![true, false]);
    assert_eq!(take_desired_function_breakpoint_addresses(&state, &mut seen), Some(vec![0x10]));
    assert_eq!(seen, 1);
    assert_eq!(take_desired_function_breakpoint_addresses(&state, &mut seen), None);
    register_function_symbol_va(&mut state, "main", 0x20);
    assert_eq!(
        take_desired_function_breakpoint_addresses(&state, &mut seen),
        Some(vec![0x10, 0x20])
    );
}

#[test]
fn only_four_distinct_addresses_are_taken() {
    let mut state = BreakpointState::default();
    let mut seen: u64 = 0;
    set_requested_function_breakpoints(
        &mut state,
        requests(&["1", "2", "0x1", "3", "nowhere", "4", "5"]),
    );
    assert_eq!(
        take_desired_function_breakpoint_addresses(&state, &mut seen),
        Some(vec![1, 2, 3, 4])
    );
}

#[test]
fn requests_of_bare_digits_are_decimal() {
    let mut state = BreakpointState::default();
    let mut seen: u64 = 0;
    set_requested_function_breakpoints(&mut state, requests(&["16", "0x10", "401000", "1f"]));
    assert_eq!(
        take_desired_function_breakpoint_addresses(&state, &mut seen),
        Some(vec![16, 401_000, 0x1f])
    );
}

#[test]
fn the_image_base_is_recorded_once() {
    let mut state = BreakpointState::default();
    set_image_base(&mut state, 0x40_0000);
    assert_eq!(current_generation(&state), 1);
    set_image_base(&mut state, 0x40_0000);
    assert_eq!(current_generation(&state), 1);
    set_image_base(&mut state, 0);
    assert_eq!(current_generation(&state), 2);
}

#[test]
fn every_change_has_its_generation() {
    let mut state = BreakpointState::default();
    register_function_symbol_rva(&mut state, "f", 1);
    register_function_symbol_va(&mut state, "g", 2);
    clear_function_symbols(&mut state);
    assert_eq!(current_generation(&state), 3);
    assert_eq!(set_requested_function_breakpoints(&mut state, requests(&["g"])), vec![false]);
    assert_eq!(current_generation(&state), 4);
}

#[test]
fn the_generation_skips_zero_when_it_wraps() {
    let mut state = BreakpointState::default();
    state.generation = u64::MAX;
    clear_function_symbols(&mut state);
    assert_eq!(current_generation(&state), 1);
}

#[test]
fn offsets_need_the_image_base() {
    let mut state = BreakpointState::default();
    let mut seen: u64 = 0;
    register_function_symbol_rva(&mut state, "main", 0x1000);
    assert_eq!(set_requested_function_breakpoints(&mut state, requests(&["main"])), vec![true]);
    assert_eq!(take_desired_function_breakpoint_addresses(&state, &mut seen), Some(vec![]));
    set_image_base(&mut state, 0x40_0000);
    assert_eq!(take_desired_function_breakpoint_addresses(&state, &mut seen), Some(vec![0x40_1000]));
}

#[test]
fn a_missing_name_registers_nothing() {
    let mut state = BreakpointState::default();
    mist_register_function_symbol_rva(&mut state, None, 1);
    mist_register_function_symbol_va(&mut state, None, 1);
    assert_eq!(current_generation(&state), 0);
    mist_register_function_symbol_rva(&mut state, Some("f".to_string()), 1);
    mist_register_function_symbol_va(&mut state, Some("g".to_string()), 1);
    assert_eq!(current_generation(&state), 2);
    assert!(state.symbols.knows("f", BareDigits::Decimal) && state.symbols.va.contains_key("g"));
    mist_clear_function_symbols(&mut state);
    assert!(!state.symbols.va.contains_key("g"));
    assert_eq!(current_generation(&state), 3);
}
