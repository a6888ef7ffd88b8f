use dwarf_symbols::location::{evaluate, next_action, Action, RESUME_LIMIT};
use dwarf_symbols::machine::Step;
use dwarf_symbols::model::Encoding;

fn unit_encoding() -> Encoding {
    Encoding { little_endian: true, address_size: 8, dwarf64: false, version: 4 }
}

#[test]
fn frame_relative_constant_is_the_offset() {
    // DW_OP_fbreg -8
    assert_eq!(evaluate(unit_encoding(), &[0x91, 0x78]), Some(-8));
    // DW_OP_fbreg 16
    assert_eq!(evaluate(unit_encoding(), &[0x91, 0x10]), Some(16));
    // DW_OP_fbreg -20
    assert_eq!(evaluate(unit_encoding(), &[0x91, 0x6c]), Some(-20));
    // DW_OP_fbreg 0
    assert_eq!(evaluate(unit_encoding(), &[0x91, 0x00]), Some(0));
}

#[test]
fn register_request_has_no_static_offset() {
    // DW_OP_breg7 8
    assert_eq!(evaluate(unit_encoding(), &[0x77, 0x08]), None);
    // DW_OP_addr: asks for a relocated address
    assert_eq!(evaluate(unit_encoding(), &[0x03, 0, 0, 0, 0, 0, 0, 0, 0]), None);
    // DW_OP_call_frame_cfa
    assert_eq!(evaluate(unit_encoding(), &[0x9c]), None);
}

#[test]
fn constants_need_no_frame_base() {
    // DW_OP_lit5
    assert_eq!(evaluate(unit_encoding(), &[0x35]), Some(5));
    // DW_OP_const2u 0x0102, little and big endian
    assert_eq!(evaluate(unit_encoding(), &[0x0a, 0x02, 0x01]), Some(0x0102));
    let big = Encoding { little_endian: false, ..unit_encoding() };
    assert_eq!(evaluate(big, &[0x0a, 0x02, 0x01]), Some(0x0201));
    // DW_OP_fbreg 8, DW_OP_plus_uconst 4
    assert_eq!(evaluate(unit_encoding(), &[0x91, 0x08, 0x23, 0x04]), Some(12));
}

#[test]
fn malformed_expressions_have_no_offset() {
    // empty: nothing on the stack
    assert_eq!(evaluate(unit_encoding(), &[]), None);
    // DW_OP_fbreg with its operand cut off
    assert_eq!(evaluate(unit_encoding(), &[0x91]), None);
    // an opcode that does not exist
    assert_eq!(evaluate(unit_encoding(), &[0xff]), None);
    // DW_OP_plus on an empty stack
    assert_eq!(evaluate(unit_encoding(), &[0x22]), None);
}

#[test]
fn an_expression_that_never_ends_is_given_up() {
    // DW_OP_skip -3: jumps back onto itself
    assert_eq!(evaluate(unit_encoding(), &[0x2f, 0xfd, 0xff]), None);
    // DW_OP_fbreg 0, DW_OP_skip -5: asks for the frame base over and over
    assert_eq!(evaluate(unit_encoding(), &[0x91, 0x00, 0x2f, 0xfb, 0xff]), None);
}

#[test]
fn an_address_size_beyond_eight_has_no_offset() {
    let wide = Encoding { address_size: 9, ..unit_encoding() };
    assert_eq!(evaluate(wide, &[0x91, 0x78]), None);
    // The result is read under a mask of all 64 bits, whatever the address size.
    let narrow = Encoding { address_size: 4, ..unit_encoding() };
    assert_eq!(evaluate(narrow, &[0x91, 0x78]), Some(-8));
    let eight = Encoding { address_size: 8, ..unit_encoding() };
    assert_eq!(evaluate(eight, &[0x91, 0x78]), Some(-8));
}

#[test]
fn next_action_follows_the_stop() {
    assert_eq!(next_action(Step::Complete, 0), Action::ReadResult);
    assert_eq!(next_action(Step::Complete, RESUME_LIMIT), Action::ReadResult);
    assert_eq!(next_action(Step::NeedsFrameBase, 0), Action::SupplyFrameBase);
    assert_eq!(next_action(Step::NeedsFrameBase, RESUME_LIMIT - 1), Action::SupplyFrameBase);
    assert_eq!(next_action(Step::NeedsFrameBase, RESUME_LIMIT), Action::GiveUp);
    assert_eq!(next_action(Step::Unsupported, 0), Action::GiveUp);
    assert_eq!(next_action(Step::Failed, 3), Action::GiveUp);
}
