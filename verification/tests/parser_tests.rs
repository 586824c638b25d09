use wterm::parser::{Action, Parser, State, MAX_OSC};

fn feed_all(p: &mut Parser, bytes: &[u8]) -> Vec<Action> {
    bytes.iter().map(|b| p.feed(*b)).collect()
}

#[test]
fn new_parser_is_in_ground_state() {
    let p = Parser::new();
    assert_eq!(p.state, State::Ground);
    assert_eq!(p.param_count, 0);
    assert_eq!(p.osc_len, 0);
}

#[test]
fn printable_ascii_is_printed() {
    let mut p = Parser::new();
    assert_eq!(p.feed(b'A'), Action::Print);
    assert_eq!(p.print_char, 'A' as u32);
    assert_eq!(p.state, State::Ground);
}

#[test]
fn control_bytes_are_executed() {
    let mut p = Parser::new();
    assert_eq!(p.feed(b'\n'), Action::Execute);
    assert_eq!(p.execute_byte, b'\n');
    assert_eq!(p.feed(0x7F), Action::Execute);
    assert_eq!(p.execute_byte, 0x7F);
}

#[test]
fn utf8_two_three_and_four_byte_sequences() {
    let mut p = Parser::new();
    for ch in ['é', '€', '😀', 'ß', '中'] {
        let mut buf = [0u8; 4];
        let bytes = ch.encode_utf8(&mut buf).as_bytes().to_vec();
        let actions = feed_all(&mut p, &bytes);
        assert_eq!(*actions.last().unwrap(), Action::Print);
        assert!(actions[..actions.len() - 1].iter().all(|a| *a == Action::Nothing));
        assert_eq!(p.print_char, ch as u32);
        assert_eq!(p.state, State::Ground);
    }
}

#[test]
fn broken_utf8_falls_back_to_ground() {
    let mut p = Parser::new();
    assert_eq!(p.feed(0xC3), Action::Nothing);
    assert_eq!(p.state, State::Utf8);
    assert_eq!(p.feed(b'x'), Action::Print);
    assert_eq!(p.print_char, 'x' as u32);
    assert_eq!(p.feed(0xFF), Action::Nothing);
    assert_eq!(p.state, State::Ground);
}

#[test]
fn csi_parameters_are_collected() {
    let mut p = Parser::new();
    let actions = feed_all(&mut p, b"\x1b[12;34H");
    assert_eq!(*actions.last().unwrap(), Action::CsiDispatch);
    assert_eq!(p.execute_byte, b'H');
    assert_eq!(p.param_count, 2);
    assert_eq!(p.get_param(0, 1), 12);
    assert_eq!(p.get_param(1, 1), 34);
    assert_eq!(p.get_param(2, 7), 7);
}

#[test]
fn missing_or_zero_parameter_takes_default() {
    let mut p = Parser::new();
    feed_all(&mut p, b"\x1b[;0;5m");
    assert_eq!(p.param_count, 3);
    assert_eq!(p.get_param(0, 9), 9);
    assert_eq!(p.get_param(1, 9), 9);
    assert_eq!(p.get_param(2, 9), 5);
}

#[test]
fn parameter_saturates() {
    let mut p = Parser::new();
    feed_all(&mut p, b"\x1b[9999999A");
    assert_eq!(p.params[0], u16::MAX);
}

#[test]
fn colon_marks_subparameters() {
    let mut p = Parser::new();
    feed_all(&mut p, b"\x1b[4:3m");
    assert_eq!(p.param_count, 2);
    assert_eq!(p.params[0], 4);
    assert_eq!(p.params[1], 3);
    assert!(p.subparam[1]);
    assert!(!p.subparam[0]);
}

#[test]
fn extra_parameters_land_in_the_last_slot() {
    let mut p = Parser::new();
    let mut seq = b"\x1b[".to_vec();
    for i in 0..20 {
        seq.extend_from_slice(format!("{};", i).as_bytes());
    }
    seq.push(b'm');
    feed_all(&mut p, &seq);
    assert_eq!(p.param_count, 16);
    assert_eq!(p.params[14], 14);
}

#[test]
fn private_marker_and_intermediates() {
    let mut p = Parser::new();
    assert_eq!(*feed_all(&mut p, b"\x1b[?25h").last().unwrap(), Action::CsiDispatch);
    assert_eq!(p.csi_private, b'?');
    assert_eq!(p.execute_byte, b'h');
    assert_eq!(*feed_all(&mut p, b"\x1b[!p").last().unwrap(), Action::CsiDispatch);
    assert_eq!(p.csi_private, b'!');
    assert_eq!(*feed_all(&mut p, b"\x1b[1 q").last().unwrap(), Action::CsiDispatch);
    assert_eq!(p.intermediate_count, 1);
    assert_eq!(p.intermediates[0], b' ');
}

#[test]
fn esc_sequences_dispatch() {
    let mut p = Parser::new();
    assert_eq!(*feed_all(&mut p, b"\x1b7").last().unwrap(), Action::EscDispatch);
    assert_eq!(p.execute_byte, b'7');
    assert_eq!(*feed_all(&mut p, b"\x1b#8").last().unwrap(), Action::EscDispatch);
    assert_eq!(p.intermediates[0], b'#');
    assert_eq!(p.execute_byte, b'8');
}

#[test]
fn osc_string_ends_with_bel_or_esc() {
    let mut p = Parser::new();
    let actions = feed_all(&mut p, b"\x1b]0;title\x07");
    assert_eq!(*actions.last().unwrap(), Action::OscDispatch);
    assert_eq!(&p.osc_data[..p.osc_len as usize], b"0;title");
    let actions = feed_all(&mut p, b"\x1b]2;x\x1b\\");
    assert_eq!(actions[actions.len() - 2], Action::OscDispatch);
    assert_eq!(&p.osc_data[..p.osc_len as usize], b"2;x");
    assert_eq!(p.state, State::Ground);
}

#[test]
fn osc_string_is_truncated_at_capacity() {
    let mut p = Parser::new();
    p.feed(0x1b);
    p.feed(b']');
    for _ in 0..(MAX_OSC + 10) {
        p.feed(b'a');
    }
    assert_eq!(p.osc_len as usize, MAX_OSC);
}

#[test]
fn can_and_sub_abort_a_sequence() {
    let mut p = Parser::new();
    feed_all(&mut p, b"\x1b[12");
    assert_eq!(p.feed(0x18), Action::Nothing);
    assert_eq!(p.state, State::Ground);
    feed_all(&mut p, b"\x1b[");
    assert_eq!(p.feed(0x1A), Action::Nothing);
    assert_eq!(p.state, State::Ground);
}

#[test]
fn esc_restarts_a_sequence() {
    let mut p = Parser::new();
    feed_all(&mut p, b"\x1b[3");
    assert_eq!(p.feed(0x1b), Action::Nothing);
    assert_eq!(p.state, State::Escape);
    assert_eq!(p.intermediate_count, 0);
}

#[test]
fn invalid_csi_byte_is_ignored_until_final() {
    let mut p = Parser::new();
    feed_all(&mut p, b"\x1b[1");
    assert_eq!(p.feed(0x7F), Action::Nothing);
    assert_eq!(p.state, State::CsiIgnore);
    assert_eq!(p.feed(b'5'), Action::Nothing);
    assert_eq!(p.feed(b'm'), Action::Nothing);
    assert_eq!(p.state, State::Ground);
}

#[test]
fn control_bytes_inside_csi_are_executed() {
    let mut p = Parser::new();
    feed_all(&mut p, b"\x1b[1");
    assert_eq!(p.feed(b'\r'), Action::Execute);
    assert_eq!(p.state, State::CsiParam);
    assert_eq!(p.feed(b'A'), Action::CsiDispatch);
}
