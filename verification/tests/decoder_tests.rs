use chip8::decoder::Decoder;

#[test]
fn fields_of_a_mixed_word() {
    let op: u16 = 0xABCD;
    assert_eq!(Decoder::x(op), 0xB);
    assert_eq!(Decoder::y(op), 0xC);
    assert_eq!(Decoder::kk(op), 0xCD);
    assert_eq!(Decoder::nnn(op), 0xBCD);
    assert_eq!(Decoder::n(op), 0xD);
}

#[test]
fn fields_of_the_extremes() {
    assert_eq!(Decoder::x(0x0000), 0);
    assert_eq!(Decoder::y(0x0000), 0);
    assert_eq!(Decoder::kk(0x0000), 0);
    assert_eq!(Decoder::nnn(0x0000), 0);
    assert_eq!(Decoder::n(0x0000), 0);
    assert_eq!(Decoder::x(0xFFFF), 0xF);
    assert_eq!(Decoder::y(0xFFFF), 0xF);
    assert_eq!(Decoder::kk(0xFFFF), 0xFF);
    assert_eq!(Decoder::nnn(0xFFFF), 0xFFF);
    assert_eq!(Decoder::n(0xFFFF), 0xF);
}

#[test]
fn fields_are_independent_of_other_nibbles() {
    assert_eq!(Decoder::x(0x7A42), 0xA);
    assert_eq!(Decoder::kk(0x7A42), 0x42);
    assert_eq!(Decoder::nnn(0x1234), 0x234);
    assert_eq!(Decoder::n(0xD01F), 0xF);
    assert_eq!(Decoder::y(0xD01F), 0x1);
}
