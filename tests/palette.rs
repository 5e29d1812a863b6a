use mage_core::input::ShiftState;
use mage_core::Colour;

#[test]
fn named_colours() {
    assert_eq!(Colour::Black.colour(), 0xff000000);
    assert_eq!(Colour::White.colour(), 0xffffffff);
    assert_eq!(Colour::LightRed.colour(), 0xff0000ff);
    assert_eq!(Colour::Yellow.colour(), 0xff00ffff);
    assert_eq!(Colour::DarkGray.colour(), 0xff404040);
}

#[test]
fn rgb_colour() {
    assert_eq!(Colour::Rgb(0x12, 0x34, 0x56).colour(), 0xff563412);
    let v: u32 = Colour::Rgb(1, 2, 3).into();
    assert_eq!(v, 0xff030201);
    assert_eq!(u32::from(Colour::Blue), 0xff800000);
}

#[test]
fn shift_state_combinations() {
    let mut s = ShiftState::new();
    assert!(!s.shift_down() && !s.ctrl_down() && !s.alt_down());
    s.update(false, false, true);
    assert!(s.alt_only());
    assert!(!s.shift_alt());
    s.update(true, true, false);
    assert!(s.shift_ctrl());
    assert!(!s.shift_only());
    s.update(true, true, true);
    assert!(s.shift_ctrl_alt());
    assert!(!s.ctrl_alt());
    s.update(false, true, true);
    assert!(s.ctrl_alt());
    s.update(true, false, false);
    assert!(s.shift_only());
    s.update(false, true, false);
    assert!(s.ctrl_only());
    s.update(true, false, true);
    assert!(s.shift_alt());
    assert_eq!(ShiftState::default(), ShiftState::new());
}
