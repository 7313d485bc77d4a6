use sh1106::builder::NoOutputPin;
use sh1106::interface::OutputPin;
use sh1106::prelude::{Builder, DisplayRotation, DisplaySize};
use sh1106::Error;

enum SomeError {}

struct SomeDriver<P: OutputPin<Error = SomeError>> {
    #[allow(dead_code)]
    p: P,
}

#[test]
fn test_output_pin() {
    let p = NoOutputPin::new();
    let _d = SomeDriver { p };

    assert!(true);
}

#[test]
fn no_output_pin_always_succeeds() {
    let mut p: NoOutputPin<()> = NoOutputPin::new();
    assert!(p.set_low().is_ok());
    assert!(p.set_high().is_ok());
}

#[test]
fn builder_defaults() {
    let b = Builder::new();
    assert!(matches!(b.display_size, DisplaySize::Display128x64));
    assert!(matches!(b.rotation, DisplayRotation::Rotate0));
    assert_eq!(b.i2c_addr, 0x3c);
}

#[test]
fn builder_options() {
    let b = Builder::new()
        .with_size(DisplaySize::Display128x32)
        .with_rotation(DisplayRotation::Rotate180)
        .with_i2c_addr(0x3d);
    assert!(matches!(b.display_size, DisplaySize::Display128x32));
    assert!(matches!(b.rotation, DisplayRotation::Rotate180));
    assert_eq!(b.i2c_addr, 0x3d);
}

#[test]
fn error_variants() {
    let comm: Error<u8, ()> = Error::Comm(7);
    let pin: Error<(), u8> = Error::Pin(9);
    assert!(matches!(comm, Error::Comm(7)));
    assert!(matches!(pin, Error::Pin(9)));
}

#[test]
fn display_size_dimensions() {
    assert_eq!(DisplaySize::Display128x64.dimensions(), (128, 64));
    assert_eq!(DisplaySize::Display128x64NoOffset.dimensions(), (128, 64));
    assert_eq!(DisplaySize::Display128x32.dimensions(), (128, 32));
    assert_eq!(DisplaySize::Display132x64.dimensions(), (132, 64));
}

#[test]
fn display_size_column_offset() {
    assert_eq!(DisplaySize::Display128x64.column_offset(), 2);
    assert_eq!(DisplaySize::Display128x64NoOffset.column_offset(), 0);
    assert_eq!(DisplaySize::Display128x32.column_offset(), 2);
    assert_eq!(DisplaySize::Display132x64.column_offset(), 0);
}
