use sh1106::buffer::Rect;
use sh1106::graphics::{Clear, GraphicsMode};
use sh1106::interface::{DisplayInterface, OutputPin};
use sh1106::prelude::{DisplayProperties, DisplayRotation, DisplaySize};
use sh1106::test_helpers::{I2cStub, PinStub, SentPacket};

fn new_props(
    size: DisplaySize,
    rotation: DisplayRotation,
) -> DisplayProperties<I2cStub> {
    DisplayProperties::new(I2cStub::new(), size, rotation)
}

fn data_packets(sent: &[SentPacket]) -> Vec<&SentPacket> {
    sent.iter().filter(|p| p.is_data).collect()
}

#[test]
fn init_sequence_bytes_in_order() {
    let mut props = new_props(DisplaySize::Display128x64, DisplayRotation::Rotate0);
    props.init_column_mode().unwrap();
    let stub = props.release();

    let expected: Vec<Vec<u8>> = vec![
        vec![0xAE],       // display off
        vec![0xD5, 0x80], // clock divider
        vec![0xA8, 0x3F], // multiplex = height - 1
        vec![0xD3, 0x00], // no vertical offset
        vec![0x40],       // start line 0
        vec![0xAD, 0x8B], // charge pump on
        vec![0xA1],       // segment remap for no rotation
        vec![0xC8],       // reversed COM scan for no rotation
        vec![0xDA, 0x12], // alternative COM pin configuration
        vec![0x81, 0x80], // default contrast
        vec![0x22, 0xF1], // precharge periods
        vec![0x35, 0x40], // VCOM deselect level auto
        vec![0xA4],       // all-on disabled
        vec![0xA6],       // invert disabled
        vec![0xAF],       // display on
    ];
    assert_eq!(stub.sent.len(), expected.len());
    for (packet, want) in stub.sent.iter().zip(expected.iter()) {
        assert!(!packet.is_data);
        assert_eq!(&packet.bytes, want);
    }
}

#[test]
fn init_128x32_uses_sequential_com_pins() {
    let mut props = new_props(DisplaySize::Display128x32, DisplayRotation::Rotate0);
    props.init_column_mode().unwrap();
    let stub = props.release();

    assert_eq!(stub.sent[2].bytes, vec![0xA8, 0x1F]); // multiplex 31
    assert_eq!(stub.sent[8].bytes, vec![0xDA, 0x02]); // sequential COM pins
}

#[test]
fn rotation_rotate90_issues_segment_remap_then_reverse_com_dir() {
    let mut props = new_props(DisplaySize::Display128x64, DisplayRotation::Rotate0);
    props.set_rotation(DisplayRotation::Rotate90).unwrap();
    let stub = props.release();

    assert_eq!(stub.sent.len(), 2);
    assert!(!stub.sent[0].is_data);
    assert!(!stub.sent[1].is_data);
    assert_eq!(stub.sent[0].bytes, vec![0xA0]); // SegmentRemap(false)
    assert_eq!(stub.sent[1].bytes, vec![0xC8]); // ReverseComDir(true)
}

#[test]
fn rotation_truth_table() {
    let cases = vec![
        (DisplayRotation::Rotate0, 0xA1u8, 0xC8u8),
        (DisplayRotation::Rotate90, 0xA0, 0xC8),
        (DisplayRotation::Rotate180, 0xA0, 0xC0),
        (DisplayRotation::Rotate270, 0xA1, 0xC0),
    ];
    for (rotation, remap, comdir) in cases {
        let mut props = new_props(DisplaySize::Display128x64, DisplayRotation::Rotate0);
        props.set_rotation(rotation).unwrap();
        let stub = props.release();
        assert_eq!(stub.sent[0].bytes, vec![remap]);
        assert_eq!(stub.sent[1].bytes, vec![comdir]);
    }
}

#[test]
fn set_contrast_sends_contrast_command() {
    let mut props = new_props(DisplaySize::Display128x64, DisplayRotation::Rotate0);
    props.set_contrast(0x42).unwrap();
    let stub = props.release();
    assert_eq!(stub.sent.len(), 1);
    assert_eq!(stub.sent[0].bytes, vec![0x81, 0x42]);
}

#[test]
fn set_draw_area_sends_page_and_column_addresses() {
    let mut props = new_props(DisplaySize::Display128x64, DisplayRotation::Rotate0);
    props.set_draw_area((0x25, 10), (0x30, 34)).unwrap();
    let stub = props.release();
    assert_eq!(stub.sent.len(), 3);
    assert_eq!(stub.sent[0].bytes, vec![0xB1]); // row 10 is page 1
    assert_eq!(stub.sent[1].bytes, vec![0x05]); // low column nibble
    assert_eq!(stub.sent[2].bytes, vec![0x12]); // high column nibble
}

#[test]
fn draw_one_page_row_issues_one_address_set_and_one_data_send() {
    let mut props = new_props(DisplaySize::Display128x64, DisplayRotation::Rotate0);
    props.set_draw_area((0, 0), (4, 16)).unwrap();
    props.draw(&[1, 2, 3, 4]).unwrap();
    let stub = props.release();

    // window address from set_draw_area
    assert_eq!(stub.sent[0].bytes, vec![0xB0]);
    assert_eq!(stub.sent[1].bytes, vec![0x00]);
    assert_eq!(stub.sent[2].bytes, vec![0x10]);
    // exactly one data send for one page-row
    assert!(stub.sent[3].is_data);
    assert_eq!(stub.sent[3].bytes, vec![1, 2, 3, 4]);
    // the wrap re-issues the address one page (8 rows) down
    assert_eq!(stub.sent[4].bytes, vec![0xB1]);
    assert_eq!(stub.sent[5].bytes, vec![0x00]);
    assert_eq!(stub.sent[6].bytes, vec![0x10]);
    assert_eq!(stub.sent.len(), 7);
    assert_eq!(data_packets(&stub.sent).len(), 1);
}

#[test]
fn draw_two_page_rows_advances_row_by_eight_between_data_sends() {
    let mut props = new_props(DisplaySize::Display128x64, DisplayRotation::Rotate0);
    props.set_draw_area((0, 0), (4, 16)).unwrap();
    props.draw(&[1, 2, 3, 4, 5, 6, 7, 8]).unwrap();
    let stub = props.release();

    assert_eq!(data_packets(&stub.sent).len(), 2);
    // first page-row
    assert!(stub.sent[3].is_data);
    assert_eq!(stub.sent[3].bytes, vec![1, 2, 3, 4]);
    // address between the sends is exactly one page (8 rows) further
    assert_eq!(stub.sent[4].bytes, vec![0xB1]);
    // second page-row
    assert!(stub.sent[7].is_data);
    assert_eq!(stub.sent[7].bytes, vec![5, 6, 7, 8]);
    // afterwards the row wraps back to the window top
    assert_eq!(stub.sent[8].bytes, vec![0xB0]);
    assert_eq!(stub.sent.len(), 11);
}

#[test]
fn draw_empty_buffer_is_a_successful_noop() {
    let mut props = new_props(DisplaySize::Display128x64, DisplayRotation::Rotate0);
    props.set_draw_area((0, 0), (4, 16)).unwrap();
    props.draw(&[]).unwrap();
    let stub = props.release();
    // only the window address from set_draw_area went out
    assert_eq!(stub.sent.len(), 3);
}

#[test]
fn pin_stub_always_succeeds() {
    let mut p = PinStub;
    assert!(p.set_low().is_ok());
    assert!(p.set_high().is_ok());
}

#[test]
fn end_to_end_flush_writes_eight_pages() {
    let props = new_props(DisplaySize::Display128x64, DisplayRotation::Rotate0);
    let mut display = GraphicsMode::new(props);
    display.init().unwrap();
    display.set_pixel(0, 0, 1);
    display.set_pixel(127, 63, 1);
    display.flush().unwrap();
    let stub = display.release().release();

    // bring-up is 15 command packets, then 8 page-writes of
    // (3 address commands, 1 data send, 3 re-issued address commands) each
    assert_eq!(stub.sent.len(), 15 + 8 * 7);
    let datas = data_packets(&stub.sent);
    assert_eq!(datas.len(), 8);
    for d in &datas {
        assert_eq!(d.bytes.len(), 128);
    }
    // only the first and last pages hold data
    assert_eq!(datas[0].bytes[0], 0x01);
    assert!(datas[0].bytes[1..].iter().all(|&b| b == 0));
    assert_eq!(datas[7].bytes[127], 0x80);
    assert!(datas[7].bytes[..127].iter().all(|&b| b == 0));
    for p in 1..7 {
        assert!(datas[p].bytes.iter().all(|&b| b == 0));
    }
    // the first page-write addresses page 0 at the panel's column offset
    assert_eq!(stub.sent[15].bytes, vec![0xB0]);
    assert_eq!(stub.sent[16].bytes, vec![0x02]);
    assert_eq!(stub.sent[17].bytes, vec![0x10]);
}

#[test]
fn flush_untouched_buffer_sends_nothing() {
    let props = new_props(DisplaySize::Display128x64, DisplayRotation::Rotate0);
    let mut display = GraphicsMode::new(props);
    display.init().unwrap();
    let before = 15;
    display.flush().unwrap();
    let stub = display.release().release();
    assert_eq!(stub.sent.len(), before);
}

#[test]
fn flush_only_touched_page_rows() {
    let props = new_props(DisplaySize::Display128x64, DisplayRotation::Rotate0);
    let mut display = GraphicsMode::new(props);
    display.set_pixel(4, 10, 1);
    display.flush().unwrap();
    let stub = display.release().release();

    // one touched pixel: one page-write of a single byte
    let datas = data_packets(&stub.sent);
    assert_eq!(datas.len(), 1);
    assert_eq!(datas[0].bytes, vec![1 << 2]); // row 10 is bit 2 of page 1
    assert_eq!(stub.sent[0].bytes, vec![0xB1]); // page 1
    assert_eq!(stub.sent[1].bytes, vec![0x06]); // column 4 + offset 2
    assert_eq!(stub.sent[2].bytes, vec![0x10]);
}

#[test]
fn clear_buffer_and_display_writes_eight_zero_pages() {
    let props = new_props(DisplaySize::Display128x64, DisplayRotation::Rotate0);
    let mut display = GraphicsMode::new(props);
    display.set_pixel(10, 20, 1);
    display.clear(Clear::BufferAndDisplay).unwrap();
    assert_eq!(display.get_pixel(10, 20), Some(false));
    // the buffer is untouched again: a flush sends nothing more
    display.flush().unwrap();
    let stub = display.release().release();

    let datas = data_packets(&stub.sent);
    assert_eq!(datas.len(), 8);
    for d in &datas {
        assert_eq!(d.bytes.len(), 128);
        assert!(d.bytes.iter().all(|&b| b == 0));
    }
    // each page addressed at the panel's column offset
    assert_eq!(stub.sent[0].bytes, vec![0xB0]);
    assert_eq!(stub.sent[1].bytes, vec![0x02]);
    assert_eq!(stub.sent[2].bytes, vec![0x10]);
    assert_eq!(stub.sent.len(), 8 * 7);
}

#[test]
fn clear_buffer_only_sends_nothing() {
    let props = new_props(DisplaySize::Display128x64, DisplayRotation::Rotate0);
    let mut display = GraphicsMode::new(props);
    display.set_pixel(10, 20, 1);
    display.clear(Clear::Buffer).unwrap();
    let stub = display.release().release();
    assert_eq!(stub.sent.len(), 0);
}

#[test]
fn set_pixel_readback_under_all_rotations() {
    let rotations = vec![
        DisplayRotation::Rotate0,
        DisplayRotation::Rotate90,
        DisplayRotation::Rotate180,
        DisplayRotation::Rotate270,
    ];
    for rotation in rotations {
        let props = new_props(DisplaySize::Display128x64, rotation);
        let mut display = GraphicsMode::new(props);
        display.set_pixel(10, 20, 1);
        assert_eq!(display.get_pixel(10, 20), Some(true));
        assert_eq!(display.get_pixel(11, 20), Some(false));
        display.set_pixel(10, 20, 0);
        assert_eq!(display.get_pixel(10, 20), Some(false));
    }
}

#[test]
fn dimensions_swap_under_rotation() {
    let props = new_props(DisplaySize::Display128x64, DisplayRotation::Rotate0);
    assert_eq!(props.get_dimensions(), (128, 64));
    let props = new_props(DisplaySize::Display128x64, DisplayRotation::Rotate90);
    assert_eq!(props.get_dimensions(), (64, 128));
    let props = new_props(DisplaySize::Display128x32, DisplayRotation::Rotate270);
    assert_eq!(props.get_dimensions(), (32, 128));
    let display = GraphicsMode::new(new_props(
        DisplaySize::Display132x64,
        DisplayRotation::Rotate180,
    ));
    assert_eq!(display.get_dimensions(), (132, 64));
}

#[test]
fn graphics_fill_solid_sets_rectangle() {
    let props = new_props(DisplaySize::Display128x64, DisplayRotation::Rotate0);
    let mut display = GraphicsMode::new(props);
    display.fill_solid(Rect { x: 1, y: 2, width: 3, height: 4 }, true);
    assert_eq!(display.get_pixel(1, 2), Some(true));
    assert_eq!(display.get_pixel(3, 5), Some(true));
    assert_eq!(display.get_pixel(4, 2), Some(false));
    assert_eq!(display.get_pixel(1, 6), Some(false));
    assert_eq!(display.get_pixel(0, 0), Some(false));
}

#[test]
fn graphics_fill_contiguous_row_major() {
    let props = new_props(DisplaySize::Display128x64, DisplayRotation::Rotate0);
    let mut display = GraphicsMode::new(props);
    let colors = [true, false, true, false];
    display.fill_contiguous(Rect { x: 0, y: 0, width: 2, height: 2 }, &colors);
    assert_eq!(display.get_pixel(0, 0), Some(true));
    assert_eq!(display.get_pixel(1, 0), Some(false));
    assert_eq!(display.get_pixel(0, 1), Some(true));
    assert_eq!(display.get_pixel(1, 1), Some(false));
}

struct FailingInterface {
    ok_sends_left: usize,
}

impl DisplayInterface for FailingInterface {
    type Error = u8;

    type Interface = ();

    fn init(&mut self) -> Result<(), u8> {
        Ok(())
    }

    fn send_commands(&mut self, _cmd: &[u8]) -> Result<(), u8> {
        if self.ok_sends_left == 0 {
            Err(42)
        } else {
            self.ok_sends_left -= 1;
            Ok(())
        }
    }

    fn send_data(&mut self, _buf: &[u8]) -> Result<(), u8> {
        if self.ok_sends_left == 0 {
            Err(42)
        } else {
            self.ok_sends_left -= 1;
            Ok(())
        }
    }

    fn release(self) {}
}

#[test]
fn transport_errors_propagate_unchanged() {
    let iface = FailingInterface { ok_sends_left: 0 };
    let mut props =
        DisplayProperties::new(iface, DisplaySize::Display128x64, DisplayRotation::Rotate0);
    assert_eq!(props.set_rotation(DisplayRotation::Rotate90), Err(42));

    let iface = FailingInterface { ok_sends_left: 4 };
    let mut props =
        DisplayProperties::new(iface, DisplaySize::Display128x64, DisplayRotation::Rotate0);
    // the bring-up aborts at the first failed send
    assert_eq!(props.init_column_mode(), Err(42));

    let iface = FailingInterface { ok_sends_left: 3 };
    let mut props =
        DisplayProperties::new(iface, DisplaySize::Display128x64, DisplayRotation::Rotate0);
    props.set_draw_area((0, 0), (4, 16)).unwrap();
    assert_eq!(props.draw(&[1, 2, 3, 4]), Err(42));
}
