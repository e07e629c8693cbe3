use sprite_widgets::{
    Display, FlashSprite, FxCommand, FxDisplay, Glyphs, Link, LinkRead, Point, RenderRequest, Size,
};

#[derive(Default)]
struct Bus {
    writes: Vec<(u8, Vec<u8>)>,
    fail_at: Option<usize>,
}

impl Link for Bus {
    type Error = ();

    fn write(&mut self, address: u8, bytes: &[u8]) -> Result<(), ()> {
        self.writes.push((address, bytes.to_vec()));
        if Some(self.writes.len()) == self.fail_at {
            Err(())
        } else {
            Ok(())
        }
    }
}

impl LinkRead for Bus {
    type Error = ();

    fn write_read(&mut self, address: u8, bytes: &[u8], buffer: &mut [u8; 4]) -> Result<(), ()> {
        self.writes.push((address, bytes.to_vec()));
        *buffer = [9, 8, 7, 6];
        Ok(())
    }
}

static BITMAP: [u8; 600] = [0xaa; 600];

#[test]
fn upload_splits_bitmap_into_link_sized_writes() {
    let sprite = FlashSprite::new(5, 3, Size::new(8, 8), &BITMAP);
    let mut fx: FxDisplay<Bus, 0x20, 0> = FxDisplay::new(Bus::default(), []);
    assert!(fx.upload_sprite(&sprite).is_ok());
    let bus = fx.release();
    let sizes: Vec<usize> = bus.writes.iter().map(|w| w.1.len()).collect();
    assert_eq!(sizes, vec![2, 4, 255, 255, 90]);
    assert_eq!(bus.writes[0], (0x20, vec![0x81, 5]));
    assert_eq!(bus.writes[1], (0x20, vec![5, 8, 8, 3]));
}

#[test]
fn upload_stops_at_first_failure() {
    let sprite = FlashSprite::new(5, 3, Size::new(8, 8), &BITMAP);
    let bus = Bus { writes: Vec::new(), fail_at: Some(3) };
    let mut fx: FxDisplay<Bus, 0x20, 0> = FxDisplay::new(bus, []);
    assert!(fx.upload_sprite(&sprite).is_err());
    assert_eq!(fx.link().writes.len(), 3);
}

#[test]
fn delete_sends_command_then_confirmation() {
    let mut fx: FxDisplay<Bus, 0x20, 0> = FxDisplay::new(Bus::default(), []);
    assert!(fx.delete_sprite(4).is_ok());
    assert_eq!(fx.link().writes, vec![(0x20, vec![0x82, 4]), (0x20, vec![4, b'd', b'e', b'l'])]);
}

#[test]
fn write_register_sends_header_then_value() {
    let mut fx: FxDisplay<Bus, 0x20, 0> = FxDisplay::new(Bus::default(), []);
    assert!(fx.write_register(3, &[1, 2]).is_ok());
    assert_eq!(fx.link().writes, vec![(0x20, vec![0x80, 3]), (0x20, vec![1, 2])]);
}

#[test]
fn write_register_stops_when_header_fails() {
    let bus = Bus { writes: Vec::new(), fail_at: Some(1) };
    let mut fx: FxDisplay<Bus, 0x20, 0> = FxDisplay::new(bus, []);
    assert!(fx.write_register(3, &[1, 2]).is_err());
    assert_eq!(fx.link().writes.len(), 1);
}

#[test]
fn read_register_returns_device_bytes() {
    let mut fx: FxDisplay<Bus, 0x20, 0> = FxDisplay::new(Bus::default(), []);
    assert_eq!(fx.read_register(7), Ok([9, 8, 7, 6]));
    assert_eq!(fx.link().writes, vec![(0x20, vec![0x00, 7])]);
}

#[test]
fn render_renumbers_glyph_and_skips_missing_glyph() {
    let mut fx: FxDisplay<Bus, 0x20, 1> = FxDisplay::new(Bus::default(), [(2, Glyphs::Alphabet(b"xyz"))]);
    fx.render(RenderRequest::new(Point::new(1, 2), 2, b'z'));
    fx.render(RenderRequest::new(Point::new(1, 2), 2, b'q'));
    fx.render(RenderRequest::new(Point::new(1, 2), 3, b'z'));
    assert_eq!(
        fx.link().writes,
        vec![(0x21, vec![1, 2, 2, 2]), (0x21, vec![1, 2, 3, b'z'])]
    );
}

#[test]
fn render_swallows_link_errors() {
    let bus = Bus { writes: Vec::new(), fail_at: Some(1) };
    let mut fx: FxDisplay<Bus, 0x20, 0> = FxDisplay::new(bus, []);
    fx.render(RenderRequest::new(Point::new(0, 0), 0, 0));
    fx.render(RenderRequest::new(Point::new(0, 0), 0, 1));
    assert_eq!(fx.link().writes.len(), 2);
}

#[test]
fn opcodes() {
    assert_eq!(FxCommand::ReadRegister.opcode(), 0x00);
    assert_eq!(FxCommand::WriteRegister.opcode(), 0x80);
    assert_eq!(FxCommand::UploadSprite.opcode(), 0x81);
    assert_eq!(FxCommand::DeleteSprite.opcode(), 0x82);
}
