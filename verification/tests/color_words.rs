use boxtrace::color::Color;
use boxtrace::trace::sky_color;

#[test]
fn to_hex_puts_red_in_the_high_byte() {
    assert_eq!(Color::new(0x12, 0x34, 0x56).to_hex(), 0x123456);
    assert_eq!(Color::new(255, 0, 0).to_hex(), 0xff0000);
    assert_eq!(Color::new(0, 255, 0).to_hex(), 0x00ff00);
    assert_eq!(Color::new(0, 0, 255).to_hex(), 0x0000ff);
    assert_eq!(Color::black().to_hex(), 0);
}

#[test]
fn from_hex_reads_the_three_low_bytes() {
    assert_eq!(Color::from_hex(0x123456), Color::new(0x12, 0x34, 0x56));
    assert_eq!(Color::from_hex(0xff123456), Color::new(0x12, 0x34, 0x56));
}

#[test]
fn hex_round_trip() {
    for word in [0u32, 1, 0xff, 0x100, 0xabcdef, 0xffffff] {
        assert_eq!(Color::from_hex(word).to_hex(), word);
    }
}

#[test]
fn sum_saturates_each_channel() {
    let a = Color::new(200, 10, 255);
    let b = Color::new(100, 20, 1);
    assert_eq!(a + b, Color::new(255, 30, 255));
    assert_eq!(b + a, Color::new(255, 30, 255));
    assert_eq!(a + Color::black(), a);
}

#[test]
fn sky_is_the_fixed_colour() {
    assert_eq!(sky_color(), Color::new(68, 142, 228));
    assert_eq!(sky_color().to_hex(), 0x448ee4);
}
