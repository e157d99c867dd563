use castella_skia_core::color::Color;
use castella_skia_core::parse_color;

fn argb(a: u8, r: u8, g: u8, b: u8) -> Color {
    Color::from_argb(a, r, g, b)
}

#[test]
fn hash_is_optional() {
    assert_eq!(parse_color("#112233"), parse_color("112233"));
    assert_eq!(parse_color("#112233"), argb(255, 0x11, 0x22, 0x33));
}

#[test]
fn six_digits_are_opaque() {
    assert_eq!(parse_color("#ff8000"), argb(255, 255, 128, 0));
    assert_eq!(parse_color("AbCdEf"), argb(255, 0xab, 0xcd, 0xef));
}

#[test]
fn eight_digits_take_alpha_from_last_byte() {
    assert_eq!(parse_color("#00000080"), argb(0x80, 0, 0, 0));
    assert_eq!(parse_color("11223344"), argb(0x44, 0x11, 0x22, 0x33));
}

#[test]
fn other_lengths_are_black() {
    let black = argb(255, 0, 0, 0);
    assert_eq!(parse_color(""), black);
    assert_eq!(parse_color("#"), black);
    assert_eq!(parse_color("#fff"), black);
    assert_eq!(parse_color("#1234567"), black);
    assert_eq!(parse_color("#123456789"), black);
}

#[test]
fn unparseable_channels_default() {
    assert_eq!(parse_color("zz2233"), argb(255, 0, 0x22, 0x33));
    assert_eq!(parse_color("112233zz"), argb(255, 0x11, 0x22, 0x33));
    assert_eq!(parse_color("-12233"), argb(255, 0, 0x22, 0x33));
}

#[test]
fn plus_sign_before_one_digit_is_a_byte() {
    assert_eq!(parse_color("+f0000"), argb(255, 15, 0, 0));
}

#[test]
fn every_leading_hash_is_removed() {
    assert_eq!(parse_color("##112233"), argb(255, 0x11, 0x22, 0x33));
}

#[test]
fn non_ascii_text_is_not_a_color() {
    // six bytes, three characters: no channel is a byte
    assert_eq!(parse_color("ééé"), argb(255, 0, 0, 0));
}

#[test]
fn packed_argb() {
    assert_eq!(argb(0x80, 0x11, 0x22, 0x33).to_argb_u32(), 0x8011_2233);
    assert_eq!(Color::white().to_argb_u32(), 0xffff_ffff);
    assert_eq!(Color::black().to_argb_u32(), 0xff00_0000);
}
