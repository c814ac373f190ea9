use rnote_engine::color::{color_from_xopp, xoppcolor_from_color, Color, XoppColor, CHANNEL_ONE};

#[test]
fn channel_one_is_255_times_256() {
    assert_eq!(CHANNEL_ONE, 65280);
}

#[test]
fn from_xopp_is_exact() {
    let x = XoppColor { red: 255, green: 0, blue: 128, alpha: 1 };
    let c = color_from_xopp(x);
    assert_eq!(c, Color::new(65280, 0, 32768, 256));
}

#[test]
fn to_xopp_truncates() {
    // 65279 / 65280 is just under 1.0, so floor(channel * 255) is 254.
    let c = Color::new(65279, 65280, 0, 256);
    let x = xoppcolor_from_color(c);
    assert_eq!(x.red, 254);
    assert_eq!(x.green, 255);
    assert_eq!(x.blue, 0);
    assert_eq!(x.alpha, 1);
}

#[test]
fn endpoints_are_exact() {
    let one = Color::new(CHANNEL_ONE, CHANNEL_ONE, CHANNEL_ONE, CHANNEL_ONE);
    let x = xoppcolor_from_color(one);
    assert_eq!((x.red, x.green, x.blue, x.alpha), (255, 255, 255, 255));
    let zero = Color::new(0, 0, 0, 0);
    let x0 = xoppcolor_from_color(zero);
    assert_eq!((x0.red, x0.green, x0.blue, x0.alpha), (0, 0, 0, 0));
}

#[test]
fn roundtrip_loses_less_than_one_255th() {
    for channel in [0u32, 1, 255, 256, 1000, 32768, 65279, CHANNEL_ONE] {
        let c = Color::new(channel, 0, 0, CHANNEL_ONE);
        let back = color_from_xopp(xoppcolor_from_color(c));
        assert!(back.r <= channel);
        // One fixed-point unit is 1/65280; 256 units are 1/255.
        assert!(channel - back.r < 256);
    }
}

#[test]
fn darkness_sums_rgb_and_ignores_alpha() {
    let c = Color::new(10, 20, 30, 65280);
    assert_eq!(c.darkness(), 60);
}
