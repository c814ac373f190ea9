use rnote_engine::geometry::{Aabb, Vec2};
use rnote_engine::utils::{
    aabb_corner_ring, convert_coord_dpi, convert_value_dpi, crate_version, dec2_string, dec_string,
    format_page_filename, format_timestamp, now_formatted_string, positive_range,
};

#[test]
fn crate_version_matches_manifest() {
    assert_eq!(crate_version(), "0.1.0");
}

#[test]
fn dpi_identity_when_densities_match() {
    assert_eq!(convert_value_dpi(100, 96, 96), 100);
    assert_eq!(convert_value_dpi(-12345, 300, 300), -12345);
    assert_eq!(convert_value_dpi(0, 7, 7), 0);
}

#[test]
fn dpi_conversion_scales() {
    assert_eq!(convert_value_dpi(100, 96, 192), 200);
    assert_eq!(convert_value_dpi(-100, 96, 192), -200);
    // 5 * 3 / 2 is 7.5; the result truncates toward zero, for either sign.
    assert_eq!(convert_value_dpi(5, 2, 3), 7);
    assert_eq!(convert_value_dpi(-5, 2, 3), -7);
}

#[test]
fn dpi_coord_conversion_is_componentwise() {
    let c = convert_coord_dpi(Vec2::new(100, -50), 96, 192);
    assert_eq!(c, Vec2::new(200, -100));
}

#[test]
fn positive_range_orders_endpoints() {
    assert_eq!(positive_range(5, 2), 2..5);
    assert_eq!(positive_range(2, 5), 2..5);
}

#[test]
fn positive_range_of_equal_endpoints_is_empty() {
    let r = positive_range(3, 3);
    assert_eq!(r, 3..3);
    assert!(r.is_empty());
}

#[test]
fn page_filename_pads_to_two_digits() {
    assert_eq!(format_page_filename("doc", 3), "doc - Page 03");
    assert_eq!(format_page_filename("doc", 0), "doc - Page 00");
    assert_eq!(format_page_filename("x", 12), "x - Page 12");
    assert_eq!(format_page_filename("", 123), " - Page 123");
}

#[test]
fn decimal_strings() {
    assert_eq!(dec_string(0), "0");
    assert_eq!(dec_string(1234567), "1234567");
    assert_eq!(dec2_string(7), "07");
    assert_eq!(dec2_string(70), "70");
}

#[test]
fn timestamp_format() {
    assert_eq!(format_timestamp(2026, 10, 9, 7, 5, 30), "2026-10-09_07:05:30");
    assert_eq!(format_timestamp(-44, 1, 1, 0, 0, 0), "-0044-01-01_00:00:00");
    assert_eq!(format_timestamp(12345, 12, 31, 23, 59, 59), "12345-12-31_23:59:59");
}

#[test]
fn now_formatted_string_has_timestamp_shape() {
    let s = now_formatted_string();
    let b = s.as_bytes();
    // A current-era year has four digits: YYYY-MM-DD_HH:MM:SS.
    assert_eq!(b.len(), 19);
    assert_eq!(b[4], b'-');
    assert_eq!(b[7], b'-');
    assert_eq!(b[10], b'_');
    assert_eq!(b[13], b':');
    assert_eq!(b[16], b':');
    for i in [0, 1, 2, 3, 5, 6, 8, 9, 11, 12, 14, 15, 17, 18] {
        assert!(b[i].is_ascii_digit());
    }
}

#[test]
fn corner_ring_is_closed_and_ordered() {
    let a = Aabb::new(Vec2::new(1, 2), Vec2::new(30, 40));
    let ring = aabb_corner_ring(a);
    assert_eq!(
        ring,
        vec![
            Vec2::new(1, 2),
            Vec2::new(30, 2),
            Vec2::new(30, 40),
            Vec2::new(1, 40),
            Vec2::new(1, 2),
        ]
    );
}
