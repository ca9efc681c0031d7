use std::str::FromStr;

use img2pdf::error::Error;
use img2pdf::length::Mm;
use img2pdf::pagesize::{resolve, PageSizeFormat, PageSizeInMm};

const MM: u64 = 1_000_000_000;

fn page(width_tenths: u64, height_tenths: u64) -> PageSizeInMm {
    PageSizeInMm { width: Mm(width_tenths * MM / 10), height: Mm(height_tenths * MM / 10) }
}

#[test]
fn resolves_a4_in_upper_case() {
    assert_eq!(resolve("A4"), Ok(page(2100, 2970)));
}

#[test]
fn resolves_a4_turned() {
    assert_eq!(resolve("a4^t"), Ok(page(2970, 2100)));
}

#[test]
fn resolves_custom_centimetres() {
    assert_eq!(resolve("10cmx5cm"), Ok(page(1000, 500)));
}

#[test]
fn resolves_custom_inches() {
    assert_eq!(resolve("1inx1in"), Ok(page(254, 254)));
}

#[test]
fn rejects_bogus_token() {
    assert_eq!(resolve("bogus"), Err(Error::InvalidPageSize("bogus".to_string())));
}

#[test]
fn rejected_token_is_reported_as_given() {
    assert_eq!(resolve("  BoGuS "), Err(Error::InvalidPageSize("  BoGuS ".to_string())));
}

#[test]
fn resolves_every_standard_format() {
    let table: [(&str, u64, u64); 24] = [
        ("a0", 8410, 11890),
        ("a1", 5940, 8410),
        ("a2", 4200, 5940),
        ("a3", 2970, 4200),
        ("a4", 2100, 2970),
        ("a5", 1480, 2100),
        ("a6", 1050, 1480),
        ("b0", 10000, 14140),
        ("b1", 7070, 10000),
        ("b2", 5000, 7070),
        ("b3", 3530, 5000),
        ("b4", 2500, 3530),
        ("b5", 1760, 2500),
        ("b6", 1250, 1760),
        ("jb0", 10300, 4560),
        ("jb1", 7280, 10300),
        ("jb2", 5150, 7280),
        ("jb3", 3640, 5150),
        ("jb4", 2570, 3640),
        ("jb5", 1820, 2570),
        ("jb6", 1280, 1820),
        ("letter", 2159, 2794),
        ("legal", 2159, 3556),
        ("tabloid", 2794, 4318),
    ];
    for (name, width, height) in table {
        assert_eq!(resolve(name), Ok(page(width, height)), "{}", name);
        let turned = format!("{}^t", name);
        assert_eq!(resolve(&turned), Ok(page(height, width)), "{}", turned);
        let shouted = name.to_uppercase();
        assert_eq!(resolve(&shouted), Ok(page(width, height)), "{}", shouted);
    }
}

#[test]
fn jb0_is_landscape_in_the_table() {
    let size = resolve("JB0").unwrap();
    assert!(size.width.0 > size.height.0);
    assert_eq!(size, page(10300, 4560));
}

#[test]
fn surrounding_white_space_is_ignored() {
    assert_eq!(resolve("  a4\t\n"), Ok(page(2100, 2970)));
    assert_eq!(resolve("\u{a0}Letter^T\u{3000}"), Ok(page(2794, 2159)));
    assert_eq!(resolve(" 21cmx29.7cm "), Ok(page(2100, 2970)));
}

#[test]
fn inner_white_space_is_not_ignored() {
    assert_eq!(resolve("a 4"), Err(Error::InvalidPageSize("a 4".to_string())));
    assert_eq!(resolve("a4 ^t"), Err(Error::InvalidPageSize("a4 ^t".to_string())));
}

#[test]
fn the_suffix_is_taken_off_once() {
    assert_eq!(resolve("a4^t^t"), Err(Error::InvalidPageSize("a4^t^t".to_string())));
    assert_eq!(resolve("^t"), Err(Error::InvalidPageSize("^t".to_string())));
}

#[test]
fn the_suffix_does_not_apply_to_custom_sizes() {
    assert_eq!(resolve("10cmx5cm^t"), Err(Error::InvalidPageSize("10cmx5cm^t".to_string())));
}

#[test]
fn sides_may_differ_in_unit() {
    assert_eq!(resolve("21cmx11in"), Ok(page(2100, 2794)));
    assert_eq!(resolve("8.5inx297mm"), Ok(page(2159, 2970)));
    assert_eq!(resolve("8.5INx11In"), Ok(page(2159, 2794)));
}

#[test]
fn fractions_are_read_exactly() {
    let size = resolve("0.000000001mmx123.456789012mm").unwrap();
    assert_eq!(size.width, Mm(1));
    assert_eq!(size.height, Mm(123_456_789_012));
    let size = resolve("0.1inx0.01cm").unwrap();
    assert_eq!(size.width, Mm(2_540_000_000));
    assert_eq!(size.height, Mm(100_000_000));
}

#[test]
fn what_lies_below_a_billionth_is_dropped() {
    let size = resolve("1.9999999999mmx0.00000000009in").unwrap();
    assert_eq!(size.width, Mm(1_999_999_999));
    assert_eq!(size.height, Mm(2));
    let size = resolve("0.0393700787401574803149606299212598425196850393700787401574803in\
        x0.0393700787401574803149606299212598425196850393700787401574804in").unwrap();
    assert_eq!(size.width, Mm(999_999_999));
    assert_eq!(size.height, Mm(1_000_000_000));
}

#[test]
fn leading_zeros_do_not_count() {
    assert_eq!(resolve("0000000000000000000000000010mmx05.50mm"), Ok(page(100, 55)));
}

#[test]
fn unknown_unit_is_reported() {
    assert_eq!(resolve("10ptx5mm"), Err(Error::InvalidUnit("pt".to_string())));
    assert_eq!(resolve("10mmx5km"), Err(Error::InvalidUnit("km".to_string())));
    assert_eq!(resolve("10PTx5Km"), Err(Error::InvalidUnit("pt".to_string())));
    assert_eq!(resolve("1.5emx2.5cm"), Err(Error::InvalidUnit("em".to_string())));
}

#[test]
fn malformed_custom_sizes_are_rejected() {
    for token in [
        "", " ", "x", "10cm", "10cmx", "x5cm", "10x5", "10cmx5", "cmxcm", "1.cmx1cm",
        ".5cmx1cm", "1..5cmx1cm", "1.5.5cmx1cm", "-1cmx1cm", "+1cmx1cm", "1e3mmx1mm",
        "10cm x 5cm", "10cmX5cmx", "10cmx5cmx1cm", "10c1x5cm", "10mx5cm", "10cmmx5cm",
        "1,5cmx1cm", "10cm*5cm", "a7", "b7", "jb7", "a", "letters",
    ] {
        assert_eq!(resolve(token), Err(Error::InvalidPageSize(token.to_string())), "{:?}", token);
    }
}

#[test]
fn a_side_of_no_length_is_rejected() {
    assert_eq!(resolve("0mmx5mm"), Err(Error::InvalidDimensions));
    assert_eq!(resolve("5mmx0.0in"), Err(Error::InvalidDimensions));
    assert_eq!(resolve("0.0000000001mmx5mm"), Err(Error::InvalidDimensions));
}

#[test]
fn a_side_too_long_to_hold_is_rejected() {
    assert_eq!(resolve("18446744074mmx1mm"), Err(Error::InvalidDimensions));
    assert_eq!(resolve("1mmx99999999999999999999999999999999999999cm"), Err(Error::InvalidDimensions));
    let size = resolve("18446744073.709551615mmx1mm").unwrap();
    assert_eq!(size.width, Mm(u64::MAX));
    assert_eq!(resolve("18446744073.709551616mmx1mm"), Err(Error::InvalidDimensions));
}

#[test]
fn invert_swaps_the_sides() {
    let size = page(2100, 2970);
    assert_eq!(size.invert(), page(2970, 2100));
    assert_eq!(size.invert().invert(), size);
}

#[test]
fn format_gives_its_page_size() {
    assert_eq!(PageSizeFormat::A4.to_page_size(), page(2100, 2970));
    assert_eq!(PageSizeFormat::Tabloid.to_page_size(), page(2794, 4318));
    assert_eq!(PageSizeInMm::from(PageSizeFormat::Legal), page(2159, 3556));
}

#[test]
fn format_is_read_from_its_name() {
    assert_eq!("a4".parse::<PageSizeFormat>(), Ok(PageSizeFormat::A4));
    assert_eq!(" JB3^T ".parse::<PageSizeFormat>(), Ok(PageSizeFormat::Jb3));
    assert_eq!("a9".parse::<PageSizeFormat>(), Err(()));
    let letter: Vec<char> = "letter".chars().collect();
    assert_eq!(PageSizeFormat::lookup(&letter), Some(PageSizeFormat::Letter));
    let shouted: Vec<char> = "LETTER".chars().collect();
    assert_eq!(PageSizeFormat::lookup(&shouted), None);
}

#[test]
fn page_size_is_read_through_from_str() {
    assert_eq!(PageSizeInMm::from_str("A5"), Ok(page(1480, 2100)));
    assert_eq!("2inx3in".parse::<PageSizeInMm>(), Ok(page(508, 762)));
    assert_eq!(
        "nonsense".parse::<PageSizeInMm>(),
        Err(Error::InvalidPageSize("nonsense".to_string()))
    );
}
