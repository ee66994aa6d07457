use std::collections::HashSet;
use std::iter::FromIterator;
use svgtextbox::input::{lengths_from_str, FontSizing, LayoutDimensions, LengthFault, DEFAULT_MAX_FONT_SIZE, DEFAULT_MIN_FONT_SIZE};
use svgtextbox::errors::{IntParseFailure, LayoutError};

#[test]
fn test_fontsizing_from_range() {
    let ten = Some(10);
    let twenty = Some(20);

    let specified_range = FontSizing::from_range(ten, twenty).unwrap();
    let min_specified = FontSizing::from_range(ten, None).unwrap();
    let max_specified = FontSizing::from_range(None, twenty).unwrap();
    let none_specified = FontSizing::from_range(None, None).unwrap();
    let wrong_order = FontSizing::from_range(twenty, ten);
    assert!(wrong_order.is_err());

    let min_default_max: Vec<i32> = (10..=DEFAULT_MAX_FONT_SIZE).collect();
    let min_and_max: Vec<i32> = (10..=20).collect();
    let default_min_max: Vec<i32> = (DEFAULT_MIN_FONT_SIZE..=20).collect();
    let default_default: Vec<i32> = (DEFAULT_MIN_FONT_SIZE..=DEFAULT_MAX_FONT_SIZE).collect();

    if let FontSizing::Selection(v) = specified_range {
        assert_eq!(v, min_and_max);
    } else {
        panic!()
    };

    if let FontSizing::Selection(v) = min_specified {
        assert_eq!(v, min_default_max);
    } else {
        panic!()
    };

    if let FontSizing::Selection(v) = max_specified {
        assert_eq!(v, default_min_max);
    } else {
        panic!()
    };

    if let FontSizing::Selection(v) = none_specified {
        assert_eq!(v, default_default);
    } else {
        panic!()
    };
}

#[test]
fn test_new_layoutdimensions() {
    let single = HashSet::from_iter(vec![10].into_iter());
    let double = HashSet::from_iter(vec![10, 20].into_iter());

    let two_single = LayoutDimensions::new(single.clone(), single.clone());
    let width_single = LayoutDimensions::new(single.clone(), double.clone());
    let height_single = LayoutDimensions::new(double.clone(), single.clone());
    let two_double = LayoutDimensions::new(double.clone(), double.clone());

    if let LayoutDimensions::Static(width, height) = two_single {
        assert_eq!(width, 10);
        assert_eq!(height, 10);
    } else {
        panic!();
    };

    if let LayoutDimensions::StaticWidthFlexHeight(width, height) = width_single {
        assert_eq!(width, 10);
        assert!((height.len() == 2) & height.contains(&10) & height.contains(&20));
    } else {
        panic!();
    };

    if let LayoutDimensions::FlexWidthStaticHeight(width, height) = height_single {
        assert!((width.len() == 2) & width.contains(&10) & width.contains(&20));
        assert_eq!(height, 10);
    } else {
        panic!();
    };

    if let LayoutDimensions::Flex(width, height) = two_double {
        assert!((width.len() == 2) & width.contains(&10) & width.contains(&20));
        assert!((height.len() == 2) & height.contains(&10) & height.contains(&20));
    } else {
        panic!();
    }
}

#[test]
fn range_with_ends_out_of_order() {
    assert_eq!(FontSizing::from_range(Some(20), Some(10)), Err(LayoutError::BadFontRange));
    assert_eq!(FontSizing::from_range(Some(501), None), Err(LayoutError::BadFontRange));
    assert_eq!(FontSizing::from_range(None, Some(-1)), Err(LayoutError::BadFontRange));
    assert_eq!(FontSizing::from_range(None, Some(0)), Err(LayoutError::BadFontRange));
    assert_eq!(FontSizing::from_range(Some(0), Some(5)), Err(LayoutError::BadFontRange));
    assert_eq!(FontSizing::from_range(Some(-3), None), Err(LayoutError::BadFontRange));
    assert_eq!(FontSizing::from_range(None, Some(1)), Ok(FontSizing::Selection(vec![1])));
    assert_eq!(FontSizing::from_range(Some(7), Some(7)), Ok(FontSizing::Selection(vec![7])));
}

#[test]
fn two_lengths_ascending_name_a_range() {
    let range = lengths_from_str("100 200").unwrap();
    assert_eq!(range.len(), 101);
    for i in 100..=200 {
        assert!(range.contains(&i));
    }
    let pair = lengths_from_str("200 100").unwrap();
    assert_eq!(pair, HashSet::from_iter(vec![100, 200].into_iter()));
    let same = lengths_from_str("100 100").unwrap();
    assert_eq!(same, HashSet::from_iter(vec![100].into_iter()));
    let three = lengths_from_str("1 5 3").unwrap();
    assert_eq!(three, HashSet::from_iter(vec![1, 3, 5].into_iter()));
}

#[test]
fn texts_that_are_no_lengths() {
    assert_eq!(lengths_from_str(""), Err(LengthFault::NotPositive));
    assert_eq!(lengths_from_str("  "), Err(LengthFault::NotPositive));
    assert_eq!(lengths_from_str("0"), Err(LengthFault::NotPositive));
    assert_eq!(lengths_from_str("20 -10"), Err(LengthFault::NotPositive));
    assert_eq!(lengths_from_str("Hello"), Err(LengthFault::NotANumber(IntParseFailure::InvalidDigit)));
    assert_eq!(lengths_from_str("20 10 Hello"), Err(LengthFault::NotANumber(IntParseFailure::InvalidDigit)));
    assert_eq!(lengths_from_str("0 Hello"), Err(LengthFault::NotPositive));
    assert_eq!(lengths_from_str("2147483648"), Err(LengthFault::NotANumber(IntParseFailure::PosOverflow)));
    assert_eq!(lengths_from_str("-2147483649"), Err(LengthFault::NotANumber(IntParseFailure::NegOverflow)));
    assert_eq!(lengths_from_str("-2147483648"), Err(LengthFault::NotPositive));
}

use svgtextbox::enum_matches::{Style, Weight};
use svgtextbox::input::{FromHashMap, TextBoxInput};
use svgtextbox::pango_wrappers::{Alignment, SCALE};

fn parses(text: &str) -> bool {
    !text.contains('<') && !text.contains("&amp ")
}

fn attrs(pairs: &[(&str, &str)]) -> Vec<(String, String)> {
    pairs.iter().map(|(k, v)| (k.to_string(), v.to_string())).collect()
}

fn font_desc_sample_required() -> (String, Vec<(String, String)>) {
    ("Hello World".to_string(), attrs(&[("width", "50"), ("height", "50")]))
}

#[test]
fn font_specified_size_added_to_description() {
    let (markup, mut hashmap) = font_desc_sample_required();
    hashmap.push(("font-size".to_string(), "20".to_string()));
    let tbi = TextBoxInput::new_from(markup, &mut hashmap, parses).unwrap();
    assert_eq!(tbi.font_desc.size, Some(20 * SCALE));
    match tbi.fontsizing {
        FontSizing::Static(i) => {
            assert_eq!(i, 20);
        }
        _ => panic!(),
    }
}

#[test]
fn get_font_desc() {
    let (_markup, mut hashmap) = font_desc_sample_required();
    hashmap.push(("font-family".to_string(), "Times New Roman".to_string()));
    hashmap.push(("font-weight".to_string(), "700".to_string()));
    hashmap.push(("font-style".to_string(), "italic".to_string()));
    let fd = TextBoxInput::font_desc_from_hashmap(&mut hashmap).unwrap();
    assert_eq!(fd.family.unwrap(), "Times New Roman");
    assert_eq!(fd.weight, Some(Weight::Bold));
    assert_eq!(fd.style, Some(Style::Italic));
    assert_eq!(hashmap, attrs(&[("width", "50"), ("height", "50")]));
}

#[test]
fn font_family_bad_strings() {
    let (_markup, mut hashmap) = font_desc_sample_required();
    hashmap.push(("font-family".to_string(), "\u{0}".to_string()));
    let fd = TextBoxInput::font_desc_from_hashmap(&mut hashmap);
    assert!(fd.is_err());
    hashmap.push(("font-family".to_string(), "\u{00}".to_string()));
    let fd = TextBoxInput::font_desc_from_hashmap(&mut hashmap);
    assert!(fd.is_err());
    hashmap.push(("font-family".to_string(), "  ".to_string()));
    assert_eq!(TextBoxInput::font_desc_from_hashmap(&mut hashmap), Err(LayoutError::BadFontFamily));
}

#[test]
fn font_properties_that_name_nothing() {
    let mut hashmap = attrs(&[("font-style", "slanted"), ("font-weight", "bold"), ("font-stretch", "wide")]);
    assert_eq!(
        TextBoxInput::font_desc_from_hashmap(&mut hashmap),
        Err(LayoutError::CouldNotTransformStrToPangoEnum { msg: "slanted".to_string() })
    );
    assert_eq!(hashmap, attrs(&[("font-weight", "bold"), ("font-stretch", "wide")]));
    assert_eq!(
        TextBoxInput::font_desc_from_hashmap(&mut hashmap),
        Err(LayoutError::CouldNotTransformStrToPangoEnum { msg: "wide".to_string() })
    );
    assert!(hashmap.is_empty());
}

#[test]
fn test_get_alignment() {
    let left = TextBoxInput::alignment_from_str("left").unwrap();
    let centre = TextBoxInput::alignment_from_str("centre").unwrap();
    let center = TextBoxInput::alignment_from_str("center").unwrap();
    let right = TextBoxInput::alignment_from_str("right").unwrap();
    let bad = TextBoxInput::alignment_from_str("bad");
    assert!(bad.is_err());
    assert_eq!(left, Alignment::Left);
    assert_eq!(right, Alignment::Right);
    assert_eq!(centre, Alignment::Center);
    assert_eq!(center, Alignment::Center);
    assert_eq!(bad, Err(LayoutError::CouldNotTransformStrToPangoEnum { msg: "bad".to_string() }));
    assert!(TextBoxInput::alignment_from_str("Left").is_err());
}

#[test]
fn test_get_layout_dimensions() {
    let mut hashmap: Vec<(String, String)> = Vec::new();
    let no_set = TextBoxInput::layoutdimensions_from_hashmap(&mut hashmap);
    assert!(no_set.is_err());
    hashmap.push(("width".to_string(), "100".to_string()));
    let one_set = TextBoxInput::layoutdimensions_from_hashmap(&mut hashmap);
    assert!(one_set.is_err());
    hashmap.push(("width".to_string(), "100".to_string()));
    hashmap.push(("height".to_string(), "100".to_string()));
    let two_set = TextBoxInput::layoutdimensions_from_hashmap(&mut hashmap).expect("Two set");
    match two_set {
        LayoutDimensions::Static(100, 100) => {}
        _ => panic!(),
    }
    hashmap.push(("width".to_string(), "100".to_string()));
    hashmap.push(("height".to_string(), "200 100".to_string()));
    let flex_set = TextBoxInput::layoutdimensions_from_hashmap(&mut hashmap).expect("flex set");
    match flex_set {
        LayoutDimensions::StaticWidthFlexHeight(100, v) => {
            let h = HashSet::from_iter(vec![200, 100].into_iter());
            assert_eq!(v, h);
        }
        _ => panic!(),
    }
    hashmap.push(("width".to_string(), "100".to_string()));
    hashmap.push(("height".to_string(), "100 200".to_string()));
    let flex_range = TextBoxInput::layoutdimensions_from_hashmap(&mut hashmap).expect("flex set");
    match flex_range {
        LayoutDimensions::StaticWidthFlexHeight(100, v) => {
            let r: Vec<i32> = (100..=200).collect();
            let h = HashSet::from_iter(r.into_iter());
            assert_eq!(v, h);
        }
        _ => panic!(),
    }

    hashmap.push(("width".to_string(), "100".to_string()));
    hashmap.push(("height".to_string(), "bad".to_string()));
    let bad_input = TextBoxInput::layoutdimensions_from_hashmap(&mut hashmap);
    assert!(bad_input.is_err());
}

#[test]
fn messages_of_dimensions_that_are_not_valid() {
    let message = |pairs: &[(&str, &str)]| match TextBoxInput::layoutdimensions_from_hashmap(&mut attrs(pairs)) {
        Err(LayoutError::BadDistanceValues { msg }) => msg,
        _ => panic!(),
    };
    assert_eq!(message(&[]), "Width missing");
    assert_eq!(message(&[("height", "1")]), "Width missing");
    assert_eq!(message(&[("width", "1")]), "Height missing");
    assert_eq!(message(&[("width", "0"), ("height", "1")]), "Attempted to use an invalid width value (0)");
    assert_eq!(message(&[("width", "1"), ("height", "x")]), "Attempted to use an invalid height value (x)");
    assert_eq!(
        message(&[("width", "a b"), ("height", "")]),
        "Attempted to use invalid width and height values (a b, )"
    );
}

#[test]
fn test_get_intsfromstr() {
    let single_parsed = TextBoxInput::ints_from_str("10").unwrap();
    let range_parsed = TextBoxInput::ints_from_str("10 20").unwrap();
    let inverted_range_parsed = TextBoxInput::ints_from_str("20 10").unwrap();

    let zero_parsed = TextBoxInput::ints_from_str("0");
    assert!(zero_parsed.is_err());
    let non_int_parsed = TextBoxInput::ints_from_str("Hello");
    assert!(non_int_parsed.is_err());
    let includes_not_int_parsed = TextBoxInput::ints_from_str("20 10 Hello");
    assert!(includes_not_int_parsed.is_err());
    let includes_zero_parsed = TextBoxInput::ints_from_str("20 10 0");
    assert!(includes_zero_parsed.is_err());

    assert!((single_parsed.len() == 1) & single_parsed.contains(&10));
    for i in 10..=20 {
        assert!(range_parsed.contains(&i));
    }
    assert!(
        (inverted_range_parsed.len() == 2)
            && inverted_range_parsed.contains(&20)
            && inverted_range_parsed.contains(&20)
    );
    assert!(inverted_range_parsed.contains(&10));
    assert_eq!(range_parsed.len(), 11);
    assert_eq!(zero_parsed, Err(LayoutError::IntsFromString { msg: "0".to_string() }));
    assert_eq!(TextBoxInput::ints_from_str(""), Err(LayoutError::IntsFromString { msg: "".to_string() }));
    assert_eq!(non_int_parsed, Err(LayoutError::BadIntParse(IntParseFailure::InvalidDigit)));
}

#[test]
fn test_get_fontsizing() {
    let mut hashmap: Vec<(String, String)> = Vec::new();

    let none_set = TextBoxInput::fontsizing_from_hashmap(&mut hashmap).unwrap();
    assert!(matches!(none_set, FontSizing::Selection(_)));

    hashmap.push(("font-size".to_string(), "10".to_string()));
    let static_set = TextBoxInput::fontsizing_from_hashmap(&mut hashmap).unwrap();
    assert!(matches!(static_set, FontSizing::Static(10)));

    hashmap.push(("font-size".to_string(), "10".to_string()));
    hashmap.push(("min-size".to_string(), "8".to_string()));
    let fs = TextBoxInput::fontsizing_from_hashmap(&mut hashmap).unwrap();
    assert!(matches!(fs, FontSizing::Static(10)));
    assert!(hashmap.is_empty());

    hashmap.push(("min-size".to_string(), "8".to_string()));
    let x = TextBoxInput::fontsizing_from_hashmap(&mut hashmap).unwrap();
    assert_eq!(x, FontSizing::Selection((8..=500).collect()));

    hashmap.push(("max-size".to_string(), "8".to_string()));
    let x = TextBoxInput::fontsizing_from_hashmap(&mut hashmap).unwrap();
    assert_eq!(x, FontSizing::Selection((1..=8).collect()));
}

#[test]
fn font_sizes_that_are_refused() {
    let mut hashmap = attrs(&[("font-size", "ten"), ("min-size", "8")]);
    assert_eq!(
        TextBoxInput::fontsizing_from_hashmap(&mut hashmap),
        Err(LayoutError::BadIntParse(IntParseFailure::InvalidDigit))
    );
    assert_eq!(hashmap, attrs(&[("min-size", "8")]));
    let mut hashmap = attrs(&[("min-size", "9"), ("max-size", "8")]);
    assert_eq!(TextBoxInput::fontsizing_from_hashmap(&mut hashmap), Err(LayoutError::BadFontRange));
}

#[test]
fn test_new_from() {
    let markup = "Hello & World".to_string();
    let mut hashmap = attrs(&[("alignment", "left"), ("width", "100"), ("height", "100"), ("font-size", "12")]);
    let input = TextBoxInput::new_from(markup, &mut hashmap, parses).unwrap();
    assert_eq!(input.markup, "Hello &amp; World");
    match input.fontsizing {
        FontSizing::Static(12) => {}
        _ => panic!(),
    }
    match input.dimensions {
        LayoutDimensions::Static(100, 100) => {}
        _ => panic!(),
    }
    assert_eq!(input.font_desc.size, Some(12 * SCALE));
    assert_eq!(input.alignment, Alignment::Left);
    assert!(hashmap.is_empty());
}

#[test]
fn text_boxes_that_are_refused() {
    let new_from = |markup: &str, pairs: &[(&str, &str)]| {
        TextBoxInput::new_from(markup.to_string(), &mut attrs(pairs), parses).err()
    };
    let size = [("width", "100"), ("height", "100")];
    assert_eq!(new_from(" ", &size), Some(LayoutError::BadMarkup));
    assert_eq!(new_from("<b>", &size), Some(LayoutError::BadMarkup));
    assert_eq!(
        new_from("a", &[("alignment", "up")]),
        Some(LayoutError::CouldNotTransformStrToPangoEnum { msg: "up".to_string() })
    );
    assert_eq!(new_from("a", &[("font-size", "2097152")]), Some(LayoutError::BadFontRange));
    assert_eq!(
        new_from("a", &[]),
        Some(LayoutError::BadDistanceValues { msg: "Width missing".to_string() })
    );
    let centred = TextBoxInput::new_from("a".to_string(), &mut attrs(&size), parses).unwrap();
    assert_eq!(centred.alignment, Alignment::Center);
    assert_eq!(centred.font_desc.size, None);
}
