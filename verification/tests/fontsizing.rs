use std::collections::HashSet;
use std::convert::TryFrom;
use svgtextbox::errors::{IntParseFailure, SvgTextBoxError};
use svgtextbox::fontsizing::FontSizing;

#[test]
fn from_str() {
    let fontsize_cases = [
        ("100", FontSizing::Static(100)),
        ("100 103", FontSizing::Flex(vec![100, 101, 102, 103].into_iter().collect())),
        ("200 100", FontSizing::Flex(vec![200, 100].into_iter().collect())),
        ("100 200 300", FontSizing::Flex(vec![100, 200, 300].into_iter().collect())),
    ];

    for (i, e) in fontsize_cases.iter() {
        assert_eq!(i.parse::<FontSizing>().unwrap(), *e);
        assert_eq!(FontSizing::try_from(i.to_string()).unwrap(), *e);
    }
}

#[test]
fn default_set() {
    FontSizing::default();
}

#[test]
fn default_is_ten_to_thirty() {
    let expected: Vec<u16> = (10..=30).collect();
    assert_eq!(FontSizing::default().to_vec(), expected);
}

#[test]
fn sizes_of_each_variant() {
    assert_eq!(FontSizing::Static(10).to_vec(), vec![10]);
    let set: HashSet<u16> = vec![30, 10, 20].into_iter().collect();
    assert_eq!(FontSizing::Flex(set).to_vec(), vec![10, 20, 30]);
    let range = FontSizing::Range { min: 10, max: 20, step: None };
    assert_eq!(range.to_vec(), (10..=20).collect::<Vec<u16>>());
    let stepped = FontSizing::Range { min: 10, max: 20, step: Some(2) };
    assert_eq!(stepped.to_vec(), vec![10, 12, 14, 16, 18, 20]);
    let capped = FontSizing::Range { min: 10, max: 20, step: Some(3) };
    assert_eq!(capped.to_vec(), vec![10, 13, 16, 19]);
}

#[test]
fn sizes_from_vec_and_back() {
    for v in [vec![10u16], vec![10, 20, 30], (10..=20).collect::<Vec<u16>>(), vec![10, 12, 14, 16, 18, 20]] {
        assert_eq!(FontSizing::from_vec(v.clone()).unwrap().to_vec(), v);
    }
}

#[test]
fn two_sizes_ascending_are_a_range() {
    let sizing = FontSizing::from_vec(vec![10, 13]).unwrap();
    assert_eq!(sizing.to_vec(), vec![10, 11, 12, 13]);
    let pair = FontSizing::from_vec(vec![13, 10]).unwrap();
    assert_eq!(pair.to_vec(), vec![10, 13]);
    let same = FontSizing::from_vec(vec![13, 13]).unwrap();
    assert_eq!(same.to_vec(), vec![13]);
}

#[test]
fn no_size_at_all_is_refused() {
    assert_eq!(FontSizing::from_vec(vec![]), Err(SvgTextBoxError::NoValidFontSizes));
    assert_eq!("".parse::<FontSizing>(), Err(IntParseFailure::Empty));
    assert_eq!(" \t\n".parse::<FontSizing>(), Err(IntParseFailure::Empty));
    assert_eq!(FontSizing::parse(""), Err(IntParseFailure::Empty));
    assert_eq!(FontSizing::try_from(String::new()), Err(IntParseFailure::Empty));
    assert_eq!(FontSizing::default(), FontSizing::Range { min: 10, max: 30, step: None });
}

#[test]
fn zero_is_no_size() {
    assert_eq!(FontSizing::from_vec(vec![10, 0]), Err(SvgTextBoxError::NoValidFontSizes));
    assert_eq!("10 0".parse::<FontSizing>(), Err(IntParseFailure::Zero));
}

#[test]
fn tokens_that_are_no_sizes() {
    assert_eq!("ten".parse::<FontSizing>(), Err(IntParseFailure::InvalidDigit));
    assert_eq!("65536".parse::<FontSizing>(), Err(IntParseFailure::PosOverflow));
    assert_eq!("-1".parse::<FontSizing>(), Err(IntParseFailure::InvalidDigit));
    assert_eq!("+".parse::<FontSizing>(), Err(IntParseFailure::InvalidDigit));
    assert_eq!("+12".parse::<FontSizing>().unwrap(), FontSizing::Static(12));
    assert_eq!("  12\t".parse::<FontSizing>().unwrap(), FontSizing::Static(12));
}

#[test]
fn scaled_sizes() {
    let sizing = FontSizing::Range { min: 1, max: 3, step: None };
    assert_eq!(sizing.to_pango_scaled_vec(), vec![1024, 2048, 3072]);
}

#[test]
fn builders_keep_a_range_valid() {
    let range = FontSizing::default().set_min_size(12).unwrap();
    assert_eq!(range, FontSizing::Range { min: 12, max: 30, step: None });
    let range = range.set_max_size(20).unwrap();
    assert_eq!(range, FontSizing::Range { min: 12, max: 20, step: None });
    let range = range.set_step(4).unwrap();
    assert_eq!(range.to_vec(), vec![12, 16, 20]);
    assert_eq!(FontSizing::Static(7).set_min_size(20).unwrap(), FontSizing::Range { min: 20, max: 500, step: None });
    assert_eq!(FontSizing::Static(7).set_max_size(20).unwrap(), FontSizing::Range { min: 1, max: 20, step: None });
    assert_eq!(FontSizing::Static(7).set_step(3).unwrap(), FontSizing::Static(7));
}

#[test]
fn builders_refuse_what_is_not_valid() {
    assert_eq!(FontSizing::default().set_min_size(31), Err(SvgTextBoxError::NoValidFontSizes));
    assert_eq!(FontSizing::default().set_min_size(0), Err(SvgTextBoxError::NoValidFontSizes));
    assert_eq!(FontSizing::default().set_max_size(9), Err(SvgTextBoxError::NoValidFontSizes));
    assert_eq!(FontSizing::default().set_step(0), Err(SvgTextBoxError::NoValidFontSizes));
}

#[test]
fn written_sizings_read_back_with_the_same_sizes() {
    let set: HashSet<u16> = vec![30, 10, 20].into_iter().collect();
    let pair: HashSet<u16> = vec![100, 200].into_iter().collect();
    let cases = [
        (FontSizing::Static(12), "12"),
        (FontSizing::Range { min: 10, max: 30, step: None }, "10 30"),
        (FontSizing::Range { min: 10, max: 10, step: None }, "10"),
        (FontSizing::Range { min: 10, max: 20, step: Some(5) }, "10 15 20"),
        (FontSizing::Range { min: 10, max: 20, step: Some(10) }, "20 10"),
        (FontSizing::Flex(set), "10 20 30"),
        (FontSizing::Flex(pair), "200 100"),
    ];
    for (sizing, text) in cases.iter() {
        let written = sizing.serialize();
        assert_eq!(&written, text);
        let back = written.parse::<FontSizing>().unwrap();
        assert_eq!(back.to_vec(), sizing.to_vec());
    }
}

#[test]
fn a_clone_has_the_same_sizes() {
    let set: HashSet<u16> = vec![30, 10, 20].into_iter().collect();
    let sizing = FontSizing::Flex(set);
    assert_eq!(sizing.clone(), sizing);
}
