use svgtextbox::checks::{DistanceMeasure, FontSize, Markup, DEFAULT_FONT_SIZE, SCALED_MAX_FONT_SIZE, SCALED_MIN_FONT_SIZE};
use svgtextbox::pango_wrappers::SCALE;

fn parses(text: &str) -> bool {
    !text.contains('<') && !text.contains("&amp ")
}

#[test]
fn already_escaped_ampersand_markup() {
    let s = "Trouble &amp; Strife";
    let result = Markup::new(&s, parses);
    assert_eq!(result.unwrap().to_string(), s);
}

#[test]
fn isolated_ampersand_markup() {
    let s = "Trouble & Strife";
    let y = "Trouble &amp; Strife";
    let result = Markup::new(s, parses);
    assert_eq!(result.unwrap().to_string(), y);
}

#[test]
fn distance_measure() {
    let i = DistanceMeasure::new(100);
    assert_eq!(i.as_px(), 100);
    assert_eq!(i.as_scaled_pts(), 75 * 1024);
}

#[test]
fn distance_in_scaled_points() {
    assert_eq!(DistanceMeasure::new(10).as_scaled_pts(), 7680);
    assert_eq!(DistanceMeasure::new(-10).as_scaled_pts(), -7680);
    assert_eq!(DistanceMeasure::new(1).as_scaled_pts(), 768);
    assert_eq!(DistanceMeasure::new(0).as_scaled_pts(), 0);
    assert_eq!(DistanceMeasure::new(2796202).as_scaled_pts(), 2147483136);
}

#[test]
fn fontsize() {
    let f = FontSize::new(1024).unwrap();
    assert_eq!(f.scaled(), 1024);
    let f2 = f.step_up().unwrap();
    assert_eq!(f2.scaled(), 1024 * 2);
    assert_eq!(f2.pts(), 2);
    assert_eq!(f2.step_down().unwrap().scaled(), f.scaled());
}

#[test]
#[should_panic]
fn fontsize_zero() {
    FontSize::new(0).unwrap();
}

#[test]
fn fontsize_default() {
    let f: FontSize = Default::default();
    assert_eq!(f.scaled(), DEFAULT_FONT_SIZE * SCALE);
    assert_eq!(f.pts(), DEFAULT_FONT_SIZE);
}

#[test]
#[should_panic]
fn too_big_fontsize() {
    FontSize::new(SCALED_MAX_FONT_SIZE + 1).unwrap();
}

#[test]
#[should_panic]
fn too_small_fontsize() {
    FontSize::new(1).unwrap();
}

#[test]
#[should_panic]
fn negative_fontsize() {
    FontSize::new(-1).unwrap();
}

#[test]
fn iteration() {
    let mut fsi = FontSize::range();
    let first = fsi.next().unwrap();
    assert_eq!(first, FontSize::new(SCALED_MIN_FONT_SIZE).unwrap());
    let second = fsi.next().unwrap();
    assert_eq!(second.scaled() - first.scaled(), SCALE);
    let mut last = second;
    while let Some(size) = fsi.next() {
        last = size;
    }
    assert_eq!(last, FontSize::new(SCALED_MAX_FONT_SIZE).unwrap());
    assert_eq!(fsi.next(), None);
}

#[test]
fn all_sizes() {
    let all = FontSize::all();
    assert_eq!(all.len(), 500);
    assert_eq!(all[0].scaled(), 1024);
    assert_eq!(all[499].scaled(), 512000);
}

#[test]
fn refused_size_is_handed_back() {
    assert_eq!(FontSize::new(1023), Err(1023));
    assert_eq!(FontSize::new(512001), Err(512001));
    assert_eq!(FontSize::new(512000).unwrap().step_up(), Err(513024));
    assert_eq!(FontSize::new(1024).unwrap().step_down(), Err(0));
}

#[test]
#[should_panic(expected = "Markup too long")]
fn long_markup() {
    let mut many_chars = String::new();
    for c in std::iter::repeat('a').take(1000 + 1) {
        many_chars.push(c);
    }
    let result = Markup::new(&many_chars, parses);
    result.unwrap();
}

#[test]
fn markup_of_a_thousand_bytes() {
    let many_chars: String = std::iter::repeat('a').take(1000).collect();
    assert!(Markup::new(&many_chars, parses).is_ok());
    let wide: String = std::iter::repeat('\u{2015}').take(334).collect();
    assert_eq!(Markup::new(&wide, parses).unwrap_err(), "Markup too long");
    let wide: String = std::iter::repeat('\u{2015}').take(333).collect();
    assert!(Markup::new(&wide, parses).is_ok());
}

#[test]
#[should_panic(expected = "Markup contains a null character or is empty")]
fn nullchar_markup() {
    let result = Markup::new("Hello \u{0}", parses);
    result.unwrap();
}

#[test]
#[should_panic(expected = "Markup contains a null character or is empty")]
fn empty_markup() {
    let result = Markup::new("", parses);
    result.unwrap();
}

#[test]
#[should_panic(expected = "Markup contains a null character or is empty")]
fn all_whitespace_markup() {
    let result = Markup::new("   \n    ", parses);
    result.unwrap();
}

#[test]
#[should_panic(expected = "Improperly formatted markup")]
fn unisolated_ampersand_markup() {
    let result = Markup::new("Trouble &amp Strife", parses);
    result.unwrap();
}

#[test]
#[should_panic(expected = "Improperly formatted markup")]
fn unescaped_angle_brackets_markup() {
    let result = Markup::new("<censored>", parses);
    result.unwrap();
}

#[test]
#[should_panic(expected = "Improperly formatted markup")]
fn incomplete_span() {
    let result = Markup::new("<span>Trouble et Strife", parses);
    result.unwrap();
}

#[test]
fn markup_is_trimmed() {
    assert_eq!(Markup::new("  Hello World \n", parses).unwrap().to_string(), "Hello World");
    assert_eq!(Markup::check(" a b ").unwrap(), "a b");
    assert_eq!(Markup::from_trial("a".to_string(), false).unwrap_err(), "Improperly formatted markup");
}

#[test]
fn ampersands_before_whitespace_are_escaped() {
    assert_eq!(Markup::new("a &\n b &  c", parses).unwrap().to_string(), "a &amp;\n b &amp;  c");
    assert_eq!(Markup::new("a&b", parses).unwrap().to_string(), "a&b");
}
