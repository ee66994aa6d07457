use std::cmp::Ordering;
use svgtextbox::errors::SvgTextBoxError;
use svgtextbox::layout::{
    all_above_zero, change_size_and_check_fits, grow_to_maximum_font_size, place, possible_dimensions, search_last_fitting, trials_for, FitSignals, LayoutManager,
    LayoutSource, Placement, Rectangle, RenderedTextbox, Trial,
};
use svgtextbox::pango_wrappers::{Alignment, FontDescription, SCALE};
use svgtextbox::textbox::{PangoCompatibleString, TextBox, UnitContainer};

struct Source {
    font_sizes: Vec<i32>,
    widths: Vec<i32>,
    heights: Vec<i32>,
    font_description: FontDescription,
    markup: &'static str,
    alignment: Alignment,
}

impl LayoutSource for Source {
    fn possible_font_sizes(&self) -> Vec<i32> {
        self.font_sizes.clone()
    }

    fn possible_heights(&self) -> Vec<i32> {
        self.heights.clone()
    }

    fn possible_widths(&self) -> Vec<i32> {
        self.widths.clone()
    }

    fn font_description(&self) -> &FontDescription {
        &self.font_description
    }

    fn markup(&self) -> &str {
        self.markup
    }

    fn alignment(&self) -> Alignment {
        self.alignment
    }

    fn output_width(&self, layout_width: i32) -> i32 {
        layout_width / SCALE
    }

    fn output_height(&self, layout_height: i32) -> i32 {
        layout_height / SCALE
    }

    fn output_x(&self) -> i32 {
        0
    }

    fn output_y(&self) -> i32 {
        0
    }

    fn centre_output_vertically(&self) -> bool {
        true
    }
}

fn source(font_sizes: Vec<i32>, widths: Vec<i32>, heights: Vec<i32>) -> Source {
    Source {
        font_sizes,
        widths,
        heights,
        font_description: FontDescription::new(),
        markup: "Hello World",
        alignment: Alignment::Center,
    }
}

/// A stand-in for the backend: eleven letters on one line, each six tenths
/// of the font size wide and twelve tenths high.
fn one_line(trial: Trial) -> bool {
    let width = 11 * trial.font_size as i64 * 6 / 10;
    let height = trial.font_size as i64 * 12 / 10;
    width <= trial.width as i64 && height <= trial.height as i64
}

fn probe(asked: Vec<Trial>, trial: Trial) -> (Vec<Trial>, bool) {
    let mut asked = asked;
    asked.push(trial);
    (asked, one_line(trial))
}

fn pt(n: i32) -> i32 {
    n * SCALE
}

#[test]
fn new_layout_manager() {
    let src = source(vec![pt(20), pt(10), pt(20)], vec![pt(200), pt(100)], vec![pt(50)]);
    let manager = LayoutManager::new(&src).unwrap();
    let (asked, found) = manager.get_best_fit(Vec::new(), &probe);
    assert_eq!(
        asked,
        vec![
            Trial { width: pt(100), height: pt(50), font_size: pt(20) },
            Trial { width: pt(100), height: pt(50), font_size: pt(10) },
            Trial { width: pt(100), height: pt(50), font_size: pt(10) },
        ]
    );
    assert_eq!(found, Ok(Trial { width: pt(100), height: pt(50), font_size: pt(10) }));

    assert_eq!(LayoutManager::new(&source(vec![], vec![1], vec![1])).err(), Some(SvgTextBoxError::NoValidFontSizes));
    assert_eq!(LayoutManager::new(&source(vec![1], vec![1], vec![])).err(), Some(SvgTextBoxError::NoValidHeights));
    assert_eq!(LayoutManager::new(&source(vec![1], vec![], vec![1])).err(), Some(SvgTextBoxError::NoValidWidths));
    assert_eq!(LayoutManager::new(&source(vec![], vec![], vec![])).err(), Some(SvgTextBoxError::NoValidFontSizes));
    assert_eq!(LayoutManager::new(&source(vec![1], vec![], vec![])).err(), Some(SvgTextBoxError::NoValidHeights));
    assert_eq!(LayoutManager::new(&source(vec![0], vec![1], vec![1])).err(), Some(SvgTextBoxError::NoValidFontSizes));
    assert_eq!(LayoutManager::new(&source(vec![1], vec![1], vec![1, -1])).err(), Some(SvgTextBoxError::NoValidHeights));
    assert_eq!(LayoutManager::new(&source(vec![1], vec![0, 1], vec![1])).err(), Some(SvgTextBoxError::NoValidWidths));
}

#[test]
fn get_best_fit() {
    let sizes: Vec<i32> = (1..=500).map(pt).collect();
    let src = source(sizes, vec![pt(100)], vec![pt(100)]);
    let manager = LayoutManager::new(&src).unwrap();
    let (asked, found) = manager.get_best_fit(Vec::new(), &probe);
    let trial = found.unwrap();
    assert_eq!(trial, Trial { width: pt(100), height: pt(100), font_size: pt(15) });
    assert!(one_line(trial));
    assert!(!one_line(Trial { font_size: pt(16), ..trial }));
    assert_eq!(*asked.last().unwrap(), trial);
    assert!(asked.len() <= 10);
}

#[test]
fn fixed_box_too_small_for_any_size() {
    let sizes: Vec<i32> = (20..=25).map(pt).collect();
    let src = source(sizes, vec![pt(100)], vec![pt(100)]);
    let manager = LayoutManager::new(&src).unwrap();
    let (asked, found) = manager.get_best_fit(Vec::new(), &probe);
    assert_eq!(found, Err(SvgTextBoxError::CouldNotFit));
    assert_eq!(*asked.last().unwrap(), Trial { width: pt(100), height: pt(100), font_size: pt(20) });
}

#[test]
fn fixed_width_takes_the_first_height_that_fits() {
    let src = source(vec![pt(10)], vec![pt(100)], vec![pt(200), pt(100)]);
    let manager = LayoutManager::new(&src).unwrap();
    let (_, found) = manager.get_best_fit(Vec::new(), &probe);
    assert_eq!(found, Ok(Trial { width: pt(100), height: pt(100), font_size: pt(10) }));

    let src = source(vec![pt(10)], vec![pt(100)], vec![pt(200), pt(10)]);
    let manager = LayoutManager::new(&src).unwrap();
    let (asked, found) = manager.get_best_fit(Vec::new(), &probe);
    assert_eq!(found, Ok(Trial { width: pt(100), height: pt(200), font_size: pt(10) }));
    assert_eq!(asked[0], Trial { width: pt(100), height: pt(10), font_size: pt(10) });
}

#[test]
fn fixed_height_takes_the_first_width_that_fits() {
    let src = source(vec![pt(13)], vec![pt(80), pt(90)], vec![pt(16)]);
    let manager = LayoutManager::new(&src).unwrap();
    let (asked, found) = manager.get_best_fit(Vec::new(), &probe);
    assert_eq!(found, Ok(Trial { width: pt(90), height: pt(16), font_size: pt(13) }));
    assert_eq!(asked[0], Trial { width: pt(80), height: pt(16), font_size: pt(13) });
}

#[test]
fn flexible_box_grows_in_width_before_height() {
    let src = source(vec![pt(5)], vec![pt(80), pt(90)], vec![pt(10), pt(20)]);
    let manager = LayoutManager::new(&src).unwrap();
    let (_, found) = manager.get_best_fit(Vec::new(), &probe);
    assert_eq!(found, Ok(Trial { width: pt(80), height: pt(10), font_size: pt(5) }));

    let src = source(vec![pt(13)], vec![pt(80), pt(90)], vec![pt(16), pt(20)]);
    let manager = LayoutManager::new(&src).unwrap();
    let (_, found) = manager.get_best_fit(Vec::new(), &probe);
    assert_eq!(found, Ok(Trial { width: pt(90), height: pt(16), font_size: pt(13) }));

    let src = source(vec![pt(13)], vec![pt(80), pt(90)], vec![pt(10), pt(20)]);
    let manager = LayoutManager::new(&src).unwrap();
    let (asked, found) = manager.get_best_fit(Vec::new(), &probe);
    assert_eq!(found, Ok(Trial { width: pt(90), height: pt(20), font_size: pt(13) }));
    let boxes: Vec<(i32, i32)> = asked.iter().map(|t| (t.width / SCALE, t.height / SCALE)).collect();
    assert_eq!(boxes, vec![(80, 10), (90, 10), (90, 10), (90, 20), (90, 20)]);
}

#[test]
fn boxes_in_the_order_in_which_they_are_tried() {
    assert_eq!(possible_dimensions(&vec![1], &vec![5]), vec![(1, 5)]);
    assert_eq!(possible_dimensions(&vec![1], &vec![5, 6, 7]), vec![(1, 5), (1, 6), (1, 7)]);
    assert_eq!(possible_dimensions(&vec![1, 2, 3], &vec![5]), vec![(1, 5), (2, 5), (3, 5)]);
    assert_eq!(
        possible_dimensions(&vec![1, 2, 3], &vec![5, 6]),
        vec![(1, 5), (2, 5), (3, 5), (3, 5), (3, 6)]
    );
    assert_eq!(
        trials_for((3, 4), &vec![1, 2]),
        vec![
            Trial { width: 3, height: 4, font_size: 1 },
            Trial { width: 3, height: 4, font_size: 2 }
        ]
    );
    assert!(all_above_zero(&vec![1, 2]));
    assert!(!all_above_zero(&vec![1, 0]));
    assert!(all_above_zero(&vec![]));
}

fn linear_scan(keys: &Vec<i32>, fit: impl Fn(i32) -> bool) -> Option<usize> {
    let mut i = keys.len();
    while i > 0 {
        if fit(keys[i - 1]) {
            return Some(i - 1);
        }
        i -= 1;
    }
    None
}

#[test]
fn binary_search_finds_what_a_linear_scan_finds() {
    let keys: Vec<i32> = (1..=37).map(|n| n * 3).collect();
    for limit in 0..=120 {
        let (state, found) = search_last_fitting(0usize, &keys, &|asked: usize, key: i32| (asked + 1, key <= limit));
        assert_eq!(found, linear_scan(&keys, |key| key <= limit));
        assert!(state <= 7);
    }
    let (state, found) = search_last_fitting(0usize, &Vec::<i32>::new(), &|asked: usize, _key: i32| (asked + 1, true));
    assert_eq!((state, found), (0, None));
}

#[test]
fn search_ends_with_the_candidate_that_it_hands_out() {
    let keys: Vec<i32> = (1..=20).collect();
    for limit in 0..=21 {
        let (last, found) = search_last_fitting(0, &keys, &|_last: i32, key: i32| (key, key <= limit));
        match found {
            Some(i) => assert_eq!(last, keys[i]),
            None => assert_eq!(last, 1),
        }
    }
}

#[test]
fn sizes_below_one_that_fits_fit_too() {
    let known = Trial { width: pt(300), height: pt(150), font_size: pt(40) };
    assert!(one_line(known));
    for size in 1..40 {
        assert!(one_line(Trial { font_size: pt(size), ..known }));
    }
}

fn signals() -> FitSignals {
    FitSignals {
        width: 100,
        height: 50,
        ellipsized: false,
        ink: Rectangle { x: 0, y: 0, width: 100, height: 50 },
        last_index: 10,
        text_len: 11,
    }
}

#[test]
fn layout_fits() {
    assert!(signals().fits());
    assert!(!FitSignals { ellipsized: true, ..signals() }.fits());
    assert!(!FitSignals { last_index: 9, ..signals() }.fits());
    assert!(!FitSignals { last_index: 11, ..signals() }.fits());
    assert!(!FitSignals { ink: Rectangle { x: -1, y: 0, width: 10, height: 10 }, ..signals() }.fits());
    assert!(!FitSignals { ink: Rectangle { x: 0, y: -1, width: 10, height: 10 }, ..signals() }.fits());
    assert!(!FitSignals { ink: Rectangle { x: 1, y: 0, width: 100, height: 50 }, ..signals() }.fits());
    assert!(!FitSignals { ink: Rectangle { x: 0, y: 1, width: 100, height: 50 }, ..signals() }.fits());
    assert!(!FitSignals { ink: Rectangle { x: 0, y: 0, width: i32::MAX, height: 1 }, ..signals() }.fits());
    assert!(FitSignals { last_index: -1, text_len: 0, ..signals() }.fits());
    assert!(!FitSignals { last_index: i32::MIN, text_len: 0, ..signals() }.fits());
}

fn textbox(width: &str, height: &str, size: &str) -> TextBox {
    let markup = PangoCompatibleString::new("Hello World", |_text: &str| true).unwrap();
    let mut tb = TextBox::new(markup, UnitContainer::parse(width).unwrap(), UnitContainer::parse(height).unwrap());
    tb.set_font_size(UnitContainer::parse(size).unwrap());
    tb
}

#[test]
fn new_rendered_textbox() {
    let tb = textbox("100", "100", "1 500");
    let measure = |_asked: &Vec<Trial>| Rectangle { x: 0, y: pt(2), width: pt(99), height: pt(18) };
    let render = |asked: Vec<Trial>, place: Placement| {
        assert_eq!(asked.last().unwrap().font_size, pt(15));
        assert_eq!(place, Placement { width: 100, height: 100, x: 0, y: 39 });
        Ok("<svg/>".to_string())
    };
    let image = RenderedTextbox::new(&tb, Vec::new(), &probe, measure, render).unwrap();
    assert_eq!(image, RenderedTextbox { src: "<svg/>".to_string(), width: 100, height: 100 });
}

#[test]
fn rendering_hands_errors_on() {
    let measure = |_asked: &Vec<Trial>| Rectangle { x: 0, y: 0, width: 0, height: 0 };
    let fails = |_asked: Vec<Trial>, _place: Placement| Err(SvgTextBoxError::CairoError);
    let tb = textbox("100", "100", "1 500");
    assert_eq!(
        RenderedTextbox::new(&tb, Vec::new(), &probe, measure, fails),
        Err(SvgTextBoxError::CairoError)
    );
    let renders = |_asked: Vec<Trial>, _place: Placement| Ok(String::new());
    let tb = textbox("100", "100", "20 25");
    assert_eq!(
        RenderedTextbox::new(&tb, Vec::new(), &probe, measure, renders),
        Err(SvgTextBoxError::CouldNotFit)
    );
}

#[test]
fn place_of_a_layout() {
    let src = source(vec![pt(10)], vec![pt(100)], vec![pt(100)]);
    let trial = Trial { width: pt(100), height: pt(50), font_size: pt(10) };
    let ink = Rectangle { x: 0, y: pt(3), width: pt(80), height: pt(10) };
    assert_eq!(place(&src, &trial, &ink), Placement { width: 100, height: 50, x: 0, y: 17 });
    let tall = Rectangle { x: 0, y: 0, width: pt(80), height: pt(61) };
    assert_eq!(place(&src, &trial, &tall), Placement { width: 100, height: 50, x: 0, y: -5 });
}

#[test]
fn insert_background_rect() {
    let mut image = RenderedTextbox { src: "<svg><defs>\n</defs><g/></svg>".to_string(), width: 50, height: 40 };
    let attrs = vec![
        ("stroke".to_string(), "blue".to_string()),
        ("fill".to_string(), "red".to_string()),
        ("x".to_string(), "7".to_string()),
    ];
    image.insert_background_rect(&attrs);
    assert_eq!(
        image.src,
        "<svg><defs>\n</defs>\n<g>\n<rect fill=\"red\" height=\"40\" stroke=\"blue\" width=\"50\" x=\"0\" y=\"0\"/>\n</g><g/></svg>"
    );
    assert_eq!((image.width, image.height), (50, 40));
}

#[test]
fn rendered_textbox_display() {
    let tb = RenderedTextbox { src: "Test".to_string(), width: 100, height: 100 };
    assert_eq!(tb.to_string(), tb.src);
    assert_eq!(tb.as_ref(), tb.src);
}

#[test]
fn test_insert_padding_rect() {
    let src = r#"<?xml version="1.0"?>
            <svg width="100" height="100">
                <defs>
                    <def></def>
                </defs>
                <rect x="0" y="0" width="100" height="100"></rect>
            </svg>"#;
    let expected = r#"<?xml version="1.0"?>
            <svg width="100" height="100">
                <defs>
                    <def></def>
                </defs>
                <g>
                    <rect fill="red" height="50" width="50" x="0" y="0"/>
                </g>
                <rect x="0" y="0" width="100" height="100"></rect>
            </svg>"#
        .split_whitespace()
        .collect::<Vec<&str>>()
        .join(" ");

    let attrs: Vec<(String, String)> = [("fill", "red")].iter().map(|(k, v)| (k.to_string(), v.to_string())).collect();

    let mut textbox = RenderedTextbox { width: 50, height: 50, src: src.to_string() };

    textbox.insert_background_rect(&attrs);
    let patched = textbox.to_string().split_whitespace().collect::<Vec<&str>>().join(" ");

    assert_eq!(patched, expected);
}

#[test]
fn layout_grow_to_maximum_font_size() {
    let fits = |_last: i32, size: i32| (size, size <= 57344);
    let sizes = (50..60).map(|i| i * SCALE).collect::<Vec<i32>>();
    let (font_size, grown) = grow_to_maximum_font_size(0, &sizes, &fits);
    assert_eq!(grown, Ok(57344));
    assert_eq!(font_size, 57344);
    let (font_size, grown) = grow_to_maximum_font_size(font_size, &vec![10 * SCALE], &fits);
    assert_eq!((font_size, grown), (10 * SCALE, Ok(10 * SCALE)));
    let (font_size, e) = grow_to_maximum_font_size(font_size, &vec![70 * SCALE], &fits);
    assert_eq!(e, Err(SvgTextBoxError::CouldNotFit));
    assert_eq!(font_size, 70 * SCALE);
    let (unchanged, e) = grow_to_maximum_font_size(font_size, &vec![], &fits);
    assert_eq!((unchanged, e), (70 * SCALE, Err(SvgTextBoxError::CouldNotFit)));
    let (font_size, x) = change_size_and_check_fits(unchanged, 70 * SCALE, &fits);
    assert_eq!(x, Ordering::Greater);
    assert_eq!(font_size, 70 * SCALE);
    let (font_size, y) = change_size_and_check_fits(font_size, 10 * SCALE, &fits);
    assert_eq!(y, Ordering::Less);
    assert_eq!(font_size, 10 * SCALE);
}
