use svgtextbox::errors::SvgTextBoxError;
use svgtextbox::layout::{LayoutSource, Placement, Rectangle, Trial};
use svgtextbox::padded_textbox::{
    end_of_defs, insert_rect, lessen, rect_attrs, tag_of, PaddedTextBox, PaddingError, PaddingSpecification,
};
use svgtextbox::pango_wrappers::SCALE;
use svgtextbox::textbox::{PangoCompatibleString, TextBox, UnitContainer};

fn attrs(pairs: &[(&str, &str)]) -> Vec<(String, String)> {
    pairs.iter().map(|(k, v)| (k.to_string(), v.to_string())).collect()
}

fn one_line(trial: Trial) -> bool {
    let width = 11 * trial.font_size as i64 * 6 / 10;
    let height = trial.font_size as i64 * 12 / 10;
    width <= trial.width as i64 && height <= trial.height as i64
}

fn probe(asked: u32, trial: Trial) -> (u32, bool) {
    (asked + 1, one_line(trial))
}

fn padded(padding: u16) -> PaddedTextBox {
    let markup = PangoCompatibleString::new("Hello World", |_text: &str| true).unwrap();
    let textbox = TextBox::new(markup, UnitContainer::parse("100").unwrap(), UnitContainer::parse("100").unwrap());
    PaddedTextBox {
        textbox,
        padding: PaddingSpecification::new(padding, padding, padding, padding),
        other: attrs(&[("fill", "red"), ("x", "3"), ("stroke", "blue"), ("y", "4")]),
    }
}

const IMAGE: &str = "<?xml version=\"1.0\" encoding=\"UTF-8\"?><svg width=\"100pt\"><defs><g id=\"a\" /></defs><g>text</g></svg>";

#[test]
fn padded_textbox_paddedtextbox() {
    let p = padded(10);
    let measure = |_asked: &u32| Rectangle { x: 0, y: 0, width: 80 * SCALE, height: 14 * SCALE };
    let render = |_asked: u32, place: Placement| {
        assert_eq!(place, Placement { width: 100, height: 100, x: 10, y: 43 });
        Ok(IMAGE.to_string())
    };
    let (s, w, h) = p.to_svg_image(0, &probe, measure, render).unwrap();
    assert_eq!((w, h), (100, 100));
    assert_eq!(
        s,
        "<?xml version=\"1.0\" encoding=\"UTF-8\"?><svg width=\"100pt\"><defs><g id=\"a\" /></defs><rect width=\"100\" height=\"100\" fill=\"red\" stroke=\"blue\" /><g>text</g></svg>"
    );
}

#[test]
fn outer_box_is_content_box_and_padding() {
    let p = padded(10);
    assert_eq!(p.possible_widths(), vec![80 * SCALE]);
    assert_eq!(p.possible_heights(), vec![80 * SCALE]);
    assert_eq!(p.possible_font_sizes(), p.textbox.possible_font_sizes());
    for content in p.possible_widths() {
        assert_eq!(p.output_width(content), content / SCALE + 20);
        assert_eq!(p.output_height(content), content / SCALE + 20);
    }
    assert_eq!((p.output_x(), p.output_y()), (10, 10));
    assert_eq!(p.markup(), "Hello World");
    assert_eq!(p.alignment(), p.textbox.alignment.0);
    assert_eq!(*p.font_description(), p.textbox.font_desc.0);
    assert_eq!(lessen(&vec![5, 1], 2), vec![3, -1]);
}

#[test]
fn padding_that_leaves_no_box() {
    let measure = |_asked: &u32| Rectangle { x: 0, y: 0, width: 0, height: 0 };
    let render = |_asked: u32, _place: Placement| Ok(IMAGE.to_string());
    assert_eq!(padded(50).to_svg_image(0, &probe, measure, render), Err(SvgTextBoxError::NoValidHeights));
}

#[test]
fn images_without_definitions() {
    let rect = attrs(&[("width", "1")]);
    assert_eq!(insert_rect("<svg><g/></svg>", &rect), Err(SvgTextBoxError::Xml));
    assert_eq!(insert_rect("<svg><defs>", &rect), Err(SvgTextBoxError::Xml));
    assert_eq!(insert_rect("not a document", &rect), Err(SvgTextBoxError::Xml));
    assert_eq!(
        insert_rect("<svg><defs/><defs/></svg>", &rect).unwrap(),
        "<?xml version=\"1.0\" encoding=\"UTF-8\"?><svg><defs /><rect width=\"1\" /><defs /></svg>"
    );
    let measure = |_asked: &u32| Rectangle { x: 0, y: 0, width: 0, height: 0 };
    let render = |_asked: u32, _place: Placement| Ok("<svg/>".to_string());
    assert_eq!(padded(1).to_svg_image(0, &probe, measure, render), Err(SvgTextBoxError::Xml));
}

#[test]
fn attributes_of_the_rectangle() {
    assert_eq!(
        rect_attrs(&attrs(&[("x", "1"), ("fill", "red"), ("y", "2"), ("x", "3")]), 50, -7),
        attrs(&[("width", "50"), ("height", "-7"), ("fill", "red")])
    );
    assert_eq!(rect_attrs(&attrs(&[]), 0, 0), attrs(&[("width", "0"), ("height", "0")]));
}

#[test]
fn an_image_as_a_tag() {
    assert_eq!(
        tag_of("QQ==", 1, -2, 30, 40),
        "<image xmlns:xlink=\"http://www.w3.org/1999/xlink\" x=\"1\" y=\"-2\" width=\"30\" height=\"40\" xlink:href=\"data:image/svg+xml;base64, QQ==\"/>"
    );
    let measure = |_asked: &u32| Rectangle { x: 0, y: 0, width: 0, height: 0 };
    let render = |_asked: u32, _place: Placement| Ok("<svg><defs/></svg>".to_string());
    let tag = padded(0).to_svg_image_tag(5, 6, 0, &probe, measure, render).unwrap();
    let expected = "<?xml version=\"1.0\" encoding=\"UTF-8\"?><svg><defs /><rect width=\"100\" height=\"100\" fill=\"red\" stroke=\"blue\" /></svg>";
    assert_eq!(
        tag,
        format!(
            "<image xmlns:xlink=\"http://www.w3.org/1999/xlink\" x=\"5\" y=\"6\" width=\"100\" height=\"100\" xlink:href=\"data:image/svg+xml;base64, {}\"/>",
            base64::encode(expected)
        )
    );
}

#[test]
fn padding_from_a_list_of_lengths() {
    assert_eq!(PaddingSpecification::from_vec(vec![1]), Ok(PaddingSpecification::new(1, 1, 1, 1)));
    assert_eq!(PaddingSpecification::from_vec(vec![1, 2]), Ok(PaddingSpecification::new(1, 2, 1, 2)));
    assert_eq!(PaddingSpecification::from_vec(vec![1, 2, 3]), Ok(PaddingSpecification::new(1, 2, 3, 2)));
    assert_eq!(PaddingSpecification::from_vec(vec![1, 2, 3, 4]), Ok(PaddingSpecification::new(1, 2, 3, 4)));
    assert_eq!(PaddingSpecification::from_vec(vec![]), Err(PaddingError));
    assert_eq!(PaddingSpecification::from_vec(vec![1, 2, 3, 4, 5]), Err(PaddingError));
    assert_eq!(PaddingSpecification::from_str("1 2 3"), Ok(PaddingSpecification::new(1, 2, 3, 2)));
    assert_eq!(PaddingSpecification::from_str("1 two"), Err(PaddingError));
    assert_eq!(PaddingSpecification::from_str(""), Err(PaddingError));
    let p = PaddingSpecification { left: 4, right: 2, top: 1, bottom: 3 };
    assert_eq!(p, PaddingSpecification::new(1, 2, 3, 4));
    assert_eq!((p.horizontal_padding(), p.vertical_padding()), (6, 4));
    assert_eq!((p.scaled_horizontal_padding(), p.scaled_vertical_padding()), (6 * SCALE, 4 * SCALE));
    assert_eq!(p.to_string(), "1 2 3 4");
    assert_eq!(PaddingSpecification::from_str(&p.to_string()), Ok(p));
    let wide = PaddingSpecification::new(65535, 65535, 65535, 65535);
    assert_eq!(wide.scaled_horizontal_padding(), 131070 * 1024);
}

#[test]
fn end_of_the_definitions() {
    assert!(end_of_defs(&Vec::new()).is_none());
}
