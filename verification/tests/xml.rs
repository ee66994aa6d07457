use svgtextbox::errors::{IntParseFailure, SvgTextBoxError};
use svgtextbox::pango_wrappers::Alignment;
use svgtextbox::textbox::PaddingSpecification;
use svgtextbox::xml_fetcher::{
    fetch_padding, fetch_units, font_size_keys, get_textbox, height_keys, width_keys, TextBoxToRender,
};
use svgtextbox::xml_support::{
    convert_textbox_src, data_uri, image_element, image_href, plan_replacement, ConvertedTextBox, ImageElement,
    Replacement,
};

fn parses(text: &str) -> bool {
    !text.contains('<') && !text.contains("&amp ")
}

fn attrs(pairs: &[(&str, &str)]) -> Vec<(String, String)> {
    pairs.iter().map(|(k, v)| (k.to_string(), v.to_string())).collect()
}

#[test]
fn units_from_one_attribute_or_from_a_range() {
    let mut given = attrs(&[("width", "200 100"), ("fill", "red"), ("min-width", "7")]);
    assert_eq!(fetch_units(&mut given, &width_keys()).unwrap().iter(), vec![100, 200]);
    assert_eq!(given, attrs(&[("fill", "red")]));
    assert_eq!(fetch_units(&mut given, &width_keys()).unwrap().iter(), (100..=1000).step_by(10).collect::<Vec<u16>>());
    assert_eq!(fetch_units(&mut given, &height_keys()).unwrap().iter().len(), 91);
    assert_eq!(fetch_units(&mut given, &font_size_keys()).unwrap().iter(), (1..=100).collect::<Vec<u16>>());
    let mut given = attrs(&[("min-height", "10"), ("max-height", "20"), ("height-step", "5")]);
    assert_eq!(fetch_units(&mut given, &height_keys()).unwrap().iter(), vec![10, 15, 20]);
    assert!(given.is_empty());
}

#[test]
fn units_that_cannot_be_fetched() {
    let fetch = |pairs: &[(&str, &str)]| {
        let mut given = attrs(pairs);
        (fetch_units(&mut given, &font_size_keys()).err(), given.len())
    };
    let bad = |kind| Some(SvgTextBoxError::BadIntParse(kind));
    assert_eq!(fetch(&[("font-size", "x"), ("min-font-size", "1")]), (bad(IntParseFailure::InvalidDigit), 1));
    assert_eq!(fetch(&[("font-size", ""), ("min-font-size", "1")]), (Some(SvgTextBoxError::InvalidUnits), 1));
    assert_eq!(fetch(&[("font-size", "1"), ("max-font-size", "-")]), (bad(IntParseFailure::InvalidDigit), 0));
    assert_eq!(fetch(&[("min-font-size", ""), ("max-font-size", "-")]), (bad(IntParseFailure::Empty), 1));
    assert_eq!(fetch(&[("font-size-step", "70000")]), (bad(IntParseFailure::PosOverflow), 0));
    assert_eq!(fetch(&[("min-font-size", "101")]), (Some(SvgTextBoxError::InvalidUnits), 0));
    assert_eq!(fetch(&[("font-size-step", "0")]), (Some(SvgTextBoxError::InvalidUnits), 0));
    assert_eq!(fetch(&[("font-size", "5"), ("font-size-step", "0")]), (None, 0));
}

#[test]
fn padding_from_one_attribute_or_from_four() {
    let mut given = attrs(&[("padding", "1 2"), ("padding-top", "9"), ("x", "3")]);
    assert_eq!(fetch_padding(&mut given), Ok(PaddingSpecification::new(1, 2, 1, 2)));
    assert_eq!(given, attrs(&[("x", "3")]));
    let mut given = attrs(&[("padding-top", "1"), ("padding-left", "4"), ("padding-bottom", "3")]);
    assert_eq!(fetch_padding(&mut given), Ok(PaddingSpecification::new(1, 0, 3, 4)));
    assert_eq!(fetch_padding(&mut given), Ok(PaddingSpecification::default()));
    let mut given = attrs(&[("padding-right", "-1"), ("padding-left", "4")]);
    assert_eq!(fetch_padding(&mut given), Err(SvgTextBoxError::BadIntParse(IntParseFailure::InvalidDigit)));
    assert_eq!(given, attrs(&[("padding-left", "4")]));
    let mut given = attrs(&[("padding", "1 two")]);
    assert_eq!(fetch_padding(&mut given), Err(SvgTextBoxError::BadIntParse(IntParseFailure::InvalidDigit)));
}

#[test]
fn a_text_box_from_its_attributes() {
    let given = attrs(&[
        ("x", "5"),
        ("width", "200"),
        ("height", "100 200"),
        ("padding-top", "10"),
        ("style", "fill:red;"),
        ("alignment", "Left"),
        ("font-desc", "Serif"),
        ("markup", "shadowed"),
        ("__id", "tb-7"),
    ]);
    let request = get_textbox("Hello & World", given, parses).unwrap();
    assert_eq!((request.x, request.y), (5, 0));
    assert_eq!(request.prefix, "tb-7");
    let tb = &request.textbox;
    assert_eq!(tb.markup.as_ref(), "Hello &amp; World");
    assert_eq!(tb.width.iter(), vec![200]);
    assert_eq!(tb.height.iter().len(), 101);
    assert_eq!(tb.font_size.iter(), (1..=100).collect::<Vec<u16>>());
    assert_eq!(tb.padding, PaddingSpecification::new(10, 0, 0, 0));
    assert_eq!(tb.alignment.0, Alignment::Left);
    assert_eq!(tb.font_desc.0.text, "Serif");
    assert_eq!(tb.padding_attrs, attrs(&[("style", "fill:red;")]));
    assert_eq!(request.get_translate_value(), Some("translate(5,0)".to_string()));
}

#[test]
fn a_text_box_with_nothing_but_markup() {
    let request = TextBoxToRender::try_from(attrs(&[("markup", "Hi")]), parses).unwrap();
    assert_eq!((request.x, request.y), (0, 0));
    assert_eq!(request.prefix, "textbox-00");
    assert_eq!(request.textbox.alignment.0, Alignment::Center);
    assert_eq!(request.textbox.font_desc.0.text, "");
    assert_eq!(request.textbox.width.iter().len(), 91);
    assert!(request.textbox.padding_attrs.is_empty());
    assert_eq!(request.get_translate_value(), None);
    assert_eq!(
        request.render("<svg><g/></svg>"),
        "<svg><g/><?svgtextbox-prefix textbox-00?>\n<?svgtextbox-x_offset 0 ?>\n<svgtextbox-y_offset 0?>\n</svg>"
    );
}

#[test]
fn text_boxes_that_cannot_be_read() {
    let error = |pairs: &[(&str, &str)]| TextBoxToRender::try_from(attrs(pairs), parses).err();
    assert_eq!(error(&[("x", "1")]), Some(SvgTextBoxError::MissingMarkup));
    assert_eq!(error(&[("markup", " "), ("x", "a")]), Some(SvgTextBoxError::PCSWhitespace));
    assert_eq!(error(&[("markup", "<b>"), ("x", "a")]), Some(SvgTextBoxError::GlibErr("<b>".to_string())));
    let bad = Some(SvgTextBoxError::BadIntParse(IntParseFailure::InvalidDigit));
    assert_eq!(error(&[("markup", "a"), ("x", "a"), ("y", "70000")]), bad);
    assert_eq!(error(&[("markup", "a"), ("y", "-1"), ("width", "0")]), bad);
    assert_eq!(error(&[("markup", "a"), ("width", "0"), ("height", "x")]), Some(SvgTextBoxError::BadIntParse(IntParseFailure::Zero)));
    assert_eq!(error(&[("markup", "a"), ("height", "x"), ("padding", "")]), bad);
    assert_eq!(error(&[("markup", "a"), ("padding", "q"), ("max-font-size", "0")]), bad);
    assert_eq!(error(&[("markup", "a"), ("max-font-size", "0"), ("alignment", "up")]), Some(SvgTextBoxError::InvalidUnits));
    assert_eq!(error(&[("markup", "a"), ("alignment", "up"), ("font-desc", "\u{0}")]), Some(SvgTextBoxError::InvalidAlignment));
    assert_eq!(error(&[("markup", "a"), ("font-desc", "\u{0}")]), Some(SvgTextBoxError::NulError));
}

#[test]
fn elements_without_markup() {
    assert_eq!(convert_textbox_src(None, attrs(&[]), parses).err(), Some(SvgTextBoxError::MissingMarkup));
    assert_eq!(
        convert_textbox_src(Some("<markup/>".to_string()), attrs(&[]), parses).err(),
        Some(SvgTextBoxError::MissingMarkup)
    );
    let request = convert_textbox_src(Some("Hello".to_string()), attrs(&[("y", "200")]), parses).unwrap();
    assert_eq!(request.y, 200);
    assert_eq!(request.textbox.markup.as_ref(), "Hello");
}

#[test]
fn an_image_in_place_of_a_text_box() {
    assert_eq!(image_href("hello world"), "data:image/svg+xml;base64, aGVsbG8gd29ybGQ=");
    assert_eq!(data_uri("QQ=="), "data:image/svg+xml;base64, QQ==");
    let converted = ConvertedTextBox {
        prefix: "tb".to_string(),
        image: "<svg/>".to_string(),
        x: 0,
        y: 200,
        width: 200,
        height: -1,
    };
    let element = ImageElement {
        x: "0".to_string(),
        y: "200".to_string(),
        width: "200".to_string(),
        height: "-1".to_string(),
        href: "data:image/svg+xml;base64, PHN2Zy8+".to_string(),
    };
    assert_eq!(image_element(&converted), element);
    assert_eq!(plan_replacement(Ok(converted)), Ok(Replacement::Image(element)));
    assert_eq!(plan_replacement(Err(SvgTextBoxError::MissingMarkup)), Ok(Replacement::Remove));
    assert_eq!(plan_replacement(Err(SvgTextBoxError::CouldNotFit)), Err(SvgTextBoxError::CouldNotFit));
}
