use svgtextbox::checks::{DistanceMeasure, FontDescriptionExt, FontSize};
use svgtextbox::layout::Rectangle;
use svgtextbox::output::{calculate_top_padding, px_of, LayoutOutput};
use svgtextbox::pango_wrappers::{FontDescription, SCALE};
use svgtextbox::svgwriter::{
    find_maximum_font_size, generate_svg, height_units_surplus, pad_top_for, set_flex, set_static, size_layout,
    InkReport, SizeTrial,
};

fn size(points: i32) -> FontSize {
    FontSize::new(points * SCALE).unwrap()
}

/// A stand-in for the backend: the text fits up to `limit` points as a
/// single paragraph, and up to `limit - lost` points as it is set.
fn backend(limit: i32, lost: i32) -> impl Fn(Vec<SizeTrial>, SizeTrial) -> (Vec<SizeTrial>, bool) {
    move |asked: Vec<SizeTrial>, trial: SizeTrial| {
        let mut asked = asked;
        asked.push(trial);
        let fits = if trial.single_paragraph {
            trial.size.pts() <= limit
        } else {
            trial.size.pts() <= limit - lost
        };
        (asked, fits)
    }
}

#[test]
fn test_layout_sizing() {
    let report = InkReport {
        width: 100 * SCALE,
        height: 100 * SCALE,
        ellipsized: false,
        ink: Rectangle { x: 0, y: 2 * SCALE, width: 70 * SCALE, height: 14 * SCALE },
        last_index: 10,
        text_len: 11,
    };
    assert!(report.fits());
    assert!(!InkReport { last_index: 5, ..report }.fits());
    assert!(!InkReport { ellipsized: true, ..report }.fits());
    assert!(!InkReport { width: 10 * SCALE, height: 10 * SCALE, ..report }.fits());
    assert!(!InkReport { ink: Rectangle { x: -1, ..report.ink }, ..report }.fits());
    assert!(!InkReport { ink: Rectangle { y: -1, ..report.ink }, ..report }.fits());
    assert!(InkReport { ink: Rectangle { x: 30 * SCALE, ..report.ink }, ..report }.fits());
    assert!(!InkReport { ink: Rectangle { x: 30 * SCALE + 1, ..report.ink }, ..report }.fits());
    assert!(!InkReport { ink: Rectangle { y: 86 * SCALE + 1, ..report.ink }, ..report }.fits());
    assert_eq!(report.height().as_px(), 100);
    assert_eq!(report.width().as_px(), 100);
}

#[test]
fn test_layout_surplus_height() {
    let surplus = height_units_surplus(&DistanceMeasure::new(100), &DistanceMeasure::new(16));
    assert_eq!(surplus, 84);
    assert_eq!(height_units_surplus(&DistanceMeasure::new(16), &DistanceMeasure::new(16)), 0);
    assert_eq!(height_units_surplus(&DistanceMeasure::new(i32::MIN), &DistanceMeasure::new(i32::MAX)), -4294967295);
}

#[test]
fn test_pad_top() {
    assert_eq!(pad_top_for(10), 5);
    assert_eq!(pad_top_for(11), 5);
    assert_eq!(pad_top_for(-11), -5);
    assert_eq!(pad_top_for(0), 0);
}

#[test]
fn test_get_unset_base_size() {
    let fd = FontDescription::new();
    assert_eq!(fd.fetch_size(), Err(0));
}

#[test]
fn test_get_set_base_size() {
    let mut fd = FontDescription::new();
    fd.size = Some(SCALE);
    assert_eq!(fd.fetch_size().unwrap().scaled(), SCALE);
}

#[test]
fn change_size() {
    let mut fd = FontDescription::new();
    let fs = FontSize::new(10 * 1024).unwrap();
    fd.change_size(&fs);
    assert_eq!(fd.fetch_size().unwrap().scaled(), 10 * 1024);
    assert_eq!(fd.size, Some(10240));
}

#[test]
fn test_change_font_size() {
    let mut fd = FontDescription::from_string("Sans");
    let font_size: FontSize = Default::default();
    let new_font_size = size(25);
    assert!(!(font_size == new_font_size));
    fd.change_size(&new_font_size);
    assert_eq!(fd.fetch_size().unwrap().scaled(), new_font_size.scaled());
    assert_eq!(fd.text, "Sans");
}

#[test]
fn static_layout_no_font_size_set() {
    let (asked, sized) = set_static(Vec::new(), Err(0), &backend(20, 0));
    assert_eq!(sized, Ok(FontSize::default()));
    assert_eq!(asked, vec![SizeTrial { size: size(10), single_paragraph: false }]);
}

#[test]
fn static_layout_font_size_set() {
    let (asked, sized) = set_static(Vec::new(), Ok(size(12)), &backend(20, 0));
    assert_eq!(sized, Ok(size(12)));
    assert_eq!(asked.len(), 1);
}

#[test]
#[should_panic(expected = "Could not fit text at static font size.")]
fn static_layout_font_size_set_too_big() {
    let (_, sized) = set_static(Vec::new(), Ok(size(12)), &backend(11, 0));
    sized.unwrap();
}

#[test]
fn check_get_max_size() {
    let probe = backend(57, 0);
    let (asked, max_size) = find_maximum_font_size(Vec::new(), &probe);
    let max_size = max_size.unwrap();
    assert_eq!(max_size, size(57));
    assert_eq!(*asked.last().unwrap(), SizeTrial { size: max_size, single_paragraph: false });
    assert!(asked.len() <= 12);
    let (_, fits) = probe(Vec::new(), SizeTrial { size: max_size, single_paragraph: false });
    assert!(fits);
    let (_, fits) = probe(Vec::new(), SizeTrial { size: max_size.step_up().unwrap(), single_paragraph: false });
    assert!(!fits);
}

#[test]
fn line_count_increases_from_minimal_size() {
    let (asked, sized) = set_flex(Vec::new(), &backend(57, 3));
    assert_eq!(sized, Ok(size(54)));
    let walked: Vec<i32> = asked.iter().filter(|t| !t.single_paragraph).map(|t| t.size.pts()).collect();
    assert_eq!(walked, vec![57, 56, 55, 54]);
}

#[test]
fn largest_size_at_the_ends_of_the_range() {
    assert_eq!(find_maximum_font_size(Vec::new(), &backend(500, 0)).1, Ok(size(500)));
    assert_eq!(find_maximum_font_size(Vec::new(), &backend(9000, 0)).1, Ok(size(500)));
    assert_eq!(find_maximum_font_size(Vec::new(), &backend(1, 0)).1, Ok(size(1)));
    assert_eq!(find_maximum_font_size(Vec::new(), &backend(0, 0)).1, Err("Could not fit text at any font size."));
    assert_eq!(find_maximum_font_size(Vec::new(), &backend(3, 3)).1, Err("Could not fit text at any font size."));
}

#[test]
fn ink_extents() {
    let (_, sized) = size_layout(Vec::new(), true, Err(0), &backend(300, 0));
    assert_eq!(sized, Ok(size(300)));
    let (_, sized) = size_layout(Vec::new(), false, Err(0), &backend(300, 0));
    assert_eq!(sized, Ok(size(10)));
    let (_, sized) = size_layout(Vec::new(), false, Ok(size(301)), &backend(300, 0));
    assert_eq!(sized, Err("Could not fit text at static font size."));
    let (_, sized) = size_layout(Vec::new(), true, Ok(size(301)), &backend(0, 0));
    assert_eq!(sized, Err("Could not fit text at any font size."));
}

#[test]
fn test_generate_svg() {
    let height = DistanceMeasure::new(1200);
    let font_desc = FontDescription::new();
    let logical_height = |asked: &Vec<SizeTrial>| asked.last().unwrap().size.pts() * 2;
    let render = |asked: Vec<SizeTrial>, pad: i64| {
        assert_eq!(asked.last().unwrap().size, size(100));
        assert_eq!(pad, 350);
        b"<svg/>".to_vec()
    };
    let svg_bytes = generate_svg(&height, &font_desc, true, Vec::new(), &backend(100, 0), logical_height, render);
    assert_eq!(svg_bytes, Ok(b"<svg/>".to_vec()));
    let never = |_asked: Vec<SizeTrial>, _pad: i64| panic!();
    let failed = generate_svg(&height, &font_desc, false, Vec::new(), &backend(9, 0), logical_height, never);
    assert_eq!(failed, Err("Could not fit text at static font size."));
}

#[test]
fn test_padding() {
    let ink = Rectangle { x: 0, y: 3 * SCALE, width: 60 * SCALE, height: 21 * SCALE };
    let height = 100 * SCALE;
    let reported_offset_padding = calculate_top_padding(height, &ink);
    assert_eq!(reported_offset_padding, ((100 - 21) * SCALE / 2 - 3 * SCALE) as i64);
    let start = ink.y as i64;
    let end = (ink.y + ink.height) as i64;
    let total_height_from_start = end + reported_offset_padding;
    let bottom_padding = height as i64 - total_height_from_start;
    let offset_bottom_padding = bottom_padding - start;
    let approx_equal = (offset_bottom_padding - 1 == reported_offset_padding)
        | (offset_bottom_padding == reported_offset_padding)
        | (offset_bottom_padding + 1 == reported_offset_padding);
    assert!(approx_equal);
    assert_eq!(calculate_top_padding(10, &Rectangle { x: 0, y: 0, width: 0, height: 13 }), -1);
    assert_eq!(calculate_top_padding(i32::MIN, &Rectangle { x: 0, y: i32::MAX, width: 0, height: i32::MAX }), -4294967294);
}

#[test]
fn dimensions_reporting() {
    let scaled = DistanceMeasure::new(10).as_scaled_pts();
    assert_eq!(scaled, 7680);
    assert_eq!(px_of(7 * SCALE + 512), 10);
    assert_eq!(px_of(75 * SCALE), 100);
    assert_eq!(px_of(767), 0);
    assert_eq!(px_of(-769), -1);
    let output = LayoutOutput::new(vec![1, 2], 75 * SCALE, 150 * SCALE);
    assert_eq!(output, LayoutOutput { rendered: vec![1, 2], height: 200, width: 100 });
}
