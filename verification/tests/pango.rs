use svgtextbox::enum_matches::{PangoEnumMatch, Stretch, Style, Variant, Weight};
use svgtextbox::errors::{LayoutError, SvgTextBoxError};
use svgtextbox::pango_interactions::{
    FontDescriptionWrapper as CheckedFontDescription, PangoAlignmentDef, PangoCompatibleString,
    PangoCompatibleStringError,
};
use svgtextbox::pango_wrappers::{Alignment, AlignmentWrapper, FontDescription, FontDescriptionWrapper};

fn parses(text: &str) -> bool {
    !text.contains('<') && !text.contains("&amp ")
}

#[test]
fn pango_interactions_name() {
    let markup = PangoCompatibleString::convert(" Trouble & Strife ", parses).unwrap();
    assert_eq!(markup.as_ref(), "Trouble &amp; Strife");
    assert_eq!(markup.to_string(), "Trouble &amp; Strife");
    assert_eq!(PangoCompatibleString::convert(" \n", parses), Err(PangoCompatibleStringError::Whitespace));
    assert_eq!(PangoCompatibleString::convert("", parses), Err(PangoCompatibleStringError::Whitespace));
    assert_eq!(
        PangoCompatibleString::convert("a\u{0}", parses),
        Err(PangoCompatibleStringError::BadChar { src: "a\u{0}".to_string() })
    );
    assert_eq!(
        PangoCompatibleString::convert("Trouble &amp Strife", parses),
        Err(PangoCompatibleStringError::Reported { src: "Trouble &amp Strife".to_string() })
    );

    let mut font = CheckedFontDescription::convert("Sans 10", parses).unwrap();
    assert_eq!(font.to_string(), "Sans 10");
    let copy = font.set_family("Serif");
    assert_eq!(copy.as_ref().family, Some("Serif".to_string()));
    assert_eq!(font.set_weight(Weight::Bold).as_ref().weight, Some(Weight::Bold));
    assert_eq!(font.set_style(Style::Italic).as_ref().style, Some(Style::Italic));
    let last = font.set_variant(Variant::SmallCaps);
    assert_eq!(last, font);
    assert_eq!(
        *last.as_ref(),
        FontDescription {
            text: "Sans 10".to_string(),
            family: Some("Serif".to_string()),
            style: Some(Style::Italic),
            variant: Some(Variant::SmallCaps),
            weight: Some(Weight::Bold),
            stretch: None,
            size: None,
        }
    );
    assert_eq!(CheckedFontDescription::default().to_string(), "");
    assert!(CheckedFontDescription::convert("\u{0}", parses).is_err());

    assert_eq!(PangoAlignmentDef::default(), Alignment::Center);
    assert_eq!(PangoAlignmentDef::Left.alignment(), Alignment::Left);
    assert_eq!(PangoAlignmentDef::Right.alignment(), Alignment::Right);
    assert_eq!(PangoAlignmentDef::__Unknown(7).alignment(), Alignment::Center);
}

#[test]
fn test_get_variants() {
    let w = Weight::from_str("bold");
    let s = Style::from_str("italic");
    let v = Variant::from_str("smallcaps");
    let stretch = Stretch::from_str("condensed");
    assert_eq!(w.unwrap(), Weight::Bold);
    assert_eq!(s.unwrap(), Style::Italic);
    assert_eq!(v.unwrap(), Variant::SmallCaps);
    assert_eq!(stretch.unwrap(), Stretch::Condensed);
}

#[test]
fn test_get_bad_variants() {
    let w = Weight::from_str("bad");
    let s = Style::from_str("bad");
    let v = Variant::from_str("bad");
    let stretch = Stretch::from_str("bad");
    assert!(w.is_err());
    assert!(s.is_err());
    assert!(v.is_err());
    assert!(stretch.is_err());
    assert_eq!(w, Err(LayoutError::CouldNotTransformStrToPangoEnum { msg: "bad".to_string() }));
}

#[test]
fn test_weight_equivalents() {
    let semibold = Weight::from_str("600").unwrap();
    let also_semibold = Weight::from_str("demibold").unwrap();
    let yeahp_semibold = Weight::from_str("semibold").unwrap();
    assert_eq!(semibold, also_semibold);
    assert_eq!(semibold, yeahp_semibold);
}

#[test]
fn every_name_of_a_font_property() {
    let weights = [
        ("100", Weight::Thin), ("thin", Weight::Thin), ("hairline", Weight::Thin),
        ("200", Weight::Ultralight), ("ultralight", Weight::Ultralight), ("extralight", Weight::Ultralight),
        ("300", Weight::Light), ("light", Weight::Light),
        ("350", Weight::Semilight), ("semilight", Weight::Semilight),
        ("380", Weight::Book), ("book", Weight::Book),
        ("400", Weight::Normal), ("normal", Weight::Normal),
        ("500", Weight::Medium), ("medium", Weight::Medium),
        ("600", Weight::Semibold), ("semibold", Weight::Semibold), ("demibold", Weight::Semibold),
        ("700", Weight::Bold), ("bold", Weight::Bold),
        ("800", Weight::Ultrabold), ("ultrabold", Weight::Ultrabold), ("extrabold", Weight::Ultrabold),
        ("900", Weight::Heavy), ("black", Weight::Heavy), ("heavy", Weight::Heavy),
        ("1000", Weight::Ultraheavy), ("ultraheavy", Weight::Ultraheavy),
    ];
    for (name, weight) in weights.iter() {
        assert_eq!(Weight::from_str(name), Ok(*weight));
    }
    assert_eq!(Style::from_str("oblique"), Ok(Style::Oblique));
    assert_eq!(Style::from_str("normal"), Ok(Style::Normal));
    assert_eq!(Variant::from_str("normal"), Ok(Variant::Normal));
    let stretches = [
        ("ultracondensed", Stretch::UltraCondensed), ("extracondensed", Stretch::ExtraCondensed),
        ("condensed", Stretch::Condensed), ("semicondensed", Stretch::SemiCondensed),
        ("normal", Stretch::Normal), ("semiexpanded", Stretch::SemiExpanded),
        ("expanded", Stretch::Expanded), ("extraexpanded", Stretch::ExtraExpanded),
        ("ultraexpanded", Stretch::UltraExpanded),
    ];
    for (name, stretch) in stretches.iter() {
        assert_eq!(Stretch::from_str(name), Ok(*stretch));
    }
    assert!(Weight::from_str("Bold").is_err());
}

#[test]
fn alignment_from_a_word_in_any_case() {
    assert_eq!("left".parse::<AlignmentWrapper>(), Ok(AlignmentWrapper(Alignment::Left)));
    assert_eq!("Centre".parse::<AlignmentWrapper>(), Ok(AlignmentWrapper(Alignment::Center)));
    assert_eq!("CENTER".parse::<AlignmentWrapper>(), Ok(AlignmentWrapper(Alignment::Center)));
    assert_eq!("right".parse::<AlignmentWrapper>(), Ok(AlignmentWrapper(Alignment::Right)));
    assert_eq!("middle".parse::<AlignmentWrapper>(), Err(SvgTextBoxError::InvalidAlignment));
    assert_eq!(AlignmentWrapper::default(), AlignmentWrapper(Alignment::Center));
    for alignment in [Alignment::Left, Alignment::Center, Alignment::Right] {
        let word = AlignmentWrapper(alignment).to_string();
        assert_eq!(word.parse::<AlignmentWrapper>(), Ok(AlignmentWrapper(alignment)));
    }
    assert_eq!(AlignmentWrapper(Alignment::Center).to_string(), "center");
}

#[test]
fn is_good_ref() {
    let fd = "Times New Roman".parse::<FontDescriptionWrapper>().unwrap();
    assert_eq!(fd.0, FontDescription::from_string("Times New Roman"));
}

#[test]
fn font_description_from_a_text() {
    let fdw: FontDescriptionWrapper = "Times New Roman, bold".parse().unwrap();
    let fds = fdw.to_string();
    let fdw2: FontDescriptionWrapper = fds.parse().unwrap();
    assert_eq!(fdw, fdw2);
    assert_eq!("a\u{0}b".parse::<FontDescriptionWrapper>(), Err(SvgTextBoxError::NulError));
    assert_eq!(FontDescriptionWrapper::default().0, FontDescription::new());
}
