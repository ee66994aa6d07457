//! Fits marked-up text into a box: the admissible font sizes and box
//! dimensions, the judgement whether a laid-out text fits, the search for the
//! largest fitting font size and the smallest fitting box, and the arithmetic
//! of padding around the result.

pub mod attributes;
pub mod checks;
pub mod enum_matches;
pub mod errors;
pub mod fontsizing;
pub mod input;
pub mod layout;
pub mod markup;
pub mod output;
pub mod padded_textbox;
pub mod pango_interactions;
pub mod pango_wrappers;
pub mod svgwriter;
pub mod text;
pub mod textbox;
pub mod utils;
pub mod xml_fetcher;
pub mod xml_support;
