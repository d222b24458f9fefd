//! Styling and layout options, read-only during a conversion.

use crate::block::text_model;
use vstd::prelude::*;
use vstd::string::*;

verus! {

/// The colour that links are drawn in unless configured otherwise.
pub const DEFAULT_LINK_COLOR: &'static str = "#1a4f8b";

/// How links are drawn.
#[derive(Debug, PartialEq, Eq)]
pub struct LinksConfig {
    /// A colour as a hex string.
    pub color: String,
    pub underline: bool,
}

/// Page options.
#[derive(Debug, PartialEq, Eq)]
pub struct PageConfig {
    /// Whether pages are numbered.
    pub numbers: bool,
}

/// Font options.
#[derive(Debug, PartialEq, Eq)]
pub struct FontConfig {
    /// Whether the sans-serif font is used.
    pub sans: bool,
}

/// Pagination options for each heading level from 1 to 6: the space that
/// must be left on the page for the heading to stay there, as a length of
/// the markup language, and the section length in lines from which a page
/// break is forced.
#[derive(Debug, PartialEq, Eq)]
pub struct LayoutConfig {
    pub h1_min_space: Option<String>,
    pub h2_min_space: Option<String>,
    pub h3_min_space: Option<String>,
    pub h4_min_space: Option<String>,
    pub h5_min_space: Option<String>,
    pub h6_min_space: Option<String>,
    pub h1_break_if_lines: Option<usize>,
    pub h2_break_if_lines: Option<usize>,
    pub h3_break_if_lines: Option<usize>,
    pub h4_break_if_lines: Option<usize>,
    pub h5_break_if_lines: Option<usize>,
    pub h6_break_if_lines: Option<usize>,
}

/// All options of a conversion.
#[derive(Debug, PartialEq, Eq)]
pub struct Config {
    pub links: LinksConfig,
    pub page: PageConfig,
    pub font: FontConfig,
    pub layout: LayoutConfig,
}

/// Model of a [`LayoutConfig`].
#[verifier::ext_equal]
pub struct LayoutModel {
    pub h1_min_space: Option<Seq<char>>,
    pub h2_min_space: Option<Seq<char>>,
    pub h3_min_space: Option<Seq<char>>,
    pub h4_min_space: Option<Seq<char>>,
    pub h5_min_space: Option<Seq<char>>,
    pub h6_min_space: Option<Seq<char>>,
    pub h1_break_if_lines: Option<usize>,
    pub h2_break_if_lines: Option<usize>,
    pub h3_break_if_lines: Option<usize>,
    pub h4_break_if_lines: Option<usize>,
    pub h5_break_if_lines: Option<usize>,
    pub h6_break_if_lines: Option<usize>,
}

/// Model of a [`Config`].
#[verifier::ext_equal]
pub struct ConfigModel {
    pub link_color: Seq<char>,
    pub link_underline: bool,
    pub page_numbers: bool,
    pub font_sans: bool,
    pub layout: LayoutModel,
}

impl LayoutModel {
    /// A layout without any reservation or forced break.
    pub open spec fn unset() -> LayoutModel {
        LayoutModel {
            h1_min_space: None,
            h2_min_space: None,
            h3_min_space: None,
            h4_min_space: None,
            h5_min_space: None,
            h6_min_space: None,
            h1_break_if_lines: None,
            h2_break_if_lines: None,
            h3_break_if_lines: None,
            h4_break_if_lines: None,
            h5_break_if_lines: None,
            h6_break_if_lines: None,
        }
    }

    /// The space reserved for a heading of the given level; none for a level
    /// outside 1 to 6.
    pub open spec fn min_space(self, level: u8) -> Option<Seq<char>> {
        if level == 1 {
            self.h1_min_space
        } else if level == 2 {
            self.h2_min_space
        } else if level == 3 {
            self.h3_min_space
        } else if level == 4 {
            self.h4_min_space
        } else if level == 5 {
            self.h5_min_space
        } else if level == 6 {
            self.h6_min_space
        } else {
            None
        }
    }

    /// The section length from which a heading of the given level forces a
    /// page break; none for a level outside 1 to 6.
    pub open spec fn break_if_lines(self, level: u8) -> Option<usize> {
        if level == 1 {
            self.h1_break_if_lines
        } else if level == 2 {
            self.h2_break_if_lines
        } else if level == 3 {
            self.h3_break_if_lines
        } else if level == 4 {
            self.h4_break_if_lines
        } else if level == 5 {
            self.h5_break_if_lines
        } else if level == 6 {
            self.h6_break_if_lines
        } else {
            None
        }
    }
}

impl ConfigModel {
    /// The options used where nothing is configured: links underlined in
    /// the default colour, no page numbers, the serif font, no reservation
    /// and no forced break.
    pub open spec fn standard() -> ConfigModel {
        ConfigModel {
            link_color: DEFAULT_LINK_COLOR@,
            link_underline: true,
            page_numbers: false,
            font_sans: false,
            layout: LayoutModel::unset(),
        }
    }
}

impl View for LayoutConfig {
    type V = LayoutModel;

    open spec fn view(&self) -> LayoutModel {
        LayoutModel {
            h1_min_space: text_model(self.h1_min_space),
            h2_min_space: text_model(self.h2_min_space),
            h3_min_space: text_model(self.h3_min_space),
            h4_min_space: text_model(self.h4_min_space),
            h5_min_space: text_model(self.h5_min_space),
            h6_min_space: text_model(self.h6_min_space),
            h1_break_if_lines: self.h1_break_if_lines,
            h2_break_if_lines: self.h2_break_if_lines,
            h3_break_if_lines: self.h3_break_if_lines,
            h4_break_if_lines: self.h4_break_if_lines,
            h5_break_if_lines: self.h5_break_if_lines,
            h6_break_if_lines: self.h6_break_if_lines,
        }
    }
}

impl View for Config {
    type V = ConfigModel;

    open spec fn view(&self) -> ConfigModel {
        ConfigModel {
            link_color: self.links.color@,
            link_underline: self.links.underline,
            page_numbers: self.page.numbers,
            font_sans: self.font.sans,
            layout: self.layout@,
        }
    }
}

/// The model of an optional string slice.
pub open spec fn slice_model(text: Option<&str>) -> Option<Seq<char>> {
    match text {
        Some(text) => Some(text@),
        None => None,
    }
}

/// An optional string as an optional slice.
fn as_slice(text: &Option<String>) -> (slice: Option<&str>)
    ensures
        slice_model(slice) == text_model(*text),
{
    match text {
        Some(text) => Some(text.as_str()),
        None => None,
    }
}

impl Default for LinksConfig {
    fn default() -> (links: LinksConfig)
        ensures
            links.color@ == DEFAULT_LINK_COLOR@,
            links.underline,
    {
        LinksConfig { color: String::from_str(DEFAULT_LINK_COLOR), underline: true }
    }
}

impl Default for PageConfig {
    fn default() -> (page: PageConfig)
        ensures
            !page.numbers,
    {
        PageConfig { numbers: false }
    }
}

impl Default for FontConfig {
    fn default() -> (font: FontConfig)
        ensures
            !font.sans,
    {
        FontConfig { sans: false }
    }
}

impl Default for LayoutConfig {
    fn default() -> (layout: LayoutConfig)
        ensures
            layout@ == LayoutModel::unset(),
    {
        LayoutConfig {
            h1_min_space: None,
            h2_min_space: None,
            h3_min_space: None,
            h4_min_space: None,
            h5_min_space: None,
            h6_min_space: None,
            h1_break_if_lines: None,
            h2_break_if_lines: None,
            h3_break_if_lines: None,
            h4_break_if_lines: None,
            h5_break_if_lines: None,
            h6_break_if_lines: None,
        }
    }
}

impl Default for Config {
    fn default() -> (config: Config)
        ensures
            config@ == ConfigModel::standard(),
    {
        Config {
            links: LinksConfig::default(),
            page: PageConfig::default(),
            font: FontConfig::default(),
            layout: LayoutConfig::default(),
        }
    }
}

impl LayoutConfig {
    /// The minimum space requirement for a heading level, or `None` where
    /// none is set.
    pub fn min_space_for_heading(&self, level: u8) -> (space: Option<&str>)
        ensures
            slice_model(space) == self@.min_space(level),
    {
        match level {
            1 => as_slice(&self.h1_min_space),
            2 => as_slice(&self.h2_min_space),
            3 => as_slice(&self.h3_min_space),
            4 => as_slice(&self.h4_min_space),
            5 => as_slice(&self.h5_min_space),
            6 => as_slice(&self.h6_min_space),
            _ => None,
        }
    }

    /// The line threshold from which a heading level forces a page break, or
    /// `None` where none is set.
    pub fn break_if_lines_for_heading(&self, level: u8) -> (threshold: Option<usize>)
        ensures
            threshold == self@.break_if_lines(level),
    {
        match level {
            1 => self.h1_break_if_lines,
            2 => self.h2_break_if_lines,
            3 => self.h3_break_if_lines,
            4 => self.h4_break_if_lines,
            5 => self.h5_break_if_lines,
            6 => self.h6_break_if_lines,
            _ => None,
        }
    }
}

} // verus!
