//! The settings of the overlay: the size of the window and the opacity of its
//! text, read from an INI document.
//!
//! Reading never fails. A document that cannot be parsed, a key that is not
//! there and a value that is not a number of the right size each leave the
//! default in place.

use ini::{Ini, ParseError};
use vstd::prelude::*;
use vstd::string::*;
use crate::decimal::{decimal, parse_u32, parse_u8};

verus! {

/// `ini::Ini`, a parsed INI document. Nothing inside it is visible here: what
/// it holds is spoken of through `ini_entries`.
#[verifier::external_type_specification]
#[verifier::external_body]
pub struct ExIni(Ini);

/// `ini::ParseError`, the reason for which a text was rejected. It is only
/// carried; nothing is read from it.
#[verifier::external_type_specification]
#[verifier::external_body]
pub struct ExParseError(ParseError);

/// What a lookup by section name and key finds in `document`: the pairs of a
/// section name and a key that have a value, each with the value found.
pub uninterp spec fn ini_entries(document: Ini) -> Map<(Seq<char>, Seq<char>), Seq<char>>;

/// What `ini` makes of `text`: the entries of the document that it reads
/// from it, or nothing where it rejects the text.
pub uninterp spec fn ini_parse(text: Seq<char>) -> Option<Map<(Seq<char>, Seq<char>), Seq<char>>>;

/// `ini::Ini::load_from_str` parses a text with the crate's default options.
/// What it returns depends on the text alone: the same text is always
/// rejected, or always gives a document with the same entries. Nothing is
/// claimed about which texts are accepted or what the entries are.
pub assume_specification[ Ini::load_from_str ](buf: &str) -> (outcome: Result<Ini, ParseError>)
    ensures
        match outcome {
            Ok(document) => ini_parse(buf@) == Some(ini_entries(document)),
            Err(_) => ini_parse(buf@).is_none(),
        },
;

/// Looks `key` up in the section named `section` with `ini::Ini::get_from`,
/// which returns the first value of the key in the first section of that
/// name, or `None` where the section or the key is missing. The contract
/// says that this is the entry of the document for the pair.
#[verifier::external_body]
fn lookup<'a>(document: &'a Ini, section: &str, key: &str) -> (value: Option<&'a str>)
    ensures
        value.is_some() <==> ini_entries(*document).contains_key((section@, key@)),
        value.is_some() ==> value.unwrap()@ == ini_entries(*document)[(section@, key@)],
{
    document.get_from(Some(section), key)
}

/// The values of the settings as they stand in a document, unread.
pub struct RawFields {
    pub width: Option<Seq<char>>,
    pub height: Option<Seq<char>>,
    pub x: Option<Seq<char>>,
    pub y: Option<Seq<char>>,
    pub color_shift_level: Option<Seq<char>>,
}

/// The entry for `section` and `key`, if there is one.
pub open spec fn entry(
    entries: Map<(Seq<char>, Seq<char>), Seq<char>>,
    section: Seq<char>,
    key: Seq<char>,
) -> Option<Seq<char>> {
    if entries.contains_key((section, key)) {
        Some(entries[(section, key)])
    } else {
        None
    }
}

impl RawFields {
    /// No value at all.
    pub open spec fn empty() -> RawFields {
        RawFields { width: None, height: None, x: None, y: None, color_shift_level: None }
    }

    /// The values that the settings have among `entries`: the size and the
    /// position under `window`, the opacity under `text`.
    pub open spec fn of_entries(entries: Map<(Seq<char>, Seq<char>), Seq<char>>) -> RawFields {
        RawFields {
            width: entry(entries, "window"@, "width"@),
            height: entry(entries, "window"@, "height"@),
            x: entry(entries, "window"@, "x"@),
            y: entry(entries, "window"@, "y"@),
            color_shift_level: entry(entries, "text"@, "color_shift_level"@),
        }
    }

    /// The values that the settings have in the document written in `text`.
    pub open spec fn of_text(text: Seq<char>) -> RawFields {
        match ini_parse(without_mark(text)) {
            Some(entries) => RawFields::of_entries(entries),
            None => RawFields::empty(),
        }
    }
}

/// The byte-order mark that some editors put at the start of a file.
pub const BYTE_ORDER_MARK: char = '\u{feff}';

/// `text` without a byte-order mark at its start.
pub open spec fn without_mark(text: Seq<char>) -> Seq<char> {
    if text.len() > 0 && text[0] == BYTE_ORDER_MARK {
        text.skip(1)
    } else {
        text
    }
}

/// Drops a byte-order mark from the start of `text`.
pub fn strip_mark(text: &str) -> (rest: &str)
    ensures
        rest@ == without_mark(text@),
{
    if text.is_empty() {
        return text;
    }
    if text.get_char(0) == BYTE_ORDER_MARK {
        let n = text.unicode_len();
        let rest = text.substring_char(1, n);
        assert(rest@ =~= text@.skip(1));
        rest
    } else {
        text
    }
}

/// The values of the settings as text, as a document gives them. The
/// position is kept as text: it may be any decimal fraction, which is for the
/// program to read.
#[derive(Clone, Debug)]
pub struct RawConfig {
    pub width: Option<String>,
    pub height: Option<String>,
    pub x: Option<String>,
    pub y: Option<String>,
    pub color_shift_level: Option<String>,
}

/// The characters of an optional text.
pub open spec fn text_of(value: Option<String>) -> Option<Seq<char>> {
    match value {
        Some(s) => Some(s@),
        None => None,
    }
}

impl View for RawConfig {
    type V = RawFields;

    open spec fn view(&self) -> RawFields {
        RawFields {
            width: text_of(self.width),
            height: text_of(self.height),
            x: text_of(self.x),
            y: text_of(self.y),
            color_shift_level: text_of(self.color_shift_level),
        }
    }
}

fn owned(value: Option<&str>) -> (text: Option<String>)
    ensures
        value.is_some() <==> text.is_some(),
        value.is_some() ==> text.unwrap()@ == value.unwrap()@,
{
    match value {
        Some(v) => Some(v.to_owned()),
        None => None,
    }
}

impl RawConfig {
    /// No value at all.
    pub fn empty() -> (raw: RawConfig)
        ensures
            raw@ == RawFields::empty(),
    {
        RawConfig { width: None, height: None, x: None, y: None, color_shift_level: None }
    }

    /// Looks the settings up in a parsed document.
    pub fn from_document(document: &Ini) -> (raw: RawConfig)
        ensures
            raw@ == RawFields::of_entries(ini_entries(*document)),
    {
        RawConfig {
            width: owned(lookup(document, "window", "width")),
            height: owned(lookup(document, "window", "height")),
            x: owned(lookup(document, "window", "x")),
            y: owned(lookup(document, "window", "y")),
            color_shift_level: owned(lookup(document, "text", "color_shift_level")),
        }
    }

    /// Parses `text` as an INI document, a leading byte-order mark set
    /// aside, and looks the settings up in it. A text that is no INI
    /// document gives no value.
    pub fn from_text(text: &str) -> (raw: RawConfig)
        ensures
            raw@ == RawFields::of_text(text@),
    {
        match Ini::load_from_str(strip_mark(text)) {
            Ok(document) => RawConfig::from_document(&document),
            Err(_) => RawConfig::empty(),
        }
    }
}

/// The settings that the coordinator and the window are set up with.
#[derive(Clone, Copy, Debug, PartialEq, Eq, Hash, Structural)]
pub struct Config {
    /// The width of the window.
    pub width: u32,
    /// The height of the window, which is the height of the viewport.
    pub height: u32,
    /// The opacity of the text, from 0 (invisible) to 255 (solid).
    pub text_alpha: u8,
}

/// The number written in `text`, or `fallback` where there is no text or the
/// text is no number of at most `max`.
pub open spec fn number_or(text: Option<Seq<char>>, max: int, fallback: int) -> int {
    match text {
        Some(t) => match decimal(t, max) {
            Some(v) => v,
            None => fallback,
        },
        None => fallback,
    }
}

impl Config {
    /// The settings of a window of 800 by 600 with text of opacity 150.
    pub open spec fn spec_default() -> Config {
        Config { width: 800, height: 600, text_alpha: 150 }
    }

    /// The settings that `fields` give: each value that is a number of the
    /// right size, and the default for every other.
    pub open spec fn resolved(fields: RawFields) -> Config {
        Config {
            width: number_or(fields.width, u32::MAX as int, 800) as u32,
            height: number_or(fields.height, u32::MAX as int, 600) as u32,
            text_alpha: number_or(fields.color_shift_level, u8::MAX as int, 150) as u8,
        }
    }

    /// Reads the numbers out of the raw values, keeping the default wherever
    /// a value is missing or cannot be read.
    pub fn resolve(raw: &RawConfig) -> (config: Config)
        ensures
            config == Config::resolved(raw@),
    {
        let mut config = Config::default();
        match &raw.width {
            Some(text) => match parse_u32(text.as_str()) {
                Some(v) => {
                    config.width = v;
                },
                None => {},
            },
            None => {},
        }
        match &raw.height {
            Some(text) => match parse_u32(text.as_str()) {
                Some(v) => {
                    config.height = v;
                },
                None => {},
            },
            None => {},
        }
        match &raw.color_shift_level {
            Some(text) => match parse_u8(text.as_str()) {
                Some(v) => {
                    config.text_alpha = v;
                },
                None => {},
            },
            None => {},
        }
        config
    }
}

impl Default for Config {
    fn default() -> (config: Config)
        ensures
            config == Config::spec_default(),
    {
        Config { width: 800, height: 600, text_alpha: 150 }
    }
}

/// The settings for the content of the settings file: `None` where the file
/// is missing or cannot be read, which is no error and gives the defaults.
pub fn load_config(content: Option<&str>) -> (config: Config)
    ensures
        config == match content {
            Some(text) => Config::resolved(RawFields::of_text(text@)),
            None => Config::spec_default(),
        },
{
    match content {
        Some(text) => Config::resolve(&RawConfig::from_text(text)),
        None => Config::default(),
    }
}

} // verus!
