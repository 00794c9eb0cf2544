//! The marker prefixes: the texts with which an e-reader starts the lines that
//! say where a bookmark, a highlight or a note was taken. They depend on the
//! language of the device, so each can be replaced.
use vstd::prelude::*;

verus! {

/// The three prefixes as texts.
pub ghost struct Markers {
    pub bookmark: Seq<char>,
    pub highlight: Seq<char>,
    pub note: Seq<char>,
}

/// The prefixes of the lines that carry no content.
#[derive(Debug)]
pub struct ParserConfig {
    pub bookmark: String,
    pub highlight: String,
    pub note: String,
}

/// The configuration of the whole application.
#[derive(Debug)]
pub struct AppConfig {
    pub parser: ParserConfig,
}

/// Replacements for the prefixes: each one that is given replaces the prefix
/// that is built in.
#[derive(Debug)]
pub struct ParserOverrides {
    pub bookmark: Option<String>,
    pub highlight: Option<String>,
    pub note: Option<String>,
}

impl View for ParserConfig {
    type V = Markers;

    open spec fn view(&self) -> Markers {
        Markers { bookmark: self.bookmark@, highlight: self.highlight@, note: self.note@ }
    }
}

/// The prefixes of a device that is set to French.
pub open spec fn default_markers() -> Markers {
    Markers {
        bookmark: "- Votre signet"@,
        highlight: "- Votre surlignement"@,
        note: "- Votre note"@,
    }
}

/// The given text where there is one, `fallback` where there is none.
pub open spec fn text_or(given: Option<String>, fallback: Seq<char>) -> Seq<char> {
    match given {
        Some(text) => text@,
        None => fallback,
    }
}

/// The prefixes that hold once `overrides` have replaced the built-in ones.
pub open spec fn merged_markers(overrides: Option<ParserOverrides>) -> Markers {
    match overrides {
        Some(given) => Markers {
            bookmark: text_or(given.bookmark, default_markers().bookmark),
            highlight: text_or(given.highlight, default_markers().highlight),
            note: text_or(given.note, default_markers().note),
        },
        None => default_markers(),
    }
}

fn chosen(given: Option<String>, fallback: &str) -> (text: String)
    ensures
        text@ == text_or(given, fallback@),
{
    match given {
        Some(text) => text,
        None => fallback.to_owned(),
    }
}

impl AppConfig {
    /// The configuration in which each prefix is the one that `overrides` give
    /// for it, and the built-in one where they give none.
    pub fn new(overrides: Option<ParserOverrides>) -> (config: AppConfig)
        ensures
            config.parser@ == merged_markers(overrides),
            overrides is None ==> config.parser@ == default_markers(),
    {
        let given = match overrides {
            Some(given) => given,
            None => ParserOverrides { bookmark: None, highlight: None, note: None },
        };
        AppConfig {
            parser: ParserConfig {
                bookmark: chosen(given.bookmark, "- Votre signet"),
                highlight: chosen(given.highlight, "- Votre surlignement"),
                note: chosen(given.note, "- Votre note"),
            },
        }
    }
}

} // verus!
