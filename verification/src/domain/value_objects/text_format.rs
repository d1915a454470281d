//! The output format of generated text.

use vstd::prelude::*;
use crate::domain::errors::{DomainError, DomainResult};
use crate::domain::text::{lacks, lowercase_of, lowercased, text_is};

verus! {

/// The format in which text is handed out.
#[derive(Debug, Clone, Copy, PartialEq, Eq, Hash, Structural)]
pub enum TextFormat {
    PlainText,
    Markdown,
    HTML,
}

impl TextFormat {
    /// The French name shown to readers.
    pub open spec fn display_name(self) -> Seq<char> {
        match self {
            TextFormat::PlainText => "Texte brut"@,
            TextFormat::Markdown => "Markdown"@,
            TextFormat::HTML => "HTML"@,
        }
    }

    /// The lowercase English name used by the API.
    pub open spec fn api_name(self) -> Seq<char> {
        match self {
            TextFormat::PlainText => "plain_text"@,
            TextFormat::Markdown => "markdown"@,
            TextFormat::HTML => "html"@,
        }
    }

    /// The format whose API name is exactly `lower`, if there is one.
    pub open spec fn named(lower: Seq<char>) -> Option<Self> {
        if lower == "plain_text"@ {
            Some(TextFormat::PlainText)
        } else if lower == "markdown"@ {
            Some(TextFormat::Markdown)
        } else if lower == "html"@ {
            Some(TextFormat::HTML)
        } else {
            None
        }
    }

    /// By how much the format multiplies the size of plain text.
    pub open spec fn size_multiplier(self) -> nat {
        match self {
            TextFormat::PlainText => 1,
            TextFormat::Markdown => 2,
            TextFormat::HTML => 3,
        }
    }

    /// The French name shown to readers.
    pub fn to_display_name(&self) -> (name: &'static str)
        ensures
            name@ == self.display_name(),
    {
        match self {
            TextFormat::PlainText => "Texte brut",
            TextFormat::Markdown => "Markdown",
            TextFormat::HTML => "HTML",
        }
    }

    /// The lowercase English name used by the API.
    pub fn to_api_name(&self) -> (name: &'static str)
        ensures
            name@ == self.api_name(),
    {
        match self {
            TextFormat::PlainText => "plain_text",
            TextFormat::Markdown => "markdown",
            TextFormat::HTML => "html",
        }
    }

    /// An API name holds no `:`, and two formats with the same API name are
    /// the same format.
    pub proof fn lemma_api_name(self, other: Self)
        ensures
            lacks(self.api_name(), ':'),
            self.api_name() == other.api_name() ==> self == other,
    {
        reveal_strlit("plain_text");
        reveal_strlit("markdown");
        reveal_strlit("html");
        assert("plain_text"@.len() == 10);
        assert("markdown"@.len() == 8);
        assert("html"@.len() == 4);
    }

    /// Looks an already lowercased name up among the API names.
    pub fn from_lowercase_name(lower: &String) -> (format: Option<Self>)
        ensures
            format == Self::named(lower@),
    {
        if text_is(lower, "plain_text") {
            Some(TextFormat::PlainText)
        } else if text_is(lower, "markdown") {
            Some(TextFormat::Markdown)
        } else if text_is(lower, "html") {
            Some(TextFormat::HTML)
        } else {
            None
        }
    }

    /// Reads a format from its API name, whatever the case of its letters.
    ///
    /// An unknown name is reported with the text as it was given.
    pub fn from_api_name(name: &str) -> (format: DomainResult<Self>)
        ensures
            match Self::named(lowercase_of(name@)) {
                Some(known) => format == Ok::<Self, DomainError>(known),
                None => format matches Err(DomainError::UnknownTextFormat { format: text })
                    && text@ == name@,
            },
    {
        let lower = lowercased(name);
        match Self::from_lowercase_name(&lower) {
            Some(known) => Ok(known),
            None => Err(DomainError::unknown_format(name)),
        }
    }
}

/// Parsing a text reads it as `from_api_name` does: the format that the
/// lowercased text names, or the text itself reported as unknown.
impl std::str::FromStr for TextFormat {
    type Err = DomainError;

    fn from_str(name: &str) -> (format: Result<Self, DomainError>)
        ensures
            match TextFormat::named(lowercase_of(name@)) {
                Some(known) => format == Ok::<Self, DomainError>(known),
                None => format matches Err(DomainError::UnknownTextFormat { format: text })
                    && text@ == name@,
            },
    {
        TextFormat::from_api_name(name)
    }
}

} // verus!
