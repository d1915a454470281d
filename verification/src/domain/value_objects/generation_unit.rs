//! The unit in which a request counts what it asks for.

use vstd::prelude::*;
use crate::domain::errors::{DomainError, DomainResult};
use crate::domain::text::{lacks, lowercase_of, lowercased, text_is};

verus! {

/// What a request counts: words, sentences or paragraphs.
#[derive(Debug, Clone, Copy, PartialEq, Eq, Hash, Structural)]
pub enum GenerationUnit {
    Words,
    Sentences,
    Paragraphs,
}

impl GenerationUnit {
    /// The French name shown to readers.
    pub open spec fn display_name(self) -> Seq<char> {
        match self {
            GenerationUnit::Words => "mots"@,
            GenerationUnit::Sentences => "phrases"@,
            GenerationUnit::Paragraphs => "paragraphes"@,
        }
    }

    /// The lowercase English name used by the API.
    pub open spec fn api_name(self) -> Seq<char> {
        match self {
            GenerationUnit::Words => "words"@,
            GenerationUnit::Sentences => "sentences"@,
            GenerationUnit::Paragraphs => "paragraphs"@,
        }
    }

    /// The unit whose API name is exactly `lower`, if there is one.
    pub open spec fn named(lower: Seq<char>) -> Option<Self> {
        if lower == "words"@ {
            Some(GenerationUnit::Words)
        } else if lower == "sentences"@ {
            Some(GenerationUnit::Sentences)
        } else if lower == "paragraphs"@ {
            Some(GenerationUnit::Paragraphs)
        } else {
            None
        }
    }

    /// The French name shown to readers.
    pub fn to_display_name(&self) -> (name: &'static str)
        ensures
            name@ == self.display_name(),
    {
        match self {
            GenerationUnit::Words => "mots",
            GenerationUnit::Sentences => "phrases",
            GenerationUnit::Paragraphs => "paragraphes",
        }
    }

    /// The lowercase English name used by the API.
    pub fn to_api_name(&self) -> (name: &'static str)
        ensures
            name@ == self.api_name(),
    {
        match self {
            GenerationUnit::Words => "words",
            GenerationUnit::Sentences => "sentences",
            GenerationUnit::Paragraphs => "paragraphs",
        }
    }

    /// An API name holds no `:`, and two units with the same API name are
    /// the same unit.
    pub proof fn lemma_api_name(self, other: Self)
        ensures
            lacks(self.api_name(), ':'),
            self.api_name() == other.api_name() ==> self == other,
    {
        reveal_strlit("words");
        reveal_strlit("sentences");
        reveal_strlit("paragraphs");
        assert("words"@.len() == 5);
        assert("sentences"@.len() == 9);
        assert("paragraphs"@.len() == 10);
    }

    /// Looks an already lowercased name up among the API names.
    pub fn from_lowercase_name(lower: &String) -> (unit: Option<Self>)
        ensures
            unit == Self::named(lower@),
    {
        if text_is(lower, "words") {
            Some(GenerationUnit::Words)
        } else if text_is(lower, "sentences") {
            Some(GenerationUnit::Sentences)
        } else if text_is(lower, "paragraphs") {
            Some(GenerationUnit::Paragraphs)
        } else {
            None
        }
    }

    /// Reads a unit from its API name, whatever the case of its letters.
    ///
    /// An unknown name is reported with the text as it was given.
    pub fn from_api_name(name: &str) -> (unit: DomainResult<Self>)
        ensures
            match Self::named(lowercase_of(name@)) {
                Some(known) => unit == Ok::<Self, DomainError>(known),
                None => unit matches Err(DomainError::UnknownGenerationUnit { unit: text })
                    && text@ == name@,
            },
    {
        let lower = lowercased(name);
        match Self::from_lowercase_name(&lower) {
            Some(known) => Ok(known),
            None => Err(DomainError::unknown_unit(name)),
        }
    }
}

/// Parsing a text reads it as `from_api_name` does: the unit that the
/// lowercased text names, or the text itself reported as unknown.
impl std::str::FromStr for GenerationUnit {
    type Err = DomainError;

    fn from_str(name: &str) -> (unit: Result<Self, DomainError>)
        ensures
            match GenerationUnit::named(lowercase_of(name@)) {
                Some(known) => unit == Ok::<Self, DomainError>(known),
                None => unit matches Err(DomainError::UnknownGenerationUnit { unit: text })
                    && text@ == name@,
            },
    {
        GenerationUnit::from_api_name(name)
    }
}

} // verus!
