//! Length categories of generated text and the ranges that go with them.

use vstd::prelude::*;
use vstd::string::*;
use std::cmp::Ordering;
use std::ops::RangeInclusive;
use crate::domain::errors::{DomainError, DomainResult};
use crate::domain::text::{lacks, lowercase_of, lowercased, text_is};

verus! {

/// How long a paragraph of generated text is meant to be.
#[derive(Debug, Clone, Copy, PartialEq, Eq, Hash, Ord, Structural)]
pub enum TextLengthCategory {
    /// About 50 to 150 words a paragraph.
    Short,
    /// About 150 to 300 words a paragraph.
    Medium,
    /// About 300 to 500 words a paragraph.
    Long,
}

/// How much markup surrounds the text, judged by the number of tags.
#[derive(Debug, Clone, Copy, PartialEq, Eq, Structural)]
pub enum HtmlComplexity {
    /// At most two tags.
    Simple,
    /// Three to five tags.
    Moderate,
    /// Six tags or more.
    Complex,
}

impl HtmlComplexity {
    /// The tenths of the plain word range that remain once room is left for
    /// the markup.
    pub open spec fn tenths_kept(self) -> nat {
        match self {
            HtmlComplexity::Simple => 10,
            HtmlComplexity::Moderate => 8,
            HtmlComplexity::Complex => 6,
        }
    }

    /// The complexity that goes with a number of tags.
    pub open spec fn of_tag_count(tags: nat) -> Self {
        if tags <= 2 {
            HtmlComplexity::Simple
        } else if tags <= 5 {
            HtmlComplexity::Moderate
        } else {
            HtmlComplexity::Complex
        }
    }
}

/// Calls `fastrand::u32` on the inclusive range from `low` to `high`. The
/// draw differs from call to call; the crate keeps it inside the range, and
/// panics on an empty range, which the precondition leaves out.
#[verifier::external_body]
fn random_between(low: u32, high: u32) -> (drawn: u32)
    requires
        low <= high,
    ensures
        low <= drawn <= high,
{
    fastrand::u32(low..=high)
}

impl PartialOrd for TextLengthCategory {
    fn partial_cmp(&self, other: &Self) -> (order: Option<Ordering>) {
        let left = self.ordinal();
        let right = other.ordinal();
        if left < right {
            Some(Ordering::Less)
        } else if left == right {
            Some(Ordering::Equal)
        } else {
            Some(Ordering::Greater)
        }
    }
}

impl vstd::std_specs::cmp::PartialOrdSpecImpl for TextLengthCategory {
    open spec fn obeys_partial_cmp_spec() -> bool {
        true
    }

    /// Categories compare as their ranks do: short before medium before
    /// long.
    open spec fn partial_cmp_spec(&self, other: &Self) -> Option<Ordering> {
        if self.rank() < other.rank() {
            Some(Ordering::Less)
        } else if self.rank() == other.rank() {
            Some(Ordering::Equal)
        } else {
            Some(Ordering::Greater)
        }
    }
}

impl TextLengthCategory {
    /// The place of the category in the declared order, from 0.
    pub open spec fn rank(self) -> nat {
        match self {
            TextLengthCategory::Short => 0,
            TextLengthCategory::Medium => 1,
            TextLengthCategory::Long => 2,
        }
    }

    /// The place of the category in the declared order, from 0.
    pub fn ordinal(&self) -> (place: u8)
        ensures
            place == self.rank(),
    {
        match self {
            TextLengthCategory::Short => 0,
            TextLengthCategory::Medium => 1,
            TextLengthCategory::Long => 2,
        }
    }

    /// The category that a lowercase name or alias stands for, if any.
    pub open spec fn named(lower: Seq<char>) -> Option<Self> {
        if lower == "short"@ || lower == "court"@ || lower == "s"@ {
            Some(TextLengthCategory::Short)
        } else if lower == "medium"@ || lower == "moyen"@ || lower == "m"@ {
            Some(TextLengthCategory::Medium)
        } else if lower == "long"@ || lower == "l"@ {
            Some(TextLengthCategory::Long)
        } else {
            None
        }
    }

    /// The canonical name used in URLs.
    pub open spec fn url_name(self) -> Seq<char> {
        match self {
            TextLengthCategory::Short => "short"@,
            TextLengthCategory::Medium => "medium"@,
            TextLengthCategory::Long => "long"@,
        }
    }

    /// The French name shown to readers.
    pub open spec fn french_name(self) -> Seq<char> {
        match self {
            TextLengthCategory::Short => "Court"@,
            TextLengthCategory::Medium => "Moyen"@,
            TextLengthCategory::Long => "Long"@,
        }
    }

    /// The fewest words of a paragraph.
    pub open spec fn min_words(self) -> nat {
        match self {
            TextLengthCategory::Short => 50,
            TextLengthCategory::Medium => 150,
            TextLengthCategory::Long => 300,
        }
    }

    /// The most words of a paragraph.
    pub open spec fn max_words(self) -> nat {
        match self {
            TextLengthCategory::Short => 150,
            TextLengthCategory::Medium => 300,
            TextLengthCategory::Long => 500,
        }
    }

    /// The fewest sentences of a paragraph.
    pub open spec fn min_sentences(self) -> nat {
        match self {
            TextLengthCategory::Short => 3,
            TextLengthCategory::Medium => 8,
            TextLengthCategory::Long => 15,
        }
    }

    /// The most sentences of a paragraph.
    pub open spec fn max_sentences(self) -> nat {
        match self {
            TextLengthCategory::Short => 8,
            TextLengthCategory::Medium => 15,
            TextLengthCategory::Long => 25,
        }
    }

    /// The most paragraphs that one request may ask for.
    pub open spec fn paragraph_ceiling(self) -> nat {
        match self {
            TextLengthCategory::Short => 100,
            TextLengthCategory::Medium => 50,
            TextLengthCategory::Long => 20,
        }
    }

    /// Whether a word count lies in the plain word range.
    pub open spec fn holds_word_count(self, word_count: nat) -> bool {
        self.min_words() <= word_count <= self.max_words()
    }

    /// A canonical name holds no `:`, and two categories with the same
    /// canonical name are the same category.
    pub proof fn lemma_url_name(self, other: Self)
        ensures
            lacks(self.url_name(), ':'),
            self.url_name() == other.url_name() ==> self == other,
    {
        reveal_strlit("short");
        reveal_strlit("medium");
        reveal_strlit("long");
        assert("short"@.len() == 5);
        assert("medium"@.len() == 6);
        assert("long"@.len() == 4);
    }

    /// Looks an already lowercased name up among the names and aliases.
    pub fn from_lowercase_name(lower: &String) -> (category: Option<Self>)
        ensures
            category == Self::named(lower@),
    {
        if text_is(lower, "short") || text_is(lower, "court") || text_is(lower, "s") {
            Some(TextLengthCategory::Short)
        } else if text_is(lower, "medium") || text_is(lower, "moyen") || text_is(lower, "m") {
            Some(TextLengthCategory::Medium)
        } else if text_is(lower, "long") || text_is(lower, "l") {
            Some(TextLengthCategory::Long)
        } else {
            None
        }
    }

    /// Reads a category from a URL name or alias, whatever the case of its
    /// letters. An unknown name is reported with the text as it was given.
    pub fn from_url_name(name: &str) -> (category: DomainResult<Self>)
        ensures
            match Self::named(lowercase_of(name@)) {
                Some(known) => category == Ok::<Self, DomainError>(known),
                None => category matches Err(DomainError::UnknownLengthCategory { category: text })
                    && text@ == name@,
            },
    {
        let lower = lowercased(name);
        match Self::from_lowercase_name(&lower) {
            Some(known) => Ok(known),
            None => Err(DomainError::unknown_category(name)),
        }
    }

    /// The canonical name used in URLs.
    pub fn to_url_name(&self) -> (name: &'static str)
        ensures
            name@ == self.url_name(),
    {
        match self {
            TextLengthCategory::Short => "short",
            TextLengthCategory::Medium => "medium",
            TextLengthCategory::Long => "long",
        }
    }

    /// The French name shown to readers.
    pub fn display_name(&self) -> (name: &'static str)
        ensures
            name@ == self.french_name(),
    {
        match self {
            TextLengthCategory::Short => "Court",
            TextLengthCategory::Medium => "Moyen",
            TextLengthCategory::Long => "Long",
        }
    }

    /// The French name as an owned text.
    pub fn to_string(&self) -> (name: String)
        ensures
            name@ == self.french_name(),
    {
        String::from_str(self.display_name())
    }

    fn word_bounds(&self) -> (bounds: (u32, u32))
        ensures
            bounds.0 == self.min_words(),
            bounds.1 == self.max_words(),
    {
        match self {
            TextLengthCategory::Short => (50, 150),
            TextLengthCategory::Medium => (150, 300),
            TextLengthCategory::Long => (300, 500),
        }
    }

    /// The words of a paragraph of plain text.
    pub fn word_range(&self) -> (range: RangeInclusive<u32>)
        ensures
            range@.start == self.min_words(),
            range@.end == self.max_words(),
            !range@.exhausted,
    {
        let (low, high) = self.word_bounds();
        RangeInclusive::new(low, high)
    }

    fn word_bounds_for_html(&self, html_complexity: HtmlComplexity) -> (bounds: (u32, u32))
        ensures
            bounds.0 == self.min_words() * html_complexity.tenths_kept() / 10,
            bounds.1 == self.max_words() * html_complexity.tenths_kept() / 10,
            bounds.0 <= bounds.1,
    {
        let (low, high) = self.word_bounds();
        match html_complexity {
            HtmlComplexity::Simple => (low, high),
            HtmlComplexity::Moderate => (low * 8 / 10, high * 8 / 10),
            HtmlComplexity::Complex => (low * 6 / 10, high * 6 / 10),
        }
    }

    /// The words of a paragraph that carries markup: the plain range with
    /// both ends scaled to eight tenths for moderate markup and six tenths
    /// for complex markup, fractions dropped.
    pub fn word_range_for_html(&self, html_complexity: HtmlComplexity) -> (range: RangeInclusive<
        u32,
    >)
        ensures
            range@.start == self.min_words() * html_complexity.tenths_kept() / 10,
            range@.end == self.max_words() * html_complexity.tenths_kept() / 10,
            !range@.exhausted,
    {
        let (low, high) = self.word_bounds_for_html(html_complexity);
        RangeInclusive::new(low, high)
    }

    fn sentence_bounds(&self) -> (bounds: (u32, u32))
        ensures
            bounds.0 == self.min_sentences(),
            bounds.1 == self.max_sentences(),
    {
        match self {
            TextLengthCategory::Short => (3, 8),
            TextLengthCategory::Medium => (8, 15),
            TextLengthCategory::Long => (15, 25),
        }
    }

    /// The sentences of a paragraph.
    pub fn sentence_range(&self) -> (range: RangeInclusive<u32>)
        ensures
            range@.start == self.min_sentences(),
            range@.end == self.max_sentences(),
            !range@.exhausted,
    {
        let (low, high) = self.sentence_bounds();
        RangeInclusive::new(low, high)
    }

    /// The characters of a paragraph, at six characters a word.
    pub fn character_range(&self) -> (range: RangeInclusive<u32>)
        ensures
            range@.start == self.min_words() * 6,
            range@.end == self.max_words() * 6,
            !range@.exhausted,
    {
        let (low, high) = self.word_bounds();
        RangeInclusive::new(low * 6, high * 6)
    }

    /// Draws a word count from the plain word range.
    pub fn generate_word_count(&self) -> (words: u32)
        ensures
            self.min_words() <= words <= self.max_words(),
    {
        let (low, high) = self.word_bounds();
        random_between(low, high)
    }

    /// Draws a word count from the word range scaled for markup.
    pub fn generate_word_count_for_html(&self, html_complexity: HtmlComplexity) -> (words: u32)
        ensures
            self.min_words() * html_complexity.tenths_kept() / 10 <= words,
            words <= self.max_words() * html_complexity.tenths_kept() / 10,
    {
        let (low, high) = self.word_bounds_for_html(html_complexity);
        random_between(low, high)
    }

    /// Draws a sentence count from the sentence range.
    pub fn generate_sentence_count(&self) -> (sentences: u32)
        ensures
            self.min_sentences() <= sentences <= self.max_sentences(),
    {
        let (low, high) = self.sentence_bounds();
        random_between(low, high)
    }

    /// Whether a word count lies in the plain word range.
    pub fn is_compatible_with_word_count(&self, word_count: u32) -> (fits: bool)
        ensures
            fits == self.holds_word_count(word_count as nat),
    {
        let (low, high) = self.word_bounds();
        low <= word_count && word_count <= high
    }

    /// The shortest category whose word range holds the count, if any does.
    pub fn recommend_for_word_count(word_count: u32) -> (category: Option<Self>)
        ensures
            50 <= word_count <= 150 ==> category == Some(TextLengthCategory::Short),
            150 < word_count <= 300 ==> category == Some(TextLengthCategory::Medium),
            300 < word_count <= 500 ==> category == Some(TextLengthCategory::Long),
            word_count < 50 || word_count > 500 ==> category is None,
    {
        if TextLengthCategory::Short.is_compatible_with_word_count(word_count) {
            Some(TextLengthCategory::Short)
        } else if TextLengthCategory::Medium.is_compatible_with_word_count(word_count) {
            Some(TextLengthCategory::Medium)
        } else if TextLengthCategory::Long.is_compatible_with_word_count(word_count) {
            Some(TextLengthCategory::Long)
        } else {
            None
        }
    }

    /// The three categories, shortest first.
    pub fn all_variants() -> (all: Vec<Self>)
        ensures
            all@ == seq![
                TextLengthCategory::Short,
                TextLengthCategory::Medium,
                TextLengthCategory::Long,
            ],
    {
        let mut all = Vec::new();
        all.push(TextLengthCategory::Short);
        all.push(TextLengthCategory::Medium);
        all.push(TextLengthCategory::Long);
        assert(all@ =~= seq![
            TextLengthCategory::Short,
            TextLengthCategory::Medium,
            TextLengthCategory::Long,
        ]);
        all
    }

    /// Checks a paragraph count against the ceiling of the category.
    ///
    /// Zero is rejected as an invalid count; a count above the ceiling is
    /// rejected as excessive, with the ceiling and the category's name.
    pub fn validate_paragraph_count(&self, paragraph_count: u32) -> (outcome: DomainResult<()>)
        ensures
            paragraph_count == 0 ==> outcome == Err::<(), DomainError>(
                DomainError::InvalidElementCount { count: 0, min: 1, max: u32::MAX },
            ),
            1 <= paragraph_count <= self.paragraph_ceiling() ==> outcome is Ok,
            paragraph_count > self.paragraph_ceiling() ==> (outcome matches Err(
                DomainError::ExcessiveCount { unit, count, max, category },
            ) && unit@ == "paragraphes"@ && count == paragraph_count && max
                == self.paragraph_ceiling() && category@ == self.url_name()),
    {
        if paragraph_count == 0 {
            return Err(DomainError::invalid_count(paragraph_count, 1, u32::MAX));
        }
        let ceiling: u32 = match self {
            TextLengthCategory::Short => 100,
            TextLengthCategory::Medium => 50,
            TextLengthCategory::Long => 20,
        };
        if paragraph_count > ceiling {
            Err(
                DomainError::ExcessiveCount {
                    unit: String::from_str("paragraphes"),
                    count: paragraph_count,
                    max: ceiling,
                    category: String::from_str(self.to_url_name()),
                },
            )
        } else {
            Ok(())
        }
    }
}

} // verus!
