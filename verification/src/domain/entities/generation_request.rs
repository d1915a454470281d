//! The generation request: validated on construction, then asked for its
//! cache key, seed and caching heuristics.

use vstd::prelude::*;
use vstd::string::*;
use vstd::bytes::{spec_u64_to_le_bytes, u64_to_le_bytes};
use vstd::slice::slice_subrange;
use vstd::std_specs::hash::*;
use std::collections::hash_map::DefaultHasher;
use std::hash::Hasher;
use crate::domain::errors::{DomainError, DomainResult};
use crate::domain::text::{
    append_decimal,
    char_at,
    decimal_text,
    joined,
    lacks,
    lemma_decimal_text,
    lemma_decimal_text_injective,
    lemma_joined_lacks,
    lemma_split_joined,
    lowercase_of,
    parse_u32,
    parse_u64,
    parse_unsigned,
    same_text,
    split_from,
    split_on,
    texts_of,
};
use crate::domain::value_objects::html_tags::{
    canonical,
    joined_names,
    lemma_joined_names,
    lemma_joined_names_injective,
    lemma_url_name_plain,
    mixes_lists,
    tag_names,
};
use crate::domain::value_objects::{
    GenerationUnit,
    HtmlComplexity,
    HtmlTag,
    HtmlTags,
    TextFormat,
    TextLengthCategory,
};

verus! {

/// The most elements that any request may ask for.
pub const MAX_COUNT: u32 = 1000;

/// The most words that a request counted in words may ask for.
pub const MAX_WORDS: u32 = 10000;

/// The most sentences that a request counted in sentences may ask for.
pub const MAX_SENTENCES: u32 = 500;

/// How the cache should treat the answer to a request.
#[derive(Debug, Clone, Copy, PartialEq, Eq, Structural)]
pub enum CacheStrategy {
    /// Cached with the default lifetime.
    Default,
    /// Cached for a long time.
    LongTerm { ttl_hours: u32 },
    /// Cached in memory only.
    MemoryOnly,
    /// Not cached.
    NoCache,
    /// Cached and refreshed at an interval.
    AutoRefresh { interval_minutes: u32 },
}

impl Default for CacheStrategy {
    fn default() -> (strategy: Self)
        ensures
            strategy == CacheStrategy::Default,
    {
        CacheStrategy::Default
    }
}

/// What a request holds, as plain values.
pub struct RequestView {
    pub count: u32,
    pub category: TextLengthCategory,
    pub tags: Seq<HtmlTag>,
    pub format: TextFormat,
    pub unit: GenerationUnit,
    pub seed: Option<u64>,
    pub cache_enabled: bool,
    pub ttl_seconds: Option<u64>,
}

/// A validated request for generated text.
#[derive(Debug, PartialEq, Eq, Hash)]
pub struct GenerationRequest {
    count: u32,
    length_category: TextLengthCategory,
    html_tags: HtmlTags,
    format: TextFormat,
    unit: GenerationUnit,
    generation_seed: Option<u64>,
    cache_enabled: bool,
    cache_ttl_seconds: Option<u64>,
}

impl View for GenerationRequest {
    type V = RequestView;

    closed spec fn view(&self) -> RequestView {
        RequestView {
            count: self.count,
            category: self.length_category,
            tags: self.html_tags@,
            format: self.format,
            unit: self.unit,
            seed: self.generation_seed,
            cache_enabled: self.cache_enabled,
            ttl_seconds: self.cache_ttl_seconds,
        }
    }
}

/// Whether the rules of the domain accept a request for these values.
pub open spec fn acceptable(
    count: u32,
    category: TextLengthCategory,
    tags: Seq<HtmlTag>,
    unit: GenerationUnit,
) -> bool {
    &&& 1 <= count <= 1000
    &&& count <= category.paragraph_ceiling()
    &&& !mixes_lists(tags)
    &&& (unit is Words ==> count <= 10000)
    &&& (unit is Sentences ==> count <= 500)
    &&& (unit is Words ==> tags.len() == 0)
}

/// Whether `error` reports the first rule, in the order of the checks, that
/// a request for these values breaks.
pub open spec fn rejects(
    count: u32,
    category: TextLengthCategory,
    tags: Seq<HtmlTag>,
    unit: GenerationUnit,
    error: DomainError,
) -> bool {
    if count == 0 || count > 1000 {
        error == (DomainError::InvalidElementCount { count, min: 1, max: 1000 })
    } else if count > category.paragraph_ceiling() {
        error matches DomainError::ExcessiveCount { unit: counted, count: asked, max, category: name }
            && counted@ == "paragraphes"@ && asked == count && max == category.paragraph_ceiling()
            && name@ == category.url_name()
    } else if mixes_lists(tags) {
        error matches DomainError::IncompatibleHtmlTags { tag1, tag2 } && tag1@
            == HtmlTag::Ul.url_name() && tag2@ == HtmlTag::Ol.url_name()
    } else if unit is Words && count > 10000 {
        error == (DomainError::TooManyWords { count, max: 10000 })
    } else if unit is Sentences && count > 500 {
        error == (DomainError::TooManySentences { count, max: 500 })
    } else if unit is Words && tags.len() > 0 {
        error matches DomainError::IncompatibleUnitWithHtml { unit: counted } && counted@
            == "mots"@
    } else {
        false
    }
}

/// Whether `outcome` is what building a request from these values gives:
/// the request that holds them where they are acceptable, and otherwise the
/// error for the first rule that they break.
pub open spec fn built(
    count: u32,
    category: TextLengthCategory,
    tags: Seq<HtmlTag>,
    format: TextFormat,
    unit: GenerationUnit,
    cache_enabled: bool,
    seed: Option<u64>,
    outcome: DomainResult<GenerationRequest>,
) -> bool {
    match outcome {
        Ok(request) => acceptable(count, category, tags, unit) && request.well_formed()
            && request@ == (RequestView {
            count,
            category,
            tags,
            format,
            unit,
            seed,
            cache_enabled,
            ttl_seconds: None,
        }),
        Err(error) => rejects(count, category, tags, unit, error),
    }
}

/// Whether a request with this count, category and tags can exist: the
/// count is between 1 and 1000 and within the ceiling of the category, and
/// the tags do not mix the two kinds of list.
pub open spec fn restorable(count: u32, category: TextLengthCategory, tags: Seq<HtmlTag>) -> bool {
    1 <= count <= 1000 && count <= category.paragraph_ceiling() && !mixes_lists(tags)
}

/// Whether `outcome` is what rebuilding a request from stored values gives:
/// the request that holds every one of them, where such a request can
/// exist, and otherwise the error for the first of the three conditions
/// that fails. The unit is taken as it was stored.
pub open spec fn restored(stored: RequestView, outcome: DomainResult<GenerationRequest>) -> bool {
    match outcome {
        Ok(request) => restorable(stored.count, stored.category, stored.tags)
            && request.well_formed() && request@ == stored,
        Err(error) => rejects(
            stored.count,
            stored.category,
            stored.tags,
            GenerationUnit::Paragraphs,
            error,
        ),
    }
}

/// Whether a text begins with `/api/`.
pub open spec fn has_api_prefix(path: Seq<char>) -> bool {
    path.len() >= 5 && path[0] == '/' && path[1] == 'a' && path[2] == 'p' && path[3] == 'i'
        && path[4] == '/'
}

/// A path without the `/api/` it begins with, however often that is
/// repeated.
pub open spec fn without_api_prefix(path: Seq<char>) -> Seq<char>
    decreases path.len(),
{
    if has_api_prefix(path) {
        without_api_prefix(path.subrange(5, path.len() as int))
    } else {
        path
    }
}

/// The segments of a path: what follows the prefix, split at every `/`.
pub open spec fn url_segments(path: Seq<char>) -> Seq<Seq<char>> {
    split_on(without_api_prefix(path), '/')
}

/// Whether `outcome` is what reading a request from a path gives.
///
/// The checks run in this order: at least two segments; a count that is a
/// decimal `u32`; a known category; at least one tag; known tags only; the
/// rules of the domain, for HTML counted in paragraphs, cached and unseeded.
pub open spec fn read_from_path(path: Seq<char>, outcome: DomainResult<GenerationRequest>) -> bool {
    read_from_segments(path, url_segments(path), outcome)
}

/// Whether `outcome` is what reading a request from the segments of a path
/// gives.
pub open spec fn read_from_segments(
    path: Seq<char>,
    segments: Seq<Seq<char>>,
    outcome: DomainResult<GenerationRequest>,
) -> bool {
    if segments.len() < 2 {
        outcome matches Err(DomainError::MalformedUrl { url }) && url@ == path
    } else if parse_unsigned(segments[0], u32::MAX as nat) is None {
        outcome matches Err(DomainError::InvalidUrlNumber { value }) && value@ == segments[0]
    } else if TextLengthCategory::named(lowercase_of(segments[1])) is None {
        outcome matches Err(DomainError::UnknownLengthCategory { category }) && category@
            == segments[1]
    } else if segments.len() == 2 {
        outcome matches Err(DomainError::MissingHtmlTags)
    } else {
        let names = segments.subrange(2, segments.len() as int);
        if !HtmlTags::all_known(names) {
            outcome matches Err(DomainError::InvalidHtmlTag { tag }) && HtmlTags::first_unknown(
                names,
                tag@,
            )
        } else {
            built(
                parse_unsigned(segments[0], u32::MAX as nat).unwrap() as u32,
                TextLengthCategory::named(lowercase_of(segments[1])).unwrap(),
                canonical(HtmlTags::tags_read(names)),
                TextFormat::HTML,
                GenerationUnit::Paragraphs,
                true,
                None,
                outcome,
            )
        }
    }
}

/// The value that a list of query parameters gives a name: that of the last
/// pair with the name, if there is one.
pub open spec fn query_value(pairs: Seq<(String, String)>, name: Seq<char>) -> Option<Seq<char>>
    decreases pairs.len(),
{
    if pairs.len() == 0 {
        None
    } else if pairs.last().0@ == name {
        Some(pairs.last().1@)
    } else {
        query_value(pairs.drop_last(), name)
    }
}

/// A decimal `u64` read from an optional text, or `fallback` where the text
/// is absent or is no such number.
pub open spec fn number_or(text: Option<Seq<char>>, fallback: Option<u64>) -> Option<u64> {
    match text {
        Some(digits) => match parse_unsigned(digits, u64::MAX as nat) {
            Some(number) => Some(number as u64),
            None => fallback,
        },
        None => fallback,
    }
}

/// Whether `outcome` is what overlaying query parameters on a request gives.
///
/// An unknown format is reported first, then an unknown unit. Otherwise the
/// cache is switched off by the values `false` and `0` and on by any other,
/// seed and lifetime are replaced by the numbers given, and format and unit
/// by those named; what a parameter does not give stays as it was. The rules
/// of the domain are not checked again.
pub open spec fn overlaid(
    before: RequestView,
    cache: Option<Seq<char>>,
    seed: Option<Seq<char>>,
    ttl: Option<Seq<char>>,
    format: Option<Seq<char>>,
    unit: Option<Seq<char>>,
    outcome: DomainResult<GenerationRequest>,
) -> bool {
    if format is Some && TextFormat::named(lowercase_of(format.unwrap())) is None {
        outcome matches Err(DomainError::UnknownTextFormat { format: text }) && text@
            == format.unwrap()
    } else if unit is Some && GenerationUnit::named(lowercase_of(unit.unwrap())) is None {
        outcome matches Err(DomainError::UnknownGenerationUnit { unit: text }) && text@
            == unit.unwrap()
    } else {
        outcome matches Ok(request) && request.well_formed() && request@ == (RequestView {
            cache_enabled: match cache {
                Some(hint) => hint != "false"@ && hint != "0"@,
                None => before.cache_enabled,
            },
            seed: number_or(seed, before.seed),
            ttl_seconds: number_or(ttl, before.ttl_seconds),
            format: match format {
                Some(name) => TextFormat::named(lowercase_of(name)).unwrap(),
                None => before.format,
            },
            unit: match unit {
                Some(name) => GenerationUnit::named(lowercase_of(name)).unwrap(),
                None => before.unit,
            },
            ..before
        })
    }
}

/// The number that stands for a category where a request is hashed.
pub open spec fn category_word(category: TextLengthCategory) -> u64 {
    category.rank() as u64
}

/// The number that stands for a format where a request is hashed.
pub open spec fn format_word(format: TextFormat) -> u64 {
    match format {
        TextFormat::PlainText => 0,
        TextFormat::Markdown => 1,
        TextFormat::HTML => 2,
    }
}

/// The number that stands for a unit where a request is hashed.
pub open spec fn unit_word(unit: GenerationUnit) -> u64 {
    match unit {
        GenerationUnit::Words => 0,
        GenerationUnit::Sentences => 1,
        GenerationUnit::Paragraphs => 2,
    }
}

/// The ranks of a list of tags.
pub open spec fn tag_words(tags: Seq<HtmlTag>) -> Seq<u64> {
    Seq::new(tags.len(), |i: int| tags[i].rank() as u64)
}

/// The numbers that a seed is derived from: count, category, format, unit,
/// then the tags behind their number. Neither the cache settings nor a seed
/// are among them.
pub open spec fn seed_words(
    count: u32,
    category: TextLengthCategory,
    tags: Seq<HtmlTag>,
    format: TextFormat,
    unit: GenerationUnit,
) -> Seq<u64> {
    seq![
        count as u64,
        category_word(category),
        format_word(format),
        unit_word(unit),
        tags.len() as u64,
    ] + tag_words(tags)
}

/// The numbers that the hash of a whole request is computed from: those of
/// the seed, then the cache switch, the seed or 0, and the lifetime behind a
/// mark that tells whether there is one.
pub open spec fn hash_words(request: RequestView) -> Seq<u64> {
    seed_words(request.count, request.category, request.tags, request.format, request.unit)
        + seq![
        if request.cache_enabled {
            1u64
        } else {
            0u64
        },
        seed_or_zero(request.seed),
        if request.ttl_seconds is Some {
            1u64
        } else {
            0u64
        },
        match request.ttl_seconds {
            Some(seconds) => seconds,
            None => 0u64,
        },
    ]
}

/// The byte strings written to the hasher for a list of numbers: each number
/// in eight bytes, lowest first.
pub open spec fn written(words: Seq<u64>) -> Seq<Seq<u8>> {
    Seq::new(words.len(), |i: int| spec_u64_to_le_bytes(words[i]))
}

/// The hash that the standard hasher gives a list of numbers.
pub open spec fn digest(words: Seq<u64>) -> u64 {
    DefaultHasher::spec_finish(written(words))
}

/// A seed, or 0 where there is none.
pub open spec fn seed_or_zero(seed: Option<u64>) -> u64 {
    match seed {
        Some(value) => value,
        None => 0,
    }
}

/// The seed that a request stands for: its own, or else the one derived
/// from count, category, tags, format and unit.
pub open spec fn stable_seed(request: RequestView) -> u64 {
    match request.seed {
        Some(value) => value,
        None => digest(
            seed_words(request.count, request.category, request.tags, request.format, request.unit),
        ),
    }
}

/// A request made reproducible: one without a seed gets its stable seed, one
/// with a seed stays as it is.
pub open spec fn reproducible(request: RequestView) -> RequestView {
    RequestView { seed: Some(stable_seed(request)), ..request }
}

/// The cache key of a request.
pub open spec fn key_text(request: RequestView) -> Seq<char> {
    "gen:"@ + decimal_text(request.count as nat) + ":"@ + request.category.url_name() + ":"@
        + request.format.api_name() + ":"@ + request.unit.api_name() + ":"@ + joined_names(
        request.tags,
    ) + ":"@ + decimal_text(seed_or_zero(request.seed) as nat)
}

/// The estimated size in bytes of the answer to a request: six bytes a word
/// at the top of the word range, doubled where there are tags, multiplied
/// by what the format adds.
pub open spec fn estimated_size(request: RequestView) -> nat {
    request.count as nat * request.category.max_words() * 6 * (if request.tags.len() == 0 {
        1nat
    } else {
        2nat
    }) * request.format.size_multiplier()
}

/// Whether the answer to a request can be cached at all.
pub open spec fn cacheable(request: RequestView) -> bool {
    request.cache_enabled && request.count <= 100 && request.tags.len() <= 15 && estimated_size(
        request,
    ) < 5_000_000
}

/// The strategy for a request: the first line of the table that fits.
pub open spec fn strategy_for(request: RequestView) -> CacheStrategy {
    let count = request.count;
    let tags = request.tags.len();
    if !request.cache_enabled {
        CacheStrategy::NoCache
    } else if 1 <= count <= 5 && request.category is Short && tags <= 2 {
        CacheStrategy::LongTerm { ttl_hours: 24 }
    } else if 1 <= count <= 20 && request.category is Medium && tags <= 5 {
        CacheStrategy::Default
    } else if count >= 50 {
        CacheStrategy::MemoryOnly
    } else if tags >= 6 {
        CacheStrategy::AutoRefresh { interval_minutes: 60 }
    } else {
        CacheStrategy::Default
    }
}

/// The chance in hundredths that a request is answered from the cache: the
/// first line of the table that fits.
pub open spec fn hit_percent(request: RequestView) -> u32 {
    let count = request.count;
    let tags = request.tags.len();
    if 1 <= count <= 5 && request.category is Short && tags <= 1 {
        90
    } else if 1 <= count <= 10 && request.category is Medium && tags <= 2 {
        70
    } else if 1 <= count <= 3 && request.category is Long && tags <= 1 {
        50
    } else if 6 <= count <= 20 && request.category is Short && tags <= 3 {
        40
    } else if 11 <= count <= 25 && request.category is Medium && tags <= 4 {
        30
    } else if count >= 21 {
        10
    } else if tags >= 5 {
        10
    } else {
        20
    }
}

/// What a request reads as: count, unit, category and format in French.
pub open spec fn summary(request: RequestView) -> Seq<char> {
    decimal_text(request.count as nat) + " "@ + request.unit.display_name() + " "@
        + request.category.french_name() + " ("@ + request.format.display_name() + ")"@
}

fn starts_with_api_prefix(path: &str, ascii: bool, offset: usize, n: usize) -> (yes: bool)
    requires
        offset <= n,
        n == path@.len(),
        ascii ==> is_ascii(path),
    ensures
        yes == has_api_prefix(path@.subrange(offset as int, n as int)),
{
    n - offset >= 5 && char_at(path, ascii, offset) == '/' && char_at(path, ascii, offset + 1)
        == 'a' && char_at(path, ascii, offset + 2) == 'p' && char_at(path, ascii, offset + 3)
        == 'i' && char_at(path, ascii, offset + 4) == '/'
}

fn skip_api_prefix(path: &str) -> (offset: usize)
    ensures
        offset <= path@.len(),
        path@.subrange(offset as int, path@.len() as int) == without_api_prefix(path@),
{
    let ascii = path.is_ascii();
    let n: usize = path.unicode_len();
    let mut offset: usize = 0;
    assert(path@.subrange(0, n as int) =~= path@);
    while starts_with_api_prefix(path, ascii, offset, n)
        invariant
            offset <= n,
            n == path@.len(),
            ascii ==> is_ascii(path),
            without_api_prefix(path@) == without_api_prefix(
                path@.subrange(offset as int, n as int),
            ),
        decreases n - offset,
    {
        proof {
            let rest = path@.subrange(offset as int, n as int);
            assert(rest.subrange(5, rest.len() as int) =~= path@.subrange(offset + 5, n as int));
        }
        offset = offset + 5;
    }
    offset
}

fn find_query_value<'a>(params: &'a Vec<(String, String)>, name: &str) -> (value: Option<&'a str>)
    ensures
        match value {
            Some(text) => query_value(params@, name@) == Some(text@),
            None => query_value(params@, name@) is None,
        },
{
    let mut i: usize = params.len();
    assert(params@.subrange(0, i as int) =~= params@);
    while i > 0
        invariant
            i <= params.len(),
            query_value(params@, name@) == query_value(params@.subrange(0, i as int), name@),
        decreases i,
    {
        let ghost seen = params@.subrange(0, i as int);
        assert(seen.drop_last() =~= params@.subrange(0, i - 1));
        i = i - 1;
        if same_text(params[i].0.as_str(), name) {
            return Some(params[i].1.as_str());
        }
    }
    None
}

fn hash_of(words: &Vec<u64>) -> (hash: u64)
    ensures
        hash == digest(words@),
{
    let mut hasher = DefaultHasher::new();
    let mut i: usize = 0;
    assert(hasher@ =~= written(words@.subrange(0, 0)));
    while i < words.len()
        invariant
            i <= words.len(),
            hasher@ == written(words@.subrange(0, i as int)),
        decreases words.len() - i,
    {
        let bytes = u64_to_le_bytes(words[i]);
        hasher.write(bytes.as_slice());
        assert(hasher@ =~= written(words@.subrange(0, i + 1)));
        i = i + 1;
    }
    assert(words@.subrange(0, words.len() as int) =~= words@);
    hasher.finish()
}

impl Clone for GenerationRequest {
    fn clone(&self) -> (copy: Self)
        ensures
            copy@ == self@,
            copy.well_formed(),
    {
        let html_tags = self.html_tags.clone();
        proof {
            use_type_invariant(self);
            use_type_invariant(&html_tags);
        }
        GenerationRequest {
            count: self.count,
            length_category: self.length_category,
            html_tags,
            format: self.format,
            unit: self.unit,
            generation_seed: self.generation_seed,
            cache_enabled: self.cache_enabled,
            cache_ttl_seconds: self.cache_ttl_seconds,
        }
    }
}

impl GenerationRequest {
    /// What holds of every request, however it was built or overlaid: the
    /// count is between 1 and 1000 and within the ceiling of the category,
    /// and the tags do not mix the two kinds of list.
    #[verifier::type_invariant]
    pub closed spec fn well_formed(self) -> bool {
        &&& 1 <= self.count <= 1000
        &&& self.count <= self.length_category.paragraph_ceiling()
        &&& !mixes_lists(self.html_tags@)
        &&& self.html_tags.well_formed()
    }

    /// A well-formed request, seen through its view.
    pub proof fn lemma_well_formed(self)
        requires
            self.well_formed(),
        ensures
            1 <= self@.count <= 1000,
            self@.count <= self@.category.paragraph_ceiling(),
            !mixes_lists(self@.tags),
            0 < self@.tags.len() <= 9,
            self@.tags == canonical(self@.tags),
    {
        self.html_tags.lemma_well_formed();
    }

    /// Checks the rules of the domain, in this order: the count is between 1
    /// and 1000; it is within the ceiling of the category; the tags do not
    /// exclude each other; the count is within the ceiling of the unit;
    /// words come without tags.
    pub fn validate_business_rules(
        count: u32,
        length_category: &TextLengthCategory,
        html_tags: &HtmlTags,
        unit: &GenerationUnit,
    ) -> (outcome: DomainResult<()>)
        ensures
            outcome is Ok <==> acceptable(count, *length_category, html_tags@, *unit),
            outcome matches Err(error) ==> rejects(
                count,
                *length_category,
                html_tags@,
                *unit,
                error,
            ),
    {
        if count == 0 {
            return Err(DomainError::invalid_count(count, 1, MAX_COUNT));
        }
        if count > MAX_COUNT {
            return Err(DomainError::invalid_count(count, 1, MAX_COUNT));
        }
        match length_category.validate_paragraph_count(count) {
            Ok(_) => {},
            Err(error) => {
                return Err(error);
            },
        }
        match html_tags.validate_compatibility() {
            Ok(_) => {},
            Err(error) => {
                return Err(error);
            },
        }
        match unit {
            GenerationUnit::Words => {
                if count > MAX_WORDS {
                    return Err(DomainError::TooManyWords { count, max: MAX_WORDS });
                }
            },
            GenerationUnit::Sentences => {
                if count > MAX_SENTENCES {
                    return Err(DomainError::TooManySentences { count, max: MAX_SENTENCES });
                }
            },
            GenerationUnit::Paragraphs => {},
        }
        let words = match unit {
            GenerationUnit::Words => true,
            _ => false,
        };
        if words && !html_tags.is_empty() {
            return Err(DomainError::IncompatibleUnitWithHtml { unit: String::from_str("mots") });
        }
        Ok(())
    }

    /// Builds a request with the cache on and no seed.
    pub fn new(
        count: u32,
        length_category: TextLengthCategory,
        html_tags: HtmlTags,
        format: TextFormat,
        unit: GenerationUnit,
    ) -> (request: DomainResult<Self>)
        ensures
            built(count, length_category, html_tags@, format, unit, true, None, request),
            request is Ok <==> acceptable(count, length_category, html_tags@, unit),
    {
        Self::with_cache_config(count, length_category, html_tags, format, unit, true, None)
    }

    /// Builds a request with the cache setting and the seed given.
    pub fn with_cache_config(
        count: u32,
        length_category: TextLengthCategory,
        html_tags: HtmlTags,
        format: TextFormat,
        unit: GenerationUnit,
        cache_enabled: bool,
        custom_seed: Option<u64>,
    ) -> (request: DomainResult<Self>)
        ensures
            built(
                count,
                length_category,
                html_tags@,
                format,
                unit,
                cache_enabled,
                custom_seed,
                request,
            ),
            request is Ok <==> acceptable(count, length_category, html_tags@, unit),
    {
        match Self::validate_business_rules(count, &length_category, &html_tags, &unit) {
            Ok(_) => {},
            Err(error) => {
                return Err(error);
            },
        }
        proof {
            use_type_invariant(&html_tags);
        }
        Ok(
            GenerationRequest {
                count,
                length_category,
                html_tags,
                format,
                unit,
                generation_seed: custom_seed,
                cache_enabled,
                cache_ttl_seconds: None,
            },
        )
    }

    /// Builds a request with the cache on and the seed given.
    pub fn deterministic(
        count: u32,
        length_category: TextLengthCategory,
        html_tags: HtmlTags,
        format: TextFormat,
        unit: GenerationUnit,
        seed: u64,
    ) -> (request: DomainResult<Self>)
        ensures
            built(count, length_category, html_tags@, format, unit, true, Some(seed), request),
            request is Ok <==> acceptable(count, length_category, html_tags@, unit),
    {
        Self::with_cache_config(count, length_category, html_tags, format, unit, true, Some(seed))
    }

    /// Rebuilds a request from the values that one was stored with, the
    /// lifetime in the cache in whole seconds.
    ///
    /// Count, category and tags are held to what holds of every request;
    /// the unit is taken as it was stored, since a unit overlaid from a
    /// query is not checked against the tags either.
    pub fn restore(
        count: u32,
        length_category: TextLengthCategory,
        html_tags: HtmlTags,
        format: TextFormat,
        unit: GenerationUnit,
        generation_seed: Option<u64>,
        cache_enabled: bool,
        cache_ttl_seconds: Option<u64>,
    ) -> (request: DomainResult<Self>)
        ensures
            restored(
                (RequestView {
                    count,
                    category: length_category,
                    tags: html_tags@,
                    format,
                    unit,
                    seed: generation_seed,
                    cache_enabled,
                    ttl_seconds: cache_ttl_seconds,
                }),
                request,
            ),
            request is Ok <==> restorable(count, length_category, html_tags@),
    {
        match Self::validate_business_rules(
            count,
            &length_category,
            &html_tags,
            &GenerationUnit::Paragraphs,
        ) {
            Ok(_) => {},
            Err(error) => {
                return Err(error);
            },
        }
        proof {
            use_type_invariant(&html_tags);
        }
        Ok(
            GenerationRequest {
                count,
                length_category,
                html_tags,
                format,
                unit,
                generation_seed,
                cache_enabled,
                cache_ttl_seconds,
            },
        )
    }

    /// Reads a request from a path such as `/api/10/long/headers/link`: a
    /// count, a category and at least one tag. The request is for HTML
    /// counted in paragraphs, cached and without a seed.
    pub fn from_url_path(path: &str) -> (request: DomainResult<Self>)
        ensures
            read_from_path(path@, request),
    {
        let offset = skip_api_prefix(path);
        let parts = split_from(path, offset, '/');
        Self::from_segments(path, &parts)
    }

    fn from_segments(path: &str, parts: &Vec<&str>) -> (request: DomainResult<Self>)
        ensures
            read_from_segments(path@, texts_of(parts@), request),
    {
        let ghost segments = texts_of(parts@);
        if parts.len() < 2 {
            return Err(DomainError::malformed_url(path));
        }
        assert(parts@[0]@ == segments[0]);
        assert(parts@[1]@ == segments[1]);
        let count = match parse_u32(parts[0]) {
            Some(count) => count,
            None => {
                return Err(DomainError::InvalidUrlNumber { value: String::from_str(parts[0]) });
            },
        };
        let length_category = match TextLengthCategory::from_url_name(parts[1]) {
            Ok(category) => category,
            Err(error) => {
                return Err(error);
            },
        };
        if parts.len() <= 2 {
            return Err(DomainError::MissingHtmlTags);
        }
        let names = slice_subrange(parts.as_slice(), 2, parts.len());
        assert(texts_of(names@) =~= segments.subrange(2, segments.len() as int));
        let html_tags = match HtmlTags::from_url_parts(names) {
            Ok(tags) => tags,
            Err(error) => {
                return Err(error);
            },
        };
        Self::new(count, length_category, html_tags, TextFormat::HTML, GenerationUnit::Paragraphs)
    }

    /// Overlays query parameters on the request.
    ///
    /// `cache` switches the cache off with `false` or `0` and on with any
    /// other value. `seed` and `ttl` are taken where they are decimal
    /// numbers and passed over where they are not. `format` and `unit` must
    /// name a format and a unit: an unknown format is reported first, then
    /// an unknown unit. The rules of the domain are not checked again.
    pub fn with_query_overrides(
        self,
        cache: Option<&str>,
        seed: Option<&str>,
        ttl: Option<&str>,
        format: Option<&str>,
        unit: Option<&str>,
    ) -> (request: DomainResult<Self>)
        ensures
            overlaid(
                self@,
                Self::text_of(cache),
                Self::text_of(seed),
                Self::text_of(ttl),
                Self::text_of(format),
                Self::text_of(unit),
                request,
            ),
    {
        proof {
            use_type_invariant(&self);
        }
        let mut request = self;
        if let Some(hint) = cache {
            request.cache_enabled = !same_text(hint, "false") && !same_text(hint, "0");
        }
        if let Some(digits) = seed {
            if let Some(number) = parse_u64(digits) {
                request.generation_seed = Some(number);
            }
        }
        if let Some(digits) = ttl {
            if let Some(seconds) = parse_u64(digits) {
                request.cache_ttl_seconds = Some(seconds);
            }
        }
        if let Some(name) = format {
            match TextFormat::from_api_name(name) {
                Ok(known) => {
                    request.format = known;
                },
                Err(error) => {
                    return Err(error);
                },
            }
        }
        if let Some(name) = unit {
            match GenerationUnit::from_api_name(name) {
                Ok(known) => {
                    request.unit = known;
                },
                Err(error) => {
                    return Err(error);
                },
            }
        }
        Ok(request)
    }

    /// The characters of an optional text.
    pub open spec fn text_of(text: Option<&str>) -> Option<Seq<char>> {
        match text {
            Some(given) => Some(given@),
            None => None,
        }
    }

    /// Reads a request from a path and overlays the query parameters
    /// `cache`, `seed`, `ttl`, `format` and `unit`, each with the value of
    /// the last pair that has its name.
    ///
    /// An error of the path comes first; the overlay follows.
    pub fn from_url_with_cache(path: &str, query_params: &Vec<(String, String)>) -> (request:
        DomainResult<Self>)
        ensures
            exists|base: DomainResult<Self>| #[trigger]
                read_from_path(path@, base) && match base {
                    Ok(read) => overlaid(
                        read@,
                        query_value(query_params@, "cache"@),
                        query_value(query_params@, "seed"@),
                        query_value(query_params@, "ttl"@),
                        query_value(query_params@, "format"@),
                        query_value(query_params@, "unit"@),
                        request,
                    ),
                    Err(error) => request == Err::<Self, DomainError>(error),
                },
    {
        let base = Self::from_url_path(path);
        let ghost witness = base;
        match base {
            Ok(read) => {
                let request = read.with_query_overrides(
                    find_query_value(query_params, "cache"),
                    find_query_value(query_params, "seed"),
                    find_query_value(query_params, "ttl"),
                    find_query_value(query_params, "format"),
                    find_query_value(query_params, "unit"),
                );
                assert(read_from_path(path@, witness));
                request
            },
            Err(error) => {
                assert(read_from_path(path@, witness));
                Err(error)
            },
        }
    }

    /// The number of elements asked for.
    pub fn count(&self) -> (count: u32)
        ensures
            count == self@.count,
            1 <= count <= 1000,
    {
        proof {
            use_type_invariant(self);
        }
        self.count
    }

    /// The length category.
    pub fn length_category(&self) -> (category: TextLengthCategory)
        ensures
            category == self@.category,
            self@.count <= category.paragraph_ceiling(),
    {
        proof {
            use_type_invariant(self);
        }
        self.length_category
    }

    /// The tags, which never mix the two kinds of list.
    pub fn html_tags(&self) -> (tags: &HtmlTags)
        ensures
            tags@ == self@.tags,
            tags.well_formed(),
            !mixes_lists(tags@),
    {
        proof {
            use_type_invariant(self);
        }
        &self.html_tags
    }

    /// The output format.
    pub fn format(&self) -> (format: TextFormat)
        ensures
            format == self@.format,
    {
        self.format
    }

    /// The unit in which the count is meant.
    pub fn unit(&self) -> (unit: GenerationUnit)
        ensures
            unit == self@.unit,
    {
        self.unit
    }

    /// Whether the answer may be cached.
    pub fn is_cache_enabled(&self) -> (enabled: bool)
        ensures
            enabled == self@.cache_enabled,
    {
        self.cache_enabled
    }

    /// The seed, if the request has one.
    pub fn generation_seed(&self) -> (seed: Option<u64>)
        ensures
            seed == self@.seed,
    {
        self.generation_seed
    }

    /// The lifetime in the cache in seconds, if the request sets one.
    pub fn cache_ttl_seconds(&self) -> (seconds: Option<u64>)
        ensures
            seconds == self@.ttl_seconds,
    {
        self.cache_ttl_seconds
    }

    /// The cache key: `gen:`, then count, category, format, unit, tags and
    /// seed, with `:` between them, `/` between the tags, and 0 for no seed.
    pub fn cache_key(&self) -> (key: String)
        ensures
            key@ == key_text(self@),
    {
        let mut key = String::from_str("gen:");
        append_decimal(&mut key, self.count as u64);
        key.append(":");
        key.append(self.length_category.to_url_name());
        key.append(":");
        key.append(self.format.to_api_name());
        key.append(":");
        key.append(self.unit.to_api_name());
        key.append(":");
        let tags = self.html_tags.to_url_string();
        key.append(tags.as_str());
        key.append(":");
        let seed = match self.generation_seed {
            Some(value) => value,
            None => 0,
        };
        append_decimal(&mut key, seed);
        key
    }

    fn seed_words(&self) -> (words: Vec<u64>)
        ensures
            words@ == seed_words(
                self@.count,
                self@.category,
                self@.tags,
                self@.format,
                self@.unit,
            ),
    {
        let mut words: Vec<u64> = Vec::new();
        words.push(self.count as u64);
        words.push(self.length_category.ordinal() as u64);
        words.push(
            match self.format {
                TextFormat::PlainText => 0,
                TextFormat::Markdown => 1,
                TextFormat::HTML => 2,
            },
        );
        words.push(
            match self.unit {
                GenerationUnit::Words => 0,
                GenerationUnit::Sentences => 1,
                GenerationUnit::Paragraphs => 2,
            },
        );
        let tags = self.html_tags.tags();
        words.push(tags.len() as u64);
        let ghost head = words@;
        let mut i: usize = 0;
        assert(words@ =~= head + tag_words(tags@.subrange(0, 0)));
        while i < tags.len()
            invariant
                i <= tags.len(),
                words@ == head + tag_words(tags@.subrange(0, i as int)),
            decreases tags.len() - i,
        {
            words.push(tags[i].ordinal() as u64);
            assert(words@ =~= head + tag_words(tags@.subrange(0, i + 1)));
            i = i + 1;
        }
        assert(tags@.subrange(0, tags.len() as int) =~= tags@);
        words
    }

    /// A 64-bit hash of the whole request. Equal requests hash alike within
    /// one build of the program.
    pub fn cache_hash(&self) -> (hash: u64)
        ensures
            hash == digest(hash_words(self@)),
    {
        let mut words = self.seed_words();
        let ghost head = words@;
        words.push(
            if self.cache_enabled {
                1
            } else {
                0
            },
        );
        words.push(
            match self.generation_seed {
                Some(value) => value,
                None => 0,
            },
        );
        match self.cache_ttl_seconds {
            Some(seconds) => {
                words.push(1);
                words.push(seconds);
            },
            None => {
                words.push(0);
                words.push(0);
            },
        }
        assert(words@ =~= hash_words(self@));
        hash_of(&words)
    }

    /// The seed of the request: its own, or else one derived from count,
    /// category, tags, format and unit.
    pub fn generate_stable_seed(&self) -> (seed: u64)
        ensures
            seed == stable_seed(self@),
    {
        match self.generation_seed {
            Some(value) => value,
            None => {
                let words = self.seed_words();
                hash_of(&words)
            },
        }
    }

    /// Gives a request without a seed its stable seed. A seed that is there
    /// stays.
    pub fn with_deterministic_generation(&mut self)
        ensures
            final(self)@ == reproducible(old(self)@),
    {
        proof {
            use_type_invariant(&*self);
        }
        if self.generation_seed.is_none() {
            let seed = self.generate_stable_seed();
            self.generation_seed = Some(seed);
        }
    }

    /// The strategy that the cache should follow for the request.
    pub fn cache_strategy(&self) -> (strategy: CacheStrategy)
        ensures
            strategy == strategy_for(self@),
    {
        if !self.cache_enabled {
            return CacheStrategy::NoCache;
        }
        let count = self.count;
        let tags = self.html_tags.len();
        let short = match self.length_category {
            TextLengthCategory::Short => true,
            _ => false,
        };
        let medium = match self.length_category {
            TextLengthCategory::Medium => true,
            _ => false,
        };
        if 1 <= count && count <= 5 && short && tags <= 2 {
            CacheStrategy::LongTerm { ttl_hours: 24 }
        } else if 1 <= count && count <= 20 && medium && tags <= 5 {
            CacheStrategy::Default
        } else if count >= 50 {
            CacheStrategy::MemoryOnly
        } else if tags >= 6 {
            CacheStrategy::AutoRefresh { interval_minutes: 60 }
        } else {
            CacheStrategy::Default
        }
    }

    /// Whether the answer can be cached at all.
    pub fn is_cacheable(&self) -> (yes: bool)
        ensures
            yes == cacheable(self@),
    {
        self.cache_enabled && self.count <= 100 && self.html_tags.len() <= 15
            && self.estimated_cache_size_bytes() < 5_000_000
    }

    /// The estimated size of the answer in bytes.
    pub fn estimated_cache_size_bytes(&self) -> (bytes: usize)
        ensures
            bytes == estimated_size(self@),
            bytes <= 18_000_000,
    {
        proof {
            use_type_invariant(self);
        }
        let base_size: usize = self.count as usize;
        let word_estimate: usize = match self.length_category {
            TextLengthCategory::Short => 150,
            TextLengthCategory::Medium => 300,
            TextLengthCategory::Long => 500,
        };
        let html_multiplier: usize = if self.html_tags.is_empty() {
            1
        } else {
            2
        };
        let format_multiplier: usize = match self.format {
            TextFormat::PlainText => 1,
            TextFormat::HTML => 3,
            TextFormat::Markdown => 2,
        };
        assert(base_size * word_estimate <= 500_000) by (nonlinear_arith)
            requires
                base_size <= 1000,
                word_estimate <= 500,
        ;
        let words: usize = base_size * word_estimate;
        let plain: usize = words * 6 * html_multiplier;
        assert(plain * format_multiplier <= 18_000_000) by (nonlinear_arith)
            requires
                plain <= 6_000_000,
                format_multiplier <= 3,
        ;
        plain * format_multiplier
    }

    /// Whether the answer is worth caching: it can be cached, is estimated
    /// under a million bytes, and holds at least two elements.
    pub fn should_cache(&self) -> (yes: bool)
        ensures
            yes == (cacheable(self@) && estimated_size(self@) < 1_000_000 && self@.count >= 2),
    {
        self.is_cacheable() && self.estimated_cache_size_bytes() < 1_000_000 && self.count >= 2
    }

    /// The chance, in hundredths, that the request is answered from the
    /// cache.
    pub fn hit_probability_percent(&self) -> (percent: u32)
        ensures
            percent == hit_percent(self@),
    {
        let count = self.count;
        let tags = self.html_tags.len();
        let short = match self.length_category {
            TextLengthCategory::Short => true,
            _ => false,
        };
        let medium = match self.length_category {
            TextLengthCategory::Medium => true,
            _ => false,
        };
        let long = match self.length_category {
            TextLengthCategory::Long => true,
            _ => false,
        };
        if 1 <= count && count <= 5 && short && tags <= 1 {
            90
        } else if 1 <= count && count <= 10 && medium && tags <= 2 {
            70
        } else if 1 <= count && count <= 3 && long && tags <= 1 {
            50
        } else if 6 <= count && count <= 20 && short && tags <= 3 {
            40
        } else if 11 <= count && count <= 25 && medium && tags <= 4 {
            30
        } else if count >= 21 {
            10
        } else if tags >= 5 {
            10
        } else {
            20
        }
    }

    /// How much markup the tags make.
    pub fn html_complexity(&self) -> (complexity: HtmlComplexity)
        ensures
            complexity == HtmlComplexity::of_tag_count(self@.tags.len()),
    {
        let tags = self.html_tags.len();
        if tags <= 2 {
            HtmlComplexity::Simple
        } else if tags <= 5 {
            HtmlComplexity::Moderate
        } else {
            HtmlComplexity::Complex
        }
    }

    /// Draws a word count from the word range scaled for the markup.
    pub fn generate_word_count(&self) -> (words: u32)
        ensures
            self@.category.min_words() * HtmlComplexity::of_tag_count(
                self@.tags.len(),
            ).tenths_kept() / 10 <= words,
            words <= self@.category.max_words() * HtmlComplexity::of_tag_count(
                self@.tags.len(),
            ).tenths_kept() / 10,
    {
        self.length_category.generate_word_count_for_html(self.html_complexity())
    }

    /// The request in words: count, unit, category and format in French.
    pub fn to_string(&self) -> (text: String)
        ensures
            text@ == summary(self@),
    {
        let mut text = String::new();
        append_decimal(&mut text, self.count as u64);
        text.append(" ");
        text.append(self.unit.to_display_name());
        text.append(" ");
        text.append(self.length_category.display_name());
        text.append(" (");
        text.append(self.format.to_display_name());
        text.append(")");
        assert(text@ =~= summary(self@));
        text
    }
}

/// A request is accepted exactly when no rule rejects it: the count is
/// between 1 and 1000 and within the ceiling of its category, the tags do
/// not mix the two kinds of list, and the unit is not words, which take no
/// tags, while a set of tags is never empty.
pub proof fn lemma_acceptable(
    count: u32,
    category: TextLengthCategory,
    tags: HtmlTags,
    unit: GenerationUnit,
)
    requires
        tags.well_formed(),
    ensures
        acceptable(count, category, tags@, unit) <==> (1 <= count <= 1000 && count
            <= category.paragraph_ceiling() && !mixes_lists(tags@) && !(unit is Words)),
        forall|error: DomainError|
            rejects(count, category, tags@, unit, error) ==> !acceptable(
                count,
                category,
                tags@,
                unit,
            ),
{
    tags.lemma_well_formed();
}

/// A request rebuilt from its own values is the same request: nothing is
/// refused and no field changes.
pub proof fn lemma_restore_round_trip(
    request: GenerationRequest,
    outcome: DomainResult<GenerationRequest>,
)
    requires
        request.well_formed(),
        restored(request@, outcome),
    ensures
        outcome matches Ok(same) && same@ == request@,
{
    request.lemma_well_formed();
}

/// The stable seed of a request depends on count, category, tags, format,
/// unit and seed only: the cache switch and the lifetime do not change it.
pub proof fn lemma_stable_seed_ignores_cache(left: RequestView, right: RequestView)
    requires
        left.count == right.count,
        left.category == right.category,
        left.tags == right.tags,
        left.format == right.format,
        left.unit == right.unit,
        left.seed == right.seed,
    ensures
        stable_seed(left) == stable_seed(right),
{
}

/// Making a request reproducible twice changes no more than doing it once,
/// and a request that has a seed is not changed at all.
pub proof fn lemma_reproducible_idempotent(request: RequestView)
    ensures
        reproducible(reproducible(request)) == reproducible(request),
        request.seed is Some ==> reproducible(request) == request,
        reproducible(request).seed is Some,
{
}

/// Requests that agree on count, category, format, unit, tags and on the
/// seed, no seed counting as 0, have the same cache key; so a request
/// without a seed and one with the seed 0 share their key.
pub proof fn lemma_key_depends_on(left: RequestView, right: RequestView)
    requires
        left.count == right.count,
        left.category == right.category,
        left.tags == right.tags,
        left.format == right.format,
        left.unit == right.unit,
        seed_or_zero(left.seed) == seed_or_zero(right.seed),
    ensures
        key_text(left) == key_text(right),
{
}

/// The seven fields of a cache key, in their order.
pub open spec fn key_fields(request: RequestView) -> Seq<Seq<char>> {
    seq![
        seq!['g', 'e', 'n'],
        decimal_text(request.count as nat),
        request.category.url_name(),
        request.format.api_name(),
        request.unit.api_name(),
        joined_names(request.tags),
        decimal_text(seed_or_zero(request.seed) as nat),
    ]
}

/// A cache key is its seven fields with `:` between them, and none of the
/// fields holds a `:`, so the key splits back into them.
pub proof fn lemma_key_fields(request: RequestView)
    ensures
        key_text(request) == joined(key_fields(request), ':'),
        split_on(key_text(request), ':') == key_fields(request),
{
    let fields = key_fields(request);
    reveal_strlit("gen:");
    reveal_strlit(":");
    assert("gen:"@ =~= seq!['g', 'e', 'n'] + seq![':']);
    assert(":"@ =~= seq![':']);
    let f1 = fields.subrange(0, 1);
    let f2 = fields.subrange(0, 2);
    let f3 = fields.subrange(0, 3);
    let f4 = fields.subrange(0, 4);
    let f5 = fields.subrange(0, 5);
    let f6 = fields.subrange(0, 6);
    assert(fields.drop_last() =~= f6);
    assert(f6.drop_last() =~= f5);
    assert(f5.drop_last() =~= f4);
    assert(f4.drop_last() =~= f3);
    assert(f3.drop_last() =~= f2);
    assert(f2.drop_last() =~= f1);
    assert(joined(f1, ':') == fields[0]);
    assert(joined(f2, ':') == joined(f1, ':') + seq![':'] + fields[1]);
    assert(joined(f3, ':') == joined(f2, ':') + seq![':'] + fields[2]);
    assert(joined(f4, ':') == joined(f3, ':') + seq![':'] + fields[3]);
    assert(joined(f5, ':') == joined(f4, ':') + seq![':'] + fields[4]);
    assert(joined(f6, ':') == joined(f5, ':') + seq![':'] + fields[5]);
    assert(joined(fields, ':') == joined(f6, ':') + seq![':'] + fields[6]);
    assert(key_text(request) =~= joined(fields, ':'));
    lemma_decimal_text(request.count as nat);
    lemma_decimal_text(seed_or_zero(request.seed) as nat);
    request.category.lemma_url_name(request.category);
    request.format.lemma_api_name(request.format);
    request.unit.lemma_api_name(request.unit);
    lemma_joined_names(request.tags);
    assert forall|i: int| 0 <= i < tag_names(request.tags).len() implies lacks(
        #[trigger] tag_names(request.tags)[i],
        ':',
    ) by {
        lemma_url_name_plain(request.tags[i]);
    }
    lemma_joined_lacks(tag_names(request.tags), '/', ':');
    assert forall|i: int| 0 <= i < fields.len() implies lacks(#[trigger] fields[i], ':') by {
        if i == 0 {
        } else if i == 1 {
        } else if i == 2 {
        } else if i == 3 {
        } else if i == 4 {
        } else if i == 5 {
        } else {
        }
    }
    lemma_split_joined(fields, ':');
}

/// Two requests with the same cache key agree on count, category, format,
/// unit and tags, and on the seed where no seed counts as 0: changing any
/// of these changes the key.
pub proof fn lemma_key_injective(left: RequestView, right: RequestView)
    requires
        key_text(left) == key_text(right),
    ensures
        left.count == right.count,
        left.category == right.category,
        left.format == right.format,
        left.unit == right.unit,
        left.tags == right.tags,
        seed_or_zero(left.seed) == seed_or_zero(right.seed),
{
    lemma_key_fields(left);
    lemma_key_fields(right);
    let a = key_fields(left);
    let b = key_fields(right);
    assert(a == b);
    assert(a[1] == b[1] && a[2] == b[2] && a[3] == b[3] && a[4] == b[4] && a[5] == b[5] && a[6]
        == b[6]);
    lemma_decimal_text_injective(left.count as nat, right.count as nat);
    lemma_decimal_text_injective(
        seed_or_zero(left.seed) as nat,
        seed_or_zero(right.seed) as nat,
    );
    left.category.lemma_url_name(right.category);
    left.format.lemma_api_name(right.format);
    left.unit.lemma_api_name(right.unit);
    lemma_joined_names_injective(left.tags, right.tags);
}

} // verus!
