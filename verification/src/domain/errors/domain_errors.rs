//! The closed set of errors that the domain reports.

use vstd::prelude::*;
use vstd::string::*;
use crate::domain::text::{append_decimal, decimal_text};

verus! {

/// Every failure that a value object or an entity of the domain can report.
///
/// Each variant carries the values that its message shows.
#[derive(Debug, Clone, PartialEq, Eq)]
#[allow(inconsistent_fields)]
pub enum DomainError {
    /// A text length outside its bounds.
    InvalidTextLength { value: u32, min: u32, max: u32 },
    /// A length category name that is not recognised.
    UnknownLengthCategory { category: String },
    /// An HTML tag name that is not recognised.
    InvalidHtmlTag { tag: String },
    /// A tag set built from no tag at all.
    EmptyHtmlTags,
    /// Two tags that may not appear together.
    IncompatibleHtmlTags { tag1: String, tag2: String },
    /// A text format name that is not recognised.
    UnknownTextFormat { format: String },
    /// A generation unit name that is not recognised.
    UnknownGenerationUnit { unit: String },
    /// An element count outside its bounds.
    InvalidElementCount { count: u32, min: u32, max: u32 },
    /// A generation unit that cannot carry HTML tags.
    IncompatibleUnitWithHtml { unit: String },
    /// More elements than the length category allows.
    ExcessiveCount { unit: String, count: u32, max: u32, category: String },
    /// More words than a request may ask for.
    TooManyWords { count: u32, max: u32 },
    /// More sentences than a request may ask for.
    TooManySentences { count: u32, max: u32 },
    /// A URL path that does not follow the expected shape.
    MalformedUrl { url: String },
    /// A URL parameter that is required and absent.
    MissingUrlParameter { parameter: String },
    /// A URL parameter with an unusable value.
    InvalidUrlParameter { parameter: String, value: String },
    /// A URL path without any tag segment.
    MissingHtmlTags,
    /// A URL segment that should be a number and is not.
    InvalidUrlNumber { value: String },
    /// A cache configuration that cannot be used.
    InvalidCacheConfig { reason: String },
    /// A cache entry larger than the cache accepts.
    CacheSizeExceeded { size: usize, max: usize },
    /// A business rule that does not hold.
    BusinessRuleViolation { rule: String },
    /// A validation that failed for the stated reason.
    ValidationFailed { details: String },
    /// A JSON document that could not be decoded.
    JsonDeserializationError { message: String },
    /// A JSON field with an unusable value.
    InvalidJsonValue { field: String, value: String },
}

/// The result of a fallible operation of the domain.
pub type DomainResult<T> = Result<T, DomainError>;

impl DomainError {
    /// The message that describes the error to a reader.
    pub open spec fn message(self) -> Seq<char> {
        match self {
            DomainError::InvalidTextLength { value, min, max } => "Longueur de texte invalide: "@
                + decimal_text(value as nat)
                + " (doit être entre "@
                + decimal_text(min as nat)
                + " et "@
                + decimal_text(max as nat)
                + ")"@,
            DomainError::UnknownLengthCategory { category } => "Catégorie de longueur inconnue: '"@
                + category@
                + "'"@,
            DomainError::InvalidHtmlTag { tag } => "Tag HTML invalide: '"@
                + tag@
                + "'"@,
            DomainError::EmptyHtmlTags => "Liste de tags HTML vide"@,
            DomainError::IncompatibleHtmlTags { tag1, tag2 } => "Tags HTML incompatibles: '"@
                + tag1@
                + "' et '"@
                + tag2@
                + "' ne peuvent pas être utilisés ensemble"@,
            DomainError::UnknownTextFormat { format } => "Format de texte inconnu: '"@
                + format@
                + "'"@,
            DomainError::UnknownGenerationUnit { unit } => "Unité de génération inconnue: '"@
                + unit@
                + "'"@,
            DomainError::InvalidElementCount { count, min, max } => "Nombre d'éléments invalide: "@
                + decimal_text(count as nat)
                + " (doit être entre "@
                + decimal_text(min as nat)
                + " et "@
                + decimal_text(max as nat)
                + ")"@,
            DomainError::IncompatibleUnitWithHtml { unit } => "Combinaison invalide: "@
                + unit@
                + " avec tags HTML"@,
            DomainError::ExcessiveCount { unit, count, max, category } => "Trop de "@
                + unit@
                + " demandés: "@
                + decimal_text(count as nat)
                + " (maximum "@
                + decimal_text(max as nat)
                + " pour la catégorie '"@
                + category@
                + "')"@,
            DomainError::TooManyWords { count, max } => "Trop de mots demandés: "@
                + decimal_text(count as nat)
                + " (maximum "@
                + decimal_text(max as nat)
                + ")"@,
            DomainError::TooManySentences { count, max } => "Trop de phrases demandées: "@
                + decimal_text(count as nat)
                + " (maximum "@
                + decimal_text(max as nat)
                + ")"@,
            DomainError::MalformedUrl { url } => "URL malformée: '"@
                + url@
                + "' (format attendu: /api/count/category/tags...)"@,
            DomainError::MissingUrlParameter { parameter } => "Paramètre manquant dans l'URL: "@
                + parameter@,
            DomainError::InvalidUrlParameter { parameter, value } => "Paramètre URL invalide: "@
                + parameter@
                + "='"@
                + value@
                + "'"@,
            DomainError::MissingHtmlTags => "Au moins un tag HTML doit être spécifié"@,
            DomainError::InvalidUrlNumber { value } => "Nombre invalide dans l'URL: '"@
                + value@
                + "'"@,
            DomainError::InvalidCacheConfig { reason } => "Configuration de cache invalide: "@
                + reason@,
            DomainError::CacheSizeExceeded { size, max } => "Taille de cache excessive: "@
                + decimal_text(size as nat)
                + " bytes (max: "@
                + decimal_text(max as nat)
                + " bytes)"@,
            DomainError::BusinessRuleViolation { rule } => "Règle métier violée: "@
                + rule@,
            DomainError::ValidationFailed { details } => "Validation métier échouée: "@
                + details@,
            DomainError::JsonDeserializationError { message } => "Erreur de désérialisation JSON: "@
                + message@,
            DomainError::InvalidJsonValue { field, value } => "Valeur JSON invalide pour "@
                + field@
                + ": "@
                + value@,
        }
    }

    /// Whether the error reports a value that broke a validation rule.
    pub open spec fn validation_class(self) -> bool {
        self is InvalidTextLength || self is InvalidElementCount || self is EmptyHtmlTags
            || self is IncompatibleHtmlTags || self is IncompatibleUnitWithHtml
            || self is ExcessiveCount || self is TooManyWords || self is TooManySentences
            || self is ValidationFailed
    }

    /// Whether the error reports a text that could not be read.
    pub open spec fn parsing_class(self) -> bool {
        self is UnknownLengthCategory || self is InvalidHtmlTag || self is UnknownTextFormat
            || self is UnknownGenerationUnit || self is MalformedUrl
            || self is MissingUrlParameter || self is InvalidUrlParameter
            || self is MissingHtmlTags || self is InvalidUrlNumber
            || self is JsonDeserializationError || self is InvalidJsonValue
    }

    /// Whether the error concerns the cache.
    pub open spec fn cache_class(self) -> bool {
        self is InvalidCacheConfig || self is CacheSizeExceeded
    }

    /// Builds the error for a text length outside its bounds.
    pub fn invalid_text_length(value: u32, min: u32, max: u32) -> (error: Self)
        ensures
            error == (DomainError::InvalidTextLength { value, min, max }),
    {
        DomainError::InvalidTextLength { value, min, max }
    }

    /// Builds the error for an unknown length category name.
    pub fn unknown_category(category: &str) -> (error: Self)
        ensures
            error matches DomainError::UnknownLengthCategory { category: text }
                && text@ == category@,
    {
        DomainError::UnknownLengthCategory { category: String::from_str(category) }
    }

    /// Builds the error for an unknown HTML tag name.
    pub fn invalid_html_tag(tag: &str) -> (error: Self)
        ensures
            error matches DomainError::InvalidHtmlTag { tag: text } && text@ == tag@,
    {
        DomainError::InvalidHtmlTag { tag: String::from_str(tag) }
    }

    /// Builds the error for an unknown text format name.
    pub fn unknown_format(format: &str) -> (error: Self)
        ensures
            error matches DomainError::UnknownTextFormat { format: text } && text@ == format@,
    {
        DomainError::UnknownTextFormat { format: String::from_str(format) }
    }

    /// Builds the error for an unknown generation unit name.
    pub fn unknown_unit(unit: &str) -> (error: Self)
        ensures
            error matches DomainError::UnknownGenerationUnit { unit: text } && text@ == unit@,
    {
        DomainError::UnknownGenerationUnit { unit: String::from_str(unit) }
    }

    /// Builds the error for an element count outside its bounds.
    pub fn invalid_count(count: u32, min: u32, max: u32) -> (error: Self)
        ensures
            error == (DomainError::InvalidElementCount { count, min, max }),
    {
        DomainError::InvalidElementCount { count, min, max }
    }

    /// Builds the error for a URL path of the wrong shape.
    pub fn malformed_url(url: &str) -> (error: Self)
        ensures
            error matches DomainError::MalformedUrl { url: text } && text@ == url@,
    {
        DomainError::MalformedUrl { url: String::from_str(url) }
    }

    /// Builds the error for a URL parameter that is absent.
    pub fn missing_parameter(parameter: &str) -> (error: Self)
        ensures
            error matches DomainError::MissingUrlParameter { parameter: text }
                && text@ == parameter@,
    {
        DomainError::MissingUrlParameter { parameter: String::from_str(parameter) }
    }

    /// Whether the error reports a value that broke a validation rule.
    pub fn is_validation_error(&self) -> (yes: bool)
        ensures
            yes == self.validation_class(),
    {
        match self {
            DomainError::InvalidTextLength { .. }
            | DomainError::InvalidElementCount { .. }
            | DomainError::EmptyHtmlTags
            | DomainError::IncompatibleHtmlTags { .. }
            | DomainError::IncompatibleUnitWithHtml { .. }
            | DomainError::ExcessiveCount { .. }
            | DomainError::TooManyWords { .. }
            | DomainError::TooManySentences { .. }
            | DomainError::ValidationFailed { .. } => true,
            _ => false,
        }
    }

    /// Whether the error reports a text that could not be read.
    pub fn is_parsing_error(&self) -> (yes: bool)
        ensures
            yes == self.parsing_class(),
    {
        match self {
            DomainError::UnknownLengthCategory { .. }
            | DomainError::InvalidHtmlTag { .. }
            | DomainError::UnknownTextFormat { .. }
            | DomainError::UnknownGenerationUnit { .. }
            | DomainError::MalformedUrl { .. }
            | DomainError::MissingUrlParameter { .. }
            | DomainError::InvalidUrlParameter { .. }
            | DomainError::MissingHtmlTags
            | DomainError::InvalidUrlNumber { .. }
            | DomainError::JsonDeserializationError { .. }
            | DomainError::InvalidJsonValue { .. } => true,
            _ => false,
        }
    }

    /// Whether the error concerns the cache.
    pub fn is_cache_error(&self) -> (yes: bool)
        ensures
            yes == self.cache_class(),
    {
        match self {
            DomainError::InvalidCacheConfig { .. } | DomainError::CacheSizeExceeded { .. } => true,
            _ => false,
        }
    }

    /// Renders the message of the error.
    pub fn to_string(&self) -> (text: String)
        ensures
            text@ == self.message(),
    {
        match self {
            DomainError::InvalidTextLength { value, min, max } => {
                let mut out = String::from_str("Longueur de texte invalide: ");
                append_decimal(&mut out, *value as u64);
                out.append(" (doit être entre ");
                append_decimal(&mut out, *min as u64);
                out.append(" et ");
                append_decimal(&mut out, *max as u64);
                out.append(")");
                out
            },
            DomainError::UnknownLengthCategory { category } => {
                let mut out = String::from_str("Catégorie de longueur inconnue: '");
                out.append(category.as_str());
                out.append("'");
                out
            },
            DomainError::InvalidHtmlTag { tag } => {
                let mut out = String::from_str("Tag HTML invalide: '");
                out.append(tag.as_str());
                out.append("'");
                out
            },
            DomainError::EmptyHtmlTags => String::from_str("Liste de tags HTML vide"),
            DomainError::IncompatibleHtmlTags { tag1, tag2 } => {
                let mut out = String::from_str("Tags HTML incompatibles: '");
                out.append(tag1.as_str());
                out.append("' et '");
                out.append(tag2.as_str());
                out.append("' ne peuvent pas être utilisés ensemble");
                out
            },
            DomainError::UnknownTextFormat { format } => {
                let mut out = String::from_str("Format de texte inconnu: '");
                out.append(format.as_str());
                out.append("'");
                out
            },
            DomainError::UnknownGenerationUnit { unit } => {
                let mut out = String::from_str("Unité de génération inconnue: '");
                out.append(unit.as_str());
                out.append("'");
                out
            },
            DomainError::InvalidElementCount { count, min, max } => {
                let mut out = String::from_str("Nombre d'éléments invalide: ");
                append_decimal(&mut out, *count as u64);
                out.append(" (doit être entre ");
                append_decimal(&mut out, *min as u64);
                out.append(" et ");
                append_decimal(&mut out, *max as u64);
                out.append(")");
                out
            },
            DomainError::IncompatibleUnitWithHtml { unit } => {
                let mut out = String::from_str("Combinaison invalide: ");
                out.append(unit.as_str());
                out.append(" avec tags HTML");
                out
            },
            DomainError::ExcessiveCount { unit, count, max, category } => {
                let mut out = String::from_str("Trop de ");
                out.append(unit.as_str());
                out.append(" demandés: ");
                append_decimal(&mut out, *count as u64);
                out.append(" (maximum ");
                append_decimal(&mut out, *max as u64);
                out.append(" pour la catégorie '");
                out.append(category.as_str());
                out.append("')");
                out
            },
            DomainError::TooManyWords { count, max } => {
                let mut out = String::from_str("Trop de mots demandés: ");
                append_decimal(&mut out, *count as u64);
                out.append(" (maximum ");
                append_decimal(&mut out, *max as u64);
                out.append(")");
                out
            },
            DomainError::TooManySentences { count, max } => {
                let mut out = String::from_str("Trop de phrases demandées: ");
                append_decimal(&mut out, *count as u64);
                out.append(" (maximum ");
                append_decimal(&mut out, *max as u64);
                out.append(")");
                out
            },
            DomainError::MalformedUrl { url } => {
                let mut out = String::from_str("URL malformée: '");
                out.append(url.as_str());
                out.append("' (format attendu: /api/count/category/tags...)");
                out
            },
            DomainError::MissingUrlParameter { parameter } => {
                let mut out = String::from_str("Paramètre manquant dans l'URL: ");
                out.append(parameter.as_str());
                out
            },
            DomainError::InvalidUrlParameter { parameter, value } => {
                let mut out = String::from_str("Paramètre URL invalide: ");
                out.append(parameter.as_str());
                out.append("='");
                out.append(value.as_str());
                out.append("'");
                out
            },
            DomainError::MissingHtmlTags => String::from_str("Au moins un tag HTML doit être spécifié"),
            DomainError::InvalidUrlNumber { value } => {
                let mut out = String::from_str("Nombre invalide dans l'URL: '");
                out.append(value.as_str());
                out.append("'");
                out
            },
            DomainError::InvalidCacheConfig { reason } => {
                let mut out = String::from_str("Configuration de cache invalide: ");
                out.append(reason.as_str());
                out
            },
            DomainError::CacheSizeExceeded { size, max } => {
                let mut out = String::from_str("Taille de cache excessive: ");
                append_decimal(&mut out, *size as u64);
                out.append(" bytes (max: ");
                append_decimal(&mut out, *max as u64);
                out.append(" bytes)");
                out
            },
            DomainError::BusinessRuleViolation { rule } => {
                let mut out = String::from_str("Règle métier violée: ");
                out.append(rule.as_str());
                out
            },
            DomainError::ValidationFailed { details } => {
                let mut out = String::from_str("Validation métier échouée: ");
                out.append(details.as_str());
                out
            },
            DomainError::JsonDeserializationError { message } => {
                let mut out = String::from_str("Erreur de désérialisation JSON: ");
                out.append(message.as_str());
                out
            },
            DomainError::InvalidJsonValue { field, value } => {
                let mut out = String::from_str("Valeur JSON invalide pour ");
                out.append(field.as_str());
                out.append(": ");
                out.append(value.as_str());
                out
            },
        }
    }

    /// An error belongs to at most one of the three classes, and a business
    /// rule violation belongs to none.
    pub proof fn lemma_classes_exclusive(self)
        ensures
            !(self.validation_class() && self.parsing_class()),
            !(self.validation_class() && self.cache_class()),
            !(self.parsing_class() && self.cache_class()),
            self is BusinessRuleViolation ==> !self.validation_class() && !self.parsing_class()
                && !self.cache_class(),
    {
    }
}

/// An error turns into its message, as `to_string` renders it.
impl From<DomainError> for String {
    fn from(error: DomainError) -> (text: String) {
        error.to_string()
    }
}

/// Contracts speak of the message through `to_string`: the conversion has
/// no description of its own.
impl vstd::std_specs::convert::FromSpecImpl<DomainError> for String {
    open spec fn obeys_from_spec() -> bool {
        false
    }

    open spec fn from_spec(error: DomainError) -> String {
        arbitrary()
    }
}

} // verus!
