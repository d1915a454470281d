//! HTML tags and canonical sets of them.

use vstd::prelude::*;
use vstd::string::*;
use std::cmp::Ordering;
use crate::domain::errors::{DomainError, DomainResult};
use crate::domain::text::{
    joined,
    lacks,
    lemma_joined_not_empty,
    lemma_split_joined,
    lowercase_of,
    lowercased,
    text_is,
    texts_of,
};

verus! {

/// An HTML element that generated text can be wrapped in.
///
/// The variants are ordered as they are declared.
#[derive(Debug, Clone, Copy, PartialEq, Eq, Ord, Hash, Structural)]
pub enum HtmlTag {
    Header,
    Link,
    Ul,
    Ol,
    Dl,
    Pre,
    Code,
    Blockquote,
    Div,
}

impl PartialOrd for HtmlTag {
    fn partial_cmp(&self, other: &Self) -> (order: Option<Ordering>) {
        let left = self.ordinal();
        let right = other.ordinal();
        if left < right {
            Some(Ordering::Less)
        } else if left == right {
            Some(Ordering::Equal)
        } else {
            Some(Ordering::Greater)
        }
    }
}

impl vstd::std_specs::cmp::PartialOrdSpecImpl for HtmlTag {
    open spec fn obeys_partial_cmp_spec() -> bool {
        true
    }

    /// Tags compare as their ranks do.
    open spec fn partial_cmp_spec(&self, other: &Self) -> Option<Ordering> {
        if self.rank() < other.rank() {
            Some(Ordering::Less)
        } else if self.rank() == other.rank() {
            Some(Ordering::Equal)
        } else {
            Some(Ordering::Greater)
        }
    }
}

impl HtmlTag {
    /// The place of the tag in the declared order, from 0.
    pub open spec fn rank(self) -> nat {
        match self {
            HtmlTag::Header => 0,
            HtmlTag::Link => 1,
            HtmlTag::Ul => 2,
            HtmlTag::Ol => 3,
            HtmlTag::Dl => 4,
            HtmlTag::Pre => 5,
            HtmlTag::Code => 6,
            HtmlTag::Blockquote => 7,
            HtmlTag::Div => 8,
        }
    }

    /// Every tag, in the declared order.
    pub open spec fn every() -> Seq<HtmlTag> {
        seq![
            HtmlTag::Header,
            HtmlTag::Link,
            HtmlTag::Ul,
            HtmlTag::Ol,
            HtmlTag::Dl,
            HtmlTag::Pre,
            HtmlTag::Code,
            HtmlTag::Blockquote,
            HtmlTag::Div,
        ]
    }

    /// The tag that a lowercase name or alias stands for, if any.
    pub open spec fn named(lower: Seq<char>) -> Option<Self> {
        if lower == "headers"@ || lower == "header"@ {
            Some(HtmlTag::Header)
        } else if lower == "link"@ || lower == "links"@ {
            Some(HtmlTag::Link)
        } else if lower == "ul"@ || lower == "unordered"@ {
            Some(HtmlTag::Ul)
        } else if lower == "ol"@ || lower == "ordered"@ {
            Some(HtmlTag::Ol)
        } else if lower == "dl"@ || lower == "definition"@ {
            Some(HtmlTag::Dl)
        } else if lower == "pre"@ || lower == "preformatted"@ {
            Some(HtmlTag::Pre)
        } else if lower == "code"@ {
            Some(HtmlTag::Code)
        } else if lower == "blockquote"@ || lower == "quote"@ {
            Some(HtmlTag::Blockquote)
        } else if lower == "div"@ {
            Some(HtmlTag::Div)
        } else {
            None
        }
    }

    /// The tag that a name stands for once its letters are lowercased.
    pub open spec fn read(name: Seq<char>) -> Option<Self> {
        Self::named(lowercase_of(name))
    }

    /// The canonical name used in URLs.
    pub open spec fn url_name(self) -> Seq<char> {
        match self {
            HtmlTag::Header => "headers"@,
            HtmlTag::Link => "link"@,
            HtmlTag::Ul => "ul"@,
            HtmlTag::Ol => "ol"@,
            HtmlTag::Dl => "dl"@,
            HtmlTag::Pre => "pre"@,
            HtmlTag::Code => "code"@,
            HtmlTag::Blockquote => "blockquote"@,
            HtmlTag::Div => "div"@,
        }
    }

    /// Whether the tag is a block element.
    pub open spec fn block(self) -> bool {
        self is Div || self is Blockquote || self is Pre || self is Ul || self is Ol || self is Dl
    }

    /// Whether the tag is an inline element.
    pub open spec fn inline(self) -> bool {
        self is Link || self is Code
    }

    /// Whether two tags may appear in one set: all may, but the two kinds of
    /// list exclude each other.
    pub open spec fn compatible(self, other: HtmlTag) -> bool {
        !((self is Ul && other is Ol) || (self is Ol && other is Ul))
    }

    /// The place of the tag in the declared order, from 0.
    pub fn ordinal(&self) -> (place: u8)
        ensures
            place == self.rank(),
    {
        match self {
            HtmlTag::Header => 0,
            HtmlTag::Link => 1,
            HtmlTag::Ul => 2,
            HtmlTag::Ol => 3,
            HtmlTag::Dl => 4,
            HtmlTag::Pre => 5,
            HtmlTag::Code => 6,
            HtmlTag::Blockquote => 7,
            HtmlTag::Div => 8,
        }
    }

    /// Looks an already lowercased name up among the names and aliases.
    pub fn from_lowercase_name(lower: &String) -> (tag: Option<Self>)
        ensures
            tag == Self::named(lower@),
    {
        if text_is(lower, "headers") || text_is(lower, "header") {
            Some(HtmlTag::Header)
        } else if text_is(lower, "link") || text_is(lower, "links") {
            Some(HtmlTag::Link)
        } else if text_is(lower, "ul") || text_is(lower, "unordered") {
            Some(HtmlTag::Ul)
        } else if text_is(lower, "ol") || text_is(lower, "ordered") {
            Some(HtmlTag::Ol)
        } else if text_is(lower, "dl") || text_is(lower, "definition") {
            Some(HtmlTag::Dl)
        } else if text_is(lower, "pre") || text_is(lower, "preformatted") {
            Some(HtmlTag::Pre)
        } else if text_is(lower, "code") {
            Some(HtmlTag::Code)
        } else if text_is(lower, "blockquote") || text_is(lower, "quote") {
            Some(HtmlTag::Blockquote)
        } else if text_is(lower, "div") {
            Some(HtmlTag::Div)
        } else {
            None
        }
    }

    /// Reads a tag from a URL name or alias, whatever the case of its
    /// letters. An unknown name is reported with the text as it was given.
    pub fn from_url_name(name: &str) -> (tag: DomainResult<Self>)
        ensures
            match Self::read(name@) {
                Some(known) => tag == Ok::<Self, DomainError>(known),
                None => tag matches Err(DomainError::InvalidHtmlTag { tag: text }) && text@
                    == name@,
            },
    {
        let lower = lowercased(name);
        match Self::from_lowercase_name(&lower) {
            Some(known) => Ok(known),
            None => Err(DomainError::invalid_html_tag(name)),
        }
    }

    /// The canonical name used in URLs.
    pub fn to_url_name(&self) -> (name: &'static str)
        ensures
            name@ == self.url_name(),
    {
        match self {
            HtmlTag::Header => "headers",
            HtmlTag::Link => "link",
            HtmlTag::Ul => "ul",
            HtmlTag::Ol => "ol",
            HtmlTag::Dl => "dl",
            HtmlTag::Pre => "pre",
            HtmlTag::Code => "code",
            HtmlTag::Blockquote => "blockquote",
            HtmlTag::Div => "div",
        }
    }

    /// The canonical name as an owned text.
    pub fn to_string(&self) -> (name: String)
        ensures
            name@ == self.url_name(),
    {
        String::from_str(self.to_url_name())
    }

    /// Whether the tag is a block element.
    pub fn is_block_element(&self) -> (yes: bool)
        ensures
            yes == self.block(),
    {
        match self {
            HtmlTag::Div
            | HtmlTag::Blockquote
            | HtmlTag::Pre
            | HtmlTag::Ul
            | HtmlTag::Ol
            | HtmlTag::Dl => true,
            _ => false,
        }
    }

    /// Whether the tag is an inline element.
    pub fn is_inline_element(&self) -> (yes: bool)
        ensures
            yes == self.inline(),
    {
        match self {
            HtmlTag::Link | HtmlTag::Code => true,
            _ => false,
        }
    }

    /// Whether the tag needs content: every tag does, but `Div`.
    pub fn requires_content(&self) -> (yes: bool)
        ensures
            yes == !(self is Div),
    {
        match self {
            HtmlTag::Div => false,
            _ => true,
        }
    }

    /// Whether the tag may appear in one set with `other`.
    pub fn is_compatible_with(&self, other: &HtmlTag) -> (yes: bool)
        ensures
            yes == self.compatible(*other),
    {
        match (self, other) {
            (HtmlTag::Ul, HtmlTag::Ol) | (HtmlTag::Ol, HtmlTag::Ul) => false,
            _ => true,
        }
    }

    /// Every tag, in the declared order.
    pub fn all_variants() -> (all: Vec<Self>)
        ensures
            all@ == Self::every(),
    {
        let mut all = Vec::new();
        all.push(HtmlTag::Header);
        all.push(HtmlTag::Link);
        all.push(HtmlTag::Ul);
        all.push(HtmlTag::Ol);
        all.push(HtmlTag::Dl);
        all.push(HtmlTag::Pre);
        all.push(HtmlTag::Code);
        all.push(HtmlTag::Blockquote);
        all.push(HtmlTag::Div);
        assert(all@ =~= Self::every());
        all
    }

    /// The list of every tag holds each tag at the place of its rank, so it
    /// is ordered by rank and misses none.
    pub proof fn lemma_every_complete(self)
        ensures
            Self::every().len() == 9,
            Self::every()[self.rank() as int] == self,
            Self::every().contains(self),
            forall|i: int| 0 <= i < 9 ==> (#[trigger] Self::every()[i]).rank() == i,
    {
        assert(Self::every()[self.rank() as int] == self);
    }

    /// Compatibility does not depend on the order of the two tags.
    pub proof fn lemma_compatible_symmetric(self, other: HtmlTag)
        ensures
            self.compatible(other) == other.compatible(self),
    {
    }
}

/// The tags of `all` that occur in `tags`, in the order of `all`.
pub open spec fn present_in(all: Seq<HtmlTag>, tags: Seq<HtmlTag>) -> Seq<HtmlTag>
    decreases all.len(),
{
    if all.len() == 0 {
        Seq::empty()
    } else {
        let before = present_in(all.drop_last(), tags);
        if tags.contains(all.last()) {
            before.push(all.last())
        } else {
            before
        }
    }
}

/// The canonical form of a list of tags: each tag that occurs in it once,
/// in the declared order.
pub open spec fn canonical(tags: Seq<HtmlTag>) -> Seq<HtmlTag> {
    present_in(HtmlTag::every(), tags)
}

/// Whether a list of tags is its own canonical form.
pub open spec fn is_canonical(tags: Seq<HtmlTag>) -> bool {
    tags == canonical(tags)
}

/// Whether the ranks of a list of tags grow strictly from each tag to the
/// next, so that the list is sorted and holds no tag twice.
pub open spec fn strictly_ranked(tags: Seq<HtmlTag>) -> bool {
    forall|i: int, j: int| 0 <= i < j < tags.len() ==> tags[i].rank() < tags[j].rank()
}

/// Whether a list of tags holds both kinds of list, which exclude each
/// other.
pub open spec fn mixes_lists(tags: Seq<HtmlTag>) -> bool {
    tags.contains(HtmlTag::Ul) && tags.contains(HtmlTag::Ol)
}

/// Whether `outcome` is what the union of two lists of tags gives: where
/// the two kinds of list meet in it, the error that names them in canonical
/// order; otherwise the set that holds the canonical form of both lists.
pub open spec fn combined(
    left: Seq<HtmlTag>,
    right: Seq<HtmlTag>,
    outcome: DomainResult<HtmlTags>,
) -> bool {
    &&& !mixes_lists(left + right) ==> (outcome matches Ok(built) && built@ == canonical(
        left + right,
    ) && built.well_formed())
    &&& mixes_lists(left + right) ==> (outcome matches Err(
        DomainError::IncompatibleHtmlTags { tag1, tag2 },
    ) && tag1@ == HtmlTag::Ul.url_name() && tag2@ == HtmlTag::Ol.url_name())
}

/// Whether no two tags of the list exclude each other.
pub open spec fn pairwise_compatible(tags: Seq<HtmlTag>) -> bool {
    forall|i: int, j: int|
        0 <= i < tags.len() && 0 <= j < tags.len() ==> tags[i].compatible(tags[j])
}

/// The names of the tags, joined by `/`.
pub open spec fn joined_names(tags: Seq<HtmlTag>) -> Seq<char>
    decreases tags.len(),
{
    if tags.len() == 0 {
        Seq::empty()
    } else if tags.len() == 1 {
        tags[0].url_name()
    } else {
        joined_names(tags.drop_last()) + "/"@ + tags.last().url_name()
    }
}

/// How many tags of the list are block elements.
pub open spec fn block_count(tags: Seq<HtmlTag>) -> nat
    decreases tags.len(),
{
    if tags.len() == 0 {
        0
    } else {
        block_count(tags.drop_last()) + if tags.last().block() {
            1nat
        } else {
            0nat
        }
    }
}

/// How many tags of the list are inline elements.
pub open spec fn inline_count(tags: Seq<HtmlTag>) -> nat
    decreases tags.len(),
{
    if tags.len() == 0 {
        0
    } else {
        inline_count(tags.drop_last()) + if tags.last().inline() {
            1nat
        } else {
            0nat
        }
    }
}

/// A tag is among those kept from `all` exactly when it occurs in both lists.
pub proof fn lemma_present_in_contains(all: Seq<HtmlTag>, tags: Seq<HtmlTag>, tag: HtmlTag)
    ensures
        present_in(all, tags).contains(tag) <==> all.contains(tag) && tags.contains(tag),
    decreases all.len(),
{
    if all.len() > 0 {
        let before = present_in(all.drop_last(), tags);
        lemma_present_in_contains(all.drop_last(), tags, tag);
        if all.contains(tag) {
            let i = choose|i: int| 0 <= i < all.len() && all[i] == tag;
            if i < all.len() - 1 {
                assert(all.drop_last()[i] == tag);
            }
        }
        if all.drop_last().contains(tag) {
            let i = choose|i: int| 0 <= i < all.drop_last().len() && all.drop_last()[i] == tag;
            assert(all[i] == tag);
        }
        if tags.contains(all.last()) {
            let kept = before.push(all.last());
            if before.contains(tag) {
                let i = choose|i: int| 0 <= i < before.len() && before[i] == tag;
                assert(kept[i] == tag);
            }
            if tag == all.last() {
                assert(kept[before.len() as int] == tag);
                assert(all[all.len() - 1] == tag);
            }
        }
    }
}

/// Two lists with the same members keep the same tags of `all`.
pub proof fn lemma_present_in_same_members(
    all: Seq<HtmlTag>,
    left: Seq<HtmlTag>,
    right: Seq<HtmlTag>,
)
    requires
        forall|tag: HtmlTag| left.contains(tag) == right.contains(tag),
    ensures
        present_in(all, left) == present_in(all, right),
    decreases all.len(),
{
    if all.len() > 0 {
        lemma_present_in_same_members(all.drop_last(), left, right);
    }
}

/// The tags kept from a list with strictly growing ranks have strictly
/// growing ranks themselves, and there are no more of them than in the list.
pub proof fn lemma_present_in_ranked(all: Seq<HtmlTag>, tags: Seq<HtmlTag>)
    requires
        strictly_ranked(all),
    ensures
        strictly_ranked(present_in(all, tags)),
        present_in(all, tags).len() <= all.len(),
    decreases all.len(),
{
    if all.len() > 0 {
        let before = present_in(all.drop_last(), tags);
        assert(strictly_ranked(all.drop_last())) by {
            assert forall|i: int, j: int| 0 <= i < j < all.drop_last().len() implies all.drop_last()[i].rank()
                < all.drop_last()[j].rank() by {
                assert(all[i].rank() < all[j].rank());
            }
        }
        lemma_present_in_ranked(all.drop_last(), tags);
        if tags.contains(all.last()) {
            let kept = before.push(all.last());
            assert forall|i: int, j: int| 0 <= i < j < kept.len() implies kept[i].rank()
                < kept[j].rank() by {
                if j == before.len() {
                    lemma_present_in_contains(all.drop_last(), tags, before[i]);
                    assert(before.contains(before[i]));
                    let k = choose|k: int|
                        0 <= k < all.drop_last().len() && all.drop_last()[k] == before[i];
                    assert(all[k].rank() < all[all.len() - 1].rank());
                } else {
                    assert(before[i].rank() < before[j].rank());
                }
            }
        }
    }
}

/// The canonical form of a list has the members of the list, strictly
/// growing ranks, at most nine tags, and is its own canonical form.
pub proof fn lemma_canonical(tags: Seq<HtmlTag>)
    ensures
        forall|tag: HtmlTag| canonical(tags).contains(tag) == tags.contains(tag),
        strictly_ranked(canonical(tags)),
        canonical(tags).len() <= 9,
        tags.len() > 0 ==> canonical(tags).len() > 0,
        is_canonical(canonical(tags)),
{
    let all = HtmlTag::every();
    assert forall|tag: HtmlTag| canonical(tags).contains(tag) == tags.contains(tag) by {
        tag.lemma_every_complete();
        lemma_present_in_contains(all, tags, tag);
    }
    assert(strictly_ranked(all)) by {
        HtmlTag::Header.lemma_every_complete();
    }
    lemma_present_in_ranked(all, tags);
    if tags.len() > 0 {
        assert(tags.contains(tags[0]));
        assert(canonical(tags).contains(tags[0]));
    }
    lemma_present_in_same_members(all, canonical(tags), tags);
}

/// A set of HTML tags, kept as a list in canonical form: never empty, each
/// tag once, in the declared order.
///
/// Two sets built from the same tags in any order hold the same list, so
/// they are equal and hash alike.
#[derive(Debug, PartialEq, Eq, Hash)]
pub struct HtmlTags {
    tags: Vec<HtmlTag>,
}

impl View for HtmlTags {
    type V = Seq<HtmlTag>;

    closed spec fn view(&self) -> Seq<HtmlTag> {
        self.tags@
    }
}

fn holds_tag(tags: &Vec<HtmlTag>, tag: HtmlTag) -> (found: bool)
    ensures
        found == tags@.contains(tag),
{
    let mut i: usize = 0;
    while i < tags.len()
        invariant
            i <= tags.len(),
            forall|k: int| 0 <= k < i ==> tags@[k] != tag,
        decreases tags.len() - i,
    {
        if tags[i] == tag {
            return true;
        }
        i = i + 1;
    }
    false
}

impl Clone for HtmlTags {
    fn clone(&self) -> (copy: Self)
        ensures
            copy@ == self@,
            copy.well_formed(),
    {
        proof {
            use_type_invariant(self);
        }
        let mut tags: Vec<HtmlTag> = Vec::new();
        let mut i: usize = 0;
        while i < self.tags.len()
            invariant
                i <= self.tags.len(),
                tags@ == self.tags@.subrange(0, i as int),
            decreases self.tags.len() - i,
        {
            tags.push(self.tags[i]);
            assert(tags@ =~= self.tags@.subrange(0, i + 1));
            i = i + 1;
        }
        assert(tags@ =~= self.tags@);
        HtmlTags { tags }
    }
}

impl HtmlTags {
    /// What holds of every set: its list is not empty and is canonical.
    #[verifier::type_invariant]
    pub closed spec fn well_formed(self) -> bool {
        self.tags@.len() > 0 && is_canonical(self.tags@)
    }

    /// A well-formed set, seen through its view.
    pub proof fn lemma_well_formed(self)
        requires
            self.well_formed(),
        ensures
            0 < self@.len() <= 9,
            is_canonical(self@),
            strictly_ranked(self@),
    {
        lemma_canonical(self@);
    }

    /// Whether the set holds both kinds of list, which exclude each other.
    pub open spec fn mixes_lists(self) -> bool {
        mixes_lists(self@)
    }

    /// Builds the set of the tags of a list. An empty list is rejected;
    /// otherwise the set holds the canonical form of the list.
    pub fn new(tags: Vec<HtmlTag>) -> (set: DomainResult<Self>)
        ensures
            tags@.len() == 0 ==> set matches Err(DomainError::EmptyHtmlTags),
            tags@.len() > 0 ==> (set matches Ok(built) && built@ == canonical(tags@)
                && built.well_formed()),
    {
        if tags.len() == 0 {
            return Err(DomainError::EmptyHtmlTags);
        }
        let all = HtmlTag::all_variants();
        let mut kept: Vec<HtmlTag> = Vec::new();
        let mut i: usize = 0;
        assert(all@.subrange(0, 0) =~= Seq::<HtmlTag>::empty());
        while i < all.len()
            invariant
                i <= all.len(),
                kept@ == present_in(all@.subrange(0, i as int), tags@),
            decreases all.len() - i,
        {
            assert(all@.subrange(0, i + 1).drop_last() =~= all@.subrange(0, i as int));
            if holds_tag(&tags, all[i]) {
                kept.push(all[i]);
            }
            i = i + 1;
        }
        proof {
            assert(all@.subrange(0, all.len() as int) =~= all@);
            lemma_canonical(tags@);
        }
        Ok(HtmlTags { tags: kept })
    }

    /// Reads a set from the tag names of a URL.
    ///
    /// No name at all is reported as missing tags; otherwise the first name
    /// that stands for no tag is reported with its text; otherwise the set
    /// holds the canonical form of the tags that the names stand for.
    pub fn from_url_parts(parts: &[&str]) -> (set: DomainResult<Self>)
        ensures
            Self::read(texts_of(parts@), set),
    {
        if parts.len() == 0 {
            return Err(DomainError::MissingHtmlTags);
        }
        let ghost names = texts_of(parts@);
        let mut tags: Vec<HtmlTag> = Vec::new();
        let mut i: usize = 0;
        while i < parts.len()
            invariant
                i <= parts.len(),
                names == texts_of(parts@),
                tags@.len() == i,
                forall|k: int| 0 <= k < i ==> (#[trigger] HtmlTag::read(names[k])) == Some(tags@[k]),
            decreases parts.len() - i,
        {
            match HtmlTag::from_url_name(parts[i]) {
                Ok(tag) => {
                    tags.push(tag);
                },
                Err(error) => {
                    assert(HtmlTag::read(names[i as int]) is None);
                    return Err(error);
                },
            }
            i = i + 1;
        }
        assert(tags@ =~= Self::tags_read(names));
        Self::new(tags)
    }

    /// The tags that a list of names stands for, where each name stands for
    /// one.
    pub open spec fn tags_read(names: Seq<Seq<char>>) -> Seq<HtmlTag> {
        Seq::new(names.len(), |i: int| HtmlTag::read(names[i]).unwrap())
    }

    /// Whether every name of a list stands for a tag.
    pub open spec fn all_known(names: Seq<Seq<char>>) -> bool {
        forall|i: int| 0 <= i < names.len() ==> (#[trigger] HtmlTag::read(names[i])) is Some
    }

    /// Whether `text` is the first name of the list that stands for no tag.
    pub open spec fn first_unknown(names: Seq<Seq<char>>, text: Seq<char>) -> bool {
        exists|k: int|
            0 <= k < names.len() && text == names[k] && HtmlTag::read(names[k]) is None && (
            forall|i: int| 0 <= i < k ==> (#[trigger] HtmlTag::read(names[i])) is Some)
    }

    /// What reading a list of names gives.
    pub open spec fn read(names: Seq<Seq<char>>, set: DomainResult<Self>) -> bool {
        if names.len() == 0 {
            set matches Err(DomainError::MissingHtmlTags)
        } else if Self::all_known(names) {
            set matches Ok(built) && built@ == canonical(Self::tags_read(names))
                && built.well_formed()
        } else {
            set matches Err(DomainError::InvalidHtmlTag { tag }) && Self::first_unknown(names, tag@)
        }
    }

    fn singleton(tag: HtmlTag) -> (set: Self)
        ensures
            set@ == seq![tag],
            set.well_formed(),
    {
        let mut tags: Vec<HtmlTag> = Vec::new();
        tags.push(tag);
        match Self::new(tags) {
            Ok(set) => {
                proof {
                    lemma_canonical_single(tag);
                }
                set
            },
            Err(_) => {
                proof {
                    assert(false);
                }
                HtmlTags { tags: Vec::new() }
            },
        }
    }

    /// The set of one tag.
    pub fn single(tag: HtmlTag) -> (set: DomainResult<Self>)
        ensures
            set matches Ok(built) && built@ == seq![tag] && built.well_formed(),
    {
        Ok(Self::singleton(tag))
    }

    /// The tags of the set, in canonical order.
    pub fn tags(&self) -> (tags: &[HtmlTag])
        ensures
            tags@ == self@,
            is_canonical(self@),
    {
        proof {
            use_type_invariant(self);
        }
        self.tags.as_slice()
    }

    /// Whether the set holds the tag.
    pub fn contains(&self, tag: &HtmlTag) -> (found: bool)
        ensures
            found == self@.contains(*tag),
    {
        holds_tag(&self.tags, *tag)
    }

    /// Whether the set is empty, which no set is.
    pub fn is_empty(&self) -> (empty: bool)
        ensures
            !empty,
            self@.len() > 0,
    {
        proof {
            use_type_invariant(self);
        }
        self.tags.len() == 0
    }

    /// The number of tags of the set, between one and nine.
    pub fn len(&self) -> (count: usize)
        ensures
            count == self@.len(),
            1 <= count <= 9,
    {
        proof {
            use_type_invariant(self);
            lemma_canonical(self@);
        }
        self.tags.len()
    }

    /// The union of two sets. Neither operand changes.
    ///
    /// A union in which the two kinds of list meet is refused, whichever
    /// operand each comes from; every other union is built.
    pub fn combine(&self, other: &Self) -> (set: DomainResult<Self>)
        ensures
            combined(self@, other@, set),
    {
        proof {
            use_type_invariant(self);
            use_type_invariant(other);
        }
        let mut combined: Vec<HtmlTag> = Vec::new();
        let mut i: usize = 0;
        while i < self.tags.len()
            invariant
                i <= self.tags.len(),
                combined@ == self.tags@.subrange(0, i as int),
            decreases self.tags.len() - i,
        {
            combined.push(self.tags[i]);
            assert(combined@ =~= self.tags@.subrange(0, i + 1));
            i = i + 1;
        }
        assert(combined@ =~= self.tags@);
        let mut j: usize = 0;
        while j < other.tags.len()
            invariant
                j <= other.tags.len(),
                combined@ == self.tags@ + other.tags@.subrange(0, j as int),
            decreases other.tags.len() - j,
        {
            combined.push(other.tags[j]);
            assert(combined@ =~= self.tags@ + other.tags@.subrange(0, j + 1));
            j = j + 1;
        }
        assert(combined@ =~= self.tags@ + other.tags@);
        let built = match Self::new(combined) {
            Ok(built) => built,
            Err(error) => {
                return Err(error);
            },
        };
        proof {
            lemma_canonical(self@ + other@);
        }
        match built.validate_compatibility() {
            Ok(_) => Ok(built),
            Err(error) => Err(error),
        }
    }

    /// Checks that no two tags of the set exclude each other.
    ///
    /// Only the two kinds of list do, so the check fails exactly on a set
    /// that holds both, and names them in canonical order.
    pub fn validate_compatibility(&self) -> (outcome: DomainResult<()>)
        ensures
            !self.mixes_lists() ==> outcome is Ok,
            self.mixes_lists() ==> (outcome matches Err(
                DomainError::IncompatibleHtmlTags { tag1, tag2 },
            ) && tag1@ == HtmlTag::Ul.url_name() && tag2@ == HtmlTag::Ol.url_name()),
            outcome is Ok <==> pairwise_compatible(self@),
    {
        proof {
            use_type_invariant(self);
            lemma_canonical(self.tags@);
        }
        let n = self.tags.len();
        let mut i: usize = 0;
        while i < n
            invariant
                i <= n,
                n == self.tags@.len(),
                strictly_ranked(self.tags@),
                forall|a: int, b: int|
                    0 <= a < i && 0 <= b < n ==> self.tags@[a].compatible(self.tags@[b]),
            decreases n - i,
        {
            let mut j: usize = 0;
            while j < n
                invariant
                    i < n,
                    j <= n,
                    n == self.tags@.len(),
                    strictly_ranked(self.tags@),
                    forall|a: int, b: int|
                        0 <= a < i && 0 <= b < n ==> self.tags@[a].compatible(self.tags@[b]),
                    forall|b: int| 0 <= b < j ==> self.tags@[i as int].compatible(self.tags@[b]),
                decreases n - j,
            {
                let tag = self.tags[i];
                let other_tag = self.tags[j];
                if tag != other_tag && !tag.is_compatible_with(&other_tag) {
                    proof {
                        assert(self.tags@.contains(tag));
                        assert(self.tags@.contains(other_tag));
                        if tag == HtmlTag::Ol {
                            if j < i {
                                assert(self.tags@[j as int].compatible(self.tags@[i as int]));
                            } else {
                                assert(self.tags@[i as int].rank() < self.tags@[j as int].rank());
                            }
                        }
                    }
                    return Err(
                        DomainError::IncompatibleHtmlTags {
                            tag1: String::from_str(tag.to_url_name()),
                            tag2: String::from_str(other_tag.to_url_name()),
                        },
                    );
                }
                j = j + 1;
            }
            i = i + 1;
        }
        proof {
            if self.mixes_lists() {
                let a = choose|a: int| 0 <= a < n && self.tags@[a] == HtmlTag::Ul;
                let b = choose|b: int| 0 <= b < n && self.tags@[b] == HtmlTag::Ol;
                assert(self.tags@[a].compatible(self.tags@[b]));
            }
        }
        Ok(())
    }

    /// The number of block elements of the set.
    pub fn count_block_elements(&self) -> (count: usize)
        ensures
            count == block_count(self@),
    {
        let mut count: usize = 0;
        let mut i: usize = 0;
        assert(self.tags@.subrange(0, 0) =~= Seq::<HtmlTag>::empty());
        while i < self.tags.len()
            invariant
                i <= self.tags.len(),
                count <= i,
                count == block_count(self.tags@.subrange(0, i as int)),
            decreases self.tags.len() - i,
        {
            assert(self.tags@.subrange(0, i + 1).drop_last() =~= self.tags@.subrange(0, i as int));
            if self.tags[i].is_block_element() {
                count = count + 1;
            }
            i = i + 1;
        }
        assert(self.tags@.subrange(0, self.tags.len() as int) =~= self.tags@);
        count
    }

    /// The number of inline elements of the set.
    pub fn count_inline_elements(&self) -> (count: usize)
        ensures
            count == inline_count(self@),
    {
        let mut count: usize = 0;
        let mut i: usize = 0;
        assert(self.tags@.subrange(0, 0) =~= Seq::<HtmlTag>::empty());
        while i < self.tags.len()
            invariant
                i <= self.tags.len(),
                count <= i,
                count == inline_count(self.tags@.subrange(0, i as int)),
            decreases self.tags.len() - i,
        {
            assert(self.tags@.subrange(0, i + 1).drop_last() =~= self.tags@.subrange(0, i as int));
            if self.tags[i].is_inline_element() {
                count = count + 1;
            }
            i = i + 1;
        }
        assert(self.tags@.subrange(0, self.tags.len() as int) =~= self.tags@);
        count
    }

    /// The canonical names of the tags, joined by `/`.
    pub fn to_url_string(&self) -> (text: String)
        ensures
            text@ == joined_names(self@),
    {
        let mut text = String::new();
        let mut i: usize = 0;
        assert(self.tags@.subrange(0, 0) =~= Seq::<HtmlTag>::empty());
        while i < self.tags.len()
            invariant
                i <= self.tags.len(),
                text@ == joined_names(self.tags@.subrange(0, i as int)),
            decreases self.tags.len() - i,
        {
            let ghost seen = self.tags@.subrange(0, i as int);
            let ghost next = self.tags@.subrange(0, i + 1);
            assert(next.drop_last() =~= seen);
            if i > 0 {
                text.append("/");
            }
            text.append(self.tags[i].to_url_name());
            proof {
                if i == 0 {
                    assert(text@ =~= next[0].url_name());
                }
            }
            i = i + 1;
        }
        assert(self.tags@.subrange(0, self.tags.len() as int) =~= self.tags@);
        text
    }

    /// The joined names between square brackets.
    pub fn to_string(&self) -> (text: String)
        ensures
            text@ == "["@ + joined_names(self@) + "]"@,
    {
        let mut text = String::from_str("[");
        let names = self.to_url_string();
        text.append(names.as_str());
        text.append("]");
        text
    }
}

/// The canonical form of a single tag is that tag alone.
pub proof fn lemma_canonical_single(tag: HtmlTag)
    ensures
        canonical(seq![tag]) == seq![tag],
{
    let one = seq![tag];
    let kept = canonical(one);
    lemma_canonical(one);
    assert(one.contains(tag)) by {
        assert(one[0] == tag);
    }
    assert(kept.contains(tag));
    assert forall|i: int| 0 <= i < kept.len() implies kept[i] == tag by {
        assert(kept.contains(kept[i]));
        assert(one.contains(kept[i]));
    }
    if kept.len() > 1 {
        assert(kept[0].rank() < kept[1].rank());
    }
    assert(kept =~= one);
}

/// A tag turns into the set that holds it alone.
impl From<HtmlTag> for HtmlTags {
    fn from(tag: HtmlTag) -> (set: Self) {
        HtmlTags::singleton(tag)
    }
}

/// Contracts speak of the set of one tag through `single`: the conversion
/// has no description of its own.
impl vstd::std_specs::convert::FromSpecImpl<HtmlTag> for HtmlTags {
    open spec fn obeys_from_spec() -> bool {
        false
    }

    open spec fn from_spec(tag: HtmlTag) -> HtmlTags {
        arbitrary()
    }
}

/// What the conversion gives is stated on `try_from` itself, as a relation
/// between the names and the result, not as a value computed here.
impl<'a> vstd::std_specs::convert::TryFromSpecImpl<Vec<&'a str>> for HtmlTags {
    open spec fn obeys_try_from_spec() -> bool {
        false
    }

    open spec fn try_from_spec(parts: Vec<&'a str>) -> Result<HtmlTags, DomainError> {
        arbitrary()
    }
}

/// A list of names turns into a set as `from_url_parts` reads it: no name
/// is reported as missing tags, the first unknown name with its text, and
/// otherwise the set holds the canonical form of the tags named.
impl<'a> TryFrom<Vec<&'a str>> for HtmlTags {
    type Error = DomainError;

    fn try_from(parts: Vec<&'a str>) -> (set: Result<Self, DomainError>)
        ensures
            HtmlTags::read(texts_of(parts@), set),
    {
        HtmlTags::from_url_parts(parts.as_slice())
    }
}

/// The canonical form of a list depends on which tags the list holds only,
/// not on their order nor on how often each occurs.
pub proof fn lemma_canonical_same_members(left: Seq<HtmlTag>, right: Seq<HtmlTag>)
    requires
        forall|tag: HtmlTag| left.contains(tag) == right.contains(tag),
    ensures
        canonical(left) == canonical(right),
{
    lemma_present_in_same_members(HtmlTag::every(), left, right);
}

/// Two lists that are permutations of each other have the same canonical
/// form, so the sets built from them are equal.
pub proof fn lemma_canonical_of_permutation(left: Seq<HtmlTag>, right: Seq<HtmlTag>)
    requires
        left.to_multiset() == right.to_multiset(),
    ensures
        canonical(left) == canonical(right),
{
    left.to_multiset_ensures();
    right.to_multiset_ensures();
    assert forall|tag: HtmlTag| left.contains(tag) == right.contains(tag) by {
        assert(left.contains(tag) <==> left.to_multiset().count(tag) > 0);
        assert(right.contains(tag) <==> right.to_multiset().count(tag) > 0);
    }
    lemma_canonical_same_members(left, right);
}

/// A list of tags joined to another holds a tag exactly when one of the two
/// does.
pub proof fn lemma_joined_members(left: Seq<HtmlTag>, right: Seq<HtmlTag>, tag: HtmlTag)
    ensures
        (left + right).contains(tag) <==> left.contains(tag) || right.contains(tag),
{
    let joined = left + right;
    if left.contains(tag) {
        let i = choose|i: int| 0 <= i < left.len() && left[i] == tag;
        assert(joined[i] == tag);
    }
    if right.contains(tag) {
        let i = choose|i: int| 0 <= i < right.len() && right[i] == tag;
        assert(joined[left.len() + i] == tag);
    }
    if joined.contains(tag) {
        let i = choose|i: int| 0 <= i < joined.len() && joined[i] == tag;
        if i < left.len() {
            assert(left[i] == tag);
        } else {
            assert(right[i - left.len()] == tag);
        }
    }
}

/// The union of two sets is refused exactly when the two kinds of list meet
/// in it, whichever operand each comes from.
pub proof fn lemma_combine_mixes_lists(
    left: HtmlTags,
    right: HtmlTags,
    outcome: DomainResult<HtmlTags>,
)
    requires
        combined(left@, right@, outcome),
    ensures
        outcome is Err <==> ((left@.contains(HtmlTag::Ul) || right@.contains(HtmlTag::Ul)) && (
        left@.contains(HtmlTag::Ol) || right@.contains(HtmlTag::Ol))),
{
    lemma_joined_members(left@, right@, HtmlTag::Ul);
    lemma_joined_members(left@, right@, HtmlTag::Ol);
}

/// A union that is built holds a tag exactly when one of the operands does.
pub proof fn lemma_combine_members(
    left: HtmlTags,
    right: HtmlTags,
    outcome: DomainResult<HtmlTags>,
    tag: HtmlTag,
)
    requires
        combined(left@, right@, outcome),
    ensures
        outcome matches Ok(built) ==> (built@.contains(tag) <==> left@.contains(tag)
            || right@.contains(tag)),
{
    lemma_canonical(left@ + right@);
    lemma_joined_members(left@, right@, tag);
}

/// The union of two sets does not depend on which of them comes first: both
/// orders are refused, or both give the same set.
pub proof fn lemma_combine_commutative(
    left: HtmlTags,
    right: HtmlTags,
    one: DomainResult<HtmlTags>,
    other: DomainResult<HtmlTags>,
)
    requires
        combined(left@, right@, one),
        combined(right@, left@, other),
    ensures
        one is Err <==> other is Err,
        one matches Ok(built) ==> (other matches Ok(same) && built@ == same@),
{
    assert forall|tag: HtmlTag| (left@ + right@).contains(tag) == (right@ + left@).contains(
        tag,
    ) by {
        lemma_joined_members(left@, right@, tag);
        lemma_joined_members(right@, left@, tag);
    }
    lemma_canonical_same_members(left@ + right@, right@ + left@);
}

/// The union of a set with itself is the set, and is refused only where the
/// set itself mixes the two kinds of list.
pub proof fn lemma_combine_idempotent(set: HtmlTags, outcome: DomainResult<HtmlTags>)
    requires
        set.well_formed(),
        combined(set@, set@, outcome),
    ensures
        outcome is Err <==> mixes_lists(set@),
        outcome matches Ok(built) ==> built@ == set@,
{
    set.lemma_well_formed();
    assert forall|tag: HtmlTag| (set@ + set@).contains(tag) == set@.contains(tag) by {
        lemma_joined_members(set@, set@, tag);
    }
    lemma_canonical_same_members(set@ + set@, set@);
}

/// The canonical names of a list of tags.
pub open spec fn tag_names(tags: Seq<HtmlTag>) -> Seq<Seq<char>> {
    Seq::new(tags.len(), |i: int| tags[i].url_name())
}

/// A canonical name is not empty and holds neither `/` nor `:`.
pub proof fn lemma_url_name_plain(tag: HtmlTag)
    ensures
        tag.url_name().len() > 0,
        lacks(tag.url_name(), '/'),
        lacks(tag.url_name(), ':'),
{
    reveal_strlit("headers");
    reveal_strlit("link");
    reveal_strlit("ul");
    reveal_strlit("ol");
    reveal_strlit("dl");
    reveal_strlit("pre");
    reveal_strlit("code");
    reveal_strlit("blockquote");
    reveal_strlit("div");
}

/// Two tags with the same canonical name are the same tag.
pub proof fn lemma_url_name_injective(left: HtmlTag, right: HtmlTag)
    requires
        left.url_name() == right.url_name(),
    ensures
        left == right,
{
    reveal_strlit("headers");
    reveal_strlit("link");
    reveal_strlit("ul");
    reveal_strlit("ol");
    reveal_strlit("dl");
    reveal_strlit("pre");
    reveal_strlit("code");
    reveal_strlit("blockquote");
    reveal_strlit("div");
    assert("headers"@.len() == 7);
    assert("link"@.len() == 4 && "link"@[0] == 'l');
    assert("ul"@.len() == 2 && "ul"@[0] == 'u');
    assert("ol"@.len() == 2 && "ol"@[0] == 'o');
    assert("dl"@.len() == 2 && "dl"@[0] == 'd');
    assert("pre"@.len() == 3 && "pre"@[0] == 'p');
    assert("code"@.len() == 4 && "code"@[0] == 'c');
    assert("blockquote"@.len() == 10);
    assert("div"@.len() == 3 && "div"@[0] == 'd');
}

/// The joined names of a list of tags are its canonical names with `/`
/// between each and the next.
pub proof fn lemma_joined_names(tags: Seq<HtmlTag>)
    ensures
        joined_names(tags) == joined(tag_names(tags), '/'),
    decreases tags.len(),
{
    reveal_strlit("/");
    let names = tag_names(tags);
    if tags.len() > 1 {
        lemma_joined_names(tags.drop_last());
        assert(names.drop_last() =~= tag_names(tags.drop_last()));
        assert("/"@ =~= seq!['/']);
    }
}

/// Two lists of tags with the same joined names are the same list.
pub proof fn lemma_joined_names_injective(left: Seq<HtmlTag>, right: Seq<HtmlTag>)
    requires
        joined_names(left) == joined_names(right),
    ensures
        left == right,
{
    lemma_joined_names(left);
    lemma_joined_names(right);
    let left_names = tag_names(left);
    let right_names = tag_names(right);
    assert forall|i: int| 0 <= i < left_names.len() implies lacks(
        #[trigger] left_names[i],
        '/',
    ) by {
        lemma_url_name_plain(left[i]);
    }
    assert forall|i: int| 0 <= i < right_names.len() implies lacks(
        #[trigger] right_names[i],
        '/',
    ) by {
        lemma_url_name_plain(right[i]);
    }
    if left.len() > 0 {
        lemma_url_name_plain(left.last());
        lemma_joined_not_empty(left_names, '/');
        lemma_split_joined(left_names, '/');
    }
    if right.len() > 0 {
        lemma_url_name_plain(right.last());
        lemma_joined_not_empty(right_names, '/');
        lemma_split_joined(right_names, '/');
    }
    if left.len() > 0 && right.len() > 0 {
        assert(left_names == right_names);
        assert(left.len() == right.len());
        assert forall|i: int| 0 <= i < left.len() implies left[i] == right[i] by {
            assert(left_names[i] == right_names[i]);
            lemma_url_name_injective(left[i], right[i]);
        }
    }
    assert(left =~= right);
}

} // verus!
