//! The unified book record and its merge.
//!
//! A [`Metadata`] value holds everything the providers reported about one
//! book, each field a deduplicated collection of per-item outcomes.  Records
//! from several providers are combined with [`Metadata::merge`]; the laws at
//! the end of this module prove that the empty record is the identity of the
//! merge, that merging is associative and idempotent, and that the set of
//! values never depends on the order of the two sides.

use vstd::prelude::*;

use crate::base;
use crate::base::date_views;
use crate::base::dedup_concat;
use crate::base::distinct;
use crate::base::gen_views;
use crate::base::isbn_views;
use crate::base::num_views;
use crate::recon::ErrView;

verus! {

/// The optional fields of a record.
#[derive(Debug, PartialEq, Eq)]
pub struct Extra {
    pub(crate) publishers: base::Publishers,
    pub(crate) publication_dates: base::PublicationDates,
    pub(crate) languages: base::Languages,
    pub(crate) tags: base::Tags,
    pub(crate) cover_images: base::CoverImages,
}

/// Book metadata: identifiers, descriptive fields, and the optional extras.
#[derive(Debug, PartialEq, Eq)]
pub struct Metadata {
    pub(crate) isbns: base::ISBNs,
    pub(crate) titles: base::Titles,
    pub(crate) authors: base::Authors,
    pub(crate) descriptions: base::Descriptions,
    pub(crate) page_count: base::PageCount,
    pub(crate) extra: Extra,
}

/// The mathematical value of [`Extra`].
#[verifier::ext_equal]
pub struct ExtraModel {
    pub publishers: Seq<Result<Seq<char>, ErrView>>,
    pub publication_dates: Seq<Result<crate::date::Date, ErrView>>,
    pub languages: Seq<Result<Seq<char>, ErrView>>,
    pub tags: Seq<Result<Seq<char>, ErrView>>,
    pub cover_images: Seq<Result<Seq<char>, ErrView>>,
}

/// The mathematical value of [`Metadata`].
#[verifier::ext_equal]
pub struct MetadataModel {
    pub isbns: Seq<Result<crate::isbn::IsbnView, ErrView>>,
    pub titles: Seq<Result<Seq<char>, ErrView>>,
    pub authors: Seq<Result<Seq<char>, ErrView>>,
    pub descriptions: Seq<Result<Seq<char>, ErrView>>,
    pub page_count: Seq<Result<u16, ErrView>>,
    pub extra: ExtraModel,
}

impl View for Extra {
    type V = ExtraModel;

    closed spec fn view(&self) -> ExtraModel {
        ExtraModel {
            publishers: gen_views(self.publishers@),
            publication_dates: date_views(self.publication_dates@),
            languages: gen_views(self.languages@),
            tags: gen_views(self.tags@),
            cover_images: gen_views(self.cover_images@),
        }
    }
}

impl View for Metadata {
    type V = MetadataModel;

    closed spec fn view(&self) -> MetadataModel {
        MetadataModel {
            isbns: isbn_views(self.isbns@),
            titles: gen_views(self.titles@),
            authors: gen_views(self.authors@),
            descriptions: gen_views(self.descriptions@),
            page_count: num_views(self.page_count@),
            extra: self.extra@,
        }
    }
}

impl ExtraModel {
    /// The record part with nothing in it.
    pub open spec fn empty() -> ExtraModel {
        ExtraModel {
            publishers: Seq::empty(),
            publication_dates: Seq::empty(),
            languages: Seq::empty(),
            tags: Seq::empty(),
            cover_images: Seq::empty(),
        }
    }

    /// Every field free of duplicate values.
    pub open spec fn wf(self) -> bool {
        &&& distinct(self.publishers)
        &&& distinct(self.publication_dates)
        &&& distinct(self.languages)
        &&& distinct(self.tags)
        &&& distinct(self.cover_images)
    }

    /// The field-by-field combination of two record parts.
    pub open spec fn merged(self, other: ExtraModel) -> ExtraModel {
        ExtraModel {
            publishers: dedup_concat(self.publishers, other.publishers),
            publication_dates: dedup_concat(self.publication_dates, other.publication_dates),
            languages: dedup_concat(self.languages, other.languages),
            tags: dedup_concat(self.tags, other.tags),
            cover_images: dedup_concat(self.cover_images, other.cover_images),
        }
    }
}

impl MetadataModel {
    /// The record with nothing in it.
    pub open spec fn empty() -> MetadataModel {
        MetadataModel {
            isbns: Seq::empty(),
            titles: Seq::empty(),
            authors: Seq::empty(),
            descriptions: Seq::empty(),
            page_count: Seq::empty(),
            extra: ExtraModel::empty(),
        }
    }

    /// Every field free of duplicate values.
    pub open spec fn wf(self) -> bool {
        &&& distinct(self.isbns)
        &&& distinct(self.titles)
        &&& distinct(self.authors)
        &&& distinct(self.descriptions)
        &&& distinct(self.page_count)
        &&& self.extra.wf()
    }

    /// The field-by-field combination of two records: the left side whole,
    /// then every right-side value the left side does not hold.
    pub open spec fn merged(self, other: MetadataModel) -> MetadataModel {
        MetadataModel {
            isbns: dedup_concat(self.isbns, other.isbns),
            titles: dedup_concat(self.titles, other.titles),
            authors: dedup_concat(self.authors, other.authors),
            descriptions: dedup_concat(self.descriptions, other.descriptions),
            page_count: dedup_concat(self.page_count, other.page_count),
            extra: self.extra.merged(other.extra),
        }
    }
}

impl Default for Extra {
    /// The record part with nothing in it.
    fn default() -> (r: Extra)
        ensures
            r@ == ExtraModel::empty(),
    {
        let r = Extra {
            publishers: Vec::new(),
            publication_dates: Vec::new(),
            languages: Vec::new(),
            tags: Vec::new(),
            cover_images: Vec::new(),
        };
        proof {
            assert(r@ =~= ExtraModel::empty());
        }
        r
    }
}

impl Default for Metadata {
    /// The record with nothing in it: the identity of [`Metadata::merge`].
    fn default() -> (r: Metadata)
        ensures
            r@ == MetadataModel::empty(),
    {
        let r = Metadata {
            isbns: Vec::new(),
            titles: Vec::new(),
            authors: Vec::new(),
            descriptions: Vec::new(),
            page_count: Vec::new(),
            extra: Extra::default(),
        };
        proof {
            assert(r@ =~= MetadataModel::empty());
        }
        r
    }
}

impl Metadata {
    /// The record with the identifier collection replaced.
    pub fn isbns(self, isbns: base::ISBNs) -> (r: Self)
        ensures
            r@ == (MetadataModel { isbns: isbn_views(isbns@), ..self@ }),
    {
        let mut r = self;
        r.isbns = isbns;
        r
    }

    /// The record with the title collection replaced.
    pub fn titles(self, titles: base::Titles) -> (r: Self)
        ensures
            r@ == (MetadataModel { titles: gen_views(titles@), ..self@ }),
    {
        let mut r = self;
        r.titles = titles;
        r
    }

    /// The record with the author collection replaced.
    pub fn authors(self, authors: base::Authors) -> (r: Self)
        ensures
            r@ == (MetadataModel { authors: gen_views(authors@), ..self@ }),
    {
        let mut r = self;
        r.authors = authors;
        r
    }

    /// The record with the description collection replaced.
    pub fn descriptions(self, descriptions: base::Descriptions) -> (r: Self)
        ensures
            r@ == (MetadataModel { descriptions: gen_views(descriptions@), ..self@ }),
    {
        let mut r = self;
        r.descriptions = descriptions;
        r
    }

    /// The record with the page-count collection replaced.
    pub fn page_count(self, page_count: base::PageCount) -> (r: Self)
        ensures
            r@ == (MetadataModel { page_count: num_views(page_count@), ..self@ }),
    {
        let mut r = self;
        r.page_count = page_count;
        r
    }

    /// The record with the publisher collection replaced.
    pub fn publishers(self, publishers: base::Publishers) -> (r: Self)
        ensures
            r@ == (MetadataModel {
                extra: (ExtraModel { publishers: gen_views(publishers@), ..self@.extra }),
                ..self@
            }),
    {
        let mut r = self;
        r.extra.publishers = publishers;
        r
    }

    /// The record with the publication-date collection replaced.
    pub fn publication_dates(self, publication_dates: base::PublicationDates) -> (r: Self)
        ensures
            r@ == (MetadataModel {
                extra: (ExtraModel {
                    publication_dates: date_views(publication_dates@),
                    ..self@.extra
                }),
                ..self@
            }),
    {
        let mut r = self;
        r.extra.publication_dates = publication_dates;
        r
    }

    /// The record with the language collection replaced.
    pub fn languages(self, languages: base::Languages) -> (r: Self)
        ensures
            r@ == (MetadataModel {
                extra: (ExtraModel { languages: gen_views(languages@), ..self@.extra }),
                ..self@
            }),
    {
        let mut r = self;
        r.extra.languages = languages;
        r
    }

    /// The record with the tag collection replaced.
    pub fn tags(self, tags: base::Tags) -> (r: Self)
        ensures
            r@ == (MetadataModel {
                extra: (ExtraModel { tags: gen_views(tags@), ..self@.extra }),
                ..self@
            }),
    {
        let mut r = self;
        r.extra.tags = tags;
        r
    }

    /// The record with the cover-image collection replaced.
    pub fn cover_images(self, cover_images: base::CoverImages) -> (r: Self)
        ensures
            r@ == (MetadataModel {
                extra: (ExtraModel { cover_images: gen_views(cover_images@), ..self@.extra }),
                ..self@
            }),
    {
        let mut r = self;
        r.extra.cover_images = cover_images;
        r
    }

    /// Combines two records field by field: every value of `self` stays, and
    /// every value of `other` that `self` does not hold is appended.
    pub fn merge(&self, other: &Metadata) -> (r: Metadata)
        ensures
            r@ == self@.merged(other@),
    {
        let r = Metadata {
            isbns: base::isbn_merge(&self.isbns, &other.isbns),
            titles: base::gen_merge(&self.titles, &other.titles),
            authors: base::gen_merge(&self.authors, &other.authors),
            descriptions: base::gen_merge(&self.descriptions, &other.descriptions),
            page_count: base::num_merge(&self.page_count, &other.page_count),
            extra: Extra {
                publishers: base::gen_merge(&self.extra.publishers, &other.extra.publishers),
                publication_dates: base::date_merge(
                    &self.extra.publication_dates,
                    &other.extra.publication_dates,
                ),
                languages: base::gen_merge(&self.extra.languages, &other.extra.languages),
                tags: base::gen_merge(&self.extra.tags, &other.extra.tags),
                cover_images: base::gen_merge(&self.extra.cover_images, &other.extra.cover_images),
            },
        };
        proof {
            assert(r@ =~= self@.merged(other@));
        }
        r
    }
}

/// Merge identity: the empty record changes nothing, on either side.
pub proof fn lemma_merge_identity(m: MetadataModel)
    ensures
        MetadataModel::empty().merged(m) == m,
        m.merged(MetadataModel::empty()) == m,
{
    base::lemma_dedup_concat_empty_left(m.isbns);
    base::lemma_dedup_concat_empty_left(m.titles);
    base::lemma_dedup_concat_empty_left(m.authors);
    base::lemma_dedup_concat_empty_left(m.descriptions);
    base::lemma_dedup_concat_empty_left(m.page_count);
    base::lemma_dedup_concat_empty_left(m.extra.publishers);
    base::lemma_dedup_concat_empty_left(m.extra.publication_dates);
    base::lemma_dedup_concat_empty_left(m.extra.languages);
    base::lemma_dedup_concat_empty_left(m.extra.tags);
    base::lemma_dedup_concat_empty_left(m.extra.cover_images);
    base::lemma_dedup_concat_empty_right(m.isbns);
    base::lemma_dedup_concat_empty_right(m.titles);
    base::lemma_dedup_concat_empty_right(m.authors);
    base::lemma_dedup_concat_empty_right(m.descriptions);
    base::lemma_dedup_concat_empty_right(m.page_count);
    base::lemma_dedup_concat_empty_right(m.extra.publishers);
    base::lemma_dedup_concat_empty_right(m.extra.publication_dates);
    base::lemma_dedup_concat_empty_right(m.extra.languages);
    base::lemma_dedup_concat_empty_right(m.extra.tags);
    base::lemma_dedup_concat_empty_right(m.extra.cover_images);
    assert(MetadataModel::empty().merged(m) =~= m);
    assert(m.merged(MetadataModel::empty()) =~= m);
}

/// Merging a record with itself changes nothing: per field, the values stay
/// the same set of distinct values.
pub proof fn lemma_merge_idempotent(m: MetadataModel)
    ensures
        m.merged(m) == m,
{
    base::lemma_dedup_concat_self(m.isbns);
    base::lemma_dedup_concat_self(m.titles);
    base::lemma_dedup_concat_self(m.authors);
    base::lemma_dedup_concat_self(m.descriptions);
    base::lemma_dedup_concat_self(m.page_count);
    base::lemma_dedup_concat_self(m.extra.publishers);
    base::lemma_dedup_concat_self(m.extra.publication_dates);
    base::lemma_dedup_concat_self(m.extra.languages);
    base::lemma_dedup_concat_self(m.extra.tags);
    base::lemma_dedup_concat_self(m.extra.cover_images);
    assert(m.merged(m) =~= m);
}

/// Merge is associative: folding any grouping of records gives one answer.
pub proof fn lemma_merge_associative(a: MetadataModel, b: MetadataModel, c: MetadataModel)
    ensures
        a.merged(b).merged(c) == a.merged(b.merged(c)),
{
    base::lemma_dedup_concat_assoc(a.isbns, b.isbns, c.isbns);
    base::lemma_dedup_concat_assoc(a.titles, b.titles, c.titles);
    base::lemma_dedup_concat_assoc(a.authors, b.authors, c.authors);
    base::lemma_dedup_concat_assoc(a.descriptions, b.descriptions, c.descriptions);
    base::lemma_dedup_concat_assoc(a.page_count, b.page_count, c.page_count);
    base::lemma_dedup_concat_assoc(a.extra.publishers, b.extra.publishers, c.extra.publishers);
    base::lemma_dedup_concat_assoc(
        a.extra.publication_dates,
        b.extra.publication_dates,
        c.extra.publication_dates,
    );
    base::lemma_dedup_concat_assoc(a.extra.languages, b.extra.languages, c.extra.languages);
    base::lemma_dedup_concat_assoc(a.extra.tags, b.extra.tags, c.extra.tags);
    base::lemma_dedup_concat_assoc(
        a.extra.cover_images,
        b.extra.cover_images,
        c.extra.cover_images,
    );
    assert(a.merged(b).merged(c) =~= a.merged(b.merged(c)));
}

/// The sets of values a record's fields hold, with the order and the
/// duplicates of the collections abstracted away.
#[verifier::ext_equal]
pub struct MetadataValueSets {
    pub isbns: Set<Result<crate::isbn::IsbnView, ErrView>>,
    pub titles: Set<Result<Seq<char>, ErrView>>,
    pub authors: Set<Result<Seq<char>, ErrView>>,
    pub descriptions: Set<Result<Seq<char>, ErrView>>,
    pub page_count: Set<Result<u16, ErrView>>,
    pub publishers: Set<Result<Seq<char>, ErrView>>,
    pub publication_dates: Set<Result<crate::date::Date, ErrView>>,
    pub languages: Set<Result<Seq<char>, ErrView>>,
    pub tags: Set<Result<Seq<char>, ErrView>>,
    pub cover_images: Set<Result<Seq<char>, ErrView>>,
}

impl MetadataModel {
    /// The set of values each field holds.
    pub open spec fn value_sets(self) -> MetadataValueSets {
        MetadataValueSets {
            isbns: self.isbns.to_set(),
            titles: self.titles.to_set(),
            authors: self.authors.to_set(),
            descriptions: self.descriptions.to_set(),
            page_count: self.page_count.to_set(),
            publishers: self.extra.publishers.to_set(),
            publication_dates: self.extra.publication_dates.to_set(),
            languages: self.extra.languages.to_set(),
            tags: self.extra.tags.to_set(),
            cover_images: self.extra.cover_images.to_set(),
        }
    }
}

/// Merge is commutative up to order: merging in either order gives, per
/// field, the same set of values — the union of the two sides' values.
pub proof fn lemma_merge_commutative(a: MetadataModel, b: MetadataModel)
    ensures
        a.merged(b).value_sets() == b.merged(a).value_sets(),
{
    base::lemma_dedup_concat_set(a.isbns, b.isbns);
    base::lemma_dedup_concat_set(b.isbns, a.isbns);
    base::lemma_dedup_concat_set(a.titles, b.titles);
    base::lemma_dedup_concat_set(b.titles, a.titles);
    base::lemma_dedup_concat_set(a.authors, b.authors);
    base::lemma_dedup_concat_set(b.authors, a.authors);
    base::lemma_dedup_concat_set(a.descriptions, b.descriptions);
    base::lemma_dedup_concat_set(b.descriptions, a.descriptions);
    base::lemma_dedup_concat_set(a.page_count, b.page_count);
    base::lemma_dedup_concat_set(b.page_count, a.page_count);
    base::lemma_dedup_concat_set(a.extra.publishers, b.extra.publishers);
    base::lemma_dedup_concat_set(b.extra.publishers, a.extra.publishers);
    base::lemma_dedup_concat_set(a.extra.publication_dates, b.extra.publication_dates);
    base::lemma_dedup_concat_set(b.extra.publication_dates, a.extra.publication_dates);
    base::lemma_dedup_concat_set(a.extra.languages, b.extra.languages);
    base::lemma_dedup_concat_set(b.extra.languages, a.extra.languages);
    base::lemma_dedup_concat_set(a.extra.tags, b.extra.tags);
    base::lemma_dedup_concat_set(b.extra.tags, a.extra.tags);
    base::lemma_dedup_concat_set(a.extra.cover_images, b.extra.cover_images);
    base::lemma_dedup_concat_set(b.extra.cover_images, a.extra.cover_images);
    assert(a.merged(b).value_sets() =~= b.merged(a).value_sets());
}

/// Merging keeps every field free of duplicate values.
pub proof fn lemma_merge_wf(a: MetadataModel, b: MetadataModel)
    requires
        a.wf(),
        b.wf(),
    ensures
        a.merged(b).wf(),
{
    base::lemma_dedup_concat_distinct(a.isbns, b.isbns);
    base::lemma_dedup_concat_distinct(a.titles, b.titles);
    base::lemma_dedup_concat_distinct(a.authors, b.authors);
    base::lemma_dedup_concat_distinct(a.descriptions, b.descriptions);
    base::lemma_dedup_concat_distinct(a.page_count, b.page_count);
    base::lemma_dedup_concat_distinct(a.extra.publishers, b.extra.publishers);
    base::lemma_dedup_concat_distinct(a.extra.publication_dates, b.extra.publication_dates);
    base::lemma_dedup_concat_distinct(a.extra.languages, b.extra.languages);
    base::lemma_dedup_concat_distinct(a.extra.tags, b.extra.tags);
    base::lemma_dedup_concat_distinct(a.extra.cover_images, b.extra.cover_images);
}


impl Metadata {
    /// The identifier collection.
    pub fn get_isbns(&self) -> (r: &base::ISBNs)
        ensures
            isbn_views(r@) == self@.isbns,
    {
        &self.isbns
    }

    /// The title collection.
    pub fn get_titles(&self) -> (r: &base::Titles)
        ensures
            gen_views(r@) == self@.titles,
    {
        &self.titles
    }

    /// The author collection.
    pub fn get_authors(&self) -> (r: &base::Authors)
        ensures
            gen_views(r@) == self@.authors,
    {
        &self.authors
    }

    /// The description collection.
    pub fn get_descriptions(&self) -> (r: &base::Descriptions)
        ensures
            gen_views(r@) == self@.descriptions,
    {
        &self.descriptions
    }

    /// The page-count collection.
    pub fn get_page_count(&self) -> (r: &base::PageCount)
        ensures
            num_views(r@) == self@.page_count,
    {
        &self.page_count
    }

    /// The publisher collection.
    pub fn get_publishers(&self) -> (r: &base::Publishers)
        ensures
            gen_views(r@) == self@.extra.publishers,
    {
        &self.extra.publishers
    }

    /// The publication-date collection.
    pub fn get_publication_dates(&self) -> (r: &base::PublicationDates)
        ensures
            date_views(r@) == self@.extra.publication_dates,
    {
        &self.extra.publication_dates
    }

    /// The language collection.
    pub fn get_languages(&self) -> (r: &base::Languages)
        ensures
            gen_views(r@) == self@.extra.languages,
    {
        &self.extra.languages
    }

    /// The tag collection.
    pub fn get_tags(&self) -> (r: &base::Tags)
        ensures
            gen_views(r@) == self@.extra.tags,
    {
        &self.extra.tags
    }

    /// The cover-image collection.
    pub fn get_cover_images(&self) -> (r: &base::CoverImages)
        ensures
            gen_views(r@) == self@.extra.cover_images,
    {
        &self.extra.cover_images
    }
}


impl Metadata {
    /// The record with one more description, unless the value is already
    /// there; the other fields stay as they are.
    pub fn with_description(self, description: String) -> (r: Self)
        ensures
            r@ == (MetadataModel {
                descriptions: (if self@.descriptions.contains(
                    Ok::<Seq<char>, ErrView>(description@),
                ) {
                    self@.descriptions
                } else {
                    self@.descriptions.push(Ok::<Seq<char>, ErrView>(description@))
                }),
                ..self@
            }),
    {
        let mut r = self;
        base::gen_push_unique(&mut r.descriptions, Ok(description));
        r
    }
}

} // verus!
