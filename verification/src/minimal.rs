//! The minimal record: just enough to identify a book.

use vstd::prelude::*;

use crate::base;
use crate::base::gen_views;
use crate::base::isbn_views;
use crate::recon::ErrView;

verus! {

/// The essential part of a record: identifiers, titles, authors and
/// descriptions, each a collection of per-item outcomes.
#[derive(Debug, PartialEq, Eq)]
pub struct Minimal {
    pub(crate) isbns: base::ISBNs,
    pub(crate) titles: base::Titles,
    pub(crate) authors: base::Authors,
    pub(crate) descriptions: base::Descriptions,
}

/// The mathematical value of [`Minimal`].
#[verifier::ext_equal]
pub struct MinimalModel {
    pub isbns: Seq<Result<crate::isbn::IsbnView, ErrView>>,
    pub titles: Seq<Result<Seq<char>, ErrView>>,
    pub authors: Seq<Result<Seq<char>, ErrView>>,
    pub descriptions: Seq<Result<Seq<char>, ErrView>>,
}

impl View for Minimal {
    type V = MinimalModel;

    closed spec fn view(&self) -> MinimalModel {
        MinimalModel {
            isbns: isbn_views(self.isbns@),
            titles: gen_views(self.titles@),
            authors: gen_views(self.authors@),
            descriptions: gen_views(self.descriptions@),
        }
    }
}

impl MinimalModel {
    /// The minimal record with nothing in it.
    pub open spec fn empty() -> MinimalModel {
        MinimalModel {
            isbns: Seq::empty(),
            titles: Seq::empty(),
            authors: Seq::empty(),
            descriptions: Seq::empty(),
        }
    }
}

impl Default for Minimal {
    /// The minimal record with nothing in it.
    fn default() -> (r: Minimal)
        ensures
            r@ == MinimalModel::empty(),
    {
        let r = Minimal {
            isbns: Vec::new(),
            titles: Vec::new(),
            authors: Vec::new(),
            descriptions: Vec::new(),
        };
        proof {
            assert(r@ =~= MinimalModel::empty());
        }
        r
    }
}

impl Minimal {
    /// The record with the identifier collection replaced.
    pub fn isbns(self, isbns: base::ISBNs) -> (r: Self)
        ensures
            r@ == (MinimalModel { isbns: isbn_views(isbns@), ..self@ }),
    {
        let mut r = self;
        r.isbns = isbns;
        r
    }

    /// The record with the title collection replaced.
    pub fn titles(self, titles: base::Titles) -> (r: Self)
        ensures
            r@ == (MinimalModel { titles: gen_views(titles@), ..self@ }),
    {
        let mut r = self;
        r.titles = titles;
        r
    }

    /// The record with the author collection replaced.
    pub fn authors(self, authors: base::Authors) -> (r: Self)
        ensures
            r@ == (MinimalModel { authors: gen_views(authors@), ..self@ }),
    {
        let mut r = self;
        r.authors = authors;
        r
    }

    /// The record with the description collection replaced.
    pub fn descriptions(self, descriptions: base::Descriptions) -> (r: Self)
        ensures
            r@ == (MinimalModel { descriptions: gen_views(descriptions@), ..self@ }),
    {
        let mut r = self;
        r.descriptions = descriptions;
        r
    }
}


impl Minimal {
    /// The identifier collection.
    pub fn get_isbns(&self) -> (r: &base::ISBNs)
        ensures
            isbn_views(r@) == self@.isbns,
    {
        &self.isbns
    }

    /// The title collection.
    pub fn get_titles(&self) -> (r: &base::Titles)
        ensures
            gen_views(r@) == self@.titles,
    {
        &self.titles
    }

    /// The author collection.
    pub fn get_authors(&self) -> (r: &base::Authors)
        ensures
            gen_views(r@) == self@.authors,
    {
        &self.authors
    }

    /// The description collection.
    pub fn get_descriptions(&self) -> (r: &base::Descriptions)
        ensures
            gen_views(r@) == self@.descriptions,
    {
        &self.descriptions
    }
}

} // verus!
