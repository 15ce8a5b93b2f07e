//! The scraped provider: its search URL and the record its page parts make.
//!
//! This provider answers with an HTML page, not JSON; pulling the texts out
//! of that page is left to the caller.  Given those plain texts, this module
//! builds the record: titles are trimmed, identifier strings that fail
//! validation are dropped, and page counts keep their digits only.

use vstd::prelude::*;
use vstd::string::StringExecFns;

use crate::adaptor;
use crate::adaptor::digits_only;
use crate::adaptor::lexeme_u16;
use crate::adaptor::ok_str_entries;
use crate::adaptor::trim_seq;
use crate::base;
use crate::base::dedup;
use crate::base::gen_views;
use crate::base::isbn_views;
use crate::base::lemma_dedup_contains;
use crate::base::num_views;
use crate::isbn::spec_parse_isbn;
use crate::isbn::Isbn;
use crate::metadata::ExtraModel;
use crate::metadata::Metadata;
use crate::metadata::MetadataModel;
use crate::recon::ErrView;
use crate::urlenc::url_encoded_of;

verus! {

broadcast use {vstd::seq::group_seq_axioms, vstd::std_specs::vec::group_vec_axioms};

/// Each scraped text trimmed into a successful outcome.
pub open spec fn trimmed_entries(ss: Seq<Seq<char>>) -> Seq<Result<Seq<char>, ErrView>> {
    ss.map_values(|s: Seq<char>| Ok(trim_seq(s)))
}

/// The identifier outcomes of scraped identifier texts: texts that fail
/// validation are dropped, the rest parse successfully.
pub open spec fn scraped_isbns(ss: Seq<Seq<char>>) -> Seq<Result<crate::isbn::IsbnView, ErrView>>
    decreases ss.len(),
{
    if ss.len() == 0 {
        Seq::empty()
    } else {
        scraped_isbns(ss.drop_last()) + (match spec_parse_isbn(ss.last()) {
            Some(v) => seq![Ok::<crate::isbn::IsbnView, ErrView>(v)],
            None => Seq::empty(),
        })
    }
}

/// The page-count outcomes of scraped texts: the digits of each text must
/// make a number that fits, or the text is dropped.
pub open spec fn scraped_pages(ss: Seq<Seq<char>>) -> Seq<Result<u16, ErrView>>
    decreases ss.len(),
{
    if ss.len() == 0 {
        Seq::empty()
    } else {
        scraped_pages(ss.drop_last()) + (match lexeme_u16(digits_only(ss.last())) {
            Some(n) => seq![Ok::<u16, ErrView>(n)],
            None => Seq::empty(),
        })
    }
}

/// The record that scraped page parts make.
pub open spec fn spec_from_page_parts(
    titles: Seq<Seq<char>>,
    authors: Seq<Seq<char>>,
    tags: Seq<Seq<char>>,
    languages: Seq<Seq<char>>,
    isbns: Seq<Seq<char>>,
    descriptions: Seq<Seq<char>>,
    page_counts: Seq<Seq<char>>,
) -> MetadataModel {
    MetadataModel {
        isbns: dedup(scraped_isbns(isbns)),
        titles: dedup(trimmed_entries(titles)),
        authors: dedup(ok_str_entries(authors)),
        descriptions: dedup(ok_str_entries(descriptions)),
        page_count: dedup(scraped_pages(page_counts)),
        extra: ExtraModel {
            publishers: Seq::empty(),
            publication_dates: Seq::empty(),
            languages: dedup(ok_str_entries(languages)),
            tags: dedup(ok_str_entries(tags)),
            cover_images: Seq::empty(),
        },
    }
}

/// The trimmed outcomes of scraped texts, executably.
#[verifier::loop_isolation(false)]
fn adapt_trimmed(input: Vec<String>) -> (r: Vec<base::Generic>)
    ensures
        gen_views(r@) == dedup(trimmed_entries(input.deep_view())),
{
    let ghost entries = trimmed_entries(input.deep_view());
    let mut out: Vec<base::Generic> = Vec::new();
    let n = input.len();
    proof {
        assert(entries.take(0) =~= Seq::<Result<Seq<char>, ErrView>>::empty());
    }
    for i in 0..n
        invariant
            gen_views(out@) == dedup(entries.take(i as int)),
    {
        let t = adaptor::trim_string(input[i].as_str());
        proof {
            assert(entries.take(i + 1).drop_last() =~= entries.take(i as int));
            assert(entries.take(i + 1).last() == Ok::<Seq<char>, ErrView>(
                trim_seq(input.deep_view()[i as int]),
            ));
            lemma_dedup_contains(entries.take(i as int), entries[i as int]);
        }
        base::gen_push_unique(&mut out, Ok(t));
    }
    proof {
        assert(entries.take(n as int) =~= entries);
    }
    out
}

/// The identifier outcomes of scraped texts, executably.
#[verifier::loop_isolation(false)]
fn adapt_scraped_isbns(input: Vec<String>) -> (r: Vec<base::ISBN>)
    ensures
        isbn_views(r@) == dedup(scraped_isbns(input.deep_view())),
{
    let mut out: Vec<base::ISBN> = Vec::new();
    let n = input.len();
    let ghost dv = input.deep_view();
    proof {
        assert(scraped_isbns(dv.take(0)) =~= Seq::<
            Result<crate::isbn::IsbnView, ErrView>,
        >::empty());
        assert(isbn_views(out@) =~= dedup(scraped_isbns(dv.take(0))));
    }
    for i in 0..n
        invariant
            isbn_views(out@) == dedup(scraped_isbns(dv.take(i as int))),
    {
        proof {
            assert(dv.take(i + 1).drop_last() =~= dv.take(i as int));
            assert(dv.take(i + 1).last() == dv[i as int]);
        }
        match Isbn::parse(input[i].as_str()) {
            Ok(id) => {
                let ghost s0 = scraped_isbns(dv.take(i as int));
                let ghost x = Ok::<crate::isbn::IsbnView, ErrView>(id@);
                proof {
                    assert(scraped_isbns(dv.take(i + 1)) =~= s0.push(x));
                    assert(s0.push(x).drop_last() =~= s0);
                    lemma_dedup_contains(s0, x);
                }
                base::isbn_push_unique(&mut out, Ok(id));
            },
            Err(_e) => {
                proof {
                    assert(scraped_isbns(dv.take(i + 1)) =~= scraped_isbns(dv.take(i as int)));
                }
            },
        }
    }
    proof {
        assert(dv.take(n as int) =~= dv);
    }
    out
}

/// The page-count outcomes of scraped texts, executably.
#[verifier::loop_isolation(false)]
fn adapt_scraped_pages(input: Vec<String>) -> (r: Vec<base::Numeric>)
    ensures
        num_views(r@) == dedup(scraped_pages(input.deep_view())),
{
    let mut out: Vec<base::Numeric> = Vec::new();
    let n = input.len();
    let ghost dv = input.deep_view();
    proof {
        assert(scraped_pages(dv.take(0)) =~= Seq::<Result<u16, ErrView>>::empty());
        assert(num_views(out@) =~= dedup(scraped_pages(dv.take(0))));
    }
    for i in 0..n
        invariant
            num_views(out@) == dedup(scraped_pages(dv.take(i as int))),
    {
        proof {
            assert(dv.take(i + 1).drop_last() =~= dv.take(i as int));
            assert(dv.take(i + 1).last() == dv[i as int]);
        }
        let digits = adaptor::keep_digits(input[i].as_str());
        match adaptor::adapt_page_count(digits.as_str()) {
            Some(p) => {
                let ghost s0 = scraped_pages(dv.take(i as int));
                let ghost x = Ok::<u16, ErrView>(p);
                proof {
                    assert(scraped_pages(dv.take(i + 1)) =~= s0.push(x));
                    assert(s0.push(x).drop_last() =~= s0);
                    lemma_dedup_contains(s0, x);
                }
                base::num_push_unique(&mut out, Ok(p));
            },
            None => {
                proof {
                    assert(scraped_pages(dv.take(i + 1)) =~= scraped_pages(dv.take(i as int)));
                }
            },
        }
    }
    proof {
        assert(dv.take(n as int) =~= dv);
    }
    out
}

/// Builds the record that scraped page parts make.
pub fn from_page_parts(
    titles: Vec<String>,
    authors: Vec<String>,
    tags: Vec<String>,
    languages: Vec<String>,
    isbns: Vec<String>,
    descriptions: Vec<String>,
    page_counts: Vec<String>,
) -> (r: Metadata)
    ensures
        r@ == spec_from_page_parts(
            titles.deep_view(),
            authors.deep_view(),
            tags.deep_view(),
            languages.deep_view(),
            isbns.deep_view(),
            descriptions.deep_view(),
            page_counts.deep_view(),
        ),
        r@.wf(),
{
    let ghost target = spec_from_page_parts(
        titles.deep_view(),
        authors.deep_view(),
        tags.deep_view(),
        languages.deep_view(),
        isbns.deep_view(),
        descriptions.deep_view(),
        page_counts.deep_view(),
    );
    proof {
        base::lemma_dedup_distinct(scraped_isbns(isbns.deep_view()));
        base::lemma_dedup_distinct(trimmed_entries(titles.deep_view()));
        base::lemma_dedup_distinct(ok_str_entries(authors.deep_view()));
        base::lemma_dedup_distinct(ok_str_entries(descriptions.deep_view()));
        base::lemma_dedup_distinct(scraped_pages(page_counts.deep_view()));
        base::lemma_dedup_distinct(ok_str_entries(languages.deep_view()));
        base::lemma_dedup_distinct(ok_str_entries(tags.deep_view()));
    }
    let md = Metadata::default().isbns(adapt_scraped_isbns(isbns)).titles(
        adapt_trimmed(titles),
    ).authors(adaptor::adapt_string_array(authors)).descriptions(
        adaptor::adapt_string_array(descriptions),
    ).page_count(adapt_scraped_pages(page_counts)).languages(
        adaptor::adapt_string_array(languages),
    ).tags(adaptor::adapt_string_array(tags));
    proof {
        assert(md@ =~= target);
    }
    md
}

/// The search endpoint for one identifier.
pub open spec fn spec_isbn_search_url(v: crate::isbn::IsbnView) -> Seq<char> {
    "https://www.goodreads.com/search?q="@ + crate::isbn::spec_canonical(v)
        + "&search%5Bsource%5D=goodreads&search_type=books&tab=books"@
}

/// Builds the search request URL for one identifier.
pub fn isbn_search_url(isbn: &Isbn) -> (r: String)
    ensures
        r@ == spec_isbn_search_url(isbn@),
{
    let c = isbn.canonical();
    proof {
        assert forall|i: int| 0 <= i < c@.len() implies crate::urlenc::is_unreserved(
            #[trigger] c@[i],
        ) by {
            assert(c@[i] == crate::isbn::spec_digit_char(isbn@.digits[i]));
        }
    }
    let e = crate::urlenc::url_encode(c.as_str());
    let mut out = String::from_str("https://www.goodreads.com/search?q=");
    out.append(e.as_str());
    out.append("&search%5Bsource%5D=goodreads&search_type=books&tab=books");
    out
}

} // verus!
