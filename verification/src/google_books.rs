//! The volume-search provider: endpoint URLs and response decoding.
//!
//! A volume is decoded field by field from its JSON object.  `title` and
//! `industryIdentifiers` are required; everything else is optional and an
//! absent member leaves the field empty.  A known key that appears twice is
//! a [`ReconError::DuplicateField`]; a known key with a value of the wrong
//! shape is a [`ReconError::JSONParse`].

use vstd::prelude::*;
use vstd::string::StringExecFns;

use crate::adaptor;
use crate::adaptor::date_entry_of;
use crate::adaptor::field_values;
use crate::adaptor::isbn_entry_of;
use crate::adaptor::ok_str_entries;
use crate::base;
use crate::base::dedup;
use crate::fields;
use crate::isbn::spec_canonical;
use crate::isbn::isbn_list_views;
use crate::isbn::kept_isbns;
use crate::isbn::spec_parse_isbn;
use crate::isbn::Isbn;
use crate::isbn::IsbnView;
use crate::json;
use crate::json::jarr;
use crate::json::jobj;
use crate::json::sp_json;
use crate::json::spec_lookup;
use crate::json::str_map_list;
use crate::json::Json;
use crate::json::JsonView;
use crate::metadata::ExtraModel;
use crate::metadata::Metadata;
use crate::metadata::MetadataModel;
use crate::recon::ErrView;
use crate::recon::ReconError;
use crate::urlenc::url_encoded_of;

verus! {

broadcast use {vstd::seq::group_seq_axioms, vstd::std_specs::vec::group_vec_axioms};

/// The volume keys this decoder knows.
pub open spec fn known_keys() -> Seq<Seq<char>> {
    seq![
        "industryIdentifiers"@,
        "title"@,
        "authors"@,
        "description"@,
        "pageCount"@,
        "publisher"@,
        "publishedDate"@,
        "categories"@,
        "imageLinks"@,
        "language"@,
    ]
}

/// An optional scalar as a singleton or empty collection.
pub open spec fn opt_entry(o: Option<Seq<char>>) -> Seq<Result<Seq<char>, ErrView>> {
    match o {
        None => Seq::empty(),
        Some(s) => seq![Ok(s)],
    }
}

/// The record the fields of a well-shaped volume object make.
pub open spec fn spec_volume_fields(m: Seq<(Seq<char>, JsonView)>) -> Result<
    MetadataModel,
    ErrView,
> {
    match fields::req_str_field(m, "title"@) {
        Err(e) => Err(e),
        Ok(title) => match fields::req_str_map_list_field(m, "industryIdentifiers"@) {
            Err(e) => Err(e),
            Ok(ids) => match fields::opt_str_list_field(m, "authors"@) {
                Err(e) => Err(e),
                Ok(authors) => match fields::opt_str_field(m, "description"@) {
                    Err(e) => Err(e),
                    Ok(description) => match fields::opt_u16_field(m, "pageCount"@) {
                        Err(e) => Err(e),
                        Ok(page) => match fields::opt_str_field(m, "publisher"@) {
                            Err(e) => Err(e),
                            Ok(publisher) => match fields::opt_str_field(m, "publishedDate"@) {
                                Err(e) => Err(e),
                                Ok(pubdate) => match fields::opt_str_list_field(
                                    m,
                                    "categories"@,
                                ) {
                                    Err(e) => Err(e),
                                    Ok(cats) => match fields::opt_str_map_field(
                                        m,
                                        "imageLinks"@,
                                    ) {
                                        Err(e) => Err(e),
                                        Ok(links) => match fields::opt_str_field(
                                            m,
                                            "language"@,
                                        ) {
                                            Err(e) => Err(e),
                                            Ok(lang) => Ok(
                                                MetadataModel {
                                                    isbns: dedup(
                                                        field_values(
                                                            ids,
                                                            "identifier"@,
                                                        ).map_values(
                                                            |s: Seq<char>| isbn_entry_of(s),
                                                        ),
                                                    ),
                                                    titles: seq![
                                                        Ok::<Seq<char>, ErrView>(title),
                                                    ],
                                                    authors: dedup(ok_str_entries(authors)),
                                                    descriptions: opt_entry(description),
                                                    page_count: (match page {
                                                        None => Seq::empty(),
                                                        Some(n) => seq![
                                                            Ok::<u16, ErrView>(n),
                                                        ],
                                                    }),
                                                    extra: ExtraModel {
                                                        publishers: opt_entry(publisher),
                                                        publication_dates: (match pubdate {
                                                            None => Seq::empty(),
                                                            Some(s) => seq![date_entry_of(s)],
                                                        }),
                                                        languages: opt_entry(lang),
                                                        tags: dedup(ok_str_entries(cats)),
                                                        cover_images: dedup(
                                                            ok_str_entries(
                                                                links.map_values(
                                                                    |p: (Seq<char>, Seq<char>)|
                                                                        p.1,
                                                                ),
                                                            ),
                                                        ),
                                                    },
                                                },
                                            ),
                                        },
                                    },
                                },
                            },
                        },
                    },
                },
            },
        },
    }
}

/// What decoding one volume object yields.
pub open spec fn spec_decode_volume(v: JsonView) -> Result<MetadataModel, ErrView> {
    match jobj(v) {
        None => Err(ErrView::JSONParse("volumeInfo"@)),
        Some(m) => match json::spec_first_dup(m, known_keys(), 0) {
            Some(k) => Err(ErrView::DuplicateField(k)),
            None => spec_volume_fields(m),
        },
    }
}

/// Decodes one volume object into a record.
#[verifier::rlimit(100)]
pub fn decode_volume(j: &Json) -> (r: Result<Metadata, ReconError>)
    ensures
        match r {
            Ok(md) => spec_decode_volume(j@) == Ok::<MetadataModel, ErrView>(md@) && md@.wf(),
            Err(e) => spec_decode_volume(j@) == Err::<MetadataModel, ErrView>(e@),
        },
{
    let m = match j.as_obj() {
        Some(m) => m,
        None => {
            return Err(ReconError::JSONParse("volumeInfo".to_owned()));
        },
    };
    let known: Vec<&str> = vec![
        "industryIdentifiers",
        "title",
        "authors",
        "description",
        "pageCount",
        "publisher",
        "publishedDate",
        "categories",
        "imageLinks",
        "language",
    ];
    proof {
        assert(known.deep_view() =~= known_keys());
    }
    if let Some(k) = json::find_dup_key(m, &known) {
        return Err(ReconError::DuplicateField(k));
    }
    let title = match fields::get_req_str(m, "title") {
        Ok(t) => t,
        Err(e) => {
            return Err(e);
        },
    };
    let ids_maps = match fields::get_req_str_map_list(m, "industryIdentifiers") {
        Ok(v) => v,
        Err(e) => {
            return Err(e);
        },
    };
    let authors = match fields::get_opt_str_list(m, "authors") {
        Ok(v) => v,
        Err(e) => {
            return Err(e);
        },
    };
    let description = match fields::get_opt_str(m, "description") {
        Ok(v) => v,
        Err(e) => {
            return Err(e);
        },
    };
    let page = match fields::get_opt_u16(m, "pageCount") {
        Ok(v) => v,
        Err(e) => {
            return Err(e);
        },
    };
    let publisher = match fields::get_opt_str(m, "publisher") {
        Ok(v) => v,
        Err(e) => {
            return Err(e);
        },
    };
    let pubdate = match fields::get_opt_str(m, "publishedDate") {
        Ok(v) => v,
        Err(e) => {
            return Err(e);
        },
    };
    let cats = match fields::get_opt_str_list(m, "categories") {
        Ok(v) => v,
        Err(e) => {
            return Err(e);
        },
    };
    let links = match fields::get_opt_str_map(m, "imageLinks") {
        Ok(v) => v,
        Err(e) => {
            return Err(e);
        },
    };
    let lang = match fields::get_opt_str(m, "language") {
        Ok(v) => v,
        Err(e) => {
            return Err(e);
        },
    };
    let id_strings = fields::extract_field_strings(&ids_maps, "identifier");
    let dates: Vec<base::Date> = match adaptor::adapt_date(
        match &pubdate {
            Some(s) => Some(s.as_str()),
            None => None,
        },
    ) {
        Some(e) => {
            let mut v: Vec<base::Date> = Vec::new();
            v.push(e);
            v
        },
        None => Vec::new(),
    };
    let ghost target = spec_volume_fields(crate::json::member_views(m@));
    let md = Metadata::default().isbns(adaptor::adapt_identifier_list(id_strings)).titles(
        adaptor::adapt_scalar_string(Some(title)),
    ).authors(adaptor::adapt_string_array(authors)).descriptions(
        adaptor::adapt_scalar_string(description),
    ).page_count(adaptor::adapt_number(page)).publishers(
        adaptor::adapt_scalar_string(publisher),
    ).publication_dates(dates).languages(adaptor::adapt_scalar_string(lang)).tags(
        adaptor::adapt_string_array(cats),
    ).cover_images(adaptor::adapt_object_values(&links));
    proof {
        base::lemma_dedup_distinct(
            field_values(ids_maps.deep_view(), "identifier"@).map_values(
                |s: Seq<char>| isbn_entry_of(s),
            ),
        );
        base::lemma_dedup_distinct(ok_str_entries(authors.deep_view()));
        base::lemma_dedup_distinct(ok_str_entries(cats.deep_view()));
        base::lemma_dedup_distinct(
            ok_str_entries(links.deep_view().map_values(|p: (Seq<char>, Seq<char>)| p.1)),
        );
        assert(base::date_views(dates@) =~= (match pubdate {
            None => Seq::<Result<crate::date::Date, ErrView>>::empty(),
            Some(s) => seq![date_entry_of(s@)],
        }));
        assert(md@ =~= target->Ok_0);
        assert(md@.wf());
    }
    Ok(md)
}

/// What decoding a whole by-identifier response yields: the first volume of
/// `items`, or the empty record when `items` is empty.
pub open spec fn spec_from_isbn_response(s: Seq<char>) -> Result<MetadataModel, ErrView> {
    match sp_json(s) {
        None => Err(ErrView::JSONParse("response"@)),
        Some(v) => match jobj(v) {
            None => Err(ErrView::JSONParse("response"@)),
            Some(top) => match spec_lookup(top, "items"@) {
                None => Err(ErrView::JSONParse("items"@)),
                Some(iv) => match jarr(iv) {
                    None => Err(ErrView::JSONParse("items"@)),
                    Some(items) => if items.len() == 0 {
                        Ok(MetadataModel::empty())
                    } else {
                        match jobj(items[0]) {
                            None => Err(ErrView::JSONParse("volumeInfo"@)),
                            Some(it) => match spec_lookup(it, "volumeInfo"@) {
                                None => Err(ErrView::JSONParse("volumeInfo"@)),
                                Some(vi) => spec_decode_volume(vi),
                            },
                        }
                    },
                },
            },
        },
    }
}

/// Decodes a whole by-identifier response body.
pub fn from_isbn_response(body: &str) -> (r: Result<Metadata, ReconError>)
    ensures
        match r {
            Ok(md) => spec_from_isbn_response(body@) == Ok::<MetadataModel, ErrView>(md@)
                && md@.wf(),
            Err(e) => spec_from_isbn_response(body@) == Err::<MetadataModel, ErrView>(e@),
        },
{
    broadcast use {json::lemma_views_len, json::lemma_views_index};

    let v = match json::parse_json(body) {
        Some(v) => v,
        None => {
            return Err(ReconError::JSONParse("response".to_owned()));
        },
    };
    let top = match v.as_obj() {
        Some(m) => m,
        None => {
            return Err(ReconError::JSONParse("response".to_owned()));
        },
    };
    let iv = match json::lookup_key(top, "items") {
        Some(iv) => iv,
        None => {
            return Err(ReconError::JSONParse("items".to_owned()));
        },
    };
    let items = match iv.as_arr() {
        Some(items) => items,
        None => {
            return Err(ReconError::JSONParse("items".to_owned()));
        },
    };
    if items.len() == 0 {
        return Ok(Metadata::default());
    }
    let it = match items[0].as_obj() {
        Some(it) => it,
        None => {
            return Err(ReconError::JSONParse("volumeInfo".to_owned()));
        },
    };
    let vi = match json::lookup_key(it, "volumeInfo") {
        Some(vi) => vi,
        None => {
            return Err(ReconError::JSONParse("volumeInfo".to_owned()));
        },
    };
    decode_volume(vi)
}

/// The candidate identifier string one search item offers, if any: the
/// `identifier` of the first entry of its `industryIdentifiers`.
pub open spec fn spec_candidate(item: JsonView) -> Result<Option<Seq<char>>, ErrView> {
    match jobj(item) {
        None => Err(ErrView::JSONParse("volumeInfo"@)),
        Some(it) => match spec_lookup(it, "volumeInfo"@) {
            None => Err(ErrView::JSONParse("volumeInfo"@)),
            Some(vi) => match jobj(vi) {
                None => Err(ErrView::JSONParse("volumeInfo"@)),
                Some(vm) => match spec_lookup(vm, "industryIdentifiers"@) {
                    None => Err(ErrView::JSONParse("industryIdentifiers"@)),
                    Some(idv) => match str_map_list(idv) {
                        None => Err(ErrView::JSONParse("industryIdentifiers"@)),
                        Some(ids) => if ids.len() == 0 {
                            Ok(None)
                        } else {
                            Ok(adaptor::assoc_first(ids[0], "identifier"@))
                        },
                    },
                },
            },
        },
    }
}

/// The candidate identifier strings of all search items, in order.
pub open spec fn spec_candidates(items: Seq<JsonView>) -> Result<Seq<Seq<char>>, ErrView>
    decreases items.len(),
{
    if items.len() == 0 {
        Ok(Seq::empty())
    } else {
        match spec_candidates(items.drop_last()) {
            Err(e) => Err(e),
            Ok(cs) => match spec_candidate(items.last()) {
                Err(e) => Err(e),
                Ok(c) => Ok(
                    cs + (match c {
                        Some(x) => seq![x],
                        None => Seq::empty(),
                    }),
                ),
            },
        }
    }
}

/// An error among the first `k` items is the error of the whole list.
proof fn lemma_candidates_err(items: Seq<JsonView>, k: int)
    requires
        0 <= k <= items.len(),
        spec_candidates(items.take(k)) is Err,
    ensures
        spec_candidates(items) == spec_candidates(items.take(k)),
    decreases items.len() - k,
{
    if k < items.len() {
        assert(items.take(k + 1).drop_last() =~= items.take(k));
        lemma_candidates_err(items, k + 1);
    } else {
        assert(items.take(k) =~= items);
    }
}

/// What decoding a search response yields: the parseable identifiers among
/// the first three candidates, in response order.
pub open spec fn spec_search_response(s: Seq<char>) -> Result<Seq<IsbnView>, ErrView> {
    match sp_json(s) {
        None => Err(ErrView::JSONParse("response"@)),
        Some(v) => match jobj(v) {
            None => Err(ErrView::JSONParse("response"@)),
            Some(top) => match spec_lookup(top, "items"@) {
                None => Err(ErrView::JSONParse("items"@)),
                Some(iv) => match jarr(iv) {
                    None => Err(ErrView::JSONParse("items"@)),
                    Some(items) => match spec_candidates(items) {
                        Err(e) => Err(e),
                        Ok(cands) => Ok(
                            kept_isbns(
                                if cands.len() > 3 {
                                    cands.take(3)
                                } else {
                                    cands
                                },
                            ),
                        ),
                    },
                },
            },
        },
    }
}

/// The candidate of one item, executably.
fn candidate_of(item: &Json) -> (r: Result<Option<String>, ReconError>)
    ensures
        match r {
            Ok(o) => spec_candidate(item@) == Ok::<Option<Seq<char>>, ErrView>(o.deep_view()),
            Err(e) => spec_candidate(item@) == Err::<Option<Seq<char>>, ErrView>(e@),
        },
{
    let it = match item.as_obj() {
        Some(it) => it,
        None => {
            return Err(ReconError::JSONParse("volumeInfo".to_owned()));
        },
    };
    let vi = match json::lookup_key(it, "volumeInfo") {
        Some(vi) => vi,
        None => {
            return Err(ReconError::JSONParse("volumeInfo".to_owned()));
        },
    };
    let vm = match vi.as_obj() {
        Some(vm) => vm,
        None => {
            return Err(ReconError::JSONParse("volumeInfo".to_owned()));
        },
    };
    let idv = match json::lookup_key(vm, "industryIdentifiers") {
        Some(idv) => idv,
        None => {
            return Err(ReconError::JSONParse("industryIdentifiers".to_owned()));
        },
    };
    let ids = match json::to_str_map_list(idv) {
        Some(ids) => ids,
        None => {
            return Err(ReconError::JSONParse("industryIdentifiers".to_owned()));
        },
    };
    if ids.len() == 0 {
        return Ok(None);
    }
    proof {
        assert(ids.deep_view()[0] == ids@[0].deep_view());
    }
    match adaptor::assoc_lookup(&ids[0], "identifier") {
        Some(v) => Ok(Some(v.clone())),
        None => Ok(None),
    }
}

/// Decodes a search response body into at most three candidate identifiers,
/// in response order; candidate strings that fail validation are dropped.
#[verifier::loop_isolation(false)]
pub fn search_isbns(body: &str) -> (r: Result<Vec<Isbn>, ReconError>)
    ensures
        match r {
            Ok(v) => spec_search_response(body@) == Ok::<Seq<IsbnView>, ErrView>(
                isbn_list_views(v@),
            ) && v@.len() <= 3 && (forall|i: int| 0 <= i < v@.len() ==> (#[trigger] v@[i]@).wf()),
            Err(e) => spec_search_response(body@) == Err::<Seq<IsbnView>, ErrView>(e@),
        },
{
    broadcast use {json::lemma_views_len, json::lemma_views_index};

    let v = match json::parse_json(body) {
        Some(v) => v,
        None => {
            return Err(ReconError::JSONParse("response".to_owned()));
        },
    };
    let top = match v.as_obj() {
        Some(m) => m,
        None => {
            return Err(ReconError::JSONParse("response".to_owned()));
        },
    };
    let iv = match json::lookup_key(top, "items") {
        Some(iv) => iv,
        None => {
            return Err(ReconError::JSONParse("items".to_owned()));
        },
    };
    let items = match iv.as_arr() {
        Some(items) => items,
        None => {
            return Err(ReconError::JSONParse("items".to_owned()));
        },
    };
    let ghost itemsv = json::views(items@);
    let mut cands: Vec<String> = Vec::new();
    let n = items.len();
    proof {
        assert(itemsv.take(0) =~= Seq::<JsonView>::empty());
        assert(cands.deep_view() =~= Seq::<Seq<char>>::empty());
    }
    for i in 0..n
        invariant
            spec_candidates(itemsv.take(i as int)) == Ok::<Seq<Seq<char>>, ErrView>(
                cands.deep_view(),
            ),
    {
        proof {
            assert(itemsv.take(i + 1).drop_last() =~= itemsv.take(i as int));
            assert(itemsv.take(i + 1).last() == items@[i as int]@);
        }
        match candidate_of(&items[i]) {
            Err(e) => {
                proof {
                    lemma_candidates_err(itemsv, i + 1);
                }
                return Err(e);
            },
            Ok(None) => {
                proof {
                    assert(cands.deep_view() + Seq::<Seq<char>>::empty() =~= cands.deep_view());
                }
            },
            Ok(Some(c)) => {
                let ghost c0 = cands.deep_view();
                let ghost cv = c@;
                cands.push(c);
                proof {
                    assert(cands.deep_view() =~= c0.push(cv));
                    assert(c0 + seq![cv] =~= c0.push(cv));
                }
            },
        }
    }
    proof {
        assert(itemsv.take(n as int) =~= itemsv);
    }
    let limit = if cands.len() > 3 {
        3
    } else {
        cands.len()
    };
    let ghost taken = if cands.deep_view().len() > 3 {
        cands.deep_view().take(3)
    } else {
        cands.deep_view()
    };
    proof {
        assert(taken =~= cands.deep_view().take(limit as int));
        assert(kept_isbns(taken.take(0)) =~= Seq::<IsbnView>::empty());
    }
    let mut out: Vec<Isbn> = Vec::new();
    proof {
        assert(isbn_list_views(out@) =~= Seq::<IsbnView>::empty());
    }
    for j in 0..limit
        invariant
            limit <= cands@.len(),
            taken == cands.deep_view().take(limit as int),
            isbn_list_views(out@) == kept_isbns(taken.take(j as int)),
            out@.len() <= j,
            forall|t: int| 0 <= t < out@.len() ==> (#[trigger] out@[t]@).wf(),
    {
        proof {
            assert(taken.take(j + 1).drop_last() =~= taken.take(j as int));
            assert(taken.take(j + 1).last() == cands@[j as int]@);
        }
        match Isbn::parse(cands[j].as_str()) {
            Ok(id) => {
                let ghost out0 = out@;
                let ghost idv = id@;
                out.push(id);
                proof {
                    assert(isbn_list_views(out@) =~= isbn_list_views(out0).push(idv));
                    assert(kept_isbns(taken.take(j + 1)) =~= isbn_list_views(out0).push(idv));
                }
            },
            Err(_e) => {
                proof {
                    assert(kept_isbns(taken.take(j + 1)) =~= isbn_list_views(out@));
                }
            },
        }
    }
    proof {
        assert(taken.take(limit as int) =~= taken);
    }
    Ok(out)
}

/// The by-identifier endpoint for one identifier.
pub open spec fn spec_isbn_url(v: IsbnView) -> Seq<char> {
    "https://www.googleapis.com/books/v1/volumes?q=isbn:"@ + spec_canonical(v)
}

/// The free-text search endpoint for one query.
pub open spec fn spec_search_url(q: Seq<char>) -> Seq<char> {
    "https://www.googleapis.com/books/v1/volumes?q="@ + url_encoded_of(q)
}

/// Builds the by-identifier request URL.
pub fn isbn_url(isbn: &Isbn) -> (r: String)
    ensures
        r@ == spec_isbn_url(isbn@),
{
    let c = isbn.canonical();
    proof {
        assert forall|i: int| 0 <= i < c@.len() implies crate::urlenc::is_unreserved(
            #[trigger] c@[i],
        ) by {
            assert(c@[i] == crate::isbn::spec_digit_char(isbn@.digits[i]));
        }
    }
    let e = crate::urlenc::url_encode(c.as_str());
    let mut out = String::from_str("https://www.googleapis.com/books/v1/volumes?q=isbn:");
    out.append(e.as_str());
    out
}

/// Builds the free-text search request URL.
pub fn search_url(query: &str) -> (r: String)
    ensures
        r@ == spec_search_url(query@),
{
    let e = crate::urlenc::url_encode(query);
    let mut out = String::from_str("https://www.googleapis.com/books/v1/volumes?q=");
    out.append(e.as_str());
    out
}

} // verus!
