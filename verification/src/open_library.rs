//! The library-catalogue provider: endpoint URLs and response decoding.
//!
//! A record is decoded field by field from its JSON object.  `title` and
//! `identifiers` are required; everything else is optional and an absent
//! member leaves the field empty.  This provider reports no description and
//! no language, so those fields always come back empty.

use vstd::prelude::*;
use vstd::string::StringExecFns;

use crate::adaptor;
use crate::adaptor::date_entry_of;
use crate::adaptor::field_values;
use crate::adaptor::isbn_entry_of;
use crate::adaptor::ok_str_entries;
use crate::adaptor::split_field_values;
use crate::base;
use crate::base::dedup;
use crate::fields;
use crate::isbn::isbn_list_views;
use crate::isbn::kept_isbns;
use crate::isbn::spec_canonical;
use crate::isbn::spec_parse_isbn;
use crate::isbn::Isbn;
use crate::isbn::IsbnView;
use crate::json;
use crate::json::jarr;
use crate::json::jobj;
use crate::json::sp_json;
use crate::json::spec_lookup;
use crate::json::str_list;
use crate::json::str_list_map;
use crate::json::Json;
use crate::json::JsonView;
use crate::metadata::ExtraModel;
use crate::metadata::Metadata;
use crate::metadata::MetadataModel;
use crate::recon::ErrView;
use crate::recon::ReconError;
use crate::urlenc::url_encoded_of;

verus! {

broadcast use {vstd::seq::group_seq_axioms, vstd::std_specs::vec::group_vec_axioms};

/// The record keys this decoder knows.
pub open spec fn known_keys() -> Seq<Seq<char>> {
    seq![
        "identifiers"@,
        "title"@,
        "authors"@,
        "number_of_pages"@,
        "publishers"@,
        "publish_date"@,
        "subjects"@,
        "cover"@,
    ]
}

/// The raw identifier strings of an `identifiers` object: the values under
/// `isbn_10` and `isbn_13`, in member order.
pub open spec fn id_strings(mm: Seq<(Seq<char>, Seq<Seq<char>>)>) -> Seq<Seq<char>>
    decreases mm.len(),
{
    if mm.len() == 0 {
        Seq::empty()
    } else {
        id_strings(mm.drop_last()) + (if mm.last().0 == "isbn_10"@ || mm.last().0 == "isbn_13"@ {
            mm.last().1
        } else {
            Seq::empty()
        })
    }
}

/// The required `identifiers` member: an object of string arrays.
pub open spec fn req_id_map_field(m: Seq<(Seq<char>, JsonView)>, k: Seq<char>) -> Result<
    Seq<(Seq<char>, Seq<Seq<char>>)>,
    ErrView,
> {
    match spec_lookup(m, k) {
        None => Err(ErrView::MissingField(k)),
        Some(v) => match str_list_map(v) {
            None => Err(ErrView::JSONParse(k)),
            Some(mm) => Ok(mm),
        },
    }
}

/// An optional scalar as a singleton or empty collection.
pub open spec fn opt_entry(o: Option<Seq<char>>) -> Seq<Result<Seq<char>, ErrView>> {
    match o {
        None => Seq::empty(),
        Some(s) => seq![Ok(s)],
    }
}

/// The record the fields of a well-shaped catalogue object make.
pub open spec fn spec_record_fields(m: Seq<(Seq<char>, JsonView)>) -> Result<
    MetadataModel,
    ErrView,
> {
    match fields::req_str_field(m, "title"@) {
        Err(e) => Err(e),
        Ok(title) => match req_id_map_field(m, "identifiers"@) {
            Err(e) => Err(e),
            Ok(idm) => match fields::opt_str_map_list_field(m, "authors"@) {
                Err(e) => Err(e),
                Ok(authors) => match fields::opt_u16_field(m, "number_of_pages"@) {
                    Err(e) => Err(e),
                    Ok(page) => match fields::opt_str_map_list_field(m, "publishers"@) {
                        Err(e) => Err(e),
                        Ok(pubs) => match fields::opt_str_field(m, "publish_date"@) {
                            Err(e) => Err(e),
                            Ok(pubdate) => match fields::opt_str_map_list_field(
                                m,
                                "subjects"@,
                            ) {
                                Err(e) => Err(e),
                                Ok(subjects) => match fields::opt_str_map_field(m, "cover"@) {
                                    Err(e) => Err(e),
                                    Ok(cover) => Ok(
                                        MetadataModel {
                                            isbns: dedup(
                                                id_strings(idm).map_values(
                                                    |s: Seq<char>| isbn_entry_of(s),
                                                ),
                                            ),
                                            titles: seq![Ok::<Seq<char>, ErrView>(title)],
                                            authors: dedup(
                                                ok_str_entries(field_values(authors, "name"@)),
                                            ),
                                            descriptions: Seq::empty(),
                                            page_count: (match page {
                                                None => Seq::empty(),
                                                Some(n) => seq![Ok::<u16, ErrView>(n)],
                                            }),
                                            extra: ExtraModel {
                                                publishers: dedup(
                                                    ok_str_entries(field_values(pubs, "name"@)),
                                                ),
                                                publication_dates: (match pubdate {
                                                    None => Seq::empty(),
                                                    Some(s) => seq![date_entry_of(s)],
                                                }),
                                                languages: Seq::empty(),
                                                tags: dedup(
                                                    ok_str_entries(
                                                        split_field_values(subjects, "name"@),
                                                    ),
                                                ),
                                                cover_images: dedup(
                                                    ok_str_entries(
                                                        cover.map_values(
                                                            |p: (Seq<char>, Seq<char>)| p.1,
                                                        ),
                                                    ),
                                                ),
                                            },
                                        },
                                    ),
                                },
                            },
                        },
                    },
                },
            },
        },
    }
}

/// What decoding one catalogue object yields.
pub open spec fn spec_decode_record(v: JsonView) -> Result<MetadataModel, ErrView> {
    match jobj(v) {
        None => Err(ErrView::JSONParse("book"@)),
        Some(m) => match json::spec_first_dup(m, known_keys(), 0) {
            Some(k) => Err(ErrView::DuplicateField(k)),
            None => spec_record_fields(m),
        },
    }
}

/// The `identifiers` member as owned string lists, executably.
fn get_req_id_map(m: &Vec<(String, Json)>, k: &str) -> (r: Result<
    Vec<(String, Vec<String>)>,
    ReconError,
>)
    ensures
        match r {
            Ok(mm) => req_id_map_field(crate::json::member_views(m@), k@) == Ok::<
                Seq<(Seq<char>, Seq<Seq<char>>)>,
                ErrView,
            >(mm.deep_view()),
            Err(e) => req_id_map_field(crate::json::member_views(m@), k@) == Err::<
                Seq<(Seq<char>, Seq<Seq<char>>)>,
                ErrView,
            >(e@),
        },
{
    match json::lookup_key(m, k) {
        None => Err(ReconError::MissingField(k.to_owned())),
        Some(v) => match json::to_str_list_map(v) {
            None => Err(ReconError::JSONParse(k.to_owned())),
            Some(mm) => Ok(mm),
        },
    }
}

/// The raw identifier strings, executably.
#[verifier::loop_isolation(false)]
fn extract_id_strings(mm: &Vec<(String, Vec<String>)>) -> (r: Vec<String>)
    ensures
        r.deep_view() == id_strings(mm.deep_view()),
{
    let mut out: Vec<String> = Vec::new();
    let n = mm.len();
    proof {
        assert(id_strings(mm.deep_view().take(0)) =~= Seq::<Seq<char>>::empty());
        assert(out.deep_view() =~= Seq::<Seq<char>>::empty());
    }
    for i in 0..n
        invariant
            out.deep_view() == id_strings(mm.deep_view().take(i as int)),
    {
        proof {
            assert(mm.deep_view().take(i + 1).drop_last() =~= mm.deep_view().take(i as int));
            assert(mm.deep_view().take(i + 1).last() == mm.deep_view()[i as int]);
            assert(mm.deep_view()[i as int] == (mm@[i as int].0@, mm@[i as int].1.deep_view()));
        }
        let is_id = crate::strutil::str_eq(mm[i].0.as_str(), "isbn_10") || crate::strutil::str_eq(
            mm[i].0.as_str(),
            "isbn_13",
        );
        if is_id {
            let vals = &mm[i].1;
            let vn = vals.len();
            let ghost before = out.deep_view();
            for t in 0..vn
                invariant
                    vn == vals@.len(),
                    out.deep_view() == before + vals.deep_view().take(t as int),
            {
                let ghost out0 = out.deep_view();
                out.push(vals[t].clone());
                proof {
                    assert(out.deep_view() =~= out0.push(vals@[t as int]@));
                    assert(before + vals.deep_view().take(t + 1) =~= out0.push(
                        vals@[t as int]@,
                    ));
                }
            }
            proof {
                assert(vals.deep_view().take(vn as int) =~= vals.deep_view());
                assert(id_strings(mm.deep_view().take(i + 1)) =~= before + vals.deep_view());
            }
        } else {
            proof {
                assert(id_strings(mm.deep_view().take(i + 1)) =~= out.deep_view());
            }
        }
    }
    proof {
        assert(mm.deep_view().take(n as int) =~= mm.deep_view());
    }
    out
}

/// Decodes one catalogue object into a record.
#[verifier::rlimit(100)]
pub fn decode_record(j: &Json) -> (r: Result<Metadata, ReconError>)
    ensures
        match r {
            Ok(md) => spec_decode_record(j@) == Ok::<MetadataModel, ErrView>(md@) && md@.wf(),
            Err(e) => spec_decode_record(j@) == Err::<MetadataModel, ErrView>(e@),
        },
{
    let m = match j.as_obj() {
        Some(m) => m,
        None => {
            return Err(ReconError::JSONParse("book".to_owned()));
        },
    };
    let known: Vec<&str> = vec![
        "identifiers",
        "title",
        "authors",
        "number_of_pages",
        "publishers",
        "publish_date",
        "subjects",
        "cover",
    ];
    proof {
        assert(known.deep_view() =~= known_keys());
    }
    if let Some(k) = json::find_dup_key(m, &known) {
        return Err(ReconError::DuplicateField(k));
    }
    let title = match fields::get_req_str(m, "title") {
        Ok(t) => t,
        Err(e) => {
            return Err(e);
        },
    };
    let idm = match get_req_id_map(m, "identifiers") {
        Ok(v) => v,
        Err(e) => {
            return Err(e);
        },
    };
    let authors = match fields::get_opt_str_map_list(m, "authors") {
        Ok(v) => v,
        Err(e) => {
            return Err(e);
        },
    };
    let page = match fields::get_opt_u16(m, "number_of_pages") {
        Ok(v) => v,
        Err(e) => {
            return Err(e);
        },
    };
    let pubs = match fields::get_opt_str_map_list(m, "publishers") {
        Ok(v) => v,
        Err(e) => {
            return Err(e);
        },
    };
    let pubdate = match fields::get_opt_str(m, "publish_date") {
        Ok(v) => v,
        Err(e) => {
            return Err(e);
        },
    };
    let subjects = match fields::get_opt_str_map_list(m, "subjects") {
        Ok(v) => v,
        Err(e) => {
            return Err(e);
        },
    };
    let cover = match fields::get_opt_str_map(m, "cover") {
        Ok(v) => v,
        Err(e) => {
            return Err(e);
        },
    };
    let raw_ids = extract_id_strings(&idm);
    let dates: Vec<base::Date> = match adaptor::adapt_date(
        match &pubdate {
            Some(s) => Some(s.as_str()),
            None => None,
        },
    ) {
        Some(e) => {
            let mut v: Vec<base::Date> = Vec::new();
            v.push(e);
            v
        },
        None => Vec::new(),
    };
    let ghost target = spec_record_fields(crate::json::member_views(m@));
    let md = Metadata::default().isbns(adaptor::adapt_identifier_list(raw_ids)).titles(
        adaptor::adapt_scalar_string(Some(title)),
    ).authors(adaptor::adapt_object_field_list(&authors, "name")).page_count(
        adaptor::adapt_number(page),
    ).publishers(adaptor::adapt_object_field_list(&pubs, "name")).publication_dates(dates).tags(
        adaptor::adapt_object_field_list_split(&subjects, "name"),
    ).cover_images(adaptor::adapt_object_values(&cover));
    proof {
        base::lemma_dedup_distinct(
            id_strings(idm.deep_view()).map_values(|s: Seq<char>| isbn_entry_of(s)),
        );
        base::lemma_dedup_distinct(
            ok_str_entries(field_values(authors.deep_view(), "name"@)),
        );
        base::lemma_dedup_distinct(ok_str_entries(field_values(pubs.deep_view(), "name"@)));
        base::lemma_dedup_distinct(
            ok_str_entries(split_field_values(subjects.deep_view(), "name"@)),
        );
        base::lemma_dedup_distinct(
            ok_str_entries(cover.deep_view().map_values(|p: (Seq<char>, Seq<char>)| p.1)),
        );
        assert(base::date_views(dates@) =~= (match pubdate {
            None => Seq::<Result<crate::date::Date, ErrView>>::empty(),
            Some(s) => seq![date_entry_of(s@)],
        }));
        assert(md@ =~= target->Ok_0);
        assert(md@.wf());
    }
    Ok(md)
}

/// What decoding a whole by-identifier response yields: the record of the
/// first member of the response object, or the empty record when the
/// response object has no members.
pub open spec fn spec_from_isbn_response(s: Seq<char>) -> Result<MetadataModel, ErrView> {
    match sp_json(s) {
        None => Err(ErrView::JSONParse("response"@)),
        Some(v) => match jobj(v) {
            None => Err(ErrView::JSONParse("response"@)),
            Some(top) => if top.len() == 0 {
                Ok(MetadataModel::empty())
            } else {
                spec_decode_record(top[0].1)
            },
        },
    }
}

/// Decodes a whole by-identifier response body.
pub fn from_isbn_response(body: &str) -> (r: Result<Metadata, ReconError>)
    ensures
        match r {
            Ok(md) => spec_from_isbn_response(body@) == Ok::<MetadataModel, ErrView>(md@)
                && md@.wf(),
            Err(e) => spec_from_isbn_response(body@) == Err::<MetadataModel, ErrView>(e@),
        },
{
    broadcast use {json::lemma_member_views_len, json::lemma_member_views_index};

    let v = match json::parse_json(body) {
        Some(v) => v,
        None => {
            return Err(ReconError::JSONParse("response".to_owned()));
        },
    };
    let top = match v.as_obj() {
        Some(m) => m,
        None => {
            return Err(ReconError::JSONParse("response".to_owned()));
        },
    };
    if top.len() == 0 {
        return Ok(Metadata::default());
    }
    decode_record(&top[0].1)
}

/// The candidate identifier string one search document offers, if any: the
/// first entry of its optional `isbn` array.
pub open spec fn spec_candidate(doc: JsonView) -> Result<Option<Seq<char>>, ErrView> {
    match jobj(doc) {
        None => Err(ErrView::JSONParse("docs"@)),
        Some(d) => match spec_lookup(d, "isbn"@) {
            None => Ok(None),
            Some(iv) => match str_list(iv) {
                None => Err(ErrView::JSONParse("isbn"@)),
                Some(l) => if l.len() == 0 {
                    Ok(None)
                } else {
                    Ok(Some(l[0]))
                },
            },
        },
    }
}

/// The candidate identifier strings of all search documents, in order.
pub open spec fn spec_candidates(docs: Seq<JsonView>) -> Result<Seq<Seq<char>>, ErrView>
    decreases docs.len(),
{
    if docs.len() == 0 {
        Ok(Seq::empty())
    } else {
        match spec_candidates(docs.drop_last()) {
            Err(e) => Err(e),
            Ok(cs) => match spec_candidate(docs.last()) {
                Err(e) => Err(e),
                Ok(c) => Ok(
                    cs + (match c {
                        Some(x) => seq![x],
                        None => Seq::empty(),
                    }),
                ),
            },
        }
    }
}

/// An error among the first `k` documents is the error of the whole list.
proof fn lemma_candidates_err(docs: Seq<JsonView>, k: int)
    requires
        0 <= k <= docs.len(),
        spec_candidates(docs.take(k)) is Err,
    ensures
        spec_candidates(docs) == spec_candidates(docs.take(k)),
    decreases docs.len() - k,
{
    if k < docs.len() {
        assert(docs.take(k + 1).drop_last() =~= docs.take(k));
        lemma_candidates_err(docs, k + 1);
    } else {
        assert(docs.take(k) =~= docs);
    }
}

/// What decoding a search response yields: the parseable identifiers among
/// the first three candidates, in response order.
pub open spec fn spec_search_response(s: Seq<char>) -> Result<Seq<IsbnView>, ErrView> {
    match sp_json(s) {
        None => Err(ErrView::JSONParse("response"@)),
        Some(v) => match jobj(v) {
            None => Err(ErrView::JSONParse("response"@)),
            Some(top) => match spec_lookup(top, "docs"@) {
                None => Err(ErrView::JSONParse("docs"@)),
                Some(dv) => match jarr(dv) {
                    None => Err(ErrView::JSONParse("docs"@)),
                    Some(docs) => match spec_candidates(docs) {
                        Err(e) => Err(e),
                        Ok(cands) => Ok(
                            kept_isbns(
                                if cands.len() > 3 {
                                    cands.take(3)
                                } else {
                                    cands
                                },
                            ),
                        ),
                    },
                },
            },
        },
    }
}

/// The candidate of one document, executably.
fn candidate_of(doc: &Json) -> (r: Result<Option<String>, ReconError>)
    ensures
        match r {
            Ok(o) => spec_candidate(doc@) == Ok::<Option<Seq<char>>, ErrView>(o.deep_view()),
            Err(e) => spec_candidate(doc@) == Err::<Option<Seq<char>>, ErrView>(e@),
        },
{
    let d = match doc.as_obj() {
        Some(d) => d,
        None => {
            return Err(ReconError::JSONParse("docs".to_owned()));
        },
    };
    let iv = match json::lookup_key(d, "isbn") {
        Some(iv) => iv,
        None => {
            return Ok(None);
        },
    };
    let l = match json::to_str_list(iv) {
        Some(l) => l,
        None => {
            return Err(ReconError::JSONParse("isbn".to_owned()));
        },
    };
    if l.len() == 0 {
        return Ok(None);
    }
    proof {
        assert(l.deep_view()[0] == l@[0]@);
    }
    Ok(Some(l[0].clone()))
}

/// Decodes a search response body into at most three candidate identifiers,
/// in response order; candidate strings that fail validation are dropped.
#[verifier::loop_isolation(false)]
pub fn search_isbns(body: &str) -> (r: Result<Vec<Isbn>, ReconError>)
    ensures
        match r {
            Ok(v) => spec_search_response(body@) == Ok::<Seq<IsbnView>, ErrView>(
                isbn_list_views(v@),
            ) && v@.len() <= 3 && (forall|i: int| 0 <= i < v@.len() ==> (#[trigger] v@[i]@).wf()),
            Err(e) => spec_search_response(body@) == Err::<Seq<IsbnView>, ErrView>(e@),
        },
{
    broadcast use {json::lemma_views_len, json::lemma_views_index};

    let v = match json::parse_json(body) {
        Some(v) => v,
        None => {
            return Err(ReconError::JSONParse("response".to_owned()));
        },
    };
    let top = match v.as_obj() {
        Some(m) => m,
        None => {
            return Err(ReconError::JSONParse("response".to_owned()));
        },
    };
    let dv = match json::lookup_key(top, "docs") {
        Some(dv) => dv,
        None => {
            return Err(ReconError::JSONParse("docs".to_owned()));
        },
    };
    let docs = match dv.as_arr() {
        Some(docs) => docs,
        None => {
            return Err(ReconError::JSONParse("docs".to_owned()));
        },
    };
    let ghost docsv = json::views(docs@);
    let mut cands: Vec<String> = Vec::new();
    let n = docs.len();
    proof {
        assert(docsv.take(0) =~= Seq::<JsonView>::empty());
        assert(cands.deep_view() =~= Seq::<Seq<char>>::empty());
    }
    for i in 0..n
        invariant
            spec_candidates(docsv.take(i as int)) == Ok::<Seq<Seq<char>>, ErrView>(
                cands.deep_view(),
            ),
    {
        proof {
            assert(docsv.take(i + 1).drop_last() =~= docsv.take(i as int));
            assert(docsv.take(i + 1).last() == docs@[i as int]@);
        }
        match candidate_of(&docs[i]) {
            Err(e) => {
                proof {
                    lemma_candidates_err(docsv, i + 1);
                }
                return Err(e);
            },
            Ok(None) => {
                proof {
                    assert(cands.deep_view() + Seq::<Seq<char>>::empty() =~= cands.deep_view());
                }
            },
            Ok(Some(c)) => {
                let ghost c0 = cands.deep_view();
                let ghost cv = c@;
                cands.push(c);
                proof {
                    assert(cands.deep_view() =~= c0.push(cv));
                    assert(c0 + seq![cv] =~= c0.push(cv));
                }
            },
        }
    }
    proof {
        assert(docsv.take(n as int) =~= docsv);
    }
    let limit = if cands.len() > 3 {
        3
    } else {
        cands.len()
    };
    let ghost taken = if cands.deep_view().len() > 3 {
        cands.deep_view().take(3)
    } else {
        cands.deep_view()
    };
    proof {
        assert(taken =~= cands.deep_view().take(limit as int));
        assert(kept_isbns(taken.take(0)) =~= Seq::<IsbnView>::empty());
    }
    let mut out: Vec<Isbn> = Vec::new();
    proof {
        assert(isbn_list_views(out@) =~= Seq::<IsbnView>::empty());
    }
    for j in 0..limit
        invariant
            limit <= cands@.len(),
            taken == cands.deep_view().take(limit as int),
            isbn_list_views(out@) == kept_isbns(taken.take(j as int)),
            out@.len() <= j,
            forall|t: int| 0 <= t < out@.len() ==> (#[trigger] out@[t]@).wf(),
    {
        proof {
            assert(taken.take(j + 1).drop_last() =~= taken.take(j as int));
            assert(taken.take(j + 1).last() == cands@[j as int]@);
        }
        match Isbn::parse(cands[j].as_str()) {
            Ok(id) => {
                let ghost out0 = out@;
                let ghost idv = id@;
                out.push(id);
                proof {
                    assert(isbn_list_views(out@) =~= isbn_list_views(out0).push(idv));
                    assert(kept_isbns(taken.take(j + 1)) =~= isbn_list_views(out0).push(idv));
                }
            },
            Err(_e) => {
                proof {
                    assert(kept_isbns(taken.take(j + 1)) =~= isbn_list_views(out@));
                }
            },
        }
    }
    proof {
        assert(taken.take(limit as int) =~= taken);
    }
    Ok(out)
}

/// The by-identifier endpoint for one identifier.
pub open spec fn spec_isbn_url(v: IsbnView) -> Seq<char> {
    "https://openlibrary.org/api/books?bibkeys=ISBN:"@ + spec_canonical(v)
        + "&jscmd=data&format=json"@
}

/// The free-text search endpoint for one query.
pub open spec fn spec_search_url(q: Seq<char>) -> Seq<char> {
    "https://openlibrary.org/search.json?q="@ + url_encoded_of(q)
}

/// Builds the by-identifier request URL.
pub fn isbn_url(isbn: &Isbn) -> (r: String)
    ensures
        r@ == spec_isbn_url(isbn@),
{
    let c = isbn.canonical();
    proof {
        assert forall|i: int| 0 <= i < c@.len() implies crate::urlenc::is_unreserved(
            #[trigger] c@[i],
        ) by {
            assert(c@[i] == crate::isbn::spec_digit_char(isbn@.digits[i]));
        }
    }
    let e = crate::urlenc::url_encode(c.as_str());
    let mut out = String::from_str("https://openlibrary.org/api/books?bibkeys=ISBN:");
    out.append(e.as_str());
    out.append("&jscmd=data&format=json");
    out
}

/// Builds the free-text search request URL.
pub fn search_url(query: &str) -> (r: String)
    ensures
        r@ == spec_search_url(query@),
{
    let e = crate::urlenc::url_encode(query);
    let mut out = String::from_str("https://openlibrary.org/search.json?q=");
    out.append(e.as_str());
    out
}

/// The work reference a by-identifier response carries, if any: the `key`
/// of the first entry of the record's `works` array.
pub open spec fn spec_work_key(v: JsonView) -> Option<Seq<char>> {
    match jobj(v) {
        None => None,
        Some(m) => match spec_lookup(m, "works"@) {
            None => None,
            Some(wv) => match jarr(wv) {
                None => None,
                Some(ws) => if ws.len() == 0 {
                    None
                } else {
                    match jobj(ws[0]) {
                        None => None,
                        Some(w0) => match spec_lookup(w0, "key"@) {
                            None => None,
                            Some(kv) => crate::json::jstr(kv),
                        },
                    }
                },
            },
        },
    }
}

/// The work reference of the first record of a by-identifier response;
/// anything unexpected degrades to `None`.
pub open spec fn spec_work_key_of_response(s: Seq<char>) -> Option<Seq<char>> {
    match sp_json(s) {
        None => None,
        Some(v) => match jobj(v) {
            None => None,
            Some(top) => if top.len() == 0 {
                None
            } else {
                spec_work_key(top[0].1)
            },
        },
    }
}

/// Pulls the work reference out of a by-identifier response body.
pub fn work_key_from_response(body: &str) -> (r: Option<String>)
    ensures
        match r {
            Some(k) => spec_work_key_of_response(body@) == Some(k@),
            None => spec_work_key_of_response(body@) is None,
        },
{
    broadcast use {
        json::lemma_views_len,
        json::lemma_views_index,
        json::lemma_member_views_len,
        json::lemma_member_views_index,
    };

    let v = match json::parse_json(body) {
        Some(v) => v,
        None => {
            return None;
        },
    };
    let top = match v.as_obj() {
        Some(m) => m,
        None => {
            return None;
        },
    };
    if top.len() == 0 {
        return None;
    }
    let m = match top[0].1.as_obj() {
        Some(m) => m,
        None => {
            return None;
        },
    };
    let wv = match json::lookup_key(m, "works") {
        Some(wv) => wv,
        None => {
            return None;
        },
    };
    let ws = match wv.as_arr() {
        Some(ws) => ws,
        None => {
            return None;
        },
    };
    if ws.len() == 0 {
        return None;
    }
    let w0 = match ws[0].as_obj() {
        Some(w0) => w0,
        None => {
            return None;
        },
    };
    let kv = match json::lookup_key(w0, "key") {
        Some(kv) => kv,
        None => {
            return None;
        },
    };
    match kv.as_str_value() {
        Some(s) => Some(s.clone()),
        None => None,
    }
}

/// The endpoint a work reference is fetched from.
pub open spec fn spec_work_url(k: Seq<char>) -> Seq<char> {
    "https://openlibrary.org"@ + k + ".json"@
}

/// Builds the work request URL.
pub fn work_url(key: &str) -> (r: String)
    ensures
        r@ == spec_work_url(key@),
{
    let mut out = String::from_str("https://openlibrary.org");
    out.append(key);
    out.append(".json");
    out
}

/// The long-form description a work object carries, if any: either a plain
/// string under `description`, or the `value` of a description object.
pub open spec fn spec_work_description(s: Seq<char>) -> Option<Seq<char>> {
    match sp_json(s) {
        None => None,
        Some(v) => match jobj(v) {
            None => None,
            Some(m) => match spec_lookup(m, "description"@) {
                None => None,
                Some(dv) => match crate::json::jstr(dv) {
                    Some(t) => Some(t),
                    None => match jobj(dv) {
                        None => None,
                        Some(dm) => match spec_lookup(dm, "value"@) {
                            None => None,
                            Some(vv) => crate::json::jstr(vv),
                        },
                    },
                },
            },
        },
    }
}

/// Pulls the long-form description out of a work response body.
pub fn decode_work_description(body: &str) -> (r: Option<String>)
    ensures
        match r {
            Some(d) => spec_work_description(body@) == Some(d@),
            None => spec_work_description(body@) is None,
        },
{
    let v = match json::parse_json(body) {
        Some(v) => v,
        None => {
            return None;
        },
    };
    let m = match v.as_obj() {
        Some(m) => m,
        None => {
            return None;
        },
    };
    let dv = match json::lookup_key(m, "description") {
        Some(dv) => dv,
        None => {
            return None;
        },
    };
    if let Some(t) = dv.as_str_value() {
        return Some(t.clone());
    }
    let dm = match dv.as_obj() {
        Some(dm) => dm,
        None => {
            return None;
        },
    };
    let vv = match json::lookup_key(dm, "value") {
        Some(vv) => vv,
        None => {
            return None;
        },
    };
    match vv.as_str_value() {
        Some(s) => Some(s.clone()),
        None => None,
    }
}

} // verus!
