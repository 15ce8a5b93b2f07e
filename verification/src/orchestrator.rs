//! The orchestration layer's decisions: which URL to fetch for a provider,
//! how to decode what came back, and how to combine the outcomes.
//!
//! Fetching itself happens outside the crate; callers hand each response
//! body back in.  The combination is fail fast: one failing provider fails
//! the whole batch, whichever the provider.

use vstd::prelude::*;

use crate::isbn::Isbn;
use crate::isbn::IsbnView;
use crate::metadata::Metadata;
use crate::metadata::MetadataModel;
use crate::recon::ErrView;
use crate::recon::ReconError;
use crate::recon::Source;

verus! {

broadcast use {vstd::seq::group_seq_axioms, vstd::std_specs::vec::group_vec_axioms};

/// The mathematical value of one provider's contribution.
pub open spec fn part_view(p: Result<Metadata, ReconError>) -> Result<MetadataModel, ErrView> {
    match p {
        Ok(md) => Ok(md@),
        Err(e) => Err(e@),
    }
}

/// The views of a list of contributions.
pub open spec fn part_views(s: Seq<Result<Metadata, ReconError>>) -> Seq<
    Result<MetadataModel, ErrView>,
> {
    s.map_values(|p: Result<Metadata, ReconError>| part_view(p))
}

/// The views of a list of records.
pub open spec fn record_views(s: Seq<Metadata>) -> Seq<MetadataModel> {
    s.map_values(|m: Metadata| m@)
}

/// A contribution that is either an error or a well-formed record.
pub open spec fn part_wf(p: Result<MetadataModel, ErrView>) -> bool {
    p is Ok ==> p->Ok_0.wf()
}

/// What combining the contributions yields: the merge of all records, in
/// order, starting from the empty record — unless some contribution failed,
/// in which case the earliest failure wins.
pub open spec fn spec_combine(rs: Seq<Result<MetadataModel, ErrView>>) -> Result<
    MetadataModel,
    ErrView,
>
    decreases rs.len(),
{
    if rs.len() == 0 {
        Ok(MetadataModel::empty())
    } else {
        match spec_combine(rs.drop_last()) {
            Err(e) => Err(e),
            Ok(acc) => match rs.last() {
                Err(e) => Err(e),
                Ok(m) => Ok(acc.merged(m)),
            },
        }
    }
}

/// Fail-fast: the combination fails exactly when some contribution failed.
pub proof fn lemma_combine_fail_fast(rs: Seq<Result<MetadataModel, ErrView>>)
    ensures
        spec_combine(rs) is Err <==> (exists|i: int| 0 <= i < rs.len() && (#[trigger] rs[i])
            is Err),
    decreases rs.len(),
{
    if rs.len() > 0 {
        lemma_combine_fail_fast(rs.drop_last());
        if spec_combine(rs.drop_last()) is Err {
            let i = choose|i: int| 0 <= i < rs.drop_last().len() && (#[trigger] rs.drop_last()[i])
                is Err;
            assert(rs[i] is Err);
        } else if rs.last() is Err {
            assert(rs[rs.len() - 1] is Err);
        } else {
            assert forall|i: int| 0 <= i < rs.len() implies !((#[trigger] rs[i]) is Err) by {
                if i < rs.len() - 1 {
                    assert(rs.drop_last()[i] is Err == rs[i] is Err);
                }
            }
        }
    }
}

/// Combines per-provider contributions into one record, fail fast: the
/// records merge in order, and the earliest failure fails the whole batch.
#[verifier::loop_isolation(false)]
pub fn combine_metadata(parts: Vec<Result<Metadata, ReconError>>) -> (r: Result<
    Metadata,
    ReconError,
>)
    ensures
        match r {
            Ok(md) => spec_combine(part_views(parts@)) == Ok::<MetadataModel, ErrView>(md@) && (
            (forall|i: int| 0 <= i < parts@.len() ==> part_wf(#[trigger] part_views(parts@)[i]))
                ==> md@.wf()),
            Err(e) => spec_combine(part_views(parts@)) == Err::<MetadataModel, ErrView>(e@),
        },
        r is Err <==> (exists|i: int| 0 <= i < parts@.len() && (#[trigger] parts@[i]) is Err),
{
    let ghost pv = part_views(parts@);
    let mut acc = Metadata::default();
    let n = parts.len();
    proof {
        assert(pv.take(0) =~= Seq::<Result<MetadataModel, ErrView>>::empty());
        assert(MetadataModel::empty().wf());
    }
    for i in 0..n
        invariant
            n == parts@.len(),
            spec_combine(pv.take(i as int)) == Ok::<MetadataModel, ErrView>(acc@),
            (forall|j: int| 0 <= j < i ==> part_wf(#[trigger] pv[j])) ==> acc@.wf(),
    {
        proof {
            assert(pv.take(i + 1).drop_last() =~= pv.take(i as int));
            assert(pv.take(i + 1).last() == pv[i as int]);
        }
        match &parts[i] {
            Ok(md) => {
                let merged = acc.merge(md);
                proof {
                    if forall|j: int| 0 <= j < i + 1 ==> part_wf(#[trigger] pv[j]) {
                        assert(part_wf(pv[i as int]));
                        crate::metadata::lemma_merge_wf(acc@, md@);
                    }
                }
                acc = merged;
            },
            Err(e) => {
                let out = e.duplicate();
                proof {
                    lemma_combine_err(pv, i + 1);
                    lemma_combine_fail_fast(pv);
                    assert(pv[i as int] is Err);
                    assert(parts@[i as int] is Err);
                }
                return Err(out);
            },
        }
    }
    proof {
        assert(pv.take(n as int) =~= pv);
        lemma_combine_fail_fast(pv);
        assert(forall|i: int|
            0 <= i < parts@.len() ==> ((#[trigger] parts@[i]) is Err == pv[i] is Err));
    }
    Ok(acc)
}

/// An error among the first `k` contributions is the error of the whole.
proof fn lemma_combine_err(rs: Seq<Result<MetadataModel, ErrView>>, k: int)
    requires
        0 <= k <= rs.len(),
        spec_combine(rs.take(k)) is Err,
    ensures
        spec_combine(rs) == spec_combine(rs.take(k)),
    decreases rs.len() - k,
{
    if k < rs.len() {
        assert(rs.take(k + 1).drop_last() =~= rs.take(k));
        lemma_combine_err(rs, k + 1);
    } else {
        assert(rs.take(k) =~= rs);
    }
}

/// What collecting the by-candidate outcomes yields: every record in order,
/// unless some outcome failed — the earliest failure wins.
pub open spec fn spec_collect(rs: Seq<Result<MetadataModel, ErrView>>) -> Result<
    Seq<MetadataModel>,
    ErrView,
>
    decreases rs.len(),
{
    if rs.len() == 0 {
        Ok(Seq::empty())
    } else {
        match rs.first() {
            Err(e) => Err(e),
            Ok(m) => match spec_collect(rs.drop_first()) {
                Err(e) => Err(e),
                Ok(ms) => Ok(seq![m] + ms),
            },
        }
    }
}

/// Collects the by-candidate outcomes, fail fast: all records in order, or
/// the earliest failure.
#[verifier::loop_isolation(false)]
pub fn collect_all(results: Vec<Result<Metadata, ReconError>>) -> (r: Result<
    Vec<Metadata>,
    ReconError,
>)
    ensures
        match r {
            Ok(v) => spec_collect(part_views(results@)) == Ok::<Seq<MetadataModel>, ErrView>(
                record_views(v@),
            ),
            Err(e) => spec_collect(part_views(results@)) == Err::<Seq<MetadataModel>, ErrView>(
                e@,
            ),
        },
{
    let ghost pv = part_views(results@);
    let mut remaining = results;
    let mut out: Vec<Metadata> = Vec::new();
    proof {
        assert(part_views(remaining@) =~= pv);
        assert(record_views(out@) =~= Seq::<MetadataModel>::empty());
    }
    while remaining.len() > 0
        invariant
            spec_collect(pv) == (match spec_collect(part_views(remaining@)) {
                Ok(ms) => Ok::<Seq<MetadataModel>, ErrView>(record_views(out@) + ms),
                Err(e) => Err::<Seq<MetadataModel>, ErrView>(e),
            }),
        decreases remaining.len(),
    {
        let ghost rem0 = remaining@;
        let ghost rv = part_views(remaining@);
        proof {
            assert(rv.len() == rem0.len());
            assert(rv.first() == part_view(remaining@[0]));
            assert(rv.drop_first() =~= part_views(remaining@.drop_first()));
        }
        let p = remaining.remove(0);
        proof {
            assert(remaining@ =~= rem0.drop_first());
            assert(part_views(remaining@) =~= part_views(rem0.drop_first()));
        }
        match p {
            Ok(md) => {
                let ghost out0 = record_views(out@);
                let ghost mv = md@;
                out.push(md);
                proof {
                    assert(record_views(out@) =~= out0.push(mv));
                    match spec_collect(part_views(remaining@)) {
                        Ok(ms) => {
                            assert(out0 + (seq![mv] + ms) =~= (out0.push(mv)) + ms);
                        },
                        Err(_e) => {},
                    }
                }
            },
            Err(e) => {
                proof {
                    assert(spec_collect(rv) == Err::<Seq<MetadataModel>, ErrView>(e@));
                }
                return Err(e);
            },
        }
    }
    proof {
        assert(part_views(remaining@) =~= Seq::<Result<MetadataModel, ErrView>>::empty());
        assert(record_views(out@) + Seq::<MetadataModel>::empty() =~= record_views(out@));
    }
    Ok(out)
}

/// The request URL a provider answers a by-identifier lookup on; providers
/// without a decoder are refused.
pub fn source_isbn_url(source: &Source, isbn: &Isbn) -> (r: Result<String, ReconError>)
    ensures
        match r {
            Ok(u) => match source {
                Source::GoogleBooks => u@ == crate::google_books::spec_isbn_url(isbn@),
                Source::OpenLibrary => u@ == crate::open_library::spec_isbn_url(isbn@),
                _ => false,
            },
            Err(e) => (source is Goodreads || source is Amazon) && e@
                == ErrView::UnsupportedProvider(*source),
        },
{
    match source {
        Source::GoogleBooks => Ok(crate::google_books::isbn_url(isbn)),
        Source::OpenLibrary => Ok(crate::open_library::isbn_url(isbn)),
        Source::Goodreads => Err(ReconError::UnsupportedProvider(Source::Goodreads)),
        Source::Amazon => Err(ReconError::UnsupportedProvider(Source::Amazon)),
    }
}

/// The request URL a provider answers a free-text search on; providers
/// without a search decoder are refused.
pub fn source_search_url(source: &Source, query: &str) -> (r: Result<String, ReconError>)
    ensures
        match r {
            Ok(u) => match source {
                Source::GoogleBooks => u@ == crate::google_books::spec_search_url(query@),
                Source::OpenLibrary => u@ == crate::open_library::spec_search_url(query@),
                _ => false,
            },
            Err(e) => (source is Goodreads || source is Amazon) && e@
                == ErrView::UnsupportedProvider(*source),
        },
{
    match source {
        Source::GoogleBooks => Ok(crate::google_books::search_url(query)),
        Source::OpenLibrary => Ok(crate::open_library::search_url(query)),
        Source::Goodreads => Err(ReconError::UnsupportedProvider(Source::Goodreads)),
        Source::Amazon => Err(ReconError::UnsupportedProvider(Source::Amazon)),
    }
}

/// Decodes one provider's by-identifier response body.
pub fn decode_isbn_response(source: &Source, body: &str) -> (r: Result<Metadata, ReconError>)
    ensures
        match source {
            Source::GoogleBooks => (match r {
                Ok(md) => crate::google_books::spec_from_isbn_response(body@) == Ok::<
                    MetadataModel,
                    ErrView,
                >(md@) && md@.wf(),
                Err(e) => crate::google_books::spec_from_isbn_response(body@) == Err::<
                    MetadataModel,
                    ErrView,
                >(e@),
            }),
            Source::OpenLibrary => (match r {
                Ok(md) => crate::open_library::spec_from_isbn_response(body@) == Ok::<
                    MetadataModel,
                    ErrView,
                >(md@) && md@.wf(),
                Err(e) => crate::open_library::spec_from_isbn_response(body@) == Err::<
                    MetadataModel,
                    ErrView,
                >(e@),
            }),
            _ => r is Err && r->Err_0@ == ErrView::UnsupportedProvider(*source),
        },
{
    match source {
        Source::GoogleBooks => crate::google_books::from_isbn_response(body),
        Source::OpenLibrary => crate::open_library::from_isbn_response(body),
        Source::Goodreads => Err(ReconError::UnsupportedProvider(Source::Goodreads)),
        Source::Amazon => Err(ReconError::UnsupportedProvider(Source::Amazon)),
    }
}

/// Decodes one provider's search response body into candidate identifiers.
pub fn decode_search_response(source: &Source, body: &str) -> (r: Result<Vec<Isbn>, ReconError>)
    ensures
        match source {
            Source::GoogleBooks => (match r {
                Ok(v) => crate::google_books::spec_search_response(body@) == Ok::<
                    Seq<IsbnView>,
                    ErrView,
                >(crate::isbn::isbn_list_views(v@)) && v@.len() <= 3 && (forall|i: int|
                    0 <= i < v@.len() ==> (#[trigger] v@[i]@).wf()),
                Err(e) => crate::google_books::spec_search_response(body@) == Err::<
                    Seq<IsbnView>,
                    ErrView,
                >(e@),
            }),
            Source::OpenLibrary => (match r {
                Ok(v) => crate::open_library::spec_search_response(body@) == Ok::<
                    Seq<IsbnView>,
                    ErrView,
                >(crate::isbn::isbn_list_views(v@)) && v@.len() <= 3 && (forall|i: int|
                    0 <= i < v@.len() ==> (#[trigger] v@[i]@).wf()),
                Err(e) => crate::open_library::spec_search_response(body@) == Err::<
                    Seq<IsbnView>,
                    ErrView,
                >(e@),
            }),
            _ => r is Err && r->Err_0@ == ErrView::UnsupportedProvider(*source),
        },
{
    match source {
        Source::GoogleBooks => crate::google_books::search_isbns(body),
        Source::OpenLibrary => crate::open_library::search_isbns(body),
        Source::Goodreads => Err(ReconError::UnsupportedProvider(Source::Goodreads)),
        Source::Amazon => Err(ReconError::UnsupportedProvider(Source::Amazon)),
    }
}

} // verus!
