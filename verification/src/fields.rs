//! Field extraction shared by the provider decoders.
//!
//! Each helper reads one named member of a decoded JSON object and enforces
//! its expected shape.  A missing required member is a
//! [`ReconError::MissingField`]; a present member of the wrong shape is a
//! [`ReconError::JSONParse`] naming the member.

use vstd::prelude::*;

use crate::json::jnum;
use crate::json::jstr;
use crate::json::member_views;
use crate::json::spec_lookup;
use crate::json::str_list;
use crate::json::str_map;
use crate::json::str_map_list;
use crate::json::Json;
use crate::json::JsonView;
use crate::recon::ErrView;
use crate::recon::ReconError;

verus! {

/// A required string member.
pub open spec fn req_str_field(m: Seq<(Seq<char>, JsonView)>, k: Seq<char>) -> Result<
    Seq<char>,
    ErrView,
> {
    match spec_lookup(m, k) {
        None => Err(ErrView::MissingField(k)),
        Some(v) => match jstr(v) {
            None => Err(ErrView::JSONParse(k)),
            Some(s) => Ok(s),
        },
    }
}

/// An optional string member.
pub open spec fn opt_str_field(m: Seq<(Seq<char>, JsonView)>, k: Seq<char>) -> Result<
    Option<Seq<char>>,
    ErrView,
> {
    match spec_lookup(m, k) {
        None => Ok(None),
        Some(v) => match jstr(v) {
            None => Err(ErrView::JSONParse(k)),
            Some(s) => Ok(Some(s)),
        },
    }
}

/// An optional array-of-strings member; absent means empty.
pub open spec fn opt_str_list_field(m: Seq<(Seq<char>, JsonView)>, k: Seq<char>) -> Result<
    Seq<Seq<char>>,
    ErrView,
> {
    match spec_lookup(m, k) {
        None => Ok(Seq::empty()),
        Some(v) => match str_list(v) {
            None => Err(ErrView::JSONParse(k)),
            Some(l) => Ok(l),
        },
    }
}

/// An optional all-string-object member; absent means empty.
pub open spec fn opt_str_map_field(m: Seq<(Seq<char>, JsonView)>, k: Seq<char>) -> Result<
    Seq<(Seq<char>, Seq<char>)>,
    ErrView,
> {
    match spec_lookup(m, k) {
        None => Ok(Seq::empty()),
        Some(v) => match str_map(v) {
            None => Err(ErrView::JSONParse(k)),
            Some(mm) => Ok(mm),
        },
    }
}

/// A required array-of-string-objects member.
pub open spec fn req_str_map_list_field(m: Seq<(Seq<char>, JsonView)>, k: Seq<char>) -> Result<
    Seq<Seq<(Seq<char>, Seq<char>)>>,
    ErrView,
> {
    match spec_lookup(m, k) {
        None => Err(ErrView::MissingField(k)),
        Some(v) => match str_map_list(v) {
            None => Err(ErrView::JSONParse(k)),
            Some(l) => Ok(l),
        },
    }
}

/// An optional array-of-string-objects member; absent means empty.
pub open spec fn opt_str_map_list_field(m: Seq<(Seq<char>, JsonView)>, k: Seq<char>) -> Result<
    Seq<Seq<(Seq<char>, Seq<char>)>>,
    ErrView,
> {
    match spec_lookup(m, k) {
        None => Ok(Seq::empty()),
        Some(v) => match str_map_list(v) {
            None => Err(ErrView::JSONParse(k)),
            Some(l) => Ok(l),
        },
    }
}

/// An optional page-count member: a plain number whose lexeme fits `u16`.
pub open spec fn opt_u16_field(m: Seq<(Seq<char>, JsonView)>, k: Seq<char>) -> Result<
    Option<u16>,
    ErrView,
> {
    match spec_lookup(m, k) {
        None => Ok(None),
        Some(v) => match jnum(v) {
            None => Err(ErrView::JSONParse(k)),
            Some(lex) => match crate::adaptor::lexeme_u16(lex) {
                None => Err(ErrView::JSONParse(k)),
                Some(n) => Ok(Some(n)),
            },
        },
    }
}

/// A required string member, executably.
pub fn get_req_str(m: &Vec<(String, Json)>, k: &str) -> (r: Result<String, ReconError>)
    ensures
        match r {
            Ok(s) => req_str_field(member_views(m@), k@) == Ok::<Seq<char>, ErrView>(s@),
            Err(e) => req_str_field(member_views(m@), k@) == Err::<Seq<char>, ErrView>(e@),
        },
{
    match crate::json::lookup_key(m, k) {
        None => Err(ReconError::MissingField(k.to_owned())),
        Some(v) => match v.as_str_value() {
            None => Err(ReconError::JSONParse(k.to_owned())),
            Some(s) => Ok(s.clone()),
        },
    }
}

/// An optional string member, executably.
pub fn get_opt_str(m: &Vec<(String, Json)>, k: &str) -> (r: Result<Option<String>, ReconError>)
    ensures
        match r {
            Ok(o) => opt_str_field(member_views(m@), k@) == Ok::<Option<Seq<char>>, ErrView>(
                o.deep_view(),
            ),
            Err(e) => opt_str_field(member_views(m@), k@) == Err::<Option<Seq<char>>, ErrView>(
                e@,
            ),
        },
{
    match crate::json::lookup_key(m, k) {
        None => Ok(None),
        Some(v) => match v.as_str_value() {
            None => Err(ReconError::JSONParse(k.to_owned())),
            Some(s) => Ok(Some(s.clone())),
        },
    }
}

/// An optional array-of-strings member, executably; absent means empty.
pub fn get_opt_str_list(m: &Vec<(String, Json)>, k: &str) -> (r: Result<Vec<String>, ReconError>)
    ensures
        match r {
            Ok(l) => opt_str_list_field(member_views(m@), k@) == Ok::<Seq<Seq<char>>, ErrView>(
                l.deep_view(),
            ),
            Err(e) => opt_str_list_field(member_views(m@), k@) == Err::<Seq<Seq<char>>, ErrView>(
                e@,
            ),
        },
{
    match crate::json::lookup_key(m, k) {
        None => {
            let l: Vec<String> = Vec::new();
            proof {
                assert(l.deep_view() =~= Seq::<Seq<char>>::empty());
            }
            Ok(l)
        },
        Some(v) => match crate::json::to_str_list(v) {
            None => Err(ReconError::JSONParse(k.to_owned())),
            Some(l) => Ok(l),
        },
    }
}

/// An optional all-string-object member, executably; absent means empty.
pub fn get_opt_str_map(m: &Vec<(String, Json)>, k: &str) -> (r: Result<
    Vec<(String, String)>,
    ReconError,
>)
    ensures
        match r {
            Ok(mm) => opt_str_map_field(member_views(m@), k@) == Ok::<
                Seq<(Seq<char>, Seq<char>)>,
                ErrView,
            >(mm.deep_view()),
            Err(e) => opt_str_map_field(member_views(m@), k@) == Err::<
                Seq<(Seq<char>, Seq<char>)>,
                ErrView,
            >(e@),
        },
{
    match crate::json::lookup_key(m, k) {
        None => {
            let mm: Vec<(String, String)> = Vec::new();
            proof {
                assert(mm.deep_view() =~= Seq::<(Seq<char>, Seq<char>)>::empty());
            }
            Ok(mm)
        },
        Some(v) => match crate::json::to_str_map(v) {
            None => Err(ReconError::JSONParse(k.to_owned())),
            Some(mm) => Ok(mm),
        },
    }
}

/// A required array-of-string-objects member, executably.
pub fn get_req_str_map_list(m: &Vec<(String, Json)>, k: &str) -> (r: Result<
    Vec<Vec<(String, String)>>,
    ReconError,
>)
    ensures
        match r {
            Ok(l) => req_str_map_list_field(member_views(m@), k@) == Ok::<
                Seq<Seq<(Seq<char>, Seq<char>)>>,
                ErrView,
            >(l.deep_view()),
            Err(e) => req_str_map_list_field(member_views(m@), k@) == Err::<
                Seq<Seq<(Seq<char>, Seq<char>)>>,
                ErrView,
            >(e@),
        },
{
    match crate::json::lookup_key(m, k) {
        None => Err(ReconError::MissingField(k.to_owned())),
        Some(v) => match crate::json::to_str_map_list(v) {
            None => Err(ReconError::JSONParse(k.to_owned())),
            Some(l) => Ok(l),
        },
    }
}

/// An optional array-of-string-objects member, executably; absent means empty.
pub fn get_opt_str_map_list(m: &Vec<(String, Json)>, k: &str) -> (r: Result<
    Vec<Vec<(String, String)>>,
    ReconError,
>)
    ensures
        match r {
            Ok(l) => opt_str_map_list_field(member_views(m@), k@) == Ok::<
                Seq<Seq<(Seq<char>, Seq<char>)>>,
                ErrView,
            >(l.deep_view()),
            Err(e) => opt_str_map_list_field(member_views(m@), k@) == Err::<
                Seq<Seq<(Seq<char>, Seq<char>)>>,
                ErrView,
            >(e@),
        },
{
    match crate::json::lookup_key(m, k) {
        None => {
            let l: Vec<Vec<(String, String)>> = Vec::new();
            proof {
                assert(l.deep_view() =~= Seq::<Seq<(Seq<char>, Seq<char>)>>::empty());
            }
            Ok(l)
        },
        Some(v) => match crate::json::to_str_map_list(v) {
            None => Err(ReconError::JSONParse(k.to_owned())),
            Some(l) => Ok(l),
        },
    }
}

/// An optional page-count member, executably.
pub fn get_opt_u16(m: &Vec<(String, Json)>, k: &str) -> (r: Result<Option<u16>, ReconError>)
    ensures
        match r {
            Ok(o) => opt_u16_field(member_views(m@), k@) == Ok::<Option<u16>, ErrView>(o),
            Err(e) => opt_u16_field(member_views(m@), k@) == Err::<Option<u16>, ErrView>(e@),
        },
{
    match crate::json::lookup_key(m, k) {
        None => Ok(None),
        Some(v) => match v.as_num_lexeme() {
            None => Err(ReconError::JSONParse(k.to_owned())),
            Some(lex) => match crate::adaptor::adapt_page_count(lex.as_str()) {
                None => Err(ReconError::JSONParse(k.to_owned())),
                Some(n) => Ok(Some(n)),
            },
        },
    }
}

/// The values at `k`, one per map that has the key, executably.
#[verifier::loop_isolation(false)]
pub fn extract_field_strings(maps: &Vec<Vec<(String, String)>>, key: &str) -> (r: Vec<String>)
    ensures
        r.deep_view() == crate::adaptor::field_values(maps.deep_view(), key@),
{
    let mut out: Vec<String> = Vec::new();
    let n = maps.len();
    proof {
        assert(crate::adaptor::field_values(maps.deep_view().take(0), key@) =~= Seq::<
            Seq<char>,
        >::empty());
        assert(out.deep_view() =~= Seq::<Seq<char>>::empty());
    }
    for i in 0..n
        invariant
            out.deep_view() == crate::adaptor::field_values(maps.deep_view().take(i as int), key@),
    {
        proof {
            assert(maps.deep_view().take(i + 1).drop_last() =~= maps.deep_view().take(i as int));
            assert(maps.deep_view().take(i + 1).last() == maps.deep_view()[i as int]);
            assert(maps.deep_view()[i as int] == maps@[i as int].deep_view());
        }
        match crate::adaptor::assoc_lookup(&maps[i], key) {
            Some(v) => {
                let ghost out0 = out.deep_view();
                out.push(v.clone());
                proof {
                    assert(out.deep_view() =~= out0.push(v@));
                    assert(crate::adaptor::field_values(maps.deep_view().take(i + 1), key@)
                        =~= out0.push(v@));
                }
            },
            None => {
                proof {
                    assert(crate::adaptor::field_values(maps.deep_view().take(i + 1), key@)
                        =~= out.deep_view());
                }
            },
        }
    }
    proof {
        assert(maps.deep_view().take(n as int) =~= maps.deep_view());
    }
    out
}

} // verus!
