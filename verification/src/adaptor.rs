//! Field adaptors: one piece of decoded JSON becomes one outcome collection.
//!
//! Each adaptor takes an already-shaped value — a string, an array of
//! strings, a list of string maps — and produces the deduplicated collection
//! of per-item outcomes that a record field holds.  Absent optional input
//! gives an empty collection; a raw value that fails to parse becomes a
//! retained `Err` item, never a dropped one.

use vstd::prelude::*;

use crate::base;
use crate::base::dedup;
use crate::base::gen_views;
use crate::base::isbn_views;
use crate::base::lemma_dedup_contains;
use crate::base::num_views;
use crate::date::spec_parse_date;
use crate::isbn::spec_parse_isbn;
use crate::json::is_ws;
use crate::json::skip_ws;
use crate::recon::ErrView;
use crate::recon::ReconError;
use crate::strutil::digit_run;
use crate::strutil::digit_run_len;
use crate::strutil::lower_char;
use crate::strutil::run_val;
use crate::strutil::run_value;

verus! {

broadcast use {vstd::seq::group_seq_axioms, vstd::std_specs::vec::group_vec_axioms};

/// Each string as a successful outcome.
pub open spec fn ok_str_entries(ss: Seq<Seq<char>>) -> Seq<Result<Seq<char>, ErrView>> {
    ss.map_values(|s: Seq<char>| Ok(s))
}

/// What one raw identifier string becomes: the parsed identifier, or the
/// retained failure carrying the raw string.
pub open spec fn isbn_entry_of(s: Seq<char>) -> Result<crate::isbn::IsbnView, ErrView> {
    match spec_parse_isbn(s) {
        Some(v) => Ok(v),
        None => Err(ErrView::ISBNParse(s)),
    }
}

/// What one raw date string becomes: the first-format match, or the
/// retained failure carrying the raw string.
pub open spec fn date_entry_of(s: Seq<char>) -> Result<crate::date::Date, ErrView> {
    match spec_parse_date(s) {
        Some(d) => Ok(d),
        None => Err(ErrView::DateParse(s)),
    }
}

/// The value at the first occurrence of `k` in a string map.
pub open spec fn assoc_first(m: Seq<(Seq<char>, Seq<char>)>, k: Seq<char>) -> Option<Seq<char>>
    decreases m.len(),
{
    if m.len() == 0 {
        None
    } else if m.first().0 == k {
        Some(m.first().1)
    } else {
        assoc_first(m.drop_first(), k)
    }
}

/// The values found at `k`, one per map that has the key.
pub open spec fn field_values(ms: Seq<Seq<(Seq<char>, Seq<char>)>>, k: Seq<char>) -> Seq<Seq<char>>
    decreases ms.len(),
{
    if ms.len() == 0 {
        Seq::empty()
    } else {
        field_values(ms.drop_last(), k) + (match assoc_first(ms.last(), k) {
            Some(v) => seq![v],
            None => Seq::empty(),
        })
    }
}

/// The first position at or after `i` that holds a comma.
pub open spec fn find_comma(s: Seq<char>, i: int) -> int
    decreases s.len() - i,
{
    if 0 <= i && i < s.len() && s[i] != ',' {
        find_comma(s, i + 1)
    } else {
        i
    }
}

/// Where the trailing whitespace begins.
pub open spec fn trim_end_idx(s: Seq<char>) -> int
    decreases s.len(),
{
    if s.len() > 0 && is_ws(s.last()) {
        trim_end_idx(s.drop_last())
    } else {
        s.len() as int
    }
}

proof fn lemma_trim_end_le(s: Seq<char>)
    ensures
        0 <= trim_end_idx(s) <= s.len(),
    decreases s.len(),
{
    if s.len() > 0 && is_ws(s.last()) {
        lemma_trim_end_le(s.drop_last());
    }
}

/// The piece with its leading and trailing whitespace dropped.
pub open spec fn trim_seq(s: Seq<char>) -> Seq<char> {
    let a = skip_ws(s, 0);
    let b = trim_end_idx(s);
    if 0 <= a <= b <= s.len() {
        s.subrange(a, b)
    } else {
        Seq::empty()
    }
}

/// The slug form of one piece: trimmed, lower cased, spaces hyphenated.
pub open spec fn slug(s: Seq<char>) -> Seq<char> {
    trim_seq(s).map_values(|c: char| (if lower_char(c) == ' ' {
        '-'
    } else {
        lower_char(c)
    }))
}

/// The comma-separated pieces from position `i` on.
pub open spec fn split_from(s: Seq<char>, i: int) -> Seq<Seq<char>>
    decreases s.len() - i,
{
    if !(0 <= i && i <= s.len()) {
        Seq::empty()
    } else {
        let j = find_comma(s, i);
        if !(i <= j && j < s.len()) {
            seq![s.subrange(i, s.len() as int)]
        } else {
            seq![s.subrange(i, j)] + split_from(s, j + 1)
        }
    }
}

/// The slug forms of the comma-separated pieces of one value.
pub open spec fn slug_pieces(s: Seq<char>) -> Seq<Seq<char>> {
    split_from(s, 0).map_values(|p: Seq<char>| slug(p))
}

/// The slugs of every piece of every value found at `k`.
pub open spec fn split_field_values(ms: Seq<Seq<(Seq<char>, Seq<char>)>>, k: Seq<char>) -> Seq<
    Seq<char>,
>
    decreases ms.len(),
{
    if ms.len() == 0 {
        Seq::empty()
    } else {
        split_field_values(ms.drop_last(), k) + (match assoc_first(ms.last(), k) {
            Some(v) => slug_pieces(v),
            None => Seq::empty(),
        })
    }
}

/// A number lexeme as a page count: at most five digits, value at most
/// `u16::MAX`, nothing else.
pub open spec fn lexeme_u16(s: Seq<char>) -> Option<u16> {
    if 1 <= s.len() <= 5 && digit_run_len(s, 0) == s.len() && run_value(s, 0, s.len() as int)
        <= 65535 {
        Some(run_value(s, 0, s.len() as int) as u16)
    } else {
        None
    }
}

/// An absent optional string gives an empty collection; a present one gives
/// the single successful outcome.
pub fn adapt_scalar_string(input: Option<String>) -> (r: Vec<base::Generic>)
    ensures
        gen_views(r@) == (match input {
            None => Seq::<Result<Seq<char>, ErrView>>::empty(),
            Some(s) => seq![Ok::<Seq<char>, ErrView>(s@)],
        }),
{
    let mut out: Vec<base::Generic> = Vec::new();
    match input {
        None => {
            proof {
                assert(gen_views(out@) =~= Seq::<Result<Seq<char>, ErrView>>::empty());
            }
        },
        Some(s) => {
            let ghost sv = s@;
            out.push(Ok(s));
            proof {
                assert(gen_views(out@) =~= seq![Ok::<Seq<char>, ErrView>(sv)]);
            }
        },
    }
    out
}

/// An absent optional number gives an empty collection; a present one gives
/// the single successful outcome.
pub fn adapt_number(input: Option<u16>) -> (r: Vec<base::Numeric>)
    ensures
        num_views(r@) == (match input {
            None => Seq::<Result<u16, ErrView>>::empty(),
            Some(n) => seq![Ok::<u16, ErrView>(n)],
        }),
{
    let mut out: Vec<base::Numeric> = Vec::new();
    match input {
        None => {
            proof {
                assert(num_views(out@) =~= Seq::<Result<u16, ErrView>>::empty());
            }
        },
        Some(n) => {
            out.push(Ok(n));
            proof {
                assert(num_views(out@) =~= seq![Ok::<u16, ErrView>(n)]);
            }
        },
    }
    out
}

/// Every element becomes a successful outcome; duplicates are dropped.
#[verifier::loop_isolation(false)]
pub fn adapt_string_array(input: Vec<String>) -> (r: Vec<base::Generic>)
    ensures
        gen_views(r@) == dedup(ok_str_entries(input.deep_view())),
{
    let ghost entries = ok_str_entries(input.deep_view());
    let mut out: Vec<base::Generic> = Vec::new();
    let n = input.len();
    proof {
        assert(entries.take(0) =~= Seq::<Result<Seq<char>, ErrView>>::empty());
    }
    for i in 0..n
        invariant
            gen_views(out@) == dedup(entries.take(i as int)),
    {
        proof {
            assert(entries.take(i + 1).drop_last() =~= entries.take(i as int));
            assert(entries.take(i + 1).last() == Ok::<Seq<char>, ErrView>(
                input.deep_view()[i as int],
            ));
            lemma_dedup_contains(entries.take(i as int), entries[i as int]);
        }
        base::gen_push_unique(&mut out, Ok(input[i].clone()));
    }
    proof {
        assert(entries.take(n as int) =~= entries);
    }
    out
}

/// Every map value becomes a successful outcome; duplicates are dropped.
#[verifier::loop_isolation(false)]
pub fn adapt_object_values(map: &Vec<(String, String)>) -> (r: Vec<base::Generic>)
    ensures
        gen_views(r@) == dedup(
            ok_str_entries(map.deep_view().map_values(|p: (Seq<char>, Seq<char>)| p.1)),
        ),
{
    let ghost entries = ok_str_entries(
        map.deep_view().map_values(|p: (Seq<char>, Seq<char>)| p.1),
    );
    let mut out: Vec<base::Generic> = Vec::new();
    let n = map.len();
    proof {
        assert(entries.take(0) =~= Seq::<Result<Seq<char>, ErrView>>::empty());
    }
    for i in 0..n
        invariant
            gen_views(out@) == dedup(entries.take(i as int)),
    {
        proof {
            assert(entries.take(i + 1).drop_last() =~= entries.take(i as int));
            assert(entries.take(i + 1).last() == Ok::<Seq<char>, ErrView>(
                map.deep_view()[i as int].1,
            ));
            lemma_dedup_contains(entries.take(i as int), entries[i as int]);
        }
        base::gen_push_unique(&mut out, Ok(map[i].1.clone()));
    }
    proof {
        assert(entries.take(n as int) =~= entries);
    }
    out
}

/// Every raw string is parsed as an identifier; failures are retained as
/// `Err` items, and duplicates are dropped.
#[verifier::loop_isolation(false)]
pub fn adapt_identifier_list(input: Vec<String>) -> (r: Vec<base::ISBN>)
    ensures
        isbn_views(r@) == dedup(
            input.deep_view().map_values(|s: Seq<char>| isbn_entry_of(s)),
        ),
{
    let ghost entries = input.deep_view().map_values(|s: Seq<char>| isbn_entry_of(s));
    let mut out: Vec<base::ISBN> = Vec::new();
    let n = input.len();
    proof {
        assert(entries.take(0) =~= Seq::<Result<crate::isbn::IsbnView, ErrView>>::empty());
    }
    for i in 0..n
        invariant
            isbn_views(out@) == dedup(entries.take(i as int)),
    {
        let e: base::ISBN = match crate::isbn::Isbn::parse(input[i].as_str()) {
            Ok(id) => Ok(id),
            Err(x) => Err(x),
        };
        proof {
            assert(entries.take(i + 1).drop_last() =~= entries.take(i as int));
            assert(entries.take(i + 1).last() == isbn_entry_of(input.deep_view()[i as int]));
            assert(base::isbn_view(e) == isbn_entry_of(input.deep_view()[i as int]));
            lemma_dedup_contains(entries.take(i as int), entries[i as int]);
        }
        base::isbn_push_unique(&mut out, e);
    }
    proof {
        assert(entries.take(n as int) =~= entries);
    }
    out
}

/// An absent optional date string gives nothing; a present one gives the
/// parsed date under the format priority, or the retained failure.
pub fn adapt_date(input: Option<&str>) -> (r: Option<base::Date>)
    ensures
        match (input, r) {
            (None, None) => true,
            (Some(s), Some(e)) => base::date_view(e) == date_entry_of(s@),
            _ => false,
        },
{
    match input {
        None => None,
        Some(s) => match crate::date::parse_date(s) {
            Some(d) => Some(Ok(d)),
            None => Some(Err(ReconError::DateParse(s.to_owned()))),
        },
    }
}

/// A number lexeme as a page count, executably.
pub fn adapt_page_count(lex: &str) -> (r: Option<u16>)
    ensures
        r == lexeme_u16(lex@),
{
    let chars = crate::strutil::str_to_chars(lex);
    let n = chars.len();
    if n < 1 || n > 5 {
        return None;
    }
    if digit_run(&chars, 0) != n {
        return None;
    }
    let v = run_val(&chars, 0, n);
    if v <= 65535 {
        Some(v as u16)
    } else {
        None
    }
}

/// The value at the first occurrence of `k`, executably.
#[verifier::loop_isolation(false)]
pub fn assoc_lookup<'a>(m: &'a Vec<(String, String)>, k: &str) -> (r: Option<&'a String>)
    ensures
        match r {
            Some(v) => assoc_first(m.deep_view(), k@) == Some(v@),
            None => assoc_first(m.deep_view(), k@) is None,
        },
{
    proof {
        assert(m.deep_view().skip(0) =~= m.deep_view());
    }
    let n = m.len();
    for i in 0..n
        invariant
            assoc_first(m.deep_view(), k@) == assoc_first(m.deep_view().skip(i as int), k@),
    {
        proof {
            assert(m.deep_view().skip(i as int).first() == m.deep_view()[i as int]);
            assert(m.deep_view().skip(i as int).drop_first() =~= m.deep_view().skip(i + 1));
        }
        if crate::strutil::str_eq(m[i].0.as_str(), k) {
            return Some(&m[i].1);
        }
    }
    None
}

/// For each map, the value at `k` becomes a successful outcome; maps
/// without the key are skipped, and duplicates are dropped.
#[verifier::loop_isolation(false)]
pub fn adapt_object_field_list(maps: &Vec<Vec<(String, String)>>, key: &str) -> (r: Vec<
    base::Generic,
>)
    ensures
        gen_views(r@) == dedup(ok_str_entries(field_values(maps.deep_view(), key@))),
{
    let mut out: Vec<base::Generic> = Vec::new();
    let n = maps.len();
    proof {
        assert(ok_str_entries(field_values(maps.deep_view().take(0), key@)) =~= Seq::<
            Result<Seq<char>, ErrView>,
        >::empty());
    }
    for i in 0..n
        invariant
            gen_views(out@) == dedup(
                ok_str_entries(field_values(maps.deep_view().take(i as int), key@)),
            ),
    {
        let ghost prev = ok_str_entries(field_values(maps.deep_view().take(i as int), key@));
        proof {
            assert(maps.deep_view().take(i + 1).drop_last() =~= maps.deep_view().take(i as int));
            assert(maps.deep_view().take(i + 1).last() == maps.deep_view()[i as int]);
            assert(maps.deep_view()[i as int] == maps@[i as int].deep_view());
        }
        match assoc_lookup(&maps[i], key) {
            Some(v) => {
                let ghost x = Ok::<Seq<char>, ErrView>(v@);
                proof {
                    assert(field_values(maps.deep_view().take(i + 1), key@) =~= field_values(
                        maps.deep_view().take(i as int),
                        key@,
                    ) + seq![v@]);
                    assert(ok_str_entries(field_values(maps.deep_view().take(i + 1), key@)) =~= (
                    prev + seq![x]));
                    assert((prev + seq![x]).drop_last() =~= prev);
                    assert((prev + seq![x]).last() == x);
                    lemma_dedup_contains(prev, x);
                }
                base::gen_push_unique(&mut out, Ok(v.clone()));
            },
            None => {
                proof {
                    assert(field_values(maps.deep_view().take(i + 1), key@) =~= field_values(
                        maps.deep_view().take(i as int),
                        key@,
                    ));
                }
            },
        }
    }
    proof {
        assert(maps.deep_view().take(n as int) =~= maps.deep_view());
    }
    out
}

/// The first comma at or after `i`, executably.
#[verifier::loop_isolation(false)]
fn find_comma_exec(chars: &Vec<char>, i: usize) -> (r: usize)
    requires
        i <= chars@.len(),
    ensures
        r as int == find_comma(chars@, i as int),
        i <= r <= chars@.len(),
{
    let n = chars.len();
    let mut j = i;
    while j < n && chars[j] != ','
        invariant
            i <= j <= n,
            find_comma(chars@, i as int) == find_comma(chars@, j as int),
        decreases n - j,
    {
        j += 1;
    }
    j
}

/// The slug form of the piece between `i` and `j`, executably.
#[verifier::loop_isolation(false)]
fn slug_exec(chars: &Vec<char>, i: usize, j: usize) -> (r: String)
    requires
        i <= j <= chars@.len(),
    ensures
        r@ == slug(chars@.subrange(i as int, j as int)),
{
    let mut piece: Vec<char> = Vec::new();
    for t in i..j
        invariant
            piece@ == chars@.subrange(i as int, t as int),
    {
        piece.push(chars[t]);
        proof {
            assert(chars@.subrange(i as int, t + 1) =~= chars@.subrange(i as int, t as int).push(
                chars@[t as int],
            ));
        }
    }
    proof {
        assert(piece@ =~= chars@.subrange(i as int, j as int));
    }
    let a = crate::json::skip_whitespace(&piece, 0);
    let mut b = piece.len();
    proof {
        assert(piece@.take(b as int) =~= piece@);
        lemma_trim_end_le(piece@);
    }
    while b > 0 && (piece[b - 1] == ' ' || piece[b - 1] == '\t' || piece[b - 1] == '\n' || piece[b
        - 1] == '\r')
        invariant
            b <= piece@.len(),
            trim_end_idx(piece@) == trim_end_idx(piece@.take(b as int)),
            trim_end_idx(piece@.take(b as int)) <= b,
        decreases b,
    {
        proof {
            assert(piece@.take(b as int).drop_last() =~= piece@.take(b - 1));
            assert(piece@.take(b as int).last() == piece@[b - 1]);
            lemma_trim_end_le(piece@.take(b - 1));
        }
        b -= 1;
    }
    proof {
        if b > 0 {
            assert(piece@.take(b as int).last() == piece@[b - 1]);
            assert(trim_end_idx(piece@.take(b as int)) == b);
        } else {
            assert(piece@.take(0) =~= Seq::<char>::empty());
        }
        assert(trim_end_idx(piece@) == b);
    }
    let mut out: Vec<char> = Vec::new();
    if a <= b {
        for t in a..b
            invariant
                a <= b <= piece@.len(),
                a as int == skip_ws(piece@, 0),
                b as int == trim_end_idx(piece@),
                out@.len() == t - a,
                forall|t2: int|
                    0 <= t2 < t - a ==> #[trigger] out@[t2] == slug(
                        chars@.subrange(i as int, j as int),
                    )[t2],
        {
            let c = crate::strutil::lower(piece[t]);
            if c == ' ' {
                out.push('-');
            } else {
                out.push(c);
            }
            proof {
                assert(trim_seq(piece@)[t - a] == piece@[t as int]);
            }
        }
    }
    proof {
        assert(out@ =~= slug(chars@.subrange(i as int, j as int)));
    }
    crate::strutil::chars_to_string(&out)
}

/// The slug forms of the comma-separated pieces of one value, executably.
#[verifier::loop_isolation(false)]
fn split_slugs(v: &str) -> (r: Vec<String>)
    ensures
        r.deep_view() == slug_pieces(v@),
{
    let chars = crate::strutil::str_to_chars(v);
    let n = chars.len();
    let mut out: Vec<String> = Vec::new();
    let mut i: usize = 0;
    loop
        invariant
            i <= n,
            n == chars@.len(),
            chars@ == v@,
            slug_pieces(v@) == out.deep_view() + split_from(chars@, i as int).map_values(
                |p: Seq<char>| slug(p),
            ),
        decreases n - i,
    {
        let j = find_comma_exec(&chars, i);
        let piece = slug_exec(&chars, i, j);
        let ghost out0 = out.deep_view();
        out.push(piece);
        proof {
            assert(out.deep_view() =~= out0.push(slug(chars@.subrange(i as int, j as int))));
        }
        if j >= n {
            proof {
                assert(split_from(chars@, i as int) =~= seq![
                    chars@.subrange(i as int, n as int),
                ]);
                assert(split_from(chars@, i as int).map_values(|p: Seq<char>| slug(p)) =~= seq![
                    slug(chars@.subrange(i as int, n as int)),
                ]);
                assert(out.deep_view() =~= slug_pieces(v@));
            }
            return out;
        }
        proof {
            assert(split_from(chars@, i as int) =~= seq![chars@.subrange(i as int, j as int)]
                + split_from(chars@, j + 1));
            assert(split_from(chars@, i as int).map_values(|p: Seq<char>| slug(p)) =~= seq![
                slug(chars@.subrange(i as int, j as int)),
            ] + split_from(chars@, j + 1).map_values(|p: Seq<char>| slug(p)));
            assert(out.deep_view() + split_from(chars@, j + 1).map_values(|p: Seq<char>| slug(p))
                =~= out0 + split_from(chars@, i as int).map_values(|p: Seq<char>| slug(p)));
        }
        i = j + 1;
    }
}

/// For each map, the value at `k` is split on commas and each piece slug
/// normalized into a successful outcome; duplicates are dropped.
#[verifier::loop_isolation(false)]
pub fn adapt_object_field_list_split(maps: &Vec<Vec<(String, String)>>, key: &str) -> (r: Vec<
    base::Generic,
>)
    ensures
        gen_views(r@) == dedup(ok_str_entries(split_field_values(maps.deep_view(), key@))),
{
    let mut out: Vec<base::Generic> = Vec::new();
    let n = maps.len();
    proof {
        assert(ok_str_entries(split_field_values(maps.deep_view().take(0), key@)) =~= Seq::<
            Result<Seq<char>, ErrView>,
        >::empty());
    }
    for i in 0..n
        invariant
            gen_views(out@) == dedup(
                ok_str_entries(split_field_values(maps.deep_view().take(i as int), key@)),
            ),
    {
        let ghost sofar = split_field_values(maps.deep_view().take(i as int), key@);
        proof {
            assert(maps.deep_view().take(i + 1).drop_last() =~= maps.deep_view().take(i as int));
            assert(maps.deep_view().take(i + 1).last() == maps.deep_view()[i as int]);
            assert(maps.deep_view()[i as int] == maps@[i as int].deep_view());
        }
        match assoc_lookup(&maps[i], key) {
            Some(v) => {
                let pieces = split_slugs(v.as_str());
                let m = pieces.len();
                proof {
                    assert(split_field_values(maps.deep_view().take(i + 1), key@) =~= sofar
                        + slug_pieces(v@));
                    assert(pieces.deep_view().len() == m);
                }
                for t in 0..m
                    invariant
                        gen_views(out@) == dedup(
                            ok_str_entries(sofar + pieces.deep_view().take(t as int)),
                        ),
                {
                    let ghost batch = sofar + pieces.deep_view().take(t as int);
                    let ghost x = Ok::<Seq<char>, ErrView>(pieces.deep_view()[t as int]);
                    proof {
                        assert(sofar + pieces.deep_view().take(t + 1) =~= (sofar
                            + pieces.deep_view().take(t as int)).push(
                            pieces.deep_view()[t as int],
                        ));
                        assert(ok_str_entries((sofar + pieces.deep_view().take(t as int)).push(
                            pieces.deep_view()[t as int],
                        )) =~= ok_str_entries(batch).push(x));
                        assert(ok_str_entries(batch).push(x).drop_last() =~= ok_str_entries(
                            batch,
                        ));
                        lemma_dedup_contains(ok_str_entries(batch), x);
                        assert(pieces.deep_view()[t as int] == pieces@[t as int]@);
                    }
                    base::gen_push_unique(&mut out, Ok(pieces[t].clone()));
                }
                proof {
                    assert(sofar + pieces.deep_view().take(m as int) =~= sofar + slug_pieces(v@));
                }
            },
            None => {
                proof {
                    assert(split_field_values(maps.deep_view().take(i + 1), key@) =~= sofar);
                }
            },
        }
    }
    proof {
        assert(maps.deep_view().take(n as int) =~= maps.deep_view());
    }
    out
}

/// The string with its leading and trailing whitespace dropped, executably.
#[verifier::loop_isolation(false)]
pub fn trim_string(s: &str) -> (r: String)
    ensures
        r@ == trim_seq(s@),
{
    let piece = crate::strutil::str_to_chars(s);
    let a = crate::json::skip_whitespace(&piece, 0);
    let mut b = piece.len();
    proof {
        assert(piece@.take(b as int) =~= piece@);
        lemma_trim_end_le(piece@);
    }
    while b > 0 && (piece[b - 1] == ' ' || piece[b - 1] == '\t' || piece[b - 1] == '\n' || piece[b
        - 1] == '\r')
        invariant
            b <= piece@.len(),
            trim_end_idx(piece@) == trim_end_idx(piece@.take(b as int)),
            trim_end_idx(piece@.take(b as int)) <= b,
        decreases b,
    {
        proof {
            assert(piece@.take(b as int).drop_last() =~= piece@.take(b - 1));
            assert(piece@.take(b as int).last() == piece@[b - 1]);
            lemma_trim_end_le(piece@.take(b - 1));
        }
        b -= 1;
    }
    proof {
        if b > 0 {
            assert(piece@.take(b as int).last() == piece@[b - 1]);
            assert(trim_end_idx(piece@.take(b as int)) == b);
        } else {
            assert(piece@.take(0) =~= Seq::<char>::empty());
        }
        assert(trim_end_idx(piece@) == b);
    }
    let mut out: Vec<char> = Vec::new();
    if a <= b {
        for t in a..b
            invariant
                a <= b <= piece@.len(),
                a as int == skip_ws(piece@, 0),
                b as int == trim_end_idx(piece@),
                out@ == piece@.subrange(a as int, t as int),
        {
            out.push(piece[t]);
            proof {
                assert(piece@.subrange(a as int, t + 1) =~= piece@.subrange(
                    a as int,
                    t as int,
                ).push(piece@[t as int]));
            }
        }
    }
    proof {
        assert(out@ =~= trim_seq(s@));
    }
    crate::strutil::chars_to_string(&out)
}

/// The decimal digits of a string, in order, everything else dropped.
pub open spec fn digits_only(s: Seq<char>) -> Seq<char>
    decreases s.len(),
{
    if s.len() == 0 {
        Seq::empty()
    } else {
        let rest = digits_only(s.drop_last());
        if crate::strutil::is_digit(s.last()) {
            rest.push(s.last())
        } else {
            rest
        }
    }
}

/// The decimal digits of a string, executably.
#[verifier::loop_isolation(false)]
pub fn keep_digits(s: &str) -> (r: String)
    ensures
        r@ == digits_only(s@),
{
    let chars = crate::strutil::str_to_chars(s);
    let mut out: Vec<char> = Vec::new();
    let n = chars.len();
    proof {
        assert(digits_only(chars@.take(0)) =~= Seq::<char>::empty());
    }
    for i in 0..n
        invariant
            out@ == digits_only(chars@.take(i as int)),
    {
        proof {
            assert(chars@.take(i + 1).drop_last() =~= chars@.take(i as int));
            assert(chars@.take(i + 1).last() == chars@[i as int]);
        }
        let c = chars[i];
        if '0' <= c && c <= '9' {
            out.push(c);
        }
    }
    proof {
        assert(chars@.take(n as int) =~= chars@);
    }
    crate::strutil::chars_to_string(&out)
}

} // verus!
