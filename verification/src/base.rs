//! The outcome collections that record fields hold.
//!
//! A field of a record is a collection of per-item outcomes: each element is
//! either a successfully parsed value or the error that one raw value raised.
//! Two outcomes count as the same when their mathematical values are equal —
//! for failures that means the same error kind over the same raw input.  The
//! combination of two collections keeps the left side whole and appends every
//! right-side element whose value the left side does not hold.

use vstd::prelude::*;

use crate::recon::ErrView;
use crate::recon::ReconError;

verus! {

broadcast use {vstd::seq::group_seq_axioms, vstd::set::group_set_axioms};

/// A string-valued outcome.
pub type Generic = Result<String, ReconError>;

/// A page-count outcome.
pub type Numeric = Result<u16, ReconError>;

/// An identifier outcome.
pub type ISBN = Result<crate::isbn::Isbn, ReconError>;

/// A publication-date outcome.
pub type Date = Result<crate::date::Date, ReconError>;

pub type ISBNs = Vec<ISBN>;

pub type Titles = Vec<Generic>;

pub type Authors = Vec<Generic>;

pub type Descriptions = Vec<Generic>;

pub type Publishers = Vec<Generic>;

pub type PublicationDates = Vec<Date>;

pub type Languages = Vec<Generic>;

pub type Tags = Vec<Generic>;

pub type PageCount = Vec<Numeric>;

pub type CoverImages = Vec<Generic>;

/// The mathematical value of a string-valued outcome.
pub open spec fn gen_view(e: Generic) -> Result<Seq<char>, ErrView> {
    match e {
        Ok(s) => Ok(s@),
        Err(x) => Err(x@),
    }
}

/// The mathematical value of a page-count outcome.
pub open spec fn num_view(e: Numeric) -> Result<u16, ErrView> {
    match e {
        Ok(n) => Ok(n),
        Err(x) => Err(x@),
    }
}

/// The mathematical value of an identifier outcome.
pub open spec fn isbn_view(e: ISBN) -> Result<crate::isbn::IsbnView, ErrView> {
    match e {
        Ok(i) => Ok(i@),
        Err(x) => Err(x@),
    }
}

/// The mathematical value of a publication-date outcome.
pub open spec fn date_view(e: Date) -> Result<crate::date::Date, ErrView> {
    match e {
        Ok(d) => Ok(d),
        Err(x) => Err(x@),
    }
}

pub open spec fn gen_views(s: Seq<Generic>) -> Seq<Result<Seq<char>, ErrView>> {
    s.map_values(|e: Generic| gen_view(e))
}

pub open spec fn num_views(s: Seq<Numeric>) -> Seq<Result<u16, ErrView>> {
    s.map_values(|e: Numeric| num_view(e))
}

pub open spec fn isbn_views(s: Seq<ISBN>) -> Seq<Result<crate::isbn::IsbnView, ErrView>> {
    s.map_values(|e: ISBN| isbn_view(e))
}

pub open spec fn date_views(s: Seq<Date>) -> Seq<Result<crate::date::Date, ErrView>> {
    s.map_values(|e: Date| date_view(e))
}

/// The elements of `b` whose value `a` does not hold, in their order in `b`.
pub open spec fn missing_from<A>(a: Seq<A>, b: Seq<A>) -> Seq<A>
    decreases b.len(),
{
    if b.len() == 0 {
        Seq::empty()
    } else {
        let rest = missing_from(a, b.drop_last());
        if a.contains(b.last()) {
            rest
        } else {
            rest.push(b.last())
        }
    }
}

/// The combination of two collections: the left side whole, then whatever
/// the right side adds.
pub open spec fn dedup_concat<A>(a: Seq<A>, b: Seq<A>) -> Seq<A> {
    a + missing_from(a, b)
}

/// A collection with its later duplicates dropped: each value keeps its
/// first occurrence only.
pub open spec fn dedup<A>(s: Seq<A>) -> Seq<A>
    decreases s.len(),
{
    if s.len() == 0 {
        Seq::empty()
    } else {
        let p = dedup(s.drop_last());
        if s.drop_last().contains(s.last()) {
            p
        } else {
            p.push(s.last())
        }
    }
}

/// No value occurs twice.
pub open spec fn distinct<A>(s: Seq<A>) -> bool {
    forall|i: int, j: int| 0 <= i < j < s.len() ==> s[i] != s[j]
}

/// Membership in a pushed collection.
pub proof fn lemma_push_contains<A>(s: Seq<A>, y: A, x: A)
    ensures
        s.push(y).contains(x) <==> (s.contains(x) || x == y),
{
    if s.push(y).contains(x) {
        let i = choose|i: int| 0 <= i < s.push(y).len() && s.push(y)[i] == x;
        if i < s.len() {
            assert(s[i] == x);
        }
    }
    if s.contains(x) {
        let i = choose|i: int| 0 <= i < s.len() && s[i] == x;
        assert(s.push(y)[i] == x);
    }
    if x == y {
        assert(s.push(y)[s.len() as int] == x);
    }
}

/// Membership in a concatenation.
pub proof fn lemma_add_contains<A>(a: Seq<A>, b: Seq<A>, x: A)
    ensures
        (a + b).contains(x) <==> (a.contains(x) || b.contains(x)),
{
    if (a + b).contains(x) {
        let i = choose|i: int| 0 <= i < (a + b).len() && (a + b)[i] == x;
        if i < a.len() {
            assert(a[i] == x);
        } else {
            assert(b[i - a.len()] == x);
        }
    }
    if a.contains(x) {
        let i = choose|i: int| 0 <= i < a.len() && a[i] == x;
        assert((a + b)[i] == x);
    }
    if b.contains(x) {
        let i = choose|i: int| 0 <= i < b.len() && b[i] == x;
        assert((a + b)[a.len() + i] == x);
    }
}

/// Membership with the last element split off.
pub proof fn lemma_unsnoc_contains<A>(s: Seq<A>, x: A)
    requires
        s.len() > 0,
    ensures
        s.contains(x) <==> (s.drop_last().contains(x) || x == s.last()),
{
    assert(s =~= s.drop_last().push(s.last()));
    lemma_push_contains(s.drop_last(), s.last(), x);
}

/// What `missing_from` holds: exactly the right-side values absent on the left.
pub proof fn lemma_missing_from_contains<A>(a: Seq<A>, b: Seq<A>, x: A)
    ensures
        missing_from(a, b).contains(x) <==> (b.contains(x) && !a.contains(x)),
    decreases b.len(),
{
    if b.len() > 0 {
        lemma_missing_from_contains(a, b.drop_last(), x);
        lemma_unsnoc_contains(b, x);
        if !a.contains(b.last()) {
            lemma_push_contains(missing_from(a, b.drop_last()), b.last(), x);
        }
    }
}

/// Combining with an empty left side gives the right side back.
pub proof fn lemma_missing_from_empty_left<A>(b: Seq<A>)
    ensures
        missing_from(Seq::<A>::empty(), b) == b,
    decreases b.len(),
{
    if b.len() > 0 {
        lemma_missing_from_empty_left::<A>(b.drop_last());
        assert(missing_from(Seq::<A>::empty(), b) =~= b);
    }
}

/// When the left side holds every right-side value, nothing is added.
pub proof fn lemma_missing_from_all_present<A>(a: Seq<A>, b: Seq<A>)
    requires
        forall|i: int| 0 <= i < b.len() ==> a.contains(#[trigger] b[i]),
    ensures
        missing_from(a, b) == Seq::<A>::empty(),
    decreases b.len(),
{
    if b.len() > 0 {
        assert(forall|i: int|
            0 <= i < b.drop_last().len() ==> a.contains(#[trigger] b.drop_last()[i]));
        lemma_missing_from_all_present(a, b.drop_last());
        assert(a.contains(b[b.len() - 1]));
    }
}

/// `missing_from` distributes over appending on the right.
pub proof fn lemma_missing_from_add<A>(a: Seq<A>, b1: Seq<A>, b2: Seq<A>)
    ensures
        missing_from(a, b1 + b2) == missing_from(a, b1) + missing_from(a, b2),
    decreases b2.len(),
{
    if b2.len() == 0 {
        assert(b1 + b2 =~= b1);
        assert(missing_from(a, b1) + missing_from(a, b2) =~= missing_from(a, b1));
    } else {
        lemma_missing_from_add(a, b1, b2.drop_last());
        assert((b1 + b2).drop_last() =~= b1 + b2.drop_last());
        assert((b1 + b2).last() == b2.last());
        if a.contains(b2.last()) {
        } else {
            assert(missing_from(a, b1) + missing_from(a, b2.drop_last()).push(b2.last()) =~= (
            missing_from(a, b1) + missing_from(a, b2.drop_last())).push(b2.last()));
        }
    }
}

/// The nested combination on the left equals the nested one on the right.
proof fn lemma_missing_from_nested<A>(a: Seq<A>, b: Seq<A>, c: Seq<A>)
    ensures
        missing_from(a + missing_from(a, b), c) == missing_from(a, missing_from(b, c)),
    decreases c.len(),
{
    if c.len() > 0 {
        lemma_missing_from_nested(a, b, c.drop_last());
        let x = c.last();
        let big = a + missing_from(a, b);
        lemma_missing_from_contains(a, b, x);
        lemma_add_contains(a, missing_from(a, b), x);
        assert(big.contains(x) <==> (a.contains(x) || b.contains(x)));
        let mprev = missing_from(b, c.drop_last());
        if !b.contains(x) {
            assert(missing_from(b, c) == mprev.push(x));
            assert(mprev.push(x).drop_last() =~= mprev);
            assert(mprev.push(x).last() == x);
            if a.contains(x) {
                assert(missing_from(a, missing_from(b, c)) == missing_from(a, mprev));
            } else {
                assert(missing_from(a, missing_from(b, c)) == missing_from(a, mprev).push(x));
            }
        } else {
            assert(missing_from(b, c) == mprev);
        }
    }
}

/// `dedup` keeps exactly the values of its input.
pub proof fn lemma_dedup_contains<A>(s: Seq<A>, x: A)
    ensures
        dedup(s).contains(x) <==> s.contains(x),
    decreases s.len(),
{
    if s.len() > 0 {
        lemma_dedup_contains(s.drop_last(), x);
        lemma_unsnoc_contains(s, x);
        if !s.drop_last().contains(s.last()) {
            lemma_push_contains(dedup(s.drop_last()), s.last(), x);
        }
    }
}

/// `dedup` holds no value twice.
pub proof fn lemma_dedup_distinct<A>(s: Seq<A>)
    ensures
        distinct(dedup(s)),
    decreases s.len(),
{
    if s.len() > 0 {
        lemma_dedup_distinct(s.drop_last());
        if !s.drop_last().contains(s.last()) {
            lemma_dedup_contains(s.drop_last(), s.last());
            let d = dedup(s);
            let p = dedup(s.drop_last());
            assert forall|i: int, j: int| 0 <= i < j < d.len() implies d[i] != d[j] by {
                if j < d.len() - 1 {
                    assert(p[i] == d[i] && p[j] == d[j]);
                } else {
                    assert(d[j] == s.last());
                    assert(p.contains(p[i]));
                }
            }
        }
    }
}

/// Combining with the empty collection on the left gives the right side.
pub proof fn lemma_dedup_concat_empty_left<A>(b: Seq<A>)
    ensures
        dedup_concat(Seq::<A>::empty(), b) == b,
{
    lemma_missing_from_empty_left::<A>(b);
    assert(Seq::<A>::empty() + b =~= b);
}

/// Combining with the empty collection on the right changes nothing.
pub proof fn lemma_dedup_concat_empty_right<A>(a: Seq<A>)
    ensures
        dedup_concat(a, Seq::<A>::empty()) == a,
{
    assert(a + missing_from(a, Seq::<A>::empty()) =~= a);
}

/// Combining a collection with itself changes nothing.
pub proof fn lemma_dedup_concat_self<A>(a: Seq<A>)
    ensures
        dedup_concat(a, a) == a,
{
    assert(forall|i: int| 0 <= i < a.len() ==> a.contains(#[trigger] a[i]));
    lemma_missing_from_all_present(a, a);
    assert(a + missing_from(a, a) =~= a);
}

/// Combination is associative.
pub proof fn lemma_dedup_concat_assoc<A>(a: Seq<A>, b: Seq<A>, c: Seq<A>)
    ensures
        dedup_concat(dedup_concat(a, b), c) == dedup_concat(a, dedup_concat(b, c)),
{
    lemma_missing_from_nested(a, b, c);
    lemma_missing_from_add(a, b, missing_from(b, c));
    assert((a + missing_from(a, b)) + missing_from(a + missing_from(a, b), c) =~= a + (
    missing_from(a, b) + missing_from(a, missing_from(b, c))));
}

/// The combination holds exactly the values of both sides; in particular,
/// combining in either order gives the same set of values.
pub proof fn lemma_dedup_concat_set<A>(a: Seq<A>, b: Seq<A>)
    ensures
        dedup_concat(a, b).to_set() == a.to_set().union(b.to_set()),
{
    assert forall|x: A| #[trigger]
        dedup_concat(a, b).contains(x) <==> (a.contains(x) || b.contains(x)) by {
        lemma_add_contains(a, missing_from(a, b), x);
        lemma_missing_from_contains(a, b, x);
    }
    assert(dedup_concat(a, b).to_set() =~= a.to_set().union(b.to_set()));
}

/// `missing_from` keeps a duplicate-free right side duplicate free.
proof fn lemma_missing_from_distinct<A>(a: Seq<A>, b: Seq<A>)
    requires
        distinct(b),
    ensures
        distinct(missing_from(a, b)),
    decreases b.len(),
{
    if b.len() > 0 {
        assert(distinct(b.drop_last()));
        lemma_missing_from_distinct(a, b.drop_last());
        if !a.contains(b.last()) {
            lemma_missing_from_contains(a, b.drop_last(), b.last());
            if b.drop_last().contains(b.last()) {
                let i = choose|i: int|
                    0 <= i < b.drop_last().len() && b.drop_last()[i] == b.last();
                assert(b[i] == b[b.len() - 1]);
                assert(false);
            }
            let m = missing_from(a, b.drop_last());
            let d = missing_from(a, b);
            assert forall|i: int, j: int| 0 <= i < j < d.len() implies d[i] != d[j] by {
                if j < d.len() - 1 {
                    assert(m[i] == d[i] && m[j] == d[j]);
                } else {
                    assert(d[j] == b.last());
                    assert(m.contains(m[i]));
                }
            }
        }
    }
}

/// Combining duplicate-free collections gives a duplicate-free collection.
pub proof fn lemma_dedup_concat_distinct<A>(a: Seq<A>, b: Seq<A>)
    requires
        distinct(a),
        distinct(b),
    ensures
        distinct(dedup_concat(a, b)),
{
    lemma_missing_from_distinct(a, b);
    let m = missing_from(a, b);
    let d = dedup_concat(a, b);
    assert forall|i: int, j: int| 0 <= i < j < d.len() implies d[i] != d[j] by {
        if i < a.len() && j >= a.len() {
            assert(d[i] == a[i] && d[j] == m[j - a.len()]);
            assert(a.contains(a[i]));
            lemma_missing_from_contains(a, b, m[j - a.len()]);
            assert(m.contains(m[j - a.len()]));
        } else if i >= a.len() {
            assert(d[i] == m[i - a.len()] && d[j] == m[j - a.len()]);
        }
    }
}

/// Value equality of two string-valued outcomes.
pub fn gen_eq(a: &Generic, b: &Generic) -> (r: bool)
    ensures
        r == (gen_view(*a) == gen_view(*b)),
{
    match (a, b) {
        (Ok(x), Ok(y)) => *x == *y,
        (Err(x), Err(y)) => x.eq_view(y),
        _ => false,
    }
}

/// Value equality of two page-count outcomes.
pub fn num_eq(a: &Numeric, b: &Numeric) -> (r: bool)
    ensures
        r == (num_view(*a) == num_view(*b)),
{
    match (a, b) {
        (Ok(x), Ok(y)) => *x == *y,
        (Err(x), Err(y)) => x.eq_view(y),
        _ => false,
    }
}

/// Value equality of two identifier outcomes.
pub fn isbn_eq(a: &ISBN, b: &ISBN) -> (r: bool)
    ensures
        r == (isbn_view(*a) == isbn_view(*b)),
{
    match (a, b) {
        (Ok(x), Ok(y)) => x.eq_view(y),
        (Err(x), Err(y)) => x.eq_view(y),
        _ => false,
    }
}

/// Value equality of two publication-date outcomes.
pub fn date_eq(a: &Date, b: &Date) -> (r: bool)
    ensures
        r == (date_view(*a) == date_view(*b)),
{
    match (a, b) {
        (Ok(x), Ok(y)) => *x == *y,
        (Err(x), Err(y)) => x.eq_view(y),
        _ => false,
    }
}

/// An owned copy of a string-valued outcome with the same value.
pub fn gen_dup(e: &Generic) -> (r: Generic)
    ensures
        gen_view(r) == gen_view(*e),
{
    match e {
        Ok(s) => Ok(s.clone()),
        Err(x) => Err(x.duplicate()),
    }
}

/// An owned copy of a page-count outcome with the same value.
pub fn num_dup(e: &Numeric) -> (r: Numeric)
    ensures
        num_view(r) == num_view(*e),
{
    match e {
        Ok(n) => Ok(*n),
        Err(x) => Err(x.duplicate()),
    }
}

/// An owned copy of an identifier outcome with the same value.
pub fn isbn_dup(e: &ISBN) -> (r: ISBN)
    ensures
        isbn_view(r) == isbn_view(*e),
{
    match e {
        Ok(i) => Ok(i.duplicate()),
        Err(x) => Err(x.duplicate()),
    }
}

/// An owned copy of a publication-date outcome with the same value.
pub fn date_dup(e: &Date) -> (r: Date)
    ensures
        date_view(r) == date_view(*e),
{
    match e {
        Ok(d) => Ok(*d),
        Err(x) => Err(x.duplicate()),
    }
}

/// Whether the collection holds the value of `x`.
pub fn gen_contains(v: &Vec<Generic>, x: &Generic) -> (r: bool)
    ensures
        r == gen_views(v@).contains(gen_view(*x)),
{
    let n = v.len();
    for i in 0..n
        invariant
            n == v@.len(),
            forall|j: int| 0 <= j < i ==> gen_views(v@)[j] != gen_view(*x),
    {
        if gen_eq(&v[i], x) {
            proof {
                assert(gen_views(v@)[i as int] == gen_view(*x));
            }
            return true;
        }
    }
    false
}

/// Whether the collection holds the value of `x`.
pub fn num_contains(v: &Vec<Numeric>, x: &Numeric) -> (r: bool)
    ensures
        r == num_views(v@).contains(num_view(*x)),
{
    let n = v.len();
    for i in 0..n
        invariant
            n == v@.len(),
            forall|j: int| 0 <= j < i ==> num_views(v@)[j] != num_view(*x),
    {
        if num_eq(&v[i], x) {
            proof {
                assert(num_views(v@)[i as int] == num_view(*x));
            }
            return true;
        }
    }
    false
}

/// Whether the collection holds the value of `x`.
pub fn isbn_contains(v: &Vec<ISBN>, x: &ISBN) -> (r: bool)
    ensures
        r == isbn_views(v@).contains(isbn_view(*x)),
{
    let n = v.len();
    for i in 0..n
        invariant
            n == v@.len(),
            forall|j: int| 0 <= j < i ==> isbn_views(v@)[j] != isbn_view(*x),
    {
        if isbn_eq(&v[i], x) {
            proof {
                assert(isbn_views(v@)[i as int] == isbn_view(*x));
            }
            return true;
        }
    }
    false
}

/// Whether the collection holds the value of `x`.
pub fn date_contains(v: &Vec<Date>, x: &Date) -> (r: bool)
    ensures
        r == date_views(v@).contains(date_view(*x)),
{
    let n = v.len();
    for i in 0..n
        invariant
            n == v@.len(),
            forall|j: int| 0 <= j < i ==> date_views(v@)[j] != date_view(*x),
    {
        if date_eq(&v[i], x) {
            proof {
                assert(date_views(v@)[i as int] == date_view(*x));
            }
            return true;
        }
    }
    false
}

/// Appends `e` unless its value is already present.
pub fn gen_push_unique(v: &mut Vec<Generic>, e: Generic)
    ensures
        gen_views(final(v)@) == (if gen_views(old(v)@).contains(gen_view(e)) {
            gen_views(old(v)@)
        } else {
            gen_views(old(v)@).push(gen_view(e))
        }),
{
    if !gen_contains(v, &e) {
        v.push(e);
        proof {
            assert(gen_views(v@) =~= gen_views(old(v)@).push(gen_view(e)));
        }
    } else {
        proof {
            assert(gen_views(v@) =~= gen_views(old(v)@));
        }
    }
}

/// Appends `e` unless its value is already present.
pub fn num_push_unique(v: &mut Vec<Numeric>, e: Numeric)
    ensures
        num_views(final(v)@) == (if num_views(old(v)@).contains(num_view(e)) {
            num_views(old(v)@)
        } else {
            num_views(old(v)@).push(num_view(e))
        }),
{
    if !num_contains(v, &e) {
        v.push(e);
        proof {
            assert(num_views(v@) =~= num_views(old(v)@).push(num_view(e)));
        }
    } else {
        proof {
            assert(num_views(v@) =~= num_views(old(v)@));
        }
    }
}

/// Appends `e` unless its value is already present.
pub fn isbn_push_unique(v: &mut Vec<ISBN>, e: ISBN)
    ensures
        isbn_views(final(v)@) == (if isbn_views(old(v)@).contains(isbn_view(e)) {
            isbn_views(old(v)@)
        } else {
            isbn_views(old(v)@).push(isbn_view(e))
        }),
{
    if !isbn_contains(v, &e) {
        v.push(e);
        proof {
            assert(isbn_views(v@) =~= isbn_views(old(v)@).push(isbn_view(e)));
        }
    } else {
        proof {
            assert(isbn_views(v@) =~= isbn_views(old(v)@));
        }
    }
}

/// Appends `e` unless its value is already present.
pub fn date_push_unique(v: &mut Vec<Date>, e: Date)
    ensures
        date_views(final(v)@) == (if date_views(old(v)@).contains(date_view(e)) {
            date_views(old(v)@)
        } else {
            date_views(old(v)@).push(date_view(e))
        }),
{
    if !date_contains(v, &e) {
        v.push(e);
        proof {
            assert(date_views(v@) =~= date_views(old(v)@).push(date_view(e)));
        }
    } else {
        proof {
            assert(date_views(v@) =~= date_views(old(v)@));
        }
    }
}

/// The combination of two collections of string-valued outcomes.
pub fn gen_merge(a: &Vec<Generic>, b: &Vec<Generic>) -> (r: Vec<Generic>)
    ensures
        gen_views(r@) == dedup_concat(gen_views(a@), gen_views(b@)),
{
    let mut out: Vec<Generic> = Vec::new();
    let n = a.len();
    for i in 0..n
        invariant
            n == a@.len(),
            out@.len() == i as int,
            gen_views(out@) == gen_views(a@).take(i as int),
    {
        out.push(gen_dup(&a[i]));
        proof {
            assert(gen_views(out@) =~= gen_views(a@).take(i + 1));
        }
    }
    proof {
        assert(gen_views(a@).take(n as int) =~= gen_views(a@));
    }
    let m = b.len();
    for j in 0..m
        invariant
            m == b@.len(),
            out@.len() == gen_views(out@).len(),
            gen_views(out@) == gen_views(a@) + missing_from(
                gen_views(a@),
                gen_views(b@).take(j as int),
            ),
    {
        proof {
            assert(gen_views(b@).take(j + 1).drop_last() =~= gen_views(b@).take(j as int));
            assert(gen_views(b@).take(j + 1).last() == gen_view(b@[j as int]));
        }
        if !gen_contains(a, &b[j]) {
            out.push(gen_dup(&b[j]));
            proof {
                let ga = gen_views(a@);
                let gb = gen_views(b@);
                let mm = missing_from(ga, gb.take(j as int));
                let x = gen_view(b@[j as int]);
                assert(gen_views(out@).len() == out@.len());
                assert(!ga.contains(x));
                assert(gb.take(j + 1).len() == j + 1);
                assert(missing_from(ga, gb.take(j + 1)) == mm.push(x));
                assert(gen_views(out@) =~= (ga + mm).push(x));
                assert((ga + mm).push(x) =~= ga + mm.push(x));
                assert(gen_views(out@) =~= gen_views(a@) + missing_from(
                    gen_views(a@),
                    gen_views(b@).take(j + 1),
                ));
            }
        }
    }
    proof {
        assert(gen_views(b@).take(m as int) =~= gen_views(b@));
    }
    out
}

/// The combination of two collections of page-count outcomes.
pub fn num_merge(a: &Vec<Numeric>, b: &Vec<Numeric>) -> (r: Vec<Numeric>)
    ensures
        num_views(r@) == dedup_concat(num_views(a@), num_views(b@)),
{
    let mut out: Vec<Numeric> = Vec::new();
    let n = a.len();
    for i in 0..n
        invariant
            n == a@.len(),
            out@.len() == i as int,
            num_views(out@) == num_views(a@).take(i as int),
    {
        out.push(num_dup(&a[i]));
        proof {
            assert(num_views(out@) =~= num_views(a@).take(i + 1));
        }
    }
    proof {
        assert(num_views(a@).take(n as int) =~= num_views(a@));
    }
    let m = b.len();
    for j in 0..m
        invariant
            m == b@.len(),
            out@.len() == num_views(out@).len(),
            num_views(out@) == num_views(a@) + missing_from(
                num_views(a@),
                num_views(b@).take(j as int),
            ),
    {
        proof {
            assert(num_views(b@).take(j + 1).drop_last() =~= num_views(b@).take(j as int));
            assert(num_views(b@).take(j + 1).last() == num_view(b@[j as int]));
        }
        if !num_contains(a, &b[j]) {
            out.push(num_dup(&b[j]));
            proof {
                let ga = num_views(a@);
                let gb = num_views(b@);
                let mm = missing_from(ga, gb.take(j as int));
                let x = num_view(b@[j as int]);
                assert(num_views(out@).len() == out@.len());
                assert(!ga.contains(x));
                assert(gb.take(j + 1).len() == j + 1);
                assert(missing_from(ga, gb.take(j + 1)) == mm.push(x));
                assert(num_views(out@) =~= (ga + mm).push(x));
                assert((ga + mm).push(x) =~= ga + mm.push(x));
                assert(num_views(out@) =~= num_views(a@) + missing_from(
                    num_views(a@),
                    num_views(b@).take(j + 1),
                ));
            }
        }
    }
    proof {
        assert(num_views(b@).take(m as int) =~= num_views(b@));
    }
    out
}

/// The combination of two collections of identifier outcomes.
pub fn isbn_merge(a: &Vec<ISBN>, b: &Vec<ISBN>) -> (r: Vec<ISBN>)
    ensures
        isbn_views(r@) == dedup_concat(isbn_views(a@), isbn_views(b@)),
{
    let mut out: Vec<ISBN> = Vec::new();
    let n = a.len();
    for i in 0..n
        invariant
            n == a@.len(),
            out@.len() == i as int,
            isbn_views(out@) == isbn_views(a@).take(i as int),
    {
        out.push(isbn_dup(&a[i]));
        proof {
            assert(isbn_views(out@) =~= isbn_views(a@).take(i + 1));
        }
    }
    proof {
        assert(isbn_views(a@).take(n as int) =~= isbn_views(a@));
    }
    let m = b.len();
    for j in 0..m
        invariant
            m == b@.len(),
            out@.len() == isbn_views(out@).len(),
            isbn_views(out@) == isbn_views(a@) + missing_from(
                isbn_views(a@),
                isbn_views(b@).take(j as int),
            ),
    {
        proof {
            assert(isbn_views(b@).take(j + 1).drop_last() =~= isbn_views(b@).take(j as int));
            assert(isbn_views(b@).take(j + 1).last() == isbn_view(b@[j as int]));
        }
        if !isbn_contains(a, &b[j]) {
            out.push(isbn_dup(&b[j]));
            proof {
                let ga = isbn_views(a@);
                let gb = isbn_views(b@);
                let mm = missing_from(ga, gb.take(j as int));
                let x = isbn_view(b@[j as int]);
                assert(isbn_views(out@).len() == out@.len());
                assert(!ga.contains(x));
                assert(gb.take(j + 1).len() == j + 1);
                assert(missing_from(ga, gb.take(j + 1)) == mm.push(x));
                assert(isbn_views(out@) =~= (ga + mm).push(x));
                assert((ga + mm).push(x) =~= ga + mm.push(x));
                assert(isbn_views(out@) =~= isbn_views(a@) + missing_from(
                    isbn_views(a@),
                    isbn_views(b@).take(j + 1),
                ));
            }
        }
    }
    proof {
        assert(isbn_views(b@).take(m as int) =~= isbn_views(b@));
    }
    out
}

/// The combination of two collections of publication-date outcomes.
pub fn date_merge(a: &Vec<Date>, b: &Vec<Date>) -> (r: Vec<Date>)
    ensures
        date_views(r@) == dedup_concat(date_views(a@), date_views(b@)),
{
    let mut out: Vec<Date> = Vec::new();
    let n = a.len();
    for i in 0..n
        invariant
            n == a@.len(),
            out@.len() == i as int,
            date_views(out@) == date_views(a@).take(i as int),
    {
        out.push(date_dup(&a[i]));
        proof {
            assert(date_views(out@) =~= date_views(a@).take(i + 1));
        }
    }
    proof {
        assert(date_views(a@).take(n as int) =~= date_views(a@));
    }
    let m = b.len();
    for j in 0..m
        invariant
            m == b@.len(),
            out@.len() == date_views(out@).len(),
            date_views(out@) == date_views(a@) + missing_from(
                date_views(a@),
                date_views(b@).take(j as int),
            ),
    {
        proof {
            assert(date_views(b@).take(j + 1).drop_last() =~= date_views(b@).take(j as int));
            assert(date_views(b@).take(j + 1).last() == date_view(b@[j as int]));
        }
        if !date_contains(a, &b[j]) {
            out.push(date_dup(&b[j]));
            proof {
                let ga = date_views(a@);
                let gb = date_views(b@);
                let mm = missing_from(ga, gb.take(j as int));
                let x = date_view(b@[j as int]);
                assert(date_views(out@).len() == out@.len());
                assert(!ga.contains(x));
                assert(gb.take(j + 1).len() == j + 1);
                assert(missing_from(ga, gb.take(j + 1)) == mm.push(x));
                assert(date_views(out@) =~= (ga + mm).push(x));
                assert((ga + mm).push(x) =~= ga + mm.push(x));
                assert(date_views(out@) =~= date_views(a@) + missing_from(
                    date_views(a@),
                    date_views(b@).take(j + 1),
                ));
            }
        }
    }
    proof {
        assert(date_views(b@).take(m as int) =~= date_views(b@));
    }
    out
}

} // verus!
