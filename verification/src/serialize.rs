//! JSON text for a record, for downstream consumers.
//!
//! Every field serializes as an array of strings holding its successfully
//! parsed values: identifiers in their canonical form, dates as zero-padded
//! `YYYY-MM-DD`, page counts as decimal strings.  Per-item failures carry
//! diagnostics, not data, and stay out of the output.

use vstd::prelude::*;

use crate::base::gen_views;
use crate::date::spec_date_string;
use crate::isbn::spec_canonical;
use crate::isbn::IsbnView;
use crate::json::is_control;
use crate::metadata::Metadata;
use crate::metadata::MetadataModel;
use crate::recon::ErrView;

verus! {

broadcast use {vstd::seq::group_seq_axioms, vstd::std_specs::vec::group_vec_axioms};

/// One hexadecimal digit character.
pub open spec fn hex_char(v: int) -> char {
    if v < 10 {
        ((48 + v) as char)
    } else {
        ((87 + v) as char)
    }
}

/// What one character contributes to an escaped string.
pub open spec fn esc_char(c: char) -> Seq<char> {
    if c == '"' {
        seq!['\\', '"']
    } else if c == '\\' {
        seq!['\\', '\\']
    } else if c == '\n' {
        seq!['\\', 'n']
    } else if c == '\r' {
        seq!['\\', 'r']
    } else if c == '\t' {
        seq!['\\', 't']
    } else if is_control(c) {
        seq!['\\', 'u', '0', '0', hex_char(c as int / 16), hex_char(c as int % 16)]
    } else {
        seq![c]
    }
}

/// The escaped form of a string's characters.
pub open spec fn json_escaped(s: Seq<char>) -> Seq<char>
    decreases s.len(),
{
    if s.len() == 0 {
        Seq::empty()
    } else {
        json_escaped(s.drop_last()) + esc_char(s.last())
    }
}

/// A quoted, escaped string literal.
pub open spec fn str_lit(s: Seq<char>) -> Seq<char> {
    seq!['"'] + json_escaped(s) + seq!['"']
}

/// The items joined with commas.
pub open spec fn joined(items: Seq<Seq<char>>) -> Seq<char>
    decreases items.len(),
{
    if items.len() == 0 {
        Seq::empty()
    } else if items.len() == 1 {
        items[0]
    } else {
        joined(items.drop_last()) + seq![','] + items.last()
    }
}

/// An array of string literals.
pub open spec fn str_arr_lit(vals: Seq<Seq<char>>) -> Seq<char> {
    seq!['['] + joined(vals.map_values(|v: Seq<char>| str_lit(v))) + seq![']']
}

/// The successfully parsed strings of a field.
pub open spec fn oks(field: Seq<Result<Seq<char>, ErrView>>) -> Seq<Seq<char>>
    decreases field.len(),
{
    if field.len() == 0 {
        Seq::empty()
    } else {
        oks(field.drop_last()) + (match field.last() {
            Ok(s) => seq![s],
            Err(_) => Seq::empty(),
        })
    }
}

/// The canonical strings of a field's parsed identifiers.
pub open spec fn isbn_oks(field: Seq<Result<IsbnView, ErrView>>) -> Seq<Seq<char>>
    decreases field.len(),
{
    if field.len() == 0 {
        Seq::empty()
    } else {
        isbn_oks(field.drop_last()) + (match field.last() {
            Ok(v) => seq![spec_canonical(v)],
            Err(_) => Seq::empty(),
        })
    }
}

/// The `YYYY-MM-DD` strings of a field's parsed dates.
pub open spec fn date_oks(field: Seq<Result<crate::date::Date, ErrView>>) -> Seq<Seq<char>>
    decreases field.len(),
{
    if field.len() == 0 {
        Seq::empty()
    } else {
        date_oks(field.drop_last()) + (match field.last() {
            Ok(d) => seq![spec_date_string(d)],
            Err(_) => Seq::empty(),
        })
    }
}

/// The decimal characters of a number.
pub open spec fn dec_chars(n: int) -> Seq<char>
    decreases n,
{
    if n < 10 {
        seq![((48 + (if n >= 0 {
            n % 10
        } else {
            0
        })) as char)]
    } else {
        dec_chars(n / 10) + seq![((48 + n % 10) as char)]
    }
}

/// The decimal strings of a field's parsed page counts.
pub open spec fn num_oks(field: Seq<Result<u16, ErrView>>) -> Seq<Seq<char>>
    decreases field.len(),
{
    if field.len() == 0 {
        Seq::empty()
    } else {
        num_oks(field.drop_last()) + (match field.last() {
            Ok(n) => seq![dec_chars(n as int)],
            Err(_) => Seq::empty(),
        })
    }
}

/// The JSON text of a whole record.
pub open spec fn spec_record_json(m: MetadataModel) -> Seq<char> {
    "{\"isbns\":"@ + str_arr_lit(isbn_oks(m.isbns)) + ",\"titles\":"@ + str_arr_lit(oks(m.titles))
        + ",\"authors\":"@ + str_arr_lit(oks(m.authors)) + ",\"descriptions\":"@ + str_arr_lit(
        oks(m.descriptions),
    ) + ",\"page_count\":"@ + str_arr_lit(num_oks(m.page_count)) + ",\"publishers\":"@
        + str_arr_lit(oks(m.extra.publishers)) + ",\"publication_dates\":"@ + str_arr_lit(
        date_oks(m.extra.publication_dates),
    ) + ",\"languages\":"@ + str_arr_lit(oks(m.extra.languages)) + ",\"tags\":"@ + str_arr_lit(
        oks(m.extra.tags),
    ) + ",\"cover_images\":"@ + str_arr_lit(oks(m.extra.cover_images)) + "}"@
}

/// Appends the characters of `s`.
#[verifier::loop_isolation(false)]
fn push_lit(out: &mut Vec<char>, s: &str)
    ensures
        final(out)@ == old(out)@ + s@,
{
    let chars = crate::strutil::str_to_chars(s);
    let n = chars.len();
    proof {
        assert(out@ =~= old(out)@ + chars@.take(0));
    }
    for i in 0..n
        invariant
            out@ == old(out)@ + chars@.take(i as int),
    {
        out.push(chars[i]);
        proof {
            assert(old(out)@ + chars@.take(i + 1) =~= (old(out)@ + chars@.take(i as int)).push(
                chars@[i as int],
            ));
        }
    }
    proof {
        assert(chars@.take(n as int) =~= chars@);
    }
}

/// Appends the escaped form of one character.
fn push_esc(out: &mut Vec<char>, c: char)
    ensures
        final(out)@ == old(out)@ + esc_char(c),
{
    if c == '"' {
        out.push('\\');
        out.push('"');
    } else if c == '\\' {
        out.push('\\');
        out.push('\\');
    } else if c == '\n' {
        out.push('\\');
        out.push('n');
    } else if c == '\r' {
        out.push('\\');
        out.push('r');
    } else if c == '\t' {
        out.push('\\');
        out.push('t');
    } else if !(c >= ' ') {
        out.push('\\');
        out.push('u');
        out.push('0');
        out.push('0');
        let v = c as u32;
        let hi = (v / 16) as u8;
        let lo = (v % 16) as u8;
        if hi < 10 {
            out.push((48 + hi) as char);
        } else {
            out.push((87 + hi) as char);
        }
        if lo < 10 {
            out.push((48 + lo) as char);
        } else {
            out.push((87 + lo) as char);
        }
        proof {
            assert(c as int == v as int);
            assert(out@ =~= old(out)@ + esc_char(c));
        }
    } else {
        out.push(c);
    }
    proof {
        assert(out@ =~= old(out)@ + esc_char(c));
    }
}

/// Appends a quoted, escaped string literal.
#[verifier::loop_isolation(false)]
fn push_str_lit(out: &mut Vec<char>, s: &str)
    ensures
        final(out)@ == old(out)@ + str_lit(s@),
{
    let chars = crate::strutil::str_to_chars(s);
    out.push('"');
    let ghost opened = out@;
    let n = chars.len();
    proof {
        assert(json_escaped(chars@.take(0)) =~= Seq::<char>::empty());
        assert(out@ =~= opened + json_escaped(chars@.take(0)));
    }
    for i in 0..n
        invariant
            out@ == opened + json_escaped(chars@.take(i as int)),
    {
        push_esc(out, chars[i]);
        proof {
            assert(chars@.take(i + 1).drop_last() =~= chars@.take(i as int));
            assert(chars@.take(i + 1).last() == chars@[i as int]);
            assert(opened + json_escaped(chars@.take(i + 1)) =~= (opened + json_escaped(
                chars@.take(i as int),
            )) + esc_char(chars@[i as int]));
        }
    }
    out.push('"');
    proof {
        assert(chars@.take(n as int) =~= chars@);
        assert(out@ =~= old(out)@ + str_lit(s@));
    }
}

/// Appends the decimal characters of a number.
fn push_dec(out: &mut Vec<char>, n: u16)
    ensures
        final(out)@ == old(out)@ + dec_chars(n as int),
    decreases n,
{
    if n < 10 {
        out.push((48 + n as u8) as char);
        proof {
            assert(out@ =~= old(out)@ + dec_chars(n as int));
        }
    } else {
        push_dec(out, n / 10);
        out.push((48 + (n % 10) as u8) as char);
        proof {
            assert(out@ =~= old(out)@ + dec_chars(n as int));
        }
    }
}

/// Appends one more array item: a comma when needed, then the literal.
#[verifier::loop_isolation(false)]
fn push_item(out: &mut Vec<char>, first: bool, lit: &str)
    ensures
        final(out)@ == old(out)@ + (if first {
            str_lit(lit@)
        } else {
            seq![','] + str_lit(lit@)
        }),
{
    if !first {
        out.push(',');
    }
    push_str_lit(out, lit);
    proof {
        if !first {
            assert(out@ =~= old(out)@ + (seq![','] + str_lit(lit@)));
        }
    }
}

/// Joining one more item appends a comma first unless the list was empty.
proof fn lemma_joined_push(items: Seq<Seq<char>>, x: Seq<char>)
    ensures
        joined(items.push(x)) == (if items.len() == 0 {
            x
        } else {
            joined(items) + seq![','] + x
        }),
{
    assert(items.push(x).drop_last() =~= items);
    assert(items.push(x).last() == x);
    if items.len() == 0 {
        assert(items.push(x)[0] == x);
    }
}

impl Metadata {
    /// The JSON text of the record.
    #[verifier::rlimit(100)]
    pub fn to_json(&self) -> (r: String)
        ensures
            r@ == spec_record_json(self@),
    {
        let mut out: Vec<char> = Vec::new();
        push_lit(&mut out, "{\"isbns\":");
        push_isbn_arr(&mut out, self.get_isbns());
        push_lit(&mut out, ",\"titles\":");
        push_gen_arr(&mut out, self.get_titles());
        push_lit(&mut out, ",\"authors\":");
        push_gen_arr(&mut out, self.get_authors());
        push_lit(&mut out, ",\"descriptions\":");
        push_gen_arr(&mut out, self.get_descriptions());
        push_lit(&mut out, ",\"page_count\":");
        push_num_arr(&mut out, self.get_page_count());
        push_lit(&mut out, ",\"publishers\":");
        push_gen_arr(&mut out, self.get_publishers());
        push_lit(&mut out, ",\"publication_dates\":");
        push_date_arr(&mut out, self.get_publication_dates());
        push_lit(&mut out, ",\"languages\":");
        push_gen_arr(&mut out, self.get_languages());
        push_lit(&mut out, ",\"tags\":");
        push_gen_arr(&mut out, self.get_tags());
        push_lit(&mut out, ",\"cover_images\":");
        push_gen_arr(&mut out, self.get_cover_images());
        push_lit(&mut out, "}");
        proof {
            assert(out@ =~= spec_record_json(self@));
        }
        crate::strutil::chars_to_string(&out)
    }
}

/// Appends the string array of a field's parsed values.
#[verifier::loop_isolation(false)]
fn push_gen_arr(out: &mut Vec<char>, field: &Vec<crate::base::Generic>)
    ensures
        final(out)@ == old(out)@ + str_arr_lit(oks(gen_views(field@))),
{
    out.push('[');
    let ghost opened = out@;
    let ghost fv = gen_views(field@);
    let mut first: bool = true;
    let n = field.len();
    proof {
        assert(oks(fv.take(0)) =~= Seq::<Seq<char>>::empty());
        assert(out@ =~= opened + joined(
            oks(fv.take(0)).map_values(|v: Seq<char>| str_lit(v)),
        ));
    }
    for i in 0..n
        invariant
            n == field@.len(),
            fv == gen_views(field@),
            out@ == opened + joined(oks(fv.take(i as int)).map_values(|v: Seq<char>| str_lit(v))),
            first == (oks(fv.take(i as int)).len() == 0),
    {
        proof {
            assert(fv.take(i + 1).drop_last() =~= fv.take(i as int));
            assert(fv.take(i + 1).last() == fv[i as int]);
        }
        match &field[i] {
            Ok(s) => {
                proof {
                    let prev = oks(fv.take(i as int));
                    assert(oks(fv.take(i + 1)) =~= prev.push(s@));
                    lemma_joined_push(
                        prev.map_values(|v: Seq<char>| str_lit(v)),
                        str_lit(s@),
                    );
                    assert(prev.push(s@).map_values(|v: Seq<char>| str_lit(v)) =~= prev.map_values(
                        |v: Seq<char>| str_lit(v),
                    ).push(str_lit(s@)));
                }
                push_item(out, first, s.as_str());
                first = false;
            },
            Err(_e) => {
                proof {
                    assert(oks(fv.take(i + 1)) =~= oks(fv.take(i as int)));
                }
            },
        }
    }
    out.push(']');
    proof {
        assert(fv.take(n as int) =~= fv);
        assert(out@ =~= old(out)@ + str_arr_lit(oks(fv)));
    }
}

/// Appends the string array of a field's parsed identifiers.
#[verifier::loop_isolation(false)]
fn push_isbn_arr(out: &mut Vec<char>, field: &Vec<crate::base::ISBN>)
    ensures
        final(out)@ == old(out)@ + str_arr_lit(isbn_oks(crate::base::isbn_views(field@))),
{
    out.push('[');
    let ghost opened = out@;
    let ghost fv = crate::base::isbn_views(field@);
    let mut first: bool = true;
    let n = field.len();
    proof {
        assert(isbn_oks(fv.take(0)) =~= Seq::<Seq<char>>::empty());
        assert(out@ =~= opened + joined(
            isbn_oks(fv.take(0)).map_values(|v: Seq<char>| str_lit(v)),
        ));
    }
    for i in 0..n
        invariant
            n == field@.len(),
            fv == crate::base::isbn_views(field@),
            out@ == opened + joined(
                isbn_oks(fv.take(i as int)).map_values(|v: Seq<char>| str_lit(v)),
            ),
            first == (isbn_oks(fv.take(i as int)).len() == 0),
    {
        proof {
            assert(fv.take(i + 1).drop_last() =~= fv.take(i as int));
            assert(fv.take(i + 1).last() == fv[i as int]);
        }
        match &field[i] {
            Ok(id) => {
                let c = id.canonical();
                proof {
                    let prev = isbn_oks(fv.take(i as int));
                    assert(isbn_oks(fv.take(i + 1)) =~= prev.push(spec_canonical(id@)));
                    lemma_joined_push(
                        prev.map_values(|v: Seq<char>| str_lit(v)),
                        str_lit(spec_canonical(id@)),
                    );
                    assert(prev.push(spec_canonical(id@)).map_values(
                        |v: Seq<char>| str_lit(v),
                    ) =~= prev.map_values(|v: Seq<char>| str_lit(v)).push(
                        str_lit(spec_canonical(id@)),
                    ));
                }
                push_item(out, first, c.as_str());
                first = false;
            },
            Err(_e) => {
                proof {
                    assert(isbn_oks(fv.take(i + 1)) =~= isbn_oks(fv.take(i as int)));
                }
            },
        }
    }
    out.push(']');
    proof {
        assert(fv.take(n as int) =~= fv);
        assert(out@ =~= old(out)@ + str_arr_lit(isbn_oks(fv)));
    }
}

/// Appends the string array of a field's parsed dates.
#[verifier::loop_isolation(false)]
fn push_date_arr(out: &mut Vec<char>, field: &Vec<crate::base::Date>)
    ensures
        final(out)@ == old(out)@ + str_arr_lit(date_oks(crate::base::date_views(field@))),
{
    out.push('[');
    let ghost opened = out@;
    let ghost fv = crate::base::date_views(field@);
    let mut first: bool = true;
    let n = field.len();
    proof {
        assert(date_oks(fv.take(0)) =~= Seq::<Seq<char>>::empty());
        assert(out@ =~= opened + joined(
            date_oks(fv.take(0)).map_values(|v: Seq<char>| str_lit(v)),
        ));
    }
    for i in 0..n
        invariant
            n == field@.len(),
            fv == crate::base::date_views(field@),
            out@ == opened + joined(
                date_oks(fv.take(i as int)).map_values(|v: Seq<char>| str_lit(v)),
            ),
            first == (date_oks(fv.take(i as int)).len() == 0),
    {
        proof {
            assert(fv.take(i + 1).drop_last() =~= fv.take(i as int));
            assert(fv.take(i + 1).last() == fv[i as int]);
        }
        match &field[i] {
            Ok(d) => {
                let c = d.to_ymd_string();
                proof {
                    let prev = date_oks(fv.take(i as int));
                    assert(date_oks(fv.take(i + 1)) =~= prev.push(spec_date_string(*d)));
                    lemma_joined_push(
                        prev.map_values(|v: Seq<char>| str_lit(v)),
                        str_lit(spec_date_string(*d)),
                    );
                    assert(prev.push(spec_date_string(*d)).map_values(
                        |v: Seq<char>| str_lit(v),
                    ) =~= prev.map_values(|v: Seq<char>| str_lit(v)).push(
                        str_lit(spec_date_string(*d)),
                    ));
                }
                push_item(out, first, c.as_str());
                first = false;
            },
            Err(_e) => {
                proof {
                    assert(date_oks(fv.take(i + 1)) =~= date_oks(fv.take(i as int)));
                }
            },
        }
    }
    out.push(']');
    proof {
        assert(fv.take(n as int) =~= fv);
        assert(out@ =~= old(out)@ + str_arr_lit(date_oks(fv)));
    }
}

/// Appends the string array of a field's parsed page counts.
#[verifier::loop_isolation(false)]
fn push_num_arr(out: &mut Vec<char>, field: &Vec<crate::base::Numeric>)
    ensures
        final(out)@ == old(out)@ + str_arr_lit(num_oks(crate::base::num_views(field@))),
{
    out.push('[');
    let ghost opened = out@;
    let ghost fv = crate::base::num_views(field@);
    let mut first: bool = true;
    let n = field.len();
    proof {
        assert(num_oks(fv.take(0)) =~= Seq::<Seq<char>>::empty());
        assert(out@ =~= opened + joined(
            num_oks(fv.take(0)).map_values(|v: Seq<char>| str_lit(v)),
        ));
    }
    for i in 0..n
        invariant
            n == field@.len(),
            fv == crate::base::num_views(field@),
            out@ == opened + joined(
                num_oks(fv.take(i as int)).map_values(|v: Seq<char>| str_lit(v)),
            ),
            first == (num_oks(fv.take(i as int)).len() == 0),
    {
        proof {
            assert(fv.take(i + 1).drop_last() =~= fv.take(i as int));
            assert(fv.take(i + 1).last() == fv[i as int]);
        }
        match &field[i] {
            Ok(p) => {
                let mut digits: Vec<char> = Vec::new();
                push_dec(&mut digits, *p);
                let lit = crate::strutil::chars_to_string(&digits);
                proof {
                    assert(digits@ =~= dec_chars(*p as int));
                    let prev = num_oks(fv.take(i as int));
                    assert(num_oks(fv.take(i + 1)) =~= prev.push(dec_chars(*p as int)));
                    lemma_joined_push(
                        prev.map_values(|v: Seq<char>| str_lit(v)),
                        str_lit(dec_chars(*p as int)),
                    );
                    assert(prev.push(dec_chars(*p as int)).map_values(
                        |v: Seq<char>| str_lit(v),
                    ) =~= prev.map_values(|v: Seq<char>| str_lit(v)).push(
                        str_lit(dec_chars(*p as int)),
                    ));
                }
                push_item(out, first, lit.as_str());
                first = false;
            },
            Err(_e) => {
                proof {
                    assert(num_oks(fv.take(i + 1)) =~= num_oks(fv.take(i as int)));
                }
            },
        }
    }
    out.push(']');
    proof {
        assert(fv.take(n as int) =~= fv);
        assert(out@ =~= old(out)@ + str_arr_lit(num_oks(fv)));
    }
}

} // verus!
