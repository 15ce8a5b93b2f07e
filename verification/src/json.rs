//! Generic JSON values and the text parser.
//!
//! Providers answer with JSON text.  [`parse_json`] turns that text into a
//! [`Json`] value: objects keep their members in source order, duplicate keys
//! included, so the decoders can enforce their duplicate-field rule; numbers
//! keep their validated lexeme, so no floating point is involved.
//!
//! The grammar is the standard one: the six value kinds, string escapes
//! (including `\uXXXX` with surrogate pairs), and numbers with optional sign,
//! fraction and exponent, without leading zeros.

use vstd::prelude::*;

use crate::strutil::digit_run;
use crate::strutil::digit_run_len;
use crate::strutil::is_digit;

verus! {

broadcast use {vstd::seq::group_seq_axioms, vstd::std_specs::vec::group_vec_axioms};

/// A JSON value.  A number holds its source lexeme.
#[derive(Debug, PartialEq, Eq)]
pub enum Json {
    Null,
    Bool(bool),
    Num(String),
    Str(String),
    Arr(Vec<Json>),
    Obj(Vec<(String, Json)>),
}

/// The mathematical value of a [`Json`] tree.
#[verifier::ext_equal]
pub enum JsonView {
    Null,
    Bool(bool),
    Num(Seq<char>),
    Str(Seq<char>),
    Arr(Seq<JsonView>),
    Obj(Seq<(Seq<char>, JsonView)>),
}

/// The mathematical value of a [`Json`] tree.
pub open spec fn json_view(j: Json) -> JsonView
    decreases j,
{
    match j {
        Json::Null => JsonView::Null,
        Json::Bool(b) => JsonView::Bool(b),
        Json::Num(s) => JsonView::Num(s@),
        Json::Str(s) => JsonView::Str(s@),
        Json::Arr(v) => JsonView::Arr(views(v@)),
        Json::Obj(v) => JsonView::Obj(member_views(v@)),
    }
}

/// The views of a sequence of values.
pub open spec fn views(s: Seq<Json>) -> Seq<JsonView>
    decreases s,
{
    if s.len() == 0 {
        Seq::empty()
    } else {
        views(s.drop_last()).push(json_view(s.last()))
    }
}

/// The views of a sequence of members: each key with its value's view.
pub open spec fn member_views(s: Seq<(String, Json)>) -> Seq<(Seq<char>, JsonView)>
    decreases s,
{
    if s.len() == 0 {
        Seq::empty()
    } else {
        member_views(s.drop_last()).push((s.last().0@, json_view(s.last().1)))
    }
}

impl View for Json {
    type V = JsonView;

    open spec fn view(&self) -> JsonView {
        json_view(*self)
    }
}

/// The views of a sequence have its length.
pub broadcast proof fn lemma_views_len(s: Seq<Json>)
    ensures
        #[trigger] views(s).len() == s.len(),
    decreases s,
{
    if s.len() > 0 {
        lemma_views_len(s.drop_last());
    }
}

/// The views of a sequence, element by element.
pub broadcast proof fn lemma_views_index(s: Seq<Json>, i: int)
    requires
        0 <= i < s.len(),
    ensures
        #[trigger] views(s)[i] == s[i]@,
    decreases s,
{
    lemma_views_len(s);
    if i < s.len() - 1 {
        lemma_views_index(s.drop_last(), i);
        lemma_views_len(s.drop_last());
        assert(s.drop_last()[i] == s[i]);
    } else {
        lemma_views_len(s.drop_last());
    }
}

/// The member views of a sequence have its length.
pub broadcast proof fn lemma_member_views_len(s: Seq<(String, Json)>)
    ensures
        #[trigger] member_views(s).len() == s.len(),
    decreases s,
{
    if s.len() > 0 {
        lemma_member_views_len(s.drop_last());
    }
}

/// The member views of a sequence, element by element.
pub broadcast proof fn lemma_member_views_index(s: Seq<(String, Json)>, i: int)
    requires
        0 <= i < s.len(),
    ensures
        #[trigger] member_views(s)[i] == (s[i].0@, s[i].1@),
    decreases s,
{
    lemma_member_views_len(s);
    if i < s.len() - 1 {
        lemma_member_views_index(s.drop_last(), i);
        lemma_member_views_len(s.drop_last());
        assert(s.drop_last()[i] == s[i]);
    } else {
        lemma_member_views_len(s.drop_last());
    }
}

/// A control character, which JSON strings may not hold unescaped.
pub open spec fn is_control(c: char) -> bool {
    (c as int) < 32
}

/// JSON whitespace.
pub open spec fn is_ws(c: char) -> bool {
    c == ' ' || c == '\t' || c == '\n' || c == '\r'
}

/// The first position at or after `i` that holds no whitespace.
pub open spec fn skip_ws(s: Seq<char>, i: int) -> int
    decreases s.len() - i,
{
    if 0 <= i && i < s.len() && is_ws(s[i]) {
        skip_ws(s, i + 1)
    } else {
        i
    }
}

/// The character named by a single-character escape, `\uXXXX` aside.
pub open spec fn escape_char(e: char) -> Option<char> {
    if e == '"' {
        Some('"')
    } else if e == '\\' {
        Some('\\')
    } else if e == '/' {
        Some('/')
    } else if e == 'b' {
        Some('\u{8}')
    } else if e == 'f' {
        Some('\u{c}')
    } else if e == 'n' {
        Some('\n')
    } else if e == 'r' {
        Some('\r')
    } else if e == 't' {
        Some('\t')
    } else {
        None
    }
}

/// The value of one hexadecimal digit.
pub open spec fn hex_val(c: char) -> Option<u32> {
    if '0' <= c && c <= '9' {
        Some((c as u8 - 48) as u32)
    } else if 'a' <= c && c <= 'f' {
        Some((c as u8 - 87) as u32)
    } else if 'A' <= c && c <= 'F' {
        Some((c as u8 - 55) as u32)
    } else {
        None
    }
}

/// The value of the four hexadecimal digits that start at `i`.
pub open spec fn hex4(s: Seq<char>, i: int) -> Option<u32> {
    if 0 <= i && i + 4 <= s.len() {
        match (hex_val(s[i]), hex_val(s[i + 1]), hex_val(s[i + 2]), hex_val(s[i + 3])) {
            (Some(a), Some(b), Some(c), Some(d)) => Some(
                (a * 0x1000 + b * 0x100 + c * 0x10 + d) as u32,
            ),
            _ => None,
        }
    } else {
        None
    }
}

/// The scalar value of a surrogate pair.
pub open spec fn surrogate_scalar(v: u32, w: u32) -> char {
    ((0x10000 + (v as int - 0xD800) * 0x400 + (w as int - 0xDC00)) as char)
}

/// The content and end position of a string whose opening quote stands just
/// before `i`.  Unescaped control characters, lone surrogates, unknown
/// escapes and a missing closing quote all fail.
pub open spec fn sp_string(s: Seq<char>, i: int) -> Option<(Seq<char>, int)>
    decreases s.len() - i,
{
    if !(0 <= i && i < s.len()) {
        None
    } else if s[i] == '"' {
        Some((Seq::empty(), i + 1))
    } else if s[i] == '\\' {
        if i + 1 >= s.len() {
            None
        } else if s[i + 1] == 'u' {
            match hex4(s, i + 2) {
                Some(v) => if 0xD800 <= v && v < 0xDC00 {
                    if i + 7 < s.len() && s[i + 6] == '\\' && s[i + 7] == 'u' {
                        match hex4(s, i + 8) {
                            Some(w) => if 0xDC00 <= w && w < 0xE000 {
                                match sp_string(s, i + 12) {
                                    Some((rest, j)) => Some(
                                        (seq![surrogate_scalar(v, w)] + rest, j),
                                    ),
                                    None => None,
                                }
                            } else {
                                None
                            },
                            None => None,
                        }
                    } else {
                        None
                    }
                } else if 0xDC00 <= v && v < 0xE000 {
                    None
                } else {
                    match sp_string(s, i + 6) {
                        Some((rest, j)) => Some((seq![(v as char)] + rest, j)),
                        None => None,
                    }
                },
                None => None,
            }
        } else {
            match escape_char(s[i + 1]) {
                Some(c) => match sp_string(s, i + 2) {
                    Some((rest, j)) => Some((seq![c] + rest, j)),
                    None => None,
                },
                None => None,
            }
        }
    } else if is_control(s[i]) {
        None
    } else {
        match sp_string(s, i + 1) {
            Some((rest, j)) => Some((seq![s[i]] + rest, j)),
            None => None,
        }
    }
}

/// Where the optional fraction part that starts at `q` ends.
pub open spec fn frac_end(s: Seq<char>, q: int) -> Option<int> {
    if q < s.len() && s[q] == '.' {
        let lf = digit_run_len(s, q + 1);
        if lf == 0 {
            None
        } else {
            Some(q + 1 + lf)
        }
    } else {
        Some(q)
    }
}

/// Where the optional exponent part that starts at `q` ends.
pub open spec fn exp_end(s: Seq<char>, q: int) -> Option<int> {
    if q < s.len() && (s[q] == 'e' || s[q] == 'E') {
        let r = if q + 1 < s.len() && (s[q + 1] == '+' || s[q + 1] == '-') {
            q + 2
        } else {
            q + 1
        };
        let le = digit_run_len(s, r);
        if le == 0 {
            None
        } else {
            Some(r + le)
        }
    } else {
        Some(q)
    }
}

/// The lexeme and end position of the number that starts at `i`.
pub open spec fn sp_number(s: Seq<char>, i: int) -> Option<(Seq<char>, int)> {
    if !(0 <= i && i < s.len()) {
        None
    } else {
        let p = if s[i] == '-' {
            i + 1
        } else {
            i
        };
        let li = digit_run_len(s, p);
        if li == 0 {
            None
        } else if s[p] == '0' && li != 1 {
            None
        } else {
            match frac_end(s, p + li) {
                Some(q2) => match exp_end(s, q2) {
                    Some(q3) => Some((s.subrange(i, q3), q3)),
                    None => None,
                },
                None => None,
            }
        }
    }
}

/// The value and end position of the JSON value that starts at `i` — with no
/// leading whitespace.
pub open spec fn sp_value(s: Seq<char>, i: int) -> Option<(JsonView, int)>
    decreases s.len() - i, 2int,
{
    if !(0 <= i && i < s.len()) {
        None
    } else {
        let c = s[i];
        if c == 'n' {
            if i + 4 <= s.len() && s[i + 1] == 'u' && s[i + 2] == 'l' && s[i + 3] == 'l' {
                Some((JsonView::Null, i + 4))
            } else {
                None
            }
        } else if c == 't' {
            if i + 4 <= s.len() && s[i + 1] == 'r' && s[i + 2] == 'u' && s[i + 3] == 'e' {
                Some((JsonView::Bool(true), i + 4))
            } else {
                None
            }
        } else if c == 'f' {
            if i + 5 <= s.len() && s[i + 1] == 'a' && s[i + 2] == 'l' && s[i + 3] == 's' && s[i
                + 4] == 'e' {
                Some((JsonView::Bool(false), i + 5))
            } else {
                None
            }
        } else if c == '"' {
            match sp_string(s, i + 1) {
                Some((content, j)) => Some((JsonView::Str(content), j)),
                None => None,
            }
        } else if c == '-' || is_digit(c) {
            match sp_number(s, i) {
                Some((lex, j)) => Some((JsonView::Num(lex), j)),
                None => None,
            }
        } else if c == '[' {
            let j = skip_ws(s, i + 1);
            if !(i < j && j <= s.len()) {
                None
            } else if j < s.len() && s[j] == ']' {
                Some((JsonView::Arr(Seq::empty()), j + 1))
            } else {
                sp_items(s, j, Seq::empty())
            }
        } else if c == '{' {
            let j = skip_ws(s, i + 1);
            if !(i < j && j <= s.len()) {
                None
            } else if j < s.len() && s[j] == '}' {
                Some((JsonView::Obj(Seq::empty()), j + 1))
            } else {
                sp_members(s, j, Seq::empty())
            }
        } else {
            None
        }
    }
}

/// The remaining items of an array, starting at the first character of the
/// next item; `acc` holds the items already read.
pub open spec fn sp_items(s: Seq<char>, i: int, acc: Seq<JsonView>) -> Option<(JsonView, int)>
    decreases s.len() - i, 3int,
{
    if !(0 <= i && i <= s.len()) {
        None
    } else {
        match sp_value(s, i) {
            Some((v, j)) => if !(i < j && j <= s.len()) {
                None
            } else {
                let k = skip_ws(s, j);
                if !(j <= k && k <= s.len()) {
                    None
                } else if k < s.len() && s[k] == ',' {
                    let m = skip_ws(s, k + 1);
                    if !(k < m && m <= s.len()) {
                        None
                    } else {
                        sp_items(s, m, acc.push(v))
                    }
                } else if k < s.len() && s[k] == ']' {
                    Some((JsonView::Arr(acc.push(v)), k + 1))
                } else {
                    None
                }
            },
            None => None,
        }
    }
}

/// The remaining members of an object, starting at the opening quote of the
/// next key; `acc` holds the members already read.
pub open spec fn sp_members(s: Seq<char>, i: int, acc: Seq<(Seq<char>, JsonView)>) -> Option<
    (JsonView, int),
>
    decreases s.len() - i, 3int,
{
    if !(0 <= i && i < s.len() && s[i] == '"') {
        None
    } else {
        match sp_string(s, i + 1) {
            Some((key, j)) => if !(i < j && j <= s.len()) {
                None
            } else {
                let k = skip_ws(s, j);
                if !(j <= k && k <= s.len() && k < s.len() && s[k] == ':') {
                    None
                } else {
                    let m = skip_ws(s, k + 1);
                    if !(k < m && m <= s.len()) {
                        None
                    } else {
                        match sp_value(s, m) {
                            Some((v, p)) => if !(m < p && p <= s.len()) {
                                None
                            } else {
                                let q = skip_ws(s, p);
                                if !(p <= q && q <= s.len()) {
                                    None
                                } else if q < s.len() && s[q] == ',' {
                                    let r = skip_ws(s, q + 1);
                                    if !(q < r && r <= s.len()) {
                                        None
                                    } else {
                                        sp_members(s, r, acc.push((key, v)))
                                    }
                                } else if q < s.len() && s[q] == '}' {
                                    Some((JsonView::Obj(acc.push((key, v))), q + 1))
                                } else {
                                    None
                                }
                            },
                            None => None,
                        }
                    }
                }
            },
            None => None,
        }
    }
}

/// What parsing a whole text yields: one value, possibly surrounded by
/// whitespace, and nothing after it.
pub open spec fn sp_json(s: Seq<char>) -> Option<JsonView> {
    let i = skip_ws(s, 0);
    if !(0 <= i && i <= s.len()) {
        None
    } else {
        match sp_value(s, i) {
            Some((v, j)) => if 0 <= j <= s.len() && skip_ws(s, j) == s.len() {
                Some(v)
            } else {
                None
            },
            None => None,
        }
    }
}

/// Appending one value extends the views by that value's view.
proof fn lemma_views_push(s: Seq<Json>, x: Json)
    ensures
        views(s.push(x)) == views(s).push(json_view(x)),
{
    assert(s.push(x).drop_last() =~= s);
    assert(s.push(x).last() == x);
}

/// Appending one member extends the member views accordingly.
proof fn lemma_member_views_push(s: Seq<(String, Json)>, kv: (String, Json))
    ensures
        member_views(s.push(kv)) == member_views(s).push((kv.0@, json_view(kv.1))),
{
    assert(s.push(kv).drop_last() =~= s);
    assert(s.push(kv).last() == kv);
}

/// The first position at or after `i` without whitespace, executably.
pub fn skip_whitespace(chars: &Vec<char>, i: usize) -> (r: usize)
    requires
        i <= chars@.len(),
    ensures
        r as int == skip_ws(chars@, i as int),
        i <= r <= chars@.len(),
{
    let n = chars.len();
    let mut j = i;
    while j < n && (chars[j] == ' ' || chars[j] == '\t' || chars[j] == '\n' || chars[j] == '\r')
        invariant
            i <= j <= n,
            n == chars@.len(),
            skip_ws(chars@, i as int) == skip_ws(chars@, j as int),
        decreases n - j,
    {
        j += 1;
    }
    j
}

/// One hexadecimal digit, executably.
fn hex_digit(c: char) -> (r: Option<u32>)
    ensures
        r == hex_val(c),
{
    if '0' <= c && c <= '9' {
        Some(c as u32 - 48)
    } else if 'a' <= c && c <= 'f' {
        Some(c as u32 - 87)
    } else if 'A' <= c && c <= 'F' {
        Some(c as u32 - 55)
    } else {
        None
    }
}

/// Four hexadecimal digits, executably.
fn hex4_exec(chars: &Vec<char>, i: usize) -> (r: Option<u32>)
    requires
        i <= chars@.len(),
    ensures
        r == hex4(chars@, i as int),
        r is Some ==> i + 4 <= chars@.len(),
{
    if chars.len() - i < 4 {
        return None;
    }
    let a = match hex_digit(chars[i]) {
        Some(x) => x,
        None => {
            return None;
        },
    };
    let b = match hex_digit(chars[i + 1]) {
        Some(x) => x,
        None => {
            return None;
        },
    };
    let c = match hex_digit(chars[i + 2]) {
        Some(x) => x,
        None => {
            return None;
        },
    };
    let d = match hex_digit(chars[i + 3]) {
        Some(x) => x,
        None => {
            return None;
        },
    };
    Some(a * 0x1000 + b * 0x100 + c * 0x10 + d)
}

/// The character named by a single-character escape, executably.
fn esc(e: char) -> (r: Option<char>)
    ensures
        r == escape_char(e),
{
    if e == '"' {
        Some('"')
    } else if e == '\\' {
        Some('\\')
    } else if e == '/' {
        Some('/')
    } else if e == 'b' {
        Some('\u{8}')
    } else if e == 'f' {
        Some('\u{c}')
    } else if e == 'n' {
        Some('\n')
    } else if e == 'r' {
        Some('\r')
    } else if e == 't' {
        Some('\t')
    } else {
        None
    }
}

/// String content from just after the opening quote, executably.
#[verifier::rlimit(100)]
fn p_string(chars: &Vec<char>, i: usize) -> (r: Option<(String, usize)>)
    requires
        i <= chars@.len(),
    ensures
        match r {
            Some((out, j)) => sp_string(chars@, i as int) == Some((out@, j as int)) && i < j
                <= chars@.len(),
            None => sp_string(chars@, i as int) is None,
        },
{
    let n = chars.len();
    let mut cur = i;
    let mut buf: Vec<char> = Vec::new();
    loop
        invariant
            n == chars@.len(),
            i <= cur <= n,
            sp_string(chars@, i as int) == (match sp_string(chars@, cur as int) {
                Some((rest, j)) => Some((buf@ + rest, j)),
                None => None::<(Seq<char>, int)>,
            }),
        decreases n - cur,
    {
        if cur == n {
            return None;
        }
        let c = chars[cur];
        let ghost buf0 = buf@;
        if c == '"' {
            let out = crate::strutil::chars_to_string(&buf);
            proof {
                assert(buf0 + Seq::<char>::empty() =~= buf0);
            }
            return Some((out, cur + 1));
        } else if c == '\\' {
            if cur + 1 == n {
                return None;
            }
            let e = chars[cur + 1];
            if e == 'u' {
                let v = match hex4_exec(chars, cur + 2) {
                    Some(v) => v,
                    None => {
                        return None;
                    },
                };
                if v >= 0xD800 && v < 0xDC00 {
                    if !(n - cur > 7 && chars[cur + 6] == '\\' && chars[cur + 7] == 'u') {
                        return None;
                    }
                    let w = match hex4_exec(chars, cur + 8) {
                        Some(w) => w,
                        None => {
                            return None;
                        },
                    };
                    if !(w >= 0xDC00 && w < 0xE000) {
                        return None;
                    }
                    let combined: u32 = 0x10000 + (v - 0xD800) * 0x400 + (w - 0xDC00);
                    let c2 = match char::from_u32(combined) {
                        Some(c2) => c2,
                        None => {
                            proof {
                                assert(false);
                            }
                            return None;
                        },
                    };
                    buf.push(c2);
                    cur = cur + 12;
                    proof {
                        assert(c2 == surrogate_scalar(v, w));
                        lemma_string_step(chars@, i as int, cur - 12, cur as int, buf0, c2);
                    }
                } else if v >= 0xDC00 && v < 0xE000 {
                    return None;
                } else {
                    let c2 = match char::from_u32(v) {
                        Some(c2) => c2,
                        None => {
                            proof {
                                assert(false);
                            }
                            return None;
                        },
                    };
                    buf.push(c2);
                    cur = cur + 6;
                    proof {
                        lemma_string_step(chars@, i as int, cur - 6, cur as int, buf0, c2);
                    }
                }
            } else {
                let c2 = match esc(e) {
                    Some(c2) => c2,
                    None => {
                        return None;
                    },
                };
                buf.push(c2);
                cur = cur + 2;
                proof {
                    lemma_string_step(chars@, i as int, cur - 2, cur as int, buf0, c2);
                }
            }
        } else if !(c >= ' ') {
            proof {
                assert(is_control(c));
            }
            return None;
        } else {
            buf.push(c);
            cur = cur + 1;
            proof {
                lemma_string_step(chars@, i as int, cur - 1, cur as int, buf0, c);
            }
        }
    }
}

/// One unescaping step: if the character `c` stands for the text between
/// `cur` and `next`, the continuation relation moves from `cur` to `next`.
proof fn lemma_string_step(s: Seq<char>, i: int, cur: int, next: int, buf0: Seq<char>, c: char)
    requires
        sp_string(s, cur) == (match sp_string(s, next) {
            Some((rest, j)) => Some((seq![c] + rest, j)),
            None => None::<(Seq<char>, int)>,
        }),
        sp_string(s, i) == (match sp_string(s, cur) {
            Some((rest, j)) => Some((buf0 + rest, j)),
            None => None::<(Seq<char>, int)>,
        }),
    ensures
        sp_string(s, i) == (match sp_string(s, next) {
            Some((rest, j)) => Some(((buf0.push(c)) + rest, j)),
            None => None::<(Seq<char>, int)>,
        }),
{
    match sp_string(s, next) {
        Some((rest, j)) => {
            assert(buf0 + (seq![c] + rest) =~= (buf0.push(c)) + rest);
        },
        None => {},
    }
}

/// A number lexeme, executably.
fn p_number(chars: &Vec<char>, i: usize) -> (r: Option<(String, usize)>)
    requires
        i < chars@.len(),
    ensures
        match r {
            Some((lex, j)) => sp_number(chars@, i as int) == Some((lex@, j as int)) && i < j
                <= chars@.len(),
            None => sp_number(chars@, i as int) is None,
        },
{
    let n = chars.len();
    let p = if chars[i] == '-' {
        i + 1
    } else {
        i
    };
    let li = digit_run(chars, p);
    if li == 0 {
        return None;
    }
    if chars[p] == '0' && li != 1 {
        return None;
    }
    let q = p + li;
    let q2 = if q < n && chars[q] == '.' {
        let lf = digit_run(chars, q + 1);
        if lf == 0 {
            return None;
        }
        q + 1 + lf
    } else {
        q
    };
    let q3 = if q2 < n && (chars[q2] == 'e' || chars[q2] == 'E') {
        let r1 = if q2 + 1 < n && (chars[q2 + 1] == '+' || chars[q2 + 1] == '-') {
            q2 + 2
        } else {
            q2 + 1
        };
        let le = digit_run(chars, r1);
        if le == 0 {
            return None;
        }
        r1 + le
    } else {
        q2
    };
    let mut buf: Vec<char> = Vec::new();
    for j in i..q3
        invariant
            i <= j <= q3 <= chars@.len(),
            buf@ == chars@.subrange(i as int, j as int),
    {
        buf.push(chars[j]);
        proof {
            assert(chars@.subrange(i as int, j + 1) =~= chars@.subrange(i as int, j as int).push(
                chars@[j as int],
            ));
        }
    }
    Some((crate::strutil::chars_to_string(&buf), q3))
}

/// One JSON value from position `i`, executably.
fn p_value(chars: &Vec<char>, i: usize) -> (r: Option<(Json, usize)>)
    requires
        i <= chars@.len(),
    ensures
        match r {
            Some((v, j)) => sp_value(chars@, i as int) == Some((v@, j as int)) && i < j
                <= chars@.len(),
            None => sp_value(chars@, i as int) is None,
        },
    decreases chars@.len() - i, 2int,
{
    let n = chars.len();
    if i >= n {
        return None;
    }
    let c = chars[i];
    if c == 'n' {
        if n - i >= 4 && chars[i + 1] == 'u' && chars[i + 2] == 'l' && chars[i + 3] == 'l' {
            Some((Json::Null, i + 4))
        } else {
            None
        }
    } else if c == 't' {
        if n - i >= 4 && chars[i + 1] == 'r' && chars[i + 2] == 'u' && chars[i + 3] == 'e' {
            Some((Json::Bool(true), i + 4))
        } else {
            None
        }
    } else if c == 'f' {
        if n - i >= 5 && chars[i + 1] == 'a' && chars[i + 2] == 'l' && chars[i + 3] == 's'
            && chars[i + 4] == 'e' {
            Some((Json::Bool(false), i + 5))
        } else {
            None
        }
    } else if c == '"' {
        match p_string(chars, i + 1) {
            Some((content, j)) => Some((Json::Str(content), j)),
            None => None,
        }
    } else if c == '-' || ('0' <= c && c <= '9') {
        match p_number(chars, i) {
            Some((lex, j)) => Some((Json::Num(lex), j)),
            None => None,
        }
    } else if c == '[' {
        let j = skip_whitespace(chars, i + 1);
        if j < n && chars[j] == ']' {
            let out = Json::Arr(Vec::new());
            proof {
                assert(out@ == JsonView::Arr(Seq::<JsonView>::empty()));
            }
            Some((out, j + 1))
        } else {
            let acc: Vec<Json> = Vec::new();
            proof {
                assert(views(acc@) =~= Seq::<JsonView>::empty());
            }
            p_items(chars, j, acc)
        }
    } else if c == '{' {
        let j = skip_whitespace(chars, i + 1);
        if j < n && chars[j] == '}' {
            let out = Json::Obj(Vec::new());
            proof {
                assert(out@ == JsonView::Obj(Seq::<(Seq<char>, JsonView)>::empty()));
            }
            Some((out, j + 1))
        } else {
            let acc: Vec<(String, Json)> = Vec::new();
            proof {
                assert(member_views(acc@) =~= Seq::<(Seq<char>, JsonView)>::empty());
            }
            p_members(chars, j, acc)
        }
    } else {
        None
    }
}

/// The remaining array items from position `i`, executably.
fn p_items(chars: &Vec<char>, i: usize, acc: Vec<Json>) -> (r: Option<(Json, usize)>)
    requires
        i <= chars@.len(),
    ensures
        match r {
            Some((v, j)) => sp_items(chars@, i as int, views(acc@)) == Some((v@, j as int)) && i
                < j <= chars@.len(),
            None => sp_items(chars@, i as int, views(acc@)) is None,
        },
    decreases chars@.len() - i, 3int,
{
    let ghost acc0 = views(acc@);
    let n = chars.len();
    match p_value(chars, i) {
        None => None,
        Some((v, j)) => {
            let ghost vv = v@;
            let k = skip_whitespace(chars, j);
            let mut items = acc;
            items.push(v);
            proof {
                lemma_views_push(acc@, v);
                assert(views(items@) == acc0.push(vv));
            }
            if k < n && chars[k] == ',' {
                let m = skip_whitespace(chars, k + 1);
                p_items(chars, m, items)
            } else if k < n && chars[k] == ']' {
                let out = Json::Arr(items);
                Some((out, k + 1))
            } else {
                None
            }
        },
    }
}

/// The remaining object members from position `i`, executably.
fn p_members(chars: &Vec<char>, i: usize, acc: Vec<(String, Json)>) -> (r: Option<(Json, usize)>)
    requires
        i <= chars@.len(),
    ensures
        match r {
            Some((v, j)) => sp_members(chars@, i as int, member_views(acc@)) == Some(
                (v@, j as int),
            ) && i < j <= chars@.len(),
            None => sp_members(chars@, i as int, member_views(acc@)) is None,
        },
    decreases chars@.len() - i, 3int,
{
    let ghost acc0 = member_views(acc@);
    let n = chars.len();
    if i >= n || !(chars[i] == '"') {
        return None;
    }
    match p_string(chars, i + 1) {
        None => None,
        Some((key, j)) => {
            let k = skip_whitespace(chars, j);
            if !(k < n && chars[k] == ':') {
                return None;
            }
            let m = skip_whitespace(chars, k + 1);
            match p_value(chars, m) {
                None => None,
                Some((v, p)) => {
                    let ghost kv = (key@, v@);
                    let q = skip_whitespace(chars, p);
                    let mut members = acc;
                    members.push((key, v));
                    proof {
                        lemma_member_views_push(acc@, (key, v));
                        assert(member_views(members@) == acc0.push(kv));
                    }
                    if q < n && chars[q] == ',' {
                        let r2 = skip_whitespace(chars, q + 1);
                        p_members(chars, r2, members)
                    } else if q < n && chars[q] == '}' {
                        let out = Json::Obj(members);
                        Some((out, q + 1))
                    } else {
                        None
                    }
                },
            }
        },
    }
}

/// Parses JSON text into a value; `None` exactly when the text does not hold
/// one well-formed JSON value.
pub fn parse_json(s: &str) -> (r: Option<Json>)
    ensures
        match r {
            Some(j) => sp_json(s@) == Some(j@),
            None => sp_json(s@) is None,
        },
{
    let chars = crate::strutil::str_to_chars(s);
    let i = skip_whitespace(&chars, 0);
    match p_value(&chars, i) {
        None => None,
        Some((v, j)) => {
            let k = skip_whitespace(&chars, j);
            if k == chars.len() {
                Some(v)
            } else {
                None
            }
        },
    }
}

/// The members of an object value.
pub open spec fn jobj(v: JsonView) -> Option<Seq<(Seq<char>, JsonView)>> {
    match v {
        JsonView::Obj(m) => Some(m),
        _ => None,
    }
}

/// The content of a string value.
pub open spec fn jstr(v: JsonView) -> Option<Seq<char>> {
    match v {
        JsonView::Str(s) => Some(s),
        _ => None,
    }
}

/// The elements of an array value.
pub open spec fn jarr(v: JsonView) -> Option<Seq<JsonView>> {
    match v {
        JsonView::Arr(a) => Some(a),
        _ => None,
    }
}

/// The lexeme of a number value.
pub open spec fn jnum(v: JsonView) -> Option<Seq<char>> {
    match v {
        JsonView::Num(x) => Some(x),
        _ => None,
    }
}

/// The value at the first occurrence of `k` among the members.
pub open spec fn spec_lookup(m: Seq<(Seq<char>, JsonView)>, k: Seq<char>) -> Option<JsonView>
    decreases m.len(),
{
    if m.len() == 0 {
        None
    } else if m.first().0 == k {
        Some(m.first().1)
    } else {
        spec_lookup(m.drop_first(), k)
    }
}

/// The first member key, scanning from position `j`, that is one of the
/// `known` keys and already occurred earlier in the object.
pub open spec fn spec_first_dup(
    m: Seq<(Seq<char>, JsonView)>,
    known: Seq<Seq<char>>,
    j: int,
) -> Option<Seq<char>>
    decreases m.len() - j,
{
    if !(0 <= j && j < m.len()) {
        None
    } else if known.contains(m[j].0) && (exists|i: int| 0 <= i < j && m[i].0 == m[j].0) {
        Some(m[j].0)
    } else {
        spec_first_dup(m, known, j + 1)
    }
}

/// The members as string pairs, provided every value is a string.
pub open spec fn str_map(v: JsonView) -> Option<Seq<(Seq<char>, Seq<char>)>> {
    match v {
        JsonView::Obj(m) => if forall|i: int| 0 <= i < m.len() ==> (#[trigger] m[i].1) is Str {
            Some(m.map_values(|p: (Seq<char>, JsonView)| (p.0, p.1->Str_0)))
        } else {
            None
        },
        _ => None,
    }
}

/// The elements as string pair lists, provided each is an all-string object.
pub open spec fn str_map_list(v: JsonView) -> Option<Seq<Seq<(Seq<char>, Seq<char>)>>> {
    match v {
        JsonView::Arr(a) => if forall|i: int| 0 <= i < a.len() ==> str_map(#[trigger] a[i]) is Some {
            Some(a.map_values(|e: JsonView| str_map(e).unwrap()))
        } else {
            None
        },
        _ => None,
    }
}

/// The elements as strings, provided every element is a string.
pub open spec fn str_list(v: JsonView) -> Option<Seq<Seq<char>>> {
    match v {
        JsonView::Arr(a) => if forall|i: int| 0 <= i < a.len() ==> (#[trigger] a[i]) is Str {
            Some(a.map_values(|e: JsonView| e->Str_0))
        } else {
            None
        },
        _ => None,
    }
}

impl Json {
    /// The members of an object, or `None` for any other kind of value.
    pub fn as_obj(&self) -> (r: Option<&Vec<(String, Json)>>)
        ensures
            match r {
                Some(m) => jobj(self@) == Some(member_views(m@)),
                None => jobj(self@) is None,
            },
    {
        match self {
            Json::Obj(m) => Some(m),
            _ => None,
        }
    }

    /// The content of a string, or `None` for any other kind of value.
    pub fn as_str_value(&self) -> (r: Option<&String>)
        ensures
            match r {
                Some(s) => jstr(self@) == Some(s@),
                None => jstr(self@) is None,
            },
    {
        match self {
            Json::Str(s) => Some(s),
            _ => None,
        }
    }

    /// The elements of an array, or `None` for any other kind of value.
    pub fn as_arr(&self) -> (r: Option<&Vec<Json>>)
        ensures
            match r {
                Some(a) => jarr(self@) == Some(views(a@)),
                None => jarr(self@) is None,
            },
    {
        match self {
            Json::Arr(a) => Some(a),
            _ => None,
        }
    }

    /// The lexeme of a number, or `None` for any other kind of value.
    pub fn as_num_lexeme(&self) -> (r: Option<&String>)
        ensures
            match r {
                Some(s) => jnum(self@) == Some(s@),
                None => jnum(self@) is None,
            },
    {
        match self {
            Json::Num(s) => Some(s),
            _ => None,
        }
    }
}

/// The value at the first occurrence of `k`, executably.
#[verifier::loop_isolation(false)]
pub fn lookup_key<'a>(m: &'a Vec<(String, Json)>, k: &str) -> (r: Option<&'a Json>)
    ensures
        match r {
            Some(v) => spec_lookup(member_views(m@), k@) == Some(v@),
            None => spec_lookup(member_views(m@), k@) is None,
        },
{
    broadcast use {lemma_member_views_len, lemma_member_views_index};

    proof {
        assert(member_views(m@).skip(0) =~= member_views(m@));
    }
    let n = m.len();
    for i in 0..n
        invariant
            n == m@.len(),
            spec_lookup(member_views(m@), k@) == spec_lookup(
                member_views(m@).skip(i as int),
                k@,
            ),
    {
        proof {
            assert(member_views(m@).skip(i as int).first() == (m@[i as int].0@, m@[i as int].1@));
            assert(member_views(m@).skip(i as int).drop_first() =~= member_views(m@).skip(i + 1));
        }
        if crate::strutil::str_eq(m[i].0.as_str(), k) {
            return Some(&m[i].1);
        }
    }
    None
}

/// The first duplicated known key, executably.
#[verifier::loop_isolation(false)]
pub fn find_dup_key(m: &Vec<(String, Json)>, known: &Vec<&str>) -> (r: Option<String>)
    ensures
        match r {
            Some(k) => spec_first_dup(member_views(m@), known.deep_view(), 0) == Some(k@),
            None => spec_first_dup(member_views(m@), known.deep_view(), 0) is None,
        },
{
    broadcast use {lemma_member_views_len, lemma_member_views_index};

    let n = m.len();
    for j in 0..n
        invariant
            n == m@.len(),
            spec_first_dup(member_views(m@), known.deep_view(), 0) == spec_first_dup(
                member_views(m@),
                known.deep_view(),
                j as int,
            ),
    {
        let mut is_known: bool = false;
        let kn = known.len();
        for t in 0..kn
            invariant
                kn == known@.len(),
                j < m@.len(),
                is_known ==> known.deep_view().contains(member_views(m@)[j as int].0),
                !is_known ==> forall|t2: int|
                    0 <= t2 < t ==> known.deep_view()[t2] != member_views(m@)[j as int].0,
        {
            if crate::strutil::str_eq(m[j].0.as_str(), known[t]) {
                is_known = true;
                proof {
                    assert(known.deep_view()[t as int] == known@[t as int]@);
                }
            }
        }
        let mut seen: bool = false;
        if is_known {
            for i in 0..j
                invariant
                    j < m@.len(),
                    seen ==> (exists|i2: int|
                        0 <= i2 < j && member_views(m@)[i2].0 == member_views(m@)[j as int].0),
                    !seen ==> forall|i2: int|
                        0 <= i2 < i ==> member_views(m@)[i2].0 != member_views(m@)[j as int].0,
            {
                if crate::strutil::str_eq(m[i].0.as_str(), m[j].0.as_str()) {
                    seen = true;
                    proof {
                        assert(member_views(m@)[i as int].0 == member_views(m@)[j as int].0);
                    }
                }
            }
        }
        if is_known && seen {
            return Some(m[j].0.clone());
        }
    }
    None
}

/// The members as owned string pairs, when every value is a string.
#[verifier::loop_isolation(false)]
pub fn to_str_map(j: &Json) -> (r: Option<Vec<(String, String)>>)
    ensures
        match r {
            Some(m) => str_map(j@) == Some(m.deep_view()),
            None => str_map(j@) is None,
        },
{
    broadcast use {lemma_member_views_len, lemma_member_views_index};

    let mm = match j.as_obj() {
        Some(mm) => mm,
        None => {
            return None;
        },
    };
    let mut out: Vec<(String, String)> = Vec::new();
    let n = mm.len();
    for i in 0..n
        invariant
            out@.len() == i as int,
            forall|j2: int| 0 <= j2 < i ==> (#[trigger] member_views(mm@)[j2].1) is Str,
            forall|j2: int|
                0 <= j2 < i ==> (#[trigger] out@[j2]).0@ == member_views(mm@)[j2].0 && out@[j2].1@
                    == member_views(mm@)[j2].1->Str_0,
    {
        let val = match mm[i].1.as_str_value() {
            Some(v) => v,
            None => {
                proof {
                    assert(member_views(mm@)[i as int].1 == mm@[i as int].1@);
                }
                return None;
            },
        };
        out.push((mm[i].0.clone(), val.clone()));
    }
    proof {
        let ghost mv = member_views(mm@);
        assert(out.deep_view() =~= mv.map_values(|p: (Seq<char>, JsonView)| (p.0, p.1->Str_0)));
    }
    Some(out)
}

/// The elements as owned string maps, when each is an all-string object.
#[verifier::loop_isolation(false)]
pub fn to_str_map_list(j: &Json) -> (r: Option<Vec<Vec<(String, String)>>>)
    ensures
        match r {
            Some(l) => str_map_list(j@) == Some(l.deep_view()),
            None => str_map_list(j@) is None,
        },
{
    broadcast use {lemma_views_len, lemma_views_index};

    let a = match j.as_arr() {
        Some(a) => a,
        None => {
            return None;
        },
    };
    let mut out: Vec<Vec<(String, String)>> = Vec::new();
    let n = a.len();
    for i in 0..n
        invariant
            out@.len() == i as int,
            forall|j2: int| 0 <= j2 < i ==> str_map(#[trigger] views(a@)[j2]) is Some,
            forall|j2: int|
                0 <= j2 < i ==> (#[trigger] out@[j2]).deep_view() == str_map(
                    views(a@)[j2],
                ).unwrap(),
    {
        let m = match to_str_map(&a[i]) {
            Some(m) => m,
            None => {
                proof {
                    assert(str_map(views(a@)[i as int]) is None);
                    assert(!(forall|i2: int|
                        0 <= i2 < views(a@).len() ==> str_map(#[trigger] views(a@)[i2]) is Some));
                }
                return None;
            },
        };
        out.push(m);
    }
    proof {
        let ghost av = views(a@);
        assert(out.deep_view() =~= av.map_values(|e: JsonView| str_map(e).unwrap()));
    }
    Some(out)
}

/// The elements as owned strings, when every element is a string.
#[verifier::loop_isolation(false)]
pub fn to_str_list(j: &Json) -> (r: Option<Vec<String>>)
    ensures
        match r {
            Some(l) => str_list(j@) == Some(l.deep_view()),
            None => str_list(j@) is None,
        },
{
    broadcast use {lemma_views_len, lemma_views_index};

    let a = match j.as_arr() {
        Some(a) => a,
        None => {
            return None;
        },
    };
    let mut out: Vec<String> = Vec::new();
    let n = a.len();
    for i in 0..n
        invariant
            out@.len() == i as int,
            forall|j2: int| 0 <= j2 < i ==> (#[trigger] views(a@)[j2]) is Str,
            forall|j2: int| 0 <= j2 < i ==> (#[trigger] out@[j2])@ == views(a@)[j2]->Str_0,
    {
        let s = match a[i].as_str_value() {
            Some(s) => s,
            None => {
                proof {
                    assert(!((views(a@)[i as int]) is Str));
                    assert(!(forall|i2: int|
                        0 <= i2 < views(a@).len() ==> (#[trigger] views(a@)[i2]) is Str));
                }
                return None;
            },
        };
        out.push(s.clone());
    }
    proof {
        let ghost av = views(a@);
        assert(out.deep_view() =~= av.map_values(|e: JsonView| e->Str_0));
    }
    Some(out)
}

/// The members as string lists, provided every value is an array of strings.
pub open spec fn str_list_map(v: JsonView) -> Option<Seq<(Seq<char>, Seq<Seq<char>>)>> {
    match v {
        JsonView::Obj(m) => if forall|i: int|
            0 <= i < m.len() ==> str_list((#[trigger] m[i]).1) is Some {
            Some(m.map_values(|p: (Seq<char>, JsonView)| (p.0, str_list(p.1).unwrap())))
        } else {
            None
        },
        _ => None,
    }
}

/// The members as owned string lists, when every value is an array of
/// strings.
#[verifier::loop_isolation(false)]
pub fn to_str_list_map(j: &Json) -> (r: Option<Vec<(String, Vec<String>)>>)
    ensures
        match r {
            Some(m) => str_list_map(j@) == Some(m.deep_view()),
            None => str_list_map(j@) is None,
        },
{
    broadcast use {lemma_member_views_len, lemma_member_views_index};

    let mm = match j.as_obj() {
        Some(mm) => mm,
        None => {
            return None;
        },
    };
    let mut out: Vec<(String, Vec<String>)> = Vec::new();
    let n = mm.len();
    for i in 0..n
        invariant
            out@.len() == i as int,
            forall|j2: int| 0 <= j2 < i ==> str_list((#[trigger] member_views(mm@)[j2]).1)
                is Some,
            forall|j2: int|
                0 <= j2 < i ==> (#[trigger] out@[j2]).0@ == member_views(mm@)[j2].0 && out@[
                    j2
                ].1.deep_view() == str_list(member_views(mm@)[j2].1).unwrap(),
    {
        let val = match to_str_list(&mm[i].1) {
            Some(v) => v,
            None => {
                proof {
                    assert(member_views(mm@)[i as int].1 == mm@[i as int].1@);
                    assert(!(forall|i2: int|
                        0 <= i2 < member_views(mm@).len() ==> str_list(
                            (#[trigger] member_views(mm@)[i2]).1,
                        ) is Some));
                }
                return None;
            },
        };
        out.push((mm[i].0.clone(), val));
    }
    proof {
        let ghost mv = member_views(mm@);
        assert(out.deep_view() =~= mv.map_values(
            |p: (Seq<char>, JsonView)| (p.0, str_list(p.1).unwrap()),
        ));
    }
    Some(out)
}

} // verus!
