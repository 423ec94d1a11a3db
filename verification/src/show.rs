//! Building blocks of the response renderings: member lookups with
//! defaults, rules, padding, money and table rows.
use vstd::prelude::*;
use crate::json::{Json, JVal, jvs};
use crate::render::cells;
use crate::text::{
    push_char, push_u64, digit_of, digit_char, nat_text, chars_of, sub_chars, string_of_all, find_spec,
    find_seq, find_char, index_of, views,
};
use crate::width::{str_width, str_columns};

verus! {

/// The `data` member of a response, `Null` where there is none.
pub open spec fn data_of(val: JVal) -> JVal {
    val.field("data"@)
}

/// The `data` member of `val`, borrowed, or `null`.
pub fn data_ref<'a>(val: &'a Json, null: &'a Json) -> (r: &'a Json)
    requires
        null@ == JVal::Null,
    ensures
        r@ == data_of(val@),
{
    match val.get("data") {
        Some(d) => d,
        None => null,
    }
}

/// `v.get(key).and_then(|x| x.as_str()).unwrap_or(dflt)`.
pub open spec fn text_or(v: JVal, key: Seq<char>, dflt: Seq<char>) -> Seq<char> {
    match v.str_at(key) {
        Some(s) => s,
        None => dflt,
    }
}

/// `v.get(key).and_then(|x| x.as_i64()).unwrap_or(dflt)`.
pub open spec fn int_or(v: JVal, key: Seq<char>, dflt: int) -> int {
    match v.i64_at(key) {
        Some(n) => n,
        None => dflt,
    }
}

/// `v.get(key).and_then(|x| x.as_bool()).unwrap_or(false)`.
pub open spec fn flag(v: JVal, key: Seq<char>) -> bool {
    v.bool_at(key) == Some(true)
}

/// `v.get(key).and_then(|x| x.as_array())`, empty where absent.
pub open spec fn list_or_empty(v: JVal, key: Seq<char>) -> Seq<JVal> {
    match v.arr_at(key) {
        Some(a) => a,
        None => Seq::empty(),
    }
}

/// The string member `key` of `v`, or `dflt` (see [`text_or`]).
pub fn text_at(v: &Json, key: &str, dflt: &str) -> (r: String)
    ensures
        r@ == text_or(v@, key@, dflt@),
{
    match v.get_str(key) {
        Some(s) => s.clone(),
        None => dflt.to_owned(),
    }
}

/// Appends the string member `key` of `v`, or `dflt`.
pub fn push_text_or(out: &mut String, v: &Json, key: &str, dflt: &str)
    ensures
        final(out)@ == old(out)@ + text_or(v@, key@, dflt@),
{
    let t = text_at(v, key, dflt);
    out.append(t.as_str());
}

/// The integer member `key` of `v`, or `dflt` (see [`int_or`]).
pub fn int_at(v: &Json, key: &str, dflt: i64) -> (r: i64)
    ensures
        r == int_or(v@, key@, dflt as int),
{
    match v.get_i64(key) {
        Some(n) => n,
        None => dflt,
    }
}

/// Whether the member `key` of `v` is `true` (see [`flag`]).
pub fn flag_at(v: &Json, key: &str) -> (r: bool)
    ensures
        r == flag(v@, key@),
{
    match v.get_bool(key) {
        Some(b) => b,
        None => false,
    }
}

/// `n` box-drawing rule characters `═`.
pub open spec fn rule(n: nat) -> Seq<char> {
    Seq::new(n, |i: int| '═')
}

/// Appends `"═".repeat(n)`.
pub fn push_rule(out: &mut String, n: usize)
    ensures
        final(out)@ == old(out)@ + rule(n as nat),
{
    let mut k: usize = 0;
    while k < n
        invariant
            k <= n,
            out@ == old(out)@ + rule(k as nat),
        decreases n - k,
    {
        push_char(out, '═');
        assert(old(out)@ + rule((k + 1) as nat) =~= (old(out)@ + rule(k as nat)).push('═'));
        k += 1;
    }
}

/// `n` spaces.
pub open spec fn spaces(n: nat) -> Seq<char> {
    Seq::new(n, |i: int| ' ')
}

/// `s` padded with spaces to `width` display columns.
pub open spec fn pad_text(s: Seq<char>, width: nat) -> Seq<char> {
    if str_columns(s) >= width {
        s
    } else {
        s + spaces((width - str_columns(s)) as nat)
    }
}

/// `s` padded with spaces to `width` display columns (see [`pad_text`]).
pub fn pad(s: &str, width: usize) -> (r: String)
    ensures
        r@ == pad_text(s@, width as nat),
{
    let w = str_width(s);
    let mut out = s.to_owned();
    if w < width {
        let mut k: usize = 0;
        while k < width - w
            invariant
                w < width,
                k <= width - w,
                out@ == s@ + spaces(k as nat),
            decreases width - w - k,
        {
            push_char(&mut out, ' ');
            assert(s@ + spaces((k + 1) as nat) =~= (s@ + spaces(k as nat)).push(' '));
            k += 1;
        }
    }
    out
}

/// An amount in cents as exact yuan: `¥`, the sign, the yuan, a point and
/// the two cent digits. For |cents| < 100·2^46 this is what
/// `format!("¥{:.2}", cents as f64 / 100.0)` prints; beyond that, floating
/// point rounding would change the cent digits, and the exact amount is
/// written instead.
pub open spec fn money_cents_text(cents: int) -> Seq<char> {
    let mag: nat = if cents < 0 { (-cents) as nat } else { cents as nat };
    "¥"@ + (if cents < 0 { seq!['-'] } else { Seq::empty() }) + nat_text(mag / 100) + seq![
        '.',
        digit_char((mag % 100) / 10),
        digit_char(mag % 10),
    ]
}

/// An amount in cents as yuan (see [`money_cents_text`]).
pub fn money_cents(cents: i64) -> (r: String)
    ensures
        r@ == money_cents_text(cents as int),
{
    let mut s = String::new();
    s.append("¥");
    let mag: u64 = if cents < 0 {
        push_char(&mut s, '-');
        if cents == i64::MIN {
            9223372036854775808u64
        } else {
            (-cents) as u64
        }
    } else {
        cents as u64
    };
    let ghost head = s@;
    push_u64(&mut s, mag / 100);
    push_char(&mut s, '.');
    push_char(&mut s, digit_of((mag % 100) / 10));
    push_char(&mut s, digit_of(mag % 10));
    assert(s@ =~= money_cents_text(cents as int));
    s
}

/// The pattern that precedes an order id in a payment link.
pub open spec fn order_id_key() -> Seq<char> {
    seq!['o', 'r', 'd', 'e', 'r', 'I', 'd', '=']
}

/// `url.split("orderId=").nth(1).map(|s| s.split('&').next().unwrap_or(s))`:
/// the text after the first `orderId=`, up to the next `orderId=` and up to the
/// first `&`.
pub open spec fn order_id_spec(url: Seq<char>) -> Option<Seq<char>> {
    match find_spec(url, order_id_key()) {
        None => None,
        Some(i) => {
            let rest = url.skip(i + 8);
            let piece = match find_spec(rest, order_id_key()) {
                Some(j) => rest.take(j),
                None => rest,
            };
            Some(
                match index_of(piece, '&') {
                    Some(k) => piece.take(k),
                    None => piece,
                },
            )
        },
    }
}

/// The order id in a payment link (see [`order_id_spec`]).
pub fn extract_order_id(url: &str) -> (r: Option<String>)
    ensures
        match r {
            Some(id) => order_id_spec(url@) == Some(id@),
            None => order_id_spec(url@) is None,
        },
{
    let cs = chars_of(url);
    let key: Vec<char> = vec!['o', 'r', 'd', 'e', 'r', 'I', 'd', '='];
    assert(key@ =~= order_id_key());
    let n = cs.len();
    match find_seq(&cs, &key) {
        None => None,
        Some(i) => {
            let rest = sub_chars(&cs, i + 8, cs.len());
            assert(rest@ =~= url@.skip(i + 8));
            let piece = match find_seq(&rest, &key) {
                Some(j) => sub_chars(&rest, 0, j),
                None => rest,
            };
            assert(piece@ == match find_spec(url@.skip(i + 8), order_id_key()) {
                Some(j) => url@.skip(i + 8).take(j),
                None => url@.skip(i + 8),
            });
            let id = match find_char(&piece, 0, piece.len(), '&') {
                Some(k) => sub_chars(&piece, 0, k),
                None => piece,
            };
            assert(piece@.subrange(0, piece@.len() as int) =~= piece@);
            Some(string_of_all(&id))
        },
    }
}

/// A table row of four cells.
pub fn row4(a: String, b: String, c: String, d: String) -> (r: Vec<String>)
    ensures
        cells(r) == seq![a@, b@, c@, d@],
{
    let mut r: Vec<String> = Vec::new();
    r.push(a);
    r.push(b);
    r.push(c);
    r.push(d);
    assert(cells(r) =~= seq![a@, b@, c@, d@]);
    r
}

/// A table row of five cells.
pub fn row5(a: String, b: String, c: String, d: String, e: String) -> (r: Vec<String>)
    ensures
        cells(r) == seq![a@, b@, c@, d@, e@],
{
    let mut r: Vec<String> = Vec::new();
    r.push(a);
    r.push(b);
    r.push(c);
    r.push(d);
    r.push(e);
    assert(cells(r) =~= seq![a@, b@, c@, d@, e@]);
    r
}

/// A table row of six cells.
pub fn row6(a: String, b: String, c: String, d: String, e: String, f: String) -> (r: Vec<String>)
    ensures
        cells(r) == seq![a@, b@, c@, d@, e@, f@],
{
    let mut r: Vec<String> = Vec::new();
    r.push(a);
    r.push(b);
    r.push(c);
    r.push(d);
    r.push(e);
    r.push(f);
    assert(cells(r) =~= seq![a@, b@, c@, d@, e@, f@]);
    r
}

/// The array member `key` of `v`, or `empty` where it is absent.
pub fn list_at<'a>(v: &'a Json, key: &str, empty: &'a Vec<Json>) -> (r: &'a Vec<Json>)
    requires
        empty@.len() == 0,
    ensures
        jvs(r@) == list_or_empty(v@, key@),
{
    match v.get_array(key) {
        Some(a) => a,
        None => {
            assert(jvs(empty@) =~= Seq::<JVal>::empty());
            empty
        },
    }
}

/// `items.iter().filter_map(|v| v.as_str())`.
pub open spec fn str_items(items: Seq<JVal>) -> Seq<Seq<char>>
    decreases items.len(),
{
    if items.len() == 0 {
        Seq::empty()
    } else {
        let prev = str_items(items.drop_last());
        match items.last().as_str() {
            Some(s) => prev.push(s),
            None => prev,
        }
    }
}

/// `items.iter().filter_map(|v| v.get(key).and_then(|x| x.as_str()))`.
pub open spec fn member_texts(items: Seq<JVal>, key: Seq<char>) -> Seq<Seq<char>>
    decreases items.len(),
{
    if items.len() == 0 {
        Seq::empty()
    } else {
        let prev = member_texts(items.drop_last(), key);
        match items.last().str_at(key) {
            Some(s) => prev.push(s),
            None => prev,
        }
    }
}

/// The string items of a list (see [`str_items`]).
pub fn strings_in(items: &Vec<Json>) -> (r: Vec<String>)
    ensures
        views(r@) == str_items(jvs(items@)),
{
    let mut out: Vec<String> = Vec::new();
    let mut i: usize = 0;
    while i < items.len()
        invariant
            i <= items@.len(),
            views(out@) == str_items(jvs(items@).take(i as int)),
        decreases items@.len() - i,
    {
        assert(jvs(items@).take(i + 1).drop_last() =~= jvs(items@).take(i as int));
        assert(jvs(items@).take(i + 1).last() == items@[i as int]@);
        match items[i].as_str() {
            Some(t) => {
                let ghost before = out@;
                out.push(t.clone());
                assert(views(out@) =~= views(before).push(t@));
            },
            None => {},
        }
        i += 1;
    }
    assert(jvs(items@).take(items@.len() as int) =~= jvs(items@));
    out
}

/// The string members `key` of the items of a list (see [`member_texts`]).
pub fn texts_in(items: &Vec<Json>, key: &str) -> (r: Vec<String>)
    ensures
        views(r@) == member_texts(jvs(items@), key@),
{
    let mut out: Vec<String> = Vec::new();
    let mut i: usize = 0;
    while i < items.len()
        invariant
            i <= items@.len(),
            views(out@) == member_texts(jvs(items@).take(i as int), key@),
        decreases items@.len() - i,
    {
        assert(jvs(items@).take(i + 1).drop_last() =~= jvs(items@).take(i as int));
        assert(jvs(items@).take(i + 1).last() == items@[i as int]@);
        match items[i].get_str(key) {
            Some(t) => {
                let ghost before = out@;
                out.push(t.clone());
                assert(views(out@) =~= views(before).push(t@));
            },
            None => {},
        }
        i += 1;
    }
    assert(jvs(items@).take(items@.len() as int) =~= jvs(items@));
    out
}

/// Lines of `prefix`, an item and a newline, one per item.
pub open spec fn prefixed_lines(prefix: Seq<char>, items: Seq<Seq<char>>) -> Seq<char>
    decreases items.len(),
{
    if items.len() == 0 {
        Seq::empty()
    } else {
        prefixed_lines(prefix, items.drop_last()) + prefix + items.last() + "\n"@
    }
}

/// Appends a line of `prefix` and the item for each item.
pub fn push_prefixed_lines(out: &mut String, prefix: &str, items: &Vec<String>)
    ensures
        final(out)@ == old(out)@ + prefixed_lines(prefix@, views(items@)),
{
    let mut i: usize = 0;
    while i < items.len()
        invariant
            i <= items@.len(),
            out@ == old(out)@ + prefixed_lines(prefix@, views(items@).take(i as int)),
        decreases items@.len() - i,
    {
        assert(views(items@).take(i + 1).drop_last() =~= views(items@).take(i as int));
        out.append(prefix);
        out.append(items[i].as_str());
        out.append("\n");
        assert(out@ =~= old(out)@ + prefixed_lines(prefix@, views(items@).take(i + 1)));
        i += 1;
    }
    assert(views(items@).take(items@.len() as int) =~= views(items@));
}

/// The concatenation of `parts`, in order.
pub open spec fn concat(parts: Seq<Seq<char>>) -> Seq<char>
    decreases parts.len(),
{
    if parts.len() == 0 {
        Seq::empty()
    } else {
        concat(parts.drop_last()) + parts.last()
    }
}

pub proof fn lemma_concat_push(parts: Seq<Seq<char>>, x: Seq<char>)
    ensures
        concat(parts.push(x)) == concat(parts) + x,
{
    assert(parts.push(x).drop_last() =~= parts);
}

} // verus!
