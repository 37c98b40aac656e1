//! A JSON value model for the replies the library reads, with its mathematical view.

use vstd::prelude::*;
use serde_json::Value;

verus! {

/// A JSON number as serde_json holds it: a non-negative integer, a negative integer,
/// or a float given by its IEEE-754 bit pattern.
#[derive(Clone, Copy, Debug, PartialEq, Eq, Structural)]
pub enum JsonNumber {
    PosInt(u64),
    NegInt(i64),
    Float(u64),
}

/// A JSON value. An object lists its entries with their keys in the parser's order.
#[derive(Debug)]
pub enum Json {
    Null,
    Bool(bool),
    Number(JsonNumber),
    Str(String),
    Array(Vec<Json>),
    Object(Vec<(String, Json)>),
}

/// The mathematical form of a `Json` value.
pub enum JsonView {
    Null,
    Bool(bool),
    Number(JsonNumber),
    Str(Seq<char>),
    Array(Seq<JsonView>),
    Object(Seq<(Seq<char>, JsonView)>),
}

pub open spec fn json_view(j: Json) -> JsonView
    decreases j, 0nat,
{
    match j {
        Json::Null => JsonView::Null,
        Json::Bool(b) => JsonView::Bool(b),
        Json::Number(n) => JsonView::Number(n),
        Json::Str(s) => JsonView::Str(s@),
        Json::Array(v) => {
            proof { assert(decreases_to!(v => v@)); }
            JsonView::Array(json_views(v@))
        },
        Json::Object(m) => {
            proof { assert(decreases_to!(m => m@)); }
            JsonView::Object(entry_views(m@))
        },
    }
}

pub open spec fn json_views(s: Seq<Json>) -> Seq<JsonView>
    decreases s, 1nat,
{
    if s.len() == 0 {
        Seq::empty()
    } else {
        proof {
            assert(decreases_to!(s => s[s.len() - 1]));
            assert(decreases_to!(s => s.subrange(0, s.len() - 1)));
        }
        json_views(s.subrange(0, s.len() - 1)).push(json_view(s[s.len() - 1]))
    }
}

pub open spec fn entry_views(s: Seq<(String, Json)>) -> Seq<(Seq<char>, JsonView)>
    decreases s, 1nat,
{
    if s.len() == 0 {
        Seq::empty()
    } else {
        proof {
            assert(decreases_to!(s => s[s.len() - 1]));
            assert(decreases_to!(s => s.subrange(0, s.len() - 1)));
        }
        entry_views(s.subrange(0, s.len() - 1)).push((s[s.len() - 1].0@, json_view(s[s.len() - 1].1)))
    }
}

impl View for Json {
    type V = JsonView;

    open spec fn view(&self) -> JsonView {
        json_view(*self)
    }
}

pub proof fn lemma_json_views(s: Seq<Json>)
    ensures
        json_views(s).len() == s.len(),
        forall|i: int| 0 <= i < s.len() ==> #[trigger] json_views(s)[i] == json_view(s[i]),
    decreases s.len(),
{
    if s.len() > 0 {
        let t = s.subrange(0, s.len() - 1);
        lemma_json_views(t);
        assert forall|i: int| 0 <= i < s.len() implies #[trigger] json_views(s)[i] == json_view(s[i]) by {
            if i < s.len() - 1 {
                assert(t[i] == s[i]);
            }
        }
    }
}

pub proof fn lemma_entry_views(s: Seq<(String, Json)>)
    ensures
        entry_views(s).len() == s.len(),
        forall|i: int|
            0 <= i < s.len() ==> #[trigger] entry_views(s)[i] == (s[i].0@, json_view(s[i].1)),
    decreases s.len(),
{
    if s.len() > 0 {
        let t = s.subrange(0, s.len() - 1);
        lemma_entry_views(t);
        assert forall|i: int| 0 <= i < s.len() implies #[trigger] entry_views(s)[i] == (
        s[i].0@, json_view(s[i].1)) by {
            if i < s.len() - 1 {
                assert(t[i] == s[i]);
            }
        }
    }
}

/// The value of the first entry of `m` whose key is `key`.
pub open spec fn entry_lookup(m: Seq<(Seq<char>, JsonView)>, key: Seq<char>) -> Option<JsonView>
    decreases m.len(),
{
    if m.len() == 0 {
        None
    } else if m[0].0 == key {
        Some(m[0].1)
    } else {
        entry_lookup(m.subrange(1, m.len() as int), key)
    }
}

/// Member `key` of an object; nothing for any other value (serde_json's `Value::get`).
pub open spec fn json_get(v: JsonView, key: Seq<char>) -> Option<JsonView> {
    match v {
        JsonView::Object(m) => entry_lookup(m, key),
        _ => None,
    }
}

/// `json_get` through an optional value.
pub open spec fn opt_get(v: Option<JsonView>, key: Seq<char>) -> Option<JsonView> {
    match v {
        Some(x) => json_get(x, key),
        None => None,
    }
}

pub open spec fn opt_view(o: Option<&Json>) -> Option<JsonView> {
    match o {
        Some(j) => Some(j@),
        None => None,
    }
}

/// The text of a string value.
pub open spec fn as_text(v: Option<JsonView>) -> Option<Seq<char>> {
    match v {
        Some(JsonView::Str(s)) => Some(s),
        _ => None,
    }
}

/// The truth value of a boolean value.
pub open spec fn as_flag(v: Option<JsonView>) -> Option<bool> {
    match v {
        Some(JsonView::Bool(b)) => Some(b),
        _ => None,
    }
}

/// The number of a number value.
pub open spec fn as_number(v: Option<JsonView>) -> Option<JsonNumber> {
    match v {
        Some(JsonView::Number(n)) => Some(n),
        _ => None,
    }
}

impl Json {
    /// Member `key` of an object, or nothing.
    pub fn get(&self, key: &str) -> (r: Option<&Json>)
        ensures
            opt_view(r) == json_get(self@, key@),
    {
        match self {
            Json::Object(m) => {
                proof {
                    lemma_entry_views(m@);
                }
                let ghost mv = entry_views(m@);
                let mut i: usize = 0;
                assert(mv.subrange(0, mv.len() as int) =~= mv);
                while i < m.len()
                    invariant
                        self@ == JsonView::Object(mv),
                        mv == entry_views(m@),
                        mv.len() == m@.len(),
                        forall|k: int| 0 <= k < m@.len() ==> #[trigger] mv[k] == (m@[k].0@, json_view(m@[k].1)),
                        i <= m@.len(),
                        entry_lookup(mv, key@) == entry_lookup(mv.subrange(i as int, mv.len() as int), key@),
                    decreases m.len() - i,
                {
                    let ghost rest = mv.subrange(i as int, mv.len() as int);
                    assert(rest[0] == mv[i as int]);
                    assert(rest.subrange(1, rest.len() as int) =~= mv.subrange(i + 1, mv.len() as int));
                    if crate::text::same_text(m[i].0.as_str(), key) {
                        return Some(&m[i].1);
                    }
                    i = i + 1;
                }
                None
            },
            _ => None,
        }
    }
}

/// `Some(text)` of a string value.
pub fn text_of_value(o: Option<&Json>) -> (r: Option<&String>)
    ensures
        match r {
            Some(s) => as_text(opt_view(o)) == Some(s@),
            None => as_text(opt_view(o)) is None,
        },
{
    match o {
        Some(Json::Str(s)) => Some(s),
        _ => None,
    }
}

/// `Some(b)` of a boolean value.
pub fn flag_of_value(o: Option<&Json>) -> (r: Option<bool>)
    ensures
        r == as_flag(opt_view(o)),
{
    match o {
        Some(Json::Bool(b)) => Some(*b),
        _ => None,
    }
}

/// `Some(n)` of a number value.
pub fn number_of_value(o: Option<&Json>) -> (r: Option<JsonNumber>)
    ensures
        r == as_number(opt_view(o)),
{
    match o {
        Some(Json::Number(n)) => Some(*n),
        _ => None,
    }
}

/// `Value::Null` in `Json`.
pub open spec fn or_null(v: Option<JsonView>) -> JsonView {
    match v {
        Some(x) => x,
        None => JsonView::Null,
    }
}

/// What serde_json's parser makes of the given bytes, in this library's model.
pub uninterp spec fn parsed_json(bytes: Seq<u8>) -> Option<JsonView>;

/// The message of serde_json's error for bytes that are no JSON (its `Display`).
pub uninterp spec fn parse_error_text(bytes: Seq<u8>) -> Seq<char>;

#[verifier::external_type_specification]
#[verifier::external_body]
pub struct ExJsonValue(Value);

/// Carries a `serde_json::Value` over into `Json`, variant for variant: each number keeps
/// serde_json's own kind (read back through `as_u64`, `as_i64`, `as_f64`), each object its
/// entries in the map's order. Nothing is claimed of it beyond what `parse_json` states.
#[verifier::external_body]
fn json_from_value(v: &Value) -> Json {
    match v {
        Value::Null => Json::Null,
        Value::Bool(b) => Json::Bool(*b),
        Value::Number(n) => Json::Number(match (n.as_u64(), n.as_i64()) {
            (Some(u), _) => JsonNumber::PosInt(u),
            (None, Some(i)) => JsonNumber::NegInt(i),
            _ => JsonNumber::Float(n.as_f64().unwrap_or_default().to_bits()),
        }),
        Value::String(s) => Json::Str(s.clone()),
        Value::Array(a) => Json::Array(a.iter().map(json_from_value).collect()),
        Value::Object(m) => Json::Object(m.iter().map(|(k, x)| (k.clone(), json_from_value(x))).collect()),
    }
}

/// Parses JSON text: `serde_json::from_slice::<Value>`. The contract claims
/// that a value comes back exactly when the named parse of the bytes gives one, and that it
/// is that value; an error comes back as its message, named as a function of the bytes.
#[verifier::external_body]
pub(crate) fn parse_json(bytes: &[u8]) -> (r: Result<Json, String>)
    ensures
        match r {
            Ok(j) => parsed_json(bytes@) == Some(j@),
            Err(m) => parsed_json(bytes@) is None && m@ == parse_error_text(bytes@),
        },
{
    match serde_json::from_slice::<Value>(bytes) {
        Ok(v) => Ok(json_from_value(&v)),
        Err(e) => Err(e.to_string()),
    }
}

/// The shape of a value with no text left in it: keys, numbers and booleans stay, each
/// string becomes `<str:N>` with `N` its length in UTF-8 bytes, each array keeps its first
/// three items.
pub open spec fn redacted(v: JsonView) -> JsonView
    decreases v, 0nat,
{
    match v {
        JsonView::Object(m) => JsonView::Object(redacted_entries(m)),
        JsonView::Array(a) => {
            let items = redacted_items(a);
            JsonView::Array(items.subrange(0, if items.len() < 3 { items.len() as int } else { 3 }))
        },
        JsonView::Str(s) => JsonView::Str(
            "<str:"@ + crate::text::decimal(crate::text::byte_len(s)) + ">"@,
        ),
        other => other,
    }
}

pub open spec fn redacted_items(s: Seq<JsonView>) -> Seq<JsonView>
    decreases s, 1nat,
{
    if s.len() == 0 {
        Seq::empty()
    } else {
        proof {
            assert(decreases_to!(s => s[s.len() - 1]));
            assert(decreases_to!(s => s.subrange(0, s.len() - 1)));
        }
        redacted_items(s.subrange(0, s.len() - 1)).push(redacted(s[s.len() - 1]))
    }
}

pub open spec fn redacted_entries(s: Seq<(Seq<char>, JsonView)>) -> Seq<(Seq<char>, JsonView)>
    decreases s, 1nat,
{
    if s.len() == 0 {
        Seq::empty()
    } else {
        proof {
            assert(decreases_to!(s => s[s.len() - 1]));
            assert(decreases_to!(s => s.subrange(0, s.len() - 1)));
        }
        redacted_entries(s.subrange(0, s.len() - 1)).push((s[s.len() - 1].0, redacted(s[s.len() - 1].1)))
    }
}

pub proof fn lemma_redacted_items(s: Seq<JsonView>)
    ensures
        redacted_items(s).len() == s.len(),
        forall|i: int| 0 <= i < s.len() ==> #[trigger] redacted_items(s)[i] == redacted(s[i]),
    decreases s.len(),
{
    if s.len() > 0 {
        let t = s.subrange(0, s.len() - 1);
        lemma_redacted_items(t);
        assert forall|i: int| 0 <= i < s.len() implies #[trigger] redacted_items(s)[i] == redacted(s[i]) by {
            if i < s.len() - 1 {
                assert(t[i] == s[i]);
            }
        }
    }
}

pub proof fn lemma_redacted_entries(s: Seq<(Seq<char>, JsonView)>)
    ensures
        redacted_entries(s).len() == s.len(),
        forall|i: int|
            0 <= i < s.len() ==> #[trigger] redacted_entries(s)[i] == (s[i].0, redacted(s[i].1)),
    decreases s.len(),
{
    if s.len() > 0 {
        let t = s.subrange(0, s.len() - 1);
        lemma_redacted_entries(t);
        assert forall|i: int| 0 <= i < s.len() implies #[trigger] redacted_entries(s)[i] == (
        s[i].0, redacted(s[i].1)) by {
            if i < s.len() - 1 {
                assert(t[i] == s[i]);
            }
        }
    }
}

/// The redacted shape of a reply, so that no email, id or token can reach a diagnostic log.
pub fn redact_shape(v: &Json) -> (r: Json)
    ensures
        r@ == redacted(v@),
    decreases v,
{
    match v {
        Json::Object(m) => {
            proof {
                lemma_entry_views(m@);
                lemma_redacted_entries(entry_views(m@));
            }
            let mut out: Vec<(String, Json)> = Vec::new();
            let mut i: usize = 0;
            while i < m.len()
                invariant
                    *v == Json::Object(*m),
                    i <= m@.len(),
                    out@.len() == i,
                    entry_views(m@).len() == m@.len(),
                    forall|k: int| 0 <= k < m@.len() ==> #[trigger] entry_views(m@)[k] == (m@[k].0@, json_view(m@[k].1)),
                    redacted_entries(entry_views(m@)).len() == m@.len(),
                    forall|k: int| 0 <= k < m@.len() ==> #[trigger] redacted_entries(entry_views(m@))[k] == (entry_views(m@)[k].0, redacted(entry_views(m@)[k].1)),
                    forall|k: int| 0 <= k < i ==> (#[trigger] out@[k]).0@ == m@[k].0@ && json_view(out@[k].1) == redacted(json_view(m@[k].1)),
                decreases m.len() - i,
            {
                proof {
                    assert(decreases_to!(*v => (*v)->Object_0));
                    assert(decreases_to!(*m => m[i as int]));
                    assert(decreases_to!(m[i as int] => m[i as int].1));
                }
                let x = redact_shape(&m[i].1);
                out.push((m[i].0.clone(), x));
                i = i + 1;
            }
            proof {
                lemma_entry_views(out@);
                assert(entry_views(out@) =~= redacted_entries(entry_views(m@)));
                assert(v@ == JsonView::Object(entry_views(m@)));
                assert(redacted(v@) == JsonView::Object(redacted_entries(entry_views(m@))));
            }
            let r = Json::Object(out);
            assert(r@ == JsonView::Object(entry_views(out@)));
            assert(r@ == redacted(v@));
            r
        },
        Json::Array(a) => {
            proof {
                lemma_json_views(a@);
                lemma_redacted_items(json_views(a@));
            }
            let n: usize = if a.len() < 3 { a.len() } else { 3 };
            let mut out: Vec<Json> = Vec::new();
            let mut i: usize = 0;
            while i < n
                invariant
                    *v == Json::Array(*a),
                    n <= a@.len(),
                    n == (if a@.len() < 3 { a@.len() as int } else { 3 }),
                    i <= n,
                    out@.len() == i,
                    json_views(a@).len() == a@.len(),
                    forall|k: int| 0 <= k < a@.len() ==> #[trigger] json_views(a@)[k] == json_view(a@[k]),
                    forall|k: int| 0 <= k < i ==> json_view(#[trigger] out@[k]) == redacted(json_view(a@[k])),
                decreases n - i,
            {
                proof {
                    assert(decreases_to!(*v => (*v)->Array_0));
                    assert(decreases_to!(*a => a[i as int]));
                }
                let x = redact_shape(&a[i]);
                out.push(x);
                i = i + 1;
            }
            proof {
                lemma_json_views(out@);
                let items = redacted_items(json_views(a@));
                assert(json_views(out@) =~= items.subrange(0, n as int));
                assert(v@ == JsonView::Array(json_views(a@)));
            }
            Json::Array(out)
        },
        Json::Str(s) => {
            let mut t = String::from_str("<str:");
            crate::text::push_decimal(&mut t, s.as_str().len() as u64);
            t.append(">");
            Json::Str(t)
        },
        Json::Null => Json::Null,
        Json::Bool(b) => Json::Bool(*b),
        Json::Number(n) => Json::Number(*n),
    }
}

/// A string that tells only a length: `<str:N>`.
pub open spec fn length_only(s: Seq<char>) -> bool {
    exists|n: nat| s == "<str:"@ + crate::text::decimal(n) + ">"@
}

/// No text is left in the value but lengths, and no array has more than three items.
pub open spec fn masked(v: JsonView) -> bool
    decreases v, 0nat,
{
    match v {
        JsonView::Str(s) => length_only(s),
        JsonView::Array(a) => a.len() <= 3 && all_masked(a),
        JsonView::Object(m) => entries_masked(m),
        _ => true,
    }
}

pub open spec fn all_masked(s: Seq<JsonView>) -> bool
    decreases s, 1nat,
{
    if s.len() == 0 {
        true
    } else {
        proof {
            assert(decreases_to!(s => s[s.len() - 1]));
            assert(decreases_to!(s => s.subrange(0, s.len() - 1)));
        }
        all_masked(s.subrange(0, s.len() - 1)) && masked(s[s.len() - 1])
    }
}

pub open spec fn entries_masked(s: Seq<(Seq<char>, JsonView)>) -> bool
    decreases s, 1nat,
{
    if s.len() == 0 {
        true
    } else {
        proof {
            assert(decreases_to!(s => s[s.len() - 1]));
            assert(decreases_to!(s => s.subrange(0, s.len() - 1)));
        }
        entries_masked(s.subrange(0, s.len() - 1)) && masked(s[s.len() - 1].1)
    }
}

proof fn lemma_all_masked(s: Seq<JsonView>)
    requires
        forall|i: int| 0 <= i < s.len() ==> masked(#[trigger] s[i]),
    ensures
        all_masked(s),
    decreases s.len(),
{
    if s.len() > 0 {
        let t = s.subrange(0, s.len() - 1);
        assert forall|i: int| 0 <= i < t.len() implies masked(#[trigger] t[i]) by {
            assert(t[i] == s[i]);
        }
        lemma_all_masked(t);
    }
}

proof fn lemma_entries_masked(s: Seq<(Seq<char>, JsonView)>)
    requires
        forall|i: int| 0 <= i < s.len() ==> masked(#[trigger] s[i].1),
    ensures
        entries_masked(s),
    decreases s.len(),
{
    if s.len() > 0 {
        let t = s.subrange(0, s.len() - 1);
        assert forall|i: int| 0 <= i < t.len() implies masked(#[trigger] t[i].1) by {
            assert(t[i] == s[i]);
        }
        lemma_entries_masked(t);
    }
}

/// Redaction leaves no email, id or token in a reply: every string of the redacted shape
/// tells only a length, and every array keeps at most three items.
pub proof fn lemma_redaction_hides_text(v: JsonView)
    ensures
        masked(redacted(v)),
    decreases v,
{
    match v {
        JsonView::Str(s) => {
            assert(length_only("<str:"@ + crate::text::decimal(crate::text::byte_len(s)) + ">"@));
        },
        JsonView::Array(a) => {
            lemma_redacted_items(a);
            let items = redacted_items(a);
            let k: int = if items.len() < 3 { items.len() as int } else { 3 };
            let kept = items.subrange(0, k);
            assert forall|i: int| 0 <= i < kept.len() implies masked(#[trigger] kept[i]) by {
                assert(decreases_to!(a => a[i]));
                lemma_redaction_hides_text(a[i]);
                assert(kept[i] == redacted(a[i]));
            }
            lemma_all_masked(kept);
        },
        JsonView::Object(m) => {
            lemma_redacted_entries(m);
            let e = redacted_entries(m);
            assert forall|i: int| 0 <= i < e.len() implies masked(#[trigger] e[i].1) by {
                assert(decreases_to!(m => m[i]));
                assert(decreases_to!(m[i] => m[i].1));
                lemma_redaction_hides_text(m[i].1);
                assert(e[i].1 == redacted(m[i].1));
            }
            lemma_entries_masked(e);
        },
        _ => {},
    }
}

/// Redaction keeps the shape: an object keeps its keys in order, and numbers, booleans and
/// `null` stay as they are.
pub proof fn lemma_redaction_keeps_keys(v: JsonView)
    ensures
        v matches JsonView::Object(m) ==> (redacted(v) matches JsonView::Object(r) && r.len() == m.len()
            && forall|i: int| 0 <= i < m.len() ==> #[trigger] r[i].0 == m[i].0 && r[i].1 == redacted(m[i].1)),
        (v is Number || v is Bool || v is Null) ==> redacted(v) == v,
        v matches JsonView::Str(s) ==> redacted(v)
            == JsonView::Str("<str:"@ + crate::text::decimal(crate::text::byte_len(s)) + ">"@),
{
    if let JsonView::Object(m) = v {
        lemma_redacted_entries(m);
    }
}

/// Two values that differ at most in what their strings say: the same structure, keys,
/// numbers, booleans and `null`, and string for string the same length in UTF-8 bytes.
pub open spec fn alike(a: JsonView, b: JsonView) -> bool
    decreases a, 0nat,
{
    match a {
        JsonView::Str(s) => b matches JsonView::Str(t) && crate::text::byte_len(s) == crate::text::byte_len(t),
        JsonView::Array(x) => b matches JsonView::Array(y) && alike_items(x, y),
        JsonView::Object(m) => b matches JsonView::Object(n) && alike_entries(m, n),
        _ => a == b,
    }
}

pub open spec fn alike_items(x: Seq<JsonView>, y: Seq<JsonView>) -> bool
    decreases x, 1nat,
{
    if x.len() == 0 {
        y.len() == 0
    } else {
        proof {
            assert(decreases_to!(x => x[x.len() - 1]));
            assert(decreases_to!(x => x.subrange(0, x.len() - 1)));
        }
        &&& y.len() == x.len()
        &&& alike_items(x.subrange(0, x.len() - 1), y.subrange(0, y.len() - 1))
        &&& alike(x[x.len() - 1], y[y.len() - 1])
    }
}

pub open spec fn alike_entries(m: Seq<(Seq<char>, JsonView)>, n: Seq<(Seq<char>, JsonView)>) -> bool
    decreases m, 1nat,
{
    if m.len() == 0 {
        n.len() == 0
    } else {
        proof {
            assert(decreases_to!(m => m[m.len() - 1]));
            assert(decreases_to!(m => m.subrange(0, m.len() - 1)));
        }
        &&& n.len() == m.len()
        &&& alike_entries(m.subrange(0, m.len() - 1), n.subrange(0, n.len() - 1))
        &&& m[m.len() - 1].0 == n[n.len() - 1].0
        &&& alike(m[m.len() - 1].1, n[n.len() - 1].1)
    }
}

proof fn lemma_alike_items(x: Seq<JsonView>, y: Seq<JsonView>)
    requires
        alike_items(x, y),
    ensures
        x.len() == y.len(),
        forall|i: int| 0 <= i < x.len() ==> alike(#[trigger] x[i], y[i]),
    decreases x.len(),
{
    if x.len() > 0 {
        let t = x.subrange(0, x.len() - 1);
        let u = y.subrange(0, y.len() - 1);
        lemma_alike_items(t, u);
        assert forall|i: int| 0 <= i < x.len() implies alike(#[trigger] x[i], y[i]) by {
            if i < x.len() - 1 {
                assert(x[i] == t[i] && y[i] == u[i]);
            }
        }
    }
}

proof fn lemma_alike_entries(m: Seq<(Seq<char>, JsonView)>, n: Seq<(Seq<char>, JsonView)>)
    requires
        alike_entries(m, n),
    ensures
        m.len() == n.len(),
        forall|i: int| 0 <= i < m.len() ==> (#[trigger] m[i]).0 == n[i].0 && alike(m[i].1, n[i].1),
    decreases m.len(),
{
    if m.len() > 0 {
        let t = m.subrange(0, m.len() - 1);
        let u = n.subrange(0, n.len() - 1);
        lemma_alike_entries(t, u);
        assert forall|i: int| 0 <= i < m.len() implies (#[trigger] m[i]).0 == n[i].0 && alike(m[i].1, n[i].1) by {
            if i < m.len() - 1 {
                assert(m[i] == t[i] && n[i] == u[i]);
            }
        }
    }
}

/// Redaction tells nothing of what the strings say: two replies that differ only in the
/// contents of their strings, string for string of the same length, have the same redacted
/// shape.
pub proof fn lemma_redaction_ignores_text(a: JsonView, b: JsonView)
    requires
        alike(a, b),
    ensures
        redacted(a) == redacted(b),
    decreases a,
{
    match a {
        JsonView::Array(x) => {
            let y = b->Array_0;
            lemma_alike_items(x, y);
            lemma_redacted_items(x);
            lemma_redacted_items(y);
            assert forall|i: int| 0 <= i < x.len() implies redacted_items(x)[i] == redacted_items(y)[i] by {
                assert(decreases_to!(a => x[i]));
                lemma_redaction_ignores_text(x[i], y[i]);
            }
            assert(redacted_items(x) =~= redacted_items(y));
        },
        JsonView::Object(m) => {
            let n = b->Object_0;
            lemma_alike_entries(m, n);
            lemma_redacted_entries(m);
            lemma_redacted_entries(n);
            assert forall|i: int| 0 <= i < m.len() implies redacted_entries(m)[i] == redacted_entries(n)[i] by {
                assert(decreases_to!(m => m[i]));
                assert(decreases_to!(m[i] => m[i].1));
                lemma_redaction_ignores_text(m[i].1, n[i].1);
            }
            assert(redacted_entries(m) =~= redacted_entries(n));
        },
        _ => {},
    }
}

/// Redaction keeps the first three items of an array (all of a shorter one), each redacted.
pub proof fn lemma_redaction_keeps_first_items(a: Seq<JsonView>)
    ensures
        redacted(JsonView::Array(a)) matches JsonView::Array(r) && r.len() == (if a.len() < 3 { a.len() as int } else { 3 })
            && forall|i: int| 0 <= i < r.len() ==> #[trigger] r[i] == redacted(a[i]),
{
    lemma_redacted_items(a);
}

} // verus!
