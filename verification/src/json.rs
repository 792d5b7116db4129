use vstd::prelude::*;
use crate::text::{decimal, decimal_string, digits_value, all_digits, push_char, str_eq};

verus! {

/// A JSON document. Numbers are held as their JSON text; object members keep
/// the order in which they were read or built, and no key occurs twice.
#[derive(Debug)]
pub enum Json {
    Null,
    Bool(bool),
    Number(String),
    Str(String),
    Array(Vec<Json>),
    Object(Vec<(String, Json)>),
}

/// The mathematical value of a JSON document.
#[verifier::ext_equal]
pub enum JsonV {
    Null,
    Bool(bool),
    Number(Seq<char>),
    Str(Seq<char>),
    Array(Seq<JsonV>),
    Object(Seq<(Seq<char>, JsonV)>),
}

/// The value of a document.
pub open spec fn jview(j: Json) -> JsonV
    decreases j,
{
    match j {
        Json::Null => JsonV::Null,
        Json::Bool(b) => JsonV::Bool(b),
        Json::Number(n) => JsonV::Number(n@),
        Json::Str(s) => JsonV::Str(s@),
        Json::Array(v) => JsonV::Array(jviews(v@)),
        Json::Object(m) => JsonV::Object(jmembers(m@)),
    }
}

/// The values of a sequence of documents.
pub open spec fn jviews(s: Seq<Json>) -> Seq<JsonV>
    decreases s,
{
    Seq::new(s.len(), |i: int| if 0 <= i < s.len() { jview(s[i]) } else { JsonV::Null })
}

/// The values of a sequence of object members.
pub open spec fn jmembers(s: Seq<(String, Json)>) -> Seq<(Seq<char>, JsonV)>
    decreases s,
{
    Seq::new(s.len(), |i: int| if 0 <= i < s.len() { (s[i].0@, jview(s[i].1)) } else { (Seq::empty(), JsonV::Null) })
}

/// The value of an optional reference, `Null` when absent.
pub open spec fn ojv(o: Option<&Json>) -> JsonV {
    match o {
        Some(j) => jview(*j),
        None => JsonV::Null,
    }
}

/// The first member called `k`, from index `i` on.
pub open spec fn member_from(m: Seq<(Seq<char>, JsonV)>, k: Seq<char>, i: nat) -> Option<JsonV>
    decreases m.len() - i,
{
    if i >= m.len() {
        None
    } else if m[i as int].0 == k {
        Some(m[i as int].1)
    } else {
        member_from(m, k, i + 1)
    }
}

proof fn lemma_member_push_from(m: Seq<(Seq<char>, JsonV)>, x: (Seq<char>, JsonV), k: Seq<char>, i: nat)
    requires
        i <= m.len(),
    ensures
        member_from(m.push(x), k, i) == (match member_from(m, k, i) {
            Some(v) => Some(v),
            None => if x.0 == k { Some(x.1) } else { None },
        }),
    decreases m.len() - i,
{
    if i < m.len() {
        assert(m.push(x)[i as int] == m[i as int]);
        lemma_member_push_from(m, x, k, i + 1);
    } else {
        assert(m.push(x)[i as int] == x);
        assert(member_from(m.push(x), k, i + 1) is None);
    }
}

/// Looking a member up in an object with one more member at its end: the
/// earlier members come first.
pub proof fn lemma_member_push(m: Seq<(Seq<char>, JsonV)>, x: (Seq<char>, JsonV))
    ensures
        forall|k: Seq<char>| #[trigger] member_from(m.push(x), k, 0) == (match member_from(m, k, 0) {
            Some(v) => Some(v),
            None => if x.0 == k { Some(x.1) } else { None },
        }),
{
    assert forall|k: Seq<char>| #[trigger] member_from(m.push(x), k, 0) == (match member_from(m, k, 0) {
        Some(v) => Some(v),
        None => if x.0 == k { Some(x.1) } else { None },
    }) by {
        lemma_member_push_from(m, x, k, 0);
    }
}

/// The member `k` of an object; `None` for a missing member or a non-object.
pub open spec fn jget(j: JsonV, k: Seq<char>) -> Option<JsonV> {
    match j {
        JsonV::Object(m) => member_from(m, k, 0),
        _ => None,
    }
}

/// `j[k]`: the member `k`, or `Null` when there is none.
pub open spec fn jfield(j: JsonV, k: Seq<char>) -> JsonV {
    match jget(j, k) {
        Some(v) => v,
        None => JsonV::Null,
    }
}

/// `j[i]`: the element `i` of an array, or `Null` when there is none.
pub open spec fn jat(j: JsonV, i: int) -> JsonV {
    match j {
        JsonV::Array(s) => if 0 <= i < s.len() { s[i] } else { JsonV::Null },
        _ => JsonV::Null,
    }
}

/// The text of a string value.
pub open spec fn jstr(j: JsonV) -> Option<Seq<char>> {
    match j {
        JsonV::Str(s) => Some(s),
        _ => None,
    }
}

/// The elements of an array value.
pub open spec fn jarray(j: JsonV) -> Option<Seq<JsonV>> {
    match j {
        JsonV::Array(s) => Some(s),
        _ => None,
    }
}

/// A boolean value.
pub open spec fn jbool(j: JsonV) -> Option<bool> {
    match j {
        JsonV::Bool(b) => Some(b),
        _ => None,
    }
}

/// The JSON text of a number value.
pub open spec fn jnumber(j: JsonV) -> Option<Seq<char>> {
    match j {
        JsonV::Number(n) => Some(n),
        _ => None,
    }
}

/// A number value that is a non-negative integer within 64 bits.
pub open spec fn ju64(j: JsonV) -> Option<u64> {
    match j {
        JsonV::Number(n) => if n.len() > 0 && all_digits(n) && digits_value(n) <= u64::MAX {
            Some(digits_value(n) as u64)
        } else {
            None
        },
        _ => None,
    }
}

/// Whether a value is an object.
pub open spec fn jis_object(j: JsonV) -> bool {
    j is Object
}

/// The value of a non-negative integer.
pub open spec fn juint(n: nat) -> JsonV {
    JsonV::Number(decimal(n))
}

/// The value of an optional string: `Null` when absent.
pub open spec fn jopt_str(s: Option<Seq<char>>) -> JsonV {
    match s {
        Some(t) => JsonV::Str(t),
        None => JsonV::Null,
    }
}

/// The text of an optional string reference.
pub open spec fn ostr(o: Option<&String>) -> Option<Seq<char>> {
    match o {
        Some(s) => Some(s@),
        None => None,
    }
}

pub proof fn lemma_jviews_push(s: Seq<Json>, x: Json)
    ensures
        jviews(s.push(x)) == jviews(s).push(jview(x)),
{
    assert(jviews(s.push(x)) =~= jviews(s).push(jview(x)));
}

pub proof fn lemma_jmembers_push(s: Seq<(String, Json)>, x: (String, Json))
    ensures
        jmembers(s.push(x)) == jmembers(s).push((x.0@, jview(x.1))),
{
    assert(jmembers(s.push(x)) =~= jmembers(s).push((x.0@, jview(x.1))));
}

/// The member `k`, if `o` is an object that has it.
pub fn get<'a>(o: Option<&'a Json>, k: &str) -> (r: Option<&'a Json>)
    ensures
        match r {
            Some(v) => jget(ojv(o), k@) == Some(jview(*v)),
            None => jget(ojv(o), k@) is None,
        },
{
    match o {
        Some(Json::Object(m)) => {
            let mut i: usize = 0;
            while i < m.len()
                invariant
                    i <= m@.len(),
                    o == Some(&Json::Object(*m)),
                    member_from(jmembers(m@), k@, 0) == member_from(jmembers(m@), k@, i as nat),
                decreases m@.len() - i,
            {
                if str_eq(m[i].0.as_str(), k) {
                    return Some(&m[i].1);
                }
                i = i + 1;
            }
            None
        },
        _ => None,
    }
}

/// `o[k]`, with an absent reference standing for `Null`.
pub fn field<'a>(o: Option<&'a Json>, k: &str) -> (r: Option<&'a Json>)
    ensures
        ojv(r) == jfield(ojv(o), k@),
{
    get(o, k)
}

/// `o[i]`, with an absent reference standing for `Null`.
pub fn at<'a>(o: Option<&'a Json>, i: usize) -> (r: Option<&'a Json>)
    ensures
        ojv(r) == jat(ojv(o), i as int),
{
    match o {
        Some(Json::Array(v)) => {
            if i < v.len() {
                Some(&v[i])
            } else {
                None
            }
        },
        _ => None,
    }
}

/// The text of a string value.
pub fn as_str<'a>(o: Option<&'a Json>) -> (r: Option<&'a String>)
    ensures
        ostr(r) == jstr(ojv(o)),
{
    match o {
        Some(Json::Str(s)) => Some(s),
        _ => None,
    }
}

/// The elements of an array value.
pub fn as_array<'a>(o: Option<&'a Json>) -> (r: Option<&'a Vec<Json>>)
    ensures
        match r {
            Some(v) => jarray(ojv(o)) == Some(jviews(v@)),
            None => jarray(ojv(o)) is None,
        },
{
    match o {
        Some(Json::Array(v)) => Some(v),
        _ => None,
    }
}

/// A boolean value.
pub fn as_bool(o: Option<&Json>) -> (r: Option<bool>)
    ensures
        r == jbool(ojv(o)),
{
    match o {
        Some(Json::Bool(b)) => Some(*b),
        _ => None,
    }
}

/// The JSON text of a number value.
pub fn as_number<'a>(o: Option<&'a Json>) -> (r: Option<&'a String>)
    ensures
        ostr(r) == jnumber(ojv(o)),
{
    match o {
        Some(Json::Number(n)) => Some(n),
        _ => None,
    }
}

/// Whether the value is an object.
pub fn is_object(o: Option<&Json>) -> (r: bool)
    ensures
        r == jis_object(ojv(o)),
{
    match o {
        Some(Json::Object(_)) => true,
        _ => false,
    }
}

/// A number value that is a non-negative integer within 64 bits.
pub fn as_u64(o: Option<&Json>) -> (r: Option<u64>)
    ensures
        r == ju64(ojv(o)),
{
    match o {
        Some(Json::Number(n)) => {
            let cs = crate::text::chars_of(n.as_str());
            if cs.len() == 0 || cs[0] == '+' {
                return None;
            }
            proof {
                assert(cs@[0] != '+');
            }
            crate::text::parse_u64(&cs)
        },
        _ => None,
    }
}

/// A string value.
pub fn jstring(s: String) -> (r: Json)
    ensures
        jview(r) == JsonV::Str(s@),
{
    Json::Str(s)
}

/// A string value with the text of `s`.
pub fn jstr_of(s: &str) -> (r: Json)
    ensures
        jview(r) == JsonV::Str(s@),
{
    Json::Str(String::from_str(s))
}

/// An optional string: the text, or `null`.
pub fn jopt(s: Option<String>) -> (r: Json)
    ensures
        jview(r) == jopt_str(match s { Some(t) => Some(t@), None => None }),
{
    match s {
        Some(t) => Json::Str(t),
        None => Json::Null,
    }
}

/// A non-negative integer.
pub fn juint_of(n: u128) -> (r: Json)
    ensures
        jview(r) == juint(n as nat),
{
    Json::Number(decimal_string(n))
}

/// An object of one member.
pub open spec fn jobj1(k: Seq<char>, v: JsonV) -> JsonV {
    JsonV::Object(Seq::empty().push((k, v)))
}

/// An object of two members, in this order.
pub open spec fn jobj2(k1: Seq<char>, v1: JsonV, k2: Seq<char>, v2: JsonV) -> JsonV {
    JsonV::Object(Seq::empty().push((k1, v1)).push((k2, v2)))
}

/// An array of one item.
pub open spec fn jarr1(v: JsonV) -> JsonV {
    JsonV::Array(Seq::empty().push(v))
}

/// An object of one member.
pub fn object1(k: &str, v: Json) -> (r: Json)
    ensures
        jview(r) == jobj1(k@, jview(v)),
{
    ObjectBuilder::new().with(k, v).build()
}

/// An object of two members, in this order.
pub fn object2(k1: &str, v1: Json, k2: &str, v2: Json) -> (r: Json)
    ensures
        jview(r) == jobj2(k1@, jview(v1), k2@, jview(v2)),
{
    ObjectBuilder::new().with(k1, v1).with(k2, v2).build()
}

/// A signed integer as a JSON number: a minus sign before the digits of a
/// negative value.
pub open spec fn jint(i: int) -> JsonV {
    if i < 0 { JsonV::Number("-"@ + decimal((-i) as nat)) } else { juint(i as nat) }
}

/// A signed integer as a JSON number.
pub fn jint_of(i: i64) -> (r: Json)
    ensures
        jview(r) == jint(i as int),
{
    if i < 0 {
        let m: u128 = (-(i as i128)) as u128;
        let mut t = String::from_str("-");
        let digits = decimal_string(m);
        t.append(digits.as_str());
        Json::Number(t)
    } else {
        juint_of(i as u128)
    }
}

/// Builds an object member by member.
pub struct ObjectBuilder {
    members: Vec<(String, Json)>,
}

impl ObjectBuilder {
    /// The members added so far.
    pub closed spec fn spec_members(&self) -> Seq<(Seq<char>, JsonV)> {
        jmembers(self.members@)
    }

    pub fn new() -> (b: Self)
        ensures
            b.spec_members() == Seq::<(Seq<char>, JsonV)>::empty(),
    {
        let b = ObjectBuilder { members: Vec::new() };
        assert(b.spec_members() =~= Seq::<(Seq<char>, JsonV)>::empty());
        b
    }

    /// Adds the member `k` with value `v`.
    pub fn with(self, k: &str, v: Json) -> (b: Self)
        ensures
            b.spec_members() == self.spec_members().push((k@, jview(v))),
    {
        let mut members = self.members;
        let entry = (String::from_str(k), v);
        proof {
            lemma_jmembers_push(members@, entry);
        }
        members.push(entry);
        ObjectBuilder { members }
    }

    /// The object.
    /// The number of members so far.
    pub fn len(&self) -> (n: usize)
        ensures
            n == self.spec_members().len(),
    {
        self.members.len()
    }

    pub fn build(self) -> (r: Json)
        ensures
            jview(r) == JsonV::Object(self.spec_members()),
    {
        Json::Object(self.members)
    }
}

/// Builds an array element by element.
pub struct ArrayBuilder {
    items: Vec<Json>,
}

impl ArrayBuilder {
    /// The elements added so far.
    pub closed spec fn spec_items(&self) -> Seq<JsonV> {
        jviews(self.items@)
    }

    pub fn new() -> (b: Self)
        ensures
            b.spec_items() == Seq::<JsonV>::empty(),
    {
        let b = ArrayBuilder { items: Vec::new() };
        assert(b.spec_items() =~= Seq::<JsonV>::empty());
        b
    }

    /// Adds the element `v`.
    pub fn push(&mut self, v: Json)
        ensures
            final(self).spec_items() == old(self).spec_items().push(jview(v)),
    {
        proof {
            lemma_jviews_push(self.items@, v);
        }
        self.items.push(v);
    }

    /// The number of elements added so far.
    pub fn len(&self) -> (n: usize)
        ensures
            n == self.spec_items().len(),
    {
        self.items.len()
    }

    /// The array.
    pub fn build(self) -> (r: Json)
        ensures
            jview(r) == JsonV::Array(self.spec_items()),
    {
        Json::Array(self.items)
    }
}

/// An array of one element.
pub fn single(v: Json) -> (r: Json)
    ensures
        jview(r) == JsonV::Array(seq![jview(v)]),
{
    let mut b = ArrayBuilder::new();
    b.push(v);
    b.build()
}

} // verus!

verus! {

/// The text that serde_json writes for a document: `Value`'s compact
/// `Display`, with object members in the order that `serde_json::Map` keeps
/// (sorted by key, the last of equal keys winning).
pub uninterp spec fn json_text(j: JsonV) -> Seq<char>;

/// Converts a library document into a `serde_json::Value` one for one: a
/// number by reading its text as a `serde_json::Number` (a text that is not a
/// JSON number becomes `null`), an object member by member into a `Map`.
#[verifier::external_body]
fn value_of(j: &Json) -> serde_json::Value {
    match j {
        Json::Null => serde_json::Value::Null,
        Json::Bool(b) => serde_json::Value::Bool(*b),
        Json::Number(t) => serde_json::from_str::<serde_json::Number>(t).map(serde_json::Value::Number)
            .unwrap_or(serde_json::Value::Null),
        Json::Str(s) => serde_json::Value::String(s.clone()),
        Json::Array(a) => serde_json::Value::Array(a.iter().map(value_of).collect()),
        Json::Object(m) => serde_json::Value::Object(m.iter().map(|(k, x)| (k.clone(), value_of(x))).collect()),
    }
}

/// Writes a document as JSON text. Converts it to a `serde_json::Value` and
/// calls `<Value as Display>::to_string`, which writes compact JSON; the result
/// is named `json_text` of the document.
#[verifier::external_body]
pub(crate) fn to_text(j: &Json) -> (r: String)
    ensures
        r@ == json_text(jview(*j)),
{
    value_of(j).to_string()
}

} // verus!

verus! {

/// A string, or `default` when absent.
pub open spec fn str_or(o: Option<Seq<char>>, default: Seq<char>) -> Seq<char> {
    match o {
        Some(s) => s,
        None => default,
    }
}

/// A copy of a document.
pub fn copy(j: &Json) -> (r: Json)
    ensures
        jview(r) == jview(*j),
    decreases *j,
{
    match j {
        Json::Null => Json::Null,
        Json::Bool(b) => Json::Bool(*b),
        Json::Number(n) => Json::Number(n.clone()),
        Json::Str(s) => Json::Str(s.clone()),
        Json::Array(v) => {
            let mut out: Vec<Json> = Vec::new();
            let mut i: usize = 0;
            while i < v.len()
                invariant
                    i <= v@.len(),
                    *j == Json::Array(*v),
                    jviews(out@) == jviews(v@).take(i as int),
                decreases v@.len() - i,
            {
                assert(decreases_to!(*j => (*j)->Array_0));
                assert((*j)->Array_0 == *v);
                assert(decreases_to!(*v => v@));
                assert(decreases_to!(v@ => v@[i as int]));
                let item = copy(&v[i]);
                proof {
                    lemma_jviews_push(out@, item);
                }
                out.push(item);
                assert(jviews(out@) =~= jviews(v@).take(i + 1));
                i = i + 1;
            }
            assert(jviews(v@).take(v@.len() as int) =~= jviews(v@));
            assert(jviews(out@) =~= jviews(v@));
            Json::Array(out)
        },
        Json::Object(m) => {
            let mut out: Vec<(String, Json)> = Vec::new();
            let mut i: usize = 0;
            while i < m.len()
                invariant
                    i <= m@.len(),
                    *j == Json::Object(*m),
                    jmembers(out@) == jmembers(m@).take(i as int),
                decreases m@.len() - i,
            {
                assert(decreases_to!(*j => (*j)->Object_0));
                assert((*j)->Object_0 == *m);
                assert(decreases_to!(*m => m@));
                assert(decreases_to!(m@ => m@[i as int]));
                assert(decreases_to!(m@[i as int] => m@[i as int].1));
                let item = (m[i].0.clone(), copy(&m[i].1));
                proof {
                    lemma_jmembers_push(out@, item);
                }
                out.push(item);
                assert(jmembers(out@) =~= jmembers(m@).take(i + 1));
                i = i + 1;
            }
            assert(jmembers(m@).take(m@.len() as int) =~= jmembers(m@));
            assert(jmembers(out@) =~= jmembers(m@));
            Json::Object(out)
        },
    }
}

impl Clone for Json {
    /// A copy of the document.
    fn clone(&self) -> (r: Self)
        ensures
            jview(r) == jview(*self),
    {
        copy(self)
    }
}

/// A copy of an optional document, `Null` when absent.
pub fn copy_or_null(o: Option<&Json>) -> (r: Json)
    ensures
        jview(r) == ojv(o),
{
    match o {
        Some(j) => copy(j),
        None => Json::Null,
    }
}

/// The text of a string value, or `default`.
pub fn text_or(o: Option<&Json>, default: &str) -> (r: String)
    ensures
        r@ == str_or(jstr(ojv(o)), default@),
{
    match as_str(o) {
        Some(s) => s.clone(),
        None => String::from_str(default),
    }
}

/// The text of a string value.
pub fn opt_text(o: Option<&Json>) -> (r: Option<String>)
    ensures
        crate::chat::opt_view(r) == jstr(ojv(o)),
{
    match as_str(o) {
        Some(s) => Some(s.clone()),
        None => None,
    }
}

/// The JSON text of a number value.
pub fn opt_number(o: Option<&Json>) -> (r: Option<String>)
    ensures
        crate::chat::opt_view(r) == jnumber(ojv(o)),
{
    match as_number(o) {
        Some(s) => Some(s.clone()),
        None => None,
    }
}

/// A 64-bit count cut down to 32 bits, as an `as u32` conversion does.
pub open spec fn to_u32(o: Option<u64>) -> Option<u32> {
    match o {
        Some(v) => Some(v as u32),
        None => None,
    }
}

/// A non-negative integer value cut down to 32 bits.
pub fn opt_u32(o: Option<&Json>) -> (r: Option<u32>)
    ensures
        r == to_u32(ju64(ojv(o))),
{
    match as_u64(o) {
        Some(v) => Some(v as u32),
        None => None,
    }
}

/// A count as a JSON number.
pub fn jcount(n: u32) -> (r: Json)
    ensures
        jview(r) == juint(n as nat),
{
    juint_of(n as u128)
}

} // verus!

verus! {

#[verifier::external_type_specification]
#[verifier::external_body]
pub struct ExValue(serde_json::Value);

/// What `serde_json::from_str::<serde_json::Value>` makes of a text: the
/// document it reads, or the text of the error it reports.
pub uninterp spec fn parsed_json(text: Seq<char>) -> Result<JsonV, Seq<char>>;

/// Converts a `serde_json::Value` one for one: a number by its `Display` text,
/// an object's members in the order in which the value holds them.
#[verifier::external_body]
fn json_from_value(v: serde_json::Value) -> Json {
    match v {
        serde_json::Value::Null => Json::Null,
        serde_json::Value::Bool(b) => Json::Bool(b),
        serde_json::Value::Number(n) => Json::Number(n.to_string()),
        serde_json::Value::String(s) => Json::Str(s),
        serde_json::Value::Array(a) => Json::Array(a.into_iter().map(json_from_value).collect()),
        serde_json::Value::Object(m) => Json::Object(m.into_iter().map(|(k, x)| (k, json_from_value(x))).collect()),
    }
}

/// Reads JSON text. Calls `serde_json::from_str::<serde_json::Value>` and
/// converts the value, or the error by its `Display` text; the result is named
/// `parsed_json` of the text.
#[verifier::external_body]
pub(crate) fn parse_json(text: &str) -> (r: Result<Json, String>)
    ensures
        match r {
            Ok(j) => parsed_json(text@) == Ok::<JsonV, Seq<char>>(jview(j)),
            Err(e) => parsed_json(text@) == Err::<JsonV, Seq<char>>(e@),
        },
{
    match serde_json::from_str::<serde_json::Value>(text) {
        Ok(v) => Ok(json_from_value(v)),
        Err(e) => Err(e.to_string()),
    }
}

} // verus!

verus! {

/// The value of what reading a JSON text gave: the document, or the error's text.
pub open spec fn parsed_view(r: Result<Json, String>) -> Result<JsonV, Seq<char>> {
    match r {
        Ok(j) => Ok(jview(j)),
        Err(e) => Err(e@),
    }
}

} // verus!

verus! {

/// Reads JSON text: the document that serde_json reads it as, or the text of
/// the error that it reports.
pub fn read_json(text: &str) -> (r: Result<Json, String>)
    ensures
        parsed_view(r) == parsed_json(text@),
{
    parse_json(text)
}

/// Writes a document as compact JSON text, as serde_json writes it.
pub fn write_json(j: &Json) -> (r: String)
    ensures
        r@ == json_text(jview(*j)),
{
    to_text(j)
}

} // verus!
