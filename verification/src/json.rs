//! A JSON value of the library's own, with dotted-path lookup and a
//! text rendering.
//!
//! Numbers keep the literal text they were written with: the library
//! never computes on them, it only carries and compares them.

use vstd::prelude::*;

verus! {

use vstd::string::StringExecFns;
use crate::strutil::{str_eq, string_of, chars_of, push_char};
use crate::template::subvec;

/// The mathematical shape of a JSON value: contracts speak of this.
pub enum JsonModel {
    Null,
    Bool(bool),
    Num(Seq<char>),
    Str(Seq<char>),
    Arr(Seq<JsonModel>),
    Obj(Seq<(Seq<char>, JsonModel)>),
}

/// A JSON value. Object entries keep their order; a key occurring twice
/// is read at its first occurrence.
pub enum JsonValue {
    Null,
    Bool(bool),
    Num(String),
    Str(String),
    Arr(Vec<JsonValue>),
    Obj(Vec<(String, JsonValue)>),
}

/// The models of an array's elements.
pub open spec fn arr_model(s: Seq<JsonValue>) -> Seq<JsonModel>
    decreases s,
{
    Seq::new(
        s.len(),
        |i: int| if 0 <= i < s.len() { s[i].model() } else { JsonModel::Null },
    )
}

/// The models of an object's entries.
pub open spec fn obj_model(s: Seq<(String, JsonValue)>) -> Seq<(Seq<char>, JsonModel)>
    decreases s,
{
    Seq::new(
        s.len(),
        |i: int| if 0 <= i < s.len() {
            (s[i].0@, s[i].1.model())
        } else {
            (Seq::<char>::empty(), JsonModel::Null)
        },
    )
}

impl JsonValue {
    pub open spec fn model(self) -> JsonModel
        decreases self,
    {
        match self {
            JsonValue::Null => JsonModel::Null,
            JsonValue::Bool(b) => JsonModel::Bool(b),
            JsonValue::Num(s) => JsonModel::Num(s@),
            JsonValue::Str(s) => JsonModel::Str(s@),
            JsonValue::Arr(v) => JsonModel::Arr(arr_model(v@)),
            JsonValue::Obj(v) => JsonModel::Obj(obj_model(v@)),
        }
    }
}

impl View for JsonValue {
    type V = JsonModel;

    open spec fn view(&self) -> JsonModel {
        self.model()
    }
}

/// The key's first occurrence in an object's entries is at `i`.
pub open spec fn jkey_at(es: Seq<(Seq<char>, JsonModel)>, k: Seq<char>, i: int) -> bool {
    0 <= i < es.len() && es[i].0 == k && forall|j: int| 0 <= j < i ==> es[j].0 != k
}

/// The value at the key's first occurrence, if the key occurs.
pub open spec fn jobj_get(es: Seq<(Seq<char>, JsonModel)>, k: Seq<char>) -> Option<JsonModel> {
    if exists|i: int| jkey_at(es, k, i) {
        Some(es[choose|i: int| jkey_at(es, k, i)].1)
    } else {
        None
    }
}

/// Member lookup: an object is read at the key, anything else has none.
pub open spec fn jget(v: JsonModel, k: Seq<char>) -> Option<JsonModel> {
    match v {
        JsonModel::Obj(es) => jobj_get(es, k),
        _ => None,
    }
}

/// The first position at or after `i` holding the character `c`.
pub open spec fn find_char(s: Seq<char>, i: int, c: char) -> Option<int>
    decreases s.len() - i,
{
    if i < 0 || i >= s.len() {
        None
    } else if s[i] == c {
        Some(i)
    } else {
        find_char(s, i + 1, c)
    }
}

pub proof fn lemma_find_char(s: Seq<char>, i: int, c: char)
    requires
        0 <= i,
    ensures
        match find_char(s, i, c) {
            Some(j) => i <= j < s.len() && s[j] == c && forall|l: int| i <= l < j ==> s[l] != c,
            None => forall|l: int| i <= l < s.len() ==> s[l] != c,
        },
    decreases s.len() - i,
{
    if i >= s.len() {
    } else if s[i] == c {
    } else {
        lemma_find_char(s, i + 1, c);
    }
}

/// Lookup along the dotted path that starts at position `i`.
pub open spec fn jpath_from(v: JsonModel, p: Seq<char>, i: int) -> Option<JsonModel>
    decreases p.len() - i,
{
    if i < 0 || i > p.len() {
        None
    } else {
        match find_char(p, i, '.') {
            Some(d) => if i <= d < p.len() {
                match jget(v, p.subrange(i, d)) {
                    Some(child) => jpath_from(child, p, d + 1),
                    None => None,
                }
            } else {
                jget(v, p.subrange(i, p.len() as int))
            },
            None => jget(v, p.subrange(i, p.len() as int)),
        }
    }
}

/// Lookup along a dotted path such as `a.b.c`.
pub open spec fn spec_jpath(v: JsonModel, p: Seq<char>) -> Option<JsonModel> {
    jpath_from(v, p, 0)
}

/// The text a scalar stands for: strings and numbers their text, booleans
/// `true` or `false`; null and composites have none.
pub open spec fn spec_scalar_str(v: JsonModel) -> Option<Seq<char>> {
    match v {
        JsonModel::Str(s) => Some(s),
        JsonModel::Num(s) => Some(s),
        JsonModel::Bool(b) => Some(if b { "true"@ } else { "false"@ }),
        _ => None,
    }
}

/// Path lookup followed by scalar rendering: what `extract` stores and
/// `assert` compares.
pub open spec fn spec_path_str(v: JsonModel, p: Seq<char>) -> Option<Seq<char>> {
    match spec_jpath(v, p) {
        Some(x) => spec_scalar_str(x),
        None => None,
    }
}

fn obj_get<'a>(es: &'a Vec<(String, JsonValue)>, k: &str) -> (r: Option<&'a JsonValue>)
    ensures
        match r {
            Some(v) => jobj_get(obj_model(es@), k@) == Some(v@),
            None => jobj_get(obj_model(es@), k@) is None,
        },
{
    let ghost ms = obj_model(es@);
    let mut i: usize = 0;
    while i < es.len()
        invariant
            i <= es.len(),
            ms == obj_model(es@),
            ms.len() == es@.len(),
            forall|j: int| 0 <= j < i ==> ms[j].0 != k@,
        decreases es.len() - i,
    {
        if str_eq(es[i].0.as_str(), k) {
            assert(ms[i as int].0 == k@);
            assert(jkey_at(ms, k@, i as int));
            proof {
                let w = choose|j: int| jkey_at(ms, k@, j);
                assert(jkey_at(ms, k@, w));
                if w < i {
                    assert(ms[w].0 != k@);
                }
                if i < w {
                    assert(ms[i as int].0 != k@);
                }
            }
            assert(jobj_get(ms, k@) == Some(ms[i as int].1));
            assert(ms[i as int].1 == es@[i as int].1.model());
            return Some(&es[i].1);
        }
        i = i + 1;
    }
    proof {
        if exists|j: int| jkey_at(ms, k@, j) {
            let w = choose|j: int| jkey_at(ms, k@, j);
            assert(jkey_at(ms, k@, w));
            assert(ms[w].0 != k@);
        }
    }
    None
}

fn find_dot(cs: &Vec<char>, i: usize) -> (r: Option<usize>)
    ensures
        match r {
            Some(j) => Some(j as int) == find_char(cs@, i as int, '.'),
            None => find_char(cs@, i as int, '.') is None,
        },
{
    let n = cs.len();
    let mut j: usize = i;
    while j < n
        invariant
            i <= j,
            n == cs@.len(),
            forall|l: int| i <= l < j ==> cs@[l] != '.',
        decreases n - j,
    {
        if cs[j] == '.' {
            proof {
                lemma_find_char(cs@, i as int, '.');
                match find_char(cs@, i as int, '.') {
                    Some(j2) => {
                        if j2 < j {
                            assert(cs@[j2] != '.');
                        }
                        if (j as int) < j2 {
                            assert(cs@[j as int] != '.');
                        }
                    },
                    None => {
                        assert(cs@[j as int] != '.');
                    },
                }
            }
            return Some(j);
        }
        j = j + 1;
    }
    proof {
        lemma_find_char(cs@, i as int, '.');
        match find_char(cs@, i as int, '.') {
            Some(j2) => {
                assert(cs@[j2] != '.');
            },
            None => {},
        }
    }
    None
}

/// A structurally equal copy of the value.
pub fn clone_json(v: &JsonValue) -> (r: JsonValue)
    ensures
        r@ == v@,
    decreases v,
{
    match v {
        JsonValue::Null => JsonValue::Null,
        JsonValue::Bool(b) => JsonValue::Bool(*b),
        JsonValue::Num(s) => JsonValue::Num(s.clone()),
        JsonValue::Str(s) => JsonValue::Str(s.clone()),
        JsonValue::Arr(es) => {
            let mut out: Vec<JsonValue> = Vec::new();
            let n = es.len();
            let mut k: usize = 0;
            while k < n
                invariant
                    k <= n,
                    n == es@.len(),
                    *v == JsonValue::Arr(*es),
                    out@.len() == k,
                    forall|j: int| 0 <= j < k ==> out@[j].model() == es@[j].model(),
                decreases n - k,
            {
                proof {
                    broadcast use vstd::std_specs::vec::axiom_vec_decreases_to_view;
                    broadcast use vstd::seq::axiom_seq_index_decreases;

                    assert(decreases_to!(*v => v->Arr_0));
                    assert(v->Arr_0 == *es);
                    assert(decreases_to!(*es => es@));
                    assert(decreases_to!(es@ => es@[k as int]));
                }
                let c = clone_json(&es[k]);
                out.push(c);
                k = k + 1;
            }
            let r = JsonValue::Arr(out);
            assert(arr_model(out@) =~= arr_model(es@));
            r
        },
        JsonValue::Obj(es) => {
            let mut out: Vec<(String, JsonValue)> = Vec::new();
            let n = es.len();
            let mut k: usize = 0;
            while k < n
                invariant
                    k <= n,
                    n == es@.len(),
                    *v == JsonValue::Obj(*es),
                    out@.len() == k,
                    forall|j: int| 0 <= j < k ==> out@[j].0@ == es@[j].0@ && out@[j].1.model()
                        == es@[j].1.model(),
                decreases n - k,
            {
                proof {
                    broadcast use vstd::std_specs::vec::axiom_vec_decreases_to_view;
                    broadcast use vstd::seq::axiom_seq_index_decreases;

                    assert(decreases_to!(*v => v->Obj_0));
                    assert(v->Obj_0 == *es);
                    assert(decreases_to!(*es => es@));
                    assert(decreases_to!(es@ => es@[k as int]));
                    assert(decreases_to!(es@[k as int] => es@[k as int].1));
                }
                let c = clone_json(&es[k].1);
                let key = es[k].0.clone();
                out.push((key, c));
                k = k + 1;
            }
            let r = JsonValue::Obj(out);
            assert(obj_model(out@) =~= obj_model(es@));
            r
        },
    }
}

/// Member lookup on a value, as `jget` describes.
pub fn json_member<'a>(v: &'a JsonValue, k: &str) -> (r: Option<&'a JsonValue>)
    ensures
        match r {
            Some(x) => jget(v@, k@) == Some(x@),
            None => jget(v@, k@) is None,
        },
{
    match v {
        JsonValue::Obj(es) => obj_get(es, k),
        _ => None,
    }
}

/// Renders a scalar as text, as `spec_scalar_str` describes.
pub fn scalar_str(v: &JsonValue) -> (r: Option<String>)
    ensures
        match r {
            Some(s) => spec_scalar_str(v@) == Some(s@),
            None => spec_scalar_str(v@) is None,
        },
{
    match v {
        JsonValue::Str(s) => Some(s.clone()),
        JsonValue::Num(s) => Some(s.clone()),
        JsonValue::Bool(b) => {
            if *b {
                Some(String::from_str("true"))
            } else {
                Some(String::from_str("false"))
            }
        },
        _ => None,
    }
}

/// How one character is written inside a JSON string literal.
pub open spec fn esc_char(c: char) -> Seq<char> {
    if c == '"' {
        seq!['\\', '"']
    } else if c == '\\' {
        seq!['\\', '\\']
    } else if c == '\n' {
        seq!['\\', 'n']
    } else if c == '\r' {
        seq!['\\', 'r']
    } else if c == '\t' {
        seq!['\\', 't']
    } else {
        seq![c]
    }
}

/// The escaped rendering of the characters of `s` from position `i` on.
pub open spec fn spec_escape_from(s: Seq<char>, i: int) -> Seq<char>
    decreases s.len() - i,
{
    if i < 0 || i >= s.len() {
        Seq::<char>::empty()
    } else {
        esc_char(s[i]) + spec_escape_from(s, i + 1)
    }
}

/// The JSON text of a value, as this library writes it.
pub open spec fn spec_json_text(v: JsonModel) -> Seq<char>
    decreases v, 0nat,
{
    match v {
        JsonModel::Null => "null"@,
        JsonModel::Bool(b) => if b { "true"@ } else { "false"@ },
        JsonModel::Num(s) => s,
        JsonModel::Str(s) => seq!['"'] + spec_escape_from(s, 0) + seq!['"'],
        JsonModel::Arr(es) => seq!['['] + spec_arr_text(es, 0) + seq![']'],
        JsonModel::Obj(es) => seq!['{'] + spec_obj_text(es, 0) + seq!['}'],
    }
}

/// The comma-separated texts of an array's elements from index `k` on.
pub open spec fn spec_arr_text(es: Seq<JsonModel>, k: int) -> Seq<char>
    decreases es, es.len() - k,
{
    if k < 0 || k >= es.len() {
        Seq::<char>::empty()
    } else if k == es.len() - 1 {
        spec_json_text(es[k])
    } else {
        spec_json_text(es[k]) + seq![','] + spec_arr_text(es, k + 1)
    }
}

/// The comma-separated texts of an object's entries from index `k` on.
pub open spec fn spec_obj_text(es: Seq<(Seq<char>, JsonModel)>, k: int) -> Seq<char>
    decreases es, es.len() - k,
{
    if k < 0 || k >= es.len() {
        Seq::<char>::empty()
    } else if k == es.len() - 1 {
        seq!['"'] + spec_escape_from(es[k].0, 0) + seq!['"', ':'] + spec_json_text(es[k].1)
    } else {
        seq!['"'] + spec_escape_from(es[k].0, 0) + seq!['"', ':'] + spec_json_text(es[k].1)
            + seq![','] + spec_obj_text(es, k + 1)
    }
}

fn push_escaped(out: &mut String, cs: &Vec<char>)
    ensures
        final(out)@ == old(out)@ + spec_escape_from(cs@, 0),
{
    let n = cs.len();
    let mut i: usize = 0;
    while i < n
        invariant
            i <= n,
            n == cs@.len(),
            old(out)@ + spec_escape_from(cs@, 0) == out@ + spec_escape_from(cs@, i as int),
        decreases n - i,
    {
        let ghost pre = out@;
        let c = cs[i];
        if c == '"' {
            push_char(out, '\\');
            push_char(out, '"');
        } else if c == '\\' {
            push_char(out, '\\');
            push_char(out, '\\');
        } else if c == '\n' {
            push_char(out, '\\');
            push_char(out, 'n');
        } else if c == '\r' {
            push_char(out, '\\');
            push_char(out, 'r');
        } else if c == '\t' {
            push_char(out, '\\');
            push_char(out, 't');
        } else {
            push_char(out, c);
        }
        assert(out@ =~= pre + esc_char(cs@[i as int]));
        assert(pre + (esc_char(cs@[i as int]) + spec_escape_from(cs@, i + 1)) =~= (pre + esc_char(
            cs@[i as int],
        )) + spec_escape_from(cs@, i + 1));
        i = i + 1;
    }
    assert(out@ + spec_escape_from(cs@, n as int) =~= out@);
}

/// Writes the value as JSON text, as `spec_json_text` describes.
pub fn json_text(v: &JsonValue) -> (out: String)
    ensures
        out@ == spec_json_text(v@),
    decreases v,
{
    match v {
        JsonValue::Null => String::from_str("null"),
        JsonValue::Bool(b) => {
            if *b {
                String::from_str("true")
            } else {
                String::from_str("false")
            }
        },
        JsonValue::Num(s) => s.clone(),
        JsonValue::Str(s) => {
            let mut out = String::from_str("\"");
            let cs = chars_of(s.as_str());
            push_escaped(&mut out, &cs);
            out.append("\"");
            assert(out@ =~= seq!['"'] + spec_escape_from(s@, 0) + seq!['"']) by {
                assert("\""@ =~= seq!['"']) by {
                    reveal_strlit("\"");
                }
            }
            out
        },
        JsonValue::Arr(es) => {
            let ghost ms = arr_model(es@);
            let mut out = String::from_str("[");
            assert(out@ =~= seq!['[']) by {
                reveal_strlit("[");
            }
            let n = es.len();
            let mut k: usize = 0;
            while k < n
                invariant
                    k <= n,
                    n == es@.len(),
                    *v == JsonValue::Arr(*es),
                    ms == arr_model(es@),
                    ms.len() == n,
                    seq!['['] + spec_arr_text(ms, 0) == out@ + spec_arr_text(ms, k as int),
                decreases n - k,
            {
                let ghost pre = out@;
                proof {
                    broadcast use vstd::std_specs::vec::axiom_vec_decreases_to_view;
                    broadcast use vstd::seq::axiom_seq_index_decreases;

                    assert(decreases_to!(*v => v->Arr_0));
                    assert(v->Arr_0 == *es);
                    assert(decreases_to!(*es => es@));
                    assert(decreases_to!(es@ => es@[k as int]));
                }
                let piece = json_text(&es[k]);
                out.append(piece.as_str());
                assert(ms[k as int] == es@[k as int].model());
                if k + 1 < n {
                    out.append(",");
                    assert(","@ =~= seq![',']) by {
                        reveal_strlit(",");
                    }
                    assert(out@ =~= pre + (spec_json_text(ms[k as int]) + seq![',']));
                    assert(pre + (spec_json_text(ms[k as int]) + seq![',']) + spec_arr_text(
                        ms,
                        k + 1,
                    ) =~= pre + (spec_json_text(ms[k as int]) + seq![','] + spec_arr_text(
                        ms,
                        k + 1,
                    )));
                } else {
                    assert(spec_arr_text(ms, k as int) == spec_json_text(ms[k as int]));
                    assert(pre + spec_json_text(ms[k as int]) + spec_arr_text(ms, k + 1) =~= pre
                        + spec_json_text(ms[k as int]));
                }
                k = k + 1;
            }
            assert(out@ + spec_arr_text(ms, n as int) =~= out@);
            out.append("]");
            assert("]"@ =~= seq![']']) by {
                reveal_strlit("]");
            }
            assert(out@ =~= seq!['['] + spec_arr_text(ms, 0) + seq![']']);
            out
        },
        JsonValue::Obj(es) => {
            let ghost ms = obj_model(es@);
            let mut out = String::from_str("{");
            assert(out@ =~= seq!['{']) by {
                reveal_strlit("{");
            }
            let n = es.len();
            let mut k: usize = 0;
            while k < n
                invariant
                    k <= n,
                    n == es@.len(),
                    *v == JsonValue::Obj(*es),
                    ms == obj_model(es@),
                    ms.len() == n,
                    seq!['{'] + spec_obj_text(ms, 0) == out@ + spec_obj_text(ms, k as int),
                decreases n - k,
            {
                let ghost pre = out@;
                out.append("\"");
                let key_chars = chars_of(es[k].0.as_str());
                push_escaped(&mut out, &key_chars);
                out.append("\":");
                proof {
                    broadcast use vstd::std_specs::vec::axiom_vec_decreases_to_view;
                    broadcast use vstd::seq::axiom_seq_index_decreases;

                    assert(decreases_to!(*v => v->Obj_0));
                    assert(v->Obj_0 == *es);
                    assert(decreases_to!(*es => es@));
                    assert(decreases_to!(es@ => es@[k as int]));
                    assert(decreases_to!(es@[k as int] => es@[k as int].1));
                }
                let piece = json_text(&es[k].1);
                out.append(piece.as_str());
                assert(ms[k as int] == (es@[k as int].0@, es@[k as int].1.model()));
                let ghost entry = seq!['"'] + spec_escape_from(ms[k as int].0, 0) + seq!['"', ':']
                    + spec_json_text(ms[k as int].1);
                assert(out@ =~= pre + entry) by {
                    reveal_strlit("\"");
                    reveal_strlit("\":");
                }
                if k + 1 < n {
                    out.append(",");
                    assert(","@ =~= seq![',']) by {
                        reveal_strlit(",");
                    }
                    assert(out@ =~= pre + (entry + seq![',']));
                    assert(pre + (entry + seq![',']) + spec_obj_text(ms, k + 1) =~= pre + (entry
                        + seq![','] + spec_obj_text(ms, k + 1)));
                    assert(spec_obj_text(ms, k as int) == entry + seq![','] + spec_obj_text(
                        ms,
                        k + 1,
                    ));
                } else {
                    assert(spec_obj_text(ms, k as int) == entry);
                    assert(pre + entry + spec_obj_text(ms, k + 1) =~= pre + entry);
                }
                k = k + 1;
            }
            assert(out@ + spec_obj_text(ms, n as int) =~= out@);
            out.append("}");
            assert("}"@ =~= seq!['}']) by {
                reveal_strlit("}");
            }
            assert(out@ =~= seq!['{'] + spec_obj_text(ms, 0) + seq!['}']);
            out
        },
    }
}

/// Follows a dotted path (`a.b.c`) into the value and renders the scalar
/// it ends at; `None` when the path misses or ends at null or a composite.
pub fn get_json_path_str(value: &JsonValue, path: &str) -> (r: Option<String>)
    ensures
        match r {
            Some(s) => spec_path_str(value@, path@) == Some(s@),
            None => spec_path_str(value@, path@) is None,
        },
{
    let cs = chars_of(path);
    let n = cs.len();
    let mut cur: &JsonValue = value;
    let mut i: usize = 0;
    loop
        invariant
            i <= n,
            n == cs@.len(),
            cs@ == path@,
            spec_jpath(value@, path@) == jpath_from(cur@, cs@, i as int),
        decreases n - i,
    {
        proof {
            lemma_find_char(cs@, i as int, '.');
        }
        match find_dot(&cs, i) {
            Some(d) => {
                let seg = string_of(&subvec(&cs, i, d));
                assert(seg@ == cs@.subrange(i as int, d as int));
                match cur {
                    JsonValue::Obj(es) => {
                        match obj_get(es, seg.as_str()) {
                            Some(child) => {
                                assert(jget(cur@, cs@.subrange(i as int, d as int)) == Some(
                                    child@,
                                ));
                                assert(jpath_from(cur@, cs@, i as int) == jpath_from(
                                    child@,
                                    cs@,
                                    d + 1,
                                ));
                                cur = child;
                                i = d + 1;
                            },
                            None => {
                                assert(jget(cur@, cs@.subrange(i as int, d as int)) is None);
                                assert(jpath_from(cur@, cs@, i as int) is None);
                                return None;
                            },
                        }
                    },
                    _ => {
                        assert(jget(cur@, cs@.subrange(i as int, d as int)) is None);
                        assert(jpath_from(cur@, cs@, i as int) is None);
                        return None;
                    },
                }
            },
            None => {
                let seg = string_of(&subvec(&cs, i, n));
                assert(seg@ == cs@.subrange(i as int, n as int));
                match cur {
                    JsonValue::Obj(es) => {
                        match obj_get(es, seg.as_str()) {
                            Some(x) => {
                                assert(jpath_from(cur@, cs@, i as int) == Some(x@));
                                return scalar_str(x);
                            },
                            None => {
                                assert(jpath_from(cur@, cs@, i as int) is None);
                                return None;
                            },
                        }
                    },
                    _ => {
                        assert(jget(cur@, cs@.subrange(i as int, n as int)) is None);
                        assert(jpath_from(cur@, cs@, i as int) is None);
                        return None;
                    },
                }
            },
        }
    }
}

} // verus!
