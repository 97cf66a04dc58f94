//! A JSON document model.
//!
//! Tool responses, tool arguments and assertion operands are JSON documents.
//! The library keeps them in [`JsonValue`], which mirrors `serde_json::Value`
//! with the default (sorted-map) object representation:
//!
//! * integers keep the variant serde_json gives them (`PosInt` for values that
//!   fit in `u64`, `NegInt` for negative values);
//! * a floating-point number is carried as the bit pattern of its `f64` value
//!   (with negative zero stored as positive zero, so that equal numbers have equal
//!   bits) together with its JSON text as serde_json writes it;
//! * object members are kept in ascending key order with distinct keys.
use vstd::prelude::*;
use crate::services::logger_backend::{lemma_lex_less_asymmetric, lex_less};
use crate::text::{
    chars_of, parse_unsigned, parse_usize, push_char, push_str, seq_eq, str_eq, string_of,
};

verus! {

/// A floating-point JSON number, carried as data.
#[derive(Debug)]
pub struct JsonFloat {
    /// `f64::to_bits` of the value (negative zero normalised to positive zero).
    pub bits: u64,
    /// The number as serde_json writes it.
    pub text: String,
}

/// A floating-point number carried as data: the bit pattern of its `f64` value
/// and the text `f64`'s `Display` writes for it.
#[derive(Debug)]
pub struct F64Value {
    pub bits: u64,
    pub display: String,
}

/// A JSON number.
#[derive(Debug)]
pub enum JsonNumber {
    PosInt(u64),
    NegInt(i64),
    Float(JsonFloat),
}

/// One member of a JSON object.
#[derive(Debug)]
pub struct JsonMember {
    pub key: String,
    pub value: JsonValue,
}

/// A JSON value.
#[derive(Debug)]
pub enum JsonValue {
    Null,
    Bool(bool),
    Number(JsonNumber),
    String(String),
    Array(Vec<JsonValue>),
    Object(Vec<JsonMember>),
}

// ---------------------------------------------------------------------------
// Equality
// ---------------------------------------------------------------------------

/// Two JSON numbers are equal: same variant and same value.
pub open spec fn number_same(a: JsonNumber, b: JsonNumber) -> bool {
    match (a, b) {
        (JsonNumber::PosInt(x), JsonNumber::PosInt(y)) => x == y,
        (JsonNumber::NegInt(x), JsonNumber::NegInt(y)) => x == y,
        (JsonNumber::Float(x), JsonNumber::Float(y)) => x.bits == y.bits,
        _ => false,
    }
}

/// Two JSON values are equal member by member and element by element; on
/// values that [`json_valid`] admits this is serde_json's `==` (see
/// [`lemma_objects_same_as_maps`] for objects).
pub open spec fn json_same(a: JsonValue, b: JsonValue) -> bool
    decreases a,
{
    match a {
        JsonValue::Null => b is Null,
        JsonValue::Bool(x) => b matches JsonValue::Bool(y) && x == y,
        JsonValue::Number(x) => b matches JsonValue::Number(y) && number_same(x, y),
        JsonValue::String(x) => b matches JsonValue::String(y) && x@ == y@,
        JsonValue::Array(xs) => match b {
            JsonValue::Array(ys) => xs@.len() == ys@.len() && forall|i: int|
                0 <= i < xs@.len() ==> json_same(#[trigger] xs@[i], ys@[i]),
            _ => false,
        },
        JsonValue::Object(xs) => match b {
            JsonValue::Object(ys) => xs@.len() == ys@.len() && forall|i: int|
                0 <= i < xs@.len() ==> (#[trigger] xs@[i]).key@ == ys@[i].key@ && json_same(
                    xs@[i].value,
                    ys@[i].value,
                ),
            _ => false,
        },
    }
}

/// Equality of scalar values is equality of their contents: `null` equals only
/// `null`, two booleans or two integers are equal exactly when their values
/// are, two strings exactly when their texts are, and values of different
/// kinds are never equal.
pub proof fn lemma_scalar_equality(a: JsonValue, b: JsonValue)
    ensures
        a is Null ==> (json_same(a, b) <==> b is Null),
        a matches JsonValue::Bool(x) ==> b matches JsonValue::Bool(y) ==> (json_same(a, b) <==> x == y),
        a matches JsonValue::String(x) ==> b matches JsonValue::String(y) ==> (json_same(a, b) <==> x@ == y@),
        a matches JsonValue::Number(JsonNumber::PosInt(x)) ==> b matches JsonValue::Number(JsonNumber::PosInt(y))
            ==> (json_same(a, b) <==> x == y),
        a matches JsonValue::Number(JsonNumber::NegInt(x)) ==> b matches JsonValue::Number(JsonNumber::NegInt(y))
            ==> (json_same(a, b) <==> x == y),
        (a is Bool && !(b is Bool)) ==> !json_same(a, b),
        (a is String && !(b is String)) ==> !json_same(a, b),
        (a is Number && !(b is Number)) ==> !json_same(a, b),
        (a is Array && !(b is Array)) ==> !json_same(a, b),
        (a is Object && !(b is Object)) ==> !json_same(a, b),
{
}

/// Equality of two JSON numbers.
pub fn number_eq(a: &JsonNumber, b: &JsonNumber) -> (r: bool)
    ensures
        r == number_same(*a, *b),
{
    match (a, b) {
        (JsonNumber::PosInt(x), JsonNumber::PosInt(y)) => *x == *y,
        (JsonNumber::NegInt(x), JsonNumber::NegInt(y)) => *x == *y,
        (JsonNumber::Float(x), JsonNumber::Float(y)) => x.bits == y.bits,
        _ => false,
    }
}

/// Equality of two JSON values, as [`json_same`] states it.
pub fn json_eq(a: &JsonValue, b: &JsonValue) -> (r: bool)
    ensures
        r == json_same(*a, *b),
    decreases a,
{
    match a {
        JsonValue::Null => match b {
            JsonValue::Null => true,
            _ => false,
        },
        JsonValue::Bool(x) => match b {
            JsonValue::Bool(y) => *x == *y,
            _ => false,
        },
        JsonValue::Number(x) => match b {
            JsonValue::Number(y) => number_eq(x, y),
            _ => false,
        },
        JsonValue::String(x) => match b {
            JsonValue::String(y) => str_eq(x.as_str(), y.as_str()),
            _ => false,
        },
        JsonValue::Array(xs) => match b {
            JsonValue::Array(ys) => {
                if xs.len() != ys.len() {
                    return false;
                }
                let mut i: usize = 0;
                while i < xs.len()
                    invariant
                        *a == JsonValue::Array(*xs),
                        *b == JsonValue::Array(*ys),
                        xs.len() == ys.len(),
                        i <= xs.len(),
                        forall|j: int| 0 <= j < i ==> json_same(#[trigger] xs@[j], ys@[j]),
                    decreases xs.len() - i,
                {
                    proof {
                        vstd::std_specs::vec::axiom_vec_index_decreases(*xs, i as int);
                        assert(decreases_to!(*a => (*a)->Array_0));
                        assert(decreases_to!(*xs => xs[i as int]));
                    }
                    if !json_eq(&xs[i], &ys[i]) {
                        proof {
                            let k = i as int;
                            assert(!json_same(xs@[k], ys@[k]));
                            assert(0 <= k < xs@.len());
                            if json_same(*a, *b) {
                                assert(json_same(xs@[k], ys@[k]));
                            }
                        }
                        return false;
                    }
                    i = i + 1;
                }
                true
            },
            _ => false,
        },
        JsonValue::Object(xs) => match b {
            JsonValue::Object(ys) => {
                if xs.len() != ys.len() {
                    return false;
                }
                let mut i: usize = 0;
                while i < xs.len()
                    invariant
                        *a == JsonValue::Object(*xs),
                        *b == JsonValue::Object(*ys),
                        xs.len() == ys.len(),
                        i <= xs.len(),
                        forall|j: int|
                            0 <= j < i ==> (#[trigger] xs@[j]).key@ == ys@[j].key@ && json_same(
                                xs@[j].value,
                                ys@[j].value,
                            ),
                    decreases xs.len() - i,
                {
                    proof {
                        vstd::std_specs::vec::axiom_vec_index_decreases(*xs, i as int);
                        assert(decreases_to!(*a => (*a)->Object_0));
                        assert(decreases_to!(*xs => xs[i as int]));
                        assert(decreases_to!(xs[i as int] => xs[i as int].value));
                    }
                    if !str_eq(xs[i].key.as_str(), ys[i].key.as_str()) {
                        assert(xs@[i as int].key@ != ys@[i as int].key@);
                        return false;
                    }
                    if !json_eq(&xs[i].value, &ys[i].value) {
                        assert(!json_same(xs@[i as int].value, ys@[i as int].value));
                        return false;
                    }
                    i = i + 1;
                }
                true
            },
            _ => false,
        },
    }
}


// ---------------------------------------------------------------------------
// Well-formed values
// ---------------------------------------------------------------------------

/// The keys of `ms` are in strictly ascending order (hence distinct).
pub open spec fn keys_ascending(ms: Seq<JsonMember>) -> bool {
    forall|i: int, j: int| 0 <= i < j < ms.len() ==> lex_less(#[trigger] ms[i].key@, #[trigger] ms[j].key@)
}

/// A value that serde_json can hold: every object has its keys in strictly
/// ascending order, and every float is finite and not a negative zero (stored
/// as positive zero). On such values [`json_same`] is serde_json's `==`.
pub open spec fn json_valid(v: JsonValue) -> bool
    decreases v,
{
    match v {
        JsonValue::Number(JsonNumber::Float(f)) => f.bits != 0x8000_0000_0000_0000u64
            && (f.bits & 0x7ff0_0000_0000_0000u64) != 0x7ff0_0000_0000_0000u64,
        JsonValue::Array(xs) => forall|i: int| 0 <= i < xs@.len() ==> json_valid(#[trigger] xs@[i]),
        JsonValue::Object(ms) => keys_ascending(ms@) && forall|i: int|
            0 <= i < ms@.len() ==> json_valid(#[trigger] ms@[i].value),
        _ => true,
    }
}

/// `find_member` finds a key exactly when some member has it, and with
/// distinct keys it gives that member's value.
pub proof fn lemma_find_member(ms: Seq<JsonMember>, key: Seq<char>)
    ensures
        find_member(ms, key) is Some <==> exists|i: int| 0 <= i < ms.len() && (#[trigger] ms[i]).key@ == key,
        keys_ascending(ms) ==> forall|i: int| 0 <= i < ms.len() && (#[trigger] ms[i]).key@ == key
            ==> find_member(ms, key) == Some(ms[i].value),
    decreases ms.len(),
{
    if ms.len() > 0 {
        let rest = ms.subrange(1, ms.len() as int);
        lemma_find_member(rest, key);
        assert forall|i: int| 1 <= i < ms.len() implies ms[i] == #[trigger] rest[i - 1] by {}
        if exists|i: int| 0 <= i < ms.len() && (#[trigger] ms[i]).key@ == key {
            let i = choose|i: int| 0 <= i < ms.len() && (#[trigger] ms[i]).key@ == key;
            if i > 0 {
                assert(rest[i - 1].key@ == key);
            }
        }
        if exists|i: int| 0 <= i < rest.len() && (#[trigger] rest[i]).key@ == key {
            let i = choose|i: int| 0 <= i < rest.len() && (#[trigger] rest[i]).key@ == key;
            assert(ms[i + 1].key@ == key);
        }
        if keys_ascending(ms) {
            assert forall|i: int, j: int| 0 <= i < j < rest.len() implies lex_less(#[trigger] rest[i].key@, #[trigger] rest[j].key@) by {
                assert(ms[i + 1] == rest[i]);
                assert(ms[j + 1] == rest[j]);
            }
            assert forall|i: int| 0 <= i < ms.len() && (#[trigger] ms[i]).key@ == key
                implies find_member(ms, key) == Some(ms[i].value) by {
                if i > 0 {
                    assert(lex_less(ms[0].key@, ms[i].key@));
                    lemma_lex_less_asymmetric(ms[0].key@, ms[0].key@);
                    assert(rest[i - 1].key@ == key);
                }
            }
        }
    }
}

/// The keys of `ms`, in order.
pub open spec fn member_keys(ms: Seq<JsonMember>) -> Seq<Seq<char>> {
    Seq::new(ms.len(), |i: int| ms[i].key@)
}

/// Two strictly ascending key lists with the same keys are the same list.
proof fn lemma_ascending_keys_equal(k1: Seq<Seq<char>>, k2: Seq<Seq<char>>)
    requires
        forall|i: int, j: int| 0 <= i < j < k1.len() ==> lex_less(#[trigger] k1[i], #[trigger] k1[j]),
        forall|i: int, j: int| 0 <= i < j < k2.len() ==> lex_less(#[trigger] k2[i], #[trigger] k2[j]),
        forall|x: Seq<char>| k1.contains(x) <==> k2.contains(x),
    ensures
        k1 == k2,
    decreases k1.len(),
{
    if k1.len() == 0 {
        if k2.len() > 0 {
            assert(k2.contains(k2[0]));
        }
        assert(k1 =~= k2);
    } else {
        assert(k1.contains(k1[0]));
        if k2.len() == 0 {
            assert(false);
        }
        assert(k2.contains(k2[0]));
        let i = choose|i: int| 0 <= i < k1.len() && k1[i] == k2[0];
        let j = choose|j: int| 0 <= j < k2.len() && k2[j] == k1[0];
        if i > 0 && j > 0 {
            assert(lex_less(k1[0], k1[i]));
            assert(lex_less(k2[0], k2[j]));
            lemma_lex_less_asymmetric(k1[0], k2[0]);
        }
        assert(k1[0] == k2[0]);
        let t1 = k1.drop_first();
        let t2 = k2.drop_first();
        assert forall|a: int, b: int| 0 <= a < b < t1.len() implies lex_less(#[trigger] t1[a], #[trigger] t1[b]) by {
            assert(t1[a] == k1[a + 1] && t1[b] == k1[b + 1]);
        }
        assert forall|a: int, b: int| 0 <= a < b < t2.len() implies lex_less(#[trigger] t2[a], #[trigger] t2[b]) by {
            assert(t2[a] == k2[a + 1] && t2[b] == k2[b + 1]);
        }
        assert forall|x: Seq<char>| t1.contains(x) <==> t2.contains(x) by {
            if t1.contains(x) {
                let a = choose|a: int| 0 <= a < t1.len() && t1[a] == x;
                assert(k1[a + 1] == x);
                assert(lex_less(k1[0], k1[a + 1]));
                lemma_lex_less_asymmetric(k1[0], k1[0]);
                assert(k2.contains(x));
                let b = choose|b: int| 0 <= b < k2.len() && k2[b] == x;
                assert(b != 0);
                assert(t2[b - 1] == x);
            }
            if t2.contains(x) {
                let a = choose|a: int| 0 <= a < t2.len() && t2[a] == x;
                assert(k2[a + 1] == x);
                assert(lex_less(k2[0], k2[a + 1]));
                lemma_lex_less_asymmetric(k2[0], k2[0]);
                assert(k1.contains(x));
                let b = choose|b: int| 0 <= b < k1.len() && k1[b] == x;
                assert(b != 0);
                assert(t1[b - 1] == x);
            }
        }
        lemma_ascending_keys_equal(t1, t2);
        assert(k1 =~= seq![k1[0]] + t1);
        assert(k2 =~= seq![k2[0]] + t2);
    }
}

/// On well-formed objects, [`json_same`] is equality of maps: the same keys,
/// and under each key equal values (serde_json's `==` on objects).
pub proof fn lemma_objects_same_as_maps(xs: Vec<JsonMember>, ys: Vec<JsonMember>)
    requires
        json_valid(JsonValue::Object(xs)),
        json_valid(JsonValue::Object(ys)),
    ensures
        json_same(JsonValue::Object(xs), JsonValue::Object(ys)) <==> (
            (forall|k: Seq<char>| (#[trigger] find_member(xs@, k) is Some) <==> (find_member(ys@, k) is Some))
            && (forall|k: Seq<char>| #[trigger] find_member(xs@, k) is Some
                ==> json_same(find_member(xs@, k)->0, find_member(ys@, k)->0))),
{
    let a = xs@;
    let b = ys@;
    let ka = member_keys(a);
    let kb = member_keys(b);
    assert forall|k: Seq<char>| #[trigger] find_member(a, k) == find_member(a, k) implies
        (find_member(a, k) is Some <==> ka.contains(k))
        && (find_member(b, k) is Some <==> kb.contains(k)) by {
        lemma_find_member(a, k);
        lemma_find_member(b, k);
        if find_member(a, k) is Some {
            let i = choose|i: int| 0 <= i < a.len() && (#[trigger] a[i]).key@ == k;
            assert(ka[i] == k);
        }
        if ka.contains(k) {
            let i = choose|i: int| 0 <= i < ka.len() && ka[i] == k;
            assert(a[i].key@ == k);
        }
        if find_member(b, k) is Some {
            let i = choose|i: int| 0 <= i < b.len() && (#[trigger] b[i]).key@ == k;
            assert(kb[i] == k);
        }
        if kb.contains(k) {
            let i = choose|i: int| 0 <= i < kb.len() && kb[i] == k;
            assert(b[i].key@ == k);
        }
    }
    let same = json_same(JsonValue::Object(xs), JsonValue::Object(ys));
    let maps = (forall|k: Seq<char>| (#[trigger] find_member(a, k) is Some) <==> (find_member(b, k) is Some))
        && (forall|k: Seq<char>| #[trigger] find_member(a, k) is Some
            ==> json_same(find_member(a, k)->0, find_member(b, k)->0));
    if same {
        assert(ka =~= kb);
        assert forall|k: Seq<char>| #[trigger] find_member(a, k) is Some implies
            json_same(find_member(a, k)->0, find_member(b, k)->0) by {
            lemma_find_member(a, k);
            lemma_find_member(b, k);
            let i = choose|i: int| 0 <= i < a.len() && (#[trigger] a[i]).key@ == k;
            assert(b[i].key@ == k);
        }
        assert(maps);
    }
    if maps {
        assert forall|x: Seq<char>| ka.contains(x) <==> kb.contains(x) by {
            assert(find_member(a, x) == find_member(a, x));
        }
        assert forall|i: int, j: int| 0 <= i < j < ka.len() implies lex_less(#[trigger] ka[i], #[trigger] ka[j]) by {
            assert(lex_less(a[i].key@, a[j].key@));
        }
        assert forall|i: int, j: int| 0 <= i < j < kb.len() implies lex_less(#[trigger] kb[i], #[trigger] kb[j]) by {
            assert(lex_less(b[i].key@, b[j].key@));
        }
        lemma_ascending_keys_equal(ka, kb);
        assert(a.len() == ka.len() && b.len() == kb.len());
        assert forall|i: int| 0 <= i < a.len() implies (#[trigger] a[i]).key@ == b[i].key@ && json_same(a[i].value, b[i].value) by {
            assert(ka[i] == kb[i]);
            let k = a[i].key@;
            lemma_find_member(a, k);
            lemma_find_member(b, k);
            assert(find_member(a, k) == Some(a[i].value));
            assert(find_member(b, k) == Some(b[i].value));
        }
        assert(same);
    }
}


// ---------------------------------------------------------------------------
// Field paths
// ---------------------------------------------------------------------------

/// The value of the member named `key`: the first member with that key.
pub open spec fn find_member(ms: Seq<JsonMember>, key: Seq<char>) -> Option<JsonValue>
    decreases ms.len(),
{
    if ms.len() == 0 {
        None
    } else if ms[0].key@ == key {
        Some(ms[0].value)
    } else {
        find_member(ms.subrange(1, ms.len() as int), key)
    }
}

/// `s` split at every occurrence of `sep` (`str::split` with a char pattern):
/// always at least one piece.
pub open spec fn split_on(s: Seq<char>, sep: char) -> Seq<Seq<char>>
    decreases s.len(),
{
    if s.len() == 0 {
        seq![Seq::<char>::empty()]
    } else {
        let prev = split_on(s.drop_last(), sep);
        if s.last() == sep {
            prev.push(Seq::<char>::empty())
        } else {
            prev.update(prev.len() - 1, prev.last().push(s.last()))
        }
    }
}

/// One step down a path: a member of an object, or an element of an array
/// addressed by a decimal index.
pub open spec fn step_into(v: JsonValue, part: Seq<char>) -> Option<JsonValue> {
    match v {
        JsonValue::Object(ms) => find_member(ms@, part),
        JsonValue::Array(es) => match parse_unsigned(part, usize::MAX as nat) {
            Some(n) => if n < es@.len() {
                Some(es@[n as int])
            } else {
                None
            },
            None => None,
        },
        _ => None,
    }
}

/// Follows the path pieces `parts` from `v`.
pub open spec fn walk_path(v: JsonValue, parts: Seq<Seq<char>>) -> Option<JsonValue>
    decreases parts.len(),
{
    if parts.len() == 0 {
        Some(v)
    } else {
        match step_into(v, parts[0]) {
            Some(w) => walk_path(w, parts.subrange(1, parts.len() as int)),
            None => None,
        }
    }
}

/// The value found at a dot-separated field path such as `data.items.1.id`.
pub open spec fn field_value(v: JsonValue, field: Seq<char>) -> Option<JsonValue> {
    walk_path(v, split_on(field, '.'))
}

proof fn lemma_split_nonempty(s: Seq<char>, sep: char)
    ensures
        split_on(s, sep).len() >= 1,
    decreases s.len(),
{
    if s.len() > 0 {
        lemma_split_nonempty(s.drop_last(), sep);
    }
}

/// The views of a vector of strings.
pub open spec fn views_of(v: Seq<String>) -> Seq<Seq<char>> {
    Seq::new(v.len(), |i: int| v[i]@)
}

/// Splits `s` at every `sep`.
pub fn split_chars(s: &[char], sep: char) -> (parts: Vec<String>)
    ensures
        views_of(parts@) == split_on(s@, sep),
{
    let mut parts: Vec<String> = Vec::new();
    let mut cur: Vec<char> = Vec::new();
    let mut i: usize = 0;
    while i < s.len()
        invariant
            i <= s.len(),
            views_of(parts@).push(cur@) == split_on(s@.subrange(0, i as int), sep),
        decreases s.len() - i,
    {
        let c = s[i];
        proof {
            let pre = s@.subrange(0, i as int);
            let nxt = s@.subrange(0, i + 1);
            assert(nxt.drop_last() =~= pre);
            lemma_split_nonempty(pre, sep);
        }
        if c == sep {
            let piece = string_of(&cur);
            parts.push(piece);
            cur = Vec::new();
            assert(views_of(parts@) =~= views_of(parts@.drop_last()).push(piece@));
            assert(views_of(parts@).push(cur@) =~= split_on(s@.subrange(0, i + 1), sep));
        } else {
            cur.push(c);
            assert(views_of(parts@).push(cur@) =~= split_on(s@.subrange(0, i + 1), sep));
        }
        i = i + 1;
    }
    let last = string_of(&cur);
    parts.push(last);
    assert(s@.subrange(0, s@.len() as int) =~= s@);
    assert(views_of(parts@) =~= views_of(parts@.drop_last()).push(last@));
    parts
}

/// The value a borrowed option refers to.
pub open spec fn opt_val(r: Option<&JsonValue>) -> Option<JsonValue> {
    match r {
        Some(x) => Some(*x),
        None => None,
    }
}

/// The member named `key`, if any.
pub fn lookup_member<'a>(ms: &'a Vec<JsonMember>, key: &[char]) -> (r: Option<&'a JsonValue>)
    ensures
        opt_val(r) == find_member(ms@, key@),
{
    let mut i: usize = 0;
    assert(ms@.subrange(0, ms@.len() as int) =~= ms@);
    while i < ms.len()
        invariant
            i <= ms.len(),
            find_member(ms@, key@) == find_member(ms@.subrange(i as int, ms@.len() as int), key@),
        decreases ms.len() - i,
    {
        let kc = chars_of(ms[i].key.as_str());
        let ghost rest = ms@.subrange(i as int, ms@.len() as int);
        assert(rest.subrange(1, rest.len() as int) =~= ms@.subrange(i + 1, ms@.len() as int));
        if seq_eq(&kc, key) {
            return Some(&ms[i].value);
        }
        i = i + 1;
    }
    None
}

/// The value at the dot-separated field path `field` of `response`.
pub fn get_field_value<'a>(response: &'a JsonValue, field: &str) -> (r: Option<&'a JsonValue>)
    ensures
        opt_val(r) == field_value(*response, field@),
{
    let fc = chars_of(field);
    let parts = split_chars(&fc, '.');
    let ghost ps = views_of(parts@);
    let mut current: &JsonValue = response;
    let mut i: usize = 0;
    assert(ps.subrange(0, ps.len() as int) =~= ps);
    while i < parts.len()
        invariant
            ps == views_of(parts@),
            i <= parts.len(),
            field_value(*response, field@) == walk_path(
                *current,
                ps.subrange(i as int, ps.len() as int),
            ),
        decreases parts.len() - i,
    {
        let ghost rest = ps.subrange(i as int, ps.len() as int);
        assert(rest.subrange(1, rest.len() as int) =~= ps.subrange(i + 1, ps.len() as int));
        assert(rest[0] == parts@[i as int]@);
        let part = chars_of(parts[i].as_str());
        let next: Option<&JsonValue> = match current {
            JsonValue::Object(ms) => lookup_member(ms, &part),
            JsonValue::Array(es) => match parse_usize(&part) {
                Some(n) => {
                    if n < es.len() {
                        Some(&es[n])
                    } else {
                        None
                    }
                },
                None => None,
            },
            _ => None,
        };
        match next {
            Some(w) => {
                current = w;
            },
            None => {
                return None;
            },
        }
        i = i + 1;
    }
    assert(ps.subrange(i as int, ps.len() as int) =~= Seq::<Seq<char>>::empty());
    Some(current)
}

/// The name of a JSON value's type; `"null"` when there is no value.
pub open spec fn json_type_of(v: Option<JsonValue>) -> Seq<char> {
    match v {
        Some(JsonValue::String(_)) => "string"@,
        Some(JsonValue::Number(_)) => "number"@,
        Some(JsonValue::Bool(_)) => "boolean"@,
        Some(JsonValue::Array(_)) => "array"@,
        Some(JsonValue::Object(_)) => "object"@,
        _ => "null"@,
    }
}

/// The name of a JSON value's type; `"null"` when there is no value.
pub fn json_type_name(v: Option<&JsonValue>) -> (s: String)
    ensures
        s@ == json_type_of(opt_val(v)),
{
    let name = match v {
        Some(JsonValue::String(_)) => "string",
        Some(JsonValue::Number(_)) => "number",
        Some(JsonValue::Bool(_)) => "boolean",
        Some(JsonValue::Array(_)) => "array",
        Some(JsonValue::Object(_)) => "object",
        _ => "null",
    };
    String::from_str(name)
}


// ---------------------------------------------------------------------------
// Rendering
// ---------------------------------------------------------------------------

/// A lowercase hexadecimal digit.
pub open spec fn hex_char(d: nat) -> char {
    if d < 10 {
        ((48 + d) as u32) as char
    } else {
        ((87 + d) as u32) as char
    }
}

/// How serde_json writes one character inside a string literal.
pub open spec fn escape_char(c: char) -> Seq<char> {
    let u = c as u32;
    if c == '"' {
        seq!['\\', '"']
    } else if c == '\\' {
        seq!['\\', '\\']
    } else if u == 8 {
        seq!['\\', 'b']
    } else if u == 9 {
        seq!['\\', 't']
    } else if u == 10 {
        seq!['\\', 'n']
    } else if u == 12 {
        seq!['\\', 'f']
    } else if u == 13 {
        seq!['\\', 'r']
    } else if u < 32 {
        seq!['\\', 'u', '0', '0', hex_char((u / 16) as nat), hex_char((u % 16) as nat)]
    } else {
        seq![c]
    }
}

/// The escaped contents of a string literal.
pub open spec fn escaped(s: Seq<char>) -> Seq<char>
    decreases s.len(),
{
    if s.len() == 0 {
        Seq::empty()
    } else {
        escaped(s.drop_last()) + escape_char(s.last())
    }
}

/// A JSON string literal.
pub open spec fn quoted(s: Seq<char>) -> Seq<char> {
    seq!['"'] + escaped(s) + seq!['"']
}

/// The JSON text of a number.
pub open spec fn number_text(n: JsonNumber) -> Seq<char> {
    match n {
        JsonNumber::PosInt(x) => crate::text::decimal(x as nat),
        JsonNumber::NegInt(x) => crate::text::signed_decimal(x as int),
        JsonNumber::Float(f) => f.text@,
    }
}

/// The compact JSON text of a value (serde_json's `Display`).
pub open spec fn json_text(v: JsonValue) -> Seq<char>
    decreases v, 1int,
{
    match v {
        JsonValue::Null => "null"@,
        JsonValue::Bool(b) => if b {
            "true"@
        } else {
            "false"@
        },
        JsonValue::Number(n) => number_text(n),
        JsonValue::String(s) => quoted(s@),
        JsonValue::Array(xs) => seq!['['] + elems_text(xs@) + seq![']'],
        JsonValue::Object(ms) => seq!['{'] + members_text(ms@) + seq!['}'],
    }
}

/// The elements of an array, separated by commas.
pub open spec fn elems_text(xs: Seq<JsonValue>) -> Seq<char>
    decreases xs, 0int,
{
    if xs.len() == 0 {
        Seq::empty()
    } else if xs.len() == 1 {
        json_text(xs[0])
    } else {
        elems_text(xs.drop_last()) + seq![','] + json_text(xs.last())
    }
}

/// The members of an object, separated by commas.
pub open spec fn members_text(ms: Seq<JsonMember>) -> Seq<char>
    decreases ms, 0int,
{
    if ms.len() == 0 {
        Seq::empty()
    } else if ms.len() == 1 {
        quoted(ms[0].key@) + seq![':'] + json_text(ms[0].value)
    } else {
        members_text(ms.drop_last()) + seq![','] + quoted(ms.last().key@) + seq![':'] + json_text(
            ms.last().value,
        )
    }
}


/// A lowercase hexadecimal digit for `d < 16`.
fn hex_digit_exec(d: u32) -> (c: char)
    requires
        d < 16,
    ensures
        c == hex_char(d as nat),
{
    if d < 10 {
        ((48 + d) as u8) as char
    } else {
        ((87 + d) as u8) as char
    }
}

/// Appends the escaped form of `c`.
fn write_escaped_char(out: &mut String, c: char)
    ensures
        final(out)@ == old(out)@ + escape_char(c),
{
    let u = c as u32;
    if c == '"' {
        push_char(out, '\\');
        push_char(out, '"');
    } else if c == '\\' {
        push_char(out, '\\');
        push_char(out, '\\');
    } else if u == 8 {
        push_char(out, '\\');
        push_char(out, 'b');
    } else if u == 9 {
        push_char(out, '\\');
        push_char(out, 't');
    } else if u == 10 {
        push_char(out, '\\');
        push_char(out, 'n');
    } else if u == 12 {
        push_char(out, '\\');
        push_char(out, 'f');
    } else if u == 13 {
        push_char(out, '\\');
        push_char(out, 'r');
    } else if u < 32 {
        push_char(out, '\\');
        push_char(out, 'u');
        push_char(out, '0');
        push_char(out, '0');
        push_char(out, hex_digit_exec(u / 16));
        push_char(out, hex_digit_exec(u % 16));
    } else {
        push_char(out, c);
    }
    assert(final(out)@ =~= old(out)@ + escape_char(c));
}

/// Appends `s` as a JSON string literal.
pub fn write_quoted(out: &mut String, s: &str)
    ensures
        final(out)@ == old(out)@ + quoted(s@),
{
    let cs = chars_of(s);
    push_char(out, '"');
    let mut i: usize = 0;
    while i < cs.len()
        invariant
            cs@ == s@,
            i <= cs.len(),
            out@ == old(out)@ + seq!['"'] + escaped(cs@.subrange(0, i as int)),
        decreases cs.len() - i,
    {
        assert(cs@.subrange(0, i + 1).drop_last() =~= cs@.subrange(0, i as int));
        write_escaped_char(out, cs[i]);
        i = i + 1;
    }
    assert(cs@.subrange(0, cs@.len() as int) =~= s@);
    push_char(out, '"');
    assert(out@ =~= old(out)@ + quoted(s@));
}

/// Appends the JSON text of a number.
pub fn write_number(out: &mut String, n: &JsonNumber)
    ensures
        final(out)@ == old(out)@ + number_text(*n),
{
    match n {
        JsonNumber::PosInt(x) => crate::text::push_decimal(out, *x),
        JsonNumber::NegInt(x) => {
            let t = crate::text::i64_to_decimal(*x);
            push_str(out, t.as_str());
        },
        JsonNumber::Float(f) => push_str(out, f.text.as_str()),
    }
}

/// Appends the compact JSON text of `v` (serde_json's `Display`).
pub fn write_json(out: &mut String, v: &JsonValue)
    ensures
        final(out)@ == old(out)@ + json_text(*v),
    decreases v,
{
    match v {
        JsonValue::Null => push_str(out, "null"),
        JsonValue::Bool(b) => {
            if *b {
                push_str(out, "true");
            } else {
                push_str(out, "false");
            }
        },
        JsonValue::Number(n) => write_number(out, n),
        JsonValue::String(s) => write_quoted(out, s.as_str()),
        JsonValue::Array(xs) => {
            push_char(out, '[');
            let mut i: usize = 0;
            while i < xs.len()
                invariant
                    *v == JsonValue::Array(*xs),
                    i <= xs.len(),
                    out@ == old(out)@ + seq!['['] + elems_text(xs@.subrange(0, i as int)),
                decreases xs.len() - i,
            {
                proof {
                    vstd::std_specs::vec::axiom_vec_index_decreases(*xs, i as int);
                    assert(decreases_to!(*v => (*v)->Array_0));
                    assert(decreases_to!(*xs => xs[i as int]));
                    let t = xs@.subrange(0, i + 1);
                    assert(t.drop_last() =~= xs@.subrange(0, i as int));
                    assert(t.last() == xs@[i as int]);
                }
                if i > 0 {
                    push_char(out, ',');
                }
                write_json(out, &xs[i]);
                i = i + 1;
            }
            assert(xs@.subrange(0, xs@.len() as int) =~= xs@);
            push_char(out, ']');
            assert(out@ =~= old(out)@ + json_text(*v));
        },
        JsonValue::Object(ms) => {
            push_char(out, '{');
            let mut i: usize = 0;
            while i < ms.len()
                invariant
                    *v == JsonValue::Object(*ms),
                    i <= ms.len(),
                    out@ == old(out)@ + seq!['{'] + members_text(ms@.subrange(0, i as int)),
                decreases ms.len() - i,
            {
                proof {
                    vstd::std_specs::vec::axiom_vec_index_decreases(*ms, i as int);
                    assert(decreases_to!(*v => (*v)->Object_0));
                    assert(decreases_to!(*ms => ms[i as int]));
                    assert(decreases_to!(ms[i as int] => ms[i as int].value));
                    let t = ms@.subrange(0, i + 1);
                    assert(t.drop_last() =~= ms@.subrange(0, i as int));
                    assert(t.last() == ms@[i as int]);
                }
                if i > 0 {
                    push_char(out, ',');
                }
                write_quoted(out, ms[i].key.as_str());
                push_char(out, ':');
                write_json(out, &ms[i].value);
                i = i + 1;
            }
            assert(ms@.subrange(0, ms@.len() as int) =~= ms@);
            push_char(out, '}');
            assert(out@ =~= old(out)@ + json_text(*v));
        },
    }
}

/// The compact JSON text of `v` (serde_json's `Display`).
pub fn json_to_string(v: &JsonValue) -> (s: String)
    ensures
        s@ == json_text(*v),
{
    let mut s = String::new();
    write_json(&mut s, v);
    assert(s@ =~= json_text(*v));
    s
}


// ---------------------------------------------------------------------------
// Debug rendering
// ---------------------------------------------------------------------------

/// What `<str as Debug>::fmt` writes for a string: the string in double quotes
/// with Rust's debug escapes.
pub uninterp spec fn str_debug_text(s: Seq<char>) -> Seq<char>;

/// `<str as Debug>::fmt` (through `format!`): a function of the string alone,
/// named by [`str_debug_text`].
#[verifier::external_body]
fn debug_str(s: &str) -> (r: String)
    ensures
        r@ == str_debug_text(s@),
{
    format!("{:?}", s)
}

/// The `Debug` text of a JSON value, as serde_json writes it.
pub open spec fn debug_text(v: JsonValue) -> Seq<char>
    decreases v, 1int,
{
    match v {
        JsonValue::Null => "Null"@,
        JsonValue::Bool(b) => "Bool("@ + (if b {
            "true"@
        } else {
            "false"@
        }) + ")"@,
        JsonValue::Number(n) => "Number("@ + number_text(n) + ")"@,
        JsonValue::String(s) => "String("@ + str_debug_text(s@) + ")"@,
        JsonValue::Array(xs) => "Array ["@ + debug_elems(xs@) + "]"@,
        JsonValue::Object(ms) => "Object {"@ + debug_members(ms@) + "}"@,
    }
}

/// The `Debug` text of array elements, separated by `", "`.
pub open spec fn debug_elems(xs: Seq<JsonValue>) -> Seq<char>
    decreases xs, 0int,
{
    if xs.len() == 0 {
        Seq::empty()
    } else if xs.len() == 1 {
        debug_text(xs[0])
    } else {
        debug_elems(xs.drop_last()) + ", "@ + debug_text(xs.last())
    }
}

/// The `Debug` text of object members, separated by `", "`.
pub open spec fn debug_members(ms: Seq<JsonMember>) -> Seq<char>
    decreases ms, 0int,
{
    if ms.len() == 0 {
        Seq::empty()
    } else if ms.len() == 1 {
        str_debug_text(ms[0].key@) + ": "@ + debug_text(ms[0].value)
    } else {
        debug_members(ms.drop_last()) + ", "@ + str_debug_text(ms.last().key@) + ": "@
            + debug_text(ms.last().value)
    }
}

/// The `Debug` text of an optional JSON value (`None` or `Some(..)`).
pub open spec fn debug_opt_text(v: Option<JsonValue>) -> Seq<char> {
    match v {
        Some(x) => "Some("@ + debug_text(x) + ")"@,
        None => "None"@,
    }
}

/// Appends the `Debug` text of `v`.
pub fn write_debug(out: &mut String, v: &JsonValue)
    ensures
        final(out)@ == old(out)@ + debug_text(*v),
    decreases v,
{
    proof {
        reveal_strlit("Null");
        reveal_strlit("Bool(");
        reveal_strlit("true");
        reveal_strlit("false");
        reveal_strlit(")");
        reveal_strlit("Number(");
        reveal_strlit("String(");
        reveal_strlit("Array [");
        reveal_strlit("]");
        reveal_strlit("Object {");
        reveal_strlit("}");
        reveal_strlit(", ");
        reveal_strlit(": ");
    }
    match v {
        JsonValue::Null => push_str(out, "Null"),
        JsonValue::Bool(b) => {
            push_str(out, "Bool(");
            if *b {
                push_str(out, "true");
            } else {
                push_str(out, "false");
            }
            push_str(out, ")");
            assert(out@ =~= old(out)@ + debug_text(*v));
        },
        JsonValue::Number(n) => {
            push_str(out, "Number(");
            write_number(out, n);
            push_str(out, ")");
            assert(out@ =~= old(out)@ + debug_text(*v));
        },
        JsonValue::String(s) => {
            push_str(out, "String(");
            let d = debug_str(s.as_str());
            push_str(out, d.as_str());
            push_str(out, ")");
            assert(out@ =~= old(out)@ + debug_text(*v));
        },
        JsonValue::Array(xs) => {
            push_str(out, "Array [");
            let mut i: usize = 0;
            while i < xs.len()
                invariant
                    *v == JsonValue::Array(*xs),
                    i <= xs.len(),
                    out@ == old(out)@ + "Array ["@ + debug_elems(xs@.subrange(0, i as int)),
                    ", "@ == seq![',', ' '],
                decreases xs.len() - i,
            {
                proof {
                    vstd::std_specs::vec::axiom_vec_index_decreases(*xs, i as int);
                    assert(decreases_to!(*v => (*v)->Array_0));
                    assert(decreases_to!(*xs => xs[i as int]));
                    let t = xs@.subrange(0, i + 1);
                    assert(t.drop_last() =~= xs@.subrange(0, i as int));
                    assert(t.last() == xs@[i as int]);
                }
                if i > 0 {
                    push_char(out, ',');
                    push_char(out, ' ');
                }
                write_debug(out, &xs[i]);
                i = i + 1;
            }
            assert(xs@.subrange(0, xs@.len() as int) =~= xs@);
            push_str(out, "]");
            assert(out@ =~= old(out)@ + debug_text(*v));
        },
        JsonValue::Object(ms) => {
            push_str(out, "Object {");
            let mut i: usize = 0;
            while i < ms.len()
                invariant
                    *v == JsonValue::Object(*ms),
                    i <= ms.len(),
                    out@ == old(out)@ + "Object {"@ + debug_members(ms@.subrange(0, i as int)),
                    ", "@ == seq![',', ' '],
                    ": "@ == seq![':', ' '],
                decreases ms.len() - i,
            {
                proof {
                    vstd::std_specs::vec::axiom_vec_index_decreases(*ms, i as int);
                    assert(decreases_to!(*v => (*v)->Object_0));
                    assert(decreases_to!(*ms => ms[i as int]));
                    assert(decreases_to!(ms[i as int] => ms[i as int].value));
                    let t = ms@.subrange(0, i + 1);
                    assert(t.drop_last() =~= ms@.subrange(0, i as int));
                    assert(t.last() == ms@[i as int]);
                }
                if i > 0 {
                    push_char(out, ',');
                    push_char(out, ' ');
                }
                let k = debug_str(ms[i].key.as_str());
                push_str(out, k.as_str());
                push_char(out, ':');
                push_char(out, ' ');
                write_debug(out, &ms[i].value);
                i = i + 1;
            }
            assert(ms@.subrange(0, ms@.len() as int) =~= ms@);
            push_str(out, "}");
            assert(out@ =~= old(out)@ + debug_text(*v));
        },
    }
}

/// The `Debug` text of an optional JSON value (`format!("{:?}", v)`).
pub fn debug_opt_to_string(v: Option<&JsonValue>) -> (s: String)
    ensures
        s@ == debug_opt_text(opt_val(v)),
{
    proof {
        reveal_strlit("None");
        reveal_strlit("Some(");
        reveal_strlit(")");
    }
    let mut s = String::new();
    match v {
        Some(x) => {
            push_str(&mut s, "Some(");
            write_debug(&mut s, x);
            push_str(&mut s, ")");
        },
        None => push_str(&mut s, "None"),
    }
    assert(s@ =~= debug_opt_text(opt_val(v)));
    s
}

} // verus!
