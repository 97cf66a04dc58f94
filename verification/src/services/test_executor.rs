//! Evaluation of test-suite assertions against tool responses, and the
//! per-test decisions of the batch test runner.
use vstd::prelude::*;
use crate::models::json::{
    debug_opt_text, debug_opt_to_string, field_value, find_member, get_field_value, json_eq,
    json_same, json_text, json_to_string, json_type_name, json_type_of, lookup_member, opt_val,
    JsonFloat, JsonMember, JsonNumber, JsonValue,
};
use crate::models::test_definition::{Assertion, TestCase};
use crate::text::{
    chars_of, contains_seq, decimal, push_decimal, push_str, str_contains, str_eq,
};

verus! {

/// The result of evaluating one assertion.
pub struct AssertionResult {
    pub assertion_type: String,
    pub passed: bool,
    pub expected: String,
    pub actual: String,
    pub message: String,
}

/// The result of running one test case.
pub struct TestResult {
    pub test_name: String,
    pub passed: bool,
    pub duration_ms: u64,
    pub assertions: Vec<AssertionResult>,
    pub error: Option<String>,
}

/// What an assertion may look at besides the response.
pub struct TestMetadata {
    pub duration_ms: u64,
}

/// The mathematical content of an [`AssertionResult`].
pub struct AssertionOutcome {
    pub assertion_type: Seq<char>,
    pub passed: bool,
    pub expected: Seq<char>,
    pub actual: Seq<char>,
    pub message: Seq<char>,
}

impl AssertionResult {
    pub open spec fn outcome(&self) -> AssertionOutcome {
        AssertionOutcome {
            assertion_type: self.assertion_type@,
            passed: self.passed,
            expected: self.expected@,
            actual: self.actual@,
            message: self.message@,
        }
    }
}

// ---------------------------------------------------------------------------
// Specification of assertion evaluation
// ---------------------------------------------------------------------------

/// `actual <op> expected`; an unknown operator compares false.
pub open spec fn compare_spec(actual: int, op: Seq<char>, expected: int) -> bool {
    if op == ">"@ {
        actual > expected
    } else if op == "<"@ {
        actual < expected
    } else if op == ">="@ {
        actual >= expected
    } else if op == "<="@ {
        actual <= expected
    } else if op == "=="@ {
        actual == expected
    } else if op == "!="@ {
        actual != expected
    } else {
        false
    }
}

/// The comparison operators mean what they say on numbers: `>` holds exactly
/// when `actual` is greater than `expected`, `<` when it is less, `>=` when it
/// is at least `expected`, `<=` when it is at most `expected`, `==` when they
/// are equal and `!=` when they differ; any other operator never holds.
pub proof fn lemma_compare_operators(actual: int, expected: int, op: Seq<char>)
    ensures
        compare_spec(actual, ">"@, expected) <==> actual > expected,
        compare_spec(actual, "<"@, expected) <==> actual < expected,
        compare_spec(actual, ">="@, expected) <==> actual >= expected,
        compare_spec(actual, "<="@, expected) <==> actual <= expected,
        compare_spec(actual, "=="@, expected) <==> actual == expected,
        compare_spec(actual, "!="@, expected) <==> actual != expected,
        op != ">"@ && op != "<"@ && op != ">="@ && op != "<="@ && op != "=="@ && op != "!="@
            ==> !compare_spec(actual, op, expected),
{
    reveal_strlit(">");
    reveal_strlit("<");
    reveal_strlit(">=");
    reveal_strlit("<=");
    reveal_strlit("==");
    reveal_strlit("!=");
    assert(">"@.len() != ">="@.len());
    assert(">"@.len() != "<="@.len());
    assert("<"@.len() != ">="@.len());
    assert("<"@.len() != "<="@.len());
    assert(">"@.len() != "=="@.len());
    assert(">"@.len() != "!="@.len());
    assert("<"@.len() != "=="@.len());
    assert("<"@.len() != "!="@.len());
    assert(">"@[0] != "<"@[0]);
    assert(">="@[0] != "<="@[0]);
    assert(">="@[0] != "=="@[0]);
    assert(">="@[0] != "!="@[0]);
    assert("<="@[0] != "=="@[0]);
    assert("<="@[0] != "!="@[0]);
}

/// An array-length assertion passes exactly when the array at its field has
/// as many elements as its operator asks: at least `expected` for `>=`, at
/// most for `<=`, more for `>`, fewer for `<`, exactly for `==`; a field that
/// is missing or not an array counts as length 0. A response-time assertion
/// compares the call's duration the same way.
pub proof fn lemma_length_and_time_assertions(a: Assertion, response: JsonValue, duration_ms: u64)
    ensures
        a matches Assertion::ArrayLength { field, operator, expected } ==> {
            let n = match field_value(response, field@) {
                Some(JsonValue::Array(xs)) => xs@.len() as int,
                _ => 0int,
            };
            let passed = assertion_outcome(a, response, duration_ms).passed;
            &&& operator@ == ">="@ ==> (passed <==> n >= expected)
            &&& operator@ == "<="@ ==> (passed <==> n <= expected)
            &&& operator@ == ">"@ ==> (passed <==> n > expected)
            &&& operator@ == "<"@ ==> (passed <==> n < expected)
            &&& operator@ == "=="@ ==> (passed <==> n == expected)
        },
        a matches Assertion::ResponseTime { operator, expected } ==> {
            let passed = assertion_outcome(a, response, duration_ms).passed;
            &&& operator@ == ">="@ ==> (passed <==> duration_ms >= expected)
            &&& operator@ == "<="@ ==> (passed <==> duration_ms <= expected)
            &&& operator@ == ">"@ ==> (passed <==> duration_ms > expected)
            &&& operator@ == "<"@ ==> (passed <==> duration_ms < expected)
        },
{
    match a {
        Assertion::ArrayLength { field, operator, expected } => {
            let n = array_len_or_zero(field_value(response, field@));
            lemma_compare_operators(n as int, expected as int, operator@);
        },
        Assertion::ResponseTime { operator, expected } => {
            lemma_compare_operators(duration_ms as int, expected as int, operator@);
        },
        _ => {},
    }
}

/// What the other assertions check, over all responses:
/// * a field-exists assertion passes exactly when the field is present;
/// * a field-equals assertion passes exactly when the field is present and
///   equal to the expected value, and the matching field-not-equals assertion
///   passes exactly when the field-equals one fails;
/// * a contains assertion passes exactly when the field is an array with an
///   element equal to the expected value;
/// * a status assertion passes on a response whose `status` is a string
///   exactly when that string is the expected one;
/// * a key assertion passes exactly when the field is an object with a member
///   of that name;
/// * a type assertion on a present array, object, string, number or boolean
///   passes exactly when the expected type is its type's name.
pub proof fn lemma_assertion_meanings(field: String, expected: JsonValue, name: String, response: JsonValue, duration_ms: u64)
    ensures
        assertion_outcome(Assertion::FieldExists { field }, response, duration_ms).passed
            <==> field_value(response, field@) is Some,
        assertion_outcome(Assertion::FieldEquals { field, expected }, response, duration_ms).passed
            <==> (field_value(response, field@) matches Some(x) && json_same(x, expected)),
        assertion_outcome(Assertion::FieldNotEquals { field, expected }, response, duration_ms).passed
            <==> !assertion_outcome(Assertion::FieldEquals { field, expected }, response, duration_ms).passed,
        assertion_outcome(Assertion::Contains { field, expected }, response, duration_ms).passed
            <==> (field_value(response, field@) matches Some(JsonValue::Array(xs))
                && exists|i: int| 0 <= i < xs@.len() && json_same(#[trigger] xs@[i], expected)),
        top_member(response, "status"@) matches Some(JsonValue::String(st)) ==> (
            assertion_outcome(Assertion::Status { expected: name }, response, duration_ms).passed <==> st@ == name@),
        assertion_outcome(Assertion::JsonContainsKey { field, expected: name }, response, duration_ms).passed
            <==> (field_value(response, field@) matches Some(JsonValue::Object(ms))
                && exists|i: int| 0 <= i < ms@.len() && (#[trigger] ms@[i]).key@ == name@),
        field_value(response, field@) matches Some(JsonValue::Array(_)) ==> (
            assertion_outcome(Assertion::JsonValueType { field, expected: name }, response, duration_ms).passed <==> name@ == "array"@),
        field_value(response, field@) matches Some(JsonValue::Object(_)) ==> (
            assertion_outcome(Assertion::JsonValueType { field, expected: name }, response, duration_ms).passed <==> name@ == "object"@),
        field_value(response, field@) matches Some(JsonValue::String(_)) ==> (
            assertion_outcome(Assertion::JsonValueType { field, expected: name }, response, duration_ms).passed <==> name@ == "string"@),
        field_value(response, field@) matches Some(JsonValue::Number(_)) ==> (
            assertion_outcome(Assertion::JsonValueType { field, expected: name }, response, duration_ms).passed <==> name@ == "number"@),
        field_value(response, field@) matches Some(JsonValue::Bool(_)) ==> (
            assertion_outcome(Assertion::JsonValueType { field, expected: name }, response, duration_ms).passed <==> name@ == "boolean"@),
{
    if let Some(JsonValue::Object(ms)) = field_value(response, field@) {
        crate::models::json::lemma_find_member(ms@, name@);
    }
}

/// The member `key` of an object value (`Value::get` with a string key).
pub open spec fn top_member(v: JsonValue, key: Seq<char>) -> Option<JsonValue> {
    match v {
        JsonValue::Object(ms) => find_member(ms@, key),
        _ => None,
    }
}

/// The string content of `v` when it is a string, else the empty string
/// (`.and_then(|v| v.as_str()).unwrap_or("")`).
pub open spec fn str_or_empty(v: Option<JsonValue>) -> Seq<char> {
    match v {
        Some(JsonValue::String(s)) => s@,
        _ => Seq::empty(),
    }
}

/// The length of `v` when it is an array, else 0.
pub open spec fn array_len_or_zero(v: Option<JsonValue>) -> nat {
    match v {
        Some(JsonValue::Array(xs)) => xs@.len(),
        _ => 0,
    }
}

/// Some element of `s` equals `e`.
pub open spec fn seq_has(s: Seq<JsonValue>, e: JsonValue) -> bool {
    exists|i: int| 0 <= i < s.len() && json_same(#[trigger] s[i], e)
}

/// `v` is an array with an element equal to `e`.
pub open spec fn array_has(v: Option<JsonValue>, e: JsonValue) -> bool {
    match v {
        Some(x) => match x {
            JsonValue::Array(xs) => seq_has(xs@, e),
            _ => false,
        },
        None => false,
    }
}

/// `v` is an object with a member named `k`.
pub open spec fn object_has_key(v: Option<JsonValue>, k: Seq<char>) -> bool {
    match v {
        Some(JsonValue::Object(ms)) => find_member(ms@, k) is Some,
        _ => false,
    }
}

/// The JSON text of `v`, or `null` when there is no value.
pub open spec fn text_or_null(v: Option<JsonValue>) -> Seq<char> {
    match v {
        Some(x) => json_text(x),
        None => "null"@,
    }
}

/// The assertion is one of the two whose operands are floating-point numbers.
pub open spec fn is_float_assertion(a: Assertion) -> bool {
    a is ErrorRate || a is JsonValueRange
}

/// The outcome of evaluating an assertion whose operands are not floating-point
/// numbers.
pub open spec fn assertion_outcome(a: Assertion, response: JsonValue, duration_ms: u64) -> AssertionOutcome {
    match a {
        Assertion::Status { expected } => {
            let actual = str_or_empty(top_member(response, "status"@));
            let passed = actual == expected@;
            AssertionOutcome {
                assertion_type: "status"@,
                passed,
                expected: expected@,
                actual,
                message: if passed {
                    "Status is '"@ + expected@ + "'"@
                } else {
                    "Expected status '"@ + expected@ + "' but got '"@ + actual + "'"@
                },
            }
        },
        Assertion::FieldExists { field } => {
            let passed = field_value(response, field@) is Some;
            AssertionOutcome {
                assertion_type: "field_exists"@,
                passed,
                expected: "Field '"@ + field@ + "' exists"@,
                actual: if passed {
                    "exists"@
                } else {
                    "not found"@
                },
                message: if passed {
                    "Field '"@ + field@ + "' exists"@
                } else {
                    "Field '"@ + field@ + "' not found"@
                },
            }
        },
        Assertion::FieldEquals { field, expected } => {
            let actual = field_value(response, field@);
            let passed = actual matches Some(x) && json_same(x, expected);
            AssertionOutcome {
                assertion_type: "field_equals"@,
                passed,
                expected: json_text(expected),
                actual: text_or_null(actual),
                message: if passed {
                    "Field '"@ + field@ + "' equals expected value"@
                } else {
                    "Field '"@ + field@ + "' does not equal expected value"@
                },
            }
        },
        Assertion::FieldNotEquals { field, expected } => {
            let actual = field_value(response, field@);
            let passed = !(actual matches Some(x) && json_same(x, expected));
            AssertionOutcome {
                assertion_type: "field_not_equals"@,
                passed,
                expected: "not "@ + json_text(expected),
                actual: text_or_null(actual),
                message: if passed {
                    "Field '"@ + field@ + "' is not equal to expected value"@
                } else {
                    "Field '"@ + field@ + "' equals expected value (should not)"@
                },
            }
        },
        Assertion::ArrayLength { field, operator, expected } => {
            let len = array_len_or_zero(field_value(response, field@));
            let passed = compare_spec(len as int, operator@, expected as int);
            AssertionOutcome {
                assertion_type: "array_length"@,
                passed,
                expected: operator@ + " "@ + decimal(expected as nat),
                actual: decimal(len),
                message: "Array length "@ + decimal(len) + (if passed {
                    " is "@
                } else {
                    " is not "@
                }) + operator@ + " "@ + decimal(expected as nat),
            }
        },
        Assertion::Contains { field, expected } => {
            let array = field_value(response, field@);
            let passed = array_has(array, expected);
            AssertionOutcome {
                assertion_type: "contains"@,
                passed,
                expected: json_text(expected),
                actual: debug_opt_text(array),
                message: if passed {
                    "Array contains expected value"@
                } else {
                    "Array does not contain expected value"@
                },
            }
        },
        Assertion::ResponseTime { operator, expected } => {
            let passed = compare_spec(duration_ms as int, operator@, expected as int);
            AssertionOutcome {
                assertion_type: "response_time"@,
                passed,
                expected: operator@ + " "@ + decimal(expected as nat) + "ms"@,
                actual: decimal(duration_ms as nat) + "ms"@,
                message: "Response time "@ + decimal(duration_ms as nat) + "ms"@ + (if passed {
                    " is "@
                } else {
                    " is not "@
                }) + operator@ + " "@ + decimal(expected as nat) + "ms"@,
            }
        },
        Assertion::ErrorType { expected } => {
            let actual = str_or_empty(top_member(response, "error"@));
            let passed = contains_seq(actual, expected@);
            AssertionOutcome {
                assertion_type: "error_type"@,
                passed,
                expected: expected@,
                actual,
                message: if passed {
                    "Error type matches '"@ + expected@ + "'"@
                } else {
                    "Error type '"@ + actual + "' does not match '"@ + expected@ + "'"@
                },
            }
        },
        Assertion::ErrorMessageContains { expected } => {
            let actual = str_or_empty(top_member(response, "error"@));
            let passed = contains_seq(actual, expected@);
            AssertionOutcome {
                assertion_type: "error_message_contains"@,
                passed,
                expected: expected@,
                actual,
                message: if passed {
                    "Error message contains '"@ + expected@ + "'"@
                } else {
                    "Error message does not contain '"@ + expected@ + "'"@
                },
            }
        },
        Assertion::JsonContainsKey { field, expected } => {
            let object = field_value(response, field@);
            let passed = object_has_key(object, expected@);
            AssertionOutcome {
                assertion_type: "json_contains_key"@,
                passed,
                expected: expected@,
                actual: debug_opt_text(object),
                message: if passed {
                    "Object contains key '"@ + expected@ + "'"@
                } else {
                    "Object does not contain key '"@ + expected@ + "'"@
                },
            }
        },
        Assertion::JsonValueType { field, expected } => {
            let actual = json_type_of(field_value(response, field@));
            let passed = actual == expected@;
            AssertionOutcome {
                assertion_type: "json_value_type"@,
                passed,
                expected: expected@,
                actual,
                message: if passed {
                    "Value type is '"@ + expected@ + "'"@
                } else {
                    "Value type is '"@ + actual + "', expected '"@ + expected@ + "'"@
                },
            }
        },
        _ => AssertionOutcome {
            assertion_type: Seq::empty(),
            passed: false,
            expected: Seq::empty(),
            actual: Seq::empty(),
            message: Seq::empty(),
        },
    }
}

// ---------------------------------------------------------------------------
// Evaluation
// ---------------------------------------------------------------------------

/// Compares `actual` with `expected` by the operator `op` (`>`, `<`, `>=`, `<=`,
/// `==`, `!=`); any other operator gives `false`.
pub fn compare_values(actual: u64, op: &str, expected: u64) -> (r: bool)
    ensures
        r == compare_spec(actual as int, op@, expected as int),
{
    if str_eq(op, ">") {
        actual > expected
    } else if str_eq(op, "<") {
        actual < expected
    } else if str_eq(op, ">=") {
        actual >= expected
    } else if str_eq(op, "<=") {
        actual <= expected
    } else if str_eq(op, "==") {
        actual == expected
    } else if str_eq(op, "!=") {
        actual != expected
    } else {
        false
    }
}

/// The member `key` of `v` when `v` is an object.
fn get_top_member<'a>(v: &'a JsonValue, key: &str) -> (r: Option<&'a JsonValue>)
    ensures
        opt_val(r) == top_member(*v, key@),
{
    match v {
        JsonValue::Object(ms) => {
            let k = chars_of(key);
            lookup_member(ms, &k)
        },
        _ => None,
    }
}

/// The string content of `v`, or the empty string.
fn string_or_empty(v: Option<&JsonValue>) -> (s: String)
    ensures
        s@ == str_or_empty(opt_val(v)),
{
    match v {
        Some(JsonValue::String(s)) => crate::text::copy_string(s),
        _ => String::new(),
    }
}

/// The JSON text of `v`, or `null`.
fn text_or_null_exec(v: Option<&JsonValue>) -> (s: String)
    ensures
        s@ == text_or_null(opt_val(v)),
{
    match v {
        Some(x) => json_to_string(x),
        None => String::from_str("null"),
    }
}

fn str3(a: &str, b: &str, c: &str) -> (s: String)
    ensures
        s@ == a@ + b@ + c@,
{
    crate::text::concat3(a, b, c)
}

fn str5(a: &str, b: &str, c: &str, d: &str, e: &str) -> (s: String)
    ensures
        s@ == a@ + b@ + c@ + d@ + e@,
{
    let mut s = String::from_str(a);
    s.append(b);
    s.append(c);
    s.append(d);
    s.append(e);
    s
}

proof fn lemma_array_has_witness(xs: Vec<JsonValue>, e: JsonValue, k: int)
    requires
        0 <= k < xs@.len(),
        json_same(xs@[k], e),
    ensures
        array_has(Some(JsonValue::Array(xs)), e),
{
    assert(seq_has(xs@, e));
}

/// The array at `v` holds an element equal to `e`.
fn array_contains(v: Option<&JsonValue>, e: &JsonValue) -> (r: bool)
    ensures
        r == array_has(opt_val(v), *e),
{
    match v {
        Some(JsonValue::Array(xs)) => {
            let mut i: usize = 0;
            while i < xs.len()
                invariant
                    opt_val(v) == Some(JsonValue::Array(*xs)),
                    i <= xs.len(),
                    forall|j: int| 0 <= j < i ==> !json_same(xs@[j], *e),
                decreases xs.len() - i,
            {
                if json_eq(&xs[i], e) {
                    proof {
                        lemma_array_has_witness(*xs, *e, i as int);
                    }
                    return true;
                }
                i = i + 1;
            }
            false
        },
        _ => false,
    }
}

/// Evaluates an assertion whose operands are not floating-point numbers.
pub fn evaluate_assertion(a: &Assertion, response: &JsonValue, metadata: &TestMetadata) -> (r:
    AssertionResult)
    requires
        !is_float_assertion(*a),
    ensures
        r.outcome() == assertion_outcome(*a, *response, metadata.duration_ms),
{
    proof {
        reveal_strlit("");
    }
    match a {
        Assertion::Status { expected } => {
            let actual = string_or_empty(get_top_member(response, "status"));
            let passed = str_eq(actual.as_str(), expected.as_str());
            let message = if passed {
                str3("Status is '", expected.as_str(), "'")
            } else {
                str5("Expected status '", expected.as_str(), "' but got '", actual.as_str(), "'")
            };
            AssertionResult {
                assertion_type: String::from_str("status"),
                passed,
                expected: crate::text::copy_string(expected),
                actual,
                message,
            }
        },
        Assertion::FieldExists { field } => {
            let passed = get_field_value(response, field.as_str()).is_some();
            AssertionResult {
                assertion_type: String::from_str("field_exists"),
                passed,
                expected: str3("Field '", field.as_str(), "' exists"),
                actual: if passed {
                    String::from_str("exists")
                } else {
                    String::from_str("not found")
                },
                message: if passed {
                    str3("Field '", field.as_str(), "' exists")
                } else {
                    str3("Field '", field.as_str(), "' not found")
                },
            }
        },
        Assertion::FieldEquals { field, expected } => {
            let actual = get_field_value(response, field.as_str());
            let passed = match actual {
                Some(x) => json_eq(x, expected),
                None => false,
            };
            AssertionResult {
                assertion_type: String::from_str("field_equals"),
                passed,
                expected: json_to_string(expected),
                actual: text_or_null_exec(actual),
                message: if passed {
                    str3("Field '", field.as_str(), "' equals expected value")
                } else {
                    str3("Field '", field.as_str(), "' does not equal expected value")
                },
            }
        },
        Assertion::FieldNotEquals { field, expected } => {
            let actual = get_field_value(response, field.as_str());
            let same = match actual {
                Some(x) => json_eq(x, expected),
                None => false,
            };
            let passed = !same;
            let text = json_to_string(expected);
            AssertionResult {
                assertion_type: String::from_str("field_not_equals"),
                passed,
                expected: crate::text::concat2("not ", text.as_str()),
                actual: text_or_null_exec(actual),
                message: if passed {
                    str3("Field '", field.as_str(), "' is not equal to expected value")
                } else {
                    str3("Field '", field.as_str(), "' equals expected value (should not)")
                },
            }
        },
        Assertion::ArrayLength { field, operator, expected } => {
            let array = get_field_value(response, field.as_str());
            let len: usize = match array {
                Some(JsonValue::Array(xs)) => xs.len(),
                _ => 0,
            };
            let passed = compare_values(len as u64, operator.as_str(), *expected as u64);
            let mut exp = crate::text::copy_string(operator);
            push_str(&mut exp, " ");
            push_decimal(&mut exp, *expected as u64);
            let mut act = String::new();
            push_decimal(&mut act, len as u64);
            let mut message = String::from_str("Array length ");
            push_decimal(&mut message, len as u64);
            if passed {
                push_str(&mut message, " is ");
            } else {
                push_str(&mut message, " is not ");
            }
            push_str(&mut message, operator.as_str());
            push_str(&mut message, " ");
            push_decimal(&mut message, *expected as u64);
            let r = AssertionResult {
                assertion_type: String::from_str("array_length"),
                passed,
                expected: exp,
                actual: act,
                message,
            };
            assert(r.outcome().message =~= assertion_outcome(
                *a,
                *response,
                metadata.duration_ms,
            ).message);
            assert(r.outcome().actual =~= assertion_outcome(
                *a,
                *response,
                metadata.duration_ms,
            ).actual);
            r
        },
        Assertion::Contains { field, expected } => {
            let array = get_field_value(response, field.as_str());
            let passed = array_contains(array, expected);
            AssertionResult {
                assertion_type: String::from_str("contains"),
                passed,
                expected: json_to_string(expected),
                actual: debug_opt_to_string(array),
                message: if passed {
                    String::from_str("Array contains expected value")
                } else {
                    String::from_str("Array does not contain expected value")
                },
            }
        },
        Assertion::ResponseTime { operator, expected } => {
            let actual = metadata.duration_ms;
            let passed = compare_values(actual, operator.as_str(), *expected);
            let mut exp = crate::text::copy_string(operator);
            push_str(&mut exp, " ");
            push_decimal(&mut exp, *expected);
            push_str(&mut exp, "ms");
            let mut act = String::new();
            push_decimal(&mut act, actual);
            push_str(&mut act, "ms");
            let mut message = String::from_str("Response time ");
            push_decimal(&mut message, actual);
            push_str(&mut message, "ms");
            if passed {
                push_str(&mut message, " is ");
            } else {
                push_str(&mut message, " is not ");
            }
            push_str(&mut message, operator.as_str());
            push_str(&mut message, " ");
            push_decimal(&mut message, *expected);
            push_str(&mut message, "ms");
            let r = AssertionResult {
                assertion_type: String::from_str("response_time"),
                passed,
                expected: exp,
                actual: act,
                message,
            };
            assert(r.outcome().message =~= assertion_outcome(
                *a,
                *response,
                metadata.duration_ms,
            ).message);
            assert(r.outcome().actual =~= assertion_outcome(
                *a,
                *response,
                metadata.duration_ms,
            ).actual);
            r
        },
        Assertion::ErrorType { expected } => {
            let actual = string_or_empty(get_top_member(response, "error"));
            let passed = str_contains(actual.as_str(), expected.as_str());
            let message = if passed {
                str3("Error type matches '", expected.as_str(), "'")
            } else {
                str5("Error type '", actual.as_str(), "' does not match '", expected.as_str(), "'")
            };
            AssertionResult {
                assertion_type: String::from_str("error_type"),
                passed,
                expected: crate::text::copy_string(expected),
                actual,
                message,
            }
        },
        Assertion::ErrorMessageContains { expected } => {
            let actual = string_or_empty(get_top_member(response, "error"));
            let passed = str_contains(actual.as_str(), expected.as_str());
            AssertionResult {
                assertion_type: String::from_str("error_message_contains"),
                passed,
                expected: crate::text::copy_string(expected),
                actual,
                message: if passed {
                    str3("Error message contains '", expected.as_str(), "'")
                } else {
                    str3("Error message does not contain '", expected.as_str(), "'")
                },
            }
        },
        Assertion::JsonContainsKey { field, expected } => {
            let object = get_field_value(response, field.as_str());
            let passed = match object {
                Some(JsonValue::Object(ms)) => {
                    let k = chars_of(expected.as_str());
                    lookup_member(ms, &k).is_some()
                },
                _ => false,
            };
            AssertionResult {
                assertion_type: String::from_str("json_contains_key"),
                passed,
                expected: crate::text::copy_string(expected),
                actual: debug_opt_to_string(object),
                message: if passed {
                    str3("Object contains key '", expected.as_str(), "'")
                } else {
                    str3("Object does not contain key '", expected.as_str(), "'")
                },
            }
        },
        Assertion::JsonValueType { field, expected } => {
            let value = get_field_value(response, field.as_str());
            let actual = json_type_name(value);
            let passed = str_eq(actual.as_str(), expected.as_str());
            let message = if passed {
                str3("Value type is '", expected.as_str(), "'")
            } else {
                str5("Value type is '", actual.as_str(), "', expected '", expected.as_str(), "'")
            };
            AssertionResult {
                assertion_type: String::from_str("json_value_type"),
                passed,
                expected: crate::text::copy_string(expected),
                actual,
                message,
            }
        },
        _ => {
            assert(false);
            AssertionResult {
                assertion_type: String::new(),
                passed: false,
                expected: String::new(),
                actual: String::new(),
                message: String::new(),
            }
        },
    }
}


// ---------------------------------------------------------------------------
// Running a test case
// ---------------------------------------------------------------------------

/// How the execution of a test's tool call ended.
pub enum ExecutionOutcome {
    /// The tool answered.
    Response(JsonValue),
    /// The tool failed with this message.
    Failed(String),
    /// The tool did not answer within the timeout.
    TimedOut,
}

/// The outcomes of a list of assertions on `response`: the floating-point ones
/// are taken, in order, from `floats`; the others are evaluated.
pub open spec fn merged_outcomes(a: Seq<Assertion>, response: JsonValue, duration_ms: u64, floats: Seq<AssertionOutcome>) -> Seq<AssertionOutcome>
    decreases a.len(),
{
    if a.len() == 0 {
        Seq::empty()
    } else if is_float_assertion(a[0]) {
        seq![floats[0]] + merged_outcomes(a.drop_first(), response, duration_ms, floats.drop_first())
    } else {
        seq![assertion_outcome(a[0], response, duration_ms)] + merged_outcomes(a.drop_first(), response, duration_ms, floats)
    }
}

/// How many assertions of `a` compare floating-point numbers.
pub open spec fn float_count(a: Seq<Assertion>) -> nat
    decreases a.len(),
{
    if a.len() == 0 {
        0
    } else {
        (if is_float_assertion(a[0]) { 1nat } else { 0nat }) + float_count(a.drop_first())
    }
}

/// The outcomes of a list of assertion results.
pub open spec fn outcomes(v: Seq<AssertionResult>) -> Seq<AssertionOutcome> {
    Seq::new(v.len(), |i: int| v[i].outcome())
}

/// Whether every outcome passed.
pub open spec fn all_passed(s: Seq<AssertionOutcome>) -> bool {
    forall|i: int| 0 <= i < s.len() ==> (#[trigger] s[i]).passed
}

/// The JSON object `{"error": message}`.
pub open spec fn is_error_value(v: JsonValue, message: Seq<char>) -> bool {
    &&& v is Object
    &&& v->Object_0@.len() == 1
    &&& v->Object_0@[0].key@ == "error"@
    &&& v->Object_0@[0].value matches JsonValue::String(m) && m@ == message
}

/// The value that assertions see when a tool failed as expected:
/// `{"error": message}`.
pub fn error_value(message: &str) -> (r: JsonValue)
    ensures
        is_error_value(r, message@),
{
    let mut ms: Vec<JsonMember> = Vec::new();
    ms.push(JsonMember { key: String::from_str("error"), value: JsonValue::String(String::from_str(message)) });
    JsonValue::Object(ms)
}

/// Evaluates `assertions` on `response`, taking the results of the
/// floating-point assertions from `floats`, in order.
pub fn evaluate_assertions(
    assertions: &Vec<Assertion>,
    response: &JsonValue,
    metadata: &TestMetadata,
    floats: Vec<AssertionResult>,
) -> (r: Vec<AssertionResult>)
    requires
        floats@.len() == float_count(assertions@),
    ensures
        outcomes(r@) == merged_outcomes(assertions@, *response, metadata.duration_ms, outcomes(floats@)),
{
    let ghost a = assertions@;
    let ghost fl = outcomes(floats@);
    let mut rest = floats;
    let mut out: Vec<AssertionResult> = Vec::new();
    let mut i: usize = 0;
    let ghost mut f: int = 0;
    assert(a.skip(0) =~= a);
    assert(fl.skip(0) =~= fl);
    assert(outcomes(out@) =~= Seq::<AssertionOutcome>::empty());
    assert(Seq::<AssertionOutcome>::empty() + merged_outcomes(a, *response, metadata.duration_ms, fl)
        =~= merged_outcomes(a, *response, metadata.duration_ms, fl));
    while i < assertions.len()
        invariant
            a == assertions@,
            fl.len() == float_count(a),
            i <= a.len(),
            0 <= f <= fl.len(),
            outcomes(rest@) == fl.skip(f),
            fl.len() - f == float_count(a.skip(i as int)),
            outcomes(out@) + merged_outcomes(a.skip(i as int), *response, metadata.duration_ms, fl.skip(f))
                == merged_outcomes(a, *response, metadata.duration_ms, fl),
        decreases a.len() - i,
    {
        let ghost tail = a.skip(i as int);
        assert(tail.drop_first() =~= a.skip(i + 1));
        assert(tail[0] == a[i as int]);
        let ghost before = outcomes(out@);
        if is_float(&assertions[i]) {
            assert(float_count(tail) == 1 + float_count(tail.drop_first()));
            assert(rest@.len() > 0);
            let x = rest.remove(0);
            proof {
                assert(outcomes(rest@) =~= fl.skip(f).drop_first());
                assert(fl.skip(f).drop_first() =~= fl.skip(f + 1));
                assert(x.outcome() == fl.skip(f)[0]);
            }
            out.push(x);
            proof {
                assert(outcomes(out@) =~= before.push(fl.skip(f)[0]));
                assert(before + merged_outcomes(tail, *response, metadata.duration_ms, fl.skip(f))
                    =~= before.push(fl.skip(f)[0]) + merged_outcomes(a.skip(i + 1), *response, metadata.duration_ms, fl.skip(f + 1)));
                f = f + 1;
            }
        } else {
            let x = evaluate_assertion(&assertions[i], response, metadata);
            out.push(x);
            proof {
                assert(outcomes(out@) =~= before.push(assertion_outcome(a[i as int], *response, metadata.duration_ms)));
                assert(before + merged_outcomes(tail, *response, metadata.duration_ms, fl.skip(f))
                    =~= before.push(assertion_outcome(a[i as int], *response, metadata.duration_ms))
                        + merged_outcomes(a.skip(i + 1), *response, metadata.duration_ms, fl.skip(f)));
            }
        }
        i = i + 1;
    }
    assert(outcomes(out@) + Seq::<AssertionOutcome>::empty() =~= outcomes(out@));
    out
}

fn is_float(a: &Assertion) -> (r: bool)
    ensures
        r == is_float_assertion(*a),
{
    match a {
        Assertion::ErrorRate { .. } => true,
        Assertion::JsonValueRange { .. } => true,
        _ => false,
    }
}

fn all_pass(v: &Vec<AssertionResult>) -> (r: bool)
    ensures
        r == all_passed(outcomes(v@)),
{
    let mut i: usize = 0;
    while i < v.len()
        invariant
            i <= v@.len(),
            forall|k: int| 0 <= k < i ==> v@[k].passed,
        decreases v@.len() - i,
    {
        if !v[i].passed {
            assert(outcomes(v@)[i as int].passed == false);
            return false;
        }
        i = i + 1;
    }
    assert forall|k: int| 0 <= k < outcomes(v@).len() implies (#[trigger] outcomes(v@)[k]).passed by {
        assert(outcomes(v@)[k] == v@[k].outcome());
    }
    true
}

/// The result of a test case whose tool call ended with `outcome` after
/// `duration_ms`. An answer is judged by the assertions; a failure passes only
/// when an error was expected and the assertions on `{"error": message}` hold;
/// a timeout fails. `floats` are the results of the floating-point assertions,
/// evaluated on the answer (or on the error value) by the caller.
pub fn test_result(test: &TestCase, timeout_ms: u64, outcome: ExecutionOutcome, duration_ms: u64, floats: Vec<AssertionResult>) -> (r: TestResult)
    requires
        (outcome is Response || (outcome is Failed && test.expect_error)) ==> floats@.len() == float_count(test.assertions@),
    ensures
        r.test_name@ == test.name@,
        r.duration_ms == duration_ms,
        match outcome {
            ExecutionOutcome::Response(v) => {
                &&& outcomes(r.assertions@) == merged_outcomes(test.assertions@, v, duration_ms, outcomes(floats@))
                &&& r.passed == all_passed(outcomes(r.assertions@))
                &&& r.error is None
            },
            ExecutionOutcome::Failed(e) => if test.expect_error {
                &&& exists|v: JsonValue| is_error_value(v, e@)
                    && outcomes(r.assertions@) == #[trigger] merged_outcomes(test.assertions@, v, duration_ms, outcomes(floats@))
                &&& r.passed == all_passed(outcomes(r.assertions@))
                &&& r.error matches Some(m) && m@ == e@
            } else {
                &&& !r.passed
                &&& r.assertions@.len() == 0
                &&& r.error matches Some(m) && m@ == e@
            },
            ExecutionOutcome::TimedOut => {
                &&& !r.passed
                &&& r.assertions@.len() == 0
                &&& r.error matches Some(m) && m@ == "Test timed out after "@ + decimal(timeout_ms as nat) + "ms"@
            },
        },
{
    let metadata = TestMetadata { duration_ms };
    match outcome {
        ExecutionOutcome::Response(v) => {
            let assertions = evaluate_assertions(&test.assertions, &v, &metadata, floats);
            let passed = all_pass(&assertions);
            TestResult { test_name: test.name.clone(), passed, duration_ms, assertions, error: None }
        },
        ExecutionOutcome::Failed(e) => {
            if test.expect_error {
                let v = error_value(e.as_str());
                let assertions = evaluate_assertions(&test.assertions, &v, &metadata, floats);
                let passed = all_pass(&assertions);
                TestResult { test_name: test.name.clone(), passed, duration_ms, assertions, error: Some(e) }
            } else {
                TestResult { test_name: test.name.clone(), passed: false, duration_ms, assertions: Vec::new(), error: Some(e) }
            }
        },
        ExecutionOutcome::TimedOut => {
            let mut m = String::from_str("Test timed out after ");
            push_decimal(&mut m, timeout_ms);
            push_str(&mut m, "ms");
            TestResult { test_name: test.name.clone(), passed: false, duration_ms, assertions: Vec::new(), error: Some(m) }
        },
    }
}

/// Whether a test is run again after attempt number `attempt` (counted from
/// 0): when it failed and fewer than `retry_count` retries were made.
pub fn retry_after(result: &TestResult, attempt: u32, retry_count: u32) -> (r: bool)
    ensures
        r == (!result.passed && attempt < retry_count),
{
    !result.passed && attempt < retry_count
}

/// Whether a sequential run stops after this result: with fail-fast, at the
/// first failure.
pub fn stop_after(result: &TestResult, fail_fast: bool) -> (r: bool)
    ensures
        r == (fail_fast && !result.passed),
{
    fail_fast && !result.passed
}

// ---------------------------------------------------------------------------
// The mock tool executor
// ---------------------------------------------------------------------------

/// The tools the mock executor knows.
pub open spec fn mock_tool_known(tool: Seq<char>) -> bool {
    tool == "health_check"@ || tool == "tools_list"@ || tool == "tools_call"@ || tool == "resources_list"@
        || tool == "resource_read"@ || tool == "prompts_list"@ || tool == "prompt_get"@
}

/// Whether a `tools_call` asks for the tool `error_tool`.
pub open spec fn asks_error_tool(arguments: JsonValue) -> bool {
    top_member(arguments, "name"@) matches Some(JsonValue::String(n)) && n@ == "error_tool"@
}

/// An executor that answers every known tool with a fixed sample response.
pub struct MockToolExecutor;

/// `v` is the JSON string `s`.
pub open spec fn is_text(v: JsonValue, s: Seq<char>) -> bool {
    v matches JsonValue::String(t) && t@ == s
}

/// `v` is an object whose members have exactly the keys `keys`, in order.
pub open spec fn is_object_of(v: JsonValue, keys: Seq<Seq<char>>) -> bool {
    v matches JsonValue::Object(ms) && ms@.len() == keys.len()
        && forall|i: int| 0 <= i < keys.len() ==> (#[trigger] ms@[i]).key@ == keys[i]
}

/// The value of the `i`-th member of the object `v`.
pub open spec fn field(v: JsonValue, i: int) -> JsonValue {
    match v {
        JsonValue::Object(ms) => ms@[i].value,
        _ => JsonValue::Null,
    }
}

/// The elements of the array `v`.
pub open spec fn items(v: JsonValue) -> Seq<JsonValue> {
    match v {
        JsonValue::Array(xs) => xs@,
        _ => Seq::empty(),
    }
}

/// `v` is `{k1: s1, k2: s2}` with string values.
pub open spec fn is_text_pair(v: JsonValue, k1: Seq<char>, s1: Seq<char>, k2: Seq<char>, s2: Seq<char>) -> bool {
    is_object_of(v, seq![k1, k2]) && is_text(field(v, 0), s1) && is_text(field(v, 1), s2)
}

/// `v` is `{key: [a, b]}` where `a` and `b` are the string pairs given.
pub open spec fn is_listing(
    v: JsonValue,
    key: Seq<char>,
    k1: Seq<char>,
    k2: Seq<char>,
    a1: Seq<char>,
    a2: Seq<char>,
    b1: Seq<char>,
    b2: Seq<char>,
) -> bool {
    &&& is_object_of(v, seq![key])
    &&& field(v, 0) is Array
    &&& items(field(v, 0)).len() == 2
    &&& is_text_pair(items(field(v, 0))[0], k1, a1, k2, a2)
    &&& is_text_pair(items(field(v, 0))[1], k1, b1, k2, b2)
}

/// The sample response of the mock executor for `tool`, called on `server`.
pub open spec fn mock_sample(tool: Seq<char>, server: Seq<char>, v: JsonValue) -> bool {
    if tool == "health_check"@ {
        &&& is_object_of(v, seq!["error_rate"@, "server"@, "status"@, "uptime_seconds"@])
        &&& field(v, 0) matches JsonValue::Number(JsonNumber::Float(f)) && f.bits == 0x3F84_7AE1_47AE_147B && f.text@ == "0.01"@
        &&& is_text(field(v, 1), server)
        &&& is_text(field(v, 2), "healthy"@)
        &&& field(v, 3) == JsonValue::Number(JsonNumber::PosInt(3600))
    } else if tool == "tools_list"@ {
        is_listing(v, "tools"@, "description"@, "name"@, "Tool 1"@, "tool1"@, "Tool 2"@, "tool2"@)
    } else if tool == "tools_call"@ {
        &&& is_object_of(v, seq!["output"@, "result"@])
        &&& is_text(field(v, 0), "Tool executed successfully"@)
        &&& is_object_of(field(v, 1), seq!["content"@])
        &&& field(field(v, 1), 0) is Array
        &&& items(field(field(v, 1), 0)).len() == 1
        &&& is_object_of(items(field(field(v, 1), 0))[0], seq!["text"@])
        &&& is_text(field(items(field(field(v, 1), 0))[0], 0), "{\"value\":42}"@)
    } else if tool == "resources_list"@ {
        is_listing(v, "resources"@, "name"@, "uri"@, "Resource 1"@, "resource://1"@, "Resource 2"@, "resource://2"@)
    } else if tool == "resource_read"@ {
        &&& is_object_of(v, seq!["contents"@])
        &&& field(v, 0) is Array
        &&& items(field(v, 0)).len() == 1
        &&& is_text_pair(items(field(v, 0))[0], "text"@, "Resource content"@, "uri"@, "resource://1"@)
    } else if tool == "prompts_list"@ {
        is_listing(v, "prompts"@, "description"@, "name"@, "Prompt 1"@, "prompt1"@, "Prompt 2"@, "prompt2"@)
    } else {
        &&& is_object_of(v, seq!["messages"@])
        &&& field(v, 0) is Array
        &&& items(field(v, 0)).len() == 1
        &&& is_object_of(items(field(v, 0))[0], seq!["content"@, "role"@])
        &&& is_text_pair(field(items(field(v, 0))[0], 0), "text"@, "Prompt content"@, "type"@, "text"@)
        &&& is_text(field(items(field(v, 0))[0], 1), "user"@)
    }
}

fn text_value(s: &str) -> (r: JsonValue)
    ensures
        is_text(r, s@),
{
    JsonValue::String(String::from_str(s))
}

fn member(k: &str, v: JsonValue) -> (r: JsonMember)
    ensures
        r.key@ == k@,
        r.value == v,
{
    JsonMember { key: String::from_str(k), value: v }
}

fn object2(k1: &str, v1: JsonValue, k2: &str, v2: JsonValue) -> (r: JsonValue)
    ensures
        is_object_of(r, seq![k1@, k2@]),
        field(r, 0) == v1,
        field(r, 1) == v2,
{
    let mut ms: Vec<JsonMember> = Vec::new();
    ms.push(member(k1, v1));
    ms.push(member(k2, v2));
    JsonValue::Object(ms)
}

fn object1(k: &str, v: JsonValue) -> (r: JsonValue)
    ensures
        is_object_of(r, seq![k@]),
        field(r, 0) == v,
{
    let mut ms: Vec<JsonMember> = Vec::new();
    ms.push(member(k, v));
    JsonValue::Object(ms)
}

fn text_pair(k1: &str, s1: &str, k2: &str, s2: &str) -> (r: JsonValue)
    ensures
        is_text_pair(r, k1@, s1@, k2@, s2@),
{
    object2(k1, text_value(s1), k2, text_value(s2))
}

fn array2(a: JsonValue, b: JsonValue) -> (r: JsonValue)
    ensures
        r is Array,
        items(r) == seq![a, b],
{
    let mut v: Vec<JsonValue> = Vec::new();
    v.push(a);
    v.push(b);
    assert(v@ =~= seq![a, b]);
    JsonValue::Array(v)
}

fn array1(a: JsonValue) -> (r: JsonValue)
    ensures
        r is Array,
        items(r) == seq![a],
{
    let mut v: Vec<JsonValue> = Vec::new();
    v.push(a);
    assert(v@ =~= seq![a]);
    JsonValue::Array(v)
}

impl MockToolExecutor {
    /// The sample response for a test's tool call, or its error: an unknown
    /// tool, or a `tools_call` of `error_tool`.
    pub fn response(&self, test: &TestCase) -> (r: Result<JsonValue, String>)
        ensures
            !mock_tool_known(test.tool@) ==> (r matches Err(m) && m@ == "Unknown tool: "@ + test.tool@),
            test.tool@ == "tools_call"@ && asks_error_tool(test.arguments) ==> (r matches Err(m) && m@ == "Tool execution failed"@),
            mock_tool_known(test.tool@) && !(test.tool@ == "tools_call"@ && asks_error_tool(test.arguments))
                ==> (r matches Ok(v) && mock_sample(test.tool@, test.server@, v)),
    {
        let tool = test.tool.as_str();
        proof {
            reveal_strlit("health_check");
            reveal_strlit("tools_list");
            reveal_strlit("tools_call");
            reveal_strlit("resources_list");
            reveal_strlit("resource_read");
            reveal_strlit("prompts_list");
            reveal_strlit("prompt_get");
            assert("tools_call"@[6] != "tools_list"@[6]);
            assert("health_check"@[0] != "prompts_list"@[0]);
            assert("tools_call"@[0] != "prompt_get"@[0]);
            assert("tools_list"@[0] != "prompt_get"@[0]);
        }
        if str_eq(tool, "health_check") {
            let mut ms: Vec<JsonMember> = Vec::new();
            ms.push(member("error_rate", JsonValue::Number(JsonNumber::Float(JsonFloat {
                bits: 0x3F84_7AE1_47AE_147B,
                text: String::from_str("0.01"),
            }))));
            ms.push(member("server", JsonValue::String(test.server.clone())));
            ms.push(member("status", text_value("healthy")));
            ms.push(member("uptime_seconds", JsonValue::Number(JsonNumber::PosInt(3600))));
            Ok(JsonValue::Object(ms))
        } else if str_eq(tool, "tools_list") {
            let t1 = text_pair("description", "Tool 1", "name", "tool1");
            let t2 = text_pair("description", "Tool 2", "name", "tool2");
            Ok(object1("tools", array2(t1, t2)))
        } else if str_eq(tool, "tools_call") {
            let name = get_top_member(&test.arguments, "name");
            let is_error = match name {
                Some(JsonValue::String(n)) => str_eq(n.as_str(), "error_tool"),
                _ => false,
            };
            if is_error {
                Err(String::from_str("Tool execution failed"))
            } else {
                let inner = object1("text", text_value("{\"value\":42}"));
                let result = object1("content", array1(inner));
                Ok(object2("output", text_value("Tool executed successfully"), "result", result))
            }
        } else if str_eq(tool, "resources_list") {
            let r1 = text_pair("name", "Resource 1", "uri", "resource://1");
            let r2 = text_pair("name", "Resource 2", "uri", "resource://2");
            Ok(object1("resources", array2(r1, r2)))
        } else if str_eq(tool, "resource_read") {
            let c = text_pair("text", "Resource content", "uri", "resource://1");
            Ok(object1("contents", array1(c)))
        } else if str_eq(tool, "prompts_list") {
            let p1 = text_pair("description", "Prompt 1", "name", "prompt1");
            let p2 = text_pair("description", "Prompt 2", "name", "prompt2");
            Ok(object1("prompts", array2(p1, p2)))
        } else if str_eq(tool, "prompt_get") {
            let content = text_pair("text", "Prompt content", "type", "text");
            let m = object2("content", content, "role", text_value("user"));
            Ok(object1("messages", array1(m)))
        } else {
            let mut e = String::from_str("Unknown tool: ");
            push_str(&mut e, tool);
            Err(e)
        }
    }
}

} // verus!
