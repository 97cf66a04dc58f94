//! Test suite definitions for batch testing of MCP servers, and their validation.
use vstd::prelude::*;
use crate::models::json::{F64Value, JsonValue};
use crate::text::{concat3, str_eq};

verus! {

/// Execution settings of a test suite.
pub struct TestConfig {
    pub timeout_ms: u64,
    pub retry_count: u32,
    pub fail_fast: bool,
    pub parallel: bool,
}

/// One assertion on a tool response.
pub enum Assertion {
    Status { expected: String },
    FieldExists { field: String },
    FieldEquals { field: String, expected: JsonValue },
    FieldNotEquals { field: String, expected: JsonValue },
    ArrayLength { field: String, operator: String, expected: usize },
    Contains { field: String, expected: JsonValue },
    ResponseTime { operator: String, expected: u64 },
    ErrorRate { operator: String, expected: F64Value },
    ErrorType { expected: String },
    ErrorMessageContains { expected: String },
    JsonContainsKey { field: String, expected: String },
    JsonValueType { field: String, expected: String },
    JsonValueRange { field: String, min: F64Value, max: F64Value },
}

/// One test case: a tool call and the assertions on its response.
pub struct TestCase {
    pub name: String,
    pub description: Option<String>,
    pub tool: String,
    pub server: String,
    pub arguments: JsonValue,
    pub expect_error: bool,
    pub assertions: Vec<Assertion>,
}

/// A whole test suite.
pub struct TestSuite {
    pub name: String,
    pub version: String,
    pub description: Option<String>,
    pub config: TestConfig,
    pub tests: Vec<TestCase>,
}

/// The default per-test timeout (30 s).
pub fn default_timeout() -> (r: u64)
    ensures
        r == 30000,
{
    30000
}

/// The default retry count (one retry).
pub fn default_retry_count() -> (r: u32)
    ensures
        r == 1,
{
    1
}

// ---------------------------------------------------------------------------
// Floating-point operands
// ---------------------------------------------------------------------------

/// The exponent field of an `f64` bit pattern.
pub open spec fn f64_exponent(bits: u64) -> nat {
    ((bits as nat / 0x10_0000_0000_0000) % 2048) as nat
}

/// The fraction field of an `f64` bit pattern.
pub open spec fn f64_fraction(bits: u64) -> nat {
    (bits as nat % 0x10_0000_0000_0000) as nat
}

/// The bit pattern is a NaN.
pub open spec fn f64_is_nan(bits: u64) -> bool {
    f64_exponent(bits) == 2047 && f64_fraction(bits) != 0
}

/// An integer that orders non-NaN `f64` values as `<` does: sign and magnitude,
/// with both zeros at 0.
pub open spec fn f64_order_key(bits: u64) -> int {
    let magnitude = (bits as nat % 0x8000_0000_0000_0000) as int;
    if bits as nat >= 0x8000_0000_0000_0000 {
        -magnitude
    } else {
        magnitude
    }
}

/// `a >= b` on the `f64` values with these bit patterns (false when either is NaN).
pub open spec fn f64_ge(a: u64, b: u64) -> bool {
    !f64_is_nan(a) && !f64_is_nan(b) && f64_order_key(a) >= f64_order_key(b)
}

fn f64_is_nan_exec(bits: u64) -> (r: bool)
    ensures
        r == f64_is_nan(bits),
{
    let exponent = (bits / 0x10_0000_0000_0000) % 2048;
    let fraction = bits % 0x10_0000_0000_0000;
    exponent == 2047 && fraction != 0
}

fn f64_order_key_exec(bits: u64) -> (r: i128)
    ensures
        r == f64_order_key(bits),
{
    let magnitude = (bits % 0x8000_0000_0000_0000) as i128;
    if bits >= 0x8000_0000_0000_0000 {
        -magnitude
    } else {
        magnitude
    }
}

/// `a >= b` for two floating-point operands.
pub fn f64_ge_exec(a: &F64Value, b: &F64Value) -> (r: bool)
    ensures
        r == f64_ge(a.bits, b.bits),
{
    !f64_is_nan_exec(a.bits) && !f64_is_nan_exec(b.bits) && f64_order_key_exec(a.bits)
        >= f64_order_key_exec(b.bits)
}

// ---------------------------------------------------------------------------
// Validation rules
// ---------------------------------------------------------------------------

/// The tool names a test case may call.
pub open spec fn valid_tool(t: Seq<char>) -> bool {
    t == "health_check"@ || t == "tools_list"@ || t == "tools_call"@ || t == "resources_list"@
        || t == "resource_read"@ || t == "prompts_list"@ || t == "prompt_get"@
}

/// The comparison operators an assertion may use.
pub open spec fn valid_operator(op: Seq<char>) -> bool {
    op == ">"@ || op == "<"@ || op == ">="@ || op == "<="@ || op == "=="@ || op == "!="@
}

/// The JSON type names a `json_value_type` assertion may expect.
pub open spec fn valid_json_type(t: Seq<char>) -> bool {
    t == "string"@ || t == "number"@ || t == "boolean"@ || t == "array"@ || t == "object"@
        || t == "null"@
}

/// The error for an unknown comparison operator.
pub open spec fn operator_error(op: Seq<char>) -> Seq<char> {
    "Invalid operator: '"@ + op + "'. Must be one of: >, <, >=, <=, ==, !="@
}

/// The outcome of validating one assertion.
pub open spec fn assertion_check(a: Assertion) -> Result<(), Seq<char>> {
    match a {
        Assertion::ArrayLength { operator, .. } => if valid_operator(operator@) {
            Ok(())
        } else {
            Err(operator_error(operator@))
        },
        Assertion::ResponseTime { operator, .. } => if valid_operator(operator@) {
            Ok(())
        } else {
            Err(operator_error(operator@))
        },
        Assertion::ErrorRate { operator, .. } => if valid_operator(operator@) {
            Ok(())
        } else {
            Err(operator_error(operator@))
        },
        Assertion::JsonValueType { expected, .. } => if valid_json_type(expected@) {
            Ok(())
        } else {
            Err(
                "Invalid JSON value type: "@ + expected@
                    + ". Must be one of: string, number, boolean, array, object, null"@,
            )
        },
        Assertion::JsonValueRange { min, max, .. } => if f64_ge(min.bits, max.bits) {
            Err(
                "Invalid range: min ("@ + min.display@ + ") must be less than max ("@
                    + max.display@ + ")"@,
            )
        } else {
            Ok(())
        },
        _ => Ok(()),
    }
}

/// The outcome of validating assertions in order: the first error, if any.
pub open spec fn assertions_check(s: Seq<Assertion>) -> Result<(), Seq<char>>
    decreases s.len(),
{
    if s.len() == 0 {
        Ok(())
    } else {
        match assertion_check(s[0]) {
            Err(e) => Err(e),
            Ok(()) => assertions_check(s.subrange(1, s.len() as int)),
        }
    }
}

/// The outcome of validating one test case.
pub open spec fn case_check(t: TestCase) -> Result<(), Seq<char>> {
    if !valid_tool(t.tool@) {
        Err(
            "Invalid tool name: '"@ + t.tool@
                + "'. Must be one of: health_check, tools_list, tools_call, resources_list, resource_read, prompts_list, prompt_get"@,
        )
    } else {
        assertions_check(t.assertions@)
    }
}

/// The outcome of validating test cases in order: the first error, if any.
pub open spec fn cases_check(s: Seq<TestCase>) -> Result<(), Seq<char>>
    decreases s.len(),
{
    if s.len() == 0 {
        Ok(())
    } else {
        match case_check(s[0]) {
            Err(e) => Err(e),
            Ok(()) => cases_check(s.subrange(1, s.len() as int)),
        }
    }
}

/// Test `j` has the same name as an earlier test.
pub open spec fn repeats_earlier_name(s: Seq<TestCase>, j: int) -> bool {
    exists|i: int| 0 <= i < j && s[i].name@ == s[j].name@
}

/// The first test, from position `j` on, whose name repeats an earlier one.
pub open spec fn first_repeated_name(s: Seq<TestCase>, j: int) -> Option<int>
    decreases s.len() - j,
{
    if j < 0 || j >= s.len() {
        None
    } else if repeats_earlier_name(s, j) {
        Some(j)
    } else {
        first_repeated_name(s, j + 1)
    }
}

/// The outcome of validating a whole suite (`TestSuite::validate`).
pub open spec fn suite_check(suite: TestSuite) -> Result<(), Seq<char>> {
    match first_repeated_name(suite.tests@, 0) {
        Some(j) => Err("Duplicate test name: "@ + suite.tests@[j].name@),
        None => if suite.config.timeout_ms == 0 {
            Err("timeout_ms must be greater than 0"@)
        } else if suite.config.timeout_ms > 600000 {
            Err("timeout_ms must be less than or equal to 600000 (10 minutes)"@)
        } else {
            cases_check(suite.tests@)
        },
    }
}

proof fn lemma_assertions_ok(s: Seq<Assertion>)
    ensures
        assertions_check(s) is Ok <==> forall|i: int| 0 <= i < s.len() ==> (#[trigger] assertion_check(s[i])) is Ok,
    decreases s.len(),
{
    if s.len() > 0 {
        let t = s.subrange(1, s.len() as int);
        lemma_assertions_ok(t);
        assert forall|i: int| 0 <= i < t.len() implies #[trigger] t[i] == s[i + 1] by {}
        if forall|i: int| 0 <= i < s.len() ==> (#[trigger] assertion_check(s[i])) is Ok {
            assert(assertion_check(s[0]) is Ok);
            assert forall|i: int| 0 <= i < t.len() implies (#[trigger] assertion_check(t[i])) is Ok by {
                assert(assertion_check(s[i + 1]) is Ok);
            }
        }
        if assertions_check(s) is Ok {
            assert forall|i: int| 0 <= i < s.len() implies (#[trigger] assertion_check(s[i])) is Ok by {
                if i > 0 {
                    assert(assertion_check(t[i - 1]) is Ok);
                }
            }
        }
    }
}

proof fn lemma_cases_ok(s: Seq<TestCase>)
    ensures
        cases_check(s) is Ok <==> forall|i: int| 0 <= i < s.len() ==> (#[trigger] case_check(s[i])) is Ok,
    decreases s.len(),
{
    if s.len() > 0 {
        let t = s.subrange(1, s.len() as int);
        lemma_cases_ok(t);
        assert forall|i: int| 0 <= i < t.len() implies #[trigger] t[i] == s[i + 1] by {}
        if forall|i: int| 0 <= i < s.len() ==> (#[trigger] case_check(s[i])) is Ok {
            assert(case_check(s[0]) is Ok);
            assert forall|i: int| 0 <= i < t.len() implies (#[trigger] case_check(t[i])) is Ok by {
                assert(case_check(s[i + 1]) is Ok);
            }
        }
        if cases_check(s) is Ok {
            assert forall|i: int| 0 <= i < s.len() implies (#[trigger] case_check(s[i])) is Ok by {
                if i > 0 {
                    assert(case_check(t[i - 1]) is Ok);
                }
            }
        }
    }
}

proof fn lemma_no_repeated_name_from(s: Seq<TestCase>, j: int)
    requires
        0 <= j <= s.len(),
    ensures
        first_repeated_name(s, j) is None <==> forall|k: int| j <= k < s.len() ==> !#[trigger] repeats_earlier_name(s, k),
    decreases s.len() - j,
{
    if j < s.len() {
        lemma_no_repeated_name_from(s, j + 1);
    }
}

/// A suite is valid exactly when its test names are all different, its
/// timeout is positive and at most ten minutes, and every test is valid; a
/// test is valid exactly when it calls a known tool and all its assertions
/// are valid.
pub proof fn lemma_suite_valid_exactly(suite: TestSuite, t: TestCase)
    ensures
        suite_check(suite) is Ok <==> (
            (forall|i: int, k: int| 0 <= i < k < suite.tests@.len() ==> (#[trigger] suite.tests@[i]).name@ != (#[trigger] suite.tests@[k]).name@)
            && 0 < suite.config.timeout_ms <= 600000
            && (forall|i: int| 0 <= i < suite.tests@.len() ==> (#[trigger] case_check(suite.tests@[i])) is Ok)),
        case_check(t) is Ok <==> (valid_tool(t.tool@)
            && forall|i: int| 0 <= i < t.assertions@.len() ==> (#[trigger] assertion_check(t.assertions@[i])) is Ok),
{
    let s = suite.tests@;
    lemma_no_repeated_name_from(s, 0);
    lemma_cases_ok(s);
    lemma_assertions_ok(t.assertions@);
    let distinct = forall|i: int, k: int| 0 <= i < k < s.len() ==> (#[trigger] s[i]).name@ != (#[trigger] s[k]).name@;
    if distinct {
        assert forall|k: int| 0 <= k < s.len() implies !#[trigger] repeats_earlier_name(s, k) by {
            if repeats_earlier_name(s, k) {
                let i = choose|i: int| 0 <= i < k && s[i].name@ == s[k].name@;
                assert(s[i].name@ == s[k].name@);
            }
        }
    } else {
        let (i, k) = choose|i: int, k: int| 0 <= i < k < s.len() && (#[trigger] s[i]).name@ == (#[trigger] s[k]).name@;
        assert(repeats_earlier_name(s, k));
    }
}

/// A validation outcome as the caller sees it.
pub open spec fn outcome_matches(r: Result<(), String>, s: Result<(), Seq<char>>) -> bool {
    match r {
        Ok(()) => s is Ok,
        Err(m) => s == Err::<(), Seq<char>>(m@),
    }
}

/// `op` is one of the accepted comparison operators.
pub fn is_valid_operator(op: &str) -> (r: bool)
    ensures
        r == valid_operator(op@),
{
    str_eq(op, ">") || str_eq(op, "<") || str_eq(op, ">=") || str_eq(op, "<=") || str_eq(op, "==")
        || str_eq(op, "!=")
}

/// `t` is one of the tool names a test case may call.
pub fn is_valid_tool(t: &str) -> (r: bool)
    ensures
        r == valid_tool(t@),
{
    str_eq(t, "health_check") || str_eq(t, "tools_list") || str_eq(t, "tools_call") || str_eq(
        t,
        "resources_list",
    ) || str_eq(t, "resource_read") || str_eq(t, "prompts_list") || str_eq(t, "prompt_get")
}

/// `t` is one of the JSON type names.
pub fn is_valid_json_type(t: &str) -> (r: bool)
    ensures
        r == valid_json_type(t@),
{
    str_eq(t, "string") || str_eq(t, "number") || str_eq(t, "boolean") || str_eq(t, "array")
        || str_eq(t, "object") || str_eq(t, "null")
}

fn operator_check(op: &String) -> (r: Result<(), String>)
    ensures
        r is Ok <==> valid_operator(op@),
        r matches Err(m) ==> m@ == operator_error(op@),
{
    if is_valid_operator(op.as_str()) {
        Ok(())
    } else {
        Err(concat3("Invalid operator: '", op.as_str(), "'. Must be one of: >, <, >=, <=, ==, !="))
    }
}

/// Validates one assertion.
pub fn validate_assertion(a: &Assertion) -> (r: Result<(), String>)
    ensures
        outcome_matches(r, assertion_check(*a)),
{
    match a {
        Assertion::ArrayLength { operator, .. } => operator_check(operator),
        Assertion::ResponseTime { operator, .. } => operator_check(operator),
        Assertion::ErrorRate { operator, .. } => operator_check(operator),
        Assertion::JsonValueType { expected, .. } => {
            if is_valid_json_type(expected.as_str()) {
                Ok(())
            } else {
                Err(
                    concat3(
                        "Invalid JSON value type: ",
                        expected.as_str(),
                        ". Must be one of: string, number, boolean, array, object, null",
                    ),
                )
            }
        },
        Assertion::JsonValueRange { min, max, .. } => {
            if f64_ge_exec(min, max) {
                let mut m = concat3("Invalid range: min (", min.display.as_str(), ") must be less than max (");
                m.append(max.display.as_str());
                m.append(")");
                Err(m)
            } else {
                Ok(())
            }
        },
        _ => Ok(()),
    }
}

impl TestCase {
    /// Validates the test case: its tool name, then its assertions in order.
    pub fn validate(&self) -> (r: Result<(), String>)
        ensures
            outcome_matches(r, case_check(*self)),
    {
        if !is_valid_tool(self.tool.as_str()) {
            return Err(
                concat3(
                    "Invalid tool name: '",
                    self.tool.as_str(),
                    "'. Must be one of: health_check, tools_list, tools_call, resources_list, resource_read, prompts_list, prompt_get",
                ),
            );
        }
        let ghost all = self.assertions@;
        let mut i: usize = 0;
        assert(all.subrange(0, all.len() as int) =~= all);
        while i < self.assertions.len()
            invariant
                all == self.assertions@,
                case_check(*self) == assertions_check(all),
                i <= all.len(),
                assertions_check(all) == assertions_check(all.subrange(i as int, all.len() as int)),
            decreases all.len() - i,
        {
            let ghost rest = all.subrange(i as int, all.len() as int);
            assert(rest.subrange(1, rest.len() as int) =~= all.subrange(i + 1, all.len() as int));
            assert(rest[0] == all[i as int]);
            match validate_assertion(&self.assertions[i]) {
                Err(e) => {
                    assert(assertion_check(rest[0]) == Err::<(), Seq<char>>(e@));
                    assert(assertions_check(rest) == Err::<(), Seq<char>>(e@));
                    return Err(e);
                },
                Ok(()) => {},
            }
            i = i + 1;
        }
        Ok(())
    }
}

impl TestSuite {
    /// Index of the first test whose name repeats an earlier one.
    fn first_repeated_test_name(&self) -> (r: Option<usize>)
        ensures
            r matches Some(j) ==> first_repeated_name(self.tests@, 0) == Some(j as int) && j
                < self.tests@.len(),
            r is None ==> first_repeated_name(self.tests@, 0) is None,
    {
        let ghost s = self.tests@;
        let mut j: usize = 0;
        while j < self.tests.len()
            invariant
                s == self.tests@,
                j <= s.len(),
                first_repeated_name(s, 0) == first_repeated_name(s, j as int),
            decreases s.len() - j,
        {
            let mut i: usize = 0;
            let mut found = false;
            while i < j
                invariant
                    s == self.tests@,
                    i <= j < s.len(),
                    !found ==> forall|k: int| 0 <= k < i ==> s[k].name@ != s[j as int].name@,
                    found ==> repeats_earlier_name(s, j as int),
                decreases j - i,
            {
                if str_eq(self.tests[i].name.as_str(), self.tests[j].name.as_str()) {
                    found = true;
                }
                i = i + 1;
            }
            if found {
                return Some(j);
            }
            assert(!repeats_earlier_name(s, j as int));
            j = j + 1;
        }
        None
    }

    /// Validates the suite: distinct test names, a timeout in (0, 600000] and
    /// then every test case in order.
    pub fn validate(&self) -> (r: Result<(), String>)
        ensures
            outcome_matches(r, suite_check(*self)),
    {
        match self.first_repeated_test_name() {
            Some(j) => {
                return Err(crate::text::concat2("Duplicate test name: ", self.tests[j].name.as_str()));
            },
            None => {},
        }
        if self.config.timeout_ms == 0 {
            return Err(String::from_str("timeout_ms must be greater than 0"));
        }
        if self.config.timeout_ms > 600000 {
            return Err(String::from_str("timeout_ms must be less than or equal to 600000 (10 minutes)"));
        }
        let ghost all = self.tests@;
        let mut i: usize = 0;
        assert(all.subrange(0, all.len() as int) =~= all);
        while i < self.tests.len()
            invariant
                all == self.tests@,
                suite_check(*self) == cases_check(all),
                i <= all.len(),
                cases_check(all) == cases_check(all.subrange(i as int, all.len() as int)),
            decreases all.len() - i,
        {
            let ghost rest = all.subrange(i as int, all.len() as int);
            assert(rest.subrange(1, rest.len() as int) =~= all.subrange(i + 1, all.len() as int));
            assert(rest[0] == all[i as int]);
            match self.tests[i].validate() {
                Err(e) => {
                    assert(case_check(rest[0]) == Err::<(), Seq<char>>(e@));
                    assert(cases_check(rest) == Err::<(), Seq<char>>(e@));
                    return Err(e);
                },
                Ok(()) => {},
            }
            i = i + 1;
        }
        Ok(())
    }
}

} // verus!
