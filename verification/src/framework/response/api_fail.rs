//! Failures of API requests: how they compare and how they read.

use vstd::prelude::*;
use crate::framework::json::{JsonValue, debug_map_text, json_text, json_wf, push_debug_map, push_json};
use crate::framework::response::ResponseInfo;
use crate::text::{decimal_text, lemma_str_lt_asymmetric, lemma_str_lt_irreflexive, lemma_str_lt_total,
    lemma_str_lt_transitive, push_char, push_decimal, push_str, str_equal, str_less, str_lt};

verus! {

/// The errors of a failed response, and the response's other top-level
/// fields, each key once.
///
/// Equality compares only the errors' `code` and `message`; it does not
/// compare the `other` values.
#[derive(Debug)]
pub struct ApiErrors {
    pub other: Vec<(String, JsonValue)>,
    pub errors: Vec<ResponseInfo>,
}

/// Why a request failed.
#[derive(Debug)]
pub enum ApiFailure {
    /// The API answered with a non-success status and these errors.
    Error(u16, ApiErrors),
    /// The response could not be read or parsed; the text of that error.
    Invalid(String),
}

/// No two entries share a key.
pub open spec fn distinct_keys(m: Seq<(String, JsonValue)>) -> bool {
    forall|i: int, j: int| 0 <= i < j < m.len() ==> m[i].0@ != m[j].0@
}

/// Entries in strictly increasing key order.
pub open spec fn key_sorted(r: Seq<(String, JsonValue)>) -> bool {
    forall|i: int, j: int| 0 <= i < j < r.len() ==> str_lt(r[i].0@, r[j].0@)
}

/// Keys of the response envelope itself: `success`, `result`, `result_info`.
pub open spec fn is_envelope_key(k: Seq<char>) -> bool {
    k == "success"@ || k == "result"@ || k == "result_info"@
}

/// The value is an array with no element.
pub open spec fn json_is_empty_array(v: JsonValue) -> bool {
    match v {
        JsonValue::Array(items) => items@.len() == 0,
        _ => false,
    }
}

/// A top-level field that a failure reports: not part of the envelope, not
/// null, not an empty array.
pub open spec fn is_reported(e: (String, JsonValue)) -> bool {
    &&& !is_envelope_key(e.0@)
    &&& !(e.1 is Null)
    &&& !json_is_empty_array(e.1)
}

/// `r` holds exactly the reported fields of `other`, in increasing key order.
pub open spec fn is_report_order(other: Seq<(String, JsonValue)>, r: Seq<(String, JsonValue)>) -> bool {
    &&& key_sorted(r)
    &&& forall|x: (String, JsonValue)| #[trigger] r.contains(x) <==> (other.contains(x) && is_reported(x))
}

/// The reported fields of `other`, in increasing key order.
pub open spec fn reported_fields(other: Seq<(String, JsonValue)>) -> Seq<(String, JsonValue)> {
    choose|r: Seq<(String, JsonValue)>| is_report_order(other, r)
}

/// A reported field's line: `\n{key}: {value as JSON}`.
pub open spec fn field_line(e: (String, JsonValue)) -> Seq<char> {
    seq!['\n'] + e.0@ + seq![':', ' '] + json_text(e.1)
}

/// The lines of the given fields, in order.
pub open spec fn fields_text(r: Seq<(String, JsonValue)>) -> Seq<char>
    decreases r.len(),
{
    if r.len() == 0 {
        seq![]
    } else {
        fields_text(r.subrange(0, r.len() - 1)) + field_line(r[r.len() - 1])
    }
}

/// An error's line: `\n{code}: {message}`, followed by ` ({other:?})` when it
/// has other fields.
pub open spec fn error_line(e: ResponseInfo) -> Seq<char> {
    seq!['\n'] + decimal_text(e.code as nat) + seq![':', ' '] + e.message@ + if e.other@.len() > 0 {
        seq![' ', '('] + debug_map_text(e.other@) + seq![')']
    } else {
        seq![]
    }
}

/// The lines of the given errors, in order.
pub open spec fn errors_text(es: Seq<ResponseInfo>) -> Seq<char>
    decreases es.len(),
{
    if es.len() == 0 {
        seq![]
    } else {
        errors_text(es.subrange(0, es.len() - 1)) + error_line(es[es.len() - 1])
    }
}

/// The reason phrase that the http crate gives a status code
/// (`StatusCode::canonical_reason`), if it knows one.
pub uninterp spec fn status_reason(code: u16) -> Option<Seq<char>>;

/// The reason phrase of a status code, as reqwest's (http's)
/// `StatusCode::canonical_reason` gives it; `None` for a code it does not know
/// or cannot hold. The contract names the result `status_reason(code)`; the
/// table of phrases is http's.
#[verifier::external_body]
fn canonical_reason(code: u16) -> (r: Option<String>)
    ensures
        match r {
            Some(s) => status_reason(code) == Some(s@),
            None => status_reason(code) is None,
        },
{
    reqwest::StatusCode::from_u16(code).ok().and_then(|s| s.canonical_reason()).map(|s| s.to_string())
}

/// `{code} {reason}`, with `<unknown status code>` where there is no reason
/// phrase: how a status code displays.
pub open spec fn status_text(code: u16) -> Seq<char> {
    decimal_text(code as nat) + seq![' '] + match status_reason(code) {
        Some(r) => r,
        None => "<unknown status code>"@,
    }
}

/// How a failure reads. An API error: `HTTP {status}`, a line per error, then
/// a line per reported top-level field in increasing key order. An invalid
/// response: the text of its error.
pub open spec fn failure_text(f: ApiFailure) -> Seq<char> {
    match f {
        ApiFailure::Error(status, errors) => "HTTP "@ + status_text(status) + errors_text(
            errors.errors@,
        ) + fields_text(reported_fields(errors.other@)),
        ApiFailure::Invalid(msg) => msg@,
    }
}

/// Two lists of errors agree on each error's code and message.
pub open spec fn errors_match(a: Seq<ResponseInfo>, b: Seq<ResponseInfo>) -> bool {
    &&& a.len() == b.len()
    &&& forall|i: int| 0 <= i < a.len() ==> a[i].code == b[i].code && a[i].message@ == b[i].message@
}

/// Failures are equal when both are invalid with the same error text, or both
/// are API errors with the same status and matching errors.
pub open spec fn failures_match(a: ApiFailure, b: ApiFailure) -> bool {
    match (a, b) {
        (ApiFailure::Invalid(x), ApiFailure::Invalid(y)) => x@ == y@,
        (ApiFailure::Error(s1, e1), ApiFailure::Error(s2, e2)) => s1 == s2 && errors_match(
            e1.errors@,
            e2.errors@,
        ),
        _ => false,
    }
}

/// What equality of failures means: two invalid responses are equal exactly
/// when their error texts are; two API errors exactly when their statuses
/// are and their errors agree one by one on code and message; an invalid
/// response never equals an API error.
pub proof fn lemma_failure_equality(a: ApiFailure, b: ApiFailure)
    ensures
        failures_match(a, b) <==> match (a, b) {
            (ApiFailure::Invalid(x), ApiFailure::Invalid(y)) => x@ == y@,
            (ApiFailure::Error(s1, e1), ApiFailure::Error(s2, e2)) => {
                &&& s1 == s2
                &&& e1.errors@.len() == e2.errors@.len()
                &&& forall|i: int|
                    0 <= i < e1.errors@.len() ==> #[trigger] e1.errors@[i].code == e2.errors@[i].code
                        && e1.errors@[i].message@ == e2.errors@[i].message@
            },
            _ => false,
        },
{
}

/// Equality of failures is an equivalence: reflexive, symmetric and
/// transitive.
pub proof fn lemma_failures_match_equivalence(a: ApiFailure, b: ApiFailure, c: ApiFailure)
    ensures
        failures_match(a, a),
        failures_match(a, b) ==> failures_match(b, a),
        failures_match(a, b) && failures_match(b, c) ==> failures_match(a, c),
{
}

/// Equality of error lists looks only at each error's code and message: two
/// lists that agree on those are equal, whatever other fields they carry.
pub proof fn lemma_errors_match_ignores_other(status: u16, a: ApiErrors, b: ApiErrors)
    requires
        a.errors@.len() == b.errors@.len(),
        forall|i: int|
            0 <= i < a.errors@.len() ==> #[trigger] a.errors@[i].code == b.errors@[i].code
                && a.errors@[i].message@ == b.errors@[i].message@,
    ensures
        errors_match(a.errors@, b.errors@),
        failures_match(ApiFailure::Error(status, a), ApiFailure::Error(status, b)),
{
}

/// Two lists of errors whose errors agree one by one on code, message and
/// other fields give the same lines.
proof fn lemma_errors_text_same(a: Seq<ResponseInfo>, b: Seq<ResponseInfo>)
    requires
        a.len() == b.len(),
        forall|i: int|
            0 <= i < a.len() ==> #[trigger] a[i].code == b[i].code && a[i].message@ == b[i].message@
                && a[i].other@ == b[i].other@,
    ensures
        errors_text(a) == errors_text(b),
    decreases a.len(),
{
    if a.len() > 0 {
        let n = a.len() - 1;
        lemma_errors_text_same(a.subrange(0, n), b.subrange(0, n));
        assert(a[n].code == b[n].code && a[n].message@ == b[n].message@ && a[n].other@ == b[n].other@);
        assert(error_line(a[n]) == error_line(b[n]));
    }
}

/// How a failure reads does not depend on the order in which its top-level
/// fields are held: two API errors with the same status, errors that agree
/// one by one on code, message and other fields, and the same top-level
/// fields (each key once) in any order read the same.
pub proof fn lemma_failure_text_ignores_field_order(status: u16, a: ApiErrors, b: ApiErrors)
    requires
        a.wf(),
        b.wf(),
        forall|x: (String, JsonValue)| a.other@.contains(x) <==> b.other@.contains(x),
        a.errors@.len() == b.errors@.len(),
        forall|i: int|
            0 <= i < a.errors@.len() ==> #[trigger] a.errors@[i].code == b.errors@[i].code
                && a.errors@[i].message@ == b.errors@[i].message@ && a.errors@[i].other@
                == b.errors@[i].other@,
    ensures
        failure_text(ApiFailure::Error(status, a)) == failure_text(ApiFailure::Error(status, b)),
{
    let ea = a.errors@;
    let eb = b.errors@;
    assert forall|i: int| 0 <= i < ea.len() implies #[trigger] ea[i].code == eb[i].code && ea[i].message@
        == eb[i].message@ && ea[i].other@ == eb[i].other@ by {
        assert(a.errors@[i].code == b.errors@[i].code);
    }
    lemma_errors_text_same(ea, eb);
    lemma_reported_fields_order(a.other@);
    lemma_reported_fields_order(b.other@);
    let ra = reported_fields(a.other@);
    let rb = reported_fields(b.other@);
    assert forall|x: (String, JsonValue)| ra.contains(x) <==> rb.contains(x) by {
        assert(ra.contains(x) <==> (a.other@.contains(x) && is_reported(x)));
        assert(rb.contains(x) <==> (b.other@.contains(x) && is_reported(x)));
    }
    lemma_key_sorted_unique(ra, rb);
}

/// Two entries with keys in strictly increasing order and the same elements
/// are the same sequence.
proof fn lemma_key_sorted_unique(r1: Seq<(String, JsonValue)>, r2: Seq<(String, JsonValue)>)
    requires
        key_sorted(r1),
        key_sorted(r2),
        forall|x: (String, JsonValue)| r1.contains(x) <==> r2.contains(x),
    ensures
        r1 == r2,
    decreases r1.len(),
{
    if r1.len() == 0 {
        if r2.len() > 0 {
            assert(r2.contains(r2[0]));
        }
        assert(r1 =~= r2);
    } else {
        assert(r1.contains(r1[0]));
        assert(r2.len() > 0);
        assert(r2.contains(r2[0]));
        let j = choose|j: int| 0 <= j < r2.len() && r2[j] == r1[0];
        let i = choose|i: int| 0 <= i < r1.len() && r1[i] == r2[0];
        if j > 0 {
            assert(str_lt(r2[0].0@, r2[j].0@));
            if i > 0 {
                assert(str_lt(r1[0].0@, r1[i].0@));
                lemma_str_lt_asymmetric(r1[0].0@, r1[i].0@);
            } else {
                lemma_str_lt_irreflexive(r1[0].0@);
            }
        }
        assert(r1[0] == r2[0]);
        let t1 = r1.drop_first();
        let t2 = r2.drop_first();
        assert forall|i: int, k: int| 0 <= i < k < t1.len() implies str_lt(t1[i].0@, t1[k].0@) by {
            assert(t1[i] == r1[i + 1]);
            assert(t1[k] == r1[k + 1]);
        }
        assert forall|i: int, k: int| 0 <= i < k < t2.len() implies str_lt(t2[i].0@, t2[k].0@) by {
            assert(t2[i] == r2[i + 1]);
            assert(t2[k] == r2[k + 1]);
        }
        assert forall|x: (String, JsonValue)| t1.contains(x) implies t2.contains(x) by {
            let a = choose|a: int| 0 <= a < t1.len() && t1[a] == x;
            assert(r1[a + 1] == x);
            assert(r1.contains(x));
            let b = choose|b: int| 0 <= b < r2.len() && r2[b] == x;
            if b == 0 {
                assert(str_lt(r1[0].0@, r1[a + 1].0@));
                lemma_str_lt_irreflexive(x.0@);
            }
            assert(t2[b - 1] == x);
        }
        assert forall|x: (String, JsonValue)| t2.contains(x) implies t1.contains(x) by {
            let a = choose|a: int| 0 <= a < t2.len() && t2[a] == x;
            assert(r2[a + 1] == x);
            assert(r2.contains(x));
            let b = choose|b: int| 0 <= b < r1.len() && r1[b] == x;
            if b == 0 {
                assert(str_lt(r2[0].0@, r2[a + 1].0@));
                lemma_str_lt_irreflexive(x.0@);
            }
            assert(t1[b - 1] == x);
        }
        lemma_key_sorted_unique(t1, t2);
        assert(r1 =~= seq![r1[0]] + t1);
        assert(r2 =~= seq![r2[0]] + t2);
    }
}

/// `x` inserted into `s` before the first entry whose key is above its own.
spec fn insert_by_key(s: Seq<(String, JsonValue)>, x: (String, JsonValue)) -> Seq<(String, JsonValue)>
    decreases s.len(),
{
    if s.len() == 0 {
        seq![x]
    } else if str_lt(x.0@, s[0].0@) {
        seq![x] + s
    } else {
        seq![s[0]] + insert_by_key(s.drop_first(), x)
    }
}

/// Inserting an entry whose key is new keeps the keys in increasing order and
/// adds exactly that entry.
proof fn lemma_insert_by_key(s: Seq<(String, JsonValue)>, x: (String, JsonValue))
    requires
        key_sorted(s),
        forall|i: int| 0 <= i < s.len() ==> s[i].0@ != x.0@,
    ensures
        key_sorted(insert_by_key(s, x)),
        forall|y: (String, JsonValue)| #[trigger] insert_by_key(s, x).contains(y) <==> (s.contains(y) || y == x),
    decreases s.len(),
{
    let r = insert_by_key(s, x);
    if s.len() == 0 {
        assert forall|y: (String, JsonValue)| r.contains(y) <==> (s.contains(y) || y == x) by {
            if r.contains(y) {
                assert(r[0] == y);
            }
            if y == x {
                assert(r[0] == y);
            }
        }
    } else if str_lt(x.0@, s[0].0@) {
        assert forall|i: int, j: int| 0 <= i < j < r.len() implies str_lt(r[i].0@, r[j].0@) by {
            if i == 0 {
                assert(r[j] == s[j - 1]);
                if j > 1 {
                    lemma_str_lt_transitive(x.0@, s[0].0@, s[j - 1].0@);
                }
            } else {
                assert(r[i] == s[i - 1]);
                assert(r[j] == s[j - 1]);
            }
        }
        assert forall|y: (String, JsonValue)| r.contains(y) <==> (s.contains(y) || y == x) by {
            if r.contains(y) {
                let k = choose|k: int| 0 <= k < r.len() && r[k] == y;
                if k > 0 {
                    assert(s[k - 1] == y);
                }
            }
            if s.contains(y) {
                let k = choose|k: int| 0 <= k < s.len() && s[k] == y;
                assert(r[k + 1] == y);
            }
            if y == x {
                assert(r[0] == y);
            }
        }
    } else {
        let t = s.drop_first();
        assert forall|i: int, j: int| 0 <= i < j < t.len() implies str_lt(t[i].0@, t[j].0@) by {
            assert(t[i] == s[i + 1]);
            assert(t[j] == s[j + 1]);
        }
        assert forall|i: int| 0 <= i < t.len() implies t[i].0@ != x.0@ by {
            assert(t[i] == s[i + 1]);
        }
        lemma_insert_by_key(t, x);
        let u = insert_by_key(t, x);
        lemma_str_lt_total(s[0].0@, x.0@);
        assert(r == seq![s[0]] + u);
        assert forall|i: int, j: int| 0 <= i < j < r.len() implies str_lt(r[i].0@, r[j].0@) by {
            if i == 0 {
                assert(r[j] == u[j - 1]);
                assert(u.contains(u[j - 1]));
                if u[j - 1] != x {
                    assert(t.contains(u[j - 1]));
                    let k = choose|k: int| 0 <= k < t.len() && t[k] == u[j - 1];
                    assert(s[k + 1] == u[j - 1]);
                }
            } else {
                assert(r[i] == u[i - 1]);
                assert(r[j] == u[j - 1]);
            }
        }
        assert forall|y: (String, JsonValue)| r.contains(y) <==> (s.contains(y) || y == x) by {
            if r.contains(y) {
                let k = choose|k: int| 0 <= k < r.len() && r[k] == y;
                if k == 0 {
                    assert(s[0] == y);
                } else {
                    assert(u[k - 1] == y);
                    assert(u.contains(y));
                    if y != x {
                        assert(t.contains(y));
                        let m = choose|m: int| 0 <= m < t.len() && t[m] == y;
                        assert(s[m + 1] == y);
                    }
                }
            }
            if s.contains(y) {
                let k = choose|k: int| 0 <= k < s.len() && s[k] == y;
                if k == 0 {
                    assert(r[0] == y);
                } else {
                    assert(t[k - 1] == y);
                    assert(t.contains(y));
                    assert(u.contains(y));
                    let m = choose|m: int| 0 <= m < u.len() && u[m] == y;
                    assert(r[m + 1] == y);
                }
            }
            if y == x {
                assert(u.contains(x));
                let m = choose|m: int| 0 <= m < u.len() && u[m] == x;
                assert(r[m + 1] == y);
            }
        }
    }
}

/// The reported fields among the first `n` entries, in increasing key order.
proof fn report_prefix(other: Seq<(String, JsonValue)>, n: int) -> (r: Seq<(String, JsonValue)>)
    requires
        distinct_keys(other),
        0 <= n <= other.len(),
    ensures
        key_sorted(r),
        forall|x: (String, JsonValue)| #[trigger] r.contains(x) <==> (other.take(n).contains(x) && is_reported(x)),
    decreases n,
{
    if n == 0 {
        let r = Seq::<(String, JsonValue)>::empty();
        assert forall|x: (String, JsonValue)| r.contains(x) <==> (other.take(n).contains(x) && is_reported(x)) by {
            let t0 = other.take(n);
            assert(t0.len() == 0);
            assert(!t0.contains(x));
        }
        r
    } else {
        let prev = report_prefix(other, n - 1);
        let x = other[n - 1];
        let t = other.take(n);
        let t1 = other.take(n - 1);
        assert forall|y: (String, JsonValue)| t.contains(y) <==> (t1.contains(y) || y == x) by {
            if t.contains(y) {
                let k = choose|k: int| 0 <= k < t.len() && t[k] == y;
                if k < n - 1 {
                    assert(t1[k] == y);
                }
            }
            if t1.contains(y) {
                let k = choose|k: int| 0 <= k < t1.len() && t1[k] == y;
                assert(t[k] == y);
            }
            if y == x {
                assert(t[n - 1] == y);
            }
        }
        if is_reported(x) {
            assert forall|i: int| 0 <= i < prev.len() implies prev[i].0@ != x.0@ by {
                assert(prev.contains(prev[i]));
                assert(t1.contains(prev[i]));
                let k = choose|k: int| 0 <= k < t1.len() && t1[k] == prev[i];
                assert(other[k] == prev[i]);
            }
            lemma_insert_by_key(prev, x);
            insert_by_key(prev, x)
        } else {
            prev
        }
    }
}

/// The reported fields of a map with distinct keys are exactly its entries
/// that are not part of the envelope, not null and not an empty array, each
/// once, in increasing key order.
pub proof fn lemma_reported_fields_order(other: Seq<(String, JsonValue)>)
    requires
        distinct_keys(other),
    ensures
        is_report_order(other, reported_fields(other)),
{
    let r = report_prefix(other, other.len() as int);
    assert(other.take(other.len() as int) =~= other);
    assert forall|x: (String, JsonValue)| #[trigger] r.contains(x) <==> (other.contains(x) && is_reported(x)) by {
        assert(r.contains(x) <==> (other.take(other.len() as int).contains(x) && is_reported(x)));
    }
    assert(is_report_order(other, r));
}

/// Whether a top-level field is reported.
fn reported(e: &(String, JsonValue)) -> (r: bool)
    ensures
        r == is_reported(*e),
{
    let k = e.0.as_str();
    !str_equal(k, "success") && !str_equal(k, "result") && !str_equal(k, "result_info")
        && !e.1.is_null() && !e.1.is_empty_array()
}

/// The positions in `other` of the reported fields, in increasing key order.
fn report_order(other: &Vec<(String, JsonValue)>) -> (idx: Vec<usize>)
    requires
        distinct_keys(other@),
    ensures
        forall|a: int| 0 <= a < idx@.len() ==> idx@[a] < other@.len(),
        is_report_order(other@, idx@.map_values(|j: usize| other@[j as int])),
{
    let mut sorted: Vec<usize> = Vec::new();
    let mut i: usize = 0;
    while i < other.len()
        invariant
            0 <= i <= other@.len(),
            distinct_keys(other@),
            forall|a: int| 0 <= a < sorted@.len() ==> sorted@[a] < i,
            forall|a: int, b: int|
                0 <= a < b < sorted@.len() ==> str_lt(
                    other@[sorted@[a] as int].0@,
                    other@[sorted@[b] as int].0@,
                ),
            forall|j: usize| sorted@.contains(j) <==> (j < i && is_reported(other@[j as int])),
        decreases other@.len() - i,
    {
        if reported(&other[i]) {
            let ghost knew = other@[i as int].0@;
            let mut p: usize = 0;
            while p < sorted.len() && str_less(other[sorted[p]].0.as_str(), other[i].0.as_str())
                invariant
                    0 <= p <= sorted@.len(),
                    i < other@.len(),
                    knew == other@[i as int].0@,
                    forall|a: int| 0 <= a < sorted@.len() ==> sorted@[a] < i,
                    forall|a: int| 0 <= a < p ==> str_lt(other@[sorted@[a] as int].0@, knew),
                decreases sorted@.len() - p,
            {
                p = p + 1;
            }
            let ghost old_sorted = sorted@;
            proof {
                assert forall|a: int| p <= a < old_sorted.len() implies str_lt(
                    knew,
                    other@[old_sorted[a] as int].0@,
                ) by {
                    let kp = other@[old_sorted[p as int] as int].0@;
                    assert(old_sorted[p as int] < i);
                    assert(kp != knew);
                    lemma_str_lt_total(kp, knew);
                    if a > p {
                        lemma_str_lt_transitive(knew, kp, other@[old_sorted[a] as int].0@);
                    }
                }
            }
            sorted.insert(p, i);
            proof {
                let s = sorted@;
                assert(s =~= old_sorted.insert(p as int, i));
                assert forall|a: int, b: int| 0 <= a < b < s.len() implies str_lt(
                    other@[s[a] as int].0@,
                    other@[s[b] as int].0@,
                ) by {
                    if b < p {
                        assert(s[a] == old_sorted[a]);
                        assert(s[b] == old_sorted[b]);
                    } else if b == p {
                        assert(s[a] == old_sorted[a]);
                    } else if a < p {
                        assert(s[a] == old_sorted[a]);
                        assert(s[b] == old_sorted[b - 1]);
                        lemma_str_lt_transitive(
                            other@[s[a] as int].0@,
                            knew,
                            other@[s[b] as int].0@,
                        );
                    } else if a == p {
                        assert(s[b] == old_sorted[b - 1]);
                    } else {
                        assert(s[a] == old_sorted[a - 1]);
                        assert(s[b] == old_sorted[b - 1]);
                    }
                }
                assert forall|j: usize| s.contains(j) <==> (j < i + 1 && is_reported(other@[j as int])) by {
                    if s.contains(j) {
                        let a = choose|a: int| 0 <= a < s.len() && s[a] == j;
                        if a < p {
                            assert(old_sorted[a] == j);
                            assert(old_sorted.contains(j));
                        } else if a > p {
                            assert(old_sorted[a - 1] == j);
                            assert(old_sorted.contains(j));
                        }
                    }
                    if j < i + 1 && is_reported(other@[j as int]) {
                        if j == i {
                            assert(s[p as int] == j);
                        } else {
                            assert(old_sorted.contains(j));
                            let a = choose|a: int| 0 <= a < old_sorted.len() && old_sorted[a] == j;
                            if a < p {
                                assert(s[a] == j);
                            } else {
                                assert(s[a + 1] == j);
                            }
                        }
                    }
                }
            }
        }
        i = i + 1;
    }
    proof {
        let r = sorted@.map_values(|j: usize| other@[j as int]);
        assert forall|x: (String, JsonValue)| r.contains(x) <==> (other@.contains(x) && is_reported(x)) by {
            if r.contains(x) {
                let a = choose|a: int| 0 <= a < r.len() && r[a] == x;
                assert(sorted@.contains(sorted@[a]));
                assert(other@[sorted@[a] as int] == x);
                assert(other@.contains(x));
            }
            if other@.contains(x) && is_reported(x) {
                let j = choose|j: int| 0 <= j < other@.len() && other@[j] == x;
                assert(sorted@.contains(j as usize));
                let a = choose|a: int| 0 <= a < sorted@.len() && sorted@[a] == j as usize;
                assert(r[a] == x);
            }
        }
    }
    sorted
}

/// Every value of the map is one that serde_json can hold.
pub open spec fn values_wf(m: Seq<(String, JsonValue)>) -> bool {
    forall|i: int| 0 <= i < m.len() ==> json_wf(#[trigger] m[i].1)
}

/// Whether every value of the map is one that serde_json can hold.
fn all_values_wf(m: &Vec<(String, JsonValue)>) -> (r: bool)
    ensures
        r == values_wf(m@),
{
    let mut i: usize = 0;
    while i < m.len()
        invariant
            0 <= i <= m@.len(),
            forall|k: int| 0 <= k < i ==> json_wf(#[trigger] m@[k].1),
        decreases m@.len() - i,
    {
        if !m[i].1.is_wf() {
            return false;
        }
        i = i + 1;
    }
    true
}

/// Whether no two entries share a key.
fn keys_distinct(m: &Vec<(String, JsonValue)>) -> (r: bool)
    ensures
        r == distinct_keys(m@),
{
    let mut i: usize = 0;
    while i < m.len()
        invariant
            0 <= i <= m@.len(),
            forall|a: int, b: int| 0 <= a < b < i ==> m@[a].0@ != m@[b].0@,
        decreases m@.len() - i,
    {
        let mut j: usize = 0;
        while j < i
            invariant
                0 <= j <= i < m@.len(),
                forall|a: int| 0 <= a < j ==> m@[a].0@ != m@[i as int].0@,
            decreases i - j,
        {
            if str_equal(m[j].0.as_str(), m[i].0.as_str()) {
                return false;
            }
            j = j + 1;
        }
        i = i + 1;
    }
    true
}

impl ApiErrors {
    /// Each top-level key occurs once, and every value is one that
    /// serde_json can hold.
    pub open spec fn wf(&self) -> bool {
        &&& distinct_keys(self.other@)
        &&& values_wf(self.other@)
        &&& forall|i: int| 0 <= i < self.errors@.len() ==> values_wf(#[trigger] self.errors@[i].other@)
    }

    /// Whether each top-level key occurs once and every value is one that
    /// serde_json can hold.
    pub fn is_wf(&self) -> (r: bool)
        ensures
            r == self.wf(),
    {
        if !keys_distinct(&self.other) || !all_values_wf(&self.other) {
            return false;
        }
        let mut i: usize = 0;
        while i < self.errors.len()
            invariant
                0 <= i <= self.errors@.len(),
                forall|k: int| 0 <= k < i ==> values_wf(#[trigger] self.errors@[k].other@),
            decreases self.errors@.len() - i,
        {
            if !all_values_wf(&self.errors[i].other) {
                return false;
            }
            i = i + 1;
        }
        true
    }

    /// No error and no other field.
    pub fn empty() -> (r: Self)
        ensures
            r.other@.len() == 0,
            r.errors@.len() == 0,
    {
        ApiErrors { other: Vec::new(), errors: Vec::new() }
    }

    /// Whether two lists of errors agree on each error's code and message
    /// (`other` fields are not compared).
    pub fn same_errors(&self, other: &ApiErrors) -> (r: bool)
        ensures
            r == errors_match(self.errors@, other.errors@),
    {
        if self.errors.len() != other.errors.len() {
            return false;
        }
        let mut i: usize = 0;
        while i < self.errors.len()
            invariant
                0 <= i <= self.errors@.len(),
                self.errors@.len() == other.errors@.len(),
                forall|k: int|
                    0 <= k < i ==> self.errors@[k].code == other.errors@[k].code
                        && self.errors@[k].message@ == other.errors@[k].message@,
            decreases self.errors@.len() - i,
        {
            if self.errors[i].code != other.errors[i].code {
                return false;
            }
            if !str_equal(self.errors[i].message.as_str(), other.errors[i].message.as_str()) {
                return false;
            }
            i = i + 1;
        }
        true
    }
}

impl ApiFailure {
    /// The top-level keys of an API error are distinct, and its values are
    /// ones that serde_json can hold.
    pub open spec fn wf(&self) -> bool {
        match *self {
            ApiFailure::Error(_, errors) => errors.wf(),
            ApiFailure::Invalid(_) => true,
        }
    }

    /// Whether the failure is well formed (see `wf`).
    pub fn is_wf(&self) -> (r: bool)
        ensures
            r == self.wf(),
    {
        match self {
            ApiFailure::Error(_, errors) => errors.is_wf(),
            ApiFailure::Invalid(_) => true,
        }
    }

    /// Whether two failures are equal: both invalid with the same error text,
    /// or both API errors with the same status and errors that agree on code
    /// and message.
    pub fn same_as(&self, other: &ApiFailure) -> (r: bool)
        ensures
            r == failures_match(*self, *other),
    {
        match (self, other) {
            (ApiFailure::Invalid(x), ApiFailure::Invalid(y)) => str_equal(x.as_str(), y.as_str()),
            (ApiFailure::Error(s1, e1), ApiFailure::Error(s2, e2)) => *s1 == *s2 && e1.same_errors(e2),
            _ => false,
        }
    }

    /// How the failure reads (its `Display` text).
    pub fn to_string(&self) -> (r: String)
        requires
            self.wf(),
        ensures
            r@ == failure_text(*self),
    {
        match self {
            ApiFailure::Error(status, errors) => {
                let mut out = String::new();
                push_str(&mut out, "HTTP ");
                push_decimal(&mut out, *status as u64);
                push_char(&mut out, ' ');
                match canonical_reason(*status) {
                    Some(reason) => push_str(&mut out, reason.as_str()),
                    None => push_str(&mut out, "<unknown status code>"),
                }
                let ghost head = out@;
                assert(head =~= "HTTP "@ + status_text(*status));
                push_errors(&mut out, &errors.errors);
                push_fields(&mut out, &errors.other);
                out
            },
            ApiFailure::Invalid(msg) => msg.clone(),
        }
    }
}

/// Appends a line per error.
fn push_errors(out: &mut String, es: &Vec<ResponseInfo>)
    ensures
        final(out)@ == old(out)@ + errors_text(es@),
{
    let ghost start = out@;
    let mut i: usize = 0;
    assert(es@.subrange(0, 0) =~= Seq::<ResponseInfo>::empty());
    while i < es.len()
        invariant
            0 <= i <= es@.len(),
            out@ == start + errors_text(es@.subrange(0, i as int)),
        decreases es@.len() - i,
    {
        let ghost prev = es@.subrange(0, i as int);
        let ghost next = es@.subrange(0, i + 1);
        assert(next.subrange(0, next.len() - 1) =~= prev);
        let e = &es[i];
        push_char(out, '\n');
        push_decimal(out, e.code as u64);
        push_char(out, ':');
        push_char(out, ' ');
        push_str(out, e.message.as_str());
        if e.other.len() > 0 {
            push_char(out, ' ');
            push_char(out, '(');
            push_debug_map(out, &e.other);
            push_char(out, ')');
        }
        i = i + 1;
        assert(out@ =~= start + errors_text(next));
    }
    assert(es@.subrange(0, es@.len() as int) =~= es@);
}

/// Appends a line per reported top-level field, in increasing key order.
fn push_fields(out: &mut String, other: &Vec<(String, JsonValue)>)
    requires
        distinct_keys(other@),
    ensures
        final(out)@ == old(out)@ + fields_text(reported_fields(other@)),
{
    let ghost start = out@;
    let idx = report_order(other);
    let ghost r = idx@.map_values(|j: usize| other@[j as int]);
    let mut a: usize = 0;
    assert(r.subrange(0, 0) =~= Seq::<(String, JsonValue)>::empty());
    while a < idx.len()
        invariant
            0 <= a <= idx@.len(),
            r == idx@.map_values(|j: usize| other@[j as int]),
            forall|b: int| 0 <= b < idx@.len() ==> idx@[b] < other@.len(),
            out@ == start + fields_text(r.subrange(0, a as int)),
        decreases idx@.len() - a,
    {
        let ghost prev = r.subrange(0, a as int);
        let ghost next = r.subrange(0, a + 1);
        assert(next.subrange(0, next.len() - 1) =~= prev);
        let e = &other[idx[a]];
        push_char(out, '\n');
        push_str(out, e.0.as_str());
        push_char(out, ':');
        push_char(out, ' ');
        push_json(out, &e.1);
        a = a + 1;
        assert(out@ =~= start + fields_text(next));
    }
    proof {
        assert(r.subrange(0, r.len() as int) =~= r);
        let c = reported_fields(other@);
        assert(is_report_order(other@, c));
        assert(is_report_order(other@, r));
        assert forall|x: (String, JsonValue)| r.contains(x) <==> c.contains(x) by {
            assert(is_report_order(other@, c));
            assert(r.contains(x) <==> (other@.contains(x) && is_reported(x)));
            assert(c.contains(x) <==> (other@.contains(x) && is_reported(x)));
        }
        lemma_key_sorted_unique(r, c);
    }
}

/// Which top-level fields a failure reports: all but the envelope's own
/// `success`, `result` and `result_info`, and all but nulls and empty
/// arrays.
pub proof fn lemma_reported_fields_rule(e: (String, JsonValue))
    ensures
        is_reported(e) <==> (e.0@ != seq!['s', 'u', 'c', 'c', 'e', 's', 's'] && e.0@ != seq![
            'r', 'e', 's', 'u', 'l', 't',
        ] && e.0@ != seq!['r', 'e', 's', 'u', 'l', 't', '_', 'i', 'n', 'f', 'o'] && !(e.1 is Null)
            && !(e.1 matches JsonValue::Array(items) && items@.len() == 0)),
{
    reveal_strlit("success");
    reveal_strlit("result");
    reveal_strlit("result_info");
    assert("success"@ =~= seq!['s', 'u', 'c', 'c', 'e', 's', 's']);
    assert("result"@ =~= seq!['r', 'e', 's', 'u', 'l', 't']);
    assert("result_info"@ =~= seq!['r', 'e', 's', 'u', 'l', 't', '_', 'i', 'n', 'f', 'o']);
}

/// How a failure begins: an invalid response reads as its error text; an
/// API error as `HTTP {status} {reason}` (with `<unknown status code>` where
/// the status has no reason phrase), followed by nothing more when it has no
/// error and no reported field.
pub proof fn lemma_failure_text_shape(f: ApiFailure)
    ensures
        f matches ApiFailure::Invalid(m) ==> failure_text(f) == m@,
        f matches ApiFailure::Error(s, e) ==> failure_text(f).subrange(0, 5) == seq!['H', 'T', 'T', 'P', ' ']
            && failure_text(f).subrange(5, 5 + decimal_text(s as nat).len() as int + 1) == decimal_text(s as nat)
            + seq![' '],
        f matches ApiFailure::Error(s, e) ==> (e.errors@.len() == 0 && reported_fields(e.other@).len() == 0
            ==> failure_text(f) == seq!['H', 'T', 'T', 'P', ' '] + decimal_text(s as nat) + seq![' '] + match status_reason(s) {
            Some(r) => r,
            None => seq![
                '<', 'u', 'n', 'k', 'n', 'o', 'w', 'n', ' ', 's', 't', 'a', 't', 'u', 's', ' ', 'c', 'o',
                'd', 'e', '>',
            ],
        }),
{
    reveal_strlit("HTTP ");
    reveal_strlit("<unknown status code>");
    assert("HTTP "@ =~= seq!['H', 'T', 'T', 'P', ' ']);
    assert("<unknown status code>"@ =~= seq![
        '<', 'u', 'n', 'k', 'n', 'o', 'w', 'n', ' ', 's', 't', 'a', 't', 'u', 's', ' ', 'c', 'o', 'd', 'e', '>',
    ]);
    if let ApiFailure::Error(s, e) = f {
        let t = failure_text(f);
        let d = decimal_text(s as nat);
        let rest = errors_text(e.errors@) + fields_text(reported_fields(e.other@));
        let reason = match status_reason(s) {
            Some(r) => r,
            None => "<unknown status code>"@,
        };
        assert(t =~= seq!['H', 'T', 'T', 'P', ' '] + (d + seq![' '] + reason) + rest);
        assert(t.subrange(0, 5) =~= seq!['H', 'T', 'T', 'P', ' ']);
        assert(t.subrange(5, 5 + d.len() as int + 1) =~= d + seq![' ']);
        if e.errors@.len() == 0 && reported_fields(e.other@).len() == 0 {
            assert(errors_text(e.errors@) == Seq::<char>::empty());
            assert(fields_text(reported_fields(e.other@)) == Seq::<char>::empty());
            assert(t =~= seq!['H', 'T', 'T', 'P', ' '] + d + seq![' '] + reason);
        }
    }
}

} // verus!
