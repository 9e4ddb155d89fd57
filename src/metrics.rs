use crate::number::{number_micros, parse_micros};
use crate::text::chars_of;
use crate::timing::{RawMetrics, MAX_MICROS};
use vstd::prelude::*;

verus! {

/// Why no metrics could be read from a captured response.
#[derive(Clone, Copy, Debug, PartialEq, Eq, Structural)]
pub enum MetricsError {
    /// The text holds no `{` followed, somewhere after it, by a `}`.
    MissingPayload,
    /// The `{...}` slice is not a JSON document with readable times.
    MetricsParseFailure,
}

/// The last index below `n` that holds `c`, or -1.
pub open spec fn last_below(s: Seq<char>, c: char, n: int) -> int
    decreases n,
{
    if n <= 0 {
        -1
    } else if s[n - 1] == c {
        n - 1
    } else {
        last_below(s, c, n - 1)
    }
}

/// The metrics payload of a captured text: from its last `{` through its last `}`.
pub open spec fn payload_of(s: Seq<char>) -> Result<Seq<char>, MetricsError> {
    let i = last_below(s, '{', s.len() as int);
    let j = last_below(s, '}', s.len() as int);
    if i < 0 || j < i {
        Err(MetricsError::MissingPayload)
    } else {
        Ok(s.subrange(i, j + 1))
    }
}

proof fn lemma_last_below(s: Seq<char>, c: char, n: int)
    requires
        0 <= n <= s.len(),
    ensures
        -1 <= last_below(s, c, n) < n,
        last_below(s, c, n) >= 0 ==> s[last_below(s, c, n)] == c,
        forall|k: int| last_below(s, c, n) < k < n ==> s[k] != c,
    decreases n,
{
    if n > 0 && s[n - 1] != c {
        lemma_last_below(s, c, n - 1);
    }
}

proof fn lemma_last_below_is_first(s: Seq<char>, c: char, n: int)
    requires
        0 < n <= s.len(),
        s[0] == c,
        forall|k: int| 0 < k < n ==> s[k] != c,
    ensures
        last_below(s, c, n) == 0,
    decreases n,
{
    if n > 1 {
        lemma_last_below_is_first(s, c, n - 1);
    }
}

/// The last index of `c` in `v`, if any.
fn find_last(v: &Vec<char>, c: char) -> (r: Option<usize>)
    ensures
        r is None <==> last_below(v@, c, v.len() as int) < 0,
        r matches Some(i) ==> i as int == last_below(v@, c, v.len() as int),
{
    let mut n: usize = v.len();
    while n > 0
        invariant
            n <= v.len(),
            last_below(v@, c, v.len() as int) == last_below(v@, c, n as int),
        decreases n,
    {
        if v[n - 1] == c {
            return Some(n - 1);
        }
        n = n - 1;
    }
    None
}

/// Takes the metrics payload out of a captured text: the slice from its last `{`
/// through its last `}`.
pub fn extract_payload(text: &str) -> (r: Result<String, MetricsError>)
    ensures
        r is Ok <==> payload_of(text@) is Ok,
        r matches Ok(p) ==> p@ == payload_of(text@)->Ok_0,
        r matches Err(e) ==> payload_of(text@) == Err::<Seq<char>, MetricsError>(e),
{
    let v = chars_of(text);
    let open = find_last(&v, '{');
    let close = find_last(&v, '}');
    proof {
        lemma_last_below(v@, '{', v.len() as int);
        lemma_last_below(v@, '}', v.len() as int);
    }
    match (open, close) {
        (Some(i), Some(j)) => {
            if j < i {
                Err(MetricsError::MissingPayload)
            } else {
                Ok(String::from_str(text.substring_char(i, j + 1)))
            }
        },
        _ => Err(MetricsError::MissingPayload),
    }
}

/// Taking the payload out of a payload gives it back unchanged.
pub proof fn lemma_payload_idempotent(s: Seq<char>)
    requires
        payload_of(s) is Ok,
    ensures
        payload_of(payload_of(s)->Ok_0) == payload_of(s),
{
    let i = last_below(s, '{', s.len() as int);
    let j = last_below(s, '}', s.len() as int);
    lemma_last_below(s, '{', s.len() as int);
    lemma_last_below(s, '}', s.len() as int);
    let p = s.subrange(i, j + 1);
    assert(p[0] == '{');
    assert forall|k: int| 0 < k < p.len() implies p[k] != '{' by {
        assert(p[k] == s[i + k]);
    }
    lemma_last_below_is_first(p, '{', p.len() as int);
    assert(p[p.len() - 1] == s[j]);
    assert(last_below(p, '}', p.len() as int) == p.len() - 1);
    assert(p.subrange(0, p.len() as int) =~= p);
}

/// Whether a text parses as one JSON document.
pub uninterp spec fn json_accepts(doc: Seq<char>) -> bool;

/// The text of the number that a JSON document's object holds under `key`, if it holds
/// a number there.
pub uninterp spec fn json_number_text(doc: Seq<char>, key: Seq<char>) -> Option<Seq<char>>;

/// Relies on serde_json::from_str: whether the text parses as a `serde_json::Value`
/// depends on the text alone.
#[verifier::external_body]
fn parses_as_json(doc: &str) -> (r: bool)
    ensures
        r == json_accepts(doc@),
{
    serde_json::from_str::<serde_json::Value>(doc).is_ok()
}

/// Relies on serde_json::from_str, Value::get, Value::as_number and the `Display` of
/// serde_json::Number: the decimal text of the number held under `key`, which depends
/// on the document and the key alone.
#[verifier::external_body]
fn number_field(doc: &str, key: &str) -> (r: Option<String>)
    ensures
        r is Some <==> json_number_text(doc@, key@) is Some,
        r matches Some(t) ==> t@ == json_number_text(doc@, key@)->0,
{
    let v = serde_json::from_str::<serde_json::Value>(doc).ok()?;
    Some(v.get(key)?.as_number()?.to_string())
}

pub const KEY_NAMELOOKUP: &'static str = "time_namelookup";

pub const KEY_CONNECT: &'static str = "time_connect";

pub const KEY_APPCONNECT: &'static str = "time_appconnect";

pub const KEY_PRETRANSFER: &'static str = "time_pretransfer";

pub const KEY_STARTTRANSFER: &'static str = "time_starttransfer";

pub const KEY_TOTAL: &'static str = "time_total";

/// A field in microseconds: zero when the document holds no number under the key.
pub open spec fn field_micros(doc: Seq<char>, key: Seq<char>) -> Option<int> {
    match json_number_text(doc, key) {
        None => Some(0),
        Some(t) => number_micros(t),
    }
}

/// The metrics a payload holds: each time read from its field, zero where the field is
/// missing; a payload that is no JSON document, or holds a time that cannot be read, is a
/// parse failure.
pub open spec fn metrics_of(doc: Seq<char>) -> Result<RawMetrics, MetricsError> {
    let n = field_micros(doc, KEY_NAMELOOKUP@);
    let c = field_micros(doc, KEY_CONNECT@);
    let a = field_micros(doc, KEY_APPCONNECT@);
    let p = field_micros(doc, KEY_PRETRANSFER@);
    let s = field_micros(doc, KEY_STARTTRANSFER@);
    let t = field_micros(doc, KEY_TOTAL@);
    if !json_accepts(doc) || n is None || c is None || a is None || p is None || s is None
        || t is None {
        Err(MetricsError::MetricsParseFailure)
    } else {
        Ok(
            RawMetrics {
                namelookup: n->0 as i64,
                connect: c->0 as i64,
                appconnect: a->0 as i64,
                pretransfer: p->0 as i64,
                starttransfer: s->0 as i64,
                total: t->0 as i64,
            },
        )
    }
}

/// The metrics of a captured text: its payload, read as metrics.
pub open spec fn extraction_of(s: Seq<char>) -> Result<RawMetrics, MetricsError> {
    match payload_of(s) {
        Ok(p) => metrics_of(p),
        Err(e) => Err(e),
    }
}

/// Reads one time field, in microseconds.
fn read_field(doc: &str, key: &str) -> (r: Option<i64>)
    ensures
        r is Some <==> field_micros(doc@, key@) is Some,
        r matches Some(v) ==> v == field_micros(doc@, key@)->0,
        r matches Some(v) ==> -MAX_MICROS <= v <= MAX_MICROS,
{
    match number_field(doc, key) {
        None => Some(0),
        Some(t) => parse_micros(t.as_str()),
    }
}

/// Reads the metrics of a payload.
pub fn parse_metrics(doc: &str) -> (r: Result<RawMetrics, MetricsError>)
    ensures
        r == metrics_of(doc@),
        r matches Ok(m) ==> m.wf(),
{
    if !parses_as_json(doc) {
        return Err(MetricsError::MetricsParseFailure);
    }
    let n = read_field(doc, KEY_NAMELOOKUP);
    let c = read_field(doc, KEY_CONNECT);
    let a = read_field(doc, KEY_APPCONNECT);
    let p = read_field(doc, KEY_PRETRANSFER);
    let s = read_field(doc, KEY_STARTTRANSFER);
    let t = read_field(doc, KEY_TOTAL);
    match (n, c, a, p, s, t) {
        (Some(n), Some(c), Some(a), Some(p), Some(s), Some(t)) => Ok(
            RawMetrics {
                namelookup: n,
                connect: c,
                appconnect: a,
                pretransfer: p,
                starttransfer: s,
                total: t,
            },
        ),
        _ => Err(MetricsError::MetricsParseFailure),
    }
}

/// Reads the metrics of a captured text: the payload from its last `{` through its last
/// `}`, read as metrics.
pub fn extract_metrics(text: &str) -> (r: Result<RawMetrics, MetricsError>)
    ensures
        r == extraction_of(text@),
        r matches Ok(m) ==> m.wf(),
{
    match extract_payload(text) {
        Ok(p) => parse_metrics(p.as_str()),
        Err(e) => Err(e),
    }
}

/// A payload without `time_appconnect` still reads, with that time zero, as long as the
/// document parses and the other five times are readable.
pub proof fn lemma_missing_appconnect_is_zero(doc: Seq<char>)
    requires
        json_accepts(doc),
        json_number_text(doc, KEY_APPCONNECT@) is None,
        field_micros(doc, KEY_NAMELOOKUP@) is Some,
        field_micros(doc, KEY_CONNECT@) is Some,
        field_micros(doc, KEY_PRETRANSFER@) is Some,
        field_micros(doc, KEY_STARTTRANSFER@) is Some,
        field_micros(doc, KEY_TOTAL@) is Some,
    ensures
        metrics_of(doc) is Ok,
        metrics_of(doc)->Ok_0.appconnect == 0,
{
}

/// A text without `{`, or without `}`, has no payload.
pub proof fn lemma_no_brace_no_payload(s: Seq<char>)
    requires
        !s.contains('{') || !s.contains('}'),
    ensures
        payload_of(s) == Err::<Seq<char>, MetricsError>(MetricsError::MissingPayload),
        extraction_of(s) == Err::<RawMetrics, MetricsError>(MetricsError::MissingPayload),
{
    lemma_last_below(s, '{', s.len() as int);
    lemma_last_below(s, '}', s.len() as int);
    let i = last_below(s, '{', s.len() as int);
    let j = last_below(s, '}', s.len() as int);
    if i >= 0 {
        assert(s[i] == '{');
    }
    if j >= 0 {
        assert(s[j] == '}');
    }
}

/// Reading the metrics of an extracted payload again gives the same metrics.
pub proof fn lemma_extraction_idempotent(s: Seq<char>)
    requires
        payload_of(s) is Ok,
    ensures
        extraction_of(payload_of(s)->Ok_0) == extraction_of(s),
{
    lemma_payload_idempotent(s);
}

} // verus!
