use httpstat::metrics::{extract_metrics, extract_payload, parse_metrics, MetricsError};
use httpstat::number::parse_micros;
use httpstat::report::{first_excluded_option, timing_report};
use httpstat::timing::{render_diagram, RawMetrics};

const FULL: &str = "HTTP/1.1 200 OK\r\nA: b\r\n\r\n<html>{x}</html>{
    \"time_namelookup\": 0.001,
    \"time_connect\": 0.002,
    \"time_appconnect\": 0.010,
    \"time_pretransfer\": 0.050,
    \"time_redirect\": 0,
    \"time_starttransfer\": 0.080,
    \"time_total\": 0.100,
    \"speed_download\": 1234.0,
    \"remote_ip\": \"127.0.0.1\"
}";

#[test]
fn payload_is_last_brace_slice() {
    assert_eq!(extract_payload("x{a}y{b}z"), Ok("{b}".to_string()));
    assert_eq!(extract_payload("{a{b}c}"), Ok("{b}c}".to_string()));
    assert_eq!(extract_payload("{}"), Ok("{}".to_string()));
}

#[test]
fn payload_missing_without_braces() {
    assert_eq!(extract_payload("no braces at all"), Err(MetricsError::MissingPayload));
    assert_eq!(extract_payload("only } close"), Err(MetricsError::MissingPayload));
    assert_eq!(extract_payload("only { open"), Err(MetricsError::MissingPayload));
    assert_eq!(extract_payload("}{"), Err(MetricsError::MissingPayload));
    assert_eq!(extract_payload(""), Err(MetricsError::MissingPayload));
}

#[test]
fn metrics_of_full_response() {
    let m = extract_metrics(FULL).unwrap();
    assert_eq!(
        m,
        RawMetrics {
            namelookup: 1_000,
            connect: 2_000,
            appconnect: 10_000,
            pretransfer: 50_000,
            starttransfer: 80_000,
            total: 100_000,
        }
    );
}

#[test]
fn missing_appconnect_defaults_to_zero() {
    let text = "{\"time_namelookup\": 0.001, \"time_connect\": 0.002, \"time_pretransfer\": 0.050, \"time_starttransfer\": 0.080, \"time_total\": 0.100}";
    let m = extract_metrics(text).unwrap();
    assert_eq!(m.appconnect, 0);
    assert_eq!(m.total, 100_000);
    let with = extract_metrics(FULL).unwrap();
    assert_eq!(render_diagram(&m), render_diagram(&with));
}

#[test]
fn missing_and_non_numeric_fields_default_to_zero() {
    let m = parse_metrics("{\"time_total\": \"soon\"}").unwrap();
    assert_eq!(m, RawMetrics::zero());
}

#[test]
fn malformed_payload_is_a_parse_failure() {
    assert_eq!(extract_metrics("body {oops}"), Err(MetricsError::MetricsParseFailure));
    assert_eq!(parse_metrics("{\"time_total\": 1e300}"), Err(MetricsError::MetricsParseFailure));
}

#[test]
fn small_times_are_read_through_exponent_form() {
    let m = parse_metrics("{\"time_namelookup\": 0.000023, \"time_total\": 12}").unwrap();
    assert_eq!(m.namelookup, 23);
    assert_eq!(m.total, 12_000_000);
}

#[test]
fn extraction_is_idempotent() {
    let payload = extract_payload(FULL).unwrap();
    assert_eq!(extract_payload(&payload), Ok(payload.clone()));
    assert_eq!(extract_metrics(&payload), extract_metrics(FULL));
}

#[test]
fn no_brace_skips_the_diagram() {
    assert_eq!(timing_report("HTTP/1.1 200 OK\r\n\r\nplain body"), Err(MetricsError::MissingPayload));
    assert_eq!(MetricsError::MissingPayload.message(), "No timing metrics found in the output.");
    assert_eq!(MetricsError::MetricsParseFailure.message(), "Failed to parse timing metrics.");
}

#[test]
fn report_renders_the_diagram() {
    let d = timing_report(FULL).unwrap();
    assert!(d.contains("DNS Lookup"));
    assert!(d.contains("\u{1b}[36m 48ms  \u{1b}[0m"));
    assert!(d.contains("total:\u{1b}[36m100ms  \u{1b}[0m"));
}

#[test]
fn decimal_seconds_to_micros() {
    assert_eq!(parse_micros("0.001"), Some(1_000));
    assert_eq!(parse_micros("12"), Some(12_000_000));
    assert_eq!(parse_micros("2.3e-5"), Some(23));
    assert_eq!(parse_micros("1e+02"), Some(100_000_000));
    assert_eq!(parse_micros("1E2"), Some(100_000_000));
    assert_eq!(parse_micros("-0.5"), Some(-500_000));
    assert_eq!(parse_micros("0.0000019"), Some(1));
    assert_eq!(parse_micros("1e-7"), Some(0));
    assert_eq!(parse_micros("0e2000"), None);
    assert_eq!(parse_micros("abc"), None);
    assert_eq!(parse_micros("1."), None);
    assert_eq!(parse_micros(".5"), None);
    assert_eq!(parse_micros("1e"), None);
    assert_eq!(parse_micros("-"), None);
    assert_eq!(parse_micros(""), None);
    assert_eq!(parse_micros("1000000000"), Some(1_000_000_000_000_000));
    assert_eq!(parse_micros("1000000001"), None);
}

#[test]
fn excluded_options_are_found_in_list_order() {
    let args = vec!["-v".to_string(), "-s".to_string(), "--output".to_string()];
    assert_eq!(first_excluded_option(&args), Some("--output".to_string()));
    let args = vec!["-v".to_string(), "-H".to_string()];
    assert_eq!(first_excluded_option(&args), None);
    let args = vec!["-w".to_string()];
    assert_eq!(first_excluded_option(&args), Some("-w".to_string()));
}
