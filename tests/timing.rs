use httpstat::color::Color;
use httpstat::timing::{format_a, format_b, phases, render_diagram, rounded_millis, RawMetrics};

const CYAN: &str = "\u{1b}[36m";
const RESET: &str = "\u{1b}[0m";

fn scenario() -> RawMetrics {
    RawMetrics {
        namelookup: 1_000,
        connect: 2_000,
        appconnect: 0,
        pretransfer: 50_000,
        starttransfer: 80_000,
        total: 100_000,
    }
}

#[test]
fn phases_of_scenario() {
    let p = phases(&scenario());
    assert_eq!(p.dns, 1_000);
    assert_eq!(p.tcp, 1_000);
    assert_eq!(p.tls, 48_000);
    assert_eq!(p.server, 30_000);
    assert_eq!(p.transfer, 20_000);
    assert_eq!(rounded_millis(p.dns), 1);
    assert_eq!(rounded_millis(p.tls), 48);
    assert_eq!(rounded_millis(p.server), 30);
    assert_eq!(rounded_millis(p.transfer), 20);
    let sum = p.dns + p.tcp + p.tls + p.server + p.transfer;
    assert_eq!(sum, 100_000);
    assert_eq!(rounded_millis(sum), 100);
}

#[test]
fn phases_ignore_appconnect() {
    let mut m = scenario();
    m.appconnect = 40_000;
    assert_eq!(phases(&m), phases(&scenario()));
}

#[test]
fn phases_of_unordered_times_are_negative() {
    let m = RawMetrics {
        namelookup: 5_000,
        connect: 3_000,
        appconnect: 0,
        pretransfer: 3_000,
        starttransfer: 3_000,
        total: 3_000,
    };
    let p = phases(&m);
    assert_eq!(p.tcp, -2_000);
    assert_eq!(format_a(p.tcp), format!("{} -2ms  {}", CYAN, RESET));
}

#[test]
fn rounding_goes_to_even_on_ties() {
    assert_eq!(rounded_millis(499), 0);
    assert_eq!(rounded_millis(500), 0);
    assert_eq!(rounded_millis(501), 1);
    assert_eq!(rounded_millis(1_500), 2);
    assert_eq!(rounded_millis(2_500), 2);
    assert_eq!(rounded_millis(-1_500), -2);
    assert_eq!(rounded_millis(-700), -1);
    assert_eq!(rounded_millis(123_456), 123);
}

#[test]
fn bracket_form_is_centered() {
    assert_eq!(format_a(48_000), format!("{} 48ms  {}", CYAN, RESET));
    assert_eq!(format_a(1_000), format!("{}  1ms  {}", CYAN, RESET));
    assert_eq!(format_a(123_000), format!("{} 123ms {}", CYAN, RESET));
    assert_eq!(format_a(12_345_000), format!("{}12345ms{}", CYAN, RESET));
    assert_eq!(format_a(123_456_000), format!("{}123456ms{}", CYAN, RESET));
}

#[test]
fn label_form_is_left_justified() {
    assert_eq!(format_b(1_000), format!("{}1ms    {}", CYAN, RESET));
    assert_eq!(format_b(100_000), format!("{}100ms  {}", CYAN, RESET));
    assert_eq!(format_b(123_456_000), format!("{}123456ms{}", CYAN, RESET));
}

#[test]
fn both_forms_show_the_same_millis() {
    for us in [0i64, 499, 1_500, 2_500, 48_000, -3_000, 987_654_321] {
        let a = format_a(us);
        let b = format_b(us);
        assert_eq!(a.trim_start_matches(CYAN).trim_end_matches(RESET).trim(), b.trim_start_matches(CYAN).trim_end_matches(RESET).trim());
    }
}

#[test]
fn diagram_of_scenario() {
    let d = render_diagram(&scenario());
    let expected = format!(
        "
            DNS Lookup   TCP Connection   SSL Handshake   Server Processing   Content Transfer
            [ {a0} |     {a1}    |    {a2}    |      {a3}      |      {a4}     ]
                      |                |               |                   |                  |
                namelookup:{b0}     |               |                   |                  |
                                    connect:{b1}    |                   |                  |
                                                pretransfer:{b2}        |                  |
                                                                  starttransfer:{b3}       |
                                                                                          total:{b4}
            ",
        a0 = format!("{}  1ms  {}", CYAN, RESET),
        a1 = format!("{}  1ms  {}", CYAN, RESET),
        a2 = format!("{} 48ms  {}", CYAN, RESET),
        a3 = format!("{} 30ms  {}", CYAN, RESET),
        a4 = format!("{} 20ms  {}", CYAN, RESET),
        b0 = format!("{}1ms    {}", CYAN, RESET),
        b1 = format!("{}2ms    {}", CYAN, RESET),
        b2 = format!("{}50ms   {}", CYAN, RESET),
        b3 = format!("{}80ms   {}", CYAN, RESET),
        b4 = format!("{}100ms  {}", CYAN, RESET),
    );
    assert_eq!(d, expected);
}

#[test]
fn color_codes() {
    assert_eq!(Color::Reset.code(), "\u{1b}[0m");
    assert_eq!(Color::Green.code(), "\u{1b}[32m");
    assert_eq!(Color::Cyan.code(), "\u{1b}[36m");
}

#[test]
fn zero_metrics() {
    let z = RawMetrics::zero();
    let p = phases(&z);
    assert_eq!(p.dns + p.tcp + p.tls + p.server + p.transfer, 0);
}

#[test]
fn small_negative_durations_keep_their_sign() {
    assert_eq!(format_a(-400), format!("{} -0ms  {}", CYAN, RESET));
    assert_eq!(format_b(-400), format!("{}-0ms   {}", CYAN, RESET));
    assert_eq!(format_a(-500), format!("{} -0ms  {}", CYAN, RESET));
    assert_eq!(format_b(-1), format!("{}-0ms   {}", CYAN, RESET));
    assert_eq!(format_a(0), format!("{}  0ms  {}", CYAN, RESET));
    assert_eq!(format_b(-501), format!("{}-1ms   {}", CYAN, RESET));
}
