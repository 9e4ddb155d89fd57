use crate::color::{escape_of, Color};
use crate::text::{digits_of, push_decimal, push_spaces, spaces};
use vstd::prelude::*;

verus! {

/// The largest magnitude, in microseconds, that a cumulative time may have.
pub const MAX_MICROS: i64 = 1_000_000_000_000_000;

/// Cumulative times since the request started, in microseconds.
#[derive(Clone, Copy, Debug, PartialEq, Eq, Structural)]
pub struct RawMetrics {
    pub namelookup: i64,
    pub connect: i64,
    pub appconnect: i64,
    pub pretransfer: i64,
    pub starttransfer: i64,
    pub total: i64,
}

/// The five phases of a request, in microseconds.
#[derive(Clone, Copy, Debug, PartialEq, Eq, Structural)]
pub struct PhaseDurations {
    pub dns: i64,
    pub tcp: i64,
    pub tls: i64,
    pub server: i64,
    pub transfer: i64,
}

pub open spec fn within_range(x: int) -> bool {
    -MAX_MICROS <= x <= MAX_MICROS
}

impl RawMetrics {
    /// Every time lies within the supported range.
    pub open spec fn wf(&self) -> bool {
        &&& within_range(self.namelookup as int)
        &&& within_range(self.connect as int)
        &&& within_range(self.appconnect as int)
        &&& within_range(self.pretransfer as int)
        &&& within_range(self.starttransfer as int)
        &&& within_range(self.total as int)
    }

    /// The metrics with every time zero.
    pub fn zero() -> (r: RawMetrics)
        ensures
            r.wf(),
            r == (RawMetrics {
                namelookup: 0,
                connect: 0,
                appconnect: 0,
                pretransfer: 0,
                starttransfer: 0,
                total: 0,
            }),
    {
        RawMetrics { namelookup: 0, connect: 0, appconnect: 0, pretransfer: 0, starttransfer: 0, total: 0 }
    }
}

/// Each phase is the difference of two consecutive cumulative times; the TLS phase
/// runs from `connect` to `pretransfer`, and `appconnect` takes no part.
pub open spec fn phases_of(m: RawMetrics) -> PhaseDurations {
    PhaseDurations {
        dns: m.namelookup,
        tcp: (m.connect - m.namelookup) as i64,
        tls: (m.pretransfer - m.connect) as i64,
        server: (m.starttransfer - m.pretransfer) as i64,
        transfer: (m.total - m.starttransfer) as i64,
    }
}

/// Splits the cumulative times into the five phases.
pub fn phases(m: &RawMetrics) -> (p: PhaseDurations)
    requires
        m.wf(),
    ensures
        p == phases_of(*m),
        p.dns == m.namelookup,
        p.tcp == m.connect - m.namelookup,
        p.tls == m.pretransfer - m.connect,
        p.server == m.starttransfer - m.pretransfer,
        p.transfer == m.total - m.starttransfer,
{
    PhaseDurations {
        dns: m.namelookup,
        tcp: m.connect - m.namelookup,
        tls: m.pretransfer - m.connect,
        server: m.starttransfer - m.pretransfer,
        transfer: m.total - m.starttransfer,
    }
}

/// With ordered cumulative times, no phase is negative and the phases add up to the total.
pub proof fn lemma_phases_partition_total(m: RawMetrics)
    requires
        m.wf(),
        0 <= m.namelookup <= m.connect <= m.pretransfer <= m.starttransfer <= m.total,
    ensures
        phases_of(m).dns >= 0,
        phases_of(m).tcp >= 0,
        phases_of(m).tls >= 0,
        phases_of(m).server >= 0,
        phases_of(m).transfer >= 0,
        phases_of(m).dns + phases_of(m).tcp + phases_of(m).tls + phases_of(m).server
            + phases_of(m).transfer == m.total,
{
}

/// A natural number of microseconds in whole milliseconds, ties to the even neighbour.
pub open spec fn round_half_even(n: nat) -> nat {
    let q = n / 1000;
    let r = n % 1000;
    if r < 500 {
        q
    } else if r > 500 {
        q + 1
    } else if q % 2 == 0 {
        q
    } else {
        q + 1
    }
}

/// Microseconds in whole milliseconds, ties to even; symmetric around zero.
pub open spec fn rounded_ms(us: int) -> int {
    if us >= 0 {
        round_half_even(us as nat) as int
    } else {
        -(round_half_even((-us) as nat) as int)
    }
}

/// The text `<n>ms`, with `n` the rounded milliseconds, and a minus sign whenever the
/// duration is negative, also where it rounds to zero (`-0ms`).
pub open spec fn ms_text(us: int) -> Seq<char> {
    let r = rounded_ms(us);
    let sign = if us < 0 { seq!['-'] } else { Seq::<char>::empty() };
    sign + digits_of(if r < 0 { (-r) as nat } else { r as nat }) + "ms"@
}

/// The width of a rendered duration field.
pub const FIELD_WIDTH: usize = 7;

/// `t` centered in the field; the odd space goes to the right.
pub open spec fn centered(t: Seq<char>) -> Seq<char> {
    if t.len() >= FIELD_WIDTH {
        t
    } else {
        let pad = (FIELD_WIDTH - t.len()) as nat;
        spaces(pad / 2) + t + spaces((pad - pad / 2) as nat)
    }
}

/// `t` left-justified in the field.
pub open spec fn left_justified(t: Seq<char>) -> Seq<char> {
    if t.len() >= FIELD_WIDTH {
        t
    } else {
        t + spaces((FIELD_WIDTH - t.len()) as nat)
    }
}

/// The bracket form of a duration: centered and colored.
pub open spec fn bracket_form(us: int) -> Seq<char> {
    escape_of(Color::Cyan) + centered(ms_text(us)) + escape_of(Color::Reset)
}

/// The label form of a duration: left-justified and colored.
pub open spec fn label_form(us: int) -> Seq<char> {
    escape_of(Color::Cyan) + left_justified(ms_text(us)) + escape_of(Color::Reset)
}

/// Both forms of one duration show the same millisecond text; they differ only in
/// the spaces around it.
pub proof fn lemma_forms_show_same_millis(us: int)
    ensures
        exists|a: nat, b: nat|
            bracket_form(us) == escape_of(Color::Cyan) + spaces(a) + ms_text(us) + spaces(b)
                + escape_of(Color::Reset),
        exists|c: nat|
            label_form(us) == escape_of(Color::Cyan) + ms_text(us) + spaces(c) + escape_of(
                Color::Reset,
            ),
        bracket_form(us).len() == label_form(us).len(),
{
    let t = ms_text(us);
    if t.len() >= FIELD_WIDTH {
        assert(spaces(0) + t + spaces(0) =~= t);
        assert(bracket_form(us) == escape_of(Color::Cyan) + spaces(0) + t + spaces(0)
            + escape_of(Color::Reset));
        assert(t + spaces(0) =~= t);
        assert(label_form(us) == escape_of(Color::Cyan) + t + spaces(0) + escape_of(Color::Reset));
    } else {
        let pad = (FIELD_WIDTH - t.len()) as nat;
        assert(bracket_form(us) == escape_of(Color::Cyan) + spaces(pad / 2) + t + spaces(
            (pad - pad / 2) as nat,
        ) + escape_of(Color::Reset));
        assert(label_form(us) == escape_of(Color::Cyan) + t + spaces(pad) + escape_of(Color::Reset));
    }
}

/// The largest magnitude a duration may have: the difference of two times in range.
pub const MAX_SPAN: i64 = 2_000_000_000_000_000;

/// Rounds microseconds to whole milliseconds, ties to even.
pub fn rounded_millis(us: i64) -> (r: i64)
    requires
        -MAX_SPAN <= us <= MAX_SPAN,
    ensures
        r == rounded_ms(us as int),
{
    let neg = us < 0;
    let m: u64 = if neg { (-us) as u64 } else { us as u64 };
    let q: u64 = m / 1000;
    let rem: u64 = m % 1000;
    let k: u64 = if rem < 500 {
        q
    } else if rem > 500 {
        q + 1
    } else if q % 2 == 0 {
        q
    } else {
        q + 1
    };
    assert(k == round_half_even(m as nat));
    if neg {
        -(k as i64)
    } else {
        k as i64
    }
}

/// Appends the millisecond text of a duration.
pub fn push_ms_text(out: &mut String, us: i64)
    requires
        -MAX_SPAN <= us <= MAX_SPAN,
    ensures
        final(out)@ == old(out)@ + ms_text(us as int),
{
    let r = rounded_millis(us);
    let ghost start = out@;
    if us < 0 {
        proof { reveal_strlit("-"); }
        out.append("-");
        push_decimal(out, (-r) as u64);
    } else {
        push_decimal(out, r as u64);
    }
    proof { reveal_strlit("ms"); }
    out.append("ms");
    assert(out@ =~= start + ms_text(us as int));
}

/// The bracket form of a duration.
pub fn format_a(us: i64) -> (r: String)
    requires
        -MAX_SPAN <= us <= MAX_SPAN,
    ensures
        r@ == bracket_form(us as int),
{
    let mut t = String::new();
    push_ms_text(&mut t, us);
    let len = t.as_str().unicode_len();
    let mut r = String::from_str(Color::Cyan.code());
    if len >= FIELD_WIDTH {
        r.append(t.as_str());
    } else {
        let pad: usize = FIELD_WIDTH - len;
        push_spaces(&mut r, pad / 2);
        r.append(t.as_str());
        push_spaces(&mut r, pad - pad / 2);
    }
    r.append(Color::Reset.code());
    assert(r@ =~= bracket_form(us as int));
    r
}

/// The label form of a duration.
pub fn format_b(us: i64) -> (r: String)
    requires
        -MAX_SPAN <= us <= MAX_SPAN,
    ensures
        r@ == label_form(us as int),
{
    let mut t = String::new();
    push_ms_text(&mut t, us);
    let len = t.as_str().unicode_len();
    let mut r = String::from_str(Color::Cyan.code());
    r.append(t.as_str());
    if len < FIELD_WIDTH {
        push_spaces(&mut r, FIELD_WIDTH - len);
    }
    r.append(Color::Reset.code());
    assert(r@ =~= label_form(us as int));
    r
}

pub const ROW_PIECE_0: &'static str = "\n            DNS Lookup   TCP Connection   SSL Handshake   Server Processing   Content Transfer\n            [ ";
pub const ROW_PIECE_1: &'static str = " |     ";
pub const ROW_PIECE_2: &'static str = "    |    ";
pub const ROW_PIECE_3: &'static str = "    |      ";
pub const ROW_PIECE_4: &'static str = "      |      ";
pub const ROW_PIECE_5: &'static str = "     ]\n                      |                |               |                   |                  |\n                namelookup:";
pub const ROW_PIECE_6: &'static str = "     |               |                   |                  |\n                                    connect:";
pub const ROW_PIECE_7: &'static str = "    |                   |                  |\n                                                pretransfer:";
pub const ROW_PIECE_8: &'static str = "        |                  |\n                                                                  starttransfer:";
pub const ROW_PIECE_9: &'static str = "       |\n                                                                                          total:";
pub const ROW_PIECE_10: &'static str = "\n            ";

/// The phase diagram: column titles, a bracket row with each phase's duration, and a
/// staircase of cumulative labels under the bracket boundaries.
pub open spec fn diagram_of(m: RawMetrics) -> Seq<char> {
    let p = phases_of(m);
    ROW_PIECE_0@ + bracket_form(p.dns as int) + ROW_PIECE_1@ + bracket_form(p.tcp as int)
        + ROW_PIECE_2@ + bracket_form(p.tls as int) + ROW_PIECE_3@ + bracket_form(p.server as int)
        + ROW_PIECE_4@ + bracket_form(p.transfer as int) + ROW_PIECE_5@ + label_form(
        m.namelookup as int,
    ) + ROW_PIECE_6@ + label_form(m.connect as int) + ROW_PIECE_7@ + label_form(
        m.pretransfer as int,
    ) + ROW_PIECE_8@ + label_form(m.starttransfer as int) + ROW_PIECE_9@ + label_form(
        m.total as int,
    ) + ROW_PIECE_10@
}

/// The phases and the diagram do not depend on `appconnect`.
pub proof fn lemma_appconnect_unused(m1: RawMetrics, m2: RawMetrics)
    requires
        m1.namelookup == m2.namelookup,
        m1.connect == m2.connect,
        m1.pretransfer == m2.pretransfer,
        m1.starttransfer == m2.starttransfer,
        m1.total == m2.total,
    ensures
        phases_of(m1) == phases_of(m2),
        diagram_of(m1) == diagram_of(m2),
{
}

/// Renders the phase diagram of a set of cumulative times.
pub fn render_diagram(m: &RawMetrics) -> (r: String)
    requires
        m.wf(),
    ensures
        r@ == diagram_of(*m),
{
    let p = phases(m);
    let mut r = String::from_str(ROW_PIECE_0);
    r.append(format_a(p.dns).as_str());
    r.append(ROW_PIECE_1);
    r.append(format_a(p.tcp).as_str());
    r.append(ROW_PIECE_2);
    r.append(format_a(p.tls).as_str());
    r.append(ROW_PIECE_3);
    r.append(format_a(p.server).as_str());
    r.append(ROW_PIECE_4);
    r.append(format_a(p.transfer).as_str());
    r.append(ROW_PIECE_5);
    r.append(format_b(m.namelookup).as_str());
    r.append(ROW_PIECE_6);
    r.append(format_b(m.connect).as_str());
    r.append(ROW_PIECE_7);
    r.append(format_b(m.pretransfer).as_str());
    r.append(ROW_PIECE_8);
    r.append(format_b(m.starttransfer).as_str());
    r.append(ROW_PIECE_9);
    r.append(format_b(m.total).as_str());
    r.append(ROW_PIECE_10);
    r
}

} // verus!
