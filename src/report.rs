use crate::metrics::{extract_metrics, extraction_of, lemma_no_brace_no_payload, MetricsError};
use crate::timing::{diagram_of, render_diagram};
use vstd::prelude::*;

verus! {

/// The options of the transfer tool that a caller may not pass on: they would override
/// the output the timing report is read from.
pub open spec fn excluded_options() -> Seq<Seq<char>> {
    seq!["-w"@, "--write-out"@, "-D"@, "--dump-header"@, "-o"@, "--output"@, "-s"@, "--silent"@]
}

fn excluded_option(k: usize) -> (r: String)
    requires
        k < 8,
    ensures
        r@ == excluded_options()[k as int],
{
    let s: &str = if k == 0 { "-w" } else if k == 1 { "--write-out" } else if k == 2 { "-D" }
        else if k == 3 { "--dump-header" } else if k == 4 { "-o" } else if k == 5 { "--output" }
        else if k == 6 { "-s" } else { "--silent" };
    String::from_str(s)
}

/// The first excluded option, in the order of `excluded_options`, that `args` holds.
pub fn first_excluded_option(args: &Vec<String>) -> (r: Option<String>)
    ensures
        r is None <==> forall|k: int, i: int|
            0 <= k < 8 && 0 <= i < args.len() ==> args@[i]@ != excluded_options()[k],
        r matches Some(o) ==> exists|k: int|
            0 <= k < 8 && o@ == excluded_options()[k] && (exists|i: int|
                0 <= i < args.len() && args@[i]@ == excluded_options()[k]) && forall|k2: int, i: int|
                0 <= k2 < k && 0 <= i < args.len() ==> args@[i]@ != excluded_options()[k2],
{
    let mut k: usize = 0;
    while k < 8
        invariant
            k <= 8,
            forall|k2: int, i: int|
                0 <= k2 < k && 0 <= i < args.len() ==> args@[i]@ != excluded_options()[k2],
        decreases 8 - k,
    {
        let opt = excluded_option(k);
        let mut i: usize = 0;
        while i < args.len()
            invariant
                k < 8,
                i <= args.len(),
                opt@ == excluded_options()[k as int],
                forall|i2: int| 0 <= i2 < i ==> args@[i2]@ != excluded_options()[k as int],
                forall|k2: int, i2: int|
                    0 <= k2 < k && 0 <= i2 < args.len() ==> args@[i2]@ != excluded_options()[k2],
            decreases args.len() - i,
        {
            if args[i] == opt {
                assert(args@[i as int]@ == excluded_options()[k as int]);
                assert(exists|i2: int| 0 <= i2 < args.len() && args@[i2]@ == excluded_options()[k as int]);
                return Some(opt);
            }
            i = i + 1;
        }
        k = k + 1;
    }
    None
}

/// The timing diagram of a captured text, or why there is none.
pub open spec fn timing_report_of(s: Seq<char>) -> Result<Seq<char>, MetricsError> {
    match extraction_of(s) {
        Ok(m) => Ok(diagram_of(m)),
        Err(e) => Err(e),
    }
}

/// Reads the metrics of a captured text and renders their diagram.
pub fn timing_report(text: &str) -> (r: Result<String, MetricsError>)
    ensures
        r is Ok <==> timing_report_of(text@) is Ok,
        r matches Ok(d) ==> d@ == timing_report_of(text@)->Ok_0,
        r matches Err(e) ==> timing_report_of(text@) == Err::<Seq<char>, MetricsError>(e),
{
    match extract_metrics(text) {
        Ok(m) => Ok(render_diagram(&m)),
        Err(e) => Err(e),
    }
}

/// A text without `{`, or without `}`, gets no diagram: the report is `MissingPayload`.
pub proof fn lemma_no_brace_no_diagram(s: Seq<char>)
    requires
        !s.contains('{') || !s.contains('}'),
    ensures
        timing_report_of(s) == Err::<Seq<char>, MetricsError>(MetricsError::MissingPayload),
{
    lemma_no_brace_no_payload(s);
}

impl MetricsError {
    /// The diagnostic printed for this error.
    pub fn message(&self) -> (r: &'static str)
        ensures
            *self == MetricsError::MissingPayload ==> r@ == "No timing metrics found in the output."@,
            *self == MetricsError::MetricsParseFailure ==> r@ == "Failed to parse timing metrics."@,
    {
        match self {
            MetricsError::MissingPayload => "No timing metrics found in the output.",
            MetricsError::MetricsParseFailure => "Failed to parse timing metrics.",
        }
    }
}

} // verus!
