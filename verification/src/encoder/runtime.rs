//! Runtime validation of hardware encoders: whether a short test encode
//! with each encoder succeeded, and which encoders are kept.
use vstd::prelude::*;
use crate::encoder::HwEncoder;
use crate::text::{chars_of, contains, contains_str, lines, lines_of, strings_view, to_lowercase, unicode_lowercase};

verus! {

/// Whether runtime validation runs; it is off until switched on.
#[derive(Debug, Clone, Copy)]
pub struct L4Settings {
    pub enabled: bool,
}

impl L4Settings {
    /// Runtime validation switched off.
    pub fn new() -> (s: L4Settings)
        ensures
            !s.enabled,
    {
        L4Settings { enabled: false }
    }
}

/// Switch runtime validation on or off.
pub fn set_l4_enabled(settings: &mut L4Settings, enabled: bool)
    ensures
        final(settings).enabled == enabled,
{
    settings.enabled = enabled;
}

/// Whether runtime validation is switched on.
pub fn is_l4_enabled(settings: &L4Settings) -> (r: bool)
    ensures
        r == settings.enabled,
{
    settings.enabled
}

/// Longest time one validation run may take, in seconds.
pub const VALIDATION_TIMEOUT_SECS: u64 = 10;

/// The arguments of the test encode:
/// `ffmpeg -f lavfi -i testsrc -t 1 -c:v <encoder> -f null - -nostdin`.
pub open spec fn validation_args_spec(encoder_name: Seq<char>) -> Seq<Seq<char>> {
    seq![
        "-f"@,
        "lavfi"@,
        "-i"@,
        "testsrc"@,
        "-t"@,
        "1"@,
        "-c:v"@,
        encoder_name,
        "-f"@,
        "null"@,
        "-"@,
        "-nostdin"@,
    ]
}

/// Arguments to FFmpeg for a one-second test encode with the encoder.
pub fn validation_args(encoder_name: &str) -> (r: Vec<String>)
    ensures
        strings_view(r@) == validation_args_spec(encoder_name@),
{
    let r = vec![
        "-f".to_owned(),
        "lavfi".to_owned(),
        "-i".to_owned(),
        "testsrc".to_owned(),
        "-t".to_owned(),
        "1".to_owned(),
        "-c:v".to_owned(),
        encoder_name.to_owned(),
        "-f".to_owned(),
        "null".to_owned(),
        "-".to_owned(),
        "-nostdin".to_owned(),
    ];
    assert(strings_view(r@) =~= validation_args_spec(encoder_name@));
    r
}

/// Some word in the lower-cased error output hints at a failure.
pub open spec fn mentions_failure(lower: Seq<char>) -> bool {
    ||| contains(lower, "error"@)
    ||| contains(lower, "failed"@)
    ||| contains(lower, "cannot initialize"@)
    ||| contains(lower, "not found"@)
    ||| contains(lower, "unsupported"@)
}

/// A lower-cased line reports an error that is no mere warning.
pub open spec fn is_fatal_line(lower: Seq<char>) -> bool {
    (contains(lower, "error"@) || contains(lower, "failed"@)) && !contains(lower, "warning"@)
        && !contains(lower, "deprecated"@)
}

/// The error output reports a fatal error, given the whole output and each
/// of its lines in lower case.
pub open spec fn reports_fatal_error(lower: Seq<char>, lower_lines: Seq<Seq<char>>) -> bool {
    mentions_failure(lower) && exists|i: int| 0 <= i < lower_lines.len() && is_fatal_line(#[trigger] lower_lines[i])
}

fn mentions_failure_exec(lower: &[char]) -> (r: bool)
    ensures
        r == mentions_failure(lower@),
{
    contains_str(lower, "error") || contains_str(lower, "failed") || contains_str(lower, "cannot initialize")
        || contains_str(lower, "not found") || contains_str(lower, "unsupported")
}

fn is_fatal_line_exec(lower: &[char]) -> (r: bool)
    ensures
        r == is_fatal_line(lower@),
{
    (contains_str(lower, "error") || contains_str(lower, "failed")) && !contains_str(lower, "warning")
        && !contains_str(lower, "deprecated")
}

/// Whether the error output of a test encode reports a fatal error, given
/// that output in lower case and each of its lines in lower case.
pub fn stderr_reports_fatal_error(lower: &str, lower_lines: &[String]) -> (r: bool)
    ensures
        r == reports_fatal_error(lower@, strings_view(lower_lines@)),
{
    let lv = chars_of(lower);
    if !mentions_failure_exec(&lv) {
        return false;
    }
    let mut i: usize = 0;
    while i < lower_lines.len()
        invariant
            i <= lower_lines@.len(),
            mentions_failure(lower@),
            forall|j: int| 0 <= j < i ==> !is_fatal_line(#[trigger] strings_view(lower_lines@)[j]),
        decreases lower_lines.len() - i,
    {
        let l = chars_of(lower_lines[i].as_str());
        if is_fatal_line_exec(&l) {
            assert(strings_view(lower_lines@)[i as int] == l@);
            assert(is_fatal_line(strings_view(lower_lines@)[i as int]));
            return true;
        }
        i += 1;
    }
    false
}

/// The lines of `s`, each lower-cased.
pub open spec fn lowered_lines(s: Seq<char>) -> Seq<Seq<char>> {
    lines(s).map_values(|l: Seq<char>| unicode_lowercase(l))
}

/// The test encode succeeded: FFmpeg exited with success and its error
/// output reports no fatal error.
pub open spec fn runtime_output_ok_spec(exit_success: bool, stderr: Seq<char>) -> bool {
    exit_success && !reports_fatal_error(unicode_lowercase(stderr), lowered_lines(stderr))
}

/// Judge a finished test encode by its exit status and its error output.
pub fn runtime_output_ok(exit_success: bool, stderr: &str) -> (r: bool)
    ensures
        r == runtime_output_ok_spec(exit_success, stderr@),
{
    if !exit_success {
        return false;
    }
    let lower = to_lowercase(stderr);
    let ls = lines_of(stderr);
    let mut lowered: Vec<String> = Vec::new();
    let mut i: usize = 0;
    while i < ls.len()
        invariant
            i <= ls@.len(),
            strings_view(ls@) == lines(stderr@),
            strings_view(lowered@) == lowered_lines(stderr@).take(i as int),
        decreases ls.len() - i,
    {
        let l = to_lowercase(ls[i].as_str());
        assert(strings_view(ls@)[i as int] == ls@[i as int]@);
        assert(lowered_lines(stderr@)[i as int] == unicode_lowercase(lines(stderr@)[i as int]));
        let ghost before = lowered@;
        lowered.push(l);
        assert(strings_view(lowered@) =~= strings_view(before).push(l@));
        assert(strings_view(lowered@) =~= lowered_lines(stderr@).take(i + 1));
        i += 1;
    }
    assert(lowered_lines(stderr@).take(ls@.len() as int) =~= lowered_lines(stderr@));
    !stderr_reports_fatal_error(lower.as_str(), &lowered)
}

/// Whether the encoder at position `i` passed its test (an absent result
/// counts as a failure).
pub open spec fn passed_at(passed: Seq<bool>, i: int) -> bool {
    0 <= i < passed.len() && passed[i]
}

/// The encoders that passed, in order.
pub open spec fn kept_passed(s: Seq<HwEncoder>, passed: Seq<bool>) -> Seq<HwEncoder>
    decreases s.len(),
{
    if s.len() == 0 {
        seq![]
    } else {
        let k = kept_passed(s.drop_last(), passed);
        if passed_at(passed, s.len() - 1) {
            k.push(s.last())
        } else {
            k
        }
    }
}

/// The encoders kept after validation: all of them when validation is off,
/// else only those that passed (possibly none).
pub open spec fn validated_spec(enabled: bool, s: Seq<HwEncoder>, passed: Seq<bool>) -> Seq<HwEncoder> {
    if !enabled {
        s
    } else {
        kept_passed(s, passed)
    }
}

/// The encoders that passed are among the encoders, and no more of them.
pub proof fn lemma_kept_passed_within(s: Seq<HwEncoder>, passed: Seq<bool>)
    ensures
        kept_passed(s, passed).len() <= s.len(),
        forall|i: int| 0 <= i < kept_passed(s, passed).len() ==> s.contains(#[trigger] kept_passed(s, passed)[i]),
    decreases s.len(),
{
    if s.len() > 0 {
        let p = s.drop_last();
        lemma_kept_passed_within(p, passed);
        let k = kept_passed(p, passed);
        assert forall|i: int| 0 <= i < kept_passed(s, passed).len() implies s.contains(
            #[trigger] kept_passed(s, passed)[i],
        ) by {
            if i < k.len() {
                let j = choose|j: int| 0 <= j < p.len() && p[j] == k[i];
                assert(s[j] == p[j]);
            } else {
                assert(s[s.len() - 1] == s.last());
            }
        }
    }
}

/// A copy of a list of encoders.
pub fn copy_encoders(encoders: &[HwEncoder]) -> (r: Vec<HwEncoder>)
    ensures
        r@ == encoders@,
{
    let mut out: Vec<HwEncoder> = Vec::new();
    let mut i: usize = 0;
    while i < encoders.len()
        invariant
            i <= encoders@.len(),
            out@ == encoders@.take(i as int),
        decreases encoders.len() - i,
    {
        out.push(encoders[i].duplicate());
        assert(out@ =~= encoders@.take(i + 1));
        i += 1;
    }
    assert(encoders@.take(encoders@.len() as int) =~= encoders@);
    out
}

/// Keep the encoders whose test passed (`passed[i]` is the result for
/// `encoders[i]`), in order; when validation is off, all encoders are kept.
pub fn validate_encoders_runtime(settings: &L4Settings, encoders: &[HwEncoder], passed: &[bool]) -> (r:
    Vec<HwEncoder>)
    ensures
        r@ == validated_spec(settings.enabled, encoders@, passed@),
        forall|i: int| 0 <= i < r@.len() ==> encoders@.contains(#[trigger] r@[i]),
{
    proof {
        lemma_kept_passed_within(encoders@, passed@);
    }
    if !is_l4_enabled(settings) {
        return copy_encoders(encoders);
    }
    let mut valid: Vec<HwEncoder> = Vec::new();
    let mut i: usize = 0;
    while i < encoders.len()
        invariant
            i <= encoders@.len(),
            valid@ == kept_passed(encoders@.take(i as int), passed@),
        decreases encoders.len() - i,
    {
        assert(encoders@.take(i + 1).drop_last() =~= encoders@.take(i as int));
        if i < passed.len() && passed[i] {
            valid.push(encoders[i].duplicate());
        }
        i += 1;
    }
    assert(encoders@.take(encoders@.len() as int) =~= encoders@);
    valid
}

} // verus!
