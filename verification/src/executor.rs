//! Deciding whether a process may run, and what its output proves.

use vstd::prelude::*;
use vstd::utf8::*;

use crate::effect_policy::{
    authorize_outcome, grants_stay_within_every_boundary, lease_after, within_bounds,
    CapabilityLease, InvocationEnvelope, LeaseGrant, LeaseModel, PolicyError,
};
use crate::text::{
    contains_part, decimal, decimal_text, has_part, joined, optional_text, same_text,
    signed_decimal, signed_decimal_text, wide_decimal,
};

verus! {

/// The capability that runs a structured process.
pub const DEVICE_PROCESS_RUN: &'static str = "device.process.run";

/// The only device that processes run on.
pub const LOCAL_DEVICE: &'static str = "local";

/// A program and its arguments.
#[derive(Debug)]
pub struct DeviceProcessArgs {
    pub program: String,
    pub args: Vec<String>,
}

/// What a finished process proves.
#[derive(Debug, Clone, Copy)]
pub struct ProcessEvidence {
    pub exit_code: Option<i32>,
    pub expected_output_matched: Option<bool>,
    pub verified: bool,
}

/// An invocation that does not run.
#[derive(Debug, PartialEq, Eq)]
pub enum ExecutorError {
    UnsupportedCapability(String),
    UnsupportedDevice(String),
    InvalidArguments,
    Policy(PolicyError),
}

/// The result of admitting an invocation: the capability, the device, the
/// arguments and the lease decide, in that order.
pub open spec fn admission_outcome(
    lease: LeaseModel,
    envelope: InvocationEnvelope,
    process: Option<DeviceProcessArgs>,
    now_ms: i64,
    effect_permitted: bool,
    r: Result<DeviceProcessArgs, ExecutorError>,
) -> bool {
    if envelope.capability_id@ != DEVICE_PROCESS_RUN@ {
        &&& r is Err
        &&& r->Err_0 is UnsupportedCapability
        &&& r->Err_0->UnsupportedCapability_0@ == envelope.capability_id@
    } else if envelope.device_id@ != LOCAL_DEVICE@ {
        &&& r is Err
        &&& r->Err_0 is UnsupportedDevice
        &&& r->Err_0->UnsupportedDevice_0@ == envelope.device_id@
    } else {
        match process {
            None => r is Err && r->Err_0 is InvalidArguments,
            Some(p) => if within_bounds(
                lease,
                envelope,
                p.program@,
                now_ms,
                effect_permitted,
            ) {
                r == Ok::<DeviceProcessArgs, ExecutorError>(p)
            } else {
                &&& r is Err
                &&& r->Err_0 is Policy
                &&& authorize_outcome(
                    lease,
                    envelope,
                    p.program@,
                    now_ms,
                    effect_permitted,
                    Err(r->Err_0->Policy_0),
                )
            },
        }
    }
}

/// Decides whether an invocation may run, and consumes one call of the lease if
/// it may. `process` holds the invocation's arguments, where they could be read,
/// and `effect_permitted` whether the lease's ceiling permits the claimed class.
pub fn admit_process(
    envelope: &InvocationEnvelope,
    process: Option<DeviceProcessArgs>,
    lease: &mut CapabilityLease,
    now_ms: i64,
    effect_permitted: bool,
) -> (r: Result<DeviceProcessArgs, ExecutorError>)
    ensures
        admission_outcome(old(lease)@, *envelope, process, now_ms, effect_permitted, r),
        r is Ok ==> final(lease)@ == (LeaseModel {
            calls_used: (old(lease)@.calls_used + 1) as u32,
            ..old(lease)@
        }),
        r is Err ==> final(lease)@ == old(lease)@,
        lease_after(old(lease)@, final(lease)@, r is Ok),
{
    if !same_text(&envelope.capability_id, DEVICE_PROCESS_RUN) {
        return Err(ExecutorError::UnsupportedCapability(envelope.capability_id.clone()));
    }
    if !same_text(&envelope.device_id, LOCAL_DEVICE) {
        return Err(ExecutorError::UnsupportedDevice(envelope.device_id.clone()));
    }
    let process = match process {
        Some(p) => p,
        None => {
            return Err(ExecutorError::InvalidArguments);
        },
    };
    match lease.authorize(envelope, &process.program, now_ms, effect_permitted) {
        Ok(_) => Ok(process),
        Err(e) => Err(ExecutorError::Policy(e)),
    }
}

/// A program that the lease does not allow never runs.
pub proof fn programs_outside_the_lease_never_run(
    lease: LeaseModel,
    envelope: InvocationEnvelope,
    process: DeviceProcessArgs,
    now_ms: i64,
    effect_permitted: bool,
    r: Result<DeviceProcessArgs, ExecutorError>,
)
    requires
        admission_outcome(lease, envelope, Some(process), now_ms, effect_permitted, r),
        !lease.allowed_programs.contains(process.program@),
    ensures
        r is Err,
{
}

/// A process runs exactly where the invocation asks for the process capability of
/// the local device with readable arguments and the lease grants its program; it
/// runs with those arguments. Every refusal by the lease is the lease's own.
pub proof fn processes_run_as_the_lease_grants(
    lease: LeaseModel,
    envelope: InvocationEnvelope,
    process: Option<DeviceProcessArgs>,
    now_ms: i64,
    effect_permitted: bool,
    r: Result<DeviceProcessArgs, ExecutorError>,
    grant: Result<LeaseGrant, PolicyError>,
)
    requires
        admission_outcome(lease, envelope, process, now_ms, effect_permitted, r),
        process is Some ==> authorize_outcome(
            lease,
            envelope,
            process->0.program@,
            now_ms,
            effect_permitted,
            grant,
        ),
    ensures
        r is Ok ==> envelope.capability_id@ == "device.process.run"@ && envelope.device_id@
            == "local"@ && process is Some && r->Ok_0 == process->0 && grant is Ok,
        envelope.capability_id@ == "device.process.run"@ && envelope.device_id@ == "local"@
            && process is Some && grant is Ok ==> r is Ok,
        envelope.capability_id@ != "device.process.run"@ <==> r is Err
            && r->Err_0 is UnsupportedCapability,
        envelope.capability_id@ == "device.process.run"@ && envelope.device_id@ != "local"@
            <==> r is Err && r->Err_0 is UnsupportedDevice,
        r is Err && r->Err_0 is InvalidArguments ==> process is None,
        r is Err && r->Err_0 is Policy ==> process is Some && grant is Err && authorize_outcome(
            lease,
            envelope,
            process->0.program@,
            now_ms,
            effect_permitted,
            Err(r->Err_0->Policy_0),
        ),
        r is Err && r->Err_0 is UnsupportedCapability ==> r->Err_0->UnsupportedCapability_0@
            == envelope.capability_id@,
        r is Err && r->Err_0 is UnsupportedDevice ==> r->Err_0->UnsupportedDevice_0@
            == envelope.device_id@,
{
    if let Some(p) = process {
        grants_stay_within_every_boundary(
            lease,
            envelope,
            p.program@,
            now_ms,
            effect_permitted,
            0,
            grant,
        );
    }
}

/// What `String::from_utf8_lossy` gives.
pub uninterp spec fn lossy_text(bytes: Seq<u8>) -> Seq<char>;

/// `String::from_utf8_lossy`: the text of the bytes, which depends on the bytes
/// alone. Valid UTF-8 is decoded as it stands; invalid sequences are replaced.
#[verifier::external_body]
fn from_utf8_lossy(bytes: &[u8]) -> (s: String)
    ensures
        s@ == lossy_text(bytes@),
        valid_utf8(bytes@) ==> s@ == decode_utf8(bytes@),
{
    String::from_utf8_lossy(bytes).into_owned()
}

/// What becomes of the output of a process.
#[derive(Debug)]
pub enum OutputPlan {
    /// There is none.
    Nothing,
    /// It is short enough to be handed on.
    Inline(String),
    /// It is kept as an artifact.
    Artifact,
}

/// Decides what becomes of the output of a process.
pub fn plan_output(output: &Vec<u8>, inline_limit: usize) -> (r: OutputPlan)
    ensures
        if output@.len() == 0 {
            r is Nothing
        } else if output@.len() <= inline_limit {
            r is Inline && r->Inline_0@ == lossy_text(output@)
        } else {
            r is Artifact
        },
{
    if output.len() == 0 {
        return OutputPlan::Nothing;
    }
    if output.len() <= inline_limit {
        return OutputPlan::Inline(from_utf8_lossy(output.as_slice()));
    }
    OutputPlan::Artifact
}

/// The text of an output that is handed on.
pub open spec fn inline_text(output: Seq<u8>, inline_limit: usize) -> Option<Seq<char>> {
    if 0 < output.len() <= inline_limit {
        Some(lossy_text(output))
    } else {
        None
    }
}

/// The output and the artifact stand for what a process wrote.
pub open spec fn output_projected(
    output: Seq<u8>,
    inline_limit: usize,
    artifact: Option<String>,
    r: (Option<String>, Option<String>),
) -> bool {
    &&& optional_text(r.0) == inline_text(output, inline_limit)
    &&& r.1 == if output.len() > inline_limit && output.len() > 0 {
        artifact
    } else {
        None::<String>
    }
}

/// No output is dropped and none is handed on twice: an empty one gives nothing,
/// one of at most the limit is handed on as its text, and a longer one is the
/// artifact it was kept as.
pub proof fn outputs_are_handed_on_once(
    output: Seq<u8>,
    inline_limit: usize,
    artifact: Option<String>,
    r: (Option<String>, Option<String>),
)
    requires
        output_projected(output, inline_limit, artifact, r),
    ensures
        output.len() == 0 ==> r.0 is None && r.1 is None,
        1 <= output.len() <= inline_limit ==> r.0 is Some && r.0->0@ == lossy_text(output)
            && r.1 is None,
        output.len() > inline_limit ==> r.0 is None,
        output.len() > inline_limit && output.len() > 0 ==> r.1 == artifact,
{
}

/// The output and the artifact that stand for what a process wrote. `artifact`
/// is the reference under which a long output was kept.
pub fn project_output(output: &Vec<u8>, inline_limit: usize, artifact: Option<String>) -> (r: (
    Option<String>,
    Option<String>,
))
    ensures
        optional_text(r.0) == inline_text(output@, inline_limit),
        r.1 == if output@.len() > inline_limit && output@.len() > 0 {
            artifact
        } else {
            None::<String>
        },
        output_projected(output@, inline_limit, artifact, r),
{
    match plan_output(output, inline_limit) {
        OutputPlan::Nothing => (None, None),
        OutputPlan::Inline(text) => (Some(text), None),
        OutputPlan::Artifact => (None, artifact),
    }
}

/// Whether the expected text occurs in either output, where one is expected.
pub open spec fn expectation_met(
    expected: Option<Seq<char>>,
    stdout: Seq<char>,
    stderr: Seq<char>,
) -> Option<bool> {
    match expected {
        Some(text) => Some(contains_part(stdout, text) || contains_part(stderr, text)),
        None => None,
    }
}

/// The evidence is what the outcome of a process and its outputs prove.
pub open spec fn evidence_weighed(
    success: bool,
    exit_code: Option<i32>,
    expected: Option<Seq<char>>,
    stdout: Seq<char>,
    stderr: Seq<char>,
    r: ProcessEvidence,
) -> bool {
    &&& r.exit_code == exit_code
    &&& r.expected_output_matched == expectation_met(expected, stdout, stderr)
    &&& r.verified == (success && r.expected_output_matched != Some(false))
}

/// A process is verified exactly where it succeeded and each text that was
/// expected of it stands somewhere in one of its outputs. What was not asked for
/// is neither matched nor missed.
pub proof fn verified_processes_showed_what_was_expected(
    success: bool,
    exit_code: Option<i32>,
    expected: Option<Seq<char>>,
    stdout: Seq<char>,
    stderr: Seq<char>,
    before: Seq<char>,
    after: Seq<char>,
    r: ProcessEvidence,
)
    requires
        evidence_weighed(success, exit_code, expected, stdout, stderr, r),
    ensures
        r.exit_code == exit_code,
        !success ==> !r.verified,
        expected is None ==> r.verified == success && r.expected_output_matched is None,
        expected is Some && (stdout == before + expected->0 + after || stderr == before
            + expected->0 + after) ==> r.verified == success && r.expected_output_matched == Some(
            true,
        ),
        expected is Some && r.verified ==> (exists|i: int|
            #![trigger stdout.subrange(i, i + expected->0.len())]
            0 <= i <= stdout.len() - expected->0.len() && stdout.subrange(
                i,
                i + expected->0.len(),
            ) == expected->0) || (exists|i: int|
            #![trigger stderr.subrange(i, i + expected->0.len())]
            0 <= i <= stderr.len() - expected->0.len() && stderr.subrange(
                i,
                i + expected->0.len(),
            ) == expected->0),
        expected is Some ==> r.verified == (success && r.expected_output_matched == Some(true)),
{
    if let Some(t) = expected {
        let whole = before + t + after;
        let at = before.len() as int;
        assert(whole.subrange(at, at + t.len()) =~= t);
        if stdout == whole {
            assert(contains_part(stdout, t));
        }
        if stderr == whole {
            assert(contains_part(stderr, t));
        }
    }
}

/// What the outcome of a process proves: it is verified where the process
/// succeeded and nothing expected is missing.
pub fn weigh_evidence(
    success: bool,
    exit_code: Option<i32>,
    expected: &Option<String>,
    stdout: &str,
    stderr: &str,
) -> (r: ProcessEvidence)
    ensures
        r.exit_code == exit_code,
        r.expected_output_matched == expectation_met(optional_text(*expected), stdout@, stderr@),
        r.verified == (success && r.expected_output_matched != Some(false)),
        evidence_weighed(success, exit_code, optional_text(*expected), stdout@, stderr@, r),
{
    let matched: Option<bool> = match expected {
        Some(text) => Some(has_part(stdout, text) || has_part(stderr, text)),
        None => None,
    };
    let met = match matched {
        Some(b) => b,
        None => true,
    };
    ProcessEvidence { exit_code, expected_output_matched: matched, verified: success && met }
}

/// What the outcome of a process and its raw outputs prove.
pub fn process_evidence(
    success: bool,
    exit_code: Option<i32>,
    expected: &Option<String>,
    stdout: &Vec<u8>,
    stderr: &Vec<u8>,
) -> (r: ProcessEvidence)
    ensures
        r.exit_code == exit_code,
        r.expected_output_matched == expectation_met(
            optional_text(*expected),
            lossy_text(stdout@),
            lossy_text(stderr@),
        ),
        r.verified == (success && r.expected_output_matched != Some(false)),
{
    weigh_evidence(
        success,
        exit_code,
        expected,
        &from_utf8_lossy(stdout.as_slice()),
        &from_utf8_lossy(stderr.as_slice()),
    )
}

/// How a process ended.
pub open spec fn exit_text(exit_code: Option<i32>) -> Seq<char> {
    match exit_code {
        Some(code) => signed_decimal_text(code as int),
        None => "by signal"@,
    }
}

/// The summary of a run.
pub open spec fn summary_text(
    exit_code: Option<i32>,
    duration_ms: nat,
    stdout_len: nat,
    stderr_len: nat,
) -> Seq<char> {
    "process exited "@ + exit_text(exit_code) + " in "@ + decimal_text(duration_ms)
        + "ms (stdout="@ + decimal_text(stdout_len) + "B, stderr="@ + decimal_text(stderr_len)
        + "B)"@
}

/// The summary of a run.
pub fn process_summary(
    exit_code: Option<i32>,
    duration_ms: u128,
    stdout_len: usize,
    stderr_len: usize,
) -> (s: String)
    ensures
        s@ == summary_text(
            exit_code,
            duration_ms as nat,
            stdout_len as nat,
            stderr_len as nat,
        ),
{
    let ended = match exit_code {
        Some(code) => signed_decimal(code as i64),
        None => "by signal".to_owned(),
    };
    let mut s = joined("process exited ", &ended);
    s.append(" in ");
    s.append(&wide_decimal(duration_ms));
    s.append("ms (stdout=");
    s.append(&decimal(stdout_len as u64));
    s.append("B, stderr=");
    s.append(&decimal(stderr_len as u64));
    s.append("B)");
    s
}

/// A process that ended.
#[derive(Debug)]
pub struct FinishedProcess {
    pub success: bool,
    pub exit_code: Option<i32>,
    pub stdout: Vec<u8>,
    pub stderr: Vec<u8>,
    pub duration_ms: u128,
}

/// What a run hands back.
#[derive(Debug)]
pub struct ProcessOutput {
    pub run_id: String,
    pub summary: String,
    pub stdout_inline: Option<String>,
    pub stderr_inline: Option<String>,
    pub stdout_artifact: Option<String>,
    pub stderr_artifact: Option<String>,
    pub duration_ms: u128,
    pub evidence: ProcessEvidence,
}

/// What a run hands back: its outputs, its summary and what it proves. The
/// artifacts are the references under which long outputs were kept.
pub fn process_output(
    envelope: &InvocationEnvelope,
    process: &FinishedProcess,
    stdout_artifact: Option<String>,
    stderr_artifact: Option<String>,
) -> (r: ProcessOutput)
    ensures
        r.run_id@ == envelope.run_id@,
        r.summary@ == summary_text(
            process.exit_code,
            process.duration_ms as nat,
            process.stdout@.len(),
            process.stderr@.len(),
        ),
        optional_text(r.stdout_inline) == inline_text(process.stdout@, envelope.max_output_bytes),
        optional_text(r.stderr_inline) == inline_text(process.stderr@, envelope.max_output_bytes),
        r.stdout_artifact == if process.stdout@.len() > envelope.max_output_bytes
            && process.stdout@.len() > 0 {
            stdout_artifact
        } else {
            None::<String>
        },
        r.stderr_artifact == if process.stderr@.len() > envelope.max_output_bytes
            && process.stderr@.len() > 0 {
            stderr_artifact
        } else {
            None::<String>
        },
        r.duration_ms == process.duration_ms,
        r.evidence.exit_code == process.exit_code,
        r.evidence.expected_output_matched == expectation_met(
            optional_text(envelope.expected_result),
            lossy_text(process.stdout@),
            lossy_text(process.stderr@),
        ),
        r.evidence.verified == (process.success && r.evidence.expected_output_matched != Some(
            false,
        )),
{
    let (stdout_inline, stdout_artifact) = project_output(
        &process.stdout,
        envelope.max_output_bytes,
        stdout_artifact,
    );
    let (stderr_inline, stderr_artifact) = project_output(
        &process.stderr,
        envelope.max_output_bytes,
        stderr_artifact,
    );
    ProcessOutput {
        run_id: envelope.run_id.clone(),
        summary: process_summary(
            process.exit_code,
            process.duration_ms,
            process.stdout.len(),
            process.stderr.len(),
        ),
        stdout_inline,
        stderr_inline,
        stdout_artifact,
        stderr_artifact,
        duration_ms: process.duration_ms,
        evidence: process_evidence(
            process.success,
            process.exit_code,
            &envelope.expected_result,
            &process.stdout,
            &process.stderr,
        ),
    }
}

/// The summary of a run gives its exit code or its signal, its duration and the
/// sizes of its two outputs, in that order.
pub proof fn summaries_give_code_duration_and_sizes(
    code: i32,
    duration_ms: nat,
    stdout_len: nat,
    stderr_len: nat,
)
    ensures
        summary_text(Some(code), duration_ms, stdout_len, stderr_len) == "process exited "@
            + signed_decimal_text(code as int) + " in "@ + decimal_text(duration_ms)
            + "ms (stdout="@ + decimal_text(stdout_len) + "B, stderr="@ + decimal_text(stderr_len)
            + "B)"@,
        summary_text(None, duration_ms, stdout_len, stderr_len) == "process exited "@
            + "by signal"@ + " in "@ + decimal_text(duration_ms) + "ms (stdout="@ + decimal_text(
            stdout_len,
        ) + "B, stderr="@ + decimal_text(stderr_len) + "B)"@,
{
}

} // verus!
