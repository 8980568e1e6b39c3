//! Leases and the admission of processes.

use ditto::effect_policy::{
    resource_matches, CapabilityLease, EffectClaim, EffectClass, InvocationEnvelope, PolicyError,
};
use ditto::executor::{
    admit_process, plan_output, process_evidence, process_output, process_summary, weigh_evidence,
    DeviceProcessArgs, ExecutorError, FinishedProcess, OutputPlan,
};

fn class(token: &str) -> EffectClass {
    EffectClass { token: token.to_owned() }
}

/// Read leases permit reads, privileged leases permit everything.
fn permits(ceiling: &EffectClass, claimed: &EffectClass) -> bool {
    ceiling.token == "privileged" || claimed.token == "read"
}

fn lease(program: &str, max_calls: u32) -> CapabilityLease {
    CapabilityLease::bounded(
        "lease-1".to_owned(),
        vec!["local".to_owned()],
        vec!["device:local".to_owned()],
        vec![program.to_owned()],
        class("read"),
        max_calls,
        10_000,
    )
}

fn envelope(lease: &CapabilityLease, claimed: &str, expected_effect: &str) -> InvocationEnvelope {
    InvocationEnvelope {
        run_id: "run-1".to_owned(),
        capability_id: "device.process.run".to_owned(),
        device_id: "local".to_owned(),
        effect_claim: EffectClaim {
            class: class(claimed),
            resources: vec!["device:local".to_owned()],
            expected_effect: expected_effect.to_owned(),
        },
        lease_id: Some(lease.id.clone()),
        cwd: None,
        timeout_ms: 1_000,
        max_output_bytes: 1_024,
        expected_result: Some("ditto".to_owned()),
    }
}

fn authorize(
    lease: &mut CapabilityLease,
    envelope: &InvocationEnvelope,
    program: &str,
    now_ms: i64,
) -> Result<u32, PolicyError> {
    let permitted = permits(&lease.effect_ceiling, &envelope.effect_claim.class);
    lease.authorize(envelope, program, now_ms, permitted).map(|grant| grant.call_number)
}

#[test]
fn privileged_claim_cannot_cross_read_lease() {
    let mut lease = lease("systemctl", 1);
    let envelope = envelope(&lease, "privileged", "restart service");
    let error = authorize(&mut lease, &envelope, "systemctl", 1).unwrap_err();
    assert!(matches!(error, PolicyError::EffectDenied { .. }));
}

#[test]
fn approved_call_consumes_bounded_budget() {
    let mut lease = lease("git", 1);
    let envelope = envelope(&lease, "read", "inspect");
    authorize(&mut lease, &envelope, "git", 1).unwrap();
    let error = authorize(&mut lease, &envelope, "git", 2).unwrap_err();
    assert_eq!(error, PolicyError::CallBudgetExhausted);
}

#[test]
fn path_prefix_does_not_match_sibling_path() {
    assert!(resource_matches("path:/srv/app/**", "path:/srv/app/logs/a"));
    assert!(!resource_matches(
        "path:/srv/app/**",
        "path:/srv/application/secrets"
    ));
}

#[test]
fn a_wildcard_covers_its_base_and_a_plain_scope_only_itself() {
    assert!(resource_matches("path:/srv/app/**", "path:/srv/app"));
    assert!(!resource_matches("path:/srv/app/**", "path:/srv"));
    assert!(resource_matches("device:local", "device:local"));
    assert!(!resource_matches("device:local", "device:local/disk"));
    assert!(resource_matches("/**", ""));
    assert!(resource_matches("/**", "/anything"));
    assert!(!resource_matches("/**", "anything"));
    assert!(resource_matches("dossier:é/**", "dossier:é/ü"));
}

#[test]
fn each_boundary_of_a_lease_refuses_in_turn() {
    let mut held = lease("git", 1);
    let good = envelope(&held, "read", "inspect");
    assert_eq!(authorize(&mut held, &good, "git", 10_000), Err(PolicyError::Expired));

    let mut other_device = good.clone();
    other_device.device_id = "remote".to_owned();
    assert_eq!(
        authorize(&mut held, &other_device, "git", 1),
        Err(PolicyError::DeviceDenied("remote".to_owned()))
    );

    let mut privileged = good.clone();
    privileged.effect_claim.class = class("privileged");
    assert_eq!(
        authorize(&mut held, &privileged, "rm", 1),
        Err(PolicyError::EffectDenied { ceiling: class("read"), claimed: class("privileged") })
    );
    assert_eq!(
        authorize(&mut held, &good, "rm", 1),
        Err(PolicyError::ProgramDenied("rm".to_owned()))
    );

    let mut elsewhere = good.clone();
    elsewhere.effect_claim.resources =
        vec!["device:local".to_owned(), "device:kitchen".to_owned(), "device:garage".to_owned()];
    assert_eq!(
        authorize(&mut held, &elsewhere, "git", 1),
        Err(PolicyError::ResourceDenied("device:kitchen".to_owned()))
    );

    let mut forged = good.clone();
    forged.lease_id = Some("lease-2".to_owned());
    assert_eq!(authorize(&mut held, &forged, "git", 1), Err(PolicyError::LeaseMismatch));
    forged.lease_id = None;
    assert_eq!(authorize(&mut held, &forged, "git", 1), Err(PolicyError::LeaseMismatch));

    assert_eq!(held.calls_used, 0);
    assert_eq!(authorize(&mut held, &good, "git", 9_999), Ok(1));
    assert_eq!(held.calls_used, 1);
}

#[test]
fn a_lease_grants_no_more_calls_than_it_names() {
    let mut held = lease("git", 3);
    let good = envelope(&held, "read", "inspect");
    let mut granted = Vec::new();
    for now_ms in 0..6 {
        if let Ok(number) = authorize(&mut held, &good, "git", now_ms) {
            granted.push(number);
        }
    }
    assert_eq!(granted, [1, 2, 3]);
}

fn arguments(program: &str) -> Option<DeviceProcessArgs> {
    Some(DeviceProcessArgs { program: program.to_owned(), args: vec!["ditto".to_owned()] })
}

#[test]
fn a_program_outside_the_lease_is_not_admitted() {
    let mut held = lease("printf", 1);
    let good = envelope(&held, "read", "print deterministic fixture");
    let refused = admit_process(&good, arguments("false"), &mut held, 0, true).unwrap_err();
    assert!(matches!(refused, ExecutorError::Policy(PolicyError::ProgramDenied(_))));
    assert_eq!(held.calls_used, 0);

    let admitted = admit_process(&good, arguments("printf"), &mut held, 0, true).unwrap();
    assert_eq!(admitted.program, "printf");
    assert_eq!(admitted.args, ["ditto"]);
    assert_eq!(held.calls_used, 1);
}

#[test]
fn capability_device_and_arguments_are_checked_before_the_lease() {
    let mut held = lease("printf", 1);
    let good = envelope(&held, "read", "print");

    let mut unknown = good.clone();
    unknown.capability_id = "device.file.read".to_owned();
    unknown.device_id = "remote".to_owned();
    assert_eq!(
        admit_process(&unknown, None, &mut held, 0, true).unwrap_err(),
        ExecutorError::UnsupportedCapability("device.file.read".to_owned())
    );

    let mut remote = good.clone();
    remote.device_id = "remote".to_owned();
    assert_eq!(
        admit_process(&remote, None, &mut held, 0, true).unwrap_err(),
        ExecutorError::UnsupportedDevice("remote".to_owned())
    );
    assert_eq!(
        admit_process(&good, None, &mut held, 20_000, false).unwrap_err(),
        ExecutorError::InvalidArguments
    );
    assert_eq!(
        admit_process(&good, arguments("printf"), &mut held, 20_000, true).unwrap_err(),
        ExecutorError::Policy(PolicyError::Expired)
    );
}

#[test]
fn evidence_needs_success_and_the_expected_text() {
    let expected = Some("ditto".to_owned());
    let printed = weigh_evidence(true, Some(0), &expected, "say ditto twice", "");
    assert_eq!(printed.expected_output_matched, Some(true));
    assert!(printed.verified);

    let complained = weigh_evidence(true, Some(0), &expected, "", "ditto");
    assert!(complained.verified);

    let silent = weigh_evidence(true, Some(0), &expected, "dit", "to");
    assert_eq!(silent.expected_output_matched, Some(false));
    assert!(!silent.verified);

    let failed = weigh_evidence(false, Some(1), &expected, "ditto", "");
    assert_eq!(failed.expected_output_matched, Some(true));
    assert!(!failed.verified);

    let unasked = weigh_evidence(true, None, &None, "", "");
    assert_eq!(unasked.expected_output_matched, None);
    assert_eq!(unasked.exit_code, None);
    assert!(unasked.verified);
}

#[test]
fn raw_output_is_read_as_lossy_text() {
    let expected = Some("a\u{FFFD}b".to_owned());
    let evidence =
        process_evidence(true, Some(0), &expected, &vec![b'a', 0xFF, b'b'], &Vec::new());
    assert_eq!(evidence.expected_output_matched, Some(true));
    let text = "größe".to_owned();
    let evidence =
        process_evidence(true, Some(0), &Some("öß".to_owned()), &text.into_bytes(), &Vec::new());
    assert!(evidence.verified);
}

#[test]
fn output_is_dropped_handed_on_or_kept() {
    assert!(matches!(plan_output(&Vec::new(), 4), OutputPlan::Nothing));
    match plan_output(&b"abcd".to_vec(), 4) {
        OutputPlan::Inline(text) => assert_eq!(text, "abcd"),
        other => panic!("unexpected plan {other:?}"),
    }
    match plan_output(&vec![0xC3], 4) {
        OutputPlan::Inline(text) => assert_eq!(text, "\u{FFFD}"),
        other => panic!("unexpected plan {other:?}"),
    }
    assert!(matches!(plan_output(&b"abcde".to_vec(), 4), OutputPlan::Artifact));
}

#[test]
fn a_run_is_summed_up_in_one_line() {
    assert_eq!(
        process_summary(Some(0), 12, 5, 0),
        "process exited 0 in 12ms (stdout=5B, stderr=0B)"
    );
    assert_eq!(
        process_summary(Some(-7), 0, 0, 300),
        "process exited -7 in 0ms (stdout=0B, stderr=300B)"
    );
    assert_eq!(
        process_summary(None, 1_000, 1, 2),
        "process exited by signal in 1000ms (stdout=1B, stderr=2B)"
    );
}

#[test]
fn a_finished_process_is_handed_back_with_its_evidence() {
    let held = lease("printf", 1);
    let mut asked = envelope(&held, "read", "print deterministic fixture");
    let finished = FinishedProcess {
        success: true,
        exit_code: Some(0),
        stdout: b"ditto".to_vec(),
        stderr: Vec::new(),
        duration_ms: 7,
    };
    let output = process_output(&asked, &finished, None, None);
    assert!(output.evidence.verified);
    assert_eq!(output.run_id, "run-1");
    assert_eq!(output.stdout_inline.as_deref(), Some("ditto"));
    assert_eq!(output.stderr_inline, None);
    assert_eq!(output.stdout_artifact, None);
    assert_eq!(output.duration_ms, 7);
    assert_eq!(output.summary, "process exited 0 in 7ms (stdout=5B, stderr=0B)");

    asked.max_output_bytes = 4;
    let kept = process_output(&asked, &finished, Some("artifact:1".to_owned()), None);
    assert_eq!(kept.stdout_inline, None);
    assert_eq!(kept.stdout_artifact.as_deref(), Some("artifact:1"));
    assert_eq!(kept.stderr_artifact, None);
    assert!(kept.evidence.verified);
}
