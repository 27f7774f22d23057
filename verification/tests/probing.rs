use diskprobe::extract::{parse_smartctl_output, Extraction, Unusable};
use diskprobe::probe::{default_hints, Attempt, ProbeFailed, Progress};
use diskprobe::report::{collect_records, DeviceRecord, Status};

fn strings(items: &[&str]) -> Vec<String> {
    items.iter().map(|s| s.to_string()).collect()
}

/// Runs a probe against recorded outputs: `outputs` gives, for a hint, what
/// the utility prints. Returns how the probe ended and the hints it tried.
fn probe_with(
    device: &str,
    hints: &Vec<String>,
    outputs: &[(Option<&str>, &[u8])],
) -> (Result<Extraction, ProbeFailed>, Vec<Option<String>>) {
    let mut tried = Vec::new();
    let mut attempt = Attempt::first(device, hints);
    loop {
        assert_eq!(attempt.device, device);
        tried.push(attempt.hint.clone());
        let output: &[u8] = outputs
            .iter()
            .find(|(hint, _)| hint.map(|h| h.to_string()) == attempt.hint)
            .map(|(_, output)| *output)
            .unwrap_or(b"");
        match attempt.conclude(output) {
            Progress::Found(extraction) => return (Ok(extraction), tried),
            Progress::Exhausted(failure) => return (Err(failure), tried),
            Progress::Retry(next) => attempt = next,
        }
    }
}

fn some(hint: &str) -> Option<String> {
    Some(hint.to_string())
}

#[test]
fn standard_hints_are_in_their_order_of_priority() {
    assert_eq!(default_hints(), strings(&["ata", "sat", "scsi", "nvme", "sata"]));
}

#[test]
fn first_attempt_passes_no_hint() {
    let attempt = Attempt::first("/dev/sda", &default_hints());
    assert_eq!(attempt.hint, None);
    assert_eq!(attempt.remaining, default_hints());
    assert_eq!(attempt.arguments(), strings(&["--json", "-a", "/dev/sda"]));
}

#[test]
fn later_attempt_passes_its_hint_before_the_device() {
    let attempt = Attempt {
        device: "/dev/nvme0n1".to_string(),
        hint: some("nvme"),
        remaining: strings(&["sata"]),
    };
    assert_eq!(attempt.arguments(), strings(&["--json", "-a", "-d", "nvme", "/dev/nvme0n1"]));
}

#[test]
fn usable_first_run_ends_the_probe() {
    let (end, tried) = probe_with(
        "/dev/sda",
        &default_hints(),
        &[(None, br#"{"model_name": "M", "temperature": {"current": 30}}"#)],
    );
    assert_eq!(
        end,
        Ok(Extraction {
            vendor: "Unknown Vendor".to_string(),
            model: "M".to_string(),
            temperature: Some(30),
        })
    );
    assert_eq!(tried, vec![None]);
}

#[test]
fn probe_that_succeeds_with_ata_reports_that_run_and_stops() {
    let (end, tried) = probe_with(
        "/dev/sda",
        &default_hints(),
        &[
            (None, b"Unknown USB bridge"),
            (Some("ata"), br#"{"model_family": "Seagate Barracuda", "temperature": {"current": 35}}"#),
            (Some("sat"), br#"{"model_family": "Other Thing", "temperature": {"current": 99}}"#),
            (Some("scsi"), br#"{"vendor": "Third", "temperature": {"current": 98}}"#),
        ],
    );
    assert_eq!(
        end,
        Ok(Extraction {
            vendor: "Seagate".to_string(),
            model: "Barracuda".to_string(),
            temperature: Some(35),
        })
    );
    assert_eq!(tried, vec![None, some("ata")]);
}

#[test]
fn hints_are_tried_in_order_until_one_succeeds() {
    let (end, tried) = probe_with(
        "/dev/sdb",
        &default_hints(),
        &[(Some("nvme"), b"Temperature: 44 Celsius"), (Some("sata"), b"Temperature: 45 Celsius")],
    );
    assert_eq!(end.map(|e| e.temperature), Ok(Some(44)));
    assert_eq!(tried, vec![None, some("ata"), some("sat"), some("scsi"), some("nvme")]);
}

#[test]
fn structured_output_without_fields_ends_the_probe() {
    let (end, tried) = probe_with(
        "/dev/sdb",
        &default_hints(),
        &[(None, b"{}"), (Some("ata"), br#"{"temperature": {"current": 35}}"#)],
    );
    assert_eq!(
        end,
        Ok(Extraction {
            vendor: "Unknown Vendor".to_string(),
            model: "Unknown Model".to_string(),
            temperature: None,
        })
    );
    assert_eq!(tried, vec![None]);
}

#[test]
fn probe_fails_when_every_run_is_unusable() {
    let (end, tried) = probe_with(
        "/dev/sdc",
        &default_hints(),
        &[(None, b"Permission denied"), (Some("scsi"), b"")],
    );
    assert_eq!(
        end,
        Err(ProbeFailed {
            message: "Failed for device: /dev/sdc (all device-type hints exhausted)".to_string(),
        })
    );
    assert_eq!(
        tried,
        vec![None, some("ata"), some("sat"), some("scsi"), some("nvme"), some("sata")]
    );
}

#[test]
fn empty_hints_of_the_list_are_left_out() {
    let hints = strings(&["", "ata", "", "sat"]);
    let attempt = Attempt::first("/dev/sda", &hints);
    assert_eq!(attempt.hint, None);
    assert_eq!(attempt.remaining, strings(&["ata", "sat"]));
    let (end, tried) = probe_with("/dev/sda", &hints, &[]);
    assert!(end.is_err());
    assert_eq!(tried, vec![None, some("ata"), some("sat")]);
}

#[test]
fn probe_without_hints_makes_one_run() {
    let (end, tried) = probe_with("/dev/sda", &Vec::new(), &[]);
    assert!(end.is_err());
    assert_eq!(tried, vec![None]);
}

#[test]
fn judge_goes_by_the_extraction_alone() {
    let attempt = Attempt {
        device: "/dev/sda".to_string(),
        hint: some("ata"),
        remaining: strings(&["sat", "scsi"]),
    };
    assert_eq!(
        attempt.clone().judge(Err(Unusable)),
        Progress::Retry(Attempt {
            device: "/dev/sda".to_string(),
            hint: some("sat"),
            remaining: strings(&["scsi"]),
        })
    );
    let found = Extraction { vendor: "V".to_string(), model: "M".to_string(), temperature: None };
    assert_eq!(attempt.judge(Ok(found.clone())), Progress::Found(found));
    let last = Attempt { device: "/dev/sda".to_string(), hint: some("sata"), remaining: Vec::new() };
    assert_eq!(
        last.judge(Err(Unusable)),
        Progress::Exhausted(ProbeFailed {
            message: "Failed for device: /dev/sda (all device-type hints exhausted)".to_string(),
        })
    );
}

#[test]
fn conclude_judges_what_is_extracted_from_the_output() {
    let attempt = Attempt::first("/dev/sda", &default_hints());
    let output = br#"{"model_name": "M"}"#;
    assert_eq!(
        attempt.clone().conclude(output),
        attempt.clone().judge(parse_smartctl_output(output))
    );
    assert_eq!(attempt.clone().conclude(b""), attempt.judge(Err(Unusable)));
}

#[test]
fn one_failing_device_of_three_leaves_the_others_alone() {
    let good: &[u8] = br#"{"model_family": "Seagate Barracuda", "temperature": {"current": 35}}"#;
    let devices = ["/dev/sda", "/dev/sdb", "/dev/sdc"];
    let probed: Vec<(String, Result<Extraction, ProbeFailed>)> = devices
        .iter()
        .map(|device| {
            let outputs: Vec<(Option<&str>, &[u8])> =
                if *device == "/dev/sdb" { vec![(None, b"I/O error")] } else { vec![(None, good)] };
            (device.to_string(), probe_with(device, &default_hints(), &outputs).0)
        })
        .collect();
    let records = collect_records(probed);
    assert_eq!(records.len(), 3);
    let expected = Status::Succeeded(Extraction {
        vendor: "Seagate".to_string(),
        model: "Barracuda".to_string(),
        temperature: Some(35),
    });
    assert_eq!(
        records,
        vec![
            DeviceRecord { path: "/dev/sda".to_string(), status: expected.clone() },
            DeviceRecord {
                path: "/dev/sdb".to_string(),
                status: Status::Failed(
                    "Failed for device: /dev/sdb (all device-type hints exhausted)".to_string()
                ),
            },
            DeviceRecord { path: "/dev/sdc".to_string(), status: expected },
        ]
    );
    assert_eq!(records.iter().filter(|record| record.is_failed()).count(), 1);
    assert_eq!(records.iter().filter(|record| !record.is_failed()).count(), 2);
}
