use diskprobe::extract::Extraction;
use diskprobe::probe::ProbeFailed;
use diskprobe::report::{
    collect_records, decimal_string, header, rows, temperature_cell, DeviceRecord, ReportRow,
    Status,
};

fn row(device: &str, vendor: &str, model: &str, temp: &str, status: &str) -> ReportRow {
    ReportRow {
        device: device.to_string(),
        vendor: vendor.to_string(),
        model: model.to_string(),
        temp: temp.to_string(),
        status: status.to_string(),
    }
}

fn found(temperature: Option<i64>) -> Extraction {
    Extraction { vendor: "Seagate".to_string(), model: "Barracuda".to_string(), temperature }
}

#[test]
fn decimal_string_of_integers() {
    assert_eq!(decimal_string(0), "0");
    assert_eq!(decimal_string(7), "7");
    assert_eq!(decimal_string(10), "10");
    assert_eq!(decimal_string(35), "35");
    assert_eq!(decimal_string(1000), "1000");
    assert_eq!(decimal_string(-1), "-1");
    assert_eq!(decimal_string(-40), "-40");
    assert_eq!(decimal_string(i64::MAX), "9223372036854775807");
    assert_eq!(decimal_string(i64::MIN), "-9223372036854775808");
}

#[test]
fn temperature_is_shown_in_degrees_celsius() {
    assert_eq!(temperature_cell(Some(35)), "35°C");
    assert_eq!(temperature_cell(Some(0)), "0°C");
    assert_eq!(temperature_cell(Some(-5)), "-5°C");
}

#[test]
fn missing_temperature_is_shown_as_not_available() {
    assert_eq!(temperature_cell(None), "N/A");
}

#[test]
fn header_names_the_five_columns() {
    assert_eq!(header(), row("DEVICE", "VENDOR", "MODEL", "TEMP", "STATUS"));
}

#[test]
fn row_of_a_probed_device() {
    let record = DeviceRecord::from_probe("/dev/sda".to_string(), Ok(found(Some(35))));
    assert_eq!(record.path, "/dev/sda");
    assert_eq!(record.status, Status::Succeeded(found(Some(35))));
    assert!(!record.is_failed());
    assert_eq!(record.row(), row("/dev/sda", "Seagate", "Barracuda", "35°C", "OK"));
}

#[test]
fn row_of_a_device_without_temperature() {
    let record = DeviceRecord::from_probe("/dev/sda".to_string(), Ok(found(None)));
    assert_eq!(record.row(), row("/dev/sda", "Seagate", "Barracuda", "N/A", "OK"));
}

#[test]
fn row_of_a_failed_device_shows_the_message_in_place_of_the_temperature() {
    let failure = ProbeFailed { message: "Failed for device: /dev/sdb".to_string() };
    let record = DeviceRecord::from_probe("/dev/sdb".to_string(), Err(failure));
    assert_eq!(record.status, Status::Failed("Failed for device: /dev/sdb".to_string()));
    assert!(record.is_failed());
    assert_eq!(
        record.row(),
        row("/dev/sdb", "Failed", "Failed", "Failed for device: /dev/sdb", "FAIL")
    );
}

#[test]
fn records_keep_the_order_of_discovery() {
    let probed = vec![
        ("/dev/sdc".to_string(), Ok(found(Some(30)))),
        ("/dev/sda".to_string(), Err(ProbeFailed { message: "m".to_string() })),
        ("/dev/sdb".to_string(), Ok(found(None))),
    ];
    let records = collect_records(probed);
    let paths: Vec<&str> = records.iter().map(|record| record.path.as_str()).collect();
    assert_eq!(paths, vec!["/dev/sdc", "/dev/sda", "/dev/sdb"]);
    assert_eq!(
        rows(&records),
        vec![
            row("/dev/sdc", "Seagate", "Barracuda", "30°C", "OK"),
            row("/dev/sda", "Failed", "Failed", "m", "FAIL"),
            row("/dev/sdb", "Seagate", "Barracuda", "N/A", "OK"),
        ]
    );
}

#[test]
fn no_device_gives_no_record() {
    assert_eq!(collect_records(Vec::new()), Vec::<DeviceRecord>::new());
    assert_eq!(rows(&Vec::new()), Vec::<ReportRow>::new());
}
