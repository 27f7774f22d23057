//! The records of a run, one per device, and the rows that present them.
use crate::extract::{Extraction, ExtractionView};
use crate::probe::ProbeFailed;
use crate::text::{decimal, decimal_digits, string_of};
use vstd::prelude::*;
use vstd::string::StringExecFns;

verus! {

/// What a probe found out about a device.
#[derive(Clone, Debug, PartialEq, Eq)]
pub enum Status {
    /// The probe succeeded, with this vendor, model and temperature.
    Succeeded(Extraction),
    /// The probe failed, with this diagnostic message.
    Failed(String),
}

/// The view of a `Status`.
pub enum StatusView {
    Succeeded(ExtractionView),
    Failed(Seq<char>),
}

impl View for Status {
    type V = StatusView;

    open spec fn view(&self) -> StatusView {
        match self {
            Status::Succeeded(extraction) => StatusView::Succeeded(extraction@),
            Status::Failed(message) => StatusView::Failed(message@),
        }
    }
}

/// The record of one discovered device.
#[derive(Clone, Debug, PartialEq, Eq)]
pub struct DeviceRecord {
    /// The device node path, by which the record is found.
    pub path: String,
    pub status: Status,
}

/// The view of a `DeviceRecord`.
pub struct DeviceRecordView {
    pub path: Seq<char>,
    pub status: StatusView,
}

impl View for DeviceRecord {
    type V = DeviceRecordView;

    open spec fn view(&self) -> DeviceRecordView {
        DeviceRecordView { path: self.path@, status: self.status@ }
    }
}

/// One row of the report.
#[derive(Clone, Debug, PartialEq, Eq)]
pub struct ReportRow {
    pub device: String,
    pub vendor: String,
    pub model: String,
    pub temp: String,
    pub status: String,
}

/// The view of a `ReportRow`.
pub struct ReportRowView {
    pub device: Seq<char>,
    pub vendor: Seq<char>,
    pub model: Seq<char>,
    pub temp: Seq<char>,
    pub status: Seq<char>,
}

impl View for ReportRow {
    type V = ReportRowView;

    open spec fn view(&self) -> ReportRowView {
        ReportRowView {
            device: self.device@,
            vendor: self.vendor@,
            model: self.model@,
            temp: self.temp@,
            status: self.status@,
        }
    }
}

/// The view of the end of a probe.
pub open spec fn probe_view(outcome: Result<Extraction, ProbeFailed>) -> Result<
    ExtractionView,
    Seq<char>,
> {
    match outcome {
        Ok(extraction) => Ok(extraction@),
        Err(failure) => Err(failure@),
    }
}

/// The record of the device at `path` whose probe ended with `outcome`.
pub open spec fn record_of(
    path: Seq<char>,
    outcome: Result<ExtractionView, Seq<char>>,
) -> DeviceRecordView {
    DeviceRecordView {
        path,
        status: match outcome {
            Ok(extraction) => StatusView::Succeeded(extraction),
            Err(message) => StatusView::Failed(message),
        },
    }
}

/// How a temperature is shown: in degrees Celsius, or as not available.
pub open spec fn temperature_text(temperature: Option<i64>) -> Seq<char> {
    match temperature {
        Some(degrees) => decimal(degrees as int) + "°C"@,
        None => "N/A"@,
    }
}

/// The row that presents a record. A failed device shows its diagnostic
/// message in place of the temperature.
pub open spec fn row_of(record: DeviceRecordView) -> ReportRowView {
    match record.status {
        StatusView::Succeeded(extraction) => ReportRowView {
            device: record.path,
            vendor: extraction.vendor,
            model: extraction.model,
            temp: temperature_text(extraction.temperature),
            status: "OK"@,
        },
        StatusView::Failed(message) => ReportRowView {
            device: record.path,
            vendor: "Failed"@,
            model: "Failed"@,
            temp: message,
            status: "FAIL"@,
        },
    }
}

/// The row of column titles.
pub open spec fn header_row() -> ReportRowView {
    ReportRowView {
        device: "DEVICE"@,
        vendor: "VENDOR"@,
        model: "MODEL"@,
        temp: "TEMP"@,
        status: "STATUS"@,
    }
}

/// The views of a sequence of records.
pub open spec fn record_views(records: Seq<DeviceRecord>) -> Seq<DeviceRecordView> {
    Seq::new(records.len(), |i: int| records[i]@)
}

/// The records of the devices that were probed: for each device one record,
/// made of its path and the end of its own probe, in the same order.
pub open spec fn records_of(
    probed: Seq<(String, Result<Extraction, ProbeFailed>)>,
) -> Seq<DeviceRecordView> {
    Seq::new(probed.len(), |i: int| record_of(probed[i].0@, probe_view(probed[i].1)))
}

fn digit_char(digit: u64) -> (c: char)
    requires
        digit < 10,
    ensures
        c == (0x30 + digit) as char,
{
    let digits: [char; 10] = ['0', '1', '2', '3', '4', '5', '6', '7', '8', '9'];
    digits[digit as usize]
}

fn natural_digits(n: u64) -> (r: Vec<char>)
    ensures
        r@ == decimal_digits(n as nat),
    decreases n,
{
    if n < 10 {
        let mut digits: Vec<char> = Vec::new();
        digits.push(digit_char(n));
        assert(digits@ =~= decimal_digits(n as nat));
        digits
    } else {
        let mut digits = natural_digits(n / 10);
        digits.push(digit_char(n % 10));
        digits
    }
}

/// `n` in decimal notation.
pub fn decimal_string(n: i64) -> (r: String)
    ensures
        r@ == decimal(n as int),
{
    if n < 0 {
        let magnitude: u64 = (-(n + 1)) as u64 + 1;
        let digits = natural_digits(magnitude);
        let mut text: Vec<char> = Vec::new();
        text.push('-');
        let mut i: usize = 0;
        while i < digits.len()
            invariant
                i <= digits.len(),
                text@ == seq!['-'] + digits@.take(i as int),
            decreases digits.len() - i,
        {
            text.push(digits[i]);
            i += 1;
        }
        proof {
            assert(digits@.take(digits.len() as int) =~= digits@);
        }
        string_of(&text)
    } else {
        string_of(&natural_digits(n as u64))
    }
}

/// How a temperature is shown.
pub fn temperature_cell(temperature: Option<i64>) -> (r: String)
    ensures
        r@ == temperature_text(temperature),
{
    match temperature {
        Some(degrees) => {
            let mut text = decimal_string(degrees);
            text.append("°C");
            text
        },
        None => "N/A".to_owned(),
    }
}

/// The row of column titles.
pub fn header() -> (r: ReportRow)
    ensures
        r@ == header_row(),
{
    ReportRow {
        device: "DEVICE".to_owned(),
        vendor: "VENDOR".to_owned(),
        model: "MODEL".to_owned(),
        temp: "TEMP".to_owned(),
        status: "STATUS".to_owned(),
    }
}

impl DeviceRecord {
    /// The record of the device at `path` whose probe ended with `outcome`.
    pub fn from_probe(path: String, outcome: Result<Extraction, ProbeFailed>) -> (r: DeviceRecord)
        ensures
            r@ == record_of(path@, probe_view(outcome)),
    {
        match outcome {
            Ok(extraction) => DeviceRecord { path, status: Status::Succeeded(extraction) },
            Err(failure) => DeviceRecord { path, status: Status::Failed(failure.message) },
        }
    }

    /// Whether the probe of this device failed.
    pub fn is_failed(&self) -> (r: bool)
        ensures
            r == (self@.status is Failed),
    {
        match &self.status {
            Status::Succeeded(_) => false,
            Status::Failed(_) => true,
        }
    }

    /// The row that presents this record.
    pub fn row(&self) -> (r: ReportRow)
        ensures
            r@ == row_of(self@),
    {
        match &self.status {
            Status::Succeeded(extraction) => ReportRow {
                device: self.path.clone(),
                vendor: extraction.vendor.clone(),
                model: extraction.model.clone(),
                temp: temperature_cell(extraction.temperature),
                status: "OK".to_owned(),
            },
            Status::Failed(message) => ReportRow {
                device: self.path.clone(),
                vendor: "Failed".to_owned(),
                model: "Failed".to_owned(),
                temp: message.clone(),
                status: "FAIL".to_owned(),
            },
        }
    }
}

/// Makes the records of a run: one for each probed device, in the order in
/// which the devices are given. The record of a device rests on its own path
/// and probe alone, so that a failed probe touches no other record.
pub fn collect_records(probed: Vec<(String, Result<Extraction, ProbeFailed>)>) -> (r: Vec<
    DeviceRecord,
>)
    ensures
        record_views(r@) == records_of(probed@),
{
    let ghost all = probed@;
    let mut records: Vec<DeviceRecord> = Vec::new();
    let mut rest = probed;
    while rest.len() > 0
        invariant
            records.len() + rest.len() == all.len(),
            rest@ == all.skip(records.len() as int),
            forall|k: int| 0 <= k < records.len() ==> (#[trigger] records@[k])@ == record_of(
                all[k].0@,
                probe_view(all[k].1),
            ),
        decreases rest.len(),
    {
        let ghost done = records.len() as int;
        let (path, outcome) = rest.remove(0);
        proof {
            assert(rest@ =~= all.skip(done + 1));
        }
        records.push(DeviceRecord::from_probe(path, outcome));
    }
    assert(record_views(records@) =~= records_of(all));
    records
}

/// The rows that present the records, in their order.
pub fn rows(records: &Vec<DeviceRecord>) -> (r: Vec<ReportRow>)
    ensures
        r.len() == records.len(),
        forall|i: int| 0 <= i < records.len() ==> (#[trigger] r@[i])@ == row_of(records@[i]@),
{
    let mut out: Vec<ReportRow> = Vec::new();
    let mut i: usize = 0;
    while i < records.len()
        invariant
            i <= records.len(),
            out.len() == i,
            forall|k: int| 0 <= k < i ==> (#[trigger] out@[k])@ == row_of(records@[k]@),
        decreases records.len() - i,
    {
        out.push(records[i].row());
        i += 1;
    }
    out
}


/// There is exactly one record for each probed device, under the device's
/// own path.
pub proof fn one_record_per_device(probed: Seq<(String, Result<Extraction, ProbeFailed>)>)
    ensures
        records_of(probed).len() == probed.len(),
        forall|i: int|
            0 <= i < probed.len() ==> (#[trigger] records_of(probed)[i]).path == probed[i].0@,
{
}

/// The record of a device does not depend on the other devices: two runs
/// that agree on one device agree on its record.
pub proof fn records_are_independent(
    one: Seq<(String, Result<Extraction, ProbeFailed>)>,
    other: Seq<(String, Result<Extraction, ProbeFailed>)>,
    i: int,
    j: int,
)
    requires
        0 <= i < one.len(),
        0 <= j < other.len(),
        one[i].0@ == other[j].0@,
        probe_view(one[i].1) == probe_view(other[j].1),
    ensures
        records_of(one)[i] == records_of(other)[j],
{
}

/// A device whose probe failed has a failed record, with the message of the
/// probe; a device whose probe succeeded has a record with what was
/// extracted.
pub proof fn record_follows_probe(path: Seq<char>, outcome: Result<ExtractionView, Seq<char>>)
    ensures
        outcome is Err ==> record_of(path, outcome).status == StatusView::Failed(outcome->Err_0),
        outcome is Ok ==> record_of(path, outcome).status == StatusView::Succeeded(outcome->Ok_0),
        record_of(path, outcome).path == path,
{
}

} // verus!
