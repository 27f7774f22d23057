//! The device prober: which run of the diagnostics utility to make next, and
//! when to stop.
//!
//! A probe is a sequence of attempts. The first passes no device-type hint;
//! each further one passes the next hint of the configured list. The probe
//! ends with the first attempt whose output can be used, or fails when the
//! list is exhausted. Running the utility is left to the caller: an `Attempt`
//! says which arguments to pass, and takes the output back.
use crate::extract::{
    extraction_of_output, outcome_view, parse_smartctl_output, Extraction, ExtractionView,
    Unusable,
};
use crate::text::{chars_of, string_views};
use vstd::prelude::*;
use vstd::string::StringExecFns;

verus! {

/// Every hint was tried and none gave usable output.
#[derive(Clone, Debug, PartialEq, Eq)]
pub struct ProbeFailed {
    /// Names the device and says that the hints are exhausted.
    pub message: String,
}

impl View for ProbeFailed {
    type V = Seq<char>;

    open spec fn view(&self) -> Seq<char> {
        self.message@
    }
}

/// One pending run of the diagnostics utility for a device.
#[derive(Clone, Debug, PartialEq, Eq)]
pub struct Attempt {
    /// The device node path.
    pub device: String,
    /// The device-type hint of this run; `None` for the run without one.
    pub hint: Option<String>,
    /// The hints to try after this run, in order.
    pub remaining: Vec<String>,
}

/// The view of an `Attempt`.
pub struct AttemptView {
    pub device: Seq<char>,
    pub hint: Option<Seq<char>>,
    pub remaining: Seq<Seq<char>>,
}

impl View for Attempt {
    type V = AttemptView;

    open spec fn view(&self) -> AttemptView {
        AttemptView {
            device: self.device@,
            hint: match self.hint {
                Some(hint) => Some(hint@),
                None => None,
            },
            remaining: string_views(self.remaining@),
        }
    }
}

/// How a probe goes on after one run.
#[derive(Clone, Debug, PartialEq, Eq)]
pub enum Progress {
    /// The output was unusable: make this run next.
    Retry(Attempt),
    /// The output was usable: the probe ends with what was extracted.
    Found(Extraction),
    /// The output was unusable and no hint is left: the probe has failed.
    Exhausted(ProbeFailed),
}

/// The view of a `Progress`.
pub enum ProgressView {
    Retry(AttemptView),
    Found(ExtractionView),
    Exhausted(Seq<char>),
}

impl View for Progress {
    type V = ProgressView;

    open spec fn view(&self) -> ProgressView {
        match self {
            Progress::Retry(attempt) => ProgressView::Retry(attempt@),
            Progress::Found(extraction) => ProgressView::Found(extraction@),
            Progress::Exhausted(failure) => ProgressView::Exhausted(failure@),
        }
    }
}

/// The hints tried by default, in their order of priority.
pub open spec fn standard_hints() -> Seq<Seq<char>> {
    seq!["ata"@, "sat"@, "scsi"@, "nvme"@, "sata"@]
}

/// The hints of a configured list that name a device type: the empty ones
/// left out, the order kept.
pub open spec fn named_hints(hints: Seq<Seq<char>>) -> Seq<Seq<char>>
    decreases hints.len(),
{
    if hints.len() == 0 {
        Seq::empty()
    } else if hints.last().len() == 0 {
        named_hints(hints.drop_last())
    } else {
        named_hints(hints.drop_last()).push(hints.last())
    }
}

/// The first attempt of a probe: without a hint, and with every named hint
/// of the list still to try.
pub open spec fn first_attempt(device: Seq<char>, hints: Seq<Seq<char>>) -> AttemptView {
    AttemptView { device, hint: None, remaining: named_hints(hints) }
}

/// The arguments of the run: structured output and all information are asked
/// for, the hint is passed where there is one, the device comes last.
pub open spec fn command_arguments(attempt: AttemptView) -> Seq<Seq<char>> {
    match attempt.hint {
        None => seq!["--json"@, "-a"@, attempt.device],
        Some(hint) => seq!["--json"@, "-a"@, "-d"@, hint, attempt.device],
    }
}

/// The message of a failed probe.
pub open spec fn failure_message(device: Seq<char>) -> Seq<char> {
    "Failed for device: "@ + device + " (all device-type hints exhausted)"@
}

/// How a probe goes on when the run of `attempt` has the given outcome.
pub open spec fn judged(
    attempt: AttemptView,
    outcome: Result<ExtractionView, Unusable>,
) -> ProgressView {
    match outcome {
        Ok(extraction) => ProgressView::Found(extraction),
        Err(_) => if attempt.remaining.len() > 0 {
            ProgressView::Retry(
                AttemptView {
                    device: attempt.device,
                    hint: Some(attempt.remaining[0]),
                    remaining: attempt.remaining.drop_first(),
                },
            )
        } else {
            ProgressView::Exhausted(failure_message(attempt.device))
        },
    }
}

/// How a probe that begins with `attempt` ends when its runs have the given
/// outcomes, in order, together with the number of runs it makes; `None`
/// where it has not ended when the outcomes are used up.
pub open spec fn probe_end(
    attempt: AttemptView,
    outcomes: Seq<Result<ExtractionView, Unusable>>,
) -> Option<(Result<ExtractionView, Seq<char>>, nat)>
    decreases outcomes.len(),
{
    if outcomes.len() == 0 {
        None
    } else {
        match judged(attempt, outcomes[0]) {
            ProgressView::Found(extraction) => Some((Ok(extraction), 1nat)),
            ProgressView::Exhausted(message) => Some((Err(message), 1nat)),
            ProgressView::Retry(next) => match probe_end(next, outcomes.drop_first()) {
                Some((end, runs)) => Some((end, runs + 1)),
                None => None,
            },
        }
    }
}

/// The attempt that a probe has reached after `failures` unusable runs.
pub open spec fn attempt_after(attempt: AttemptView, failures: nat) -> AttemptView
    recommends
        failures <= attempt.remaining.len(),
{
    if failures == 0 {
        attempt
    } else {
        AttemptView {
            device: attempt.device,
            hint: Some(attempt.remaining[failures - 1]),
            remaining: attempt.remaining.skip(failures as int),
        }
    }
}

/// The hints tried by default.
pub fn default_hints() -> (r: Vec<String>)
    ensures
        string_views(r@) == standard_hints(),
{
    let mut hints: Vec<String> = Vec::new();
    hints.push("ata".to_owned());
    hints.push("sat".to_owned());
    hints.push("scsi".to_owned());
    hints.push("nvme".to_owned());
    hints.push("sata".to_owned());
    assert(string_views(hints@) =~= standard_hints());
    hints
}

fn failure_for(device: &String) -> (r: ProbeFailed)
    ensures
        r@ == failure_message(device@),
{
    let mut message = "Failed for device: ".to_owned();
    message.append(device.as_str());
    message.append(" (all device-type hints exhausted)");
    ProbeFailed { message }
}

impl Attempt {
    /// Begins a probe of `device` with the given list of hints.
    pub fn first(device: &str, hints: &Vec<String>) -> (r: Attempt)
        ensures
            r@ == first_attempt(device@, string_views(hints@)),
    {
        let mut named: Vec<String> = Vec::new();
        let mut i: usize = 0;
        while i < hints.len()
            invariant
                i <= hints.len(),
                string_views(named@) == named_hints(string_views(hints@).take(i as int)),
            decreases hints.len() - i,
        {
            let ghost all = string_views(hints@);
            let ghost before = string_views(named@);
            proof {
                assert(all.take(i + 1).drop_last() =~= all.take(i as int));
                assert(all.take(i + 1).last() == hints@[i as int]@);
            }
            if !hints[i].as_str().is_empty() {
                named.push(hints[i].clone());
                proof {
                    assert(string_views(named@) =~= before.push(hints@[i as int]@));
                }
            }
            i += 1;
        }
        proof {
            assert(string_views(hints@).take(hints.len() as int) =~= string_views(hints@));
        }
        Attempt { device: device.to_owned(), hint: None, remaining: named }
    }

    /// The arguments to run the diagnostics utility with.
    pub fn arguments(&self) -> (r: Vec<String>)
        ensures
            string_views(r@) == command_arguments(self@),
    {
        let mut arguments: Vec<String> = Vec::new();
        arguments.push("--json".to_owned());
        arguments.push("-a".to_owned());
        match &self.hint {
            Some(hint) => {
                arguments.push("-d".to_owned());
                arguments.push(hint.clone());
            },
            None => {},
        }
        arguments.push(self.device.clone());
        assert(string_views(arguments@) =~= command_arguments(self@));
        arguments
    }

    /// Decides how the probe goes on, given what was extracted from the
    /// output of this run.
    pub fn judge(self, outcome: Result<Extraction, Unusable>) -> (r: Progress)
        ensures
            r@ == judged(self@, outcome_view(outcome)),
    {
        match outcome {
            Ok(extraction) => Progress::Found(extraction),
            Err(_) => {
                if self.remaining.len() > 0 {
                    let ghost before = string_views(self.remaining@);
                    let mut remaining = self.remaining;
                    let hint = remaining.remove(0);
                    proof {
                        assert(string_views(remaining@) =~= before.drop_first());
                        assert(hint@ == before[0]);
                    }
                    Progress::Retry(Attempt { device: self.device, hint: Some(hint), remaining })
                } else {
                    Progress::Exhausted(failure_for(&self.device))
                }
            },
        }
    }

    /// Decides how the probe goes on, given the raw output of this run. A run
    /// that could not be made counts as one with empty output, which is
    /// unusable.
    pub fn conclude(self, output: &[u8]) -> (r: Progress)
        ensures
            r@ == judged(self@, extraction_of_output(output@)),
    {
        let outcome = parse_smartctl_output(output);
        self.judge(outcome)
    }
}

/// A list without an empty hint is kept as it is.
pub proof fn lemma_named_hints_keep(hints: Seq<Seq<char>>)
    requires
        forall|i: int| 0 <= i < hints.len() ==> (#[trigger] hints[i]).len() > 0,
    ensures
        named_hints(hints) == hints,
    decreases hints.len(),
{
    if hints.len() > 0 {
        lemma_named_hints_keep(hints.drop_last());
        assert(hints.drop_last().push(hints.last()) =~= hints);
    }
}

/// A probe with the standard hints runs first without a hint, and after an
/// unusable run with the hint "ata"; the other hints follow in their order.
pub proof fn standard_probe_order(device: Seq<char>)
    ensures
        ({
            let first = first_attempt(device, standard_hints());
            let second = attempt_after(first, 1);
            &&& command_arguments(first) == seq!["--json"@, "-a"@, device]
            &&& first.remaining == standard_hints()
            &&& command_arguments(second) == seq!["--json"@, "-a"@, "-d"@, "ata"@, device]
            &&& second.remaining == seq!["sat"@, "scsi"@, "nvme"@, "sata"@]
            &&& forall|outcome: Unusable|
                judged(first, Err::<ExtractionView, Unusable>(outcome)) == ProgressView::Retry(
                    second,
                )
        }),
{
    reveal_strlit("ata");
    reveal_strlit("sat");
    reveal_strlit("scsi");
    reveal_strlit("nvme");
    reveal_strlit("sata");
    lemma_named_hints_keep(standard_hints());
    let first = first_attempt(device, standard_hints());
    assert(first.remaining.skip(1) =~= seq!["sat"@, "scsi"@, "nvme"@, "sata"@]);
    assert(first.remaining.drop_first() =~= first.remaining.skip(1));
}

/// The probe ends with the first usable run: with what that run gives, and
/// without a run after it. Before it, one run was made without a hint and one
/// for each hint up to the one that succeeded.
pub proof fn first_usable_run_ends_probe(
    attempt: AttemptView,
    outcomes: Seq<Result<ExtractionView, Unusable>>,
    failures: nat,
)
    requires
        failures < outcomes.len(),
        failures <= attempt.remaining.len(),
        forall|k: int| 0 <= k < failures ==> outcomes[k] is Err,
        outcomes[failures as int] is Ok,
    ensures
        probe_end(attempt, outcomes) == Some(
            (Ok::<ExtractionView, Seq<char>>(outcomes[failures as int]->Ok_0), failures + 1),
        ),
        judged(attempt_after(attempt, failures), outcomes[failures as int]) == ProgressView::Found(
            outcomes[failures as int]->Ok_0,
        ),
    decreases failures,
{
    if failures > 0 {
        let next = AttemptView {
            device: attempt.device,
            hint: Some(attempt.remaining[0]),
            remaining: attempt.remaining.drop_first(),
        };
        let rest = outcomes.drop_first();
        assert(judged(attempt, outcomes[0]) == ProgressView::Retry(next));
        assert forall|k: int| 0 <= k < failures - 1 implies rest[k] is Err by {
            assert(rest[k] == outcomes[k + 1]);
        }
        assert(rest[failures - 1] == outcomes[failures as int]);
        first_usable_run_ends_probe(next, rest, (failures - 1) as nat);
    }
}

/// A probe all of whose runs are unusable fails: after the run without a hint
/// and one run for each hint, with a message that names the device.
pub proof fn unusable_runs_exhaust_probe(
    attempt: AttemptView,
    outcomes: Seq<Result<ExtractionView, Unusable>>,
)
    requires
        outcomes.len() > attempt.remaining.len(),
        forall|k: int| 0 <= k <= attempt.remaining.len() ==> outcomes[k] is Err,
    ensures
        probe_end(attempt, outcomes) == Some(
            (
                Err::<ExtractionView, Seq<char>>(failure_message(attempt.device)),
                attempt.remaining.len() + 1,
            ),
        ),
    decreases attempt.remaining.len(),
{
    if attempt.remaining.len() > 0 {
        let next = AttemptView {
            device: attempt.device,
            hint: Some(attempt.remaining[0]),
            remaining: attempt.remaining.drop_first(),
        };
        let rest = outcomes.drop_first();
        assert(judged(attempt, outcomes[0]) == ProgressView::Retry(next));
        assert forall|k: int| 0 <= k <= next.remaining.len() implies rest[k] is Err by {
            assert(rest[k] == outcomes[k + 1]);
        }
        unusable_runs_exhaust_probe(next, rest);
    } else {
        assert(outcomes[0] is Err);
    }
}

} // verus!
