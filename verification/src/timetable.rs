//! The answer to a request, from what the timetable holds.
//!
//! The timetable lists the runs under the numbers of their trains.  The
//! order of the groups is the order in which the reports of all runs are
//! given.

use vstd::prelude::*;
use vstd::string::*;
use crate::failure::{Failure, FailureView};
use crate::report::{display_train, outcome, report_of};
use crate::request::{Request, RequestView};
use crate::search::{first_index, first_index_within, lemma_found_first};
use crate::text::texts;
use crate::train::Train;

verus! {

/// The runs that the timetable lists under one train number.
#[derive(Clone, Debug, PartialEq, Eq)]
pub struct TrainGroup {
    /// The number of the train.
    pub train_number: String,
    /// The runs of that train, as the timetable lists them.
    pub runs: Vec<Train>,
}

/// The train numbers of the groups, in the order of the groups.
pub open spec fn numbers_of(groups: Seq<TrainGroup>) -> Seq<Seq<char>> {
    Seq::new(groups.len(), |i: int| groups[i].train_number@)
}

/// The operator whose runs are shown when all runs are asked for.
pub open spec fn shown_provider() -> Seq<char> {
    "Amtrak"@
}

/// The run that stands for the train with the number `train_number`: the
/// first run of the first group with that number.
pub open spec fn run_of(groups: Seq<TrainGroup>, train_id: Seq<char>, train_number: Seq<char>)
    -> Result<Train, FailureView> {
    match first_index(numbers_of(groups), train_number) {
        Some(g) => if groups[g].runs@.len() == 0 {
            Err(FailureView::NoRuns { train_id })
        } else {
            Ok(groups[g].runs@[0])
        },
        None => Err(FailureView::TrainNotFound { train_id }),
    }
}

/// What is to be said of the run with the identifier `train_id`.
pub open spec fn train_answer(
    groups: Seq<TrainGroup>,
    train_id: Seq<char>,
    train_number: Seq<char>,
) -> Result<Seq<Seq<char>>, FailureView> {
    match run_of(groups, train_id, train_number) {
        Ok(train) => report_of(train),
        Err(failure) => Err(failure),
    }
}

/// The listing `so_far`, with `train` added where `provider` operates it:
/// its report and an empty line.  A failure, in the listing so far or in
/// the report, is the result.
pub open spec fn listed_one(
    so_far: Result<Seq<Seq<char>>, FailureView>,
    train: Train,
    provider: Seq<char>,
) -> Result<Seq<Seq<char>>, FailureView> {
    match so_far {
        Ok(lines) => if train.provider@ == provider {
            match report_of(train) {
                Ok(report) => Ok(lines + report + seq![Seq::<char>::empty()]),
                Err(failure) => Err(failure),
            }
        } else {
            Ok(lines)
        },
        Err(failure) => Err(failure),
    }
}

/// The listing `so_far`, with the first `n` of `runs` added.
pub open spec fn listed_runs(
    so_far: Result<Seq<Seq<char>>, FailureView>,
    runs: Seq<Train>,
    provider: Seq<char>,
    n: int,
) -> Result<Seq<Seq<char>>, FailureView>
    decreases n,
{
    if n <= 0 {
        so_far
    } else {
        listed_one(listed_runs(so_far, runs, provider, n - 1), runs[n - 1], provider)
    }
}

/// The listing of the runs of the first `n` groups that `provider`
/// operates.
pub open spec fn listed_groups(groups: Seq<TrainGroup>, provider: Seq<char>, n: int) -> Result<
    Seq<Seq<char>>,
    FailureView,
>
    decreases n,
{
    if n <= 0 {
        Ok(Seq::empty())
    } else {
        listed_runs(
            listed_groups(groups, provider, n - 1),
            groups[n - 1].runs@,
            provider,
            groups[n - 1].runs@.len() as int,
        )
    }
}

/// What is to be said of all the runs that `provider` operates: their
/// reports, each followed by an empty line, in the order of the timetable;
/// or the failure of the first run of which no report can be made.
pub open spec fn listing(groups: Seq<TrainGroup>, provider: Seq<char>) -> Result<
    Seq<Seq<char>>,
    FailureView,
> {
    listed_groups(groups, provider, groups.len() as int)
}

/// The answer to a request.
pub open spec fn answer(request: RequestView, groups: Seq<TrainGroup>) -> Result<
    Seq<Seq<char>>,
    FailureView,
> {
    match request {
        RequestView::Train { train_id, train_number } => train_answer(
            groups,
            train_id,
            train_number,
        ),
        RequestView::AllTrains => listing(groups, shown_provider()),
    }
}

/// A failure among the first `k` runs stays the result, whatever runs
/// follow.
pub proof fn lemma_failure_stays_in_runs(
    so_far: Result<Seq<Seq<char>>, FailureView>,
    failure: FailureView,
    runs: Seq<Train>,
    provider: Seq<char>,
    k: int,
    n: int,
)
    requires
        k <= n,
        listed_runs(so_far, runs, provider, k) == Err::<Seq<Seq<char>>, FailureView>(failure),
    ensures
        listed_runs(so_far, runs, provider, n) == Err::<Seq<Seq<char>>, FailureView>(failure),
    decreases n - k,
{
    if k < n {
        lemma_failure_stays_in_runs(so_far, failure, runs, provider, k, n - 1);
    }
}

/// A failure among the first `k` groups stays the result, whatever groups
/// follow.
pub proof fn lemma_failure_stays_in_groups(
    failure: FailureView,
    groups: Seq<TrainGroup>,
    provider: Seq<char>,
    k: int,
    n: int,
)
    requires
        k <= n,
        listed_groups(groups, provider, k) == Err::<Seq<Seq<char>>, FailureView>(failure),
    ensures
        listed_groups(groups, provider, n) == Err::<Seq<Seq<char>>, FailureView>(failure),
    decreases n - k,
{
    if k < n {
        lemma_failure_stays_in_groups(failure, groups, provider, k, n - 1);
        lemma_failure_stays_in_runs(
            Err(failure),
            failure,
            groups[n - 1].runs@,
            provider,
            0,
            groups[n - 1].runs@.len() as int,
        );
    }
}

/// The position of the first group with the number `train_number`.
pub fn find_group(groups: &Vec<TrainGroup>, train_number: &String) -> (found: Option<usize>)
    ensures
        match found {
            Some(g) => g < groups.len() && first_index(numbers_of(groups@), train_number@)
                == Some(g as int),
            None => first_index(numbers_of(groups@), train_number@) is None,
        },
{
    let ghost numbers = numbers_of(groups@);
    let mut g: usize = 0;
    while g < groups.len()
        invariant
            g <= groups.len(),
            numbers == numbers_of(groups@),
            first_index_within(numbers, train_number@, g as int) is None,
        decreases groups.len() - g,
    {
        if groups[g].train_number == *train_number {
            proof {
                assert(numbers[g as int] == train_number@);
                lemma_found_first(numbers, train_number@, g as int);
            }
            return Some(g);
        }
        g = g + 1;
    }
    None
}

/// The report of the run with the identifier `train_id`, which is a run
/// of the train with the number `train_number`.
pub fn display_train_id(train_id: &String, train_number: &String, groups: &Vec<TrainGroup>) -> (result:
    Result<Vec<String>, Failure>)
    ensures
        outcome(result) == train_answer(groups@, train_id@, train_number@),
{
    match find_group(groups, train_number) {
        Some(g) => if groups[g].runs.len() == 0 {
            Err(Failure::NoRuns { train_id: train_id.clone() })
        } else {
            display_train(&groups[g].runs[0])
        },
        None => Err(Failure::TrainNotFound { train_id: train_id.clone() }),
    }
}

/// The reports of all the runs that `provider` operates, each followed by
/// an empty line.
pub fn display_all_trains(groups: &Vec<TrainGroup>, provider: &str) -> (result: Result<
    Vec<String>,
    Failure,
>)
    ensures
        outcome(result) == listing(groups@, provider@),
{
    let wanted = String::from_str(provider);
    let mut lines: Vec<String> = Vec::new();
    let mut g: usize = 0;
    assert(texts(lines@) == Seq::<Seq<char>>::empty());
    while g < groups.len()
        invariant
            g <= groups.len(),
            wanted@ == provider@,
            listed_groups(groups@, provider@, g as int) == Ok::<Seq<Seq<char>>, FailureView>(
                texts(lines@),
            ),
        decreases groups.len() - g,
    {
        let runs = &groups[g].runs;
        let mut r: usize = 0;
        while r < runs.len()
            invariant
                r <= runs.len(),
                g < groups.len(),
                runs == &groups[g as int].runs,
                wanted@ == provider@,
                listed_runs(
                    listed_groups(groups@, provider@, g as int),
                    runs@,
                    provider@,
                    r as int,
                ) == Ok::<Seq<Seq<char>>, FailureView>(texts(lines@)),
            decreases runs.len() - r,
        {
            if runs[r].provider == wanted {
                let ghost before = texts(lines@);
                match display_train(&runs[r]) {
                    Ok(report) => {
                        let mut report = report;
                        let ghost report_texts = texts(report@);
                        lines.append(&mut report);
                        lines.push(String::new());
                        assert(texts(lines@) == before + report_texts + seq![
                            Seq::<char>::empty(),
                        ]);
                    },
                    Err(failure) => {
                        proof {
                            let ghost in_group = listed_runs(
                                listed_groups(groups@, provider@, g as int),
                                runs@,
                                provider@,
                                r + 1,
                            );
                            assert(in_group == Err::<Seq<Seq<char>>, FailureView>(failure@));
                            lemma_failure_stays_in_runs(
                                listed_groups(groups@, provider@, g as int),
                                failure@,
                                runs@,
                                provider@,
                                r + 1,
                                runs@.len() as int,
                            );
                            lemma_failure_stays_in_groups(
                                failure@,
                                groups@,
                                provider@,
                                g + 1,
                                groups@.len() as int,
                            );
                        }
                        return Err(failure);
                    },
                }
            }
            r = r + 1;
        }
        g = g + 1;
    }
    Ok(lines)
}

/// Answers a request from what the timetable holds.
pub fn respond(request: &Request, groups: &Vec<TrainGroup>) -> (result: Result<
    Vec<String>,
    Failure,
>)
    ensures
        outcome(result) == answer(request@, groups@),
{
    match request {
        Request::Train { train_id, train_number } => display_train_id(
            train_id,
            train_number,
            groups,
        ),
        Request::AllTrains => display_all_trains(groups, "Amtrak"),
    }
}

} // verus!
