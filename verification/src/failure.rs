//! What can go wrong between a request on the command line and a report,
//! and what the user is told about it.

use vstd::prelude::*;
use vstd::string::*;

verus! {

/// The reasons for which no report is made.
#[derive(Clone, Debug, PartialEq, Eq)]
pub enum Failure {
    /// The command line does not hold exactly one request.
    Usage { program: String },
    /// The request has a `-` but is not a train number, one `-` and a day.
    MalformedTrainId,
    /// The request is neither the identifier of a run nor `all`.
    UnknownRequest,
    /// The timetable holds no train with the number of the requested run.
    TrainNotFound { train_id: String },
    /// The timetable lists the number of the requested run without a run.
    NoRuns { train_id: String },
    /// A run has no stations.
    NoStations,
    /// No station of a run has the code of the station it approaches.
    UnknownNextStation { code: String },
    /// The timetable could not be fetched.
    Network { reason: String },
}

/// A failure, with its texts as sequences of characters.
pub enum FailureView {
    Usage { program: Seq<char> },
    MalformedTrainId,
    UnknownRequest,
    TrainNotFound { train_id: Seq<char> },
    NoRuns { train_id: Seq<char> },
    NoStations,
    UnknownNextStation { code: Seq<char> },
    Network { reason: Seq<char> },
}

impl View for Failure {
    type V = FailureView;

    open spec fn view(&self) -> FailureView {
        match *self {
            Failure::Usage { program } => FailureView::Usage { program: program@ },
            Failure::MalformedTrainId => FailureView::MalformedTrainId,
            Failure::UnknownRequest => FailureView::UnknownRequest,
            Failure::TrainNotFound { train_id } => FailureView::TrainNotFound {
                train_id: train_id@,
            },
            Failure::NoRuns { train_id } => FailureView::NoRuns { train_id: train_id@ },
            Failure::NoStations => FailureView::NoStations,
            Failure::UnknownNextStation { code } => FailureView::UnknownNextStation {
                code: code@,
            },
            Failure::Network { reason } => FailureView::Network { reason: reason@ },
        }
    }
}

/// What the user is told about a failure.
pub open spec fn message_text(failure: FailureView) -> Seq<char> {
    match failure {
        FailureView::Usage { program } => "Usage: "@ + program
            + " [<train_id>|<train_number>|all]\nTrain ID format: '7-27' for the train 7 that left the station on the 27th, or 7-4 for train 7 that left the station on the 4th of the month."@,
        FailureView::MalformedTrainId => "Invalid train ID format. Expected format: <train_number>-<date>"@,
        FailureView::UnknownRequest => "Invalid train ID format. Expected format: <train_number>-<date> or 'all'"@,
        FailureView::TrainNotFound { train_id } => "No train found with ID: "@ + train_id
            + ". Check the date and timetables, has the train left the origin station yet?"@,
        FailureView::NoRuns { train_id } => "No run listed for train ID: "@ + train_id,
        FailureView::NoStations => "The train has no stations"@,
        FailureView::UnknownNextStation { code } => "The next station is not on the route: "@
            + code,
        FailureView::Network { reason } => "Error: "@ + reason,
    }
}

/// The failure is the user's to mend: a request that cannot be read, or a
/// run that the timetable does not hold.
pub open spec fn is_user_error(failure: FailureView) -> bool {
    failure is Usage || failure is MalformedTrainId || failure is UnknownRequest
        || failure is TrainNotFound
}

/// The status with which the program ends after a failure: 0 where the
/// failure is the user's to mend, 1 where the timetable could not be
/// fetched, 101 where the timetable holds a run that cannot be drawn.
pub open spec fn exit_status(failure: FailureView) -> int {
    if is_user_error(failure) {
        0
    } else if failure is Network {
        1
    } else {
        101
    }
}

impl Failure {
    /// What the user is told about the failure.
    pub fn message(&self) -> (text: String)
        ensures
            text@ == message_text(self@),
    {
        match self {
            Failure::Usage { program } => {
                let mut text = String::from_str("Usage: ");
                text.append(program.as_str());
                text.append(
                    " [<train_id>|<train_number>|all]\nTrain ID format: '7-27' for the train 7 that left the station on the 27th, or 7-4 for train 7 that left the station on the 4th of the month.",
                );
                text
            },
            Failure::MalformedTrainId => String::from_str(
                "Invalid train ID format. Expected format: <train_number>-<date>",
            ),
            Failure::UnknownRequest => String::from_str(
                "Invalid train ID format. Expected format: <train_number>-<date> or 'all'",
            ),
            Failure::TrainNotFound { train_id } => {
                let mut text = String::from_str("No train found with ID: ");
                text.append(train_id.as_str());
                text.append(
                    ". Check the date and timetables, has the train left the origin station yet?",
                );
                text
            },
            Failure::NoRuns { train_id } => {
                let mut text = String::from_str("No run listed for train ID: ");
                text.append(train_id.as_str());
                text
            },
            Failure::NoStations => String::from_str("The train has no stations"),
            Failure::UnknownNextStation { code } => {
                let mut text = String::from_str("The next station is not on the route: ");
                text.append(code.as_str());
                text
            },
            Failure::Network { reason } => {
                let mut text = String::from_str("Error: ");
                text.append(reason.as_str());
                text
            },
        }
    }

    /// The status with which the program ends after the failure.
    pub fn exit_code(&self) -> (code: i32)
        ensures
            code == exit_status(self@),
    {
        match self {
            Failure::Usage { .. } => 0,
            Failure::MalformedTrainId => 0,
            Failure::UnknownRequest => 0,
            Failure::TrainNotFound { .. } => 0,
            Failure::Network { .. } => 1,
            _ => 101,
        }
    }
}

} // verus!
