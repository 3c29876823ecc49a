use train_status::failure::Failure;
use train_status::request::{parse_arguments, parse_request, parse_train_id, Request};

fn run(train_id: &str, train_number: &str) -> Request {
    Request::Train { train_id: train_id.to_string(), train_number: train_number.to_string() }
}

#[test]
fn an_identifier_without_separator_is_malformed() {
    let failure = parse_train_id("77").unwrap_err();
    assert_eq!(failure, Failure::MalformedTrainId);
    assert!(failure.message().starts_with("Invalid train ID format"));
    assert_eq!(
        failure.message(),
        "Invalid train ID format. Expected format: <train_number>-<date>"
    );
    assert_eq!(failure.exit_code(), 0);
}

#[test]
fn a_request_without_separator_asks_for_nothing() {
    let failure = parse_request("77").unwrap_err();
    assert_eq!(failure, Failure::UnknownRequest);
    assert!(failure.message().starts_with("Invalid train ID format"));
    assert_eq!(
        failure.message(),
        "Invalid train ID format. Expected format: <train_number>-<date> or 'all'"
    );
    assert_eq!(failure.exit_code(), 0);
}

#[test]
fn an_identifier_is_a_number_and_a_day() {
    assert_eq!(parse_train_id("7-27"), Ok(run("7-27", "7")));
    assert_eq!(parse_train_id("612-5"), Ok(run("612-5", "612")));
    assert_eq!(parse_request("7-27"), Ok(run("7-27", "7")));
}

#[test]
fn either_side_of_the_separator_may_be_empty() {
    assert_eq!(parse_train_id("-5"), Ok(run("-5", "")));
    assert_eq!(parse_train_id("7-"), Ok(run("7-", "7")));
    assert_eq!(parse_train_id("-"), Ok(run("-", "")));
}

#[test]
fn an_identifier_with_two_separators_is_malformed() {
    assert_eq!(parse_train_id("7-2-3"), Err(Failure::MalformedTrainId));
    assert_eq!(parse_train_id("--"), Err(Failure::MalformedTrainId));
    assert_eq!(parse_train_id("7--"), Err(Failure::MalformedTrainId));
    assert_eq!(parse_request("7-2-3"), Err(Failure::MalformedTrainId));
    assert_eq!(parse_train_id(""), Err(Failure::MalformedTrainId));
}

#[test]
fn all_asks_for_every_run() {
    assert_eq!(parse_request("all"), Ok(Request::AllTrains));
}

#[test]
fn other_words_ask_for_nothing() {
    assert_eq!(parse_request(""), Err(Failure::UnknownRequest));
    assert_eq!(parse_request("ALL"), Err(Failure::UnknownRequest));
    assert_eq!(parse_request("alls"), Err(Failure::UnknownRequest));
    assert_eq!(parse_request("al"), Err(Failure::UnknownRequest));
    assert_eq!(parse_request("7"), Err(Failure::UnknownRequest));
}

#[test]
fn one_argument_is_a_request() {
    assert_eq!(parse_arguments("trains", &vec!["all".to_string()]), Ok(Request::AllTrains));
    assert_eq!(parse_arguments("trains", &vec!["7-27".to_string()]), Ok(run("7-27", "7")));
    assert_eq!(
        parse_arguments("trains", &vec!["seven".to_string()]),
        Err(Failure::UnknownRequest)
    );
}

#[test]
fn any_other_number_of_arguments_shows_the_usage() {
    let usage = Failure::Usage { program: "trains".to_string() };
    assert_eq!(parse_arguments("trains", &Vec::new()), Err(usage.clone()));
    assert_eq!(
        parse_arguments("trains", &vec!["7-27".to_string(), "all".to_string()]),
        Err(usage.clone())
    );
    assert_eq!(
        usage.message(),
        "Usage: trains [<train_id>|<train_number>|all]\nTrain ID format: '7-27' for the train 7 that left the station on the 27th, or 7-4 for train 7 that left the station on the 4th of the month."
    );
    assert_eq!(usage.exit_code(), 0);
}

#[test]
fn failures_of_the_timetable_end_with_an_error_status() {
    let network = Failure::Network { reason: "connection refused".to_string() };
    assert_eq!(network.message(), "Error: connection refused");
    assert_eq!(network.exit_code(), 1);
    let no_runs = Failure::NoRuns { train_id: "7-27".to_string() };
    assert_eq!(no_runs.message(), "No run listed for train ID: 7-27");
    assert_eq!(no_runs.exit_code(), 101);
    assert_eq!(Failure::NoStations.message(), "The train has no stations");
    assert_eq!(Failure::NoStations.exit_code(), 101);
    let off_route = Failure::UnknownNextStation { code: "WAS".to_string() };
    assert_eq!(off_route.message(), "The next station is not on the route: WAS");
    assert_eq!(off_route.exit_code(), 101);
}
