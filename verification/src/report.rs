//! The report of a train run: a title, the arrival at the station that the
//! train approaches, and the diagram of the route.

use vstd::prelude::*;
use vstd::string::*;
use crate::clock::{duration_between, timestamp_string, timestamp_text, whole_seconds};
use crate::delay::{arrival_delta_to_human_string, delay_text};
use crate::failure::{Failure, FailureView};
use crate::route::{diagram, find_station, has_code, render_route};
use crate::search::first_index;
use crate::text::texts;
use crate::train::{codes_of, Station, Train};

verus! {

/// The first line of a report: the run, where it starts and ends, and the
/// name of its route between double quotes.
pub open spec fn title_text(
    train_id: Seq<char>,
    origin: Seq<char>,
    destination: Seq<char>,
    route_name: Seq<char>,
) -> Seq<char> {
    "Train ID "@ + train_id + " from "@ + origin + " to "@ + destination + " \""@ + route_name
        + "\""@
}

/// A text that may be missing, with `Unknown` in its place when it is.
pub open spec fn or_unknown(text: Option<Seq<char>>) -> Seq<char> {
    match text {
        Some(text) => text,
        None => "Unknown"@,
    }
}

/// The lines on the station that the train approaches: the station twice,
/// the scheduled arrival, the arrival between double quotes, and the delay.
pub open spec fn status_text(
    name: Seq<char>,
    code: Seq<char>,
    scheduled: Seq<char>,
    actual: Option<Seq<char>>,
    delay: Option<Seq<char>>,
) -> Seq<Seq<char>> {
    seq![
        "Next station: "@ + name + " ("@ + code + ")"@,
        "\tNext Station: "@ + name + " ("@ + code + ")"@,
        "\t\tScheduled: "@ + scheduled,
        "\t\tActual: \""@ + or_unknown(actual) + "\""@,
        "\t\t"@ + or_unknown(delay),
    ]
}

/// The text of the arrival at `station`, if an arrival is known.
pub open spec fn arrival_text(station: Station) -> Option<Seq<char>> {
    match station.arrival {
        Some(arrival) => Some(timestamp_text(arrival.utc, arrival.offset)),
        None => None,
    }
}

/// The delay of the arrival at `station` in whole seconds, if an arrival is
/// known: the arrival minus the scheduled arrival.
pub open spec fn arrival_delay(station: Station) -> Option<int> {
    match station.arrival {
        Some(arrival) => Some(
            whole_seconds(duration_between(arrival.utc, station.schedule_arrival.utc)),
        ),
        None => None,
    }
}

/// The text of the delay of the arrival at `station`, if an arrival is
/// known.
pub open spec fn arrival_delay_text(station: Station) -> Option<Seq<char>> {
    match arrival_delay(station) {
        Some(seconds) => Some(delay_text(seconds)),
        None => None,
    }
}

/// The lines on `station` as the station that the train approaches.
pub open spec fn station_status_text(station: Station) -> Seq<Seq<char>> {
    status_text(
        station.name@,
        station.code@,
        timestamp_text(station.schedule_arrival.utc, station.schedule_arrival.offset),
        arrival_text(station),
        arrival_delay_text(station),
    )
}

/// The station that the train approaches: the first one with the code
/// `train.event_code`.
pub open spec fn next_station(train: Train) -> Station {
    train.stations@[first_index(codes_of(train.stations@), train.event_code@).unwrap()]
}

/// The report of a run one of whose stations has the code
/// `train.event_code`.
pub open spec fn report_text(train: Train) -> Seq<Seq<char>> {
    seq![
        title_text(
            train.train_id@,
            train.origin_code@,
            train.destination_code@,
            train.route_name@,
        ),
    ] + station_status_text(next_station(train)) + diagram(
        codes_of(train.stations@),
        train.destination_code@,
        train.event_code@,
    )
}

/// Why no report can be made of `train`, if that is so: it has no
/// stations, or none of them has the code `train.event_code`.
pub open spec fn report_failure(train: Train) -> Option<FailureView> {
    if train.stations@.len() == 0 {
        Some(FailureView::NoStations)
    } else if !has_code(codes_of(train.stations@), train.event_code@) {
        Some(FailureView::UnknownNextStation { code: train.event_code@ })
    } else {
        None
    }
}

/// What is to be said of `train`: its report, or why none can be made.
pub open spec fn report_of(train: Train) -> Result<Seq<Seq<char>>, FailureView> {
    match report_failure(train) {
        Some(failure) => Err(failure),
        None => Ok(report_text(train)),
    }
}

/// What a result says: the texts of its lines, or the failure.
pub open spec fn outcome(result: Result<Vec<String>, Failure>) -> Result<
    Seq<Seq<char>>,
    FailureView,
> {
    match result {
        Ok(lines) => Ok(texts(lines@)),
        Err(failure) => Err(failure@),
    }
}

/// The first line of a report.
pub fn title_line(train_id: &str, origin: &str, destination: &str, route_name: &str) -> (line:
    String)
    ensures
        line@ == title_text(train_id@, origin@, destination@, route_name@),
{
    let mut line = String::from_str("Train ID ");
    line.append(train_id);
    line.append(" from ");
    line.append(origin);
    line.append(" to ");
    line.append(destination);
    line.append(" \"");
    line.append(route_name);
    line.append("\"");
    line
}

/// `text`, or `Unknown` in its place.
fn text_or_unknown<'a>(text: &'a Option<String>) -> (shown: &'a str)
    ensures
        shown@ == or_unknown(
            match *text {
                Some(text) => Some(text@),
                None => None,
            },
        ),
{
    match text {
        Some(text) => text.as_str(),
        None => "Unknown",
    }
}

/// The lines on the station that the train approaches, from its name and
/// code and the texts of the scheduled arrival, the arrival and the delay.
pub fn status_lines(
    name: &str,
    code: &str,
    scheduled: &str,
    actual: &Option<String>,
    delay: &Option<String>,
) -> (lines: Vec<String>)
    ensures
        texts(lines@) == status_text(
            name@,
            code@,
            scheduled@,
            match *actual {
                Some(text) => Some(text@),
                None => None,
            },
            match *delay {
                Some(text) => Some(text@),
                None => None,
            },
        ),
{
    let mut first = String::from_str("Next station: ");
    first.append(name);
    first.append(" (");
    first.append(code);
    first.append(")");
    let mut second = String::from_str("\tNext Station: ");
    second.append(name);
    second.append(" (");
    second.append(code);
    second.append(")");
    let mut third = String::from_str("\t\tScheduled: ");
    third.append(scheduled);
    let mut fourth = String::from_str("\t\tActual: \"");
    fourth.append(text_or_unknown(actual));
    fourth.append("\"");
    let mut fifth = String::from_str("\t\t");
    fifth.append(text_or_unknown(delay));
    let mut lines: Vec<String> = Vec::new();
    lines.push(first);
    lines.push(second);
    lines.push(third);
    lines.push(fourth);
    lines.push(fifth);
    assert(texts(lines@) =~= status_text(
        name@,
        code@,
        scheduled@,
        match *actual {
            Some(text) => Some(text@),
            None => None,
        },
        match *delay {
            Some(text) => Some(text@),
            None => None,
        },
    ));
    lines
}

/// The lines on `station` as the station that the train approaches.
pub fn station_status_lines(station: &Station) -> (lines: Vec<String>)
    ensures
        texts(lines@) == station_status_text(*station),
{
    let scheduled = timestamp_string(
        &station.schedule_arrival.utc,
        &station.schedule_arrival.offset,
    );
    let (actual, delay) = match station.arrival {
        Some(arrival) => {
            let delta = arrival.utc.signed_duration_since(station.schedule_arrival.utc);
            (
                Some(timestamp_string(&arrival.utc, &arrival.offset)),
                Some(arrival_delta_to_human_string(delta)),
            )
        },
        None => (None, None),
    };
    status_lines(
        station.name.as_str(),
        station.code.as_str(),
        scheduled.as_str(),
        &actual,
        &delay,
    )
}

/// The report of a train run, line by line: the title, the lines on the
/// station that the train approaches, and the diagram of the route.  No
/// report is made of a run without stations, nor of one that approaches a
/// station that is not on its route.
pub fn display_train(train: &Train) -> (result: Result<Vec<String>, Failure>)
    ensures
        outcome(result) == report_of(*train),
{
    if train.stations.len() == 0 {
        return Err(Failure::NoStations);
    }
    let next = match find_station(&train.stations, &train.event_code) {
        Some(next) => next,
        None => {
            return Err(Failure::UnknownNextStation { code: train.event_code.clone() });
        },
    };
    let mut lines: Vec<String> = Vec::new();
    lines.push(
        title_line(
            train.train_id.as_str(),
            train.origin_code.as_str(),
            train.destination_code.as_str(),
            train.route_name.as_str(),
        ),
    );
    let mut status = station_status_lines(&train.stations[next]);
    let mut route = render_route(&train.stations, &train.destination_code, &train.event_code);
    let ghost title = texts(lines@);
    let ghost status_texts = texts(status@);
    let ghost route_texts = texts(route@);
    lines.append(&mut status);
    lines.append(&mut route);
    assert(texts(lines@) == report_text(*train)) by {
        assert(title == seq![
            title_text(
                train.train_id@,
                train.origin_code@,
                train.destination_code@,
                train.route_name@,
            ),
        ]);
        assert(texts(lines@) == title + status_texts + route_texts);
    }
    Ok(lines)
}

} // verus!
