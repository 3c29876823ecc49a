use chrono::DateTime;
use train_status::clock::Timestamp;
use train_status::failure::Failure;
use train_status::report::{display_train, station_status_lines, status_lines, title_line};
use train_status::train::{Station, Train};

fn at(text: &str) -> Timestamp {
    let instant = DateTime::parse_from_rfc3339(text).unwrap();
    Timestamp { utc: instant.naive_utc(), offset: *instant.offset() }
}

fn station(code: &str, name: &str, scheduled: &str, arrival: Option<&str>) -> Station {
    Station {
        code: code.to_string(),
        name: name.to_string(),
        schedule_arrival: at(scheduled),
        arrival: arrival.map(at),
    }
}

fn regional(event_code: &str) -> Train {
    Train {
        train_id: "66-5".to_string(),
        origin_code: "PHL".to_string(),
        destination_code: "BOS".to_string(),
        route_name: "Northeast Regional".to_string(),
        provider: "Amtrak".to_string(),
        event_code: event_code.to_string(),
        stations: vec![
            station(
                "PHL",
                "Philadelphia 30th Street",
                "2023-09-05T14:30:00-04:00",
                Some("2023-09-05T14:28:00-04:00"),
            ),
            station(
                "NYP",
                "New York Penn",
                "2023-09-05T16:00:00-04:00",
                Some("2023-09-05T17:01:01-04:00"),
            ),
            station("BOS", "Boston South", "2023-09-05T20:15:00-04:00", None),
        ],
    }
}

#[test]
fn the_title_names_the_run_and_its_route() {
    assert_eq!(
        title_line("66-5", "PHL", "BOS", "Northeast Regional"),
        "Train ID 66-5 from PHL to BOS \"Northeast Regional\""
    );
    assert_eq!(title_line("", "", "", ""), "Train ID  from  to  \"\"");
}

#[test]
fn the_status_of_a_known_arrival() {
    let lines = status_lines(
        "New York Penn",
        "NYP",
        "2023-09-05 16:00:00 -04:00",
        &Some("2023-09-05 17:01:01 -04:00".to_string()),
        &Some("1 hour 1 minute 1 second late".to_string()),
    );
    assert_eq!(
        lines,
        vec![
            "Next station: New York Penn (NYP)",
            "\tNext Station: New York Penn (NYP)",
            "\t\tScheduled: 2023-09-05 16:00:00 -04:00",
            "\t\tActual: \"2023-09-05 17:01:01 -04:00\"",
            "\t\t1 hour 1 minute 1 second late",
        ]
    );
}

#[test]
fn the_status_of_an_unknown_arrival() {
    let lines = status_lines("Boston South", "BOS", "2023-09-05 20:15:00 -04:00", &None, &None);
    assert_eq!(
        lines,
        vec![
            "Next station: Boston South (BOS)",
            "\tNext Station: Boston South (BOS)",
            "\t\tScheduled: 2023-09-05 20:15:00 -04:00",
            "\t\tActual: \"Unknown\"",
            "\t\tUnknown",
        ]
    );
}

#[test]
fn the_status_of_a_late_station() {
    let late = station(
        "NYP",
        "New York Penn",
        "2023-09-05T16:00:00-04:00",
        Some("2023-09-05T17:01:01-04:00"),
    );
    assert_eq!(
        station_status_lines(&late),
        vec![
            "Next station: New York Penn (NYP)",
            "\tNext Station: New York Penn (NYP)",
            "\t\tScheduled: 2023-09-05 16:00:00 -04:00",
            "\t\tActual: \"2023-09-05 17:01:01 -04:00\"",
            "\t\t1 hour 1 minute 1 second late",
        ]
    );
}

#[test]
fn the_status_of_an_early_station() {
    let early = station(
        "PHL",
        "Philadelphia 30th Street",
        "2023-09-05T14:30:00-04:00",
        Some("2023-09-05T14:28:00-04:00"),
    );
    assert_eq!(
        station_status_lines(&early),
        vec![
            "Next station: Philadelphia 30th Street (PHL)",
            "\tNext Station: Philadelphia 30th Street (PHL)",
            "\t\tScheduled: 2023-09-05 14:30:00 -04:00",
            "\t\tActual: \"2023-09-05 14:28:00 -04:00\"",
            "\t\t0 hours 2 minutes 0 seconds early",
        ]
    );
}

#[test]
fn the_delay_is_the_time_between_the_instants() {
    let across_zones = station(
        "CHI",
        "Chicago Union",
        "2023-09-05T16:00:00-05:00",
        Some("2023-09-05T18:00:01-04:00"),
    );
    let lines = station_status_lines(&across_zones);
    assert_eq!(lines[2], "\t\tScheduled: 2023-09-05 16:00:00 -05:00");
    assert_eq!(lines[3], "\t\tActual: \"2023-09-05 18:00:01 -04:00\"");
    assert_eq!(lines[4], "\t\t1 hour 0 minutes 1 second late");
}

#[test]
fn the_status_without_an_arrival() {
    let ahead = station("BOS", "Boston South", "2023-09-05T20:15:00-04:00", None);
    assert_eq!(
        station_status_lines(&ahead),
        vec![
            "Next station: Boston South (BOS)",
            "\tNext Station: Boston South (BOS)",
            "\t\tScheduled: 2023-09-05 20:15:00 -04:00",
            "\t\tActual: \"Unknown\"",
            "\t\tUnknown",
        ]
    );
}

#[test]
fn the_report_of_a_run() {
    assert_eq!(
        display_train(&regional("NYP")),
        Ok(vec![
            "Train ID 66-5 from PHL to BOS \"Northeast Regional\"".to_string(),
            "Next station: New York Penn (NYP)".to_string(),
            "\tNext Station: New York Penn (NYP)".to_string(),
            "\t\tScheduled: 2023-09-05 16:00:00 -04:00".to_string(),
            "\t\tActual: \"2023-09-05 17:01:01 -04:00\"".to_string(),
            "\t\t1 hour 1 minute 1 second late".to_string(),
            "P  N  B".to_string(),
            "H  Y  O".to_string(),
            "L  P  S".to_string(),
            "|  |  |".to_string(),
            "--\u{f08c4}----".to_string(),
        ])
    );
}

#[test]
fn the_report_of_a_run_that_has_not_left() {
    let lines = display_train(&regional("PHL")).unwrap();
    assert_eq!(lines.len(), 11);
    assert_eq!(lines[1], "Next station: Philadelphia 30th Street (PHL)");
    assert_eq!(lines[5], "\t\t0 hours 2 minutes 0 seconds early");
    assert_eq!(lines[10], "-------");
}

#[test]
fn the_report_of_a_run_near_its_destination() {
    let lines = display_train(&regional("BOS")).unwrap();
    assert_eq!(lines[4], "\t\tActual: \"Unknown\"");
    assert_eq!(lines[5], "\t\tUnknown");
    assert_eq!(lines[10], "-----\u{f08c4}-");
}

#[test]
fn no_report_of_a_run_without_stations() {
    let mut train = regional("NYP");
    train.stations.clear();
    assert_eq!(display_train(&train), Err(Failure::NoStations));
}

#[test]
fn no_report_of_a_run_off_its_route() {
    assert_eq!(
        display_train(&regional("WAS")),
        Err(Failure::UnknownNextStation { code: "WAS".to_string() })
    );
}
