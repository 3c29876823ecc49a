use chrono::DateTime;
use train_status::clock::Timestamp;
use train_status::route::{
    find_station, label_fragment_of, longest_code, previous_station, render_route,
    route_fragments_of, transpose, TRAIN_GLYPH,
};
use train_status::train::Station;

fn noon() -> Timestamp {
    let instant = DateTime::parse_from_rfc3339("2024-05-01T12:00:00-04:00").unwrap();
    Timestamp { utc: instant.naive_utc(), offset: *instant.offset() }
}

fn route(codes: &[&str]) -> Vec<Station> {
    codes
        .iter()
        .map(|code| Station {
            code: code.to_string(),
            name: format!("Station {}", code),
            schedule_arrival: noon(),
            arrival: None,
        })
        .collect()
}

fn fragment(text: &str) -> Vec<char> {
    text.chars().collect()
}

fn train_fragments(fragments: &[Vec<char>]) -> Vec<usize> {
    (0..fragments.len()).filter(|&j| fragments[j].contains(&TRAIN_GLYPH)).collect()
}

#[test]
fn the_first_station_with_a_code_is_found() {
    let stations = route(&["A", "B", "C", "B"]);
    assert_eq!(find_station(&stations, &"A".to_string()), Some(0));
    assert_eq!(find_station(&stations, &"B".to_string()), Some(1));
    assert_eq!(find_station(&stations, &"C".to_string()), Some(2));
    assert_eq!(find_station(&stations, &"D".to_string()), None);
    assert_eq!(find_station(&Vec::new(), &"A".to_string()), None);
}

#[test]
fn the_previous_station_stands_before_the_next() {
    let stations = route(&["A", "B", "C"]);
    assert_eq!(previous_station(&stations, &"B".to_string()), Some(0));
    assert_eq!(previous_station(&stations, &"C".to_string()), Some(1));
}

#[test]
fn the_first_station_has_no_previous_station() {
    let stations = route(&["A", "B", "C"]);
    assert_eq!(previous_station(&stations, &"A".to_string()), None);
}

#[test]
fn an_unknown_station_has_no_previous_station() {
    let stations = route(&["A", "B", "C"]);
    assert_eq!(previous_station(&stations, &"Z".to_string()), None);
}

#[test]
fn the_longest_code_sets_the_width() {
    assert_eq!(longest_code(&route(&[])), 0);
    assert_eq!(longest_code(&route(&["PHL", "NYP"])), 3);
    assert_eq!(longest_code(&route(&["A", "LONG", "BB"])), 4);
    assert_eq!(longest_code(&route(&["\u{e9}t\u{e9}", "ab"])), 3);
}

#[test]
fn a_label_is_filled_up_to_the_width() {
    assert_eq!(label_fragment_of("PHL", 3), fragment("PHL|-"));
    assert_eq!(label_fragment_of("A", 4), fragment("A||||-"));
    assert_eq!(label_fragment_of("", 0), fragment("|-"));
}

#[test]
fn three_stations_with_the_train_behind_the_first() {
    let stations = route(&["A", "B", "C"]);
    let fragments = route_fragments_of(&stations, &"C".to_string(), &"B".to_string());
    assert_eq!(
        fragments,
        vec![
            fragment("A|-"),
            fragment("  -"),
            fragment("  \u{f08c4}"),
            fragment("B|-"),
            fragment("  -"),
            fragment("  -"),
            fragment("C|-"),
        ]
    );
    assert_eq!(train_fragments(&fragments), vec![2]);
}

#[test]
fn the_destination_has_its_label_only() {
    let stations = route(&["A", "B", "C"]);
    let fragments = route_fragments_of(&stations, &"C".to_string(), &"B".to_string());
    assert_eq!(fragments.len(), 3 + 3 + 1);
    assert_eq!(fragments[6], fragment("C|-"));
    let ends_early = route_fragments_of(&stations, &"B".to_string(), &"B".to_string());
    assert_eq!(
        ends_early,
        vec![
            fragment("A|-"),
            fragment("  -"),
            fragment("  \u{f08c4}"),
            fragment("B|-"),
            fragment("C|-"),
            fragment("  -"),
            fragment("  -"),
        ]
    );
}

#[test]
fn no_train_is_drawn_before_the_first_station() {
    let stations = route(&["A", "B", "C"]);
    let fragments = route_fragments_of(&stations, &"C".to_string(), &"A".to_string());
    assert_eq!(train_fragments(&fragments), Vec::<usize>::new());
    assert_eq!(fragments.len(), 7);
}

#[test]
fn no_train_is_drawn_behind_the_destination() {
    let stations = route(&["A", "B", "C"]);
    let fragments = route_fragments_of(&stations, &"A".to_string(), &"B".to_string());
    assert_eq!(train_fragments(&fragments), Vec::<usize>::new());
    assert_eq!(fragments[0], fragment("A|-"));
    assert_eq!(fragments.len(), 1 + 3 + 3);
}

#[test]
fn the_train_is_drawn_once_where_a_code_repeats() {
    let stations = route(&["A", "B", "A", "C"]);
    let fragments = route_fragments_of(&stations, &"D".to_string(), &"C".to_string());
    assert_eq!(train_fragments(&fragments), vec![8]);
    let again = route_fragments_of(&stations, &"D".to_string(), &"A".to_string());
    assert_eq!(train_fragments(&again), Vec::<usize>::new());
}

#[test]
fn fragments_are_equally_long() {
    let stations = route(&["PHL", "NY", "B", "WASH"]);
    let fragments = route_fragments_of(&stations, &"WASH".to_string(), &"B".to_string());
    assert_eq!(fragments.len(), 10);
    for fragment in &fragments {
        assert_eq!(fragment.len(), 6);
    }
    assert_eq!(fragments[3], fragment("NY|||-"));
    assert_eq!(fragments[5], fragment("     \u{f08c4}"));
}

#[test]
fn lines_are_read_across_the_fragments() {
    let fragments = vec![fragment("abc"), fragment("def")];
    assert_eq!(transpose(&fragments, 3), vec!["ad", "be", "cf"]);
    assert_eq!(transpose(&fragments, 2), vec!["ad", "be"]);
    assert_eq!(transpose(&fragments, 0), Vec::<String>::new());
    assert_eq!(transpose(&Vec::new(), 2), vec!["", ""]);
}

#[test]
fn the_diagram_of_three_stations() {
    let stations = route(&["PHL", "NYP", "BOS"]);
    let lines = render_route(&stations, &"BOS".to_string(), &"NYP".to_string());
    assert_eq!(
        lines,
        vec!["P  N  B", "H  Y  O", "L  P  S", "|  |  |", "--\u{f08c4}----"]
    );
}

#[test]
fn the_diagram_with_the_train_before_the_destination() {
    let stations = route(&["PHL", "NYP", "BOS"]);
    let lines = render_route(&stations, &"BOS".to_string(), &"BOS".to_string());
    assert_eq!(
        lines,
        vec!["P  N  B", "H  Y  O", "L  P  S", "|  |  |", "-----\u{f08c4}-"]
    );
}

#[test]
fn the_diagram_pads_short_codes() {
    let stations = route(&["A", "LONG", "BB"]);
    let lines = render_route(&stations, &"BB".to_string(), &"LONG".to_string());
    assert_eq!(
        lines,
        vec!["A  L  B", "|  O  B", "|  N  |", "|  G  |", "|  |  |", "--\u{f08c4}----"]
    );
}

#[test]
fn the_diagram_of_a_single_station() {
    let stations = route(&["NYP"]);
    let lines = render_route(&stations, &"NYP".to_string(), &"NYP".to_string());
    assert_eq!(lines, vec!["N", "Y", "P", "|", "-"]);
}

#[test]
fn the_diagram_counts_characters_not_bytes() {
    let stations = route(&["\u{e9}t\u{e9}", "ab"]);
    let lines = render_route(&stations, &"ab".to_string(), &"ab".to_string());
    assert_eq!(
        lines,
        vec!["\u{e9}  a", "t  b", "\u{e9}  |", "|  |", "--\u{f08c4}-"]
    );
}

#[test]
fn the_train_stands_in_the_last_line_only() {
    let stations = route(&["PHL", "NYP", "BOS", "POR"]);
    let lines = render_route(&stations, &"POR".to_string(), &"BOS".to_string());
    assert_eq!(lines.len(), 5);
    for line in &lines[..4] {
        assert!(!line.contains(TRAIN_GLYPH));
        assert_eq!(line.chars().count(), 10);
    }
    let last: Vec<char> = lines[4].chars().collect();
    let columns: Vec<usize> = (0..last.len()).filter(|&j| last[j] == TRAIN_GLYPH).collect();
    assert_eq!(columns, vec![5]);
}
