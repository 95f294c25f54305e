use atletiek_nu_api::decimal::Decimal;
use atletiek_nu_api::models::athlete_event_result::{
    cell_role, classify_measurement, fold_results, parse, probe_row, AthleteEventResults,
    CellRole, DnfReason, EventResult, EventResultItem, RowShape,
};
use atletiek_nu_api::models::ExtractError;
use scraper::{Html, Selector};

fn as_f32(d: Decimal) -> f32 {
    let magnitude = d.digits as f32 / 10f32.powi(d.scale as i32);
    if d.negative {
        -magnitude
    } else {
        magnitude
    }
}

/// The item as the site's numbers read: measurement, wind and threshold as
/// floating point.
#[derive(Debug, Clone, PartialEq)]
enum Plain {
    Position { position: u16 },
    Measurement { wind_speed: Option<f32>, result: f32, dnf: bool, dnf_reason: Option<PlainReason> },
    Points { amount: u16 },
}

#[derive(Debug, Clone, PartialEq)]
enum PlainReason {
    DataBelowZero,
    DataAboveThreshold { threshold: f32 },
}

fn plain(item: &EventResultItem) -> Plain {
    match *item {
        EventResultItem::Position { position } => Plain::Position { position },
        EventResultItem::Points { amount } => Plain::Points { amount },
        EventResultItem::Measurement { wind_speed, result, dnf, dnf_reason } => Plain::Measurement {
            wind_speed: wind_speed.map(as_f32),
            result: as_f32(result),
            dnf,
            dnf_reason: dnf_reason.map(|r| match r {
                DnfReason::DataBelowZero => PlainReason::DataBelowZero,
                DnfReason::DataAboveThreshold { threshold } => {
                    PlainReason::DataAboveThreshold { threshold: threshold as f32 }
                },
            }),
        },
    }
}

fn event_link(name: &str) -> String {
    format!(
        "<a href=\"https://www.athletics.app/wedstrijd/uitslagenonderdeel/38436/{}/\">{}</a>",
        name, name
    )
}

fn measured(data: &str, shown: &str) -> String {
    format!(
        "<td><span class=\"sortData\" data=\"{}\"></span><span class=\"tipped\">{}</span></td>",
        data, shown
    )
}

fn standard_row(name: &str, cells: &[String], position: &str) -> String {
    format!("<tr><td>{}</td>{}<td>{}</td></tr>", event_link(name), cells.concat(), position)
}

fn combined_row(name: &str, cells: &[String], position: &str, points: &str) -> String {
    format!(
        "<tr><td><i class=\"fa\"></i></td><td>{}</td>{}<td>{}</td><td>{}</td></tr>",
        event_link(name),
        cells.concat(),
        position,
        points
    )
}

fn page_with(results: &str, rest: &str) -> Html {
    Html::parse_document(&format!(
        "<html><body><div class=\"pageTitle\"> <span> </span> Jane  Doe <small>U20</small></div>\
         <div id=\"menubottom\"><a class=\"hidden-xs\" \
         href=\"https://www.athletics.app/wedstrijd/main/38436/\">Back</a></div>{}{}</body></html>",
        results, rest
    ))
}

fn page(rows: &[String]) -> Html {
    page_with(
        &format!("<table id=\"uitslagentabel\"><tbody>{}</tbody></table>", rows.concat()),
        "",
    )
}

fn combined_event() -> AthleteEventResults {
    parse(page(&[
        combined_row("60m", &[measured("8.12", "8,12")], "3", "400"),
        combined_row("Ver", &[measured("4.85", "4,85 <span>+0.3m/s</span>")], "2", "350"),
        combined_row("Kogel", &[measured("9.31", "9,31")], "4", "336"),
        combined_row("Hoog", &[measured("1.45", "1,45")], "1", "350"),
        combined_row("800m", &[measured("9999998", "DNF")], "", "0"),
    ]))
    .unwrap()
}

#[test]
fn test_get_results_combined_event_with_dnf_1793090() {
    let results = combined_event();

    assert_eq!(results.get_total_points(), Some(1436));
    assert_eq!(results.results.len(), 5);

    for i in results.results {
        if i.event_name == "800m" {
            let items: Vec<Plain> = i.items.iter().map(plain).collect();
            // check if DNF case is being handled well
            assert!(items.contains(&Plain::Points { amount: 0 }));
            assert_eq!(items.len(), 2);
            assert!(items.contains(&Plain::Measurement {
                wind_speed: None,
                result: 9999998.0,
                dnf: true,
                dnf_reason: Some(PlainReason::DataAboveThreshold { threshold: 10000.0 })
            }));
        }
    }
}

#[test]
fn test_get_results_dnf_1734217() {
    let results = parse(page(&[
        standard_row(
            "Ver",
            &[measured("5.10", "5,10 <span>+1.1m/s</span>"), measured("-2", "x"), measured("-2", "x")],
            "5",
        ),
        standard_row(
            "Kogel",
            &[measured("10.01", "10,01"), measured("9.80", "9,80"), measured("10.20", "10,20")],
            "2",
        ),
        standard_row(
            "Discus",
            &[measured("-2", "x"), measured("-2", "x"), measured("-2", "x"), measured("-2", "x")],
            "",
        ),
    ]))
    .unwrap();

    assert_eq!(results.results.len(), 3); // LJ, SP, DT
    let mut expected_dnf_counts: std::collections::HashMap<String, usize> =
        std::collections::HashMap::new();
    expected_dnf_counts.insert("Ver".to_string(), 2);
    expected_dnf_counts.insert("Kogel".to_string(), 0);
    expected_dnf_counts.insert("Discus".to_string(), 4);

    for result in results.results {
        let dnf_count = result
            .items
            .iter()
            .filter(|v| match v {
                EventResultItem::Measurement { dnf, dnf_reason, .. } => {
                    if *dnf {
                        assert_eq!(*dnf_reason.as_ref().unwrap(), DnfReason::DataBelowZero); // in this case, they are all -2
                        true
                    } else {
                        false
                    }
                },
                _ => false,
            })
            .count();

        let expected_count = expected_dnf_counts.get(&result.event_name).unwrap();
        assert_eq!(dnf_count, *expected_count);
    }
}

#[test]
fn test_multiday_event_parsing_2418938() {
    let timetable = "<table class=\"chronoloogtabel\"><tbody>\
        <tr><td><span class=\"sortData\" data=\"1686823200\"></span>\
        <a href=\"https://www.athletics.app/wedstrijd/startlijst/1/2/\">10:00</a></td>\
        <td><a href=\"#\"><span class=\"hidden-xs\">Heat 1</span></a></td>\
        <td><a href=\"#\"><span class=\"visible-xs-inline\">100m</span>\
        <span class=\"hidden-xs\">100 meters</span></a></td></tr>\
        <tr><td><span class=\"sortData\" data=\"1686909600\"></span>\
        <a href=\"https://www.athletics.app/wedstrijd/startlijst/1/3/\">10:00</a></td>\
        <td><a href=\"#\"><span class=\"hidden-xs\">Final</span></a></td>\
        <td><a href=\"#\"><span class=\"visible-xs-inline\">LJ</span>\
        <span class=\"hidden-xs\">Long jump</span></a></td></tr>\
        <tr><td>a row that is no slot</td></tr>\
        </tbody></table>";
    let html = page_with(
        &format!(
            "<table id=\"uitslagentabel\"><tbody>{}</tbody></table>",
            standard_row("100m", &[measured("12.34", "12,34")], "1")
        ),
        timetable,
    );
    let found = parse(html).unwrap();
    assert_eq!(found.timetable.len(), 2);
    assert_eq!(found.timetable[0].time, 1686823200);
    assert_eq!(found.timetable[0].startlist_url, "https://www.athletics.app/wedstrijd/startlijst/1/2/");
    assert_eq!(found.timetable[0].start_group_name, "Heat 1");
    assert_eq!(found.timetable[0].event_short, "100m");
    assert_eq!(found.timetable[0].event_name, "100 meters");
    assert_eq!(found.timetable[1].time, 1686909600);
    assert_eq!(found.timetable[1].event_name, "Long jump");
}

#[test]
fn name_and_competition_come_from_the_page() {
    let found = combined_event();
    assert_eq!(found.name, "Jane Doe");
    assert_eq!(found.competition_id, 38436);
    assert!(found.timetable.is_empty());
    assert!(found.participated_in.is_empty());
}

#[test]
fn a_standard_row_gives_measurements_then_position() {
    let found = parse(page(&[standard_row(
        "100m",
        &[measured("12.34", "12,34 <span>-0.5m/s</span>")],
        "3",
    )]))
    .unwrap();
    assert_eq!(found.results.len(), 1);
    assert_eq!(found.results[0].event_name, "100m");
    assert_eq!(
        found.results[0].event_url,
        "https://www.athletics.app/wedstrijd/uitslagenonderdeel/38436/100m/"
    );
    assert_eq!(
        found.results[0].items,
        vec![
            EventResultItem::Measurement {
                wind_speed: Some(Decimal { negative: true, digits: 5, scale: 1 }),
                result: Decimal { negative: false, digits: 1234, scale: 2 },
                dnf: false,
                dnf_reason: None,
            },
            EventResultItem::Position { position: 3 },
        ]
    );
    assert_eq!(found.get_total_points(), None);
}

#[test]
fn a_combined_row_gives_measurement_position_and_points() {
    let found = parse(page(&[combined_row("60m", &[measured("8.12", "8,12")], "3", "400")])).unwrap();
    assert_eq!(found.results.len(), 1);
    assert_eq!(
        found.results[0].items,
        vec![
            EventResultItem::Measurement {
                wind_speed: None,
                result: Decimal { negative: false, digits: 812, scale: 2 },
                dnf: false,
                dnf_reason: None,
            },
            EventResultItem::Position { position: 3 },
            EventResultItem::Points { amount: 400 },
        ]
    );
    assert_eq!(found.get_total_points(), Some(400));
}

#[test]
fn rows_of_one_event_are_folded_into_one_result() {
    let found = parse(page(&[
        standard_row("Ver", &[measured("5.10", "5,10")], "5"),
        standard_row("Kogel", &[measured("10.01", "10,01")], "2"),
        standard_row("Ver", &[measured("5.30", "5,30")], "1"),
    ]))
    .unwrap();
    assert_eq!(found.results.len(), 2);
    assert_eq!(found.results[0].event_name, "Ver");
    assert_eq!(found.results[1].event_name, "Kogel");
    assert_eq!(found.results[0].items.len(), 4);
    assert_eq!(found.results[0].items[1], EventResultItem::Position { position: 5 });
    assert_eq!(found.results[0].items[3], EventResultItem::Position { position: 1 });
    assert_eq!(found.results[1].items.len(), 2);
}

#[test]
fn rows_that_name_no_event_give_nothing() {
    let found = parse(page(&[
        "<tr><td>no link</td><td>no link either</td><td>1</td></tr>".to_string(),
        "<tr></tr>".to_string(),
        "<tr><td><a href=\"https://elsewhere.example/\">other</a></td><td>1</td></tr>".to_string(),
        "<tr><td><a>no address</a></td><td>1</td></tr>".to_string(),
        standard_row("100m", &[], "1"),
    ]))
    .unwrap();
    assert_eq!(found.results.len(), 1);
    assert_eq!(found.results[0].items, vec![EventResultItem::Position { position: 1 }]);
}

#[test]
fn cells_that_cannot_be_read_are_passed_over() {
    let found = parse(page(&[standard_row(
        "100m",
        &[
            "<td>no spans</td>".to_string(),
            "<td><span class=\"sortData\" data=\"12.3\"></span></td>".to_string(),
            "<td><span class=\"tipped\">12.3</span></td>".to_string(),
            measured("twelve", "12.3"),
            "<td><span class=\"sortData\"></span><span class=\"tipped\">12.3</span></td>".to_string(),
            measured("12.3", "12,3"),
        ],
        "first",
    )]))
    .unwrap();
    assert_eq!(found.results.len(), 1);
    assert_eq!(found.results[0].items.len(), 1);
}

#[test]
fn a_page_without_results_has_not_the_structure() {
    let html = page_with("<p>No results (yet)</p>", "");
    assert_eq!(parse(html).err(), Some(ExtractError::StructureNotFound));
}

#[test]
fn a_page_without_title_or_competition_has_not_the_structure() {
    let no_title = Html::parse_document(
        "<div id=\"menubottom\"><a class=\"hidden-xs\" href=\"wedstrijd/main/1/\">x</a></div>\
         <table id=\"uitslagentabel\"><tbody></tbody></table>",
    );
    assert_eq!(parse(no_title).err(), Some(ExtractError::StructureNotFound));
    let no_competition = Html::parse_document(
        "<div class=\"pageTitle\">Jane</div><table id=\"uitslagentabel\"><tbody></tbody></table>",
    );
    assert_eq!(parse(no_competition).err(), Some(ExtractError::StructureNotFound));
    let odd_competition = Html::parse_document(
        "<div class=\"pageTitle\">Jane</div>\
         <div id=\"menubottom\"><a class=\"hidden-xs\" href=\"wedstrijd/main/x/\">x</a></div>\
         <table id=\"uitslagentabel\"><tbody></tbody></table>",
    );
    assert_eq!(parse(odd_competition).err(), Some(ExtractError::StructureNotFound));
}

#[test]
fn the_other_results_format_is_not_supported() {
    let html = page_with(
        "<table id=\"uitslagentabel\"><tbody><tr><td>Powered by Athletics Champs</td></tr></tbody></table>",
        "",
    );
    assert_eq!(parse(html).err(), Some(ExtractError::UnsupportedPageVariant));
}

#[test]
fn an_empty_results_table_gives_no_results() {
    let found = parse(page(&[])).unwrap();
    assert!(found.results.is_empty());
    assert_eq!(found.get_total_points(), None);
}

#[test]
fn rows_are_told_apart_by_their_links() {
    let html = Html::parse_fragment(&format!(
        "<table><tbody>{}{}<tr><td>x</td><td>y</td></tr><tr></tr></tbody></table>",
        standard_row("100m", &[], "1"),
        combined_row("60m", &[], "1", "2")
    ));
    let rows: Vec<_> = html.select(&Selector::parse("tr").unwrap()).collect();
    let cell = Selector::parse("td").unwrap();
    let shapes: Vec<RowShape> =
        rows.iter().map(|r| probe_row(&r.select(&cell).collect::<Vec<_>>())).collect();
    assert_eq!(
        shapes,
        vec![RowShape::StandardRow, RowShape::CombinedEventRow, RowShape::NoMatch, RowShape::NoMatch]
    );
}

#[test]
fn the_last_cells_of_a_row_hold_position_and_points() {
    // A standard row: measurements, then the position.
    assert_eq!(cell_role(0, 3, false), CellRole::Measurement);
    assert_eq!(cell_role(1, 3, false), CellRole::Measurement);
    assert_eq!(cell_role(2, 3, false), CellRole::Position);
    assert_eq!(cell_role(0, 1, false), CellRole::Position);
    // A row of a combined event: measurements, the position, the points.
    assert_eq!(cell_role(0, 3, true), CellRole::Measurement);
    assert_eq!(cell_role(1, 3, true), CellRole::Position);
    assert_eq!(cell_role(2, 3, true), CellRole::Points);
    assert_eq!(cell_role(0, 1, true), CellRole::Points);
    assert_eq!(cell_role(0, 2, true), CellRole::Position);
    assert_eq!(cell_role(5, 3, true), CellRole::Measurement);
    assert_eq!(cell_role(0, 0, false), CellRole::Measurement);
}

fn value(text: &str) -> Decimal {
    Decimal::parse(text).unwrap()
}

#[test]
fn a_value_below_zero_did_not_finish() {
    assert_eq!(
        classify_measurement(value("-2"), None),
        EventResultItem::Measurement {
            wind_speed: None,
            result: value("-2"),
            dnf: true,
            dnf_reason: Some(DnfReason::DataBelowZero),
        }
    );
    assert_eq!(
        classify_measurement(value("-0.01"), Some(value("1.5"))),
        EventResultItem::Measurement {
            wind_speed: Some(value("1.5")),
            result: value("-0.01"),
            dnf: true,
            dnf_reason: Some(DnfReason::DataBelowZero),
        }
    );
}

#[test]
fn a_value_above_the_threshold_did_not_finish() {
    assert_eq!(
        classify_measurement(value("9999998"), None),
        EventResultItem::Measurement {
            wind_speed: None,
            result: value("9999998"),
            dnf: true,
            dnf_reason: Some(DnfReason::DataAboveThreshold { threshold: 10000 }),
        }
    );
    assert_eq!(
        classify_measurement(value("10000.5"), None),
        EventResultItem::Measurement {
            wind_speed: None,
            result: value("10000.5"),
            dnf: true,
            dnf_reason: Some(DnfReason::DataAboveThreshold { threshold: 10000 }),
        }
    );
}

#[test]
fn a_plausible_value_finished() {
    for text in ["0", "-0", "9.62", "10000", "10000.000", "9999.999"] {
        assert_eq!(
            classify_measurement(value(text), None),
            EventResultItem::Measurement {
                wind_speed: None,
                result: value(text),
                dnf: false,
                dnf_reason: None,
            },
            "{}",
            text
        );
    }
}

fn result(name: &str, url: &str, items: Vec<EventResultItem>) -> EventResult {
    EventResult { event_name: name.to_string(), event_url: url.to_string(), items }
}

fn with_results(results: Vec<EventResult>) -> AthleteEventResults {
    AthleteEventResults {
        name: String::new(),
        competition_id: 0,
        results,
        timetable: Vec::new(),
        participated_in: Vec::new(),
    }
}

#[test]
fn folding_groups_by_address_in_order_of_first_appearance() {
    let p = |n: u16| EventResultItem::Position { position: n };
    let raw = vec![
        result("a", "/a", vec![p(1)]),
        result("b", "/b", vec![p(2)]),
        result("a again", "/a", vec![p(3)]),
        result("c", "/c", vec![]),
        result("b", "/b", vec![p(4), p(5)]),
        result("a", "/a", vec![]),
    ];
    let folded = fold_results(&raw);
    assert_eq!(folded.len(), 3);
    assert_eq!(folded[0].event_url, "/a");
    assert_eq!(folded[0].event_name, "a");
    assert_eq!(folded[0].items, vec![p(1), p(3)]);
    assert_eq!(folded[1].event_url, "/b");
    assert_eq!(folded[1].items, vec![p(2), p(4), p(5)]);
    assert_eq!(folded[2].event_url, "/c");
    assert!(folded[2].items.is_empty());
    assert!(fold_results(&Vec::new()).is_empty());
}

#[test]
fn folded_results_share_no_address() {
    let p = |n: u16| EventResultItem::Position { position: n };
    let raw: Vec<EventResult> =
        (0..40u16).map(|i| result("e", &format!("/{}", i % 7), vec![p(i)])).collect();
    let folded = fold_results(&raw);
    assert_eq!(folded.len(), 7);
    for i in 0..folded.len() {
        for j in 0..i {
            assert_ne!(folded[i].event_url, folded[j].event_url);
        }
    }
    let count: usize = folded.iter().map(|r| r.items.len()).sum();
    assert_eq!(count, 40);
}

#[test]
fn total_points_is_the_sum_of_all_points_items() {
    let points = |n: u16| EventResultItem::Points { amount: n };
    let position = EventResultItem::Position { position: 1 };
    let found = with_results(vec![
        result("a", "/a", vec![position, points(400), points(350)]),
        result("b", "/b", vec![]),
        result("c", "/c", vec![points(336), position, points(350)]),
    ]);
    assert_eq!(found.get_total_points(), Some(1436));
}

#[test]
fn total_points_is_absent_without_a_points_item() {
    let position = EventResultItem::Position { position: 1 };
    assert_eq!(with_results(vec![]).get_total_points(), None);
    assert_eq!(with_results(vec![result("a", "/a", vec![position])]).get_total_points(), None);
    assert_eq!(with_results(vec![result("a", "/a", vec![])]).get_total_points(), None);
}

#[test]
fn total_points_of_zero_is_not_absent() {
    let found = with_results(vec![result("a", "/a", vec![EventResultItem::Points { amount: 0 }])]);
    assert_eq!(found.get_total_points(), Some(0));
}
