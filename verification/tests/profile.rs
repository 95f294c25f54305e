use atletiek_nu_api::date::Date;
use atletiek_nu_api::decimal::Decimal;
use atletiek_nu_api::models::athlete_profile::{
    attribute_from_groups, date_from_groups, find_specification, parse, parse_attribute,
    parse_performance, parse_place, performance_from_groups, AthleteProfile, EventAttribute,
};
use atletiek_nu_api::models::ExtractError;
use scraper::Html;

fn as_f32(d: Decimal) -> f32 {
    let magnitude = d.digits as f32 / 10f32.powi(d.scale as i32);
    if d.negative {
        -magnitude
    } else {
        magnitude
    }
}

fn ymd(year: i32, month: u32, day: u32) -> Date {
    Date { year, month, day }
}

fn weight(attribute: &Option<EventAttribute>) -> Option<f32> {
    match attribute {
        Some(EventAttribute::Weight(w)) => Some(as_f32(*w)),
        _ => None,
    }
}

fn best(class: &str, event: &str, performance: &str, key: &str) -> String {
    format!(
        "<tr class=\"{}\"><td>{}</td><td>{}</td><td><span class=\"sortData\" data=\"{}\"></span>place</td></tr>",
        class, event, performance, key
    )
}

fn graph(event: &str, count: u32, event_id: &str, token: &str, points: &str) -> String {
    format!(
        "<script>\n\t$('#history-scores_{token}_1').highcharts({{\n\t\tchart: {{ renderTo: 'tab-pane#{event_id}' }},\n\t\t\
         title: {{text: '{event}'}},\n\t\tsubtitle: {{text: '{count} results'}},\n\t\tseries: [{{ data: [{points}] }}]\n\t}});\n</script>",
        token = token,
        event_id = event_id,
        event = event,
        count = count,
        points = points
    )
}

fn page(title: &str, bests: &str, tabs: &str) -> Html {
    Html::parse_document(&format!(
        "<html><body><div class=\"pageTitle\">{}</div><div id=\"records\">\
         <table id=\"persoonlijkerecords\"><tbody>{}</tbody></table></div>\
         <div id=\"graphTabs\">{}</div></body></html>",
        title, bests, tabs
    ))
}

fn profile_921275() -> AthleteProfile {
    let bests = [
        best("odd", "60 meters", "9.62", "20160609Venlo (NLD)"),
        best("even", "Shot put<span class=\"subtext\">2kg</span>", "5.98", "20160609Venlo (NLD)"),
        best(
            "odd notThatImportant",
            "Long jump",
            "3.36<span class=\"subtext\"><span>+1.2m/s</span></span>",
            "20160625Weert (NLD)",
        ),
        best("even", "Long jump", "3.44", "20160609Venlo (NLD)"),
    ]
    .concat();
    let tabs = format!(
        "<div class=\"tab-pane\"><div><a class=\"specification-selector\" \
         data-target=\"specification-container-7-all\">Everything</a></div>{}</div>",
        graph("Long jump", 2, "7", "7", "[Date.UTC(2016, 5, 9),3.44],[Date.UTC(2016, 5, 25),3.36]")
    );
    parse(page(" <i> </i> Marith  Siekman ", &bests, &tabs)).unwrap()
}

#[test]
fn test_profile_921275() {
    let profile = profile_921275();

    assert_eq!(profile.name, "Marith Siekman");

    for i in profile.personal_bests {
        match i.event.as_str() {
            "60 meters" => {
                assert_eq!(as_f32(i.performance), 9.62);
                assert_eq!(i.hand_measured, false);
                assert_eq!(i.date, ymd(2016, 06, 09));
                assert_eq!(i.country, "NLD");
                assert_eq!(i.location, "Venlo");
                assert_eq!(i.attribute, None);
            },
            "Shot put" => {
                assert_eq!(as_f32(i.performance), 5.98);
                assert_eq!(i.hand_measured, false);
                assert_eq!(i.date, ymd(2016, 06, 09));
                assert_eq!(i.country, "NLD");
                assert_eq!(i.location, "Venlo");
                assert_eq!(weight(&i.attribute), Some(2.0));
            },
            "Long jump" => {
                if i.wind_speed.is_some() {
                    assert_eq!(as_f32(i.performance), 3.36);
                    assert_eq!(i.hand_measured, false);
                    assert_eq!(i.date, ymd(2016, 06, 25));
                    assert_eq!(i.country, "NLD");
                    assert_eq!(i.location, "Weert");
                    assert_eq!(i.attribute, None);
                } else {
                    assert_eq!(as_f32(i.performance), 3.44);
                    assert_eq!(i.hand_measured, false);
                    assert_eq!(i.date, ymd(2016, 06, 09));
                    assert_eq!(i.country, "NLD");
                    assert_eq!(i.location, "Venlo");
                    assert_eq!(i.attribute, None);
                }
            },
            _ => (),
        }
    }

    for graph in profile.graphs {
        match graph.event.as_str() {
            "Long jump" => {
                let points: Vec<(Date, f32)> =
                    graph.points.iter().map(|p| (p.0, as_f32(p.1))).collect();
                assert_eq!(points.len(), 2);
                assert_eq!(graph.specification, EventAttribute::All);
                assert!(points.contains(&(ymd(2016, 6, 9), 3.44)));
                assert!(points.contains(&(ymd(2016, 6, 25), 3.36)))
            },
            _ => (),
        }
    }
}

#[test]
fn test_profile_parsing() {
    let profiles = [862577, 876749, 871514, 862980, 871317];

    for i in profiles {
        println!("Parsing {}", i);
        let bests = best("odd", "100 meters", "12,5h", &format!("20200101Town{} (NLD)", i % 7));
        let _ = parse(page(&format!("Athlete {}", i), &bests, "")).unwrap();
    }
}

#[test]
fn the_whole_profile_is_read() {
    let profile = profile_921275();
    assert_eq!(profile.personal_bests.len(), 4);
    assert_eq!(profile.graphs.len(), 1);
    assert!(profile.competitions.is_empty());
    let events: Vec<&str> = profile.personal_bests.iter().map(|b| b.event.as_str()).collect();
    assert_eq!(events, vec!["60 meters", "Shot put", "Long jump", "Long jump"]);
    assert_eq!(profile.personal_bests[0].display_performance, "9.62");
    assert!(!profile.personal_bests[0].not_important);
    assert!(profile.personal_bests[2].not_important);
    assert_eq!(
        profile.personal_bests[2].wind_speed,
        Some(Decimal { negative: false, digits: 12, scale: 1 })
    );
    assert_eq!(profile.graphs[0].event_id, 7);
    assert_eq!(
        profile.graphs[0].points,
        vec![
            (ymd(2016, 6, 9), Decimal { negative: false, digits: 344, scale: 2 }),
            (ymd(2016, 6, 25), Decimal { negative: false, digits: 336, scale: 2 }),
        ]
    );
}

#[test]
fn a_graph_finds_its_specification_in_the_table() {
    let tabs = format!(
        "<div class=\"tab-pane\"><div>\
         <a class=\"specification-selector\" data-target=\"specification-container-12-all\">Everything</a>\
         <a class=\"specification-selector\" data-target=\"specification-container-12-3\">84cm</a>\
         <a class=\"specification-selector\" data-target=\"specification-container-12-4\">no unit</a>\
         </div>{}{}{}</div>\
         <div class=\"tab-pane\"><div>\
         <a class=\"specification-selector\" data-target=\"specification-container-15-9\">600gr</a>\
         </div>{}</div>",
        graph("Hurdles", 1, "12", "12", "[Date.UTC(2020, 0, 31),15.2]"),
        graph("Hurdles", 1, "12", "3", "[Date.UTC(2020, 1, 29),14.9],[Date.UTC(2021, 1, 29),1],[Date.UTC(x, 1, 2),1]"),
        graph("Hurdles", 1, "12", "5", ""),
        graph("Javelin", 3, "15", "9", ""),
    );
    let profile = parse(page("A", "", &tabs)).unwrap();
    assert_eq!(profile.graphs.len(), 3);
    assert_eq!(profile.graphs[0].specification, EventAttribute::All);
    assert_eq!(profile.graphs[0].points, vec![(ymd(2020, 1, 31), Decimal { negative: false, digits: 152, scale: 1 })]);
    assert_eq!(
        profile.graphs[1].specification,
        EventAttribute::Height(Decimal { negative: false, digits: 84, scale: 2 })
    );
    // The 29th of February exists in 2020 and not in 2021.
    assert_eq!(profile.graphs[1].points, vec![(ymd(2020, 2, 29), Decimal { negative: false, digits: 149, scale: 1 })]);
    assert_eq!(
        profile.graphs[2].specification,
        EventAttribute::Weight(Decimal { negative: false, digits: 600, scale: 3 })
    );
    assert_eq!(profile.graphs[2].event, "Javelin");
    assert_eq!(profile.graphs[2].event_id, 15);
}

#[test]
fn rows_that_cannot_be_read_are_left_out() {
    let bests = [
        best("odd", "100 meters", "fast", "20160609Venlo (NLD)"),
        best("odd", "100 meters", "12.5", "20160231Venlo (NLD)"),
        best("odd", "100 meters", "12.5", "Venlo"),
        "<tr class=\"odd\"><td>only</td><td>two</td></tr>".to_string(),
        best("odd", "100 meters", "12.5", "20160609Venlo (NLD)"),
    ]
    .concat();
    let profile = parse(page("A", &bests, "")).unwrap();
    assert_eq!(profile.personal_bests.len(), 1);
}

#[test]
fn labels_of_the_event_cell_set_the_attribute() {
    let bests = [
        best("", "High jump<span class=\"subtext\"> Unknown Height </span>", "1.50", "20160609V (NLD)"),
        best("", "Hurdles<span class=\"subtext\">Manual</span><span class=\"subtext\"> 84CM </span>", "15.0", "20160609V (NLD)"),
        best("", "Discus<span class=\"subtext\">750gr</span><span class=\"subtext\">indoor</span>", "30.0", "20160609V (NLD)"),
        best("", "Hammer<span class=\"subtext\">light kg</span>", "30.0", "20160609V (NLD)"),
    ]
    .concat();
    let profile = parse(page("A", &bests, "")).unwrap();
    let attributes: Vec<Option<EventAttribute>> =
        profile.personal_bests.iter().map(|b| b.attribute).collect();
    assert_eq!(
        attributes,
        vec![
            Some(EventAttribute::UnknownHeight),
            Some(EventAttribute::Height(Decimal { negative: false, digits: 84, scale: 2 })),
            Some(EventAttribute::Weight(Decimal { negative: false, digits: 750, scale: 3 })),
            None,
        ]
    );
}

#[test]
fn a_page_without_a_title_has_not_the_structure() {
    let html = Html::parse_document("<div id=\"records\"></div>");
    assert_eq!(parse(html).err(), Some(ExtractError::StructureNotFound));
    let blank = Html::parse_document("<div class=\"pageTitle\">  </div>");
    assert_eq!(parse(blank).err(), Some(ExtractError::StructureNotFound));
}

#[test]
fn attributes_come_in_metres_and_kilograms() {
    assert_eq!(
        parse_attribute("84cm"),
        Some(EventAttribute::Height(Decimal { negative: false, digits: 84, scale: 2 }))
    );
    assert_eq!(
        parse_attribute("76.2cm"),
        Some(EventAttribute::Height(Decimal { negative: false, digits: 762, scale: 3 }))
    );
    assert_eq!(
        parse_attribute("600gr"),
        Some(EventAttribute::Weight(Decimal { negative: false, digits: 600, scale: 3 }))
    );
    assert_eq!(
        parse_attribute("7.26kg"),
        Some(EventAttribute::Weight(Decimal { negative: false, digits: 726, scale: 2 }))
    );
    assert_eq!(parse_attribute("kg"), None);
    assert_eq!(parse_attribute("five"), None);
    assert_eq!(parse_attribute("1.2.3cm"), None);
}

#[test]
fn an_unknown_unit_is_no_attribute() {
    assert_eq!(attribute_from_groups("5", "lb"), None);
    assert_eq!(attribute_from_groups("5", ""), None);
    assert_eq!(attribute_from_groups("five", "kg"), None);
    assert_eq!(
        attribute_from_groups("5", "kg"),
        Some(EventAttribute::Weight(Decimal { negative: false, digits: 5, scale: 0 }))
    );
}

#[test]
fn performances_are_read_in_seconds() {
    let p = |text: &str| parse_performance(text).map(|(d, h)| (as_f32(d), h));
    assert_eq!(p("9.62"), Some((9.62, false)));
    assert_eq!(p("9,62"), Some((9.62, false)));
    assert_eq!(p("1:23.45"), Some((83.45, false)));
    assert_eq!(p("2:05,1"), Some((125.1, false)));
    assert_eq!(p("10.3h"), Some((10.3, true)));
    assert_eq!(p("12"), Some((12.0, false)));
    assert_eq!(p("3.44"), Some((3.44, false)));
    assert_eq!(p("DNF"), None);
}

#[test]
fn performances_are_rounded_to_three_places() {
    assert_eq!(
        parse_performance("9.6249"),
        Some((Decimal { negative: false, digits: 9625, scale: 3 }, false))
    );
    assert_eq!(
        parse_performance("1:00.0004"),
        Some((Decimal { negative: false, digits: 60000, scale: 3 }, false))
    );
    assert_eq!(
        performance_from_groups("1", "23", "45", ""),
        Some((Decimal { negative: false, digits: 8345, scale: 2 }, false))
    );
    assert_eq!(
        performance_from_groups("0", "9", "62", "h"),
        Some((Decimal { negative: false, digits: 962, scale: 2 }, true))
    );
    assert_eq!(performance_from_groups("", "9", "62", ""), None);
    assert_eq!(performance_from_groups("0", "9", "", ""), None);
    assert_eq!(performance_from_groups("0", "9", "99999999999", ""), None);
}

#[test]
fn places_hold_day_town_and_country() {
    assert_eq!(
        parse_place("20160609Venlo (NLD)"),
        Some((ymd(2016, 6, 9), "Venlo".to_string(), "NLD".to_string()))
    );
    assert_eq!(
        parse_place("20160625Bergen op Zoom (NLD)"),
        Some((ymd(2016, 6, 25), "Bergen op Zoom".to_string(), "NLD".to_string()))
    );
    assert_eq!(parse_place("20161309Venlo (NLD)"), None);
    assert_eq!(parse_place("Venlo (NLD)"), None);
}

#[test]
fn dates_must_exist() {
    assert_eq!(date_from_groups("2016", "06", "09"), Some(ymd(2016, 6, 9)));
    assert_eq!(date_from_groups("2016", "02", "29"), Some(ymd(2016, 2, 29)));
    assert_eq!(date_from_groups("2015", "02", "29"), None);
    assert_eq!(date_from_groups("2016", "00", "01"), None);
    assert_eq!(date_from_groups("2016", "13", "01"), None);
    assert_eq!(date_from_groups("2016", "04", "31"), None);
    assert_eq!(date_from_groups("2016", "x", "01"), None);
    assert_eq!(date_from_groups("1900", "02", "29"), None);
    assert_eq!(date_from_groups("2000", "02", "29"), Some(ymd(2000, 2, 29)));
    assert_eq!(date_from_groups("-4", "2", "29"), Some(ymd(-4, 2, 29)));
    assert_eq!(date_from_groups("2023", "1", "0"), None);
    assert_eq!(date_from_groups("2023", "12", "31"), Some(ymd(2023, 12, 31)));
    assert_eq!(date_from_groups("262142", "12", "31"), Some(ymd(262142, 12, 31)));
    assert_eq!(date_from_groups("262143", "1", "1"), None);
    assert_eq!(date_from_groups("-262143", "1", "1"), Some(ymd(-262143, 1, 1)));
    assert_eq!(date_from_groups("-262144", "12", "31"), None);
}

#[test]
fn the_last_entry_for_a_token_counts() {
    let table = vec![
        ("3".to_string(), EventAttribute::UnknownHeight),
        ("4".to_string(), EventAttribute::All),
        ("3".to_string(), EventAttribute::All),
    ];
    assert_eq!(find_specification(&table, "3"), Some(EventAttribute::All));
    assert_eq!(find_specification(&table, "4"), Some(EventAttribute::All));
    assert_eq!(find_specification(&table, "5"), None);
    assert_eq!(find_specification(&Vec::new(), "3"), None);
}
