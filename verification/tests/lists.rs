use atletiek_nu_api::date::Date;
use atletiek_nu_api::models::athlete_list;
use atletiek_nu_api::models::competition_event_list;
use atletiek_nu_api::models::competition_event_list::{insert_event, CompetitionEvent};
use atletiek_nu_api::models::competition_registrations_list;
use atletiek_nu_api::models::competitions_list;
use atletiek_nu_api::models::competitions_list_web;
use atletiek_nu_api::models::competitions_list_web::{
    date_from_groups, month_from_name, parse_date, split_club_and_place,
};
use atletiek_nu_api::CompetitionID;
use scraper::Html;

fn ymd(year: i32, month: u32, day: u32) -> Date {
    Date { year, month, day }
}

fn web_row(id: u32, date: &str, name: &str, place: &str, athletes: &str, status: &str) -> String {
    format!(
        "<tr onclick=\"window.location='/wedstrijd/main/{}/'\">{}<td class=\"eventnaam\"><a href=\"#\">\
         <span><span class=\"eventnaam\">{}</span><span class=\"verenigingnaam\">{}</span>\
         <span class=\"aantaldeelnemers\">{}</span></span></a></td><td>{}</td></tr>",
        id, date, name, place, athletes, status
    )
}

fn date_cell(text: &str) -> String {
    format!("<td class=\"datumCol\"><span class=\"hidden-xs\">{}</span></td>", text)
}

fn web_page(rows: &[String]) -> Html {
    Html::parse_document(&format!("<table><tbody>{}</tbody></table>", rows.concat()))
}

#[test]
fn competitions_of_the_desktop_search_are_read() {
    let html = web_page(&[
        web_row(
            38436,
            &date_cell("SAT 03 JUN 2023"),
            "\u{a0}Summer  Games \u{a0}<span class=\"label\">Club members only</span>",
            "AV Test, Venlo",
            "220 athletes",
            "<span>Results</span>",
        ),
        web_row(
            40258,
            &date_cell("sun 31 DEC 2023"),
            "Winter Cup",
            "AC Other, Bergen op Zoom, NL",
            "0 athletes",
            "<span>Open</span>",
        ),
    ]);
    let list = competitions_list_web::parse_on(&html, ymd(2000, 1, 1)).unwrap();
    assert_eq!(list.len(), 2);
    assert_eq!(list[0].competition_id, 38436);
    assert_eq!(list[0].date, ymd(2023, 6, 3));
    assert_eq!(list[0].name, "Summer  Games");
    assert_eq!(list[0].club, "AV Test");
    assert_eq!(list[0].location, "Venlo");
    assert_eq!(list[0].registrations, 220);
    assert!(list[0].results_availible);
    assert!(list[0].club_members_only);
    assert_eq!(list[1].competition_id, 40258);
    assert_eq!(list[1].date, ymd(2023, 12, 31));
    assert_eq!(list[1].name, "Winter Cup");
    assert_eq!(list[1].club, "AC Other");
    assert_eq!(list[1].location, "Bergen op Zoom");
    assert_eq!(list[1].registrations, 0);
    assert!(!list[1].results_availible);
    assert!(!list[1].club_members_only);
}

#[test]
fn a_competition_without_a_date_is_of_today() {
    let html = web_page(&[web_row(1, "", "Today's", "AV, Venlo", "5 athletes", "")]);
    let today = ymd(2024, 2, 29);
    let list = competitions_list_web::parse_on(&html, today).unwrap();
    assert_eq!(list.len(), 1);
    assert_eq!(list[0].date, today);
    assert!(!list[0].results_availible);
    let html = web_page(&[web_row(1, "", "Today's", "AV, Venlo", "5 athletes", "")]);
    let list = competitions_list_web::parse(html).unwrap();
    assert_eq!(list.len(), 1);
    assert!(list[0].date.year >= 2024);
    assert!(1 <= list[0].date.month && list[0].date.month <= 12);
    assert!(1 <= list[0].date.day && list[0].date.day <= 31);
}

#[test]
fn competitions_that_cannot_be_read_are_left_out() {
    let html = web_page(&[
        web_row(1, &date_cell("SAT 31 JUN 2023"), "No such day", "AV, Venlo", "5 athletes", ""),
        web_row(2, &date_cell("SAT 03 XXX 2023"), "No such month", "AV, Venlo", "5 athletes", ""),
        web_row(3, &date_cell("SAT 03 JUN 2023"), "No place", "AV Venlo", "5 athletes", ""),
        web_row(4, &date_cell("SAT 03 JUN 2023"), "No number", "AV, Venlo", "some athletes", ""),
        "<tr onclick=\"go()\"><td>no number at all</td></tr>".to_string(),
        "<tr><td>no onclick</td></tr>".to_string(),
        web_row(5, &date_cell("SAT 03 JUN 2023"), "Fine", "AV, Venlo", "5 athletes", ""),
    ]);
    let list = competitions_list_web::parse_on(&html, ymd(2000, 1, 1)).unwrap();
    assert_eq!(list.len(), 1);
    assert_eq!(list[0].competition_id, 5);
    let empty = Html::parse_document("<p>nothing</p>");
    assert!(competitions_list_web::parse_on(&empty, ymd(2000, 1, 1)).unwrap().is_empty());
}

#[test]
fn months_are_known_by_three_capitals() {
    let names = ["JAN", "FEB", "MAR", "APR", "MAY", "JUN", "JUL", "AUG", "SEP", "OCT", "NOV", "DEC"];
    for (i, name) in names.iter().enumerate() {
        assert_eq!(month_from_name(name), Some(i as u32 + 1));
    }
    assert_eq!(month_from_name("jan"), None);
    assert_eq!(month_from_name("JANUARY"), None);
    assert_eq!(month_from_name(""), None);
}

#[test]
fn days_are_read_with_the_month_by_name() {
    assert_eq!(parse_date("SAT 03 JUN 2023"), Some(ymd(2023, 6, 3)));
    assert_eq!(parse_date("xx THU 29 FEB 2024 yy"), Some(ymd(2024, 2, 29)));
    assert_eq!(parse_date("WED 29 FEB 2023"), None);
    assert_eq!(parse_date("03-06-2023"), None);
    assert_eq!(date_from_groups("03", "JUN", "2023"), Some(ymd(2023, 6, 3)));
    assert_eq!(date_from_groups("00", "JUN", "2023"), None);
    assert_eq!(date_from_groups("3", "Jun", "2023"), None);
}

#[test]
fn club_and_place_are_split_at_the_comma() {
    assert_eq!(split_club_and_place("AV Test, Venlo"), Some(("AV Test".to_string(), "Venlo".to_string())));
    assert_eq!(split_club_and_place("AV, Venlo, NL"), Some(("AV".to_string(), "Venlo".to_string())));
    assert_eq!(split_club_and_place("AV,Venlo"), None);
    assert_eq!(split_club_and_place(", "), Some(("".to_string(), "".to_string())));
}

fn mobile_item(id: &str, title: &str, location: &str, footer: &str) -> String {
    format!(
        "<li><a href=\"/event&do=get&event_id={}\"><div class=\"item-inner\"><div class=\"item-title\">\
         <h6>{}</h6><div class=\"subtitle\">{}</div><div class=\"item-footer\">{}</div></div></div></a></li>",
        id, title, location, footer
    )
}

#[test]
fn competitions_of_the_mobile_search_are_read() {
    let html = Html::parse_fragment(&format!(
        "<div class=\"competitions-list\"><ul>{}{}</ul></div><div class=\"competitions-list\"><ul>{}{}</ul></div>",
        mobile_item(
            "38436",
            " <img class=\"WA-label\" src=\"wa.png\"> Summer Games ",
            " Venlo <span class=\"clubmembersonly\">Club members only</span>",
            "220 registrations"
        ),
        mobile_item("x", "Bad number", "Venlo", "1 registrations"),
        mobile_item("40258", "Winter Cup", "Weert", "No registrations"),
        mobile_item("40259", "Spring Meet", "Weert", "  12 registrations so far"),
    ));
    let list = competitions_list::parse(html).unwrap();
    assert_eq!(list.len(), 2);
    assert_eq!(list[0].id, 38436);
    assert_eq!(list[0].name, "Summer Games");
    assert_eq!(list[0].location, "Venlo");
    assert_eq!(list[0].registrations, 220);
    assert!(list[0].club_only);
    assert!(list[0].world_athletics_recognized);
    assert_eq!(list[1].id, 40259);
    assert_eq!(list[1].name, "Spring Meet");
    assert_eq!(list[1].location, "Weert");
    assert_eq!(list[1].registrations, 12);
    assert!(!list[1].club_only);
    assert!(!list[1].world_athletics_recognized);
    assert_eq!(list[1].competition_id(), 40259);
    assert_eq!(7u32.competition_id(), 7);
}

#[test]
fn list_items_are_read_from_a_fragment() {
    let html = Html::parse_fragment(&format!(
        "<ul>{}</ul>",
        mobile_item("5", "One", "Here", "70000 registrations")
    ));
    assert!(competitions_list::parse_element_list(html).unwrap().is_empty());
    let html = Html::parse_fragment(&format!(
        "<ul>{}</ul>",
        mobile_item("5", "One", "Here", "65535 registrations")
    ));
    let list = competitions_list::parse_element_list(html).unwrap();
    assert_eq!(list.len(), 1);
    assert_eq!(list[0].registrations, 65535);
    let outside = Html::parse_fragment(&format!("<ul>{}</ul>", mobile_item("5", "One", "Here", "1 registrations")));
    assert!(competitions_list::parse(outside).unwrap().is_empty());
}

fn athlete(id: &str, name: &str, line: &str) -> String {
    format!(
        "<li><a href=\"#\" onclick=\"open('athlete&koppel_id={}')\"><div class=\"item-inner\">\
         <div class=\"item-title\">{}<div class=\"item-footer\">{}</div></div></div></a></li>",
        id, name, line
    )
}

#[test]
fn athletes_of_a_search_are_read() {
    let html = Html::parse_fragment(&format!(
        "<div class=\"list-athletes\"><ul>{}{}{}{}{}</ul></div>",
        athlete("921275", " Marith  Siekman ", " 17 years | AV Test "),
        athlete("5", "No age", "AV Test"),
        athlete("x", "No number", "17 years | AV Test"),
        athlete("6", "Too old", "300 years | AV Test"),
        athlete("7", "Femke Bol", "24 years | AV Altis | NL"),
    ));
    let list = athlete_list::parse(html).unwrap();
    assert_eq!(list.len(), 2);
    assert_eq!(list[0].id, 921275);
    assert_eq!(list[0].name, "Marith Siekman");
    assert_eq!(list[0].club_name, "AV Test");
    assert_eq!(list[0].age, 17);
    assert_eq!(list[1].id, 7);
    assert_eq!(list[1].club_name, "AV Altis | NL");
    assert_eq!(list[1].age, 24);
    assert!(athlete_list::parse(Html::parse_fragment("<p>none</p>")).unwrap().is_empty());
}

#[test]
fn age_and_club_are_split_at_the_bar() {
    assert_eq!(athlete_list::parse_age_and_club("17 years | AV"), Some((17, "AV".to_string())));
    assert_eq!(athlete_list::parse_age_and_club("255 years | AV"), Some((255, "AV".to_string())));
    assert_eq!(athlete_list::parse_age_and_club("256 years | AV"), None);
    assert_eq!(athlete_list::parse_age_and_club("years | AV"), None);
}

#[test]
fn events_of_a_competition_are_read_once_each() {
    let link = |a: u32, b: u32| {
        format!(
            "<tr><td><span>10:00</span><a href=\"https://www.athletics.app/wedstrijd/startlijst/{}/{}/\">x</a></td></tr>",
            a, b
        )
    };
    let html = Html::parse_document(&format!(
        "<table><tbody>{}{}{}{}<tr><td><a href=\"https://www.athletics.app/wedstrijd/startlijst/9/9/\">no span before</a></td></tr>\
         <tr><td><span>x</span><a>no address</a></td></tr>\
         <tr><td><span>x</span><a href=\"https://www.athletics.app/wedstrijd/startlijst/99999999999/1/\">too large</a></td></tr>\
         </tbody></table>",
        link(1, 2),
        link(1, 3),
        link(1, 2),
        link(4, 2)
    ));
    let events = competition_event_list::parse(html).unwrap();
    assert_eq!(
        events,
        vec![
            CompetitionEvent { id1: 1, id2: 2 },
            CompetitionEvent { id1: 1, id2: 3 },
            CompetitionEvent { id1: 4, id2: 2 },
        ]
    );
}

#[test]
fn an_event_is_inserted_unless_it_is_there() {
    let mut events = Vec::new();
    insert_event(&mut events, CompetitionEvent { id1: 1, id2: 2 });
    insert_event(&mut events, CompetitionEvent { id1: 2, id2: 1 });
    insert_event(&mut events, CompetitionEvent { id1: 1, id2: 2 });
    assert_eq!(events, vec![CompetitionEvent { id1: 1, id2: 2 }, CompetitionEvent { id1: 2, id2: 1 }]);
}

fn competition_row(link: &str, key: &str, place: &str, title: &str) -> String {
    format!(
        "<tr><td>{}</td><td><span class=\"sortData\" data=\"{}\"></span><span class=\"subtext\">\
         <span class=\"hidden-xs\">{}<img src=\"/flags/nl.png\" title=\"{}\"></span></span></td></tr>",
        link, key, place, title
    )
}

#[test]
fn competitions_taken_part_in_are_read() {
    let title = "Netherlands&lt;br&gt;&lt;span class=&quot;subtext&quot;&gt;Europe&lt;/span&gt;";
    let html = Html::parse_document(&format!(
        "<div id=\"wedstrijden\"><table id=\"persoonlijkerecords\"><tbody>{}{}{}{}</tbody></table></div>",
        competition_row(
            "<a href=\"https://www.athletics.app/atleet/main/1793090/\"> Summer Games </a>",
            "20230603Venlo",
            " Venlo ",
            title
        ),
        competition_row(" Old Meeting ", "2016-06-09 Weert", "Weert", title),
        competition_row("No such day", "20230631", "Weert", title),
        competition_row("No country", "20230603", "Weert", "nothing"),
    ));
    let list = competition_registrations_list::parse(html.root_element()).unwrap();
    assert_eq!(list.len(), 2);
    assert_eq!(list[0].participant_id, 1793090);
    assert_eq!(list[0].name, "Summer Games");
    assert_eq!(list[0].date, ymd(2023, 6, 3));
    assert_eq!(list[0].location.place, "Venlo");
    assert_eq!(list[0].location.country, "Netherlands");
    assert_eq!(list[0].location.continent, "Europe");
    assert_eq!(list[0].location.flag_img_url, "/flags/nl.png");
    assert_eq!(list[1].participant_id, 0);
    assert_eq!(list[1].name, "Old Meeting");
    assert_eq!(list[1].date, ymd(2016, 6, 9));
    let none = Html::parse_document("<p>nothing</p>");
    assert!(competition_registrations_list::parse(none.root_element()).unwrap().is_empty());
}
