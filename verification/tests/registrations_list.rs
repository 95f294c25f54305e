use atletiek_nu_api::models::registrations_list::{parse, parse_affiliation};
use atletiek_nu_api::models::ExtractError;
use scraper::Html;

/// The list stands in a script as raw markup; the parser hands the content of
/// a script back with `<` and `>` escaped.
fn page(items: &str) -> Html {
    Html::parse_fragment(&format!(
        "<div><script class=\"list-content-registrations\" type=\"text/template\">{}</script></div>",
        items
    ))
}

fn item(id: u32, name: &str, line: &str, events: &str) -> String {
    format!(
        "<li><a href=\"/athleteapp.php?page=x&deelnemer_id={}\"><div class=\"item-inner\">\
         <div class=\"item-title\">{}<div class=\"item-footer\">{}</div></div>\
         <div class=\"item-after\">{}</div></div></a></li>",
        id, name, line, events
    )
}

#[test]
fn participants_of_the_mobile_list_are_read() {
    let html = page(&format!(
        "<ul>{}{}</ul>",
        item(11, " Jane  Doe ", "U20 | AV Test | Relay  A", "100m<br>200m"),
        item(12, "Joe", "M35 | Club", " Shot put ")
    ));
    let list = parse(html).unwrap();
    assert_eq!(list.len(), 2);
    assert_eq!(list[0].participant_id, 11);
    assert_eq!(list[0].name, "Jane Doe");
    assert_eq!(list[0].category, "U20");
    assert_eq!(list[0].club_name, "AV Test");
    assert_eq!(list[0].team_name, Some("Relay A".to_string()));
    assert_eq!(list[0].events, vec!["100m".to_string(), "200m".to_string()]);
    assert_eq!(list[1].participant_id, 12);
    assert_eq!(list[1].name, "Joe");
    assert_eq!(list[1].category, "M35");
    assert_eq!(list[1].club_name, "Club");
    assert_eq!(list[1].team_name, None);
    assert_eq!(list[1].events, vec!["Shot put".to_string()]);
}

#[test]
fn an_item_that_cannot_be_read_is_left_out() {
    let html = page(&format!(
        "<ul>{}<li><a href=\"/nothing\"><div class=\"item-inner\"></div></a></li>{}</ul>",
        item(1, "A", "no bars", "100m"),
        item(2, "B", "U18 | AV", "100m")
    ));
    let list = parse(html).unwrap();
    assert_eq!(list.len(), 1);
    assert_eq!(list[0].participant_id, 2);
}

#[test]
fn a_page_without_the_script_has_not_the_structure() {
    let html = Html::parse_fragment("<ul><li>nothing</li></ul>");
    assert_eq!(parse(html).err(), Some(ExtractError::StructureNotFound));
}

#[test]
fn affiliations_have_two_or_three_parts() {
    assert_eq!(
        parse_affiliation("U20 | AV Test | Team"),
        Some(("U20".to_string(), "AV Test".to_string(), Some("Team".to_string())))
    );
    assert_eq!(
        parse_affiliation(" U20  x | AV  Test "),
        Some(("U20 x".to_string(), "AV Test".to_string(), None))
    );
    assert_eq!(parse_affiliation("nothing"), None);
}
