use hydro::decimal::Decimal;
use hydro::scraping::{
    extract, extract_page, get_field, get_stations, normalize_row, page_url, remove_tags, scrape,
    split_full_name, url_of, Fetched, Page, ScrapingError, Station,
};

const TWO_ROWS: &str = r#"
            <table>
                <tbody>
                    <tr data-station-id="2416" data-station-name="aabach hitzkirch richensee">
                        <td>
                            2416
                        </td>
                        <td>
                            <a href="/de/2416.html"><strong>Aabach</strong> - Hitzkirch, Richensee</a>
                        </td>
                        <td>
                            14.06.2023 09:40
                        </td>
                        <td class="text-right">
                            1.1
                        </td>
                        <td class="text-right">
                            1.2
                        </td>
                        <td>
                            m<sup>3</sup>/s
                        </td>
                        <td>
                            <p><a href="/lhg/az/dwh/plots/surface/7day/2416_7.PDF" target="_blank"><span
                                        class="glyphicon glyphicon-stats glyphicon-spaced-r"></span>7 Tage</a></p>
                        </td>
                    </tr>
                    <tr data-station-id="6572" data-station-name="airolo - cima del bosco">
                        <td>
                            6572
                        </td>
                        <td>
                            <a href="/de/6572.html">Airolo - Cima del Bosco</a>
                        </td>
                        <td>
                            14.06.2023 09:40
                        </td>
                        <td class="text-right">
                            240
                        </td>
                        <td class="text-right">
                            420
                        </td>
                        <td>
                            l/min
                        </td>
                        <td>
                            <p><a href="/lhg/az/dwh/plots/naqua/90day/GW6572_90.PDF" target="_blank"><span
                                        class="glyphicon glyphicon-stats glyphicon-spaced-r"></span>3 Monate</a></p>
                        </td>
                    </tr>
                </tbody>
            </table>
        "#;

fn index_station(id: u16, name: &str, water: &str) -> Station {
    Station {
        id,
        name: name.to_string(),
        water: water.to_string(),
        measurement: None,
        max: None,
        time: None,
        url: format!("https://www.hydrodaten.admin.ch/de/{}.html", id),
    }
}

fn row(fields: &[(&str, &str)]) -> Vec<(String, String)> {
    fields.iter().map(|(k, v)| (k.to_string(), v.to_string())).collect()
}

fn one_row(id: &str, full_name: &str, datetime: &str, measurement: &str, max: &str) -> String {
    format!(
        "<html><body><table><tbody><tr><td>{}</td><td><a href=\"/de/x.html\">{}</a></td>\
         <td>{}</td><td>{}</td><td>{}</td><td>°C</td><td>...</td></tr></tbody></table></body></html>",
        id, full_name, datetime, measurement, max
    )
}

#[test]
fn should_return_same_string_when_has_no_tags() {
    let body = "A string without tags.";
    let result = remove_tags(body);
    assert_eq!(result, body);
}

#[test]
fn should_correctly_remove_tags() {
    let body = "<sometag>and</closingtag>";
    let result = remove_tags(body);
    assert_eq!(result, "and");
}

#[test]
fn should_correctly_return_all_stations() {
    let body = TWO_ROWS;

    let stations = extract(body);
    let expected = vec![
        Station {
            id: 2416,
            name: "Hitzkirch, Richensee".to_string(),
            water: "Aabach".to_string(),
            measurement: None,
            max: None,
            time: None,
            url: "https://www.hydrodaten.admin.ch/de/2416.html".to_string(),
        },
        Station {
            id: 6572,
            name: "Cima del Bosco".to_string(),
            water: "Airolo".to_string(),
            measurement: None,
            max: None,
            time: None,
            url: "https://www.hydrodaten.admin.ch/de/6572.html".to_string(),
        },
    ];

    assert_eq!(stations, expected);
}

#[test]
fn remove_tags_follows_the_left_to_right_rule() {
    assert_eq!(remove_tags(""), "");
    assert_eq!(remove_tags("<>"), "");
    assert_eq!(remove_tags("a<b"), "a<b");
    assert_eq!(remove_tags("a>b"), "a>b");
    assert_eq!(remove_tags("a>b<c"), "a>b<c");
    assert_eq!(remove_tags("<<a>b>"), "b>");
    assert_eq!(remove_tags("<a<b>>"), ">");
    assert_eq!(remove_tags("x<y>z<w"), "xz<w");
    assert_eq!(remove_tags("<a\nb>c"), "c");
    assert_eq!(remove_tags("<strong>Aabach</strong> - Hitzkirch, Richensee"), "Aabach - Hitzkirch, Richensee");
    assert_eq!(remove_tags("Schönau <i>é</i>"), "Schönau é");
}

#[test]
fn remove_tags_twice_is_remove_tags_once() {
    for text in ["<<a>b>", "<a<b>>", "a<b>c<d", "<x", "x>", "<<<>>>", "a < b > c"] {
        let once = remove_tags(text);
        assert_eq!(remove_tags(&once), once);
    }
}

#[test]
fn index_page_row_is_parsed() {
    let body = "<table><tbody><tr>\n<td>2416</td>\n\
        <td><a href=\"/de/2416.html\"><strong>Aabach</strong> - Hitzkirch, Richensee</a></td>\n\
        <td>14.06.2023 09:40</td><td>1.1</td><td>1.2</td><td>m³/s</td><td>...</td>\n\
        </tr></tbody></table>";
    assert_eq!(extract(body), vec![index_station(2416, "Hitzkirch, Richensee", "Aabach")]);
}

#[test]
fn temperature_page_row_is_parsed() {
    let body = one_row("2135", "Aare - Bern, Schönau", "14.06.2023 10:20", "16.7", "18.5");
    let stations = extract_page(&body, Page::Temperatures);
    assert_eq!(
        stations,
        vec![Station {
            id: 2135,
            name: "Bern, Schönau".to_string(),
            water: "Aare".to_string(),
            measurement: Decimal::new(false, 167, 1),
            max: Decimal::new(false, 185, 1),
            time: Some("14.06.2023 10:20".to_string()),
            url: "https://www.hydrodaten.admin.ch/de/2135.html".to_string(),
        }]
    );
}

#[test]
fn row_with_no_dash_is_omitted() {
    let body = one_row("2135", "AareBernSchönau", "14.06.2023 10:20", "16.7", "18.5");
    assert_eq!(extract(&body), vec![]);
    assert_eq!(extract_page(&body, Page::Temperatures), vec![]);
}

#[test]
fn row_with_bad_id_is_omitted() {
    for id in ["abc", "70000", "-1", "12a", "1.5"] {
        let body = one_row(id, "Aare - Bern", "14.06.2023 10:20", "16.7", "18.5");
        assert_eq!(extract(&body), vec![], "id {}", id);
    }
}

#[test]
fn name_is_split_at_the_first_dash() {
    assert_eq!(
        split_full_name("Lauerz - Vierwaldstättersee - Seedamm"),
        Some(("Lauerz".to_string(), "Vierwaldstättersee - Seedamm".to_string()))
    );
    assert_eq!(
        split_full_name("<strong>Aabach</strong> - Hitzkirch, Richensee"),
        Some(("Aabach".to_string(), "Hitzkirch, Richensee".to_string()))
    );
    assert_eq!(split_full_name("  A\t-\n B  "), Some(("A".to_string(), "B".to_string())));
    assert_eq!(split_full_name("-"), Some((String::new(), String::new())));
    assert_eq!(split_full_name("no hyphen"), None);
    assert_eq!(split_full_name("<a-b>x"), None);
}

#[test]
fn rows_sharing_an_id_are_all_kept() {
    let body = format!(
        "<table><tbody>{0}{1}</tbody></table>",
        "<tr><td>7</td><td><a>A - one</a></td><td>t</td><td>1</td><td>2</td><td>u</td><td>g</td></tr>",
        "<tr><td>7</td><td><a>B - two</a></td><td>t</td><td>1</td><td>2</td><td>u</td><td>g</td></tr>"
    );
    assert_eq!(extract(&body), vec![index_station(7, "one", "A"), index_station(7, "two", "B")]);
}

#[test]
fn other_tables_are_ignored() {
    let body = format!(
        "<table><tr><td>1</td><td>2</td></tr></table>{}<table><tr><th>x</th></tr></table>",
        "<table><tbody><tr><td>9</td><td><a>W - n</a></td><td>t</td><td>1</td><td>2</td><td>u</td><td>g</td></tr></tbody></table>"
    );
    assert_eq!(extract(&body), vec![index_station(9, "n", "W")]);
    assert_eq!(extract("<p>no table here</p>"), vec![]);
    assert_eq!(extract(""), vec![]);
}

#[test]
fn normalize_row_reads_fields_by_name() {
    let r = row(&[
        ("datetime", " 01.01.2024 00:00 "),
        ("full_name", "<b>Rhein</b> - Basel"),
        ("graphic", ""),
        ("id", "2289"),
        ("max", "x"),
        ("measurement", "-0.25"),
        ("unit", "°C"),
    ]);
    assert_eq!(get_field(&r, "id"), Some(&"2289".to_string()));
    assert_eq!(get_field(&r, "missing"), None);
    assert_eq!(normalize_row(&r, Page::Index), Some(index_station(2289, "Basel", "Rhein")));
    assert_eq!(
        normalize_row(&r, Page::Temperatures),
        Some(Station {
            id: 2289,
            name: "Basel".to_string(),
            water: "Rhein".to_string(),
            measurement: Decimal::new(true, 25, 2),
            max: None,
            time: Some("01.01.2024 00:00".to_string()),
            url: "https://www.hydrodaten.admin.ch/de/2289.html".to_string(),
        })
    );
    assert_eq!(normalize_row(&row(&[("id", "1")]), Page::Index), None);
    assert_eq!(normalize_row(&row(&[("full_name", "a - b")]), Page::Index), None);
    assert_eq!(
        normalize_row(&row(&[("id", "+5"), ("full_name", "a - b")]), Page::Index),
        Some(index_station(5, "b", "a"))
    );
}

#[test]
fn url_is_domain_id_and_suffix() {
    assert_eq!(url_of(0), "https://www.hydrodaten.admin.ch/de/0.html");
    assert_eq!(url_of(2135), "https://www.hydrodaten.admin.ch/de/2135.html");
    assert_eq!(url_of(65535), "https://www.hydrodaten.admin.ch/de/65535.html");
    for s in extract(TWO_ROWS) {
        assert_eq!(s.url, format!("https://www.hydrodaten.admin.ch/de/{}.html", s.id));
    }
}

#[test]
fn page_addresses() {
    assert_eq!(page_url(Page::Index), "https://www.hydrodaten.admin.ch/de/stationen-und-daten.html");
    assert_eq!(
        page_url(Page::Temperatures),
        "https://www.hydrodaten.admin.ch/de/tabelle-der-wassertemperaturen.html"
    );
}

#[test]
fn scrape_classifies_the_outcome() {
    assert_eq!(scrape(Fetched::Unreachable), Err(ScrapingError::ServerNotReachable));
    for status in [0u16, 100, 199, 300, 301, 404, 500, 65535] {
        assert_eq!(
            scrape(Fetched::Response { status, body: Some("x".to_string()) }),
            Err(ScrapingError::BadResponse)
        );
        assert_eq!(scrape(Fetched::Response { status, body: None }), Err(ScrapingError::BadResponse));
    }
    for status in [200u16, 204, 299] {
        assert_eq!(scrape(Fetched::Response { status, body: None }), Err(ScrapingError::CorruptedBody));
        assert_eq!(
            scrape(Fetched::Response { status, body: Some("body".to_string()) }),
            Ok("body".to_string())
        );
    }
}

#[test]
fn get_stations_passes_errors_on_and_extracts_bodies() {
    assert_eq!(get_stations(Page::Index, Fetched::Unreachable), Err(ScrapingError::ServerNotReachable));
    assert_eq!(
        get_stations(Page::Index, Fetched::Response { status: 503, body: Some(TWO_ROWS.to_string()) }),
        Err(ScrapingError::BadResponse)
    );
    assert_eq!(
        get_stations(Page::Temperatures, Fetched::Response { status: 200, body: None }),
        Err(ScrapingError::CorruptedBody)
    );
    let got = get_stations(Page::Index, Fetched::Response { status: 200, body: Some(TWO_ROWS.to_string()) });
    assert_eq!(got, Ok(extract(TWO_ROWS)));
    let temps =
        get_stations(Page::Temperatures, Fetched::Response { status: 200, body: Some(TWO_ROWS.to_string()) })
            .unwrap();
    assert_eq!(temps.len(), 2);
    assert_eq!(temps[0].measurement, Decimal::new(false, 11, 1));
    assert_eq!(temps[0].max, Decimal::new(false, 12, 1));
    assert_eq!(temps[1].measurement, Decimal::new(false, 240, 0));
    assert_eq!(temps[1].time, Some("14.06.2023 09:40".to_string()));
}

#[test]
fn error_messages() {
    assert_eq!(ScrapingError::ServerNotReachable.message(), "Server not reachable.");
    assert_eq!(ScrapingError::BadResponse.message(), "Bad response.");
    assert_eq!(ScrapingError::CorruptedBody.message(), "Corrupted body.");
}
