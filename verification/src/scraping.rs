//! From a fetched page to station records: classifying the outcome of the
//! request, matching the table rows of the page, and normalising each row.

use crate::decimal::{decimal_view, parsed_decimal, Decimal, DecimalView};
use crate::text::{
    decimal_text, first_index, lemma_first_index, parse_u16, parsed_u16, split_once, trim, trimmed, u64_to_string,
};
use easy_scraper::Pattern;
use regex::Regex;
use vstd::prelude::*;
use vstd::string::StringExecFns;

verus! {

/// The address under which the portal publishes its pages.
pub const DOMAIN: &'static str = "https://www.hydrodaten.admin.ch/de/";

/// The page that lists every station.
pub const LIST: &'static str = "stationen-und-daten.html";

/// The page that lists the stations measuring water temperature.
pub const TEMPERATURES: &'static str = "tabelle-der-wassertemperaturen.html";

/// The shape of a table row that stands for a station: seven cells, the
/// second of which holds a link around the composite name.
pub const ROW_TEMPLATE: &'static str = r#"
    <table subseq>
        <tbody>
            <tr>
                <td>{{id}}</td>
                <td><a>{{full_name:*}}</a></td>
                <td>{{datetime}}</td>
                <td>{{measurement}}</td>
                <td>{{max}}</td>
                <td>{{unit:*}}</td>
                <td>{{graphic:*}}</td>
            </tr>
        </tbody>
    </table>
    "#;

/// The regular expression of an HTML tag.
pub const TAG_PATTERN: &'static str = "<[^>]*>";

/// Which of the two published tables a body of HTML holds.
#[derive(Debug, PartialEq, Eq, Clone, Copy, Structural)]
pub enum Page {
    /// The index of stations: identity columns only.
    Index,
    /// The table of water temperatures: identity columns and a reading.
    Temperatures,
}

/// Why no page body could be had.
#[derive(Debug, PartialEq, Eq, Clone, Copy, Structural)]
pub enum ScrapingError {
    ServerNotReachable,
    BadResponse,
    CorruptedBody,
}

/// A measurement station.
#[derive(Debug, PartialEq)]
pub struct Station {
    pub id: u16,
    pub name: String,
    pub water: String,
    pub measurement: Option<Decimal>,
    pub max: Option<Decimal>,
    pub time: Option<String>,
    pub url: String,
}

/// What a station record says.
pub struct StationView {
    pub id: u16,
    pub name: Seq<char>,
    pub water: Seq<char>,
    pub measurement: Option<DecimalView>,
    pub max: Option<DecimalView>,
    pub time: Option<Seq<char>>,
    pub url: Seq<char>,
}

impl View for Station {
    type V = StationView;

    open spec fn view(&self) -> StationView {
        StationView {
            id: self.id,
            name: self.name@,
            water: self.water@,
            measurement: decimal_view(self.measurement),
            max: decimal_view(self.max),
            time: match self.time {
                Some(t) => Some(t@),
                None => None,
            },
            url: self.url@,
        }
    }
}

/// What each of a list of stations says.
pub open spec fn views(stations: Seq<Station>) -> Seq<StationView> {
    Seq::new(stations.len(), |i: int| stations[i]@)
}

/// `s` without its HTML tags. A tag begins at a `<` that a `>` follows
/// somewhere and ends at the first such `>`; the text is read from left to
/// right, so that a `<` inside a tag does not begin another.
pub open spec fn without_tags(s: Seq<char>) -> Seq<char>
    decreases s.len(),
    via without_tags_decreases
{
    if s.len() == 0 {
        s
    } else if s[0] == '<' && s.contains('>') {
        without_tags(s.skip(first_index(s, '>') + 1))
    } else {
        seq![s[0]] + without_tags(s.skip(1))
    }
}

#[via_fn]
proof fn without_tags_decreases(s: Seq<char>) {
    lemma_first_index(s, '>');
}

/// `Regex::new` and `Regex::replace_all` of the regex crate, for the pattern
/// of a tag and the empty replacement: every match of the pattern is taken
/// out. The pattern is a valid expression. Its matches are found from left
/// to right and do not overlap; a match begins at `<`, runs over anything
/// but `>`, line breaks included, and ends at the next `>`.
#[verifier::external_body]
fn replace_all(pattern: &str, text: &str, replacement: &str) -> (r: String)
    requires
        pattern@ == TAG_PATTERN@,
        replacement@.len() == 0,
    ensures
        r@ == without_tags(text@),
{
    Regex::new(pattern).map(|re| re.replace_all(text, replacement).into_owned()).unwrap_or_default()
}

/// Takes the HTML tags out of `body`.
pub fn remove_tags(body: &str) -> (r: String)
    ensures
        r@ == without_tags(body@),
{
    proof {
        reveal_strlit("");
    }
    replace_all(TAG_PATTERN, body, "")
}

/// A matched row as it comes from the page: its fields by name.
pub type RowView = Seq<(Seq<char>, Seq<char>)>;

/// The rows of `body` that match `template`, in the order of the document:
/// for each row the captured fields, as pairs of name and text in the order
/// of the names.
pub uninterp spec fn template_rows(template: Seq<char>, body: Seq<char>) -> Seq<RowView>;

/// `Pattern::new` and `Pattern::matches` of easy_scraper, for the template of
/// a station row: the matches of the template in the document, each as its
/// pairs of field name and captured text, in the order in which the crate's
/// map of fields hands them out. The result depends on the two texts alone.
/// A template that the crate rejects matches nothing.
#[verifier::external_body]
fn match_rows(template: &str, body: &str) -> (rows: Vec<Vec<(String, String)>>)
    requires
        template@ == ROW_TEMPLATE@,
    ensures
        rows.deep_view() == template_rows(template@, body@),
{
    match Pattern::new(template) {
        Ok(pattern) => pattern.matches(body).into_iter().map(|m| m.into_iter().collect()).collect(),
        Err(_) => Vec::new(),
    }
}

/// The text of the field `name` of a row: that of the first pair so named.
pub open spec fn field(row: RowView, name: Seq<char>) -> Option<Seq<char>>
    decreases row.len(),
{
    if row.len() == 0 {
        None
    } else if row[0].0 == name {
        Some(row[0].1)
    } else {
        field(row.skip(1), name)
    }
}

/// The two parts of a composite name: what stands before its first hyphen
/// and what stands after it, each without surrounding white space. Nothing
/// where the name has no hyphen.
pub open spec fn split_name(plain: Seq<char>) -> Option<(Seq<char>, Seq<char>)> {
    if plain.contains('-') {
        Some(
            (
                trimmed(plain.take(first_index(plain, '-'))),
                trimmed(plain.skip(first_index(plain, '-') + 1)),
            ),
        )
    } else {
        None
    }
}

/// Water and name of a station, from the cell that holds its composite name
/// with markup.
pub open spec fn name_parts(full_name: Seq<char>) -> Option<(Seq<char>, Seq<char>)> {
    split_name(without_tags(full_name))
}

/// The address of the page of the station `id`.
pub open spec fn station_url(id: u16) -> Seq<char> {
    DOMAIN@ + decimal_text(id as nat) + ".html"@
}

/// A reading of a row: the number in the field `name` on the temperature
/// page, where the field holds a numeral; nothing on the index page.
pub open spec fn reading(row: RowView, name: Seq<char>, page: Page) -> Option<DecimalView> {
    match (page, field(row, name)) {
        (Page::Temperatures, Some(text)) => parsed_decimal(text),
        _ => None,
    }
}

/// The time of a row: the field `datetime` without surrounding white space
/// on the temperature page; nothing on the index page.
pub open spec fn reading_time(row: RowView, page: Page) -> Option<Seq<char>> {
    match (page, field(row, "datetime"@)) {
        (Page::Temperatures, Some(text)) => Some(trimmed(text)),
        _ => None,
    }
}

/// The station that a row stands for. There is none where the row lacks the
/// field `full_name` or `id`, where the composite name has no hyphen, or
/// where the id is no number of 16 bits.
pub open spec fn normalized_row(row: RowView, page: Page) -> Option<StationView> {
    match (field(row, "full_name"@), field(row, "id"@)) {
        (Some(full_name), Some(id_text)) => match (name_parts(full_name), parsed_u16(id_text)) {
            (Some((water, name)), Some(id)) => Some(
                StationView {
                    id,
                    name,
                    water,
                    measurement: reading(row, "measurement"@, page),
                    max: reading(row, "max"@, page),
                    time: reading_time(row, page),
                    url: station_url(id),
                },
            ),
            _ => None,
        },
        _ => None,
    }
}

/// The stations that the rows stand for, in the order of the rows; a row
/// that stands for none is left out.
pub open spec fn normalized(rows: Seq<RowView>, page: Page) -> Seq<StationView>
    decreases rows.len(),
{
    if rows.len() == 0 {
        Seq::<StationView>::empty()
    } else {
        let before = normalized(rows.drop_last(), page);
        match normalized_row(rows.last(), page) {
            Some(station) => before.push(station),
            None => before,
        }
    }
}

/// The view of an optional station.
pub open spec fn station_view(station: Option<Station>) -> Option<StationView> {
    match station {
        Some(s) => Some(s@),
        None => None,
    }
}

/// The text of the field `name` of a row, if the row has such a field.
pub fn get_field<'a>(row: &'a Vec<(String, String)>, name: &str) -> (r: Option<&'a String>)
    ensures
        match r {
            Some(text) => field(row.deep_view(), name@) == Some(text@),
            None => field(row.deep_view(), name@) is None,
        },
{
    let key = String::from_str(name);
    let ghost all = row.deep_view();
    let mut i: usize = 0;
    assert(all.skip(0) =~= all);
    while i < row.len()
        invariant
            i <= row.len(),
            all == row.deep_view(),
            key@ == name@,
            field(all, name@) == field(all.skip(i as int), name@),
        decreases row.len() - i,
    {
        assert(all.skip(i as int)[0] == all[i as int]);
        assert(all.skip(i as int).skip(1) =~= all.skip(i + 1));
        if row[i].0 == key {
            return Some(&row[i].1);
        }
        i = i + 1;
    }
    None
}

/// Water and name out of the cell that holds the composite name.
pub fn split_full_name(full_name: &str) -> (r: Option<(String, String)>)
    ensures
        match r {
            Some((water, name)) => name_parts(full_name@) == Some((water@, name@)),
            None => name_parts(full_name@) is None,
        },
{
    let plain = remove_tags(full_name);
    match split_once(plain.as_str(), '-') {
        Some((water, name)) => Some((String::from_str(trim(water)), String::from_str(trim(name)))),
        None => None,
    }
}

/// The address of the page of the station `id`.
pub fn url_of(id: u16) -> (url: String)
    ensures
        url@ == station_url(id),
{
    let mut url = String::from_str(DOMAIN);
    url.append(u64_to_string(id as u64).as_str());
    url.append(".html");
    url
}

fn read_reading(row: &Vec<(String, String)>, name: &str, page: Page) -> (r: Option<Decimal>)
    ensures
        decimal_view(r) == reading(row.deep_view(), name@, page),
{
    match page {
        Page::Index => None,
        Page::Temperatures => match get_field(row, name) {
            Some(text) => Decimal::parse(text.as_str()),
            None => None,
        },
    }
}

fn read_time(row: &Vec<(String, String)>, page: Page) -> (r: Option<String>)
    ensures
        match r {
            Some(time) => reading_time(row.deep_view(), page) == Some(time@),
            None => reading_time(row.deep_view(), page) is None,
        },
{
    match page {
        Page::Index => None,
        Page::Temperatures => match get_field(row, "datetime") {
            Some(text) => Some(String::from_str(trim(text.as_str()))),
            None => None,
        },
    }
}

/// The station that a matched row stands for, if it stands for one. Its
/// address is that of the page of its id.
pub fn normalize_row(row: &Vec<(String, String)>, page: Page) -> (r: Option<Station>)
    ensures
        station_view(r) == normalized_row(row.deep_view(), page),
        r matches Some(station) ==> station.url@ == station_url(station.id),
{
    let full_name = match get_field(row, "full_name") {
        Some(text) => text,
        None => {
            return None;
        },
    };
    let id_text = match get_field(row, "id") {
        Some(text) => text,
        None => {
            return None;
        },
    };
    let (water, name) = match split_full_name(full_name.as_str()) {
        Some(parts) => parts,
        None => {
            return None;
        },
    };
    let id = match parse_u16(id_text.as_str()) {
        Some(id) => id,
        None => {
            return None;
        },
    };
    Some(
        Station {
            id,
            name,
            water,
            measurement: read_reading(row, "measurement", page),
            max: read_reading(row, "max", page),
            time: read_time(row, page),
            url: url_of(id),
        },
    )
}

/// The stations that the matched rows stand for, in the order of the rows.
pub fn normalize_rows(rows: &Vec<Vec<(String, String)>>, page: Page) -> (stations: Vec<Station>)
    ensures
        views(stations@) == normalized(rows.deep_view(), page),
        forall|i: int|
            0 <= i < stations.len() ==> (#[trigger] stations@[i]).url@ == station_url(
                stations@[i].id,
            ),
{
    let mut stations: Vec<Station> = Vec::new();
    let ghost all = rows.deep_view();
    let mut i: usize = 0;
    while i < rows.len()
        invariant
            i <= rows.len(),
            all == rows.deep_view(),
            views(stations@) == normalized(all.take(i as int), page),
            forall|j: int|
                0 <= j < stations.len() ==> (#[trigger] stations@[j]).url@ == station_url(
                    stations@[j].id,
                ),
        decreases rows.len() - i,
    {
        assert(all.take(i + 1).drop_last() =~= all.take(i as int));
        assert(all.take(i + 1).last() == rows@[i as int].deep_view());
        let ghost before = stations@;
        match normalize_row(&rows[i], page) {
            Some(station) => {
                stations.push(station);
                assert(views(stations@) =~= views(before).push(station@));
            },
            None => {},
        }
        i = i + 1;
    }
    assert(all.take(rows.len() as int) =~= all);
    stations
}

/// The stations of a page of the given kind, out of its HTML.
pub fn extract_page(body: &str, page: Page) -> (stations: Vec<Station>)
    ensures
        views(stations@) == normalized(template_rows(ROW_TEMPLATE@, body@), page),
        forall|i: int|
            0 <= i < stations.len() ==> (#[trigger] stations@[i]).url@ == station_url(
                stations@[i].id,
            ),
{
    let rows = match_rows(ROW_TEMPLATE, body);
    normalize_rows(&rows, page)
}

/// The stations of the index page, out of its HTML.
pub fn extract(body: &str) -> (stations: Vec<Station>)
    ensures
        views(stations@) == normalized(template_rows(ROW_TEMPLATE@, body@), Page::Index),
        forall|i: int|
            0 <= i < stations.len() ==> (#[trigger] stations@[i]).url@ == station_url(
                stations@[i].id,
            ),
{
    extract_page(body, Page::Index)
}

/// How a request for a page ended.
#[derive(Debug, PartialEq, Eq)]
pub enum Fetched {
    /// No connection could be made, or it broke.
    Unreachable,
    /// The server answered with this status; `body` is the answer's body as
    /// text, or nothing where it could not be read as text.
    Response { status: u16, body: Option<String> },
}

/// Whether an HTTP status says that the request succeeded.
pub open spec fn is_success(status: u16) -> bool {
    200 <= status < 300
}

/// The body that a request yielded, or why it yielded none.
pub open spec fn scraped(fetched: Fetched) -> Result<String, ScrapingError> {
    match fetched {
        Fetched::Unreachable => Err(ScrapingError::ServerNotReachable),
        Fetched::Response { status, body } => if !is_success(status) {
            Err(ScrapingError::BadResponse)
        } else {
            match body {
                Some(text) => Ok(text),
                None => Err(ScrapingError::CorruptedBody),
            }
        },
    }
}

/// The body of the page that a request yielded. A request that reached no
/// server fails as `ServerNotReachable`; an answer whose status is not a
/// success fails as `BadResponse`, whatever its body; a successful answer
/// whose body is no text fails as `CorruptedBody`.
pub fn scrape(fetched: Fetched) -> (r: Result<String, ScrapingError>)
    ensures
        r == scraped(fetched),
{
    match fetched {
        Fetched::Unreachable => Err(ScrapingError::ServerNotReachable),
        Fetched::Response { status, body } => {
            if status < 200 || status >= 300 {
                Err(ScrapingError::BadResponse)
            } else {
                match body {
                    Some(text) => Ok(text),
                    None => Err(ScrapingError::CorruptedBody),
                }
            }
        },
    }
}

/// The file name of a page below `DOMAIN`.
pub open spec fn page_file(page: Page) -> Seq<char> {
    match page {
        Page::Index => LIST@,
        Page::Temperatures => TEMPERATURES@,
    }
}

/// The address from which a page is fetched.
pub fn page_url(page: Page) -> (url: String)
    ensures
        url@ == DOMAIN@ + page_file(page),
{
    let mut url = String::from_str(DOMAIN);
    match page {
        Page::Index => url.append(LIST),
        Page::Temperatures => url.append(TEMPERATURES),
    }
    url
}

/// The stations of a page, given how the request for it ended: the error of
/// the request where it yielded no body, else the stations that the rows of
/// the body stand for.
pub fn get_stations(page: Page, fetched: Fetched) -> (r: Result<Vec<Station>, ScrapingError>)
    ensures
        match scraped(fetched) {
            Ok(body) => r matches Ok(stations) && views(stations@) == normalized(
                template_rows(ROW_TEMPLATE@, body@),
                page,
            ) && forall|i: int|
                0 <= i < stations.len() ==> (#[trigger] stations@[i]).url@ == station_url(
                    stations@[i].id,
                ),
            Err(error) => r == Err::<Vec<Station>, ScrapingError>(error),
        },
{
    match scrape(fetched) {
        Ok(body) => Ok(extract_page(body.as_str(), page)),
        Err(error) => Err(error),
    }
}

impl ScrapingError {
    /// The sentence that reports the error.
    pub open spec fn message_text(self) -> Seq<char> {
        match self {
            ScrapingError::ServerNotReachable => "Server not reachable."@,
            ScrapingError::BadResponse => "Bad response."@,
            ScrapingError::CorruptedBody => "Corrupted body."@,
        }
    }

    /// The sentence that reports the error.
    pub fn message(&self) -> (r: String)
        ensures
            r@ == self.message_text(),
    {
        match self {
            ScrapingError::ServerNotReachable => String::from_str("Server not reachable."),
            ScrapingError::BadResponse => String::from_str("Bad response."),
            ScrapingError::CorruptedBody => String::from_str("Corrupted body."),
        }
    }
}

/// Whether no `<` of `s` has a `>` anywhere after it, so that `s` holds no
/// tag.
pub open spec fn tag_free(s: Seq<char>) -> bool {
    forall|i: int, j: int| 0 <= i < j < s.len() && s[i] == '<' ==> s[j] != '>'
}

/// Taking the tags out adds no character.
pub proof fn lemma_without_tags_keeps_only(s: Seq<char>, c: char)
    ensures
        without_tags(s).contains(c) ==> s.contains(c),
    decreases s.len(),
{
    if s.len() > 0 {
        let out = without_tags(s);
        if out.contains(c) {
            let k = choose|k: int| 0 <= k < out.len() && out[k] == c;
            if s[0] == '<' && s.contains('>') {
                lemma_first_index(s, '>');
                let cut = first_index(s, '>') + 1;
                lemma_without_tags_keeps_only(s.skip(cut), c);
                let m = choose|m: int| 0 <= m < s.skip(cut).len() && s.skip(cut)[m] == c;
                assert(s[m + cut] == c);
            } else if k == 0 {
                assert(s[0] == c);
            } else {
                let rest = without_tags(s.skip(1));
                assert(rest[k - 1] == c);
                lemma_without_tags_keeps_only(s.skip(1), c);
                let m = choose|m: int| 0 <= m < s.skip(1).len() && s.skip(1)[m] == c;
                assert(s[m + 1] == c);
            }
        }
    }
}

/// What is left when the tags are taken out holds no tag.
pub proof fn lemma_without_tags_is_tag_free(s: Seq<char>)
    ensures
        tag_free(without_tags(s)),
    decreases s.len(),
{
    if s.len() > 0 {
        if s[0] == '<' && s.contains('>') {
            lemma_first_index(s, '>');
            lemma_without_tags_is_tag_free(s.skip(first_index(s, '>') + 1));
        } else {
            let rest = without_tags(s.skip(1));
            let out = seq![s[0]] + rest;
            lemma_without_tags_is_tag_free(s.skip(1));
            assert forall|i: int, j: int| 0 <= i < j < out.len() && out[i] == '<' implies out[j]
                != '>' by {
                if i == 0 {
                    if out[j] == '>' {
                        assert(rest[j - 1] == '>');
                        lemma_without_tags_keeps_only(s.skip(1), '>');
                        let m = choose|m: int| 0 <= m < s.skip(1).len() && s.skip(1)[m] == '>';
                        assert(s[m + 1] == '>');
                    }
                } else {
                    assert(rest[i - 1] == '<');
                    assert(out[j] == rest[j - 1]);
                }
            }
        }
    }
}

/// A text that holds no tag stays as it is when the tags are taken out.
pub proof fn lemma_tag_free_is_unchanged(s: Seq<char>)
    requires
        tag_free(s),
    ensures
        without_tags(s) == s,
    decreases s.len(),
{
    if s.len() > 0 {
        if s[0] == '<' && s.contains('>') {
            let k = choose|k: int| 0 <= k < s.len() && s[k] == '>';
            assert(k != 0);
        } else {
            let rest = s.skip(1);
            assert forall|i: int, j: int| 0 <= i < j < rest.len() && rest[i] == '<' implies rest[j]
                != '>' by {
                assert(s[i + 1] == '<');
                assert(rest[j] == s[j + 1]);
            }
            lemma_tag_free_is_unchanged(rest);
            assert(seq![s[0]] + rest =~= s);
        }
    }
}

/// Taking the tags out of a text twice gives what taking them out once gives.
pub proof fn lemma_without_tags_idempotent(s: Seq<char>)
    ensures
        without_tags(without_tags(s)) == without_tags(s),
{
    lemma_without_tags_is_tag_free(s);
    lemma_tag_free_is_unchanged(without_tags(s));
}

/// Normalising a composite name is idempotent: the name without its tags,
/// normalised again, splits into the same water and name.
pub proof fn lemma_name_parts_idempotent(full_name: Seq<char>)
    ensures
        name_parts(without_tags(full_name)) == name_parts(full_name),
{
    lemma_without_tags_idempotent(full_name);
}

/// A row whose composite name, the tags taken out, has no hyphen stands for
/// no station.
pub proof fn lemma_row_without_hyphen_is_dropped(row: RowView, page: Page)
    requires
        field(row, "full_name"@) matches Some(full_name) && !without_tags(full_name).contains('-'),
    ensures
        normalized_row(row, page) is None,
{
}

/// A row that stands for no station leaves no trace in the output: the
/// stations are those of the rows without it.
pub proof fn lemma_dropped_row_is_absent(rows: Seq<RowView>, i: int, page: Page)
    requires
        0 <= i < rows.len(),
        normalized_row(rows[i], page) is None,
    ensures
        normalized(rows, page) == normalized(rows.remove(i), page),
    decreases rows.len(),
{
    if i == rows.len() - 1 {
        assert(rows.remove(i) =~= rows.drop_last());
    } else {
        lemma_dropped_row_is_absent(rows.drop_last(), i, page);
        assert(rows.remove(i).drop_last() =~= rows.drop_last().remove(i));
        assert(rows.remove(i).last() == rows.last());
    }
}

/// Every station that rows stand for has the address of the page of its id.
pub proof fn lemma_normalized_urls(rows: Seq<RowView>, page: Page)
    ensures
        forall|i: int|
            0 <= i < normalized(rows, page).len() ==> (#[trigger] normalized(rows, page)[i]).url
                == station_url(normalized(rows, page)[i].id),
    decreases rows.len(),
{
    if rows.len() > 0 {
        lemma_normalized_urls(rows.drop_last(), page);
    }
}

} // verus!
