//! Stations of the Swiss hydrological portal: normalising scraped table rows,
//! querying the resulting records, laying them out as tables, and keeping a
//! set of favourite station ids.

pub mod decimal;
pub mod favorites;
pub mod scraping;
pub mod table;
pub mod text;

use crate::decimal::Decimal;
use crate::favorites::{add_ids, id_list_text, remove_ids, save, stored_ids};
use crate::scraping::{Page, Station};
use crate::table::{bold, plain, row_view, Cell, CellView, Frame, Justify, Table, TableView};
use crate::text::{
    contains_ignore_case, contains_ignoring_case, decimal_text, lowercase, u64_to_string,
};
use std::collections::HashSet;
use vstd::prelude::*;
use vstd::string::StringExecFns;

verus! {

broadcast use vstd::std_specs::hash::group_hash_axioms;

/// The stations whose name holds `needle`, whatever the case of either.
pub open spec fn name_matches(needle: Seq<char>) -> spec_fn(Station) -> bool {
    |station: Station| contains_ignoring_case(station.name@, needle)
}

/// The stations whose water holds `needle`, whatever the case of either.
pub open spec fn water_matches(needle: Seq<char>) -> spec_fn(Station) -> bool {
    |station: Station| contains_ignoring_case(station.water@, needle)
}

/// The stations whose id is one of `favs`.
pub open spec fn is_favorite(favs: Set<u16>) -> spec_fn(Station) -> bool {
    |station: Station| favs.contains(station.id)
}

/// By what stations are selected.
enum Criterion<'a> {
    Name(&'a str),
    Water(&'a str),
    Favorite(&'a HashSet<u16>),
}

impl<'a> Criterion<'a> {
    spec fn selects(self) -> spec_fn(Station) -> bool {
        match self {
            Criterion::Name(needle) => name_matches(needle@),
            Criterion::Water(needle) => water_matches(needle@),
            Criterion::Favorite(favs) => is_favorite(favs@),
        }
    }

    fn holds(&self, station: &Station) -> (b: bool)
        ensures
            b == (self.selects())(*station),
    {
        match self {
            Criterion::Name(needle) => contains_ignore_case(station.name.as_str(), needle),
            Criterion::Water(needle) => contains_ignore_case(station.water.as_str(), needle),
            Criterion::Favorite(favs) => favs.contains(&station.id),
        }
    }
}

/// Keeps the stations that the criterion selects, in their order.
fn retain(stations: &mut Vec<Station>, criterion: &Criterion)
    ensures
        final(stations)@ == old(stations)@.filter(criterion.selects()),
{
    let mut all: Vec<Station> = Vec::new();
    core::mem::swap(stations, &mut all);
    let ghost before = all@;
    assert(before.take(0).filter(criterion.selects()) =~= Seq::<Station>::empty()) by {
        reveal(Seq::filter);
    }
    for station in it: all
        invariant
            it.seq() == before,
            stations@ == before.take(it.index() as int).filter(criterion.selects()),
    {
        proof {
            let i = it.index() as int;
            assert(before.take(i + 1) =~= before.take(i).push(station));
            before.take(i).lemma_filter_push(station, criterion.selects());
        }
        if criterion.holds(&station) {
            stations.push(station);
        }
    }
    assert(before.take(before.len() as int) =~= before);
}

/// The view of an optional needle.
pub open spec fn needle_of(needle: Option<String>) -> Option<Seq<char>> {
    match needle {
        Some(text) => Some(text@),
        None => None,
    }
}

/// The first `count` of `stations`, or all of them where there are fewer.
pub open spec fn first_of(stations: Seq<Station>, count: int) -> Seq<Station> {
    if 0 <= count <= stations.len() {
        stations.take(count)
    } else {
        stations
    }
}

/// What remains of `stations`: first those whose name holds `name`, of these
/// those whose water holds `water`, of these the first `first`; each step is
/// left out where its argument is absent. The order is kept.
pub open spec fn filtered(
    stations: Seq<Station>,
    first: Option<usize>,
    name: Option<Seq<char>>,
    water: Option<Seq<char>>,
) -> Seq<Station> {
    let by_name = match name {
        Some(needle) => stations.filter(name_matches(needle)),
        None => stations,
    };
    let by_water = match water {
        Some(needle) => by_name.filter(water_matches(needle)),
        None => by_name,
    };
    match first {
        Some(count) => first_of(by_water, count as int),
        None => by_water,
    }
}

/// Narrows `stations` down: by `name`, then by `water`, each a needle looked
/// for without regard to case, then to the first `first`.
pub fn filter_stations(
    stations: &mut Vec<Station>,
    first: Option<usize>,
    name: Option<String>,
    water: Option<String>,
)
    ensures
        final(stations)@ == filtered(old(stations)@, first, needle_of(name), needle_of(water)),
{
    if let Some(needle) = name {
        retain(stations, &Criterion::Name(needle.as_str()));
    }
    if let Some(needle) = water {
        retain(stations, &Criterion::Water(needle.as_str()));
    }
    if let Some(count) = first {
        stations.truncate(count);
    }
}

/// Keeps the stations whose id is a favourite, in their order.
pub fn retain_favorites(stations: &mut Vec<Station>, favs: &HashSet<u16>)
    ensures
        final(stations)@ == old(stations)@.filter(is_favorite(favs@)),
{
    retain(stations, &Criterion::Favorite(favs));
}

/// Selecting twice by one predicate selects what selecting once does.
pub proof fn lemma_filter_twice(stations: Seq<Station>, selects: spec_fn(Station) -> bool)
    ensures
        stations.filter(selects).filter(selects) == stations.filter(selects),
    decreases stations.len(),
{
    reveal(Seq::filter);
    if stations.len() > 0 {
        let before = stations.drop_last();
        lemma_filter_twice(before, selects);
        assert(before.push(stations.last()) =~= stations);
        before.lemma_filter_push(stations.last(), selects);
        if selects(stations.last()) {
            before.filter(selects).lemma_filter_push(stations.last(), selects);
        }
    }
}

/// Filtering by a name is idempotent: filtered again by the same name, the
/// stations stay as they are.
pub proof fn lemma_name_filter_idempotent(stations: Seq<Station>, needle: Seq<char>)
    ensures
        filtered(filtered(stations, None, Some(needle), None), None, Some(needle), None)
            == filtered(stations, None, Some(needle), None),
{
    lemma_filter_twice(stations, name_matches(needle));
}

/// Filtering by a water is idempotent: filtered again by the same water, the
/// stations stay as they are.
pub proof fn lemma_water_filter_idempotent(stations: Seq<Station>, needle: Seq<char>)
    ensures
        filtered(filtered(stations, None, None, Some(needle)), None, None, Some(needle))
            == filtered(stations, None, None, Some(needle)),
{
    lemma_filter_twice(stations, water_matches(needle));
}

/// Asking for the first `count` stations gives `count` of them, or all where
/// there are fewer, and these are the stations at the start, in their order.
pub proof fn lemma_first_is_a_prefix(stations: Seq<Station>, count: usize)
    ensures
        filtered(stations, Some(count), None, None).len() == if count <= stations.len() {
            count as int
        } else {
            stations.len() as int
        },
        forall|i: int|
            0 <= i < filtered(stations, Some(count), None, None).len() ==> filtered(
                stations,
                Some(count),
                None,
                None,
            )[i] == stations[i],
{
}

/// The case of a needle does not matter: two needles with one lowercase form
/// select the same stations, by name and by water.
pub proof fn lemma_needle_case_is_irrelevant(stations: Seq<Station>, a: Seq<char>, b: Seq<char>)
    ensures
        lowercase(a) == lowercase(b) ==> filtered(stations, None, Some(a), None) == filtered(
            stations,
            None,
            Some(b),
            None,
        ) && filtered(stations, None, None, Some(a)) == filtered(stations, None, None, Some(b)),
{
    if lowercase(a) == lowercase(b) {
        assert(name_matches(a) =~= name_matches(b));
        assert(water_matches(a) =~= water_matches(b));
    }
}

/// A station that the lowercase form of a needle selects is selected by the
/// needle itself, wherever lowering the case of that form changes nothing.
pub proof fn lemma_lowercased_needle_matches(station: Station, needle: Seq<char>)
    ensures
        lowercase(lowercase(needle)) == lowercase(needle) ==> (name_matches(lowercase(needle))(
            station,
        ) ==> name_matches(needle)(station)) && (water_matches(lowercase(needle))(station)
            ==> water_matches(needle)(station)),
{
}

/// Whether `i` is the place of the first of `stations` whose id is `id`.
pub open spec fn is_first_with_id(stations: Seq<Station>, id: u16, i: int) -> bool {
    &&& 0 <= i < stations.len()
    &&& stations[i].id == id
    &&& forall|j: int| 0 <= j < i ==> (#[trigger] stations[j]).id != id
}

/// Whether one of `stations` has the id `id`.
pub open spec fn has_id(stations: Seq<Station>, id: u16) -> bool {
    exists|i: int| 0 <= i < stations.len() && (#[trigger] stations[i]).id == id
}

/// The first of `stations` whose id is `id`, if there is one.
pub fn find(stations: &Vec<Station>, id: u16) -> (found: Option<&Station>)
    ensures
        found is Some <==> has_id(stations@, id),
        found matches Some(station) ==> exists|i: int|
            is_first_with_id(stations@, id, i) && *station == #[trigger] stations@[i],
{
    let mut i: usize = 0;
    while i < stations.len()
        invariant
            i <= stations.len(),
            forall|j: int| 0 <= j < i ==> (#[trigger] stations@[j]).id != id,
        decreases stations.len() - i,
    {
        if stations[i].id == id {
            assert(is_first_with_id(stations@, id, i as int));
            return Some(&stations[i]);
        }
        i = i + 1;
    }
    None
}

/// The text of a reading: the number with one fractional digit and the unit,
/// or nothing where there is no reading.
pub open spec fn reading_text(reading: Option<Decimal>) -> Seq<char> {
    match reading {
        Some(d) => d@.one_decimal_text() + " °C"@,
        None => Seq::<char>::empty(),
    }
}

/// The text of an optional piece of text: nothing where it is absent.
pub open spec fn optional_text(text: Option<String>) -> Seq<char> {
    match text {
        Some(t) => t@,
        None => Seq::<char>::empty(),
    }
}

/// The columns that hold a reading, present on the temperature page only.
pub open spec fn reading_cells(station: Station, page: Page) -> Seq<CellView> {
    match page {
        Page::Index => Seq::<CellView>::empty(),
        Page::Temperatures => seq![
            plain(reading_text(station.measurement), Justify::Right),
            plain(reading_text(station.max), Justify::Right),
            plain(optional_text(station.time), Justify::Left),
        ],
    }
}

/// The row of the list that shows `station`.
pub open spec fn station_row(station: Station, page: Page, url: bool) -> Seq<CellView> {
    seq![
        plain(decimal_text(station.id as nat), Justify::Right),
        plain(station.name@, Justify::Left),
        plain(station.water@, Justify::Left),
    ] + reading_cells(station, page) + if url {
        seq![plain(station.url@, Justify::Left)]
    } else {
        Seq::<CellView>::empty()
    }
}

/// The title row of the list.
pub open spec fn station_titles(page: Page, url: bool) -> Seq<CellView> {
    seq![bold("ID"@, Justify::Left), bold("Name"@, Justify::Left), bold("Water"@, Justify::Left)]
        + match page {
        Page::Index => Seq::<CellView>::empty(),
        Page::Temperatures => seq![
            bold("Measurement"@, Justify::Left),
            bold("Max 24h"@, Justify::Left),
            bold("Time"@, Justify::Left),
        ],
    } + if url {
        seq![bold("URL"@, Justify::Left)]
    } else {
        Seq::<CellView>::empty()
    }
}

/// The list of `stations` as a table: a title row, one row for each station
/// in order, ruled as a grid.
pub open spec fn stations_table(stations: Seq<Station>, page: Page, url: bool) -> TableView {
    TableView {
        title: Some(station_titles(page, url)),
        rows: Seq::new(stations.len(), |i: int| station_row(stations[i], page, url)),
        frame: Frame::Grid,
    }
}

fn cell(text: String, justify: Justify, bold: bool) -> (c: Cell)
    ensures
        c@ == (CellView { text: text@, justify, bold }),
{
    Cell { text, justify, bold }
}

fn title_cell(text: &str) -> (c: Cell)
    ensures
        c@ == bold(text@, Justify::Left),
{
    cell(String::from_str(text), Justify::Left, true)
}

/// The text of a reading, with its unit; empty where there is none.
pub fn reading_to_string(reading: &Option<Decimal>) -> (r: String)
    ensures
        r@ == reading_text(*reading),
{
    match reading {
        Some(d) => {
            let mut out = d.to_one_decimal();
            out.append(" °C");
            out
        },
        None => String::new(),
    }
}

fn optional_to_string(text: &Option<String>) -> (r: String)
    ensures
        r@ == optional_text(*text),
{
    match text {
        Some(t) => t.clone(),
        None => String::new(),
    }
}

fn titles(page: Page, url: bool) -> (row: Vec<Cell>)
    ensures
        row_view(row) == station_titles(page, url),
{
    let mut row: Vec<Cell> = Vec::new();
    row.push(title_cell("ID"));
    row.push(title_cell("Name"));
    row.push(title_cell("Water"));
    match page {
        Page::Index => {},
        Page::Temperatures => {
            row.push(title_cell("Measurement"));
            row.push(title_cell("Max 24h"));
            row.push(title_cell("Time"));
        },
    }
    if url {
        row.push(title_cell("URL"));
    }
    assert(row_view(row) =~= station_titles(page, url));
    row
}

fn list_row(station: &Station, page: Page, url: bool) -> (row: Vec<Cell>)
    ensures
        row_view(row) == station_row(*station, page, url),
{
    let mut row: Vec<Cell> = Vec::new();
    row.push(cell(u64_to_string(station.id as u64), Justify::Right, false));
    row.push(cell(station.name.clone(), Justify::Left, false));
    row.push(cell(station.water.clone(), Justify::Left, false));
    match page {
        Page::Index => {},
        Page::Temperatures => {
            row.push(cell(reading_to_string(&station.measurement), Justify::Right, false));
            row.push(cell(reading_to_string(&station.max), Justify::Right, false));
            row.push(cell(optional_to_string(&station.time), Justify::Left, false));
        },
    }
    if url {
        row.push(cell(station.url.clone(), Justify::Left, false));
    }
    assert(row_view(row) =~= station_row(*station, page, url));
    row
}

/// Lays `stations` out as a list: under a bold title row, one row for each
/// station in order. The index page gives the columns `ID`, `Name` and
/// `Water`; the temperature page adds `Measurement`, `Max 24h` and `Time`,
/// the two readings with one fractional digit and their unit. `ID` and the
/// readings are pushed to the right. With `url`, a last column `URL` follows.
pub fn display_stations(stations: &Vec<Station>, page: Page, url: bool) -> (table: Table)
    ensures
        table@ == stations_table(stations@, page, url),
{
    let mut rows: Vec<Vec<Cell>> = Vec::new();
    let mut i: usize = 0;
    while i < stations.len()
        invariant
            i <= stations.len(),
            rows.len() == i,
            forall|j: int| 0 <= j < i ==> row_view(#[trigger] rows@[j]) == station_row(stations@[j], page, url),
        decreases stations.len() - i,
    {
        rows.push(list_row(&stations[i], page, url));
        i = i + 1;
    }
    let table = Table { title: Some(titles(page, url)), rows, frame: Frame::Grid };
    assert(table@.rows =~= stations_table(stations@, page, url).rows);
    table
}

/// A row of the detail table: a bold key pushed to the right, and its value.
pub open spec fn detail_row(key: Seq<char>, value: Seq<char>) -> Seq<CellView> {
    seq![bold(key, Justify::Right), plain(value, Justify::Left)]
}

/// The rows of the detail table that hold a reading, present on the
/// temperature page only.
pub open spec fn detail_reading_rows(station: Station, page: Page) -> Seq<Seq<CellView>> {
    match page {
        Page::Index => Seq::<Seq<CellView>>::empty(),
        Page::Temperatures => seq![
            detail_row("Measurement"@, reading_text(station.measurement)),
            detail_row("Max 24h"@, reading_text(station.max)),
            detail_row("Time"@, optional_text(station.time)),
        ],
    }
}

/// The detail of one station as a table of keys and values, without a title,
/// ruled between its two columns only.
pub open spec fn detail_table(station: Station, page: Page) -> TableView {
    TableView {
        title: None,
        rows: seq![
            detail_row("ID"@, decimal_text(station.id as nat)),
            detail_row("Name"@, station.name@),
            detail_row("Water"@, station.water@),
        ] + detail_reading_rows(station, page) + seq![detail_row("URL"@, station.url@)],
        frame: Frame::Columns,
    }
}

/// What is reported when no station has the id `id`.
pub open spec fn not_found_text(id: u16) -> Seq<char> {
    "Station "@ + decimal_text(id as nat) + " not found."@
}

fn key_value(key: &str, value: String) -> (row: Vec<Cell>)
    ensures
        row_view(row) == detail_row(key@, value@),
{
    let mut row: Vec<Cell> = Vec::new();
    row.push(cell(String::from_str(key), Justify::Right, true));
    row.push(cell(value, Justify::Left, false));
    assert(row_view(row) =~= detail_row(key@, value@));
    row
}

fn detail(station: &Station, page: Page) -> (table: Table)
    ensures
        table@ == detail_table(*station, page),
{
    let mut rows: Vec<Vec<Cell>> = Vec::new();
    rows.push(key_value("ID", u64_to_string(station.id as u64)));
    rows.push(key_value("Name", station.name.clone()));
    rows.push(key_value("Water", station.water.clone()));
    match page {
        Page::Index => {},
        Page::Temperatures => {
            rows.push(key_value("Measurement", reading_to_string(&station.measurement)));
            rows.push(key_value("Max 24h", reading_to_string(&station.max)));
            rows.push(key_value("Time", optional_to_string(&station.time)));
        },
    }
    rows.push(key_value("URL", station.url.clone()));
    let table = Table { title: None, rows, frame: Frame::Columns };
    assert(table@.rows =~= detail_table(*station, page).rows);
    table
}

/// The detail of the first of `stations` whose id is `id`: a table of keys
/// and values, the keys bold and pushed to the right. Where no station has
/// that id, the sentence that says so.
pub fn display_info(stations: &Vec<Station>, page: Page, id: u16) -> (shown: Result<Table, String>)
    ensures
        shown is Ok <==> has_id(stations@, id),
        shown matches Ok(table) ==> exists|i: int|
            is_first_with_id(stations@, id, i) && table@ == detail_table(
                #[trigger] stations@[i],
                page,
            ),
        shown matches Err(message) ==> message@ == not_found_text(id),
{
    match find(stations, id) {
        Some(station) => Ok(detail(station, page)),
        None => {
            let mut message = String::from_str("Station ");
            message.append(u64_to_string(id as u64).as_str());
            message.append(" not found.");
            Err(message)
        },
    }
}

/// A change to the favourites.
#[derive(Debug, PartialEq, Eq)]
pub enum FavCommands {
    /// Add these ids.
    Add { ids: Vec<u16> },
    /// Take these ids out.
    Rm { ids: Vec<u16> },
}

/// What is left to do once a command on the favourites has been worked out.
#[derive(Debug, PartialEq, Eq)]
pub enum FavOutcome {
    /// Replace the contents of the favourites file by this text.
    Save(String),
    /// Show this table.
    Show(Table),
}

/// Whether `text` is the JSON array of the ids of `favs`, each once.
pub open spec fn is_file_of(text: Seq<char>, favs: Set<u16>) -> bool {
    exists|ids: Seq<u16>|
        ids.no_duplicates() && ids.to_set() == favs && text == #[trigger] id_list_text(ids)
}

/// Works out a command on the favourites. `Add` and `Rm` change the set and
/// hand back the new contents of its file; the stations stay as they are.
/// Without a command the stations are narrowed down to the favourites and
/// laid out as a list; the set stays as it is.
pub fn fav_handler(
    stations: &mut Vec<Station>,
    favs: &mut HashSet<u16>,
    command: Option<FavCommands>,
    page: Page,
    url: bool,
) -> (outcome: FavOutcome)
    ensures
        match command {
            Some(FavCommands::Add { ids }) => {
                &&& final(favs)@ == old(favs)@.union(ids@.to_set())
                &&& final(stations)@ == old(stations)@
                &&& outcome matches FavOutcome::Save(text)
                &&& is_file_of(text@, final(favs)@)
                &&& stored_ids(Some(text@)) == final(favs)@
            },
            Some(FavCommands::Rm { ids }) => {
                &&& final(favs)@ == old(favs)@.difference(ids@.to_set())
                &&& final(stations)@ == old(stations)@
                &&& outcome matches FavOutcome::Save(text)
                &&& is_file_of(text@, final(favs)@)
                &&& stored_ids(Some(text@)) == final(favs)@
            },
            None => {
                &&& final(favs)@ == old(favs)@
                &&& final(stations)@ == old(stations)@.filter(is_favorite(old(favs)@))
                &&& outcome matches FavOutcome::Show(table)
                &&& table@ == stations_table(final(stations)@, page, url)
            },
        },
{
    match command {
        Some(FavCommands::Add { ids }) => {
            add_ids(favs, &ids);
            FavOutcome::Save(save(favs))
        },
        Some(FavCommands::Rm { ids }) => {
            remove_ids(favs, &ids);
            FavOutcome::Save(save(favs))
        },
        None => {
            retain_favorites(stations, favs);
            FavOutcome::Show(display_stations(stations, page, url))
        },
    }
}

} // verus!
