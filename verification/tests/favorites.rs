use hydro::favorites::{add_ids, from_list, from_parsed, load, remove_ids, save, to_list};
use hydro::scraping::{Page, Station};
use hydro::{fav_handler, FavCommands, FavOutcome};
use std::collections::HashSet;

fn set(ids: &[u16]) -> HashSet<u16> {
    ids.iter().copied().collect()
}

fn station(id: u16) -> Station {
    Station {
        id,
        name: format!("name {}", id),
        water: format!("water {}", id),
        measurement: None,
        max: None,
        time: None,
        url: format!("https://www.hydrodaten.admin.ch/de/{}.html", id),
    }
}

fn saved(outcome: FavOutcome) -> String {
    match outcome {
        FavOutcome::Save(text) => text,
        FavOutcome::Show(_) => panic!("expected a text to save"),
    }
}

#[test]
fn load_of_a_missing_file_is_empty() {
    assert_eq!(load(None), set(&[]));
}

#[test]
fn load_is_tolerant() {
    for text in [
        "{}", "not json", "", "null", "12", "\"abc\"", "[1, \"x\"]", "[70000]", "[-1]", "[1.5]",
        "[1,2", "[1,,2]", "{\"a\": [1]}", "[[1]]", "[1] x", "true",
    ] {
        assert_eq!(load(Some(text)), set(&[]), "{:?}", text);
    }
}

#[test]
fn load_reads_arrays_of_ids() {
    assert_eq!(load(Some("[]")), set(&[]));
    assert_eq!(load(Some("[2135, 2416]")), set(&[2135, 2416]));
    assert_eq!(load(Some(" [ 1 ,\n 2 ,\t3 ] ")), set(&[1, 2, 3]));
    assert_eq!(load(Some("[5,5,5]")), set(&[5]));
    assert_eq!(load(Some("[0,65535]")), set(&[0, 65535]));
}

#[test]
fn save_writes_a_compact_array() {
    assert_eq!(save(&set(&[])), "[]");
    assert_eq!(save(&set(&[5])), "[5]");
    assert_eq!(save(&set(&[65535])), "[65535]");
    let text = save(&set(&[3, 1, 2]));
    assert!(text.starts_with('[') && text.ends_with(']'));
    assert!(!text.contains(' '));
    let mut ids: Vec<&str> = text[1..text.len() - 1].split(',').collect();
    ids.sort();
    assert_eq!(ids, vec!["1", "2", "3"]);
}

#[test]
fn favorites_round_trip() {
    for ids in [&[][..], &[0], &[1, 2, 3], &[65535, 0, 2135, 2416], &[7, 70, 700, 7000]] {
        let favs = set(ids);
        let text = save(&favs);
        assert_eq!(load(Some(&text)), favs);
    }
    let all: HashSet<u16> = (0..=u16::MAX).step_by(257).collect();
    assert_eq!(load(Some(&save(&all))), all);
}

#[test]
fn lists_and_sets() {
    assert_eq!(from_list(&vec![1, 2, 2, 3, 1]), set(&[1, 2, 3]));
    assert_eq!(from_list(&vec![]), set(&[]));
    assert_eq!(from_parsed(&None), set(&[]));
    assert_eq!(from_parsed(&Some(vec![4, 4])), set(&[4]));
    let mut list = to_list(&set(&[9, 8, 7]));
    list.sort();
    assert_eq!(list, vec![7, 8, 9]);
    assert_eq!(to_list(&set(&[])), Vec::<u16>::new());
}

#[test]
fn add_is_union_and_remove_is_difference() {
    let mut favs = set(&[1, 2]);
    add_ids(&mut favs, &vec![2, 3, 3]);
    assert_eq!(favs, set(&[1, 2, 3]));
    add_ids(&mut favs, &vec![]);
    assert_eq!(favs, set(&[1, 2, 3]));
    remove_ids(&mut favs, &vec![2, 4, 2]);
    assert_eq!(favs, set(&[1, 3]));
    remove_ids(&mut favs, &vec![]);
    assert_eq!(favs, set(&[1, 3]));
    remove_ids(&mut favs, &vec![1, 3]);
    assert_eq!(favs, set(&[]));
}

#[test]
fn add_and_rm_change_the_saved_set() {
    let mut stations = vec![station(1), station(5)];
    let mut favs = load(None);
    let text = saved(fav_handler(
        &mut stations,
        &mut favs,
        Some(FavCommands::Add { ids: vec![1, 2, 3] }),
        Page::Index,
        false,
    ));
    assert_eq!(favs, set(&[1, 2, 3]));
    assert_eq!(load(Some(&text)), set(&[1, 2, 3]));

    let mut favs = load(Some(&text));
    let text = saved(fav_handler(
        &mut stations,
        &mut favs,
        Some(FavCommands::Rm { ids: vec![2, 4] }),
        Page::Index,
        false,
    ));
    assert_eq!(favs, set(&[1, 3]));
    assert_eq!(load(Some(&text)), set(&[1, 3]));

    let mut favs = load(Some(&text));
    let text = saved(fav_handler(
        &mut stations,
        &mut favs,
        Some(FavCommands::Rm { ids: vec![9] }),
        Page::Index,
        false,
    ));
    assert_eq!(favs, set(&[1, 3]));
    assert_eq!(load(Some(&text)), set(&[1, 3]));
    assert_eq!(stations, vec![station(1), station(5)]);
}

#[test]
fn unreadable_file_counts_as_empty() {
    let mut stations = vec![];
    let mut favs = load(Some("not json"));
    assert_eq!(favs, set(&[]));
    let text = saved(fav_handler(
        &mut stations,
        &mut favs,
        Some(FavCommands::Add { ids: vec![7] }),
        Page::Index,
        false,
    ));
    assert_eq!(favs, set(&[7]));
    assert_eq!(text, "[7]");
    assert_eq!(load(Some(&text)), set(&[7]));
}

#[test]
fn listing_favorites_keeps_their_stations_in_order() {
    let mut stations = vec![station(4), station(1), station(3), station(1), station(2)];
    let mut favs = set(&[1, 2, 9]);
    let outcome = fav_handler(&mut stations, &mut favs, None, Page::Index, false);
    assert_eq!(stations, vec![station(1), station(1), station(2)]);
    assert_eq!(favs, set(&[1, 2, 9]));
    match outcome {
        FavOutcome::Show(table) => {
            assert_eq!(table, hydro::display_stations(&stations, Page::Index, false));
            assert_eq!(table.rows.len(), 3);
        }
        FavOutcome::Save(_) => panic!("expected a table"),
    }
}
