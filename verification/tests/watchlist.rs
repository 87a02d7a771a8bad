use rand::seq::SliceRandom;
use wlist::{WatchList, WatchListError, WatchListFuncs};

fn setup() -> WatchList {
    let data = r#"
        {
            "Movies": [ 
                "Movie 1", 
                "Movie 2", 
                "Movie 3", 
                "Movie 4" 
            ],

            "Manga": [ 
                "Manga 1", 
                "Manga 2", 
                "Manga 3", 
                "Manga 4" 
            ]

        }"#;
    WatchList::from_json(data).unwrap()
}

#[test]
fn add() {
    let mut watchlist = setup();
    watchlist.item_add("Movies", "Movie 5", false).unwrap();
    watchlist.item_add("Movies", "Movie 10", false).unwrap();
    watchlist.item_add("Manga", "Manga 100", false).unwrap();
    assert_eq!(
        *watchlist.get("Movies").unwrap(),
        vec!["Movie 1", "Movie 2", "Movie 3", "Movie 4", "Movie 5", "Movie 10"]
    );

    assert_eq!(
        *watchlist.get("Manga").unwrap(),
        vec!["Manga 1", "Manga 2", "Manga 3", "Manga 4", "Manga 100"]
    );
}

#[test]
fn add_errors() {
    let mut watchlist = setup();
    assert_eq!(
        watchlist.item_add("TV", "Manga 999", false).err().unwrap(),
        WatchListError::TitleNotPresent("TV".to_string())
    );

    assert_eq!(
        watchlist
            .item_add("Movies", "Movie 1", false)
            .err()
            .unwrap(),
        WatchListError::ItemAlreadyPresent("Movie 1".to_string(), "Movies".to_string())
    );
}

#[test]
fn remove() {
    let mut watchlist = setup();
    watchlist.item_remove("Movies", "Movie 3").unwrap();
    watchlist.item_remove("Manga", "Manga 3").unwrap();
    watchlist.item_remove("Manga", "Manga 1").unwrap();
    assert_eq!(
        *watchlist.get("Movies").unwrap(),
        vec!["Movie 1", "Movie 2", "Movie 4"]
    );
    assert_eq!(*watchlist.get("Manga").unwrap(), vec!["Manga 2", "Manga 4"]);
}

#[test]
fn remove_errors() {
    let mut watchlist = setup();
    assert_eq!(
        watchlist.item_remove("TV", "Manga 999").err().unwrap(),
        WatchListError::TitleNotPresent("TV".to_string())
    );

    assert_eq!(
        watchlist.item_remove("Movies", "Manga 999").err().unwrap(),
        WatchListError::ItemToRemoveNotPresent("Manga 999".to_string())
    );
}

#[test]
fn random() {
    let mut rng = rand::thread_rng();

    let watchlist = setup();
    let lists = vec!["Movies".to_string(), "Manga".to_string()];
    let list = lists.choose(&mut rng).unwrap();

    let item = watchlist.item_get_random(list).unwrap().clone();
    assert!(watchlist.get(list).unwrap().contains(&item));
    println!("{item} is present in {list}");
}

#[test]
fn random_errors() {
    let mut watchlist = setup();

    assert_eq!(
        watchlist.item_get_random("Random!").err().unwrap(),
        WatchListError::TitleNotPresent("Random!".to_string())
    );

    watchlist.list_add("NEW LIST").unwrap();
    assert_eq!(
        watchlist.item_get_random("NEW LIST").err().unwrap(),
        WatchListError::EmptyList("NEW LIST".to_string())
    );
}

#[test]
fn adding_new_title() {
    let mut watchlist = setup();
    watchlist.list_add("Anime").unwrap();
    watchlist.list_add("AMOGUS").unwrap();
    assert_eq!(*watchlist.get("Anime").unwrap(), Vec::<String>::new());
    assert_eq!(*watchlist.get("AMOGUS").unwrap(), Vec::<String>::new());
}

#[test]
fn adding_new_title_errors() {
    let mut watchlist = setup();
    assert_eq!(
        watchlist.list_add("Movies").err().unwrap(),
        WatchListError::TitleAlreadyPresent("Movies".to_string())
    );
}

#[test]
fn removing_title() {
    let mut watchlist = setup();
    watchlist.list_remove("Movies").unwrap();
    assert_eq!(watchlist.get("Movies"), None);
}

#[test]
fn removing_title_errors() {
    let mut watchlist = setup();
    assert_eq!(
        watchlist.list_remove("TV").err().unwrap(),
        WatchListError::TitleNotPresent("TV".to_string())
    );
}

#[test]
fn new_collection_has_no_titles() {
    let watchlist = WatchList::new();
    assert_eq!(watchlist.list_get_all().err().unwrap(), WatchListError::NoTitles);
    assert_eq!(
        watchlist.list_get_random().err().unwrap(),
        WatchListError::NoTitles
    );
    assert_eq!(watchlist.get("Movies"), None);
}

#[test]
fn created_list_then_added_item_is_last() {
    let mut watchlist = setup();
    watchlist.list_add("Books").unwrap();
    watchlist.item_add("Books", "Dune", false).unwrap();
    assert_eq!(watchlist.get("Books").unwrap().last().unwrap(), "Dune");
    assert_eq!(*watchlist.item_get_all("Books").unwrap(), vec!["Dune"]);
    watchlist.item_add("Movies", "Movie 9", true).unwrap();
    assert_eq!(watchlist.get("Movies").unwrap().last().unwrap(), "Movie 9");
}

#[test]
fn second_addition_is_refused_without_the_flag() {
    let mut watchlist = WatchList::new();
    watchlist.list_add("T").unwrap();
    watchlist.item_add("T", "I", false).unwrap();
    assert_eq!(
        watchlist.item_add("T", "I", false).err().unwrap(),
        WatchListError::ItemAlreadyPresent("I".to_string(), "T".to_string())
    );
    let items = watchlist.get("T").unwrap();
    assert_eq!(items.iter().filter(|i| i.as_str() == "I").count(), 1);
}

#[test]
fn second_addition_is_taken_with_the_flag() {
    let mut watchlist = WatchList::new();
    watchlist.list_add("T").unwrap();
    watchlist.item_add("T", "I", true).unwrap();
    watchlist.item_add("T", "I", true).unwrap();
    assert_eq!(*watchlist.get("T").unwrap(), vec!["I", "I"]);
}

#[test]
fn removal_takes_the_first_occurrence_only() {
    let mut watchlist = WatchList::new();
    watchlist.list_add("T").unwrap();
    for item in ["a", "b", "a", "c", "b"] {
        watchlist.item_add("T", item, true).unwrap();
    }
    watchlist.item_remove("T", "b").unwrap();
    assert_eq!(*watchlist.get("T").unwrap(), vec!["a", "a", "c", "b"]);
    watchlist.item_remove("T", "a").unwrap();
    assert_eq!(*watchlist.get("T").unwrap(), vec!["a", "c", "b"]);
    assert_eq!(
        watchlist.item_remove("T", "zz").err().unwrap(),
        WatchListError::ItemToRemoveNotPresent("zz".to_string())
    );
    assert_eq!(*watchlist.get("T").unwrap(), vec!["a", "c", "b"]);
}

#[test]
fn random_item_is_always_a_member() {
    let watchlist = setup();
    for _ in 0..200 {
        let item = watchlist.item_get_random("Manga").unwrap();
        assert!(watchlist.get("Manga").unwrap().contains(item));
        let title = watchlist.list_get_random().unwrap();
        assert!(title == "Movies" || title == "Manga");
    }
}

#[test]
fn random_item_of_a_single_item_list() {
    let mut watchlist = WatchList::new();
    watchlist.list_add("One").unwrap();
    watchlist.item_add("One", "only", false).unwrap();
    assert_eq!(watchlist.item_get_random("One").unwrap(), "only");
    assert_eq!(watchlist.list_get_random().unwrap(), "One");
}

#[test]
fn random_title_ignores_emptiness() {
    let mut watchlist = WatchList::new();
    watchlist.list_add("Empty").unwrap();
    assert_eq!(watchlist.list_get_random().unwrap(), "Empty");
    assert_eq!(
        watchlist.item_get_random("Empty").err().unwrap(),
        WatchListError::EmptyList("Empty".to_string())
    );
}

#[test]
fn all_items_of_a_list() {
    let mut watchlist = setup();
    assert_eq!(
        *watchlist.item_get_all("Manga").unwrap(),
        vec!["Manga 1", "Manga 2", "Manga 3", "Manga 4"]
    );
    assert_eq!(
        watchlist.item_get_all("TV").err().unwrap(),
        WatchListError::TitleNotPresent("TV".to_string())
    );
    watchlist.list_add("TV").unwrap();
    assert_eq!(
        watchlist.item_get_all("TV").err().unwrap(),
        WatchListError::EmptyList("TV".to_string())
    );
}

#[test]
fn titles_come_in_the_order_of_creation() {
    let mut watchlist = WatchList::new();
    watchlist.list_add("b").unwrap();
    watchlist.list_add("a").unwrap();
    watchlist.list_add("c").unwrap();
    assert_eq!(watchlist.list_get_all().unwrap(), vec!["b", "a", "c"]);
    watchlist.list_remove("a").unwrap();
    assert_eq!(watchlist.list_get_all().unwrap(), vec!["b", "c"]);
    watchlist.list_add("a").unwrap();
    assert_eq!(watchlist.list_get_all().unwrap(), vec!["b", "c", "a"]);
}

#[test]
fn titles_are_case_sensitive() {
    let mut watchlist = WatchList::new();
    watchlist.list_add("movies").unwrap();
    watchlist.list_add("Movies").unwrap();
    watchlist.list_add("").unwrap();
    assert_eq!(watchlist.list_get_all().unwrap().len(), 3);
    assert_eq!(
        watchlist.list_add("").err().unwrap(),
        WatchListError::TitleAlreadyPresent(String::new())
    );
}

#[test]
fn search_ignores_case_and_keeps_order() {
    let mut watchlist = WatchList::new();
    watchlist.list_add("Movies").unwrap();
    for item in ["Movie 1", "Movie 2", "Another"] {
        watchlist.item_add("Movies", item, false).unwrap();
    }
    assert_eq!(
        watchlist.list_search("Movies", "movie").unwrap(),
        vec!["Movie 1", "Movie 2"]
    );
    assert_eq!(
        watchlist.list_search("Movies", "MOVIE").unwrap(),
        vec!["Movie 1", "Movie 2"]
    );
    assert_eq!(watchlist.list_search("Movies", "oTh").unwrap(), vec!["Another"]);
    assert_eq!(watchlist.list_search("Movies", "ie 2").unwrap(), vec!["Movie 2"]);
    assert_eq!(
        watchlist.list_search("Movies", "").unwrap(),
        vec!["Movie 1", "Movie 2", "Another"]
    );
    assert!(watchlist.list_search("Movies", "series").unwrap().is_empty());
    assert_eq!(
        watchlist.list_search("TV", "movie").err().unwrap(),
        WatchListError::TitleNotPresent("TV".to_string())
    );
}

#[test]
fn search_with_a_lowered_term() {
    let watchlist = setup();
    assert_eq!(
        watchlist.list_search_lowered("Manga", "manga 3").unwrap(),
        vec!["Manga 3"]
    );
    assert!(watchlist
        .list_search_lowered("Manga", "Manga 3")
        .unwrap()
        .is_empty());
}

#[test]
fn search_ignores_case_outside_ascii() {
    let mut watchlist = WatchList::new();
    watchlist.list_add("L").unwrap();
    watchlist.item_add("L", "\u{c9}COLE", false).unwrap();
    assert_eq!(
        watchlist.list_search("L", "\u{e9}cole").unwrap(),
        vec!["\u{c9}COLE"]
    );
    watchlist.item_add("L", "\u{e9}cole", false).unwrap();
    watchlist.item_add("L", "Lyc\u{e9}e", false).unwrap();
    assert_eq!(
        watchlist.list_search("L", "\u{c9}COLE").unwrap(),
        vec!["\u{c9}COLE", "\u{e9}cole"]
    );
    assert_eq!(
        watchlist.list_search("L", "\u{e9}cole").unwrap(),
        vec!["\u{c9}COLE", "\u{e9}cole"]
    );
    assert_eq!(
        watchlist.list_search("L", "\u{c9}").unwrap(),
        vec!["\u{c9}COLE", "\u{e9}cole", "Lyc\u{e9}e"]
    );
    assert_eq!(
        watchlist.list_search_lowered("L", "\u{e9}cole").unwrap(),
        vec!["\u{c9}COLE", "\u{e9}cole"]
    );
    assert!(watchlist
        .list_search_lowered("L", "\u{c9}COLE")
        .unwrap()
        .is_empty());
}

#[test]
fn search_finds_every_item_by_its_own_text() {
    let mut watchlist = WatchList::new();
    watchlist.list_add("L").unwrap();
    let items = ["Movie 1", "\u{c9}COLE", "\u{3a3}\u{391}\u{3a3}", "STRASSE", "\u{130}stanbul", ""];
    for item in items {
        watchlist.item_add("L", item, false).unwrap();
    }
    for item in items {
        let found = watchlist.list_search("L", item).unwrap();
        assert!(found.iter().any(|f| f.as_str() == item));
    }
}

#[test]
fn containment_of_lowered_texts() {
    assert!(wlist::text::contains_lowered("the matrix", "matrix"));
    assert!(wlist::text::contains_lowered("the matrix", "the matrix"));
    assert!(wlist::text::contains_lowered("the matrix", "e m"));
    assert!(wlist::text::contains_lowered("the matrix", ""));
    assert!(wlist::text::contains_lowered("", ""));
    assert!(!wlist::text::contains_lowered("the matrix", "matrix "));
    assert!(!wlist::text::contains_lowered("the matrix", "Matrix"));
    assert!(!wlist::text::contains_lowered("The Matrix", "the"));
    assert!(!wlist::text::contains_lowered("", "a"));
    assert!(wlist::text::contains_lowered("\u{e9}cole", "\u{e9}c"));
    assert!(!wlist::text::contains_lowered("\u{c9}cole", "\u{e9}c"));
}

#[test]
fn item_matching() {
    assert!(wlist::text::item_matches("\u{c9}COLE", "\u{e9}cole"));
    assert!(!wlist::text::item_matches("\u{c9}COLE", "\u{c9}COLE"));
    assert!(wlist::text::item_matches("The Matrix", "matrix"));
    assert!(wlist::text::item_matches("The Matrix", ""));
    assert!(!wlist::text::item_matches("The Matrix", "Matrix"));
    assert!(!wlist::text::item_matches("Matrix", "matrix 2"));
}

#[test]
fn messages_of_the_errors() {
    assert_eq!(
        WatchListError::NoTitles.message(),
        "No Lists Found!\nCreate a new one using the `new` subcommand. See `wl --help` for more info"
    );
    assert_eq!(
        WatchListError::EmptyList("Movies".to_string()).message(),
        "No Items Added to List - Movies!"
    );
    assert_eq!(
        WatchListError::TitleNotPresent("TV".to_string()).message(),
        "No such list - TV!"
    );
    assert_eq!(
        WatchListError::ItemAlreadyPresent("Movie 1".to_string(), "Movies".to_string()).message(),
        "Movie 1 is already in the list - Movies!"
    );
    assert_eq!(
        WatchListError::ItemToRemoveNotPresent("Movie 9".to_string()).message(),
        "Movie 9 not in the list!"
    );
    assert_eq!(
        WatchListError::TitleAlreadyPresent("Movies".to_string()).message(),
        "A list called Movies already exists"
    );
    assert_eq!(WatchListError::IOError("disk full".to_string()).message(), "disk full");
    assert_eq!(
        WatchListError::ParseError { message: "expected value".to_string(), truncated: false }
            .message(),
        "expected value"
    );
}

#[test]
fn every_character_matches_its_own_lower_case() {
    for n in 0..=0x10FFFFu32 {
        if let Some(c) = char::from_u32(n) {
            let item = format!("<{c}>");
            let lowered = item.to_lowercase();
            assert!(wlist::text::item_matches(&item, &lowered));
            assert!(wlist::text::item_matches(&lowered, &lowered));
            if lowered != item {
                assert!(!wlist::text::item_matches(&item, &item));
            }
        }
    }
}

