use wlist::{WatchList, WatchListError, WatchListFuncs};

#[test]
fn round_trip_keeps_titles_items_and_order() {
    let mut watchlist = WatchList::new();
    watchlist.list_add("Movies").unwrap();
    watchlist.item_add("Movies", "A", false).unwrap();
    watchlist.item_add("Movies", "B", false).unwrap();
    watchlist.list_add("Empty").unwrap();

    let text = watchlist.to_json().unwrap();
    let back = WatchList::from_json(&text).unwrap();

    let mut titles = back.list_get_all().unwrap();
    titles.sort();
    assert_eq!(titles, vec!["Empty", "Movies"]);
    assert_eq!(*back.get("Movies").unwrap(), vec!["A", "B"]);
    assert_eq!(*back.get("Empty").unwrap(), Vec::<String>::new());
}

#[test]
fn round_trip_of_awkward_texts() {
    let mut watchlist = WatchList::new();
    watchlist.list_add("quo\"te\\ \n").unwrap();
    watchlist.item_add("quo\"te\\ \n", "tab\there", false).unwrap();
    watchlist.item_add("quo\"te\\ \n", "\u{1F600} \u{e9}", false).unwrap();
    watchlist.item_add("quo\"te\\ \n", "", false).unwrap();
    let back = WatchList::from_json(&watchlist.to_json().unwrap()).unwrap();
    assert_eq!(
        *back.get("quo\"te\\ \n").unwrap(),
        vec!["tab\there", "\u{1F600} \u{e9}", ""]
    );
}

#[test]
fn empty_collection_is_an_empty_object() {
    assert_eq!(WatchList::new().to_json().unwrap(), "{}");
    let back = WatchList::from_json("{}").unwrap();
    assert_eq!(back.list_get_all().err().unwrap(), WatchListError::NoTitles);
}

#[test]
fn one_list_encodes_as_one_member() {
    let mut watchlist = WatchList::new();
    watchlist.list_add("Movies").unwrap();
    watchlist.item_add("Movies", "A", false).unwrap();
    watchlist.item_add("Movies", "B", false).unwrap();
    assert_eq!(watchlist.to_json().unwrap(), r#"{"Movies":["A","B"]}"#);
}

#[test]
fn decoding_reads_lists_in_order() {
    let watchlist = WatchList::from_json(r#"{"Movies": ["B", "A", "B"], "Empty": []}"#).unwrap();
    assert_eq!(*watchlist.get("Movies").unwrap(), vec!["B", "A", "B"]);
    assert_eq!(*watchlist.get("Empty").unwrap(), Vec::<String>::new());
    assert_eq!(watchlist.get("Other"), None);
    assert_eq!(watchlist.list_get_all().unwrap().len(), 2);
}

#[test]
fn malformed_text_is_a_parse_error() {
    for text in ["not json", "[]", r#"{"a": "b"}"#, r#"{"a": [1]}"#, r#"{"a": ["b"]} x"#, "{,}"] {
        match WatchList::from_json(text) {
            Err(WatchListError::ParseError { message, truncated }) => {
                assert!(!message.is_empty());
                assert!(!truncated);
            }
            _ => panic!("a parse error was expected"),
        }
    }
}

#[test]
fn text_cut_short_is_a_parse_error_that_says_so() {
    for text in ["", "{", r#"{"a"#, r#"{"a": ["b"#, r#"{"a": ["b"]"#] {
        match WatchList::from_json(text) {
            Err(WatchListError::ParseError { message, truncated }) => {
                assert!(!message.is_empty());
                assert!(truncated);
            }
            _ => panic!("a parse error was expected"),
        }
    }
}

#[test]
fn a_repeated_title_is_one_list() {
    let watchlist = WatchList::from_json(r#"{"a": ["x"], "a": ["y"]}"#).unwrap();
    assert_eq!(watchlist.list_get_all().unwrap(), vec!["a"]);
    assert_eq!(*watchlist.get("a").unwrap(), vec!["y"]);
}

#[test]
fn path_of_the_stored_collection() {
    assert_eq!(wlist::codec::storage_path(None), "watchlist.json");
    assert_eq!(
        wlist::codec::storage_path(Some("/tmp/lists.json".to_string())),
        "/tmp/lists.json"
    );
    assert_eq!(wlist::codec::storage_path(Some(String::new())), "");
}

#[test]
fn failures_of_the_codec_become_errors() {
    let failure = serde_json::from_str::<Vec<String>>("[").unwrap_err();
    let text = failure.to_string();
    match wlist::codec::encoded_or_error(Err(failure)) {
        Err(WatchListError::IOError(message)) => assert_eq!(message, text),
        _ => panic!("an I/O error was expected"),
    }
    let failure = serde_json::from_str::<Vec<String>>("[").unwrap_err();
    match wlist::codec::decoded_or_error(Err(failure)) {
        Err(WatchListError::ParseError { message, truncated }) => {
            assert_eq!(message, text);
            assert!(truncated);
        }
        _ => panic!("a parse error was expected"),
    }
    assert_eq!(
        wlist::codec::encoded_or_error(Ok("{}".to_string())).unwrap(),
        "{}"
    );
    let kept = wlist::codec::decoded_or_error(Ok(WatchList::new())).unwrap();
    assert_eq!(kept.list_get_all().err().unwrap(), WatchListError::NoTitles);
}

#[test]
fn encoding_always_succeeds() {
    let mut watchlist = WatchList::new();
    assert!(watchlist.to_json().is_ok());
    watchlist.list_add("").unwrap();
    watchlist.list_add("\u{0}\u{1f}\u{7f}\u{ffff}").unwrap();
    watchlist.item_add("", "\u{0}", false).unwrap();
    watchlist.item_add("", "\"\\/\u{8}\u{c}\n\r\t", false).unwrap();
    let text = watchlist.to_json().unwrap();
    let back = WatchList::from_json(&text).unwrap();
    assert_eq!(
        *back.get("").unwrap(),
        vec!["\u{0}", "\"\\/\u{8}\u{c}\n\r\t"]
    );
    assert_eq!(
        *back.get("\u{0}\u{1f}\u{7f}\u{ffff}").unwrap(),
        Vec::<String>::new()
    );
    assert_eq!(back.list_get_all().unwrap().len(), 2);
}
