//! The errors that the watch-list operations report.

use vstd::prelude::*;
use vstd::string::StringExecFns;

verus! {

/// Why an operation on a collection of watch lists did not go through.
/// Each variant carries the title or item that it is about.
#[derive(Debug, PartialEq, Eq)]
pub enum WatchListError {
    /// The collection holds no list at all.
    NoTitles,
    /// The named list exists and holds no item.
    EmptyList(String),
    /// A list of this title exists already.
    TitleAlreadyPresent(String),
    /// No list of this title exists.
    TitleNotPresent(String),
    /// The item (first field) is already in the list (second field).
    ItemAlreadyPresent(String, String),
    /// The item to remove is not in the list.
    ItemToRemoveNotPresent(String),
    /// Reading or writing failed; the field is the failure's message.
    IOError(String),
    /// The stored text is not a JSON object of string arrays. `message` is
    /// the decoder's message; `truncated` says that the text ended before
    /// its value was complete, as a file cut short does.
    ParseError { message: String, truncated: bool },
}

impl WatchListError {
    /// The line that tells the user of the error.
    pub open spec fn message_text(self) -> Seq<char> {
        match self {
            WatchListError::NoTitles => "No Lists Found!\nCreate a new one using the `new` subcommand. See `wl --help` for more info"@,
            WatchListError::EmptyList(title) => "No Items Added to List - "@ + title@ + "!"@,
            WatchListError::TitleAlreadyPresent(title) => "A list called "@ + title@
                + " already exists"@,
            WatchListError::TitleNotPresent(title) => "No such list - "@ + title@ + "!"@,
            WatchListError::ItemAlreadyPresent(item, title) => item@ + " is already in the list - "@
                + title@ + "!"@,
            WatchListError::ItemToRemoveNotPresent(item) => item@ + " not in the list!"@,
            WatchListError::IOError(text) => text@,
            WatchListError::ParseError { message, .. } => message@,
        }
    }

    /// The line that tells the user of the error.
    pub fn message(&self) -> (r: String)
        ensures
            r@ == self.message_text(),
    {
        match self {
            WatchListError::NoTitles => "No Lists Found!\nCreate a new one using the `new` subcommand. See `wl --help` for more info".to_owned(),
            WatchListError::EmptyList(title) => "No Items Added to List - ".to_owned().concat(
                title.as_str(),
            ).concat("!"),
            WatchListError::TitleAlreadyPresent(title) => "A list called ".to_owned().concat(
                title.as_str(),
            ).concat(" already exists"),
            WatchListError::TitleNotPresent(title) => "No such list - ".to_owned().concat(
                title.as_str(),
            ).concat("!"),
            WatchListError::ItemAlreadyPresent(item, title) => item.clone().concat(
                " is already in the list - ",
            ).concat(title.as_str()).concat("!"),
            WatchListError::ItemToRemoveNotPresent(item) => item.clone().concat(" not in the list!"),
            WatchListError::IOError(text) => text.clone(),
            WatchListError::ParseError { message, .. } => message.clone(),
        }
    }

    pub open spec fn is_empty_list(self, title: Seq<char>) -> bool {
        self matches WatchListError::EmptyList(held) && held@ == title
    }

    pub open spec fn is_title_already_present(self, title: Seq<char>) -> bool {
        self matches WatchListError::TitleAlreadyPresent(held) && held@ == title
    }

    pub open spec fn is_title_not_present(self, title: Seq<char>) -> bool {
        self matches WatchListError::TitleNotPresent(held) && held@ == title
    }

    pub open spec fn is_item_already_present(self, item: Seq<char>, title: Seq<char>) -> bool {
        self matches WatchListError::ItemAlreadyPresent(held, under) && held@ == item && under@ == title
    }

    pub open spec fn is_item_to_remove_not_present(self, item: Seq<char>) -> bool {
        self matches WatchListError::ItemToRemoveNotPresent(held) && held@ == item
    }
}

} // verus!
