//! The commands of the watch-list tool and what each of them does to a
//! collection. Nothing here reads or prints: a command gives a reply, and
//! the two commands that ask the user something are finished by a second
//! call that takes the answer.

use vstd::prelude::*;
use vstd::string::StringExecFns;
use crate::error::WatchListError;
use crate::text::{decimal_usize, parse_usize, to_lowercase, unicode_lower};
use crate::watchlist::{
    accepts_item, matching, ref_texts, texts, with_item, with_list, without_item, Lists,
    WatchList, WatchListEntry, WatchListFuncs,
};

verus! {

/// One invocation of the tool.
pub struct Cli {
    pub commands: Commands,
}

/// The subcommands.
#[allow(inconsistent_fields)]
pub enum Commands {
    /// Create a list.
    New { list: String },
    /// Add items to a list, one after the other.
    Add { list: String, items: Vec<String>, ignore_duplicate: bool },
    /// Show the titles, one list, or every list that holds items.
    Show { list: Option<String>, all_items: bool },
    /// Pick a random item, from the named list or from any.
    Random { name: Option<String> },
    /// Delete a list, or one of the items that match a search term.
    Delete { list: String, prompt: Option<String> },
    /// Search a list.
    Search { list: String, prompt: String },
}

/// What a command came to: what there is to show, or what to ask next.
pub enum Reply {
    /// A list was created.
    ListCreated,
    /// All items were added.
    ItemsAdded,
    /// The titles of all lists.
    Titles(Vec<String>),
    /// The items of one list, with its title.
    Items { title: String, items: Vec<String> },
    /// Every list that holds an item, in the order of the titles.
    AllItems(Vec<WatchListEntry>),
    /// The item that was picked at random.
    Picked(String),
    /// The list that was picked at random holds nothing: pick again.
    PickAgain,
    /// The search found nothing.
    NoMatches,
    /// What the search found.
    Matches(Vec<String>),
    /// Deletion of an item: these items of the list match; the user is to
    /// say which one goes.
    Choose { list: String, matches: Vec<String> },
    /// Deletion of a list: the user is to confirm it.
    Confirm { list: String },
    /// The chosen item was deleted.
    ItemDeleted,
    /// The list was deleted.
    ListDeleted(String),
    /// The user did not confirm; nothing was deleted.
    DeletingCancelled,
}

/// The titles of a sequence of lists.
pub open spec fn entry_titles(entries: Seq<WatchListEntry>) -> Seq<Seq<char>> {
    Seq::new(entries.len(), |i: int| entries[i].title@)
}

/// How many of the items `xs` are added to the list `t`, one after the
/// other, before one is refused.
pub open spec fn added_count(
    m: Lists,
    t: Seq<char>,
    xs: Seq<Seq<char>>,
    add_duplicate: bool,
) -> nat
    decreases xs.len(),
{
    if xs.len() == 0 || !accepts_item(m, t, xs[0], add_duplicate) {
        0
    } else {
        1 + added_count(with_item(m, t, xs[0]), t, xs.skip(1), add_duplicate)
    }
}

/// `m` after the items `xs` were appended to its list `t`, in their order.
pub open spec fn with_items(m: Lists, t: Seq<char>, xs: Seq<Seq<char>>) -> Lists {
    if xs.len() == 0 {
        m
    } else {
        m.insert(t, m[t] + xs)
    }
}

/// The test whether the list under a title holds any item.
pub open spec fn holds_items(m: Lists) -> spec_fn(Seq<char>) -> bool {
    |t: Seq<char>| m[t].len() > 0
}

/// Whether each of the lists `found` is a list of `m`, with its items.
pub open spec fn taken_from(found: Seq<WatchListEntry>, m: Lists) -> bool {
    forall|i: int|
        #![trigger found[i]]
        0 <= i < found.len() ==> m.contains_key(found[i].title@) && texts(found[i].items@)
            == m[found[i].title@]
}

/// The text of a string that may be absent.
pub open spec fn opt_text(o: Option<String>) -> Option<Seq<char>> {
    match o {
        Some(s) => Some(s@),
        None => None,
    }
}

/// What `new` does: it creates the list, or refuses a title that exists.
pub open spec fn new_done(
    before: WatchList,
    list: Seq<char>,
    r: Result<Reply, WatchListError>,
    after: WatchList,
) -> bool {
    match r {
        Ok(reply) => {
            &&& reply is ListCreated
            &&& !before.lists().contains_key(list)
            &&& after.lists() == with_list(before.lists(), list)
            &&& after.titles() == before.titles().push(list)
        },
        Err(e) => {
            &&& before.lists().contains_key(list)
            &&& e.is_title_already_present(list)
            &&& after.lists() == before.lists()
            &&& after.titles() == before.titles()
        },
    }
}

/// What `add` does: it appends the items in their order up to the first
/// that is refused; those before it stay added.
pub open spec fn add_done(
    before: WatchList,
    list: Seq<char>,
    xs: Seq<Seq<char>>,
    add_duplicate: bool,
    r: Result<Reply, WatchListError>,
    after: WatchList,
) -> bool {
    let m = before.lists();
    let n = added_count(m, list, xs, add_duplicate) as int;
    &&& after.titles() == before.titles()
    &&& n <= xs.len()
    &&& after.lists() == with_items(m, list, xs.take(n))
    &&& match r {
        Ok(reply) => n == xs.len() && reply is ItemsAdded,
        Err(e) => n < xs.len() && if !m.contains_key(list) {
            e.is_title_not_present(list)
        } else {
            e.is_item_already_present(xs[n], list)
        },
    }
}

/// What `show` gives: every list that holds items, or the named list, or
/// the titles.
pub open spec fn show_done(
    w: WatchList,
    list: Option<Seq<char>>,
    all_items: bool,
    r: Result<Reply, WatchListError>,
) -> bool {
    let m = w.lists();
    if all_items {
        match r {
            Ok(reply) => {
                &&& w.titles().len() > 0
                &&& reply matches Reply::AllItems(found)
                &&& entry_titles(found@) == w.titles().filter(holds_items(m))
                &&& taken_from(found@, m)
            },
            Err(e) => w.titles().len() == 0 && e is NoTitles,
        }
    } else if list is Some {
        let t = list.unwrap();
        match r {
            Ok(reply) => {
                &&& m.contains_key(t)
                &&& m[t].len() > 0
                &&& reply matches Reply::Items { title, items }
                &&& title@ == t
                &&& texts(items@) == m[t]
            },
            Err(e) => if !m.contains_key(t) {
                e.is_title_not_present(t)
            } else {
                m[t].len() == 0 && e.is_empty_list(t)
            },
        }
    } else {
        match r {
            Ok(reply) => {
                &&& reply matches Reply::Titles(all)
                &&& all@.len() > 0
                &&& texts(all@) == w.titles()
            },
            Err(e) => w.titles().len() == 0 && e is NoTitles,
        }
    }
}

/// Whether some list of `m` holds the item `x`.
pub open spec fn holds_somewhere(m: Lists, x: Seq<char>) -> bool {
    exists|t: Seq<char>| m.contains_key(t) && #[trigger] m[t].contains(x)
}

/// Whether some list of `m` holds no item.
pub open spec fn has_empty_list(m: Lists) -> bool {
    exists|t: Seq<char>| #[trigger] m.contains_key(t) && m[t].len() == 0
}

/// What `random` gives: an item of the named list; or, without a name, an
/// item of some list, or the request to pick again where the list that was
/// picked holds nothing.
pub open spec fn random_done(
    w: WatchList,
    name: Option<Seq<char>>,
    r: Result<Reply, WatchListError>,
) -> bool {
    let m = w.lists();
    if name is Some {
        let t = name.unwrap();
        match r {
            Ok(reply) => {
                &&& m.contains_key(t)
                &&& reply matches Reply::Picked(x)
                &&& m[t].contains(x@)
            },
            Err(e) => if !m.contains_key(t) {
                e.is_title_not_present(t)
            } else {
                m[t].len() == 0 && e.is_empty_list(t)
            },
        }
    } else {
        match r {
            Ok(reply) => {
                &&& reply is Picked || reply is PickAgain
                &&& reply matches Reply::Picked(x) ==> holds_somewhere(m, x@)
                &&& reply is PickAgain ==> has_empty_list(m)
            },
            Err(e) => w.titles().len() == 0 && e is NoTitles,
        }
    }
}

/// What `delete` gives before anything is deleted: with a search term, the
/// matching items to choose from, or the word that there are none; without
/// one, the request to confirm.
pub open spec fn delete_asked(
    w: WatchList,
    list: Seq<char>,
    prompt: Option<Seq<char>>,
    r: Result<Reply, WatchListError>,
) -> bool {
    let m = w.lists();
    if prompt is Some {
        match r {
            Ok(reply) => {
                &&& m.contains_key(list)
                &&& if matching(m[list], prompt.unwrap()).len() == 0 {
                    reply is NoMatches
                } else {
                    &&& reply matches Reply::Choose { list: l, matches }
                    &&& l@ == list
                    &&& texts(matches@) == matching(m[list], prompt.unwrap())
                }
            },
            Err(e) => !m.contains_key(list) && e.is_title_not_present(list),
        }
    } else {
        r matches Ok(Reply::Confirm { list: l }) && l@ == list
    }
}

/// What `search` gives: the matching items, or the word that there are
/// none.
pub open spec fn search_done(
    w: WatchList,
    list: Seq<char>,
    prompt: Seq<char>,
    r: Result<Reply, WatchListError>,
) -> bool {
    let m = w.lists();
    match r {
        Ok(reply) => {
            &&& m.contains_key(list)
            &&& if matching(m[list], prompt).len() == 0 {
                reply is NoMatches
            } else {
                reply matches Reply::Matches(found) && texts(found@) == matching(m[list], prompt)
            }
        },
        Err(e) => !m.contains_key(list) && e.is_title_not_present(list),
    }
}

/// What a command does to the collection and what it replies.
pub open spec fn run_done(
    before: WatchList,
    command: Commands,
    r: Result<Reply, WatchListError>,
    after: WatchList,
) -> bool {
    match command {
        Commands::New { list } => new_done(before, list@, r, after),
        Commands::Add { list, items, ignore_duplicate } => add_done(
            before,
            list@,
            texts(items@),
            ignore_duplicate,
            r,
            after,
        ),
        Commands::Show { list, all_items } => after == before && show_done(
            before,
            opt_text(list),
            all_items,
            r,
        ),
        Commands::Random { name } => after == before && random_done(before, opt_text(name), r),
        Commands::Delete { list, prompt } => after == before && delete_asked(
            before,
            list@,
            opt_text(prompt),
            r,
        ),
        Commands::Search { list, prompt } => after == before && search_done(
            before,
            list@,
            prompt@,
            r,
        ),
    }
}

/// The index that an answer to "which item?" selects among `count` items,
/// counted from one: an empty answer selects the first, a number from one to
/// `count` selects that one, and anything else selects nothing.
pub open spec fn selected(answer: Seq<char>, count: usize) -> Option<usize> {
    if answer.len() == 0 {
        Some(1usize)
    } else {
        match decimal_usize(answer) {
            Some(n) => if 0 < n && n <= count {
                Some(n)
            } else {
                None
            },
            None => None,
        }
    }
}

/// Whether an answer, in lower case, confirms a deletion.
pub open spec fn confirms(lowered: Seq<char>) -> bool {
    lowered == seq!['y']
}

/// Appending items one after the other comes to appending them all.
pub proof fn lemma_with_items_push(m: Lists, t: Seq<char>, xs: Seq<Seq<char>>, x: Seq<char>)
    ensures
        with_items(m, t, xs.push(x)) == with_item(with_items(m, t, xs), t, x),
{
    if xs.len() == 0 {
        assert(m[t] + xs.push(x) =~= m[t].push(x));
    } else {
        assert(m[t] + xs.push(x) =~= (m[t] + xs).push(x));
    }
    assert(with_items(m, t, xs.push(x)) =~= with_item(with_items(m, t, xs), t, x));
}

/// The question that asks the user to confirm the deletion of a list.
pub fn confirmation_prompt(list: &str) -> (r: String)
    ensures
        r@ == "Are you sure you want to delete the list '"@ + list@ + "'? (y/N): "@,
{
    "Are you sure you want to delete the list '".to_owned().concat(list).concat("'? (y/N): ")
}

/// The line that tells the user that a list was deleted.
pub fn deleted_line(list: &str) -> (r: String)
    ensures
        r@ == "Deleted List '"@ + list@ + "'"@,
{
    "Deleted List '".to_owned().concat(list).concat("'")
}

/// A copy of each string.
pub fn copy_texts(items: &Vec<String>) -> (r: Vec<String>)
    ensures
        texts(r@) == texts(items@),
        r@.len() == items@.len(),
{
    let mut r: Vec<String> = Vec::new();
    let mut i: usize = 0;
    while i < items.len()
        invariant
            i <= items@.len(),
            r@.len() == i,
            forall|j: int| 0 <= j < i ==> r@[j]@ == items@[j]@,
        decreases items@.len() - i,
    {
        r.push(items[i].clone());
        i += 1;
    }
    assert(texts(r@) =~= texts(items@));
    r
}

/// A copy of each borrowed string.
pub fn copy_ref_texts(items: &Vec<&String>) -> (r: Vec<String>)
    ensures
        texts(r@) == ref_texts(items@),
        r@.len() == items@.len(),
{
    let mut r: Vec<String> = Vec::new();
    let mut i: usize = 0;
    while i < items.len()
        invariant
            i <= items@.len(),
            r@.len() == i,
            forall|j: int| 0 <= j < i ==> r@[j]@ == items@[j]@,
        decreases items@.len() - i,
    {
        r.push(items[i].clone());
        i += 1;
    }
    assert(texts(r@) =~= ref_texts(items@));
    r
}

/// Reads the user's answer to "which item?": see `selected`.
pub fn selection(answer: &str, count: usize) -> (r: Option<usize>)
    ensures
        r == selected(answer@, count),
{
    if answer.is_empty() {
        return Some(1);
    }
    match parse_usize(answer) {
        Some(n) => if 0 < n && n <= count {
            Some(n)
        } else {
            None
        },
        None => None,
    }
}

/// Creates a list.
pub fn cli_new(watchlists: &mut WatchList, list: &String) -> (r: Result<Reply, WatchListError>)
    requires
        old(watchlists).wf(),
    ensures
        final(watchlists).wf(),
        new_done(*old(watchlists), list@, r, *final(watchlists)),
{
    match watchlists.list_add(list.as_str()) {
        Ok(_) => Ok(Reply::ListCreated),
        Err(e) => Err(e),
    }
}

/// Adds the items to the list, one after the other, and stops at the first
/// that is refused.
pub fn cli_add(
    watchlists: &mut WatchList,
    list: &String,
    items: &Vec<String>,
    ignore_duplicate: bool,
) -> (r: Result<Reply, WatchListError>)
    requires
        old(watchlists).wf(),
    ensures
        final(watchlists).wf(),
        add_done(*old(watchlists), list@, texts(items@), ignore_duplicate, r, *final(watchlists)),
{
    let ghost m = watchlists.lists();
    let ghost xs = texts(items@);
    let mut i: usize = 0;
    proof {
        assert(xs.skip(0) =~= xs);
    }
    while i < items.len()
        invariant
            i <= items@.len(),
            xs == texts(items@),
            m == old(watchlists).lists(),
            watchlists.wf(),
            watchlists.titles() == old(watchlists).titles(),
            watchlists.lists() == with_items(m, list@, xs.take(i as int)),
            watchlists.lists().contains_key(list@) == m.contains_key(list@),
            added_count(m, list@, xs, ignore_duplicate) == i + added_count(
                watchlists.lists(),
                list@,
                xs.skip(i as int),
                ignore_duplicate,
            ),
        decreases items@.len() - i,
    {
        let ghost cur = watchlists.lists();
        proof {
            assert(xs.skip(i as int)[0] == items@[i as int]@);
            assert(xs.skip(i as int).skip(1) =~= xs.skip(i + 1));
        }
        match watchlists.item_add(list.as_str(), items[i].as_str(), ignore_duplicate) {
            Ok(_) => {
                proof {
                    assert(xs.take(i + 1) =~= xs.take(i as int).push(items@[i as int]@));
                    lemma_with_items_push(m, list@, xs.take(i as int), items@[i as int]@);
                }
            },
            Err(e) => {
                return Err(e);
            },
        }
        i += 1;
    }
    proof {
        assert(xs.take(i as int) =~= xs);
    }
    Ok(Reply::ItemsAdded)
}

/// Gives what `show` is to display.
pub fn cli_show(watchlists: &WatchList, list: &Option<String>, all_items: bool) -> (r: Result<
    Reply,
    WatchListError,
>)
    requires
        watchlists.wf(),
    ensures
        show_done(*watchlists, opt_text(*list), all_items, r),
{
    if all_items {
        let titles = match watchlists.list_get_all() {
            Ok(titles) => titles,
            Err(e) => {
                return Err(e);
            },
        };
        let ghost m = watchlists.lists();
        let ghost all = watchlists.titles();
        let ghost pred = holds_items(m);
        let mut found: Vec<WatchListEntry> = Vec::new();
        let mut i: usize = 0;
        proof {
            watchlists.lemma_titles_are_keys();
            reveal(Seq::filter);
            assert(all.take(0) =~= Seq::<Seq<char>>::empty());
            assert(entry_titles(found@) =~= all.take(0).filter(pred));
        }
        while i < titles.len()
            invariant
                i <= titles@.len(),
                watchlists.wf(),
                m == watchlists.lists(),
                all == watchlists.titles(),
                all == ref_texts(titles@),
                pred == holds_items(m),
                forall|t: Seq<char>| m.contains_key(t) <==> all.contains(t),
                entry_titles(found@) == all.take(i as int).filter(pred),
                taken_from(found@, m),
            decreases titles@.len() - i,
        {
            proof {
                reveal(Seq::filter);
                assert(all.take(i + 1).drop_last() =~= all.take(i as int));
                assert(all.take(i + 1).last() == titles@[i as int]@);
                assert(all.contains(all[i as int]));
            }
            let ghost before = found@;
            match watchlists.get(titles[i].as_str()) {
                Some(items) => {
                    if items.len() > 0 {
                        let title = titles[i].clone();
                        let copy = copy_texts(items);
                        let ghost title_text = title@;
                        let ghost copy_items = copy@;
                        found.push(WatchListEntry { title, items: copy });
                        proof {
                            let n = before.len() as int;
                            assert(entry_titles(found@) =~= entry_titles(before).push(title_text));
                            assert forall|k: int| 0 <= k < found@.len() implies m.contains_key(
                                #[trigger] found@[k].title@,
                            ) && texts(found@[k].items@) == m[found@[k].title@] by {
                                if k < n {
                                    assert(found@[k] == before[k]);
                                } else {
                                    assert(found@[k].items@ == copy_items);
                                }
                            }
                        }
                    }
                },
                None => {},
            }
            i += 1;
        }
        proof {
            assert(all.take(i as int) =~= all);
        }
        Ok(Reply::AllItems(found))
    } else {
        match list {
            Some(l) => match watchlists.item_get_all(l.as_str()) {
                Ok(items) => Ok(Reply::Items { title: l.clone(), items: copy_texts(items) }),
                Err(e) => Err(e),
            },
            None => match watchlists.list_get_all() {
                Ok(titles) => Ok(Reply::Titles(copy_ref_texts(&titles))),
                Err(e) => Err(e),
            },
        }
    }
}

/// Picks a random item: from the named list, or from a list that is itself
/// picked at random. Where that list holds nothing the reply asks to pick
/// again.
pub fn cli_random(watchlists: &WatchList, name: &Option<String>) -> (r: Result<
    Reply,
    WatchListError,
>)
    requires
        watchlists.wf(),
    ensures
        random_done(*watchlists, opt_text(*name), r),
{
    match name {
        Some(n) => match watchlists.item_get_random(n.as_str()) {
            Ok(item) => Ok(Reply::Picked(item.clone())),
            Err(e) => Err(e),
        },
        None => {
            let title = match watchlists.list_get_random() {
                Ok(title) => title,
                Err(e) => {
                    return Err(e);
                },
            };
            match watchlists.item_get_random(title.as_str()) {
                Ok(item) => {
                    let picked = item.clone();
                    assert(watchlists.lists().contains_key(title@) && watchlists.lists()[title@].contains(
                        picked@,
                    ));
                    assert(holds_somewhere(watchlists.lists(), picked@));
                    Ok(Reply::Picked(picked))
                },
                Err(_) => {
                    assert(watchlists.lists().contains_key(title@) && watchlists.lists()[title@].len()
                        == 0);
                    assert(has_empty_list(watchlists.lists()));
                    Ok(Reply::PickAgain)
                },
            }
        },
    }
}

/// The reply to a search that found `found`.
pub fn matches_reply(found: &Vec<&String>) -> (r: Reply)
    ensures
        if found@.len() == 0 {
            r is NoMatches
        } else {
            r matches Reply::Matches(items) && texts(items@) == ref_texts(found@)
        },
{
    if found.len() == 0 {
        Reply::NoMatches
    } else {
        Reply::Matches(copy_ref_texts(found))
    }
}

/// The reply to a deletion by search term that found `found` in `list`.
pub fn choice_reply(list: &String, found: &Vec<&String>) -> (r: Reply)
    ensures
        if found@.len() == 0 {
            r is NoMatches
        } else {
            &&& r matches Reply::Choose { list: l, matches }
            &&& l@ == list@
            &&& texts(matches@) == ref_texts(found@)
        },
{
    if found.len() == 0 {
        Reply::NoMatches
    } else {
        Reply::Choose { list: list.clone(), matches: copy_ref_texts(found) }
    }
}

/// Prepares a deletion: finds the items to choose from, or asks for the
/// confirmation. Nothing is deleted yet.
pub fn cli_delete(watchlists: &WatchList, list: &String, prompt: &Option<String>) -> (r: Result<
    Reply,
    WatchListError,
>)
    requires
        watchlists.wf(),
    ensures
        delete_asked(*watchlists, list@, opt_text(*prompt), r),
{
    match prompt {
        Some(p) => match watchlists.list_search(list.as_str(), p.as_str()) {
            Ok(found) => Ok(choice_reply(list, &found)),
            Err(e) => Err(e),
        },
        None => Ok(Reply::Confirm { list: list.clone() }),
    }
}

/// Deletes the item that the user chose among the matches, the first being
/// number one.
pub fn cli_delete_item(
    watchlists: &mut WatchList,
    list: &str,
    matches: &Vec<String>,
    index: usize,
) -> (r: Result<Reply, WatchListError>)
    requires
        old(watchlists).wf(),
        1 <= index <= matches@.len(),
    ensures
        final(watchlists).wf(),
        final(watchlists).titles() == old(watchlists).titles(),
        match r {
            Ok(reply) => {
                &&& reply is ItemDeleted
                &&& old(watchlists).lists().contains_key(list@)
                &&& old(watchlists).lists()[list@].contains(matches@[index - 1]@)
                &&& final(watchlists).lists() == without_item(
                    old(watchlists).lists(),
                    list@,
                    matches@[index - 1]@,
                )
            },
            Err(e) => {
                &&& final(watchlists).lists() == old(watchlists).lists()
                &&& if !old(watchlists).lists().contains_key(list@) {
                    e.is_title_not_present(list@)
                } else {
                    &&& !old(watchlists).lists()[list@].contains(matches@[index - 1]@)
                    &&& e.is_item_to_remove_not_present(matches@[index - 1]@)
                }
            },
        },
{
    match watchlists.item_remove(list, matches[index - 1].as_str()) {
        Ok(_) => Ok(Reply::ItemDeleted),
        Err(e) => Err(e),
    }
}

/// Deletes the list if the answer, given in lower case, confirms it.
pub fn confirm_delete(watchlists: &mut WatchList, list: &str, lowered: &str) -> (r: Result<
    Reply,
    WatchListError,
>)
    requires
        old(watchlists).wf(),
    ensures
        final(watchlists).wf(),
        if confirms(lowered@) {
            match r {
                Ok(reply) => {
                    &&& reply matches Reply::ListDeleted(l)
                    &&& l@ == list@
                    &&& old(watchlists).lists().contains_key(list@)
                    &&& final(watchlists).lists() == old(watchlists).lists().remove(list@)
                },
                Err(e) => {
                    &&& !old(watchlists).lists().contains_key(list@)
                    &&& e.is_title_not_present(list@)
                    &&& final(watchlists).lists() == old(watchlists).lists()
                    &&& final(watchlists).titles() == old(watchlists).titles()
                },
            }
        } else {
            &&& r matches Ok(reply)
            &&& reply is DeletingCancelled
            &&& *final(watchlists) == *old(watchlists)
        },
{
    proof {
        reveal_strlit("y");
        assert("y"@ =~= seq!['y']);
    }
    if lowered.to_owned() == "y".to_owned() {
        match watchlists.list_remove(list) {
            Ok(_) => Ok(Reply::ListDeleted(list.to_owned())),
            Err(e) => Err(e),
        }
    } else {
        Ok(Reply::DeletingCancelled)
    }
}

/// Deletes the list if the user's answer is "y", in either case.
pub fn cli_delete_list(watchlists: &mut WatchList, list: &str, answer: &str) -> (r: Result<
    Reply,
    WatchListError,
>)
    requires
        old(watchlists).wf(),
    ensures
        final(watchlists).wf(),
        if confirms(unicode_lower(answer@)) {
            match r {
                Ok(reply) => {
                    &&& reply matches Reply::ListDeleted(l)
                    &&& l@ == list@
                    &&& old(watchlists).lists().contains_key(list@)
                    &&& final(watchlists).lists() == old(watchlists).lists().remove(list@)
                },
                Err(e) => {
                    &&& !old(watchlists).lists().contains_key(list@)
                    &&& e.is_title_not_present(list@)
                    &&& final(watchlists).lists() == old(watchlists).lists()
                    &&& final(watchlists).titles() == old(watchlists).titles()
                },
            }
        } else {
            &&& r matches Ok(reply)
            &&& reply is DeletingCancelled
            &&& *final(watchlists) == *old(watchlists)
        },
{
    let lowered = to_lowercase(answer);
    confirm_delete(watchlists, list, lowered.as_str())
}

/// Searches a list.
pub fn cli_search(watchlists: &WatchList, list: &String, prompt: &String) -> (r: Result<
    Reply,
    WatchListError,
>)
    requires
        watchlists.wf(),
    ensures
        search_done(*watchlists, list@, prompt@, r),
{
    match watchlists.list_search(list.as_str(), prompt.as_str()) {
        Ok(found) => Ok(matches_reply(&found)),
        Err(e) => Err(e),
    }
}

/// Runs one command on the collection.
pub fn cli_run(watchlists: &mut WatchList, cli: &Cli) -> (r: Result<Reply, WatchListError>)
    requires
        old(watchlists).wf(),
    ensures
        final(watchlists).wf(),
        run_done(*old(watchlists), cli.commands, r, *final(watchlists)),
{
    match &cli.commands {
        Commands::New { list } => cli_new(watchlists, list),
        Commands::Add { list, items, ignore_duplicate } => cli_add(
            watchlists,
            list,
            items,
            *ignore_duplicate,
        ),
        Commands::Show { list, all_items } => cli_show(watchlists, list, *all_items),
        Commands::Random { name } => cli_random(watchlists, name),
        Commands::Delete { list, prompt } => cli_delete(watchlists, list, prompt),
        Commands::Search { list, prompt } => cli_search(watchlists, list, prompt),
    }
}

} // verus!
