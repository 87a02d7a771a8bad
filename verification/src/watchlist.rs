//! The collection of watch lists and the operations on it.

use vstd::prelude::*;
use crate::error::WatchListError;
use crate::text::{item_matches, matches_lowered, to_lowercase, unicode_lower};

verus! {

/// One list: its title and its items, in the order in which they were added.
pub struct WatchListEntry {
    pub title: String,
    pub items: Vec<String>,
}

/// A collection of watch lists, each found by its title. No two lists share
/// a title.
pub struct WatchList {
    pub(crate) entries: Vec<WatchListEntry>,
}

/// The mathematical form of a collection: each title with its items, in
/// their order.
pub type Lists = Map<Seq<char>, Seq<Seq<char>>>;

/// The texts of a sequence of strings.
pub open spec fn texts(items: Seq<String>) -> Seq<Seq<char>> {
    Seq::new(items.len(), |i: int| items[i]@)
}

/// The texts of a sequence of borrowed strings.
pub open spec fn ref_texts(items: Seq<&String>) -> Seq<Seq<char>> {
    Seq::new(items.len(), |i: int| items[i]@)
}

/// Whether `i` is the lowest index at which `x` stands in `s`.
pub open spec fn is_first_position(s: Seq<Seq<char>>, x: Seq<char>, i: int) -> bool {
    &&& 0 <= i < s.len()
    &&& s[i] == x
    &&& forall|j: int| 0 <= j < i ==> s[j] != x
}

/// The lowest index at which `x` stands in `s`, where it occurs at all.
pub open spec fn first_position(s: Seq<Seq<char>>, x: Seq<char>) -> int {
    choose|i: int| is_first_position(s, x, i)
}

/// `s` without the first occurrence of `x`.
pub open spec fn without_first(s: Seq<Seq<char>>, x: Seq<char>) -> Seq<Seq<char>> {
    s.remove(first_position(s, x))
}

/// Whether an item may be appended to the list `t` of `m`: the list exists,
/// and the item is new to it unless duplicates are let in.
pub open spec fn accepts_item(
    m: Lists,
    t: Seq<char>,
    x: Seq<char>,
    add_duplicate: bool,
) -> bool {
    m.contains_key(t) && (add_duplicate || !m[t].contains(x))
}

/// `m` with `x` appended to its list `t`.
pub open spec fn with_item(m: Lists, t: Seq<char>, x: Seq<char>) -> Lists {
    m.insert(t, m[t].push(x))
}

/// `m` with the first occurrence of `x` taken out of its list `t`.
pub open spec fn without_item(m: Lists, t: Seq<char>, x: Seq<char>) -> Lists {
    m.insert(t, without_first(m[t], x))
}

/// `m` with an empty list under the title `t`.
pub open spec fn with_list(m: Lists, t: Seq<char>) -> Lists {
    m.insert(t, Seq::empty())
}

/// The test whether an item matches a lower-cased search term.
pub open spec fn matches_test(lowered: Seq<char>) -> spec_fn(Seq<char>) -> bool {
    |t: Seq<char>| matches_lowered(t, lowered)
}

/// The items of `s` that match a lower-cased search term, in their order.
pub open spec fn matching_lowered(s: Seq<Seq<char>>, lowered: Seq<char>) -> Seq<Seq<char>> {
    s.filter(matches_test(lowered))
}

/// The items of `s` that match a search term case-insensitively, in their
/// order.
pub open spec fn matching(s: Seq<Seq<char>>, term: Seq<char>) -> Seq<Seq<char>> {
    matching_lowered(s, unicode_lower(term))
}

/// The operations on a collection of watch lists.
pub trait WatchListFuncs: Sized {
    /// The collection is valid: no title occurs twice.
    spec fn wf(&self) -> bool;

    /// The titles, in the order in which `list_get_all` gives them.
    spec fn titles(&self) -> Seq<Seq<char>>;

    /// The collection as a mapping from each title to its items.
    spec fn lists(&self) -> Lists;

    /// Appends `item` to the list `title`. Unless `add_duplicate` is set, an
    /// item that the list holds already is refused.
    fn item_add(&mut self, title: &str, item: &str, add_duplicate: bool) -> (r: Result<
        (),
        WatchListError,
    >)
        requires
            old(self).wf(),
        ensures
            final(self).wf(),
            final(self).titles() == old(self).titles(),
            match r {
                Ok(_) => {
                    &&& accepts_item(old(self).lists(), title@, item@, add_duplicate)
                    &&& final(self).lists() == with_item(old(self).lists(), title@, item@)
                },
                Err(e) => {
                    &&& final(self).lists() == old(self).lists()
                    &&& !accepts_item(old(self).lists(), title@, item@, add_duplicate)
                    &&& if !old(self).lists().contains_key(title@) {
                        e.is_title_not_present(title@)
                    } else {
                        e.is_item_already_present(item@, title@)
                    }
                },
            },
    ;

    /// Removes the first occurrence of `item` from the list `title`.
    fn item_remove(&mut self, title: &str, item: &str) -> (r: Result<(), WatchListError>)
        requires
            old(self).wf(),
        ensures
            final(self).wf(),
            final(self).titles() == old(self).titles(),
            match r {
                Ok(_) => {
                    &&& old(self).lists().contains_key(title@)
                    &&& old(self).lists()[title@].contains(item@)
                    &&& final(self).lists() == without_item(old(self).lists(), title@, item@)
                },
                Err(e) => {
                    &&& final(self).lists() == old(self).lists()
                    &&& if !old(self).lists().contains_key(title@) {
                        e.is_title_not_present(title@)
                    } else {
                        &&& !old(self).lists()[title@].contains(item@)
                        &&& e.is_item_to_remove_not_present(item@)
                    }
                },
            },
    ;

    /// All items of the list `title`, in order; an empty list is an error.
    fn item_get_all(&self, title: &str) -> (r: Result<&Vec<String>, WatchListError>)
        requires
            self.wf(),
        ensures
            match r {
                Ok(items) => {
                    &&& self.lists().contains_key(title@)
                    &&& texts(items@) == self.lists()[title@]
                    &&& items@.len() > 0
                },
                Err(e) => if !self.lists().contains_key(title@) {
                    e.is_title_not_present(title@)
                } else {
                    &&& self.lists()[title@].len() == 0
                    &&& e.is_empty_list(title@)
                },
            },
    ;

    /// One item of the list `title`, picked at random.
    fn item_get_random(&self, title: &str) -> (r: Result<&String, WatchListError>)
        requires
            self.wf(),
        ensures
            match r {
                Ok(item) => {
                    &&& self.lists().contains_key(title@)
                    &&& self.lists()[title@].contains(item@)
                },
                Err(e) => if !self.lists().contains_key(title@) {
                    e.is_title_not_present(title@)
                } else {
                    &&& self.lists()[title@].len() == 0
                    &&& e.is_empty_list(title@)
                },
            },
    ;

    /// Creates an empty list under `title`.
    fn list_add(&mut self, title: &str) -> (r: Result<(), WatchListError>)
        requires
            old(self).wf(),
        ensures
            final(self).wf(),
            match r {
                Ok(_) => {
                    &&& !old(self).lists().contains_key(title@)
                    &&& final(self).lists() == with_list(old(self).lists(), title@)
                    &&& final(self).titles() == old(self).titles().push(title@)
                },
                Err(e) => {
                    &&& old(self).lists().contains_key(title@)
                    &&& e.is_title_already_present(title@)
                    &&& final(self).lists() == old(self).lists()
                    &&& final(self).titles() == old(self).titles()
                },
            },
    ;

    /// Deletes the list `title` with all its items.
    fn list_remove(&mut self, title: &str) -> (r: Result<(), WatchListError>)
        requires
            old(self).wf(),
        ensures
            final(self).wf(),
            match r {
                Ok(_) => {
                    &&& old(self).lists().contains_key(title@)
                    &&& final(self).lists() == old(self).lists().remove(title@)
                    &&& final(self).titles() == old(self).titles().remove(
                        old(self).titles().index_of(title@),
                    )
                },
                Err(e) => {
                    &&& !old(self).lists().contains_key(title@)
                    &&& e.is_title_not_present(title@)
                    &&& final(self).lists() == old(self).lists()
                    &&& final(self).titles() == old(self).titles()
                },
            },
    ;

    /// The titles of all lists; a collection without lists is an error.
    fn list_get_all(&self) -> (r: Result<Vec<&String>, WatchListError>)
        requires
            self.wf(),
        ensures
            match r {
                Ok(all) => ref_texts(all@) == self.titles() && all@.len() > 0,
                Err(e) => self.titles().len() == 0 && e == WatchListError::NoTitles,
            },
    ;

    /// The title of one list, picked at random, whether it holds items or not.
    fn list_get_random(&self) -> (r: Result<&String, WatchListError>)
        requires
            self.wf(),
        ensures
            match r {
                Ok(title) => self.lists().contains_key(title@),
                Err(e) => self.titles().len() == 0 && e == WatchListError::NoTitles,
            },
    ;

    /// The items of the list `title` that contain `search`, letter case
    /// ignored, in the list's order.
    fn list_search(&self, title: &str, search: &str) -> (r: Result<Vec<&String>, WatchListError>)
        requires
            self.wf(),
        ensures
            match r {
                Ok(found) => {
                    &&& self.lists().contains_key(title@)
                    &&& ref_texts(found@) == matching(self.lists()[title@], search@)
                },
                Err(e) => !self.lists().contains_key(title@) && e.is_title_not_present(title@),
            },
    ;
}


/// Calls `rand::seq::SliceRandom::choose` on the slice, with the thread's
/// generator. Trusted: an empty slice gives `None`; any other gives one of
/// its elements. Which one is left open.
#[verifier::external_body]
fn pick_random<T>(items: &Vec<T>) -> (r: Option<&T>)
    ensures
        r is None <==> items@.len() == 0,
        r is Some ==> exists|i: int| 0 <= i < items@.len() && #[trigger] items@[i] == *r.unwrap(),
{
    rand::seq::SliceRandom::choose(items.as_slice(), &mut rand::thread_rng())
}

/// What a random pick from the list `title` comes to: the picked item, or
/// the error of an empty list where nothing could be picked.
pub fn picked_or_empty<'a>(picked: Option<&'a String>, title: &str) -> (r: Result<
    &'a String,
    WatchListError,
>)
    ensures
        match picked {
            Some(item) => r == Ok::<&String, WatchListError>(item),
            None => r is Err && r->Err_0.is_empty_list(title@),
        },
{
    match picked {
        Some(item) => Ok(item),
        None => Err(WatchListError::EmptyList(title.to_owned())),
    }
}

/// The index of the first string in `items` whose text is that of `item`.
fn position_of(items: &Vec<String>, item: &String) -> (r: Option<usize>)
    ensures
        match r {
            Some(i) => is_first_position(texts(items@), item@, i as int),
            None => !texts(items@).contains(item@),
        },
{
    let mut i: usize = 0;
    while i < items.len()
        invariant
            i <= items@.len(),
            forall|j: int| 0 <= j < i ==> texts(items@)[j] != item@,
        decreases items@.len() - i,
    {
        if items[i] == *item {
            return Some(i);
        }
        i += 1;
    }
    None
}

/// An occurrence that is known to be the first is the one that
/// `first_position` names.
proof fn lemma_first_position(s: Seq<Seq<char>>, x: Seq<char>, i: int)
    requires
        is_first_position(s, x, i),
    ensures
        first_position(s, x) == i,
        s.contains(x),
{
    let k = first_position(s, x);
    assert(is_first_position(s, x, k));
    if k < i {
        assert(s[k] != x);
    }
    if i < k {
        assert(s[i] != x);
    }
}

impl WatchList {
    /// A collection without lists.
    pub fn new() -> (r: Self)
        ensures
            r.wf(),
            r.titles() == Seq::<Seq<char>>::empty(),
            r.lists() == Map::<Seq<char>, Seq<Seq<char>>>::empty(),
    {
        let r = WatchList { entries: Vec::new() };
        assert(r.titles() =~= Seq::<Seq<char>>::empty());
        assert(r.lists() =~= Map::<Seq<char>, Seq<Seq<char>>>::empty());
        r
    }

    /// The items of the list `title`, if there is such a list.
    pub fn get(&self, title: &str) -> (r: Option<&Vec<String>>)
        requires
            self.wf(),
        ensures
            match r {
                Some(items) => self.lists().contains_key(title@) && texts(items@)
                    == self.lists()[title@],
                None => !self.lists().contains_key(title@),
            },
    {
        let key = title.to_owned();
        match self.position(&key) {
            Some(i) => {
                proof {
                    self.lemma_lookup(i as int);
                }
                Some(&self.entries[i].items)
            },
            None => None,
        }
    }

    /// The items of the list `title` whose lower-case form contains
    /// `lowered`, a search term in lower case already; in the list's order.
    pub fn list_search_lowered(&self, title: &str, lowered: &str) -> (r: Result<
        Vec<&String>,
        WatchListError,
    >)
        requires
            self.wf(),
        ensures
            match r {
                Ok(found) => {
                    &&& self.lists().contains_key(title@)
                    &&& ref_texts(found@) == matching_lowered(self.lists()[title@], lowered@)
                },
                Err(e) => !self.lists().contains_key(title@) && e.is_title_not_present(title@),
            },
    {
        match self.get(title) {
            None => Err(WatchListError::TitleNotPresent(title.to_owned())),
            Some(items) => {
                let mut found: Vec<&String> = Vec::new();
                let mut i: usize = 0;
                let ghost all = texts(items@);
                let ghost pred = matches_test(lowered@);
                proof {
                    assert(all.take(0) =~= Seq::<Seq<char>>::empty());
                    reveal(Seq::filter);
                }
                while i < items.len()
                    invariant
                        i <= items@.len(),
                        all == texts(items@),
                        pred == matches_test(lowered@),
                        ref_texts(found@) == all.take(i as int).filter(pred),
                    decreases items@.len() - i,
                {
                    proof {
                        reveal(Seq::filter);
                        assert(all.take(i + 1).drop_last() =~= all.take(i as int));
                        assert(all.take(i + 1).last() == items@[i as int]@);
                    }
                    let ghost before = ref_texts(found@);
                    if item_matches(items[i].as_str(), lowered) {
                        found.push(&items[i]);
                        assert(ref_texts(found@) =~= before.push(items@[i as int]@));
                    }
                    i += 1;
                }
                assert(all.take(i as int) =~= all);
                Ok(found)
            },
        }
    }

    /// The titles are the keys of the mapping, each of them once: there is
    /// no list without a title, and no items outside a list.
    pub proof fn lemma_titles_are_keys(&self)
        requires
            self.wf(),
        ensures
            self.titles().no_duplicates(),
            forall|t: Seq<char>| self.lists().contains_key(t) <==> self.titles().contains(t),
    {
    }

    /// The index of the list `title` among the entries.
    fn position(&self, title: &String) -> (r: Option<usize>)
        requires
            self.wf(),
        ensures
            match r {
                Some(i) => i < self.entries@.len() && self.entries@[i as int].title@ == title@,
                None => !self.titles().contains(title@),
            },
            r is Some <==> self.lists().contains_key(title@),
    {
        let mut i: usize = 0;
        while i < self.entries.len()
            invariant
                i <= self.entries@.len(),
                forall|j: int| 0 <= j < i ==> self.titles()[j] != title@,
            decreases self.entries@.len() - i,
        {
            if self.entries[i].title == *title {
                assert(self.titles()[i as int] == title@);
                return Some(i);
            }
            i += 1;
        }
        None
    }

    /// Each entry is what the mapping holds under the entry's title.
    proof fn lemma_lookup(&self, i: int)
        requires
            self.wf(),
            0 <= i < self.entries@.len(),
        ensures
            self.titles()[i] == self.entries@[i].title@,
            self.titles().index_of(self.titles()[i]) == i,
            self.lists().contains_key(self.titles()[i]),
            self.lists()[self.titles()[i]] == texts(self.entries@[i].items@),
    {
        let t = self.titles()[i];
        assert(self.titles().contains(t));
        let k = self.titles().index_of(t);
        assert(0 <= k < self.titles().len() && self.titles()[k] == t);
    }
}

impl View for WatchList {
    type V = Lists;

    /// A collection is seen as the mapping from its titles to their items.
    open spec fn view(&self) -> Lists {
        self.lists()
    }
}

impl WatchListFuncs for WatchList {
    closed spec fn wf(&self) -> bool {
        self.titles().no_duplicates()
    }

    closed spec fn titles(&self) -> Seq<Seq<char>> {
        Seq::new(self.entries@.len(), |i: int| self.entries@[i].title@)
    }

    closed spec fn lists(&self) -> Lists {
        Map::new(
            |t: Seq<char>| self.titles().contains(t),
            |t: Seq<char>| texts(self.entries@[self.titles().index_of(t)].items@),
        )
    }

    fn item_add(&mut self, title: &str, item: &str, add_duplicate: bool) -> (r: Result<
        (),
        WatchListError,
    >) {
        let key = title.to_owned();
        match self.position(&key) {
            None => Err(WatchListError::TitleNotPresent(key)),
            Some(i) => {
                let text = item.to_owned();
                proof {
                    self.lemma_lookup(i as int);
                }
                if !add_duplicate {
                    if position_of(&self.entries[i].items, &text).is_some() {
                        return Err(WatchListError::ItemAlreadyPresent(text, key));
                    }
                }
                self.entries[i].items.push(text);
                proof {
                    assert(final(self).titles() =~= old(self).titles());
                    assert(texts(self.entries@[i as int].items@) =~= texts(
                        old(self).entries@[i as int].items@,
                    ).push(item@));
                    assert forall|t: Seq<char>| self.titles().contains(t) implies #[trigger] self.lists()[t]
                        == old(self).lists().insert(
                        title@,
                        old(self).lists()[title@].push(item@),
                    )[t] by {
                        let k = self.titles().index_of(t);
                        if k != i {
                            assert(self.entries@[k] == old(self).entries@[k]);
                        }
                    }
                    assert(self.lists() =~= old(self).lists().insert(
                        title@,
                        old(self).lists()[title@].push(item@),
                    ));
                }
                Ok(())
            },
        }
    }

    fn item_remove(&mut self, title: &str, item: &str) -> (r: Result<(), WatchListError>) {
        let key = title.to_owned();
        match self.position(&key) {
            None => Err(WatchListError::TitleNotPresent(key)),
            Some(i) => {
                let text = item.to_owned();
                proof {
                    self.lemma_lookup(i as int);
                }
                match position_of(&self.entries[i].items, &text) {
                    None => Err(WatchListError::ItemToRemoveNotPresent(text)),
                    Some(at) => {
                        proof {
                            lemma_first_position(texts(self.entries@[i as int].items@), item@, at as int);
                        }
                        self.entries[i].items.remove(at);
                        proof {
                            assert(self.titles() =~= old(self).titles());
                            assert(texts(self.entries@[i as int].items@) =~= texts(
                                old(self).entries@[i as int].items@,
                            ).remove(at as int));
                            assert forall|t: Seq<char>| self.titles().contains(t) implies #[trigger] self.lists()[t]
                                == old(self).lists().insert(
                                title@,
                                without_first(old(self).lists()[title@], item@),
                            )[t] by {
                                let k = self.titles().index_of(t);
                                if k != i {
                                    assert(self.entries@[k] == old(self).entries@[k]);
                                }
                            }
                            assert(self.lists() =~= old(self).lists().insert(
                                title@,
                                without_first(old(self).lists()[title@], item@),
                            ));
                        }
                        Ok(())
                    },
                }
            },
        }
    }

    fn item_get_all(&self, title: &str) -> (r: Result<&Vec<String>, WatchListError>) {
        match self.get(title) {
            None => Err(WatchListError::TitleNotPresent(title.to_owned())),
            Some(items) => {
                if items.len() == 0 {
                    return Err(WatchListError::EmptyList(title.to_owned()));
                }
                Ok(items)
            },
        }
    }

    fn item_get_random(&self, title: &str) -> (r: Result<&String, WatchListError>) {
        match self.get(title) {
            None => Err(WatchListError::TitleNotPresent(title.to_owned())),
            Some(items) => {
                let picked = pick_random(items);
                proof {
                    if picked is Some {
                        let i = choose|i: int|
                            0 <= i < items@.len() && #[trigger] items@[i] == *picked.unwrap();
                        assert(texts(items@)[i] == picked.unwrap()@);
                    }
                }
                picked_or_empty(picked, title)
            },
        }
    }

    fn list_add(&mut self, title: &str) -> (r: Result<(), WatchListError>) {
        let key = title.to_owned();
        match self.position(&key) {
            Some(_) => Err(WatchListError::TitleAlreadyPresent(key)),
            None => {
                self.entries.push(WatchListEntry { title: key, items: Vec::new() });
                proof {
                    let n = old(self).entries@.len() as int;
                    assert(self.titles() =~= old(self).titles().push(title@));
                    assert(texts(self.entries@[n].items@) =~= Seq::<Seq<char>>::empty());
                    assert forall|t: Seq<char>| self.titles().contains(t) implies #[trigger] self.lists()[t]
                        == old(self).lists().insert(title@, Seq::empty())[t] by {
                        let k = self.titles().index_of(t);
                        if k != n {
                            assert(old(self).titles()[k] == t);
                            old(self).lemma_lookup(k);
                        }
                    }
                    assert forall|t: Seq<char>| old(self).titles().contains(t) implies self.titles().contains(t) by {
                        let k = old(self).titles().index_of(t);
                        assert(self.titles()[k] == t);
                    }
                    assert(self.titles()[n] == title@);
                    assert(self.lists() =~= old(self).lists().insert(title@, Seq::empty()));
                }
                Ok(())
            },
        }
    }

    fn list_remove(&mut self, title: &str) -> (r: Result<(), WatchListError>) {
        let key = title.to_owned();
        match self.position(&key) {
            None => Err(WatchListError::TitleNotPresent(key)),
            Some(i) => {
                proof {
                    self.lemma_lookup(i as int);
                }
                let _ = self.entries.remove(i);
                proof {
                    assert(self.titles() =~= old(self).titles().remove(i as int));
                    assert forall|a: int, b: int|
                        0 <= a < self.titles().len() && 0 <= b < self.titles().len() && a != b implies self.titles()[a]
                        != self.titles()[b] by {
                        let oa = if a < i { a } else { a + 1 };
                        let ob = if b < i { b } else { b + 1 };
                        assert(old(self).titles()[oa] == self.titles()[a]);
                        assert(old(self).titles()[ob] == self.titles()[b]);
                    }
                    assert forall|t: Seq<char>| self.titles().contains(t) implies old(self).titles().contains(t)
                        && t != title@ && #[trigger] self.lists()[t] == old(self).lists()[t] by {
                        let k = self.titles().index_of(t);
                        let ok = if k < i { k } else { k + 1 };
                        assert(old(self).titles()[ok] == t);
                        old(self).lemma_lookup(ok);
                    }
                    assert forall|t: Seq<char>| old(self).titles().contains(t) && t != title@ implies self.titles().contains(t) by {
                        let k = old(self).titles().index_of(t);
                        let nk = if k < i { k } else { k - 1 };
                        assert(self.titles()[nk] == t);
                    }
                    assert(self.lists() =~= old(self).lists().remove(title@));
                }
                Ok(())
            },
        }
    }

    fn list_get_all(&self) -> (r: Result<Vec<&String>, WatchListError>) {
        let mut all: Vec<&String> = Vec::new();
        let mut i: usize = 0;
        while i < self.entries.len()
            invariant
                i <= self.entries@.len(),
                all@.len() == i,
                forall|j: int| 0 <= j < i ==> all@[j]@ == self.titles()[j],
            decreases self.entries@.len() - i,
        {
            all.push(&self.entries[i].title);
            i += 1;
        }
        if all.len() == 0 {
            return Err(WatchListError::NoTitles);
        }
        assert(ref_texts(all@) =~= self.titles());
        Ok(all)
    }

    fn list_get_random(&self) -> (r: Result<&String, WatchListError>) {
        match pick_random(&self.entries) {
            None => Err(WatchListError::NoTitles),
            Some(entry) => {
                proof {
                    let i = choose|i: int|
                        0 <= i < self.entries@.len() && #[trigger] self.entries@[i] == *entry;
                    self.lemma_lookup(i);
                }
                Ok(&entry.title)
            },
        }
    }

    fn list_search(&self, title: &str, search: &str) -> (r: Result<Vec<&String>, WatchListError>) {
        let lowered = to_lowercase(search);
        self.list_search_lowered(title, lowered.as_str())
    }
}

} // verus!
