//! The category index: for each category, the cards that carry it.
//!
//! Categories are merged without regard to case: a label is listed under
//! its lower-case form. The index is computed from the store on demand.

use crate::card::{Card, CardView};
use crate::store::{card_views, Store};
use vstd::prelude::*;

verus! {

/// The lower-case form of a label, as `str::to_lowercase` computes it.
pub uninterp spec fn lowercase(label: Seq<char>) -> Seq<char>;

/// `str::to_lowercase`: the standard library documents the result as the
/// lower-case equivalent of the string under the Unicode `Lowercase`
/// property; the contract gives it the name [`lowercase`] and claims nothing
/// else of it.
#[verifier::external_body]
pub(crate) fn to_lowercase(label: &str) -> (lower: String)
    ensures
        lower@ == lowercase(label@),
{
    label.to_lowercase()
}

/// How many of `labels` fold to the category `key`.
pub open spec fn count_under(labels: Seq<Seq<char>>, key: Seq<char>) -> nat
    decreases labels.len(),
{
    if labels.len() == 0 {
        0
    } else {
        count_under(labels.drop_last(), key) + if lowercase(labels.last()) == key {
            1nat
        } else {
            0nat
        }
    }
}

/// `card`, `times` times over.
pub open spec fn repeated(card: CardView, times: nat) -> Seq<CardView> {
    Seq::new(times, |i: int| card)
}

/// The list of the category `key`: the cards in their order, each once for
/// every one of its labels that folds to `key`.
pub open spec fn listed_under(cards: Seq<CardView>, key: Seq<char>) -> Seq<CardView>
    decreases cards.len(),
{
    if cards.len() == 0 {
        Seq::empty()
    } else {
        listed_under(cards.drop_last(), key) + repeated(
            cards.last(),
            count_under(cards.last().category, key),
        )
    }
}

/// The index in which each category stands with the list `lists` gives it,
/// unless that list is empty.
pub open spec fn index_with(lists: spec_fn(Seq<char>) -> Seq<CardView>) -> Map<
    Seq<char>,
    Seq<CardView>,
> {
    Map::new(|key: Seq<char>| lists(key).len() > 0, |key: Seq<char>| lists(key))
}

/// The category index of a sequence of cards.
pub open spec fn category_index(cards: Seq<CardView>) -> Map<Seq<char>, Seq<CardView>> {
    index_with(|key: Seq<char>| listed_under(cards, key))
}

/// The index after `card` was listed under `key`: at the end of the list of
/// `key`, which is new if `key` had none.
pub open spec fn add_under(
    index: Map<Seq<char>, Seq<CardView>>,
    key: Seq<char>,
    card: CardView,
) -> Map<Seq<char>, Seq<CardView>> {
    index.insert(
        key,
        if index.contains_key(key) {
            index[key].push(card)
        } else {
            seq![card]
        },
    )
}

/// Whether one of the labels of `card` folds to the category `key`.
pub open spec fn carries(card: CardView, key: Seq<char>) -> bool {
    exists|j: int| 0 <= j < card.category.len() && lowercase(#[trigger] card.category[j]) == key
}

/// Some label folds to `key` exactly when the count of such labels is not
/// zero.
pub proof fn lemma_count_under(labels: Seq<Seq<char>>, key: Seq<char>)
    ensures
        count_under(labels, key) > 0 <==> exists|j: int|
            0 <= j < labels.len() && lowercase(#[trigger] labels[j]) == key,
    decreases labels.len(),
{
    if labels.len() > 0 {
        let front = labels.drop_last();
        lemma_count_under(front, key);
        if exists|j: int| 0 <= j < labels.len() && lowercase(#[trigger] labels[j]) == key {
            let j = choose|j: int| 0 <= j < labels.len() && lowercase(#[trigger] labels[j]) == key;
            if j < front.len() {
                assert(lowercase(front[j]) == key);
            }
        }
    }
}

/// The list of a category holds exactly the cards that carry it.
pub proof fn lemma_listed_under(cards: Seq<CardView>, key: Seq<char>)
    ensures
        forall|card: CardView|
            listed_under(cards, key).contains(card) <==> cards.contains(card) && carries(
                card,
                key,
            ),
    decreases cards.len(),
{
    if cards.len() > 0 {
        let front = cards.drop_last();
        let last = cards.last();
        let copies = repeated(last, count_under(last.category, key));
        lemma_listed_under(front, key);
        lemma_count_under(last.category, key);
        assert forall|card: CardView|
            listed_under(cards, key).contains(card) <==> cards.contains(card) && carries(
                card,
                key,
            ) by {
            if listed_under(cards, key).contains(card) {
                let at = choose|at: int|
                    0 <= at < listed_under(cards, key).len() && listed_under(cards, key)[at]
                        == card;
                if at < listed_under(front, key).len() {
                    assert(front.contains(card));
                }
            }
            if cards.contains(card) && carries(card, key) {
                let i = choose|i: int| 0 <= i < cards.len() && cards[i] == card;
                if i < front.len() {
                    assert(front[i] == card);
                    let at = choose|at: int|
                        0 <= at < listed_under(front, key).len() && listed_under(front, key)[at]
                            == card;
                    assert(listed_under(cards, key)[at] == card);
                } else {
                    assert(listed_under(cards, key)[listed_under(front, key).len() as int]
                        == copies[0]);
                }
            }
        }
    }
}

/// Every card stands in the list of each of its categories, under the
/// lower-case form of its label.
pub proof fn lemma_card_is_listed(cards: Seq<CardView>, i: int, j: int)
    requires
        0 <= i < cards.len(),
        0 <= j < cards[i].category.len(),
    ensures
        category_index(cards).contains_key(lowercase(cards[i].category[j])),
        category_index(cards)[lowercase(cards[i].category[j])].contains(cards[i]),
{
    let key = lowercase(cards[i].category[j]);
    lemma_listed_under(cards, key);
    assert(carries(cards[i], key));
}

/// Labels that differ only in case name one category: two cards whose
/// labels have the same lower-case form stand in one list.
pub proof fn lemma_case_is_folded(cards: Seq<CardView>, i: int, j: int, k: int, l: int)
    requires
        0 <= i < cards.len(),
        0 <= j < cards[i].category.len(),
        0 <= k < cards.len(),
        0 <= l < cards[k].category.len(),
        lowercase(cards[i].category[j]) == lowercase(cards[k].category[l]),
    ensures
        category_index(cards)[lowercase(cards[i].category[j])].contains(cards[i]),
        category_index(cards)[lowercase(cards[i].category[j])].contains(cards[k]),
{
    lemma_card_is_listed(cards, i, j);
    lemma_card_is_listed(cards, k, l);
}

/// The index lists nothing else: a category of the index is carried by
/// every card of its list, and each of them is a card of the store.
pub proof fn lemma_listed_card_carries(cards: Seq<CardView>, key: Seq<char>, card: CardView)
    requires
        category_index(cards).contains_key(key),
        category_index(cards)[key].contains(card),
    ensures
        cards.contains(card),
        carries(card, key),
{
    lemma_listed_under(cards, key);
}

/// The mathematical value of a [`CategoryGroup`].
pub struct GroupView {
    pub category: Seq<char>,
    pub cards: Seq<CardView>,
}

/// One category with its cards.
#[derive(Debug, PartialEq, Eq)]
pub struct CategoryGroup {
    pub category: String,
    pub cards: Vec<Card>,
}

impl View for CategoryGroup {
    type V = GroupView;

    open spec fn view(&self) -> GroupView {
        GroupView { category: self.category@, cards: card_views(self.cards@) }
    }
}

/// The views of a sequence of groups, element by element.
pub open spec fn group_views(groups: Seq<CategoryGroup>) -> Seq<GroupView> {
    Seq::new(groups.len(), |i: int| groups[i]@)
}

/// Whether no two groups share a category.
pub open spec fn distinct_categories(groups: Seq<GroupView>) -> bool {
    forall|i: int, j: int| 0 <= i < j < groups.len() ==> groups[i].category != groups[j].category
}

/// Whether some group of the sequence has the category `key`.
pub open spec fn has_group(groups: Seq<GroupView>, key: Seq<char>) -> bool {
    exists|i: int| 0 <= i < groups.len() && #[trigger] groups[i].category == key
}

/// The mapping from category to list that a sequence of groups stands for.
pub open spec fn index_of_groups(groups: Seq<GroupView>) -> Map<Seq<char>, Seq<CardView>> {
    Map::new(
        |key: Seq<char>| has_group(groups, key),
        |key: Seq<char>|
            groups[choose|i: int| 0 <= i < groups.len() && #[trigger] groups[i].category == key].cards,
    )
}

/// A derived mapping from lower-case category to the cards that carry the
/// category, in the order of the store.
pub struct CategoryIndex {
    groups: Vec<CategoryGroup>,
}

impl View for CategoryIndex {
    type V = Map<Seq<char>, Seq<CardView>>;

    open spec fn view(&self) -> Map<Seq<char>, Seq<CardView>> {
        index_of_groups(self.groups())
    }
}

impl CategoryIndex {
    #[verifier::type_invariant]
    spec fn well_formed(self) -> bool {
        distinct_categories(group_views(self.groups@))
    }

    /// The groups of the index, in the order in which their categories
    /// first came up.
    pub closed spec fn groups(&self) -> Seq<GroupView> {
        group_views(self.groups@)
    }

    /// The empty index.
    pub fn new() -> (index: CategoryIndex)
        ensures
            index@ == Map::<Seq<char>, Seq<CardView>>::empty(),
            index.groups().len() == 0,
    {
        let index = CategoryIndex { groups: Vec::new() };
        index
    }

    /// The number of categories.
    pub fn len(&self) -> (n: usize)
        ensures
            n == self.groups().len(),
            distinct_categories(self.groups()),
    {
        proof {
            use_type_invariant(self);
        }
        self.groups.len()
    }

    /// The group at place `at`.
    pub fn group_at(&self, at: usize) -> (group: &CategoryGroup)
        requires
            at < self.groups().len(),
        ensures
            group@ == self.groups()[at as int],
            self@.contains_key(group@.category),
            self@[group@.category] == group@.cards,
    {
        proof {
            use_type_invariant(self);
            assert(self.groups()[at as int].category == self.groups@[at as int]@.category);
        }
        &self.groups[at]
    }

    /// The place of the group with category `key`.
    fn find(&self, key: &String) -> (found: Option<usize>)
        ensures
            match found {
                Some(at) => at < self.groups().len() && self.groups()[at as int].category == key@
                    && self@.contains_key(key@) && self@[key@] == self.groups()[at as int].cards,
                None => !self@.contains_key(key@),
            },
    {
        proof {
            use_type_invariant(self);
        }
        let mut at: usize = 0;
        while at < self.groups.len()
            invariant
                at <= self.groups.len(),
                distinct_categories(self.groups()),
                forall|j: int| 0 <= j < at ==> self.groups()[j].category != key@,
            decreases self.groups.len() - at,
        {
            if self.groups[at].category == *key {
                assert(self.groups()[at as int].category == key@);
                return Some(at);
            }
            at += 1;
        }
        None
    }

    /// Whether the index has the category `key`.
    pub fn contains_key(&self, key: &str) -> (b: bool)
        ensures
            b == self@.contains_key(key@),
    {
        self.find(&key.to_owned()).is_some()
    }

    /// The cards listed under the category `key`.
    pub fn get(&self, key: &str) -> (found: Option<&Vec<Card>>)
        ensures
            match found {
                Some(cards) => self@.contains_key(key@) && card_views(cards@) == self@[key@],
                None => !self@.contains_key(key@),
            },
    {
        match self.find(&key.to_owned()) {
            Some(at) => Some(&self.groups[at].cards),
            None => None,
        }
    }

    /// Lists `card` under the category `key`, after the cards that are
    /// listed there already.
    pub fn add(&mut self, key: String, card: Card)
        ensures
            final(self)@ == add_under(old(self)@, key@, card@),
    {
        proof {
            use_type_invariant(&*self);
        }
        let ghost before = self.groups();
        let found = self.find(&key);
        let mut groups: Vec<CategoryGroup> = Vec::new();
        core::mem::swap(&mut self.groups, &mut groups);
        match found {
            Some(at) => {
                let ghost earlier = groups@;
                groups[at].cards.push(card);
                assert(card_views(groups@[at as int].cards@) =~= card_views(
                    earlier[at as int].cards@,
                ).push(card@));
                assert(group_views(groups@) =~= before.update(
                    at as int,
                    GroupView { category: key@, cards: before[at as int].cards.push(card@) },
                ));
            },
            None => {
                let mut cards: Vec<Card> = Vec::new();
                cards.push(card);
                let group = CategoryGroup { category: key, cards };
                assert(group@.cards =~= seq![card@]);
                groups.push(group);
                assert(group_views(groups@) =~= before.push(
                    GroupView { category: key@, cards: seq![card@] },
                ));
            },
        }
        let ghost after = group_views(groups@);
        proof {
            assert forall|k: Seq<char>|
                index_of_groups(after).contains_key(k) <==> add_under(
                    index_of_groups(before),
                    key@,
                    card@,
                ).contains_key(k) by {
                if has_group(before, k) {
                    let i = choose|i: int|
                        0 <= i < before.len() && #[trigger] before[i].category == k;
                    assert(after[i].category == k);
                }
                if k == key@ {
                    if found is None {
                        assert(after[after.len() - 1].category == k);
                    }
                }
            }
        }
        self.groups = groups;
    }
}

/// The list of the category `key` while the index is being built: the cards
/// before the current one are listed in full, the current one for the
/// labels taken so far.
spec fn partial_list(
    cards: Seq<CardView>,
    card: CardView,
    labels: Seq<Seq<char>>,
    key: Seq<char>,
) -> Seq<CardView> {
    listed_under(cards, key) + repeated(card, count_under(labels, key))
}

/// Computes the category index of the store: every card is listed, in the
/// order of the store, under the lower-case form of each of its labels, once
/// per label. The cards keep their labels as they are.
pub fn get_category_cards(db: &Store) -> (index: CategoryIndex)
    ensures
        index@ == category_index(db.cards()),
{
    let mut index = CategoryIndex::new();
    let n = db.len();
    let mut i: usize = 0;
    while i < n
        invariant
            i <= n == db.cards().len(),
            index@ == category_index(db.cards().take(i as int)),
        decreases n - i,
    {
        let card = db.card_at(i);
        let ghost before = db.cards().take(i as int);
        let ghost labels = card@.category;
        let mut j: usize = 0;
        while j < card.category.len()
            invariant
                j <= card.category.len() == labels.len(),
                labels == card@.category,
                index@ == index_with(
                    |key: Seq<char>| partial_list(before, card@, labels.take(j as int), key),
                ),
            decreases card.category.len() - j,
        {
            let key = to_lowercase(card.category[j].as_str());
            index.add(key, card.clone());
            proof {
                assert(labels.take(j + 1).drop_last() =~= labels.take(j as int));
                assert forall|k: Seq<char>|
                    partial_list(before, card@, labels.take(j + 1), k) == if k == key@ {
                        partial_list(before, card@, labels.take(j as int), k).push(card@)
                    } else {
                        partial_list(before, card@, labels.take(j as int), k)
                    } by {
                }
                assert(partial_list(before, card@, labels.take(j as int), key@).len() == 0
                    ==> partial_list(before, card@, labels.take(j as int), key@).push(card@)
                    =~= seq![card@]);
            }
            j += 1;
        }
        proof {
            assert(labels.take(j as int) =~= labels);
            assert(db.cards().take(i + 1).drop_last() =~= before);
        }
        i += 1;
    }
    assert(db.cards().take(n as int) =~= db.cards());
    index
}

} // verus!
