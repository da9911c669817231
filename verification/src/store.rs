//! The store: the cards of the deck, keyed by their headword.

use crate::card::{Card, CardView};
use vstd::prelude::*;

verus! {

/// Whether no two cards of the sequence share a headword.
pub open spec fn distinct_keys(cards: Seq<CardView>) -> bool {
    forall|i: int, j: int| 0 <= i < j < cards.len() ==> cards[i].character != cards[j].character
}

/// The index of the first card with headword `key`, or the length of the
/// sequence where there is none.
pub open spec fn key_index(cards: Seq<CardView>, key: Seq<char>) -> nat
    decreases cards.len(),
{
    if cards.len() == 0 || cards[0].character == key {
        0
    } else {
        1 + key_index(cards.drop_first(), key)
    }
}

/// The sequence after `card` was stored: it takes the place of the card with
/// the same headword, or the last place where there is no such card.
pub open spec fn put(cards: Seq<CardView>, card: CardView) -> Seq<CardView> {
    let at = key_index(cards, card.character);
    if at < cards.len() {
        cards.update(at as int, card)
    } else {
        cards.push(card)
    }
}

/// The sequence after each of `added` was stored in turn.
pub open spec fn put_all(cards: Seq<CardView>, added: Seq<CardView>) -> Seq<CardView>
    decreases added.len(),
{
    if added.len() == 0 {
        cards
    } else {
        put(put_all(cards, added.drop_last()), added.last())
    }
}

/// The mapping from headword to card that a sequence of cards stands for; of
/// two cards with one headword the later counts.
pub open spec fn map_of(cards: Seq<CardView>) -> Map<Seq<char>, CardView>
    decreases cards.len(),
{
    if cards.len() == 0 {
        Map::empty()
    } else {
        map_of(cards.drop_last()).insert(cards.last().character, cards.last())
    }
}

/// The views of a sequence of cards, element by element.
pub open spec fn card_views(cards: Seq<Card>) -> Seq<CardView> {
    Seq::new(cards.len(), |i: int| cards[i]@)
}

/// [`key_index`] is within bounds, no card before it has the headword, and
/// the card there has it unless none has.
pub proof fn lemma_key_index(cards: Seq<CardView>, key: Seq<char>)
    ensures
        key_index(cards, key) <= cards.len(),
        forall|j: int| 0 <= j < key_index(cards, key) ==> cards[j].character != key,
        key_index(cards, key) < cards.len() ==> cards[key_index(cards, key) as int].character
            == key,
    decreases cards.len(),
{
    if cards.len() > 0 && cards[0].character != key {
        let rest = cards.drop_first();
        lemma_key_index(rest, key);
        assert forall|j: int| 0 <= j < key_index(cards, key) implies cards[j].character
            != key by {
            if j > 0 {
                assert(cards[j] == rest[j - 1]);
            }
        }
    }
}

/// An index that satisfies what [`lemma_key_index`] states is the key index.
pub proof fn lemma_key_index_is(cards: Seq<CardView>, key: Seq<char>, at: int)
    requires
        0 <= at <= cards.len(),
        forall|j: int| 0 <= j < at ==> cards[j].character != key,
        at < cards.len() ==> cards[at].character == key,
    ensures
        key_index(cards, key) == at,
    decreases cards.len(),
{
    if cards.len() > 0 && cards[0].character != key {
        let rest = cards.drop_first();
        lemma_key_index_is(rest, key, at - 1);
    }
}

/// What [`map_of`] holds: the headwords of the cards, each with the last
/// card that has it.
pub proof fn lemma_map_of(cards: Seq<CardView>)
    ensures
        forall|k: Seq<char>|
            map_of(cards).contains_key(k) <==> exists|i: int|
                0 <= i < cards.len() && #[trigger] cards[i].character == k,
        distinct_keys(cards) ==> forall|i: int|
            0 <= i < cards.len() ==> map_of(cards)[#[trigger] cards[i].character] == cards[i],
        map_of(cards).dom().finite(),
    decreases cards.len(),
{
    if cards.len() > 0 {
        let front = cards.drop_last();
        lemma_map_of(front);
        assert forall|k: Seq<char>|
            map_of(cards).contains_key(k) <==> exists|i: int|
                0 <= i < cards.len() && #[trigger] cards[i].character == k by {
            if exists|i: int| 0 <= i < cards.len() && #[trigger] cards[i].character == k {
                let i = choose|i: int| 0 <= i < cards.len() && #[trigger] cards[i].character == k;
                if i < front.len() {
                    assert(front[i].character == k);
                }
            }
        }
        if distinct_keys(cards) {
            assert forall|i: int| 0 <= i < cards.len() implies map_of(cards)[#[trigger] cards[i].character]
                == cards[i] by {
                if i < front.len() {
                    assert(front[i] == cards[i]);
                }
            }
        }
    }
}

/// Storing a card keeps the headwords distinct and, as a mapping, inserts the
/// card under its headword.
pub proof fn lemma_put(cards: Seq<CardView>, card: CardView)
    requires
        distinct_keys(cards),
    ensures
        distinct_keys(put(cards, card)),
        map_of(put(cards, card)) == map_of(cards).insert(card.character, card),
    decreases cards.len(),
{
    let key = card.character;
    let at = key_index(cards, key) as int;
    lemma_key_index(cards, key);
    if at < cards.len() {
        let after = cards.update(at, card);
        let front = cards.drop_last();
        if at == cards.len() - 1 {
            assert(after.drop_last() =~= front);
        } else {
            lemma_key_index_is(front, key, at);
            lemma_put(front, card);
            assert(after.drop_last() =~= put(front, card));
        }
    } else {
        let after = cards.push(card);
        assert(after.drop_last() =~= cards);
    }
}

/// Storing several cards in turn keeps the headwords distinct.
pub proof fn lemma_put_all(cards: Seq<CardView>, added: Seq<CardView>)
    requires
        distinct_keys(cards),
    ensures
        distinct_keys(put_all(cards, added)),
    decreases added.len(),
{
    if added.len() > 0 {
        lemma_put_all(cards, added.drop_last());
        lemma_put(put_all(cards, added.drop_last()), added.last());
    }
}

/// In the mapping that a sequence of cards stands for, every card stands
/// under its own headword.
pub proof fn lemma_key_is_character(cards: Seq<CardView>)
    ensures
        forall|k: Seq<char>|
            map_of(cards).contains_key(k) ==> (#[trigger] map_of(cards)[k]).character == k,
    decreases cards.len(),
{
    if cards.len() > 0 {
        let front = cards.drop_last();
        lemma_key_is_character(front);
        assert forall|k: Seq<char>| map_of(cards).contains_key(k) implies (#[trigger] map_of(
            cards,
        )[k]).character == k by {
            if k != cards.last().character {
                assert(map_of(cards)[k] == map_of(front)[k]);
            }
        }
    }
}

/// Storing cards with distinct headwords into the empty store, one after the
/// other, gives these cards in their order.
pub proof fn lemma_put_all_fresh(cards: Seq<CardView>)
    requires
        distinct_keys(cards),
    ensures
        put_all(Seq::empty(), cards) == cards,
    decreases cards.len(),
{
    if cards.len() > 0 {
        let front = cards.drop_last();
        lemma_put_all_fresh(front);
        lemma_key_index_is(front, cards.last().character, front.len() as int);
    }
}

/// The deck: cards with pairwise distinct headwords, in the order in which
/// their headwords were first stored.
pub struct Store {
    cards: Vec<Card>,
}

impl View for Store {
    type V = Map<Seq<char>, CardView>;

    /// The store as a mapping from headword to card.
    open spec fn view(&self) -> Map<Seq<char>, CardView> {
        map_of(self.cards())
    }
}

impl Store {
    #[verifier::type_invariant]
    spec fn well_formed(self) -> bool {
        distinct_keys(card_views(self.cards@))
    }

    /// The cards of the store in their order.
    pub closed spec fn cards(&self) -> Seq<CardView> {
        card_views(self.cards@)
    }

    /// The empty store.
    pub fn new() -> (store: Store)
        ensures
            store.cards() == Seq::<CardView>::empty(),
            store@ == Map::<Seq<char>, CardView>::empty(),
    {
        let store = Store { cards: Vec::new() };
        store
    }

    /// The number of cards.
    pub fn len(&self) -> (n: usize)
        ensures
            n == self.cards().len(),
            n == self@.len(),
            distinct_keys(self.cards()),
    {
        proof {
            use_type_invariant(self);
            lemma_map_len(self.cards());
        }
        self.cards.len()
    }

    /// Whether the store holds no card.
    pub fn is_empty(&self) -> (b: bool)
        ensures
            b == (self.cards().len() == 0),
    {
        self.cards.len() == 0
    }

    /// The card at place `at` of the store's order.
    pub fn card_at(&self, at: usize) -> (card: &Card)
        requires
            at < self.cards().len(),
        ensures
            card@ == self.cards()[at as int],
    {
        &self.cards[at]
    }

    /// The place of the card with headword `key`.
    pub fn index_of(&self, key: &str) -> (found: Option<usize>)
        ensures
            match found {
                Some(at) => at == key_index(self.cards(), key@) && at < self.cards().len(),
                None => key_index(self.cards(), key@) == self.cards().len(),
            },
    {
        let needle = key.to_owned();
        let mut at: usize = 0;
        while at < self.cards.len()
            invariant
                at <= self.cards.len(),
                needle@ == key@,
                forall|j: int| 0 <= j < at ==> self.cards()[j].character != key@,
            decreases self.cards.len() - at,
        {
            if self.cards[at].character == needle {
                proof {
                    lemma_key_index_is(self.cards(), key@, at as int);
                }
                return Some(at);
            }
            at += 1;
        }
        proof {
            lemma_key_index_is(self.cards(), key@, at as int);
        }
        None
    }

    /// Whether a card with headword `key` is stored.
    pub fn contains_key(&self, key: &str) -> (b: bool)
        ensures
            b == self@.contains_key(key@),
    {
        proof {
            lemma_key_index(self.cards(), key@);
            lemma_map_of(self.cards());
        }
        self.index_of(key).is_some()
    }

    /// The card with headword `key`.
    pub fn get(&self, key: &str) -> (found: Option<&Card>)
        ensures
            match found {
                Some(card) => self@.contains_key(key@) && card@ == self@[key@],
                None => !self@.contains_key(key@),
            },
    {
        proof {
            use_type_invariant(self);
            lemma_key_index(self.cards(), key@);
            lemma_map_of(self.cards());
        }
        match self.index_of(key) {
            Some(at) => Some(&self.cards[at]),
            None => None,
        }
    }

    /// Stores `card` under its headword, in place of the card that had the
    /// headword before.
    pub fn insert(&mut self, card: Card)
        ensures
            final(self).cards() == put(old(self).cards(), card@),
            final(self)@ == old(self)@.insert(card@.character, card@),
    {
        proof {
            use_type_invariant(&*self);
            lemma_put(self.cards(), card@);
            lemma_key_index(self.cards(), card@.character);
        }
        let ghost before = self.cards();
        let found = self.index_of(card.character.as_str());
        let mut cards: Vec<Card> = Vec::new();
        core::mem::swap(&mut self.cards, &mut cards);
        match found {
            Some(at) => {
                cards.set(at, card);
            },
            None => {
                cards.push(card);
            },
        }
        assert(card_views(cards@) =~= put(before, card@));
        self.cards = cards;
    }
}

/// A sequence of cards with distinct headwords stands for a mapping with as
/// many entries.
pub proof fn lemma_map_len(cards: Seq<CardView>)
    requires
        distinct_keys(cards),
    ensures
        map_of(cards).len() == cards.len(),
        map_of(cards).dom().finite(),
    decreases cards.len(),
{
    lemma_map_of(cards);
    if cards.len() > 0 {
        let front = cards.drop_last();
        lemma_map_len(front);
        lemma_map_of(front);
    }
}

} // verus!
