//! The card model: one vocabulary entry and its mathematical view.

use vstd::prelude::*;

verus! {

/// The mathematical value of a [`Card`].
pub struct CardView {
    pub character: Seq<char>,
    pub category: Seq<Seq<char>>,
    pub pinyin: Seq<char>,
}

/// One vocabulary entry: the headword, its category labels in order, and its
/// phonetic transcription (empty when unknown).
#[derive(Debug, PartialEq, Eq)]
pub struct Card {
    pub character: String,
    pub category: Vec<String>,
    pub pinyin: String,
}

/// The views of a sequence of strings, element by element.
pub open spec fn views_of(labels: Seq<String>) -> Seq<Seq<char>> {
    Seq::new(labels.len(), |i: int| labels[i]@)
}

impl View for Card {
    type V = CardView;

    open spec fn view(&self) -> CardView {
        CardView {
            character: self.character@,
            category: views_of(self.category@),
            pinyin: self.pinyin@,
        }
    }
}

/// Copies a list of labels.
pub fn clone_labels(labels: &Vec<String>) -> (copy: Vec<String>)
    ensures
        views_of(copy@) == views_of(labels@),
{
    let mut copy: Vec<String> = Vec::new();
    let mut i: usize = 0;
    while i < labels.len()
        invariant
            i <= labels.len(),
            copy.len() == i,
            forall|j: int| 0 <= j < i ==> copy[j]@ == labels[j]@,
        decreases labels.len() - i,
    {
        copy.push(labels[i].clone());
        i += 1;
    }
    copy
}

impl Clone for Card {
    fn clone(&self) -> (copy: Card)
        ensures
            copy@ == self@,
    {
        Card {
            character: self.character.clone(),
            category: clone_labels(&self.category),
            pinyin: self.pinyin.clone(),
        }
    }
}

impl Card {
    /// Builds a card from borrowed text, with a single category label.
    pub fn with_category(character: &str, category: &str, pinyin: &str) -> (card: Card)
        ensures
            card@ == (CardView {
                character: character@,
                category: seq![category@],
                pinyin: pinyin@,
            }),
    {
        let mut labels: Vec<String> = Vec::new();
        labels.push(category.to_owned());
        let card = Card {
            character: character.to_owned(),
            category: labels,
            pinyin: pinyin.to_owned(),
        };
        assert(card@.category =~= seq![category@]);
        card
    }
}

} // verus!
