//! Cards made from plain words: the runs of Han characters of a text become
//! cards of one category, or of numbered batches of a category.

use crate::card::{views_of, Card, CardView};
use crate::store::{put_all, Store};
use crate::text::{chars_of, string_of};
use rand::seq::SliceRandom;
use regex::Regex;
use vstd::prelude::*;

verus! {

/// The matches of the regular expression `pattern` in `text`, one after the
/// other and without overlap, as the `regex` crate finds them; `None` where
/// the crate does not accept the pattern.
pub uninterp spec fn pattern_matches(pattern: Seq<char>, text: Seq<char>) -> Option<
    Seq<Seq<char>>,
>;

/// `Regex::new` followed by `Regex::find_iter`: the text of every match, in
/// order. What matches is the `regex` crate's matter; the contract gives it
/// the name [`pattern_matches`] and claims nothing else of it.
#[verifier::external_body]
fn find_matches(pattern: &str, text: &str) -> (found: Option<Vec<String>>)
    ensures
        match found {
            Some(matches) => pattern_matches(pattern@, text@) == Some(views_of(matches@)),
            None => pattern_matches(pattern@, text@) is None,
        },
{
    Regex::new(pattern).ok().map(|re| re.find_iter(text).map(|m| m.as_str().to_string()).collect())
}

/// The runs of Han characters of a text: the matches of one or more
/// characters of the script.
pub open spec fn chinese_runs(text: Seq<char>) -> Seq<Seq<char>> {
    match pattern_matches("[\\p{Han}]+"@, text) {
        Some(runs) => runs,
        None => Seq::empty(),
    }
}

/// The maximal runs of Han characters of `input`, in order.
pub fn extract_chinese_runs(input: &str) -> (runs: Vec<String>)
    ensures
        views_of(runs@) == chinese_runs(input@),
{
    match find_matches("[\\p{Han}]+", input) {
        Some(runs) => runs,
        None => {
            let runs: Vec<String> = Vec::new();
            runs
        },
    }
}

/// Whether a character is dropped from recognised text: a space, a double
/// quote or a line feed.
pub open spec fn is_noise(c: char) -> bool {
    c == ' ' || c == '"' || c == '\n'
}

/// A text without its noise.
pub open spec fn cleaned(text: Seq<char>) -> Seq<char>
    decreases text.len(),
{
    if text.len() == 0 {
        Seq::empty()
    } else if is_noise(text.last()) {
        cleaned(text.drop_last())
    } else {
        cleaned(text.drop_last()).push(text.last())
    }
}

/// The pages without their noise, one after the other.
pub open spec fn cleaned_pages(pages: Seq<Seq<char>>) -> Seq<char>
    decreases pages.len(),
{
    if pages.len() == 0 {
        Seq::empty()
    } else {
        cleaned_pages(pages.drop_last()) + cleaned(pages.last())
    }
}

/// Joins recognised pages into one text without spaces, double quotes and
/// line feeds.
pub fn clean_pages(pages: &Vec<String>) -> (text: String)
    ensures
        text@ == cleaned_pages(views_of(pages@)),
{
    let ghost views = views_of(pages@);
    let mut kept: Vec<char> = Vec::new();
    let mut i: usize = 0;
    while i < pages.len()
        invariant
            i <= pages.len(),
            views == views_of(pages@),
            kept@ == cleaned_pages(views.take(i as int)),
        decreases pages.len() - i,
    {
        let chars = chars_of(pages[i].as_str());
        let ghost before = kept@;
        let mut j: usize = 0;
        while j < chars.len()
            invariant
                j <= chars.len(),
                kept@ == before + cleaned(chars@.take(j as int)),
            decreases chars.len() - j,
        {
            let c = chars[j];
            proof {
                assert(chars@.take(j + 1).drop_last() =~= chars@.take(j as int));
            }
            if c != ' ' && c != '"' && c != '\n' {
                kept.push(c);
            }
            j += 1;
        }
        proof {
            assert(chars@.take(chars.len() as int) =~= chars@);
            assert(views.take(i + 1).drop_last() =~= views.take(i as int));
        }
        i += 1;
    }
    assert(views.take(pages.len() as int) =~= views);
    string_of(kept.as_slice())
}

/// The decimal digit of a number below ten.
pub open spec fn digit(d: nat) -> char {
    ((48 + d) as u8) as char
}

/// The decimal notation of a number.
pub open spec fn decimal(n: nat) -> Seq<char>
    decreases n,
{
    if n < 10 {
        seq![digit(n)]
    } else {
        decimal(n / 10).push(digit(n % 10))
    }
}

/// Writes the decimal notation of `n` behind `out`.
fn push_decimal(n: usize, out: &mut Vec<char>)
    ensures
        final(out)@ == old(out)@ + decimal(n as nat),
    decreases n,
{
    if n >= 10 {
        push_decimal(n / 10, out);
    }
    let d: u8 = (n % 10) as u8;
    out.push((48 + d) as char);
}

/// How many cards one batch holds.
pub const BATCH_SIZE: usize = 50;

/// The label of the batch of the word at place `at`: the category, a hyphen
/// and the number of the batch, counted from one.
pub open spec fn batch_label(category: Seq<char>, at: nat) -> Seq<char> {
    category + seq!['-'] + decimal(at / (BATCH_SIZE as nat) + 1)
}

/// The card of a word: the word as headword, one category, no
/// transcription.
pub open spec fn word_card(word: Seq<char>, category: Seq<char>) -> CardView {
    CardView { character: word, category: seq![category], pinyin: Seq::empty() }
}

/// The cards of words that share a category.
pub open spec fn word_cards(words: Seq<Seq<char>>, category: Seq<char>) -> Seq<CardView> {
    Seq::new(words.len(), |i: int| word_card(words[i], category))
}

/// The cards of words in batches: the word at place `i` is of the batch of
/// that place.
pub open spec fn batch_cards(words: Seq<Seq<char>>, category: Seq<char>) -> Seq<CardView> {
    Seq::new(words.len(), |i: int| word_card(words[i], batch_label(category, i as nat)))
}

/// The label of the batch of the word at place `at`.
pub fn batch_label_of(category: &str, at: usize) -> (label: String)
    ensures
        label@ == batch_label(category@, at as nat),
{
    let mut chars = chars_of(category);
    chars.push('-');
    push_decimal(at / BATCH_SIZE + 1, &mut chars);
    string_of(chars.as_slice())
}

/// Stores one card per word, in order, each with the category `category` and
/// no transcription. A word that is stored already gets the new card.
pub fn import_words(words: &Vec<String>, category: &str, db: &mut Store)
    ensures
        final(db).cards() == put_all(old(db).cards(), word_cards(views_of(words@), category@)),
{
    let ghost cards = word_cards(views_of(words@), category@);
    let mut i: usize = 0;
    while i < words.len()
        invariant
            i <= words.len(),
            cards == word_cards(views_of(words@), category@),
            db.cards() == put_all(old(db).cards(), cards.take(i as int)),
        decreases words.len() - i,
    {
        let card = Card::with_category(words[i].as_str(), category, "");
        proof {
            reveal_strlit("");
            assert(""@ =~= Seq::<char>::empty());
            assert(cards.take(i + 1).drop_last() =~= cards.take(i as int));
        }
        db.insert(card);
        i += 1;
    }
    assert(cards.take(words.len() as int) =~= cards);
}

/// Stores one card per word, in order, in batches of [`BATCH_SIZE`]: the
/// category of a card is the label of the batch of its place.
pub fn import_batches(words: &Vec<String>, category: &str, db: &mut Store)
    ensures
        final(db).cards() == put_all(old(db).cards(), batch_cards(views_of(words@), category@)),
{
    let ghost cards = batch_cards(views_of(words@), category@);
    let mut i: usize = 0;
    while i < words.len()
        invariant
            i <= words.len(),
            cards == batch_cards(views_of(words@), category@),
            db.cards() == put_all(old(db).cards(), cards.take(i as int)),
        decreases words.len() - i,
    {
        let label = batch_label_of(category, i);
        let card = Card::with_category(words[i].as_str(), label.as_str(), "");
        proof {
            reveal_strlit("");
            assert(""@ =~= Seq::<char>::empty());
            assert(cards.take(i + 1).drop_last() =~= cards.take(i as int));
        }
        db.insert(card);
        i += 1;
    }
    assert(cards.take(words.len() as int) =~= cards);
}

/// `SliceRandom::shuffle` with the generator of the thread: the words are
/// rearranged in place by swaps, so afterwards the same words stand there,
/// each as often as before. Nothing is claimed of their order, which is
/// random. The generator is seeded from the operating system when the
/// thread first uses it.
#[verifier::external_body]
fn shuffle(words: &mut Vec<String>)
    ensures
        views_of(final(words)@).to_multiset() == views_of(old(words)@).to_multiset(),
{
    words.shuffle(&mut rand::rng());
}

/// Imports the words of `text` under `category`: every run of Han
/// characters becomes a card, in the order of the text.
pub fn import_text(category: &str, text: &str, db: &mut Store)
    ensures
        final(db).cards() == put_all(
            old(db).cards(),
            word_cards(chinese_runs(text@), category@),
        ),
{
    let words = extract_chinese_runs(text);
    import_words(&words, category, db);
}

/// Imports the words of recognised pages in numbered batches of `category`:
/// the pages are cleaned and joined, the runs of Han characters of the
/// result are put in a random order, and the words are stored batch by
/// batch in that order.
pub fn import_png(category: &str, pages: &Vec<String>, db: &mut Store)
    ensures
        exists|order: Seq<Seq<char>>|
            order.to_multiset() == chinese_runs(cleaned_pages(views_of(pages@))).to_multiset()
                && final(db).cards() == put_all(
                old(db).cards(),
                #[trigger] batch_cards(order, category@),
            ),
{
    let text = clean_pages(pages);
    let mut words = extract_chinese_runs(text.as_str());
    shuffle(&mut words);
    import_batches(&words, category, db);
}

} // verus!
