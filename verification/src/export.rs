//! The Pleco export: the flashcard document of a list of cards, as the
//! sequence of markup events that a writer turns into XML.

use crate::card::{Card, CardView};
use crate::category::{category_index, get_category_cards};
use crate::store::{card_views, Store};
use vstd::prelude::*;

verus! {

/// The mathematical value of an [`ExportAttribute`].
pub struct ExportAttributeView {
    pub name: Seq<char>,
    pub value: Seq<char>,
}

/// One attribute of an element of the document, its value not yet escaped.
#[derive(Debug, PartialEq, Eq)]
pub struct ExportAttribute {
    pub name: String,
    pub value: String,
}

impl View for ExportAttribute {
    type V = ExportAttributeView;

    open spec fn view(&self) -> ExportAttributeView {
        ExportAttributeView { name: self.name@, value: self.value@ }
    }
}

/// The views of a sequence of attributes, element by element.
pub open spec fn export_attribute_views(attributes: Seq<ExportAttribute>) -> Seq<
    ExportAttributeView,
> {
    Seq::new(attributes.len(), |i: int| attributes[i]@)
}

/// The mathematical value of an [`ExportEvent`].
pub enum ExportEventView {
    Declaration,
    Start(Seq<char>, Seq<ExportAttributeView>),
    Text(Seq<char>),
    End(Seq<char>),
    Empty(Seq<char>, Seq<ExportAttributeView>),
}

/// One piece of markup of the document.
#[derive(Debug, PartialEq, Eq)]
pub enum ExportEvent {
    /// The XML declaration: version 1.0, encoding UTF-8.
    Declaration,
    /// A start tag with its attributes.
    Start(String, Vec<ExportAttribute>),
    /// Character data, not yet escaped.
    Text(String),
    /// An end tag.
    End(String),
    /// A self-closing tag with its attributes.
    Empty(String, Vec<ExportAttribute>),
}

impl View for ExportEvent {
    type V = ExportEventView;

    open spec fn view(&self) -> ExportEventView {
        match self {
            ExportEvent::Declaration => ExportEventView::Declaration,
            ExportEvent::Start(name, attributes) => ExportEventView::Start(
                name@,
                export_attribute_views(attributes@),
            ),
            ExportEvent::Text(text) => ExportEventView::Text(text@),
            ExportEvent::End(name) => ExportEventView::End(name@),
            ExportEvent::Empty(name, attributes) => ExportEventView::Empty(
                name@,
                export_attribute_views(attributes@),
            ),
        }
    }
}

/// The views of a sequence of events, element by element.
pub open spec fn export_views(events: Seq<ExportEvent>) -> Seq<ExportEventView> {
    Seq::new(events.len(), |i: int| events[i]@)
}

/// An attribute, from its name and value.
pub open spec fn attribute(name: Seq<char>, value: Seq<char>) -> ExportAttributeView {
    ExportAttributeView { name, value }
}

/// The events that open the document: the declaration, the root element
/// with the marks of the exporter, and the list of cards.
pub open spec fn document_head() -> Seq<ExportEventView> {
    seq![
        ExportEventView::Declaration,
        ExportEventView::Start(
            "plecoflash"@,
            seq![
                attribute("formatversion"@, "2"@),
                attribute("creator"@, "Pleco User 19080708"@),
                attribute("generator"@, "Pleco 2.0 Flashcard Exporter"@),
                attribute("platform"@, "iPhone OS"@),
                attribute("created"@, "1757266198"@),
            ],
        ),
        ExportEventView::Start("cards"@, Seq::empty()),
    ]
}

/// The events that close the document.
pub open spec fn document_tail() -> Seq<ExportEventView> {
    seq![ExportEventView::End("cards"@), ExportEventView::End("plecoflash"@)]
}

/// The attributes of the category assignment of a card: its first category,
/// or none where it has no category.
pub open spec fn assignment(card: CardView) -> Seq<ExportAttributeView> {
    if card.category.len() > 0 {
        seq![attribute("category"@, card.category[0])]
    } else {
        Seq::empty()
    }
}

/// The events of one card, created and modified at the moment `created`:
/// the entry with the headword, then the category assignment.
pub open spec fn card_events(card: CardView, created: Seq<char>) -> Seq<ExportEventView> {
    seq![
        ExportEventView::Start(
            "card"@,
            seq![
                attribute("language"@, "chinese"@),
                attribute("created"@, created),
                attribute("modified"@, created),
            ],
        ),
        ExportEventView::Start("entry"@, Seq::empty()),
        ExportEventView::Start("headword"@, seq![attribute("charset"@, "sc"@)]),
        ExportEventView::Text(card.character),
        ExportEventView::End("headword"@),
        ExportEventView::End("entry"@),
        ExportEventView::Empty("catassign"@, assignment(card)),
        ExportEventView::End("card"@),
    ]
}

/// The events of the cards, one card after the other.
pub open spec fn cards_events(cards: Seq<CardView>, created: Seq<char>) -> Seq<ExportEventView>
    decreases cards.len(),
{
    if cards.len() == 0 {
        Seq::empty()
    } else {
        cards_events(cards.drop_last(), created) + card_events(cards.last(), created)
    }
}

/// The whole document of the cards.
pub open spec fn document(cards: Seq<CardView>, created: Seq<char>) -> Seq<ExportEventView> {
    document_head() + cards_events(cards, created) + document_tail()
}

/// An attribute, from its name and value.
fn attribute_of(name: &str, value: &str) -> (a: ExportAttribute)
    ensures
        a@ == attribute(name@, value@),
{
    ExportAttribute { name: name.to_owned(), value: value.to_owned() }
}

/// A start tag without attributes.
fn plain_start(name: &str) -> (event: ExportEvent)
    ensures
        event@ == ExportEventView::Start(name@, Seq::empty()),
{
    let event = ExportEvent::Start(name.to_owned(), Vec::new());
    assert(event@->Start_1 =~= Seq::empty());
    event
}

/// Appends the events of one card.
fn push_card(events: &mut Vec<ExportEvent>, card: &Card, created: &str)
    ensures
        export_views(final(events)@) == export_views(old(events)@) + card_events(card@, created@),
{
    let mut marks: Vec<ExportAttribute> = Vec::new();
    marks.push(attribute_of("language", "chinese"));
    marks.push(attribute_of("created", created));
    marks.push(attribute_of("modified", created));
    let mut charset: Vec<ExportAttribute> = Vec::new();
    charset.push(attribute_of("charset", "sc"));
    let mut category: Vec<ExportAttribute> = Vec::new();
    if card.category.len() > 0 {
        category.push(attribute_of("category", card.category[0].as_str()));
    }
    proof {
        assert(export_attribute_views(marks@) =~= seq![
            attribute("language"@, "chinese"@),
            attribute("created"@, created@),
            attribute("modified"@, created@),
        ]);
        assert(export_attribute_views(charset@) =~= seq![attribute("charset"@, "sc"@)]);
        assert(export_attribute_views(category@) =~= assignment(card@));
    }
    events.push(ExportEvent::Start("card".to_owned(), marks));
    events.push(plain_start("entry"));
    events.push(ExportEvent::Start("headword".to_owned(), charset));
    events.push(ExportEvent::Text(card.character.clone()));
    events.push(ExportEvent::End("headword".to_owned()));
    events.push(ExportEvent::End("entry".to_owned()));
    events.push(ExportEvent::Empty("catassign".to_owned(), category));
    events.push(ExportEvent::End("card".to_owned()));
}

/// The flashcard document of `cards`, each marked as created and modified
/// at the moment `created`. Only the first category of a card is exported,
/// and no transcription.
pub fn export_cards_to_pleco(cards: &Vec<Card>, created: &str) -> (events: Vec<ExportEvent>)
    ensures
        export_views(events@) == document(card_views(cards@), created@),
{
    let mut root: Vec<ExportAttribute> = Vec::new();
    root.push(attribute_of("formatversion", "2"));
    root.push(attribute_of("creator", "Pleco User 19080708"));
    root.push(attribute_of("generator", "Pleco 2.0 Flashcard Exporter"));
    root.push(attribute_of("platform", "iPhone OS"));
    root.push(attribute_of("created", "1757266198"));
    let mut events: Vec<ExportEvent> = Vec::new();
    events.push(ExportEvent::Declaration);
    events.push(ExportEvent::Start("plecoflash".to_owned(), root));
    events.push(plain_start("cards"));
    let ghost views = card_views(cards@);
    proof {
        assert(export_attribute_views(root@) =~= document_head()[1]->Start_1);
    }
    let mut i: usize = 0;
    while i < cards.len()
        invariant
            i <= cards.len(),
            views == card_views(cards@),
            export_views(events@) == document_head() + cards_events(views.take(i as int), created@),
        decreases cards.len() - i,
    {
        push_card(&mut events, &cards[i], created);
        proof {
            assert(views.take(i + 1).drop_last() =~= views.take(i as int));
        }
        i += 1;
    }
    events.push(ExportEvent::End("cards".to_owned()));
    events.push(ExportEvent::End("plecoflash".to_owned()));
    proof {
        assert(views.take(cards.len() as int) =~= views);
    }
    events
}

/// The flashcard document of the category `category` of the store, or
/// `None` where the store has no such category. The category is looked up
/// as it is given: the categories of the index are in lower case.
pub fn export_pleco(category: &str, db: &Store, created: &str) -> (events: Option<
    Vec<ExportEvent>,
>)
    ensures
        match events {
            Some(events) => category_index(db.cards()).contains_key(category@) && export_views(
                events@,
            ) == document(category_index(db.cards())[category@], created@),
            None => !category_index(db.cards()).contains_key(category@),
        },
{
    let index = get_category_cards(db);
    match index.get(category) {
        Some(cards) => Some(export_cards_to_pleco(cards, created)),
        None => None,
    }
}

} // verus!
