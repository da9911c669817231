//! The Pleco importer: a state machine over the events of a flashcard
//! document that rebuilds the cards and stores them.
//!
//! A document nests `card` / `entry` / `headword`, with `pron` beside
//! `headword` and a self-closing `catassign` that names the category. The
//! importer keeps one flag per element and three accumulators for the card
//! that is being read.

use crate::card::{Card, CardView};
use crate::error::{ImportError, ImportErrorKind};
use crate::store::{put, Store};
use crate::text::{decode_bytes, reads};
use crate::xml::{
    attribute_views, document_events, next_event, open_reader, pending_events, unescape_value,
    unescaped, AttributeView, XmlAttribute, XmlEvent, XmlEventView,
};
use vstd::prelude::*;
use vstd::utf8::{decode_utf8, valid_utf8};

verus! {

/// The mathematical value of a [`ParserContext`].
pub struct ContextView {
    pub in_card: bool,
    pub in_entry: bool,
    pub in_headword: bool,
    pub in_pron: bool,
    pub character: Seq<char>,
    pub category: Seq<char>,
    pub pinyin: Seq<char>,
}

/// Where the importer stands in the document, and what it has gathered of
/// the current card.
///
/// The flags are independent. In a well-nested document `in_entry` holds
/// only inside a card, and `in_headword` and `in_pron` only inside an entry;
/// the transitions do not rely on it.
#[derive(Debug, PartialEq, Eq)]
pub struct ParserContext {
    pub in_card: bool,
    pub in_entry: bool,
    pub in_headword: bool,
    pub in_pron: bool,
    pub character: String,
    pub category: String,
    pub pinyin: String,
}

impl View for ParserContext {
    type V = ContextView;

    open spec fn view(&self) -> ContextView {
        ContextView {
            in_card: self.in_card,
            in_entry: self.in_entry,
            in_headword: self.in_headword,
            in_pron: self.in_pron,
            character: self.character@,
            category: self.category@,
            pinyin: self.pinyin@,
        }
    }
}

/// What one event leads to.
pub enum Step {
    /// The importer goes on in `context`, after storing `stored` if any.
    Next { context: ContextView, stored: Option<CardView> },
    /// The document has ended.
    Done,
    /// The import fails.
    Fail,
}

/// What the importer does after an event.
#[derive(Debug, PartialEq, Eq)]
pub enum Progress {
    /// Nothing to store; read on.
    Continue,
    /// A card was closed: store it and read on.
    Completed(Card),
    /// The document has ended.
    Finished,
}

/// The context before the first event: outside every element, with empty
/// accumulators.
pub open spec fn initial_context() -> ContextView {
    ContextView {
        in_card: false,
        in_entry: false,
        in_headword: false,
        in_pron: false,
        character: Seq::empty(),
        category: Seq::empty(),
        pinyin: Seq::empty(),
    }
}

/// The context after a start tag named `name`.
pub open spec fn enter(ctx: ContextView, name: Seq<char>) -> ContextView {
    if name == "card"@ {
        ContextView { in_card: true, ..ctx }
    } else if name == "entry"@ && ctx.in_card {
        ContextView { in_entry: true, ..ctx }
    } else if name == "headword"@ && ctx.in_entry && ctx.in_card {
        ContextView { in_headword: true, ..ctx }
    } else if name == "pron"@ && ctx.in_entry && ctx.in_card {
        ContextView { in_pron: true, ..ctx }
    } else {
        ctx
    }
}

/// The context after an end tag named `name`, for a name other than `card`.
pub open spec fn leave(ctx: ContextView, name: Seq<char>) -> ContextView {
    if name == "entry"@ {
        ContextView { in_entry: false, ..ctx }
    } else if name == "headword"@ {
        ContextView { in_headword: false, ..ctx }
    } else if name == "pron"@ {
        ContextView { in_pron: false, ..ctx }
    } else {
        ctx
    }
}

/// The context after the end tag of a card: outside the card, with empty
/// accumulators; the other flags stay.
pub open spec fn close_card(ctx: ContextView) -> ContextView {
    ContextView {
        in_card: false,
        character: Seq::empty(),
        category: Seq::empty(),
        pinyin: Seq::empty(),
        ..ctx
    }
}

/// The card that the accumulators describe: its one category is the pending
/// one, empty or not.
pub open spec fn gathered_card(ctx: ContextView) -> CardView {
    CardView { character: ctx.character, category: seq![ctx.category], pinyin: ctx.pinyin }
}

/// The context after character data `text`: inside a headword the first text
/// becomes the headword, inside a pronunciation the first text becomes the
/// transcription.
pub open spec fn capture(ctx: ContextView, text: Seq<char>) -> ContextView {
    ContextView {
        character: if ctx.in_headword && ctx.character.len() == 0 {
            text
        } else {
            ctx.character
        },
        pinyin: if ctx.in_pron && ctx.pinyin.len() == 0 {
            text
        } else {
            ctx.pinyin
        },
        ..ctx
    }
}

/// Whether the bytes are the UTF-8 encoding of `label`.
pub open spec fn spells(name: Seq<u8>, label: Seq<char>) -> bool {
    valid_utf8(name) && decode_utf8(name) == label
}

/// The pending category after one attribute of a `catassign` element: a
/// well-formed attribute named `category` replaces it by its unescaped
/// value, or by nothing where the value cannot be unescaped.
pub open spec fn assign(category: Seq<char>, attribute: Option<AttributeView>) -> Seq<char> {
    match attribute {
        Some(a) => if spells(a.key, "category"@) {
            match unescaped(a.value) {
                Some(value) => value,
                None => Seq::empty(),
            }
        } else {
            category
        },
        None => category,
    }
}

/// The pending category after the attributes of a `catassign` element, taken
/// in document order.
pub open spec fn assign_all(category: Seq<char>, attributes: Seq<Option<AttributeView>>) -> Seq<
    char,
>
    decreases attributes.len(),
{
    if attributes.len() == 0 {
        category
    } else {
        assign(assign_all(category, attributes.drop_last()), attributes.last())
    }
}

/// Whether `text` begins with `prefix`.
pub open spec fn starts_with(text: Seq<char>, prefix: Seq<char>) -> bool {
    prefix.len() <= text.len() && text.subrange(0, prefix.len() as int) == prefix
}

/// The transition of the importer: what `event` leads to in `ctx`.
pub open spec fn step_of(ctx: ContextView, event: XmlEventView) -> Step {
    match event {
        XmlEventView::Start { name } => if valid_utf8(name) {
            Step::Next { context: enter(ctx, decode_utf8(name)), stored: None }
        } else {
            Step::Fail
        },
        XmlEventView::End { name } => if !valid_utf8(name) {
            Step::Fail
        } else if decode_utf8(name) == "card"@ {
            Step::Next { context: close_card(ctx), stored: Some(gathered_card(ctx)) }
        } else {
            Step::Next { context: leave(ctx, decode_utf8(name)), stored: None }
        },
        XmlEventView::Text { content } => if valid_utf8(content) {
            Step::Next { context: capture(ctx, decode_utf8(content)), stored: None }
        } else {
            Step::Fail
        },
        XmlEventView::Empty { name, attributes } => Step::Next {
            context: if spells(name, "catassign"@) {
                ContextView { category: assign_all(ctx.category, attributes), ..ctx }
            } else {
                ctx
            },
            stored: None,
        },
        XmlEventView::Other => Step::Next { context: ctx, stored: None },
        XmlEventView::Eof => Step::Done,
        XmlEventView::Failure { message } => Step::Fail,
    }
}

/// How a run of the importer over a sequence of events ends.
pub struct Outcome {
    /// The cards of the store afterwards.
    pub cards: Seq<CardView>,
    /// The context afterwards.
    pub context: ContextView,
    /// Whether the run reached the end of the document.
    pub finished: bool,
    /// Whether the run failed.
    pub failed: bool,
}

/// The run of the importer from `ctx` over `events`: each event is taken in
/// turn, a closed card is stored at once, and the run stops at the end of
/// the document, at the first failure, or when the events run out.
pub open spec fn run(ctx: ContextView, cards: Seq<CardView>, events: Seq<XmlEventView>) -> Outcome
    decreases events.len(),
{
    if events.len() == 0 {
        Outcome { cards, context: ctx, finished: false, failed: false }
    } else {
        match step_of(ctx, events[0]) {
            Step::Next { context, stored } => run(
                context,
                match stored {
                    Some(card) => put(cards, card),
                    None => cards,
                },
                events.drop_first(),
            ),
            Step::Done => Outcome { cards, context: ctx, finished: true, failed: false },
            Step::Fail => Outcome { cards, context: ctx, finished: false, failed: true },
        }
    }
}

/// Whether one of the attributes is well-formed and named `category`.
pub open spec fn names_category(attributes: Seq<Option<AttributeView>>) -> bool {
    exists|i: int|
        0 <= i < attributes.len() && (#[trigger] attributes[i] matches Some(a) && spells(
            a.key,
            "category"@,
        ))
}

/// A `catassign` element that names a category replaces the pending one
/// whatever it was: what the attributes leave pending does not depend on
/// what was pending before.
pub proof fn lemma_assignment_replaces(
    first: Seq<char>,
    second: Seq<char>,
    attributes: Seq<Option<AttributeView>>,
)
    requires
        names_category(attributes),
    ensures
        assign_all(first, attributes) == assign_all(second, attributes),
    decreases attributes.len(),
{
    let front = attributes.drop_last();
    let names = attributes.last() matches Some(a) && spells(a.key, "category"@);
    if !names {
        let i = choose|i: int|
            0 <= i < attributes.len() && (#[trigger] attributes[i] matches Some(a) && spells(
                a.key,
                "category"@,
            ));
        assert(front[i] == attributes[i]);
        lemma_assignment_replaces(first, second, front);
    }
}

/// The last assignment wins: of two `catassign` elements that follow one
/// another in a card, the second alone decides the pending category, if it
/// names one.
pub proof fn lemma_last_assignment_wins(
    ctx: ContextView,
    earlier: Seq<Option<AttributeView>>,
    later: Seq<Option<AttributeView>>,
    name: Seq<u8>,
)
    requires
        spells(name, "catassign"@),
        names_category(later),
    ensures
        step_of(
            step_of(ctx, XmlEventView::Empty { name, attributes: earlier })->context,
            XmlEventView::Empty { name, attributes: later },
        )->context.category == step_of(
            ctx,
            XmlEventView::Empty { name, attributes: later },
        )->context.category,
{
    lemma_assignment_replaces(assign_all(ctx.category, earlier), ctx.category, later);
}

/// The first text wins: inside a headword that has no text yet, character
/// data becomes the headword, and character data that follows in the same
/// headword changes nothing. The same holds of the transcription inside a
/// pronunciation.
pub proof fn lemma_first_text_wins(ctx: ContextView, first: Seq<u8>, second: Seq<u8>)
    requires
        valid_utf8(first),
        valid_utf8(second),
        first.len() > 0,
    ensures
        ctx.in_headword && ctx.character.len() == 0 ==> step_of(
            step_of(ctx, XmlEventView::Text { content: first })->context,
            XmlEventView::Text { content: second },
        )->context.character == decode_utf8(first),
        ctx.in_pron && ctx.pinyin.len() == 0 ==> step_of(
            step_of(ctx, XmlEventView::Text { content: first })->context,
            XmlEventView::Text { content: second },
        )->context.pinyin == decode_utf8(first),
{
}

/// Closing a card stores what was gathered and leaves nothing of it behind:
/// the next card starts with empty accumulators.
pub proof fn lemma_card_is_closed(ctx: ContextView, name: Seq<u8>)
    requires
        spells(name, "card"@),
    ensures
        step_of(ctx, XmlEventView::End { name }) == (Step::Next {
            context: close_card(ctx),
            stored: Some(gathered_card(ctx)),
        }),
        close_card(ctx).character.len() == 0,
        close_card(ctx).category.len() == 0,
        close_card(ctx).pinyin.len() == 0,
        !close_card(ctx).in_card,
{
}

impl ParserContext {
    /// The context before the first event.
    pub fn new() -> (ctx: ParserContext)
        ensures
            ctx@ == initial_context(),
    {
        ParserContext {
            in_card: false,
            in_entry: false,
            in_headword: false,
            in_pron: false,
            character: String::new(),
            category: String::new(),
            pinyin: String::new(),
        }
    }

    /// Applies the attributes of a `catassign` element to the pending
    /// category.
    fn assign_category(&mut self, attributes: &Vec<Option<XmlAttribute>>)
        ensures
            final(self)@ == (ContextView {
                category: assign_all(old(self)@.category, attribute_views(attributes@)),
                ..old(self)@
            }),
    {
        let ghost before = self@;
        let ghost views = attribute_views(attributes@);
        let mut i: usize = 0;
        while i < attributes.len()
            invariant
                i <= attributes.len(),
                views == attribute_views(attributes@),
                self@ == (ContextView {
                    category: assign_all(before.category, views.take(i as int)),
                    ..before
                }),
            decreases attributes.len() - i,
        {
            proof {
                assert(views.take(i + 1).drop_last() =~= views.take(i as int));
            }
            match &attributes[i] {
                Some(attribute) => {
                    let named = match decode_bytes(attribute.key.as_slice()) {
                        Ok(key) => reads(&key, "category"),
                        Err(_) => false,
                    };
                    if named {
                        self.category = match unescape_value(attribute.value.as_slice()) {
                            Some(value) => value,
                            None => String::new(),
                        };
                    }
                },
                None => {},
            }
            i += 1;
        }
        assert(views.take(attributes.len() as int) =~= views);
    }

    /// Takes one event: updates the context and says what to do next.
    ///
    /// A name or character data that is no UTF-8, and an error of the reader,
    /// fail the import and leave the context as it was.
    pub fn step(&mut self, event: &XmlEvent) -> (result: Result<Progress, ImportError>)
        ensures
            match step_of(old(self)@, event@) {
                Step::Next { context, stored } => final(self)@ == context && match stored {
                    Some(card) => result matches Ok(Progress::Completed(c)) && c@ == card,
                    None => result == Ok::<Progress, ImportError>(Progress::Continue),
                },
                Step::Done => final(self)@ == old(self)@ && result == Ok::<
                    Progress,
                    ImportError,
                >(Progress::Finished),
                Step::Fail => final(self)@ == old(self)@ && result is Err
                    && result->Err_0.kind == ImportErrorKind::Parse,
            },
            event@ matches XmlEventView::Failure { message } ==> result is Err
                && result->Err_0.message@ == message,
            (event@ is Start || event@ is End) && result is Err ==> starts_with(
                result->Err_0.message@,
                "From Utf8 error: "@,
            ),
            event@ is Text && result is Err ==> starts_with(
                result->Err_0.message@,
                "Encoding error: "@,
            ),
    {
        match event {
            XmlEvent::Start(name) => {
                match decode_bytes(name.as_slice()) {
                    Ok(name) => {
                        if reads(&name, "card") {
                            self.in_card = true;
                        } else if reads(&name, "entry") && self.in_card {
                            self.in_entry = true;
                        } else if reads(&name, "headword") && self.in_entry && self.in_card {
                            self.in_headword = true;
                        } else if reads(&name, "pron") && self.in_entry && self.in_card {
                            self.in_pron = true;
                        }
                        Ok(Progress::Continue)
                    },
                    Err(detail) => {
                        let error = ImportError::invalid_utf8(detail.as_str());
                        assert(error.message@.subrange(0, "From Utf8 error: "@.len() as int)
                            =~= "From Utf8 error: "@);
                        Err(error)
                    },
                }
            },
            XmlEvent::End(name) => {
                match decode_bytes(name.as_slice()) {
                    Ok(name) => {
                        if reads(&name, "card") {
                            let mut category: Vec<String> = Vec::new();
                            category.push(self.category.clone());
                            let card = Card {
                                character: self.character.clone(),
                                category,
                                pinyin: self.pinyin.clone(),
                            };
                            assert(card@.category =~= seq![self.category@]);
                            self.character = String::new();
                            self.category = String::new();
                            self.pinyin = String::new();
                            self.in_card = false;
                            Ok(Progress::Completed(card))
                        } else {
                            if reads(&name, "entry") {
                                self.in_entry = false;
                            } else if reads(&name, "headword") {
                                self.in_headword = false;
                            } else if reads(&name, "pron") {
                                self.in_pron = false;
                            }
                            Ok(Progress::Continue)
                        }
                    },
                    Err(detail) => {
                        let error = ImportError::invalid_utf8(detail.as_str());
                        assert(error.message@.subrange(0, "From Utf8 error: "@.len() as int)
                            =~= "From Utf8 error: "@);
                        Err(error)
                    },
                }
            },
            XmlEvent::Text(content) => {
                match decode_bytes(content.as_slice()) {
                    Ok(text) => {
                        if self.in_headword && self.character.as_str().is_empty() {
                            self.character = text.clone();
                        }
                        if self.in_pron && self.pinyin.as_str().is_empty() {
                            self.pinyin = text;
                        }
                        Ok(Progress::Continue)
                    },
                    Err(detail) => {
                        let error = ImportError::encoding(detail.as_str());
                        assert(error.message@.subrange(0, "Encoding error: "@.len() as int)
                            =~= "Encoding error: "@);
                        Err(error)
                    },
                }
            },
            XmlEvent::Empty(name, attributes) => {
                let assigns = match decode_bytes(name.as_slice()) {
                    Ok(name) => reads(&name, "catassign"),
                    Err(_) => false,
                };
                if assigns {
                    self.assign_category(attributes);
                }
                Ok(Progress::Continue)
            },
            XmlEvent::Other => Ok(Progress::Continue),
            XmlEvent::Eof => Ok(Progress::Finished),
            XmlEvent::Failure(message) => Err(ImportError::syntax(message.as_str())),
        }
    }
}

/// Imports the Pleco flashcard document `xml` into `db`: reads its events in
/// document order and stores each card as its `card` element closes.
///
/// The import succeeds when the reader reaches the end of the document,
/// closed or not. It fails at the first error of the reader and at the first
/// name or character data that is no UTF-8; the cards closed before that
/// point stay in the store. Nothing is saved: that is the caller's step.
pub fn import_pleco(xml: &str, db: &mut Store) -> (result: Result<(), ImportError>)
    ensures
        final(db).cards() == run(
            initial_context(),
            old(db).cards(),
            document_events(xml@),
        ).cards,
        result is Ok <==> run(initial_context(), old(db).cards(), document_events(xml@)).finished,
        result is Err ==> result->Err_0.kind == ImportErrorKind::Parse,
{
    let mut reader = open_reader(xml);
    let mut context = ParserContext::new();
    let ghost goal = run(initial_context(), db.cards(), document_events(xml@));
    loop
        invariant
            goal == run(context@, db.cards(), pending_events(reader)),
            goal == run(initial_context(), old(db).cards(), document_events(xml@)),
        decreases pending_events(reader).len(),
    {
        let event = next_event(&mut reader);
        match context.step(&event) {
            Ok(Progress::Continue) => {},
            Ok(Progress::Completed(card)) => {
                db.insert(card);
            },
            Ok(Progress::Finished) => {
                return Ok(());
            },
            Err(e) => {
                return Err(e);
            },
        }
    }
}

} // verus!
