//! A personal deck of Chinese vocabulary cards.
//!
//! - [`card`]: the card model.
//! - [`store`]: the deck, which keys the cards by their headword.
//! - [`category`]: the category index derived from the deck.
//! - [`records`]: the line format of the store file, and the load.
//! - [`save`]: the crash-safe save as a state machine; [`disk`] models the
//!   file system and states what a save leaves on it.
//! - [`xml`] and [`import`]: the events of an XML document and the importer
//!   for Pleco flashcard files.
//! - [`export`]: the Pleco flashcard document of a list of cards.
//! - [`words`]: cards made from the Han words of plain or recognised text.
//! - [`prompts`]: the prompts put to the language model.
//! - [`text`] and [`error`]: text helpers and the error values.
//!
//! The library touches neither files nor the network: its callers read and
//! write, and hand over text. Every function is verified against its
//! contract. The few functions that reach into `quick_xml`, `regex`, `rand`
//! or into parts of `std` without a specification are marked
//! `external_body`; their contracts are assumptions, each documented in
//! place.

pub mod card;
pub mod category;
pub mod disk;
pub mod error;
pub mod export;
pub mod import;
pub mod prompts;
pub mod records;
pub mod save;
pub mod store;
pub mod text;
pub mod words;
pub mod xml;
