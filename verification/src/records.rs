//! The store file: one record per line, `key=payload`, where the key is the
//! headword of a card and the payload its encoded form.
//!
//! This module frames and unframes the lines. Turning a payload into a card
//! and back is left to the caller, which hands the decoded cards to
//! [`load_db`].

use crate::card::{Card, CardView};
use crate::error::{DBError, DBErrorKind};
use crate::store::{put_all, Store};
use crate::text::{
    chars_of, find_char, is_trimmed, lemma_position, lemma_position_is, position, substring,
    trim_bounds, trimmed,
};
use vstd::prelude::*;

verus! {

/// The mathematical value of a [`Record`].
pub struct RecordView {
    pub key: Seq<char>,
    pub payload: Seq<char>,
}

/// One line of the store file, taken apart.
#[derive(Debug, PartialEq, Eq)]
pub struct Record {
    pub key: String,
    pub payload: String,
}

impl View for Record {
    type V = RecordView;

    open spec fn view(&self) -> RecordView {
        RecordView { key: self.key@, payload: self.payload@ }
    }
}

/// The views of a sequence of records, element by element.
pub open spec fn record_views(records: Seq<Record>) -> Seq<RecordView> {
    Seq::new(records.len(), |i: int| records[i]@)
}

/// A line that a line feed ended, without the carriage return that may
/// stand before the line feed.
pub open spec fn strip_cr(line: Seq<char>) -> Seq<char> {
    if line.len() > 0 && line.last() == '\r' {
        line.drop_last()
    } else {
        line
    }
}

/// The lines of a text. A line ends with a line feed, or with a carriage
/// return and a line feed; neither belongs to the line. The last line needs
/// no line ending, and no empty line follows a final line ending.
pub open spec fn split_lines(text: Seq<char>) -> Seq<Seq<char>>
    decreases text.len(),
{
    if text.len() == 0 {
        Seq::empty()
    } else {
        let end = position(text, '\n');
        if end >= text.len() {
            seq![text]
        } else {
            seq![strip_cr(text.subrange(0, end as int))] + split_lines(
                text.subrange(end as int + 1, text.len() as int),
            )
        }
    }
}

/// The record of a line: what stands before the first `=` and what stands
/// after it, both trimmed. A line without `=` holds no record.
pub open spec fn record_of_line(line: Seq<char>) -> Option<RecordView> {
    let at = position(line, '=');
    if at < line.len() {
        Some(
            RecordView {
                key: trimmed(line.subrange(0, at as int)),
                payload: trimmed(line.subrange(at as int + 1, line.len() as int)),
            },
        )
    } else {
        None
    }
}

/// The records of a sequence of lines, in order; lines without a record are
/// passed over.
pub open spec fn records_of_lines(lines: Seq<Seq<char>>) -> Seq<RecordView>
    decreases lines.len(),
{
    if lines.len() == 0 {
        Seq::empty()
    } else {
        match record_of_line(lines[0]) {
            Some(record) => seq![record] + records_of_lines(lines.drop_first()),
            None => records_of_lines(lines.drop_first()),
        }
    }
}

/// The records of the text of a store file.
pub open spec fn records_of_text(text: Seq<char>) -> Seq<RecordView> {
    records_of_lines(split_lines(text))
}

/// The line that holds a record, with its line feed.
pub open spec fn line_of(record: RecordView) -> Seq<char> {
    record.key + seq!['='] + record.payload + seq!['\n']
}

/// The text of a store file that holds the records, one per line.
pub open spec fn text_of(records: Seq<RecordView>) -> Seq<char>
    decreases records.len(),
{
    if records.len() == 0 {
        Seq::empty()
    } else {
        line_of(records[0]) + text_of(records.drop_first())
    }
}

/// Whether a record survives a store file as it is: the key holds neither
/// `=` nor a line feed, the payload holds no line feed and does not end
/// with a carriage return, and neither starts or ends with white space.
pub open spec fn well_framed(record: RecordView) -> bool {
    &&& !record.key.contains('=')
    &&& !record.key.contains('\n')
    &&& !record.payload.contains('\n')
    &&& is_trimmed(record.key)
    &&& is_trimmed(record.payload)
    &&& record.payload.len() > 0 ==> record.payload.last() != '\r'
}

/// A line without `=` holds no record: it is passed over.
pub proof fn lemma_line_without_sign(line: Seq<char>)
    requires
        !line.contains('='),
    ensures
        record_of_line(line) is None,
{
    lemma_position(line, '=');
}

/// The records of lines that follow one another are the records of the
/// first lines followed by those of the others.
pub proof fn lemma_records_of_lines_concat(first: Seq<Seq<char>>, second: Seq<Seq<char>>)
    ensures
        records_of_lines(first + second) == records_of_lines(first) + records_of_lines(second),
    decreases first.len(),
{
    if first.len() == 0 {
        assert(records_of_lines(first) + records_of_lines(second) =~= records_of_lines(
            second,
        ));
    } else {
        assert((first + second).drop_first() =~= first.drop_first() + second);
        lemma_records_of_lines_concat(first.drop_first(), second);
    }
}

/// A line without `=` between other lines changes nothing in what a store
/// file holds.
pub proof fn lemma_malformed_line_is_skipped(
    before: Seq<Seq<char>>,
    line: Seq<char>,
    after: Seq<Seq<char>>,
)
    requires
        !line.contains('='),
    ensures
        records_of_lines(before + seq![line] + after) == records_of_lines(before + after),
{
    lemma_line_without_sign(line);
    lemma_records_of_lines_concat(before + seq![line], after);
    lemma_records_of_lines_concat(before, seq![line]);
    lemma_records_of_lines_concat(before, after);
    assert(seq![line].drop_first() =~= Seq::<Seq<char>>::empty());
    assert(records_of_lines(Seq::<Seq<char>>::empty()) =~= Seq::<RecordView>::empty());
}

/// Writing records out and reading the text back gives the same records,
/// provided each of them is well framed.
pub proof fn lemma_round_trip(records: Seq<RecordView>)
    requires
        forall|i: int| 0 <= i < records.len() ==> well_framed(#[trigger] records[i]),
    ensures
        records_of_text(text_of(records)) == records,
    decreases records.len(),
{
    if records.len() > 0 {
        let record = records[0];
        let rest = records.drop_first();
        let line = record.key + seq!['='] + record.payload;
        let tail = text_of(rest);
        let text = text_of(records);
        lemma_round_trip(rest);
        assert forall|j: int| 0 <= j < line.len() implies text[j] != '\n' by {
            if j < record.key.len() {
                assert(record.key[j] == text[j]);
            }
        }
        lemma_position_is(text, '\n', line.len() as int);
        assert(text.subrange(0, line.len() as int) =~= line);
        assert(text.subrange(line.len() as int + 1, text.len() as int) =~= tail);
        lemma_position_is(line, '=', record.key.len() as int);
        assert(line.subrange(0, record.key.len() as int) =~= record.key);
        assert(line.subrange(record.key.len() as int + 1, line.len() as int) =~= record.payload);
        assert((seq![line] + split_lines(tail)).drop_first() =~= split_lines(tail));
    }
}

/// Takes the text of a store file apart into its records.
pub fn parse_records(contents: &str) -> (records: Vec<Record>)
    ensures
        record_views(records@) == records_of_text(contents@),
{
    let chars = chars_of(contents);
    let n = chars.len();
    let mut records: Vec<Record> = Vec::new();
    let mut start: usize = 0;
    assert(chars@.subrange(0, n as int) =~= chars@);
    while start < n
        invariant
            start <= n == chars.len(),
            chars@ == contents@,
            record_views(records@) + records_of_text(chars@.subrange(start as int, n as int))
                == records_of_text(contents@),
        decreases n - start,
    {
        let ghost rest = chars@.subrange(start as int, n as int);
        let feed = find_char(&chars, start, n, '\n');
        let mut end = feed;
        if feed < n && end > start && chars[end - 1] == '\r' {
            end = end - 1;
        }
        let next = if feed < n {
            feed + 1
        } else {
            n
        };
        let ghost line = chars@.subrange(start as int, end as int);
        let ghost after = chars@.subrange(next as int, n as int);
        proof {
            if feed < n {
                let raw = rest.subrange(0, feed - start);
                assert(strip_cr(raw) =~= line);
                assert(rest.subrange(feed - start + 1, rest.len() as int) =~= after);
            }
            assert((seq![line] + split_lines(after)).drop_first() =~= split_lines(after));
        }
        let sign = find_char(&chars, start, end, '=');
        if sign < end {
            let (key_from, key_to) = trim_bounds(&chars, start, sign);
            let (payload_from, payload_to) = trim_bounds(&chars, sign + 1, end);
            let record = Record {
                key: substring(&chars, key_from, key_to),
                payload: substring(&chars, payload_from, payload_to),
            };
            proof {
                assert(line.subrange(0, sign - start) =~= chars@.subrange(
                    start as int,
                    sign as int,
                ));
                assert(line.subrange(sign - start + 1, line.len() as int) =~= chars@.subrange(
                    sign + 1,
                    end as int,
                ));
            }
            records.push(record);
        }
        start = next;
    }
    records
}

/// The line of the store file that holds `payload` under `key`.
pub fn record_line(key: &str, payload: &str) -> (line: String)
    ensures
        line@ == line_of(RecordView { key: key@, payload: payload@ }),
{
    proof {
        reveal_strlit("=");
        reveal_strlit("\n");
    }
    let mut line = String::from_str(key);
    line.append("=");
    line.append(payload);
    line.append("\n");
    line
}

/// The cards of decoded payloads that all succeeded.
pub open spec fn decoded_cards(decoded: Seq<Result<Card, String>>) -> Seq<CardView> {
    Seq::new(decoded.len(), |i: int| decoded[i]->Ok_0@)
}

/// Builds the store from the decoded payloads of a store file, taken in the
/// order of the file.
///
/// The load is all or nothing: the first payload that failed to decode fails
/// the load with its description. Otherwise every card is stored under its
/// headword, a later card replacing an earlier one with the same headword.
pub fn load_db(decoded: Vec<Result<Card, String>>) -> (result: Result<Store, DBError>)
    ensures
        result is Ok <==> forall|i: int| 0 <= i < decoded.len() ==> decoded[i] is Ok,
        result matches Ok(store) ==> store.cards() == put_all(
            Seq::empty(),
            decoded_cards(decoded@),
        ),
        result matches Err(e) ==> e.kind == DBErrorKind::Serialization && exists|i: int|
            0 <= i < decoded.len() && (#[trigger] decoded[i] matches Err(detail)
                && e.message@ == "Serde error: "@ + detail@) && forall|j: int|
                0 <= j < i ==> decoded[j] is Ok,
{
    let mut store = Store::new();
    let ghost cards = decoded_cards(decoded@);
    for item in it: decoded
        invariant
            cards == decoded_cards(decoded@),
            it.seq() == decoded@,
            forall|j: int| 0 <= j < it.index() ==> decoded[j] is Ok,
            store.cards() == put_all(Seq::empty(), cards.take(it.index() as int)),
    {
        let ghost at = it.index() as int;
        match item {
            Ok(card) => {
                proof {
                    assert(cards.take(at + 1).drop_last() =~= cards.take(at));
                }
                store.insert(card);
            },
            Err(detail) => {
                return Err(DBError::serialization(detail.as_str()));
            },
        }
    }
    assert(cards.take(decoded.len() as int) =~= cards);
    Ok(store)
}

} // verus!
