use chinese_practice_tool::card::Card;
use chinese_practice_tool::error::DBErrorKind;
use chinese_practice_tool::records::{load_db, parse_records, record_line, Record};
use chinese_practice_tool::text::{chars_of, find_char, substring, trim_bounds};

fn record(key: &str, payload: &str) -> Record {
    Record { key: key.to_string(), payload: payload.to_string() }
}

fn card(character: &str, category: &str) -> Card {
    Card {
        character: character.to_string(),
        category: vec![category.to_string()],
        pinyin: String::new(),
    }
}

#[test]
fn empty_text_holds_no_record() {
    assert_eq!(parse_records(""), vec![]);
    assert_eq!(parse_records("\n\n"), vec![]);
}

#[test]
fn malformed_line_is_skipped() {
    let text = "garbage_no_equals_sign\nA={\"character\":\"A\",\"category\":[],\"pinyin\":\"\"}\n";
    assert_eq!(
        parse_records(text),
        vec![record("A", "{\"character\":\"A\",\"category\":[],\"pinyin\":\"\"}")]
    );
}

#[test]
fn line_is_split_at_first_sign() {
    assert_eq!(parse_records("a=b=c"), vec![record("a", "b=c")]);
    assert_eq!(parse_records("=x"), vec![record("", "x")]);
    assert_eq!(parse_records("x="), vec![record("x", "")]);
    assert_eq!(parse_records("="), vec![record("", "")]);
}

#[test]
fn key_and_payload_are_trimmed() {
    assert_eq!(parse_records("  水 \t=  {}  \n"), vec![record("水", "{}")]);
    assert_eq!(parse_records("\u{3000}水\u{3000}=\u{a0}{ }\u{2003}"), vec![record("水", "{ }")]);
    assert_eq!(parse_records("   =   "), vec![record("", "")]);
}

#[test]
fn lines_end_with_line_feed_or_carriage_return_and_line_feed() {
    assert_eq!(parse_records("a=1\r\nb=2\nc=3"), vec![record("a", "1"), record("b", "2"), record("c", "3")]);
    assert_eq!(parse_records("a=1\n\nb=2\n"), vec![record("a", "1"), record("b", "2")]);
    assert_eq!(parse_records("a=1\rb=2"), vec![record("a", "1\rb=2")]);
}

#[test]
fn record_line_frames_key_and_payload() {
    assert_eq!(record_line("水", "{\"x\":1}"), "水={\"x\":1}\n");
    assert_eq!(record_line("", ""), "=\n");
}

#[test]
fn written_records_are_read_back() {
    let records = vec![record("水", "{\"a\":\"b = c\"}"), record("", "{}"), record("散 步", "[1, 2]")];
    let mut text = String::new();
    for r in &records {
        text.push_str(&record_line(&r.key, &r.payload));
    }
    assert_eq!(parse_records(&text), records);
}

#[test]
fn key_with_sign_is_not_read_back() {
    let text = record_line("a=b", "{}");
    assert_eq!(parse_records(&text), vec![record("a", "b={}")]);
}

#[test]
fn load_of_nothing_is_the_empty_store() {
    let db = load_db(vec![]).unwrap();
    assert!(db.is_empty());
}

#[test]
fn load_stores_cards_in_order_and_later_replaces_earlier() {
    let db = load_db(vec![Ok(card("水", "a")), Ok(card("火", "b")), Ok(card("水", "c"))]).unwrap();
    assert_eq!(db.len(), 2);
    assert_eq!(db.card_at(0), &card("水", "c"));
    assert_eq!(db.card_at(1), &card("火", "b"));
}

#[test]
fn load_is_all_or_nothing() {
    let result = load_db(vec![
        Ok(card("水", "a")),
        Err("expected value at line 1 column 1".to_string()),
        Ok(card("火", "b")),
        Err("second".to_string()),
    ]);
    let error = result.err().unwrap();
    assert_eq!(error.kind, DBErrorKind::Serialization);
    assert_eq!(error.message(), "Serde error: expected value at line 1 column 1");
}

#[test]
fn text_helpers_work_on_character_positions() {
    let chars = chars_of(" 你=好 ");
    assert_eq!(chars, vec![' ', '你', '=', '好', ' ']);
    assert_eq!(find_char(&chars, 0, 5, '='), 2);
    assert_eq!(find_char(&chars, 3, 5, '='), 5);
    assert_eq!(find_char(&chars, 0, 2, '='), 2);
    assert_eq!(trim_bounds(&chars, 0, 5), (1, 4));
    assert_eq!(trim_bounds(&chars, 0, 1), (1, 1));
    assert_eq!(trim_bounds(&chars, 4, 5), (5, 5));
    assert_eq!(substring(&chars, 1, 4), "你=好");
    assert_eq!(substring(&chars, 2, 2), "");
}
