use chinese_practice_tool::card::Card;
use chinese_practice_tool::error::ImportErrorKind;
use chinese_practice_tool::import::{import_pleco, ParserContext, Progress};
use chinese_practice_tool::store::Store;
use chinese_practice_tool::xml::{XmlAttribute, XmlEvent};

fn card(character: &str, category: &str, pinyin: &str) -> Card {
    Card {
        character: character.to_string(),
        category: vec![category.to_string()],
        pinyin: pinyin.to_string(),
    }
}

fn start(name: &str) -> XmlEvent {
    XmlEvent::Start(name.as_bytes().to_vec())
}

fn end(name: &str) -> XmlEvent {
    XmlEvent::End(name.as_bytes().to_vec())
}

fn text(content: &str) -> XmlEvent {
    XmlEvent::Text(content.as_bytes().to_vec())
}

fn catassign(value: &str) -> XmlEvent {
    XmlEvent::Empty(
        b"catassign".to_vec(),
        vec![Some(XmlAttribute { key: b"category".to_vec(), value: value.as_bytes().to_vec() })],
    )
}

#[test]
fn nesting_example_yields_one_card() {
    let xml = "<cards><card><entry><headword charset=\"sc\">你好</headword></entry><catassign category=\"greeting\"/></card></cards>";
    let mut db = Store::new();
    assert!(import_pleco(xml, &mut db).is_ok());
    assert_eq!(db.len(), 1);
    assert_eq!(db.get("你好"), Some(&card("你好", "greeting", "")));
}

#[test]
fn last_catassign_wins() {
    let xml = "<card><entry><headword>水</headword></entry><catassign category=\"first\"/><catassign category=\"second\"/></card>";
    let mut db = Store::new();
    assert!(import_pleco(xml, &mut db).is_ok());
    assert_eq!(db.get("水"), Some(&card("水", "second", "")));
}

#[test]
fn first_headword_text_wins() {
    let xml = "<card><entry><headword>你<!-- note -->好</headword></entry></card>";
    let mut db = Store::new();
    assert!(import_pleco(xml, &mut db).is_ok());
    assert_eq!(db.len(), 1);
    assert_eq!(db.get("你"), Some(&card("你", "", "")));
}

#[test]
fn first_pron_text_wins() {
    let xml = "<card><entry><headword>好</headword><pron>hao3<!-- x -->hao4</pron></entry></card>";
    let mut db = Store::new();
    assert!(import_pleco(xml, &mut db).is_ok());
    assert_eq!(db.get("好"), Some(&card("好", "", "hao3")));
}

#[test]
fn full_pleco_document() {
    let xml = "<?xml version=\"1.0\" encoding=\"UTF-8\"?>\n<plecoflash formatversion=\"2\"><cards>\
<card language=\"chinese\"><entry><headword charset=\"sc\">散步</headword><pron type=\"hypy\">san4bu4</pron></entry><catassign category=\"Verbs\"/></card>\
<card language=\"chinese\"><entry><headword charset=\"sc\">放松</headword></entry><catassign category=\"Verbs\"/></card>\
</cards></plecoflash>";
    let mut db = Store::new();
    assert!(import_pleco(xml, &mut db).is_ok());
    assert_eq!(db.len(), 2);
    assert_eq!(db.card_at(0), &card("散步", "Verbs", "san4bu4"));
    assert_eq!(db.card_at(1), &card("放松", "Verbs", ""));
}

#[test]
fn card_without_catassign_has_one_empty_category() {
    let xml = "<card><entry><headword>茶</headword></entry></card>";
    let mut db = Store::new();
    assert!(import_pleco(xml, &mut db).is_ok());
    assert_eq!(db.get("茶").unwrap().category, vec![String::new()]);
}

#[test]
fn accumulators_are_cleared_between_cards() {
    let xml = "<card><entry><headword>一</headword><pron>yi1</pron></entry><catassign category=\"n\"/></card>\
<card><entry><headword>二</headword></entry></card>";
    let mut db = Store::new();
    assert!(import_pleco(xml, &mut db).is_ok());
    assert_eq!(db.get("二"), Some(&card("二", "", "")));
}

#[test]
fn import_overwrites_card_with_same_character() {
    let mut db = Store::new();
    db.insert(card("水", "old", "shui3"));
    let xml = "<card><entry><headword>水</headword></entry><catassign category=\"new\"/></card>";
    assert!(import_pleco(xml, &mut db).is_ok());
    assert_eq!(db.len(), 1);
    assert_eq!(db.get("水"), Some(&card("水", "new", "")));
}

#[test]
fn headword_outside_entry_is_ignored() {
    let xml = "<card><headword>水</headword></card>";
    let mut db = Store::new();
    assert!(import_pleco(xml, &mut db).is_ok());
    assert_eq!(db.len(), 1);
    assert_eq!(db.get(""), Some(&card("", "", "")));
}

#[test]
fn entry_outside_card_is_ignored() {
    let xml = "<entry><headword>水</headword></entry>";
    let mut db = Store::new();
    assert!(import_pleco(xml, &mut db).is_ok());
    assert!(db.is_empty());
}

#[test]
fn unclosed_card_is_not_stored() {
    let xml = "<cards><card><entry><headword>水</headword></entry>";
    let mut db = Store::new();
    assert!(import_pleco(xml, &mut db).is_ok());
    assert!(db.is_empty());
}

#[test]
fn empty_document_imports_nothing() {
    let mut db = Store::new();
    assert!(import_pleco("", &mut db).is_ok());
    assert!(db.is_empty());
}

#[test]
fn syntax_error_fails_and_keeps_closed_cards() {
    let xml = "<cards><card><entry><headword>水</headword></entry></card><card><entry></wrong></card></cards>";
    let mut db = Store::new();
    let result = import_pleco(xml, &mut db);
    let error = result.unwrap_err();
    assert_eq!(error.kind, ImportErrorKind::Parse);
    assert!(!error.message().is_empty());
    assert_eq!(db.len(), 1);
    assert_eq!(db.get("水"), Some(&card("水", "", "")));
}

#[test]
fn unclosed_tag_fails() {
    let mut db = Store::new();
    let error = import_pleco("<cards><card", &mut db).unwrap_err();
    assert_eq!(error.kind, ImportErrorKind::Parse);
}

#[test]
fn attribute_value_is_unescaped() {
    let xml = "<card><entry><headword>和</headword></entry><catassign category=\"a &amp; b\"/></card>";
    let mut db = Store::new();
    assert!(import_pleco(xml, &mut db).is_ok());
    assert_eq!(db.get("和").unwrap().category, vec!["a & b".to_string()]);
}

#[test]
fn attribute_that_cannot_be_unescaped_clears_category() {
    let xml = "<card><entry><headword>和</headword></entry><catassign category=\"x\"/><catassign category=\"&bogus;\"/></card>";
    let mut db = Store::new();
    assert!(import_pleco(xml, &mut db).is_ok());
    assert_eq!(db.get("和").unwrap().category, vec![String::new()]);
}

#[test]
fn repeated_attribute_keeps_first_value() {
    let xml = "<card><entry><headword>和</headword></entry><catassign category=\"a\" category=\"b\"/></card>";
    let mut db = Store::new();
    assert!(import_pleco(xml, &mut db).is_ok());
    assert_eq!(db.get("和").unwrap().category, vec!["a".to_string()]);
}

#[test]
fn catassign_with_end_tag_is_not_an_assignment() {
    let xml = "<card><entry><headword>和</headword></entry><catassign category=\"a\"></catassign></card>";
    let mut db = Store::new();
    assert!(import_pleco(xml, &mut db).is_ok());
    assert_eq!(db.get("和").unwrap().category, vec![String::new()]);
}

#[test]
fn headword_text_is_kept_escaped() {
    let xml = "<card><entry><headword>&lt;</headword></entry></card>";
    let mut db = Store::new();
    assert!(import_pleco(xml, &mut db).is_ok());
    assert_eq!(db.len(), 1);
    assert_eq!(db.get(""), Some(&card("", "", "")));
}

#[test]
fn step_enters_and_leaves_elements() {
    let mut ctx = ParserContext::new();
    assert_eq!(ctx.step(&start("entry")).unwrap(), Progress::Continue);
    assert!(!ctx.in_entry);
    ctx.step(&start("card")).unwrap();
    assert!(ctx.in_card);
    ctx.step(&start("headword")).unwrap();
    assert!(!ctx.in_headword);
    ctx.step(&start("pron")).unwrap();
    assert!(!ctx.in_pron);
    ctx.step(&start("entry")).unwrap();
    assert!(ctx.in_entry);
    ctx.step(&start("headword")).unwrap();
    assert!(ctx.in_headword);
    ctx.step(&start("pron")).unwrap();
    assert!(ctx.in_pron);
    ctx.step(&end("headword")).unwrap();
    assert!(!ctx.in_headword && ctx.in_pron && ctx.in_entry && ctx.in_card);
    ctx.step(&end("pron")).unwrap();
    assert!(!ctx.in_pron);
    ctx.step(&end("entry")).unwrap();
    assert!(!ctx.in_entry && ctx.in_card);
}

#[test]
fn step_closes_card_and_clears_accumulators() {
    let mut ctx = ParserContext::new();
    ctx.step(&start("card")).unwrap();
    ctx.step(&start("entry")).unwrap();
    ctx.step(&start("headword")).unwrap();
    ctx.step(&text("你好")).unwrap();
    ctx.step(&text("再见")).unwrap();
    ctx.step(&end("headword")).unwrap();
    ctx.step(&start("pron")).unwrap();
    ctx.step(&text("ni3hao3")).unwrap();
    ctx.step(&end("pron")).unwrap();
    ctx.step(&catassign("greeting")).unwrap();
    assert_eq!(ctx.category, "greeting");
    let progress = ctx.step(&end("card")).unwrap();
    assert_eq!(progress, Progress::Completed(card("你好", "greeting", "ni3hao3")));
    assert!(!ctx.in_card);
    assert!(ctx.in_entry);
    assert_eq!(ctx.character, "");
    assert_eq!(ctx.category, "");
    assert_eq!(ctx.pinyin, "");
}

#[test]
fn step_ignores_other_events_and_finishes_at_eof() {
    let mut ctx = ParserContext::new();
    assert_eq!(ctx.step(&XmlEvent::Other).unwrap(), Progress::Continue);
    assert_eq!(ctx.step(&XmlEvent::Eof).unwrap(), Progress::Finished);
    assert_eq!(ctx, ParserContext::new());
}

#[test]
fn step_reports_reader_failure_with_its_message() {
    let mut ctx = ParserContext::new();
    let error = ctx.step(&XmlEvent::Failure("broken".to_string())).unwrap_err();
    assert_eq!(error.kind, ImportErrorKind::Parse);
    assert_eq!(error.message(), "broken");
}

#[test]
fn step_fails_on_invalid_utf8() {
    let mut ctx = ParserContext::new();
    let error = ctx.step(&XmlEvent::Start(vec![0xff, 0xfe])).unwrap_err();
    assert_eq!(error.kind, ImportErrorKind::Parse);
    assert!(error.message().starts_with("From Utf8 error: "));
    let error = ctx.step(&XmlEvent::End(vec![0xc3])).unwrap_err();
    assert!(error.message().starts_with("From Utf8 error: "));
    let error = ctx.step(&XmlEvent::Text(vec![0x80])).unwrap_err();
    assert_eq!(error.kind, ImportErrorKind::Parse);
    assert!(error.message().starts_with("Encoding error: "));
    assert_eq!(ctx, ParserContext::new());
}

#[test]
fn step_skips_malformed_and_foreign_attributes() {
    let mut ctx = ParserContext::new();
    let event = XmlEvent::Empty(
        b"catassign".to_vec(),
        vec![
            Some(XmlAttribute { key: b"category".to_vec(), value: b"kept".to_vec() }),
            None,
            Some(XmlAttribute { key: b"other".to_vec(), value: b"ignored".to_vec() }),
            Some(XmlAttribute { key: vec![0xff], value: b"ignored".to_vec() }),
        ],
    );
    ctx.step(&event).unwrap();
    assert_eq!(ctx.category, "kept");
    let foreign = XmlEvent::Empty(
        b"other".to_vec(),
        vec![Some(XmlAttribute { key: b"category".to_vec(), value: b"lost".to_vec() })],
    );
    ctx.step(&foreign).unwrap();
    assert_eq!(ctx.category, "kept");
    let invalid = XmlEvent::Empty(
        vec![0xff],
        vec![Some(XmlAttribute { key: b"category".to_vec(), value: b"lost".to_vec() })],
    );
    ctx.step(&invalid).unwrap();
    assert_eq!(ctx.category, "kept");
}
