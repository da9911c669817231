use chinese_practice_tool::card::Card;
use chinese_practice_tool::export::{
    export_cards_to_pleco, export_pleco, ExportAttribute, ExportEvent,
};
use chinese_practice_tool::import::import_pleco;
use chinese_practice_tool::store::Store;
use chinese_practice_tool::words::{
    batch_label_of, clean_pages, extract_chinese_runs, import_batches, import_png, import_text,
    import_words, BATCH_SIZE,
};

fn card(character: &str, categories: &[&str], pinyin: &str) -> Card {
    Card {
        character: character.to_string(),
        category: categories.iter().map(|c| c.to_string()).collect(),
        pinyin: pinyin.to_string(),
    }
}

fn attribute(name: &str, value: &str) -> ExportAttribute {
    ExportAttribute { name: name.to_string(), value: value.to_string() }
}

#[test]
fn runs_of_han_characters_are_extracted() {
    assert_eq!(extract_chinese_runs("放fàng松sōng,,收shōu垃lā圾jī"), vec!["放", "松", "收", "垃", "圾"]);
    assert_eq!(extract_chinese_runs("放松,收垃圾,收购"), vec!["放松", "收垃圾", "收购"]);
    assert_eq!(extract_chinese_runs("607“散步sunZbu"), vec!["散步"]);
    assert_eq!(extract_chinese_runs("no han here"), Vec::<String>::new());
    assert_eq!(extract_chinese_runs(""), Vec::<String>::new());
}

#[test]
fn pages_are_joined_without_noise() {
    let pages = vec!["散 步\n\"放松\"\n".to_string(), " 收 购".to_string(), String::new()];
    assert_eq!(clean_pages(&pages), "散步放松收购");
    assert_eq!(clean_pages(&vec![]), "");
    assert_eq!(clean_pages(&vec!["a\tb\r\n".to_string()]), "a\tb\r");
}

#[test]
fn batch_labels_count_from_one_in_steps_of_fifty() {
    assert_eq!(BATCH_SIZE, 50);
    assert_eq!(batch_label_of("hsk", 0), "hsk-1");
    assert_eq!(batch_label_of("hsk", 49), "hsk-1");
    assert_eq!(batch_label_of("hsk", 50), "hsk-2");
    assert_eq!(batch_label_of("hsk", 499), "hsk-10");
    assert_eq!(batch_label_of("", 5000), "-101");
    assert_eq!(batch_label_of("x", 61_728_350), "x-1234568");
}

#[test]
fn words_become_cards_of_one_category() {
    let mut db = Store::new();
    db.insert(card("放松", &["old"], "fang4song1"));
    let words = vec!["散步".to_string(), "放松".to_string(), "散步".to_string()];
    import_words(&words, "verbs", &mut db);
    assert_eq!(db.len(), 2);
    assert_eq!(db.card_at(0), &card("放松", &["verbs"], ""));
    assert_eq!(db.card_at(1), &card("散步", &["verbs"], ""));
}

#[test]
fn words_become_cards_in_batches() {
    let mut db = Store::new();
    let words: Vec<String> = (0..120).map(|i| format!("w{}", i)).collect();
    import_batches(&words, "book", &mut db);
    assert_eq!(db.len(), 120);
    assert_eq!(db.get("w0").unwrap().category, vec!["book-1".to_string()]);
    assert_eq!(db.get("w49").unwrap().category, vec!["book-1".to_string()]);
    assert_eq!(db.get("w50").unwrap().category, vec!["book-2".to_string()]);
    assert_eq!(db.get("w119").unwrap().category, vec!["book-3".to_string()]);
    assert_eq!(db.get("w119").unwrap().pinyin, "");
}

#[test]
fn export_of_no_card_is_the_empty_document() {
    let events = export_cards_to_pleco(&vec![], "1");
    assert_eq!(
        events,
        vec![
            ExportEvent::Declaration,
            ExportEvent::Start(
                "plecoflash".to_string(),
                vec![
                    attribute("formatversion", "2"),
                    attribute("creator", "Pleco User 19080708"),
                    attribute("generator", "Pleco 2.0 Flashcard Exporter"),
                    attribute("platform", "iPhone OS"),
                    attribute("created", "1757266198"),
                ]
            ),
            ExportEvent::Start("cards".to_string(), vec![]),
            ExportEvent::End("cards".to_string()),
            ExportEvent::End("plecoflash".to_string()),
        ]
    );
}

#[test]
fn export_lists_each_card_with_its_first_category() {
    let cards = vec![card("你好", &["greeting", "second"], "ni3hao3"), card("水", &[], "")];
    let events = export_cards_to_pleco(&cards, "1700000000");
    assert_eq!(events.len(), 3 + 2 * 8 + 2);
    assert_eq!(
        events[3..11],
        [
            ExportEvent::Start(
                "card".to_string(),
                vec![
                    attribute("language", "chinese"),
                    attribute("created", "1700000000"),
                    attribute("modified", "1700000000"),
                ]
            ),
            ExportEvent::Start("entry".to_string(), vec![]),
            ExportEvent::Start("headword".to_string(), vec![attribute("charset", "sc")]),
            ExportEvent::Text("你好".to_string()),
            ExportEvent::End("headword".to_string()),
            ExportEvent::End("entry".to_string()),
            ExportEvent::Empty("catassign".to_string(), vec![attribute("category", "greeting")]),
            ExportEvent::End("card".to_string()),
        ]
    );
    assert_eq!(events[14], ExportEvent::Text("水".to_string()));
    assert_eq!(events[17], ExportEvent::Empty("catassign".to_string(), vec![]));
}

#[test]
fn exported_document_is_imported_again() {
    let cards = vec![card("你好", &["greeting"], ""), card("水", &["a & b"], "")];
    let mut writer = quick_xml::Writer::new(Vec::new());
    for event in export_cards_to_pleco(&cards, "1") {
        let markup = |name: &str, attributes: &Vec<ExportAttribute>| {
            let mut tag = quick_xml::events::BytesStart::new(name.to_string());
            for a in attributes {
                tag.push_attribute((a.name.as_str(), a.value.as_str()));
            }
            tag
        };
        let written = match &event {
            ExportEvent::Declaration => quick_xml::events::Event::Decl(
                quick_xml::events::BytesDecl::new("1.0", Some("UTF-8"), None),
            ),
            ExportEvent::Start(name, attributes) => {
                quick_xml::events::Event::Start(markup(name, attributes))
            }
            ExportEvent::Empty(name, attributes) => {
                quick_xml::events::Event::Empty(markup(name, attributes))
            }
            ExportEvent::Text(text) => {
                quick_xml::events::Event::Text(quick_xml::events::BytesText::new(text))
            }
            ExportEvent::End(name) => {
                quick_xml::events::Event::End(quick_xml::events::BytesEnd::new(name.as_str()))
            }
        };
        writer.write_event(written).unwrap();
    }
    let xml = String::from_utf8(writer.into_inner()).unwrap();
    let mut db = Store::new();
    assert!(import_pleco(&xml, &mut db).is_ok());
    assert_eq!(db.len(), 2);
    assert_eq!(db.card_at(0), &cards[0]);
    assert_eq!(db.card_at(1), &cards[1]);
}

#[test]
fn text_import_stores_every_run_under_the_category() {
    let mut db = Store::new();
    import_text("verbs", "放松,收垃圾,收购", &mut db);
    assert_eq!(db.len(), 3);
    assert_eq!(db.card_at(0), &card("放松", &["verbs"], ""));
    assert_eq!(db.card_at(1), &card("收垃圾", &["verbs"], ""));
    assert_eq!(db.card_at(2), &card("收购", &["verbs"], ""));
    import_text("verbs", "nothing", &mut db);
    assert_eq!(db.len(), 3);
}

#[test]
fn page_import_stores_the_words_in_batches_of_a_random_order() {
    let first = 0x4e00u32;
    let words: Vec<String> =
        (0..120).map(|i| char::from_u32(first + i).unwrap().to_string()).collect();
    let pages = vec![words[..60].join(" 1\n") + ".", words[60..].join("\" x \"")];
    let mut db = Store::new();
    import_png("book", &pages, &mut db);
    assert_eq!(db.len(), 120);
    let mut sizes = [0usize; 3];
    let mut in_order = true;
    for at in 0..db.len() {
        let stored = db.card_at(at);
        assert!(words.contains(&stored.character));
        assert_eq!(stored.pinyin, "");
        assert_eq!(stored.category, vec![format!("book-{}", at / 50 + 1)]);
        sizes[at / 50] += 1;
        in_order = in_order && stored.character == words[at];
    }
    assert_eq!(sizes, [50, 50, 20]);
    assert!(!in_order);
}

#[test]
fn pages_are_joined_before_the_runs_are_taken() {
    let mut db = Store::new();
    import_png("book", &vec!["散\n".to_string(), " 步".to_string()], &mut db);
    assert_eq!(db.len(), 1);
    assert_eq!(db.card_at(0), &card("散步", &["book-1"], ""));
}

#[test]
fn page_import_of_nothing_stores_nothing() {
    let mut db = Store::new();
    import_png("book", &vec![], &mut db);
    import_png("book", &vec!["no words".to_string()], &mut db);
    assert!(db.is_empty());
}

#[test]
fn export_of_a_category_takes_its_cards_from_the_index() {
    let mut db = Store::new();
    db.insert(card("水", &["Nature"], "shui3"));
    db.insert(card("茶", &["drinks"], "cha2"));
    db.insert(card("火", &["nature"], "huo3"));
    assert_eq!(export_pleco("Nature", &db, "1"), None);
    assert_eq!(export_pleco("missing", &db, "1"), None);
    let events = export_pleco("nature", &db, "1").unwrap();
    assert_eq!(
        events,
        export_cards_to_pleco(&vec![card("水", &["Nature"], "shui3"), card("火", &["nature"], "huo3")], "1")
    );
}
