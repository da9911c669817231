use chinese_practice_tool::card::Card;
use chinese_practice_tool::category::{get_category_cards, CategoryIndex};
use chinese_practice_tool::error::{DBError, DBErrorKind, ImportError, ImportErrorKind};
use chinese_practice_tool::store::Store;

fn card(character: &str, categories: &[&str], pinyin: &str) -> Card {
    Card {
        character: character.to_string(),
        category: categories.iter().map(|c| c.to_string()).collect(),
        pinyin: pinyin.to_string(),
    }
}

#[test]
fn new_store_is_empty() {
    let db = Store::new();
    assert!(db.is_empty());
    assert_eq!(db.len(), 0);
    assert_eq!(db.get("水"), None);
    assert!(!db.contains_key("水"));
    assert_eq!(db.index_of("水"), None);
}

#[test]
fn insert_keys_card_by_character() {
    let mut db = Store::new();
    db.insert(card("水", &["nature"], "shui3"));
    db.insert(card("火", &["nature"], "huo3"));
    assert_eq!(db.len(), 2);
    assert!(!db.is_empty());
    assert!(db.contains_key("水"));
    assert_eq!(db.get("火"), Some(&card("火", &["nature"], "huo3")));
    assert_eq!(db.index_of("水"), Some(0));
    assert_eq!(db.index_of("火"), Some(1));
    assert_eq!(db.card_at(1).character, "火");
    assert_eq!(db.get("木"), None);
}

#[test]
fn insert_replaces_card_in_place() {
    let mut db = Store::new();
    db.insert(card("水", &["old"], ""));
    db.insert(card("火", &[], ""));
    db.insert(card("水", &["new"], "shui3"));
    assert_eq!(db.len(), 2);
    assert_eq!(db.card_at(0), &card("水", &["new"], "shui3"));
    assert_eq!(db.card_at(1), &card("火", &[], ""));
}

#[test]
fn every_stored_card_stands_under_its_own_character() {
    let mut db = Store::new();
    for (character, pinyin) in [("一", "yi1"), ("二", "er4"), ("三", "san1"), ("二", "liang3")] {
        db.insert(card(character, &["numbers"], pinyin));
    }
    assert_eq!(db.len(), 3);
    for at in 0..db.len() {
        let stored = db.card_at(at);
        assert_eq!(db.get(&stored.character), Some(stored));
    }
}

#[test]
fn card_clone_keeps_all_fields() {
    let original = card("散步", &["Verbs", "daily"], "san4bu4");
    assert_eq!(original.clone(), original);
    assert_eq!(Card::with_category("茶", "drinks", "cha2"), card("茶", &["drinks"], "cha2"));
}

#[test]
fn category_grouping_folds_case_to_one_bucket() {
    let mut db = Store::new();
    db.insert(card("A1", &["Food"], ""));
    db.insert(card("A2", &["food"], ""));
    let index = get_category_cards(&db);
    assert_eq!(index.len(), 1);
    assert_eq!(index.group_at(0).category, "food");
    assert_eq!(
        index.get("food"),
        Some(&vec![card("A1", &["Food"], ""), card("A2", &["food"], "")])
    );
    assert_eq!(index.get("Food"), None);
    assert!(index.contains_key("food"));
    assert!(!index.contains_key("Food"));
}

#[test]
fn card_with_two_labels_of_one_category_is_listed_twice() {
    let mut db = Store::new();
    db.insert(card("A", &["Food", "food"], ""));
    let index = get_category_cards(&db);
    assert_eq!(index.len(), 1);
    let listed = index.get("food").unwrap();
    assert_eq!(listed.len(), 2);
    assert_eq!(listed[0], card("A", &["Food", "food"], ""));
    assert_eq!(listed[1], card("A", &["Food", "food"], ""));
}

#[test]
fn card_appears_in_each_of_its_categories() {
    let mut db = Store::new();
    db.insert(card("水", &["Nature", "Drinks"], "shui3"));
    db.insert(card("茶", &["drinks"], "cha2"));
    db.insert(card("无", &[], ""));
    let index = get_category_cards(&db);
    assert_eq!(index.len(), 2);
    assert_eq!(index.get("nature").unwrap().len(), 1);
    let drinks = index.get("drinks").unwrap();
    assert_eq!(drinks.len(), 2);
    assert_eq!(drinks[0].character, "水");
    assert_eq!(drinks[1].character, "茶");
    assert_eq!(index.group_at(0).category, "nature");
    assert_eq!(index.group_at(1).category, "drinks");
}

#[test]
fn category_index_of_empty_store_is_empty() {
    let index = get_category_cards(&Store::new());
    assert_eq!(index.len(), 0);
    assert_eq!(index.get(""), None);
}

#[test]
fn category_index_does_not_change_the_store() {
    let mut db = Store::new();
    db.insert(card("水", &["Nature"], "shui3"));
    let first = get_category_cards(&db);
    let second = get_category_cards(&db);
    assert_eq!(first.get("nature"), second.get("nature"));
    assert_eq!(db.get("水").unwrap().category, vec!["Nature".to_string()]);
}

#[test]
fn lower_case_uses_unicode_rules() {
    let mut db = Store::new();
    db.insert(card("x", &["ÉCOLE"], ""));
    let index = get_category_cards(&db);
    assert!(index.contains_key("école"));
}

#[test]
fn add_appends_to_existing_list_or_starts_one() {
    let mut index = CategoryIndex::new();
    index.add("a".to_string(), card("1", &[], ""));
    index.add("b".to_string(), card("2", &[], ""));
    index.add("a".to_string(), card("3", &[], ""));
    assert_eq!(index.len(), 2);
    assert_eq!(index.get("a"), Some(&vec![card("1", &[], ""), card("3", &[], "")]));
    assert_eq!(index.get("b"), Some(&vec![card("2", &[], "")]));
    assert_eq!(index.get("c"), None);
}

#[test]
fn db_error_messages_carry_their_prefix() {
    let io = DBError::io("disk full");
    assert_eq!(io.kind, DBErrorKind::Io);
    assert_eq!(io.message(), "IO error: disk full");
    let serde = DBError::serialization("expected value");
    assert_eq!(serde.kind, DBErrorKind::Serialization);
    assert_eq!(serde.message(), "Serde error: expected value");
}

#[test]
fn import_error_messages_carry_their_prefix() {
    let cases = [
        (ImportError::io("gone"), ImportErrorKind::Io, "IO error: gone"),
        (ImportError::other("prompt"), ImportErrorKind::Other, "Other error: prompt"),
        (ImportError::invalid_utf8("bad"), ImportErrorKind::Parse, "From Utf8 error: bad"),
        (ImportError::encoding("bad"), ImportErrorKind::Parse, "Encoding error: bad"),
        (ImportError::syntax("ill-formed"), ImportErrorKind::Parse, "ill-formed"),
    ];
    for (error, kind, message) in cases {
        assert_eq!(error.kind, kind);
        assert_eq!(error.message(), message);
    }
}

#[test]
fn import_error_from_store_error_keeps_kind_and_text() {
    let io = ImportError::from_store(&DBError::io("disk full"));
    assert_eq!(io.kind, ImportErrorKind::Io);
    assert_eq!(io.message(), "Encoding error: IO error: disk full");
    let serde = ImportError::from_store(&DBError::serialization("x"));
    assert_eq!(serde.kind, ImportErrorKind::Serialization);
    assert_eq!(serde.message(), "Encoding error: Serde error: x");
}
