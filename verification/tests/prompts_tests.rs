use chinese_practice_tool::card::Card;
use chinese_practice_tool::prompts::{
    generate_openai_prompt, generate_openai_prompt_category, join_characters,
};
use chinese_practice_tool::store::Store;

fn card(character: &str, category: &str) -> Card {
    Card {
        character: character.to_string(),
        category: vec![category.to_string()],
        pinyin: String::new(),
    }
}

fn deck() -> Store {
    let mut db = Store::new();
    db.insert(card("水", "Nature"));
    db.insert(card("茶", "drinks"));
    db.insert(card("火", "nature"));
    db
}

#[test]
fn general_prompt_names_the_character() {
    assert_eq!(
        generate_openai_prompt("调", "anything", None),
        "Provide comprehensive information about the Chinese character '调' including pronunciation, meaning, usage, and cultural context."
    );
    assert_eq!(
        generate_openai_prompt("", "", Some("x")),
        "Provide comprehensive information about the Chinese character '' including pronunciation, meaning, usage, and cultural context. Context: x"
    );
}

#[test]
fn translation_prompt_asks_for_ten_sentences() {
    let prompt = generate_openai_prompt("调", "translation", None);
    assert!(prompt.starts_with(
        "Generate ten different examples of english sentences using the translation of the character '调'.\n"
    ));
    assert!(prompt.ends_with(
        "Make each sentence around 9 words long. Don't include where the actual characeter should be in the sentence."
    ));
    assert_eq!(prompt.lines().count(), 3);
}

#[test]
fn word_list_prompt_ends_with_the_input() {
    let prompt = generate_openai_prompt("放fàng松sōng", "generate-csv", None);
    assert!(prompt.starts_with("You are a text transformer. Do NOT invent or reorder words.\n"));
    assert!(prompt.contains("(Unicode Han: \\p{Script=Han})"));
    assert!(prompt.contains("Output: 放松,收垃圾,收购\n"));
    assert!(prompt.trim_end().ends_with("Input: 放fàng松sōng"));
    let png = generate_openai_prompt("607", "generate-csv-png", Some("scan"));
    assert!(png.starts_with(
        "Generate a comma separated list of chinese phrases from this set of phrases. '607'.\n"
    ));
    assert!(png.ends_with("Each phrase will have between 1-4 distinct characters Context: scan"));
}

#[test]
fn characters_are_joined_by_commas() {
    assert_eq!(join_characters(&vec![]), "");
    assert_eq!(join_characters(&vec![card("水", "")]), "水");
    assert_eq!(join_characters(&vec![card("水", ""), card("", ""), card("火", "")]), "水,,火");
}

#[test]
fn category_prompt_lists_the_characters_of_the_category() {
    let db = deck();
    assert_eq!(
        generate_openai_prompt_category("NATURE", "other", None, &db).unwrap(),
        "Provide comprehensive information about the Chinese characters '水,火' including pronunciation, meaning, usage, and cultural context."
    );
    let prompt = generate_openai_prompt_category("drinks", "translation", Some("tea"), &db).unwrap();
    assert!(prompt.starts_with(
        "Generate a english sentence for each character using the translation of the characters '茶'.\n"
    ));
    assert!(prompt.ends_with("Limit to 20 sentences. Don't include where the actual characeter should be in the sentence. Context: tea"));
}

#[test]
fn category_prompt_of_unknown_category_is_none() {
    assert_eq!(generate_openai_prompt_category("food", "translation", None, &deck()), None);
    assert_eq!(generate_openai_prompt_category("", "translation", None, &Store::new()), None);
}
