//! The prompts put to the language model: requests about one character, and
//! requests about the characters of a category of the store.

use crate::card::{Card, CardView};
use crate::category::{category_index, get_category_cards, lowercase, to_lowercase};
use crate::store::{card_views, Store};
use crate::text::reads;
use vstd::prelude::*;

verus! {

/// What stands before the subject in the request for sentences to translate that use one character.
pub const TRANSLATION_HEAD: &'static str = "Generate ten different examples of english sentences using the translation of the character '";

/// What stands behind the subject in the request for sentences to translate that use one character.
pub const TRANSLATION_TAIL: &'static str = "'.
            The purpose of each sentence is for someone to practice translating the english sentence into colloquial chinese.
            Make each sentence around 9 words long. Don't include where the actual characeter should be in the sentence.";

/// What stands before the subject in the request to reduce a text to its Han words, separated by commas.
pub const CSV_HEAD: &'static str = r#"You are a text transformer. Do NOT invent or reorder words.

            Input: a string that contains Chinese words with optional pinyin/Latin letters mixed in.
            Task:
            1) Split the input into tokens using any of these as separators: newline, comma, Chinese comma \"，\", the double-comma \"，，\", spaces, semicolons.
            2) For each token, delete every character that is NOT a CJK Han character (Unicode Han: \p{Script=Han}).
            - This removes pinyin (Latin letters, tone marks), numbers, quotes, brackets, etc.
            - Keep ALL Han characters, in their original order.
            3) Drop empty tokens.
            4) Output exactly one line: the cleaned tokens joined by a single ASCII comma \",\" with no spaces.
            Rules:
            - Never output characters that did not appear as Han characters in the input.
            - Never combine tokens or split a token beyond removing non-Han characters.
            - Words may be 1-6 Han characters; do not drop 1-character words.

            Example:
            Input: 放fàng松sōng,,收shōu垃lā圾jī,,收shōu购gòu
            Output: 放松,收垃圾,收购

            Input: "#;

/// What stands behind the subject in the request to reduce a text to its Han words, separated by commas.
pub const CSV_TAIL: &'static str = r#"
        "#;

/// What stands before the subject in the request to list the phrases of recognised text.
pub const CSV_PNG_HEAD: &'static str = "Generate a comma separated list of chinese phrases from this set of phrases. '";

/// What stands behind the subject in the request to list the phrases of recognised text.
pub const CSV_PNG_TAIL: &'static str = "'.
            It needs to be usable as a input to code (no extra spaces, one comma between each word)
            The set of phrases is somewhat inconsistently formatted, but generally in the form 607“散步sunZbu where we want to parse 607,散步. 
            Each phrase will have between 1-4 distinct characters";

/// What stands before the subject in the request for what there is to know of one character.
pub const GENERAL_HEAD: &'static str = "Provide comprehensive information about the Chinese character '";

/// What stands behind the subject in the request for what there is to know of one character.
pub const GENERAL_TAIL: &'static str = "' including pronunciation, meaning, usage, and cultural context.";

/// What stands before the subject in the request for one sentence to translate per character of a category.
pub const CATEGORY_TRANSLATION_HEAD: &'static str = "Generate a english sentence for each character using the translation of the characters '";

/// What stands behind the subject in the request for one sentence to translate per character of a category.
pub const CATEGORY_TRANSLATION_TAIL: &'static str = "'.
                The purpose of each sentence is for someone to practice translating the english sentence into colloquial chinese.
                Make each sentence around 9 words long. Limit to 20 sentences. Don't include where the actual characeter should be in the sentence.";

/// What stands before the subject in the request for what there is to know of the characters of a category.
pub const CATEGORY_GENERAL_HEAD: &'static str = "Provide comprehensive information about the Chinese characters '";

/// What stands behind the subject in the request for what there is to know of the characters of a category.
pub const CATEGORY_GENERAL_TAIL: &'static str = "' including pronunciation, meaning, usage, and cultural context.";

/// The request about `subject` of the kind `prompt_type`. An unknown kind
/// is the general request.
pub open spec fn base_prompt(subject: Seq<char>, prompt_type: Seq<char>) -> Seq<char> {
    if prompt_type == "translation"@ {
        TRANSLATION_HEAD@ + subject + TRANSLATION_TAIL@
    } else if prompt_type == "generate-csv"@ {
        CSV_HEAD@ + subject + CSV_TAIL@
    } else if prompt_type == "generate-csv-png"@ {
        CSV_PNG_HEAD@ + subject + CSV_PNG_TAIL@
    } else {
        GENERAL_HEAD@ + subject + GENERAL_TAIL@
    }
}

/// The request about the characters `subject` of a category, of the kind
/// `prompt_type`. An unknown kind is the general request.
pub open spec fn category_base_prompt(subject: Seq<char>, prompt_type: Seq<char>) -> Seq<char> {
    if prompt_type == "translation"@ {
        CATEGORY_TRANSLATION_HEAD@ + subject + CATEGORY_TRANSLATION_TAIL@
    } else {
        CATEGORY_GENERAL_HEAD@ + subject + CATEGORY_GENERAL_TAIL@
    }
}

/// The mathematical value of an optional text.
pub open spec fn optional_view(text: Option<&str>) -> Option<Seq<char>> {
    match text {
        Some(t) => Some(t@),
        None => None,
    }
}

/// A request followed by its context, where it has one.
pub open spec fn with_context(base: Seq<char>, context: Option<Seq<char>>) -> Seq<char> {
    match context {
        Some(c) => base + " Context: "@ + c,
        None => base,
    }
}

/// The headwords of the cards, separated by commas.
pub open spec fn joined_characters(cards: Seq<CardView>) -> Seq<char>
    decreases cards.len(),
{
    if cards.len() == 0 {
        Seq::empty()
    } else if cards.len() == 1 {
        cards[0].character
    } else {
        joined_characters(cards.drop_last()) + seq![','] + cards.last().character
    }
}

/// `head`, `subject` and `tail` in a row, followed by the context if any.
fn compose(head: &str, subject: &str, tail: &str, context: Option<&str>) -> (text: String)
    ensures
        text@ == with_context(head@ + subject@ + tail@, optional_view(context)),
{
    let mut text = String::from_str(head);
    text.append(subject);
    text.append(tail);
    match context {
        Some(c) => {
            text.append(" Context: ");
            text.append(c);
        },
        None => {},
    }
    text
}

/// The prompt about `character` of the kind `prompt_type`, with `context`
/// behind it where one is given.
pub fn generate_openai_prompt(character: &str, prompt_type: &str, context: Option<&str>) -> (prompt:
    String)
    ensures
        prompt@ == with_context(base_prompt(character@, prompt_type@), optional_view(context)),
{
    let kind = prompt_type.to_owned();
    if reads(&kind, "translation") {
        compose(TRANSLATION_HEAD, character, TRANSLATION_TAIL, context)
    } else if reads(&kind, "generate-csv") {
        compose(CSV_HEAD, character, CSV_TAIL, context)
    } else if reads(&kind, "generate-csv-png") {
        compose(CSV_PNG_HEAD, character, CSV_PNG_TAIL, context)
    } else {
        compose(GENERAL_HEAD, character, GENERAL_TAIL, context)
    }
}

/// The headwords of `cards`, separated by commas.
pub fn join_characters(cards: &Vec<Card>) -> (text: String)
    ensures
        text@ == joined_characters(card_views(cards@)),
{
    let ghost views = card_views(cards@);
    let mut text = String::new();
    let mut i: usize = 0;
    while i < cards.len()
        invariant
            i <= cards.len(),
            views == card_views(cards@),
            text@ == joined_characters(views.take(i as int)),
        decreases cards.len() - i,
    {
        proof {
            reveal_strlit(",");
            assert(views.take(i + 1).drop_last() =~= views.take(i as int));
        }
        if i > 0 {
            text.append(",");
        }
        text.append(cards[i].character.as_str());
        i += 1;
    }
    assert(views.take(cards.len() as int) =~= views);
    text
}

/// The prompt about the characters of the category `category` of the store,
/// of the kind `prompt_type`, with `context` behind it where one is given;
/// `None` where the store has no such category. The category is looked up
/// without regard to case.
pub fn generate_openai_prompt_category(
    category: &str,
    prompt_type: &str,
    context: Option<&str>,
    db: &Store,
) -> (prompt: Option<String>)
    ensures
        match prompt {
            Some(text) => category_index(db.cards()).contains_key(lowercase(category@)) && text@
                == with_context(
                category_base_prompt(
                    joined_characters(category_index(db.cards())[lowercase(category@)]),
                    prompt_type@,
                ),
                optional_view(context),
            ),
            None => !category_index(db.cards()).contains_key(lowercase(category@)),
        },
{
    let index = get_category_cards(db);
    let key = to_lowercase(category);
    match index.get(key.as_str()) {
        Some(cards) => {
            let subject = join_characters(cards);
            let kind = prompt_type.to_owned();
            if reads(&kind, "translation") {
                Some(
                    compose(
                        CATEGORY_TRANSLATION_HEAD,
                        subject.as_str(),
                        CATEGORY_TRANSLATION_TAIL,
                        context,
                    ),
                )
            } else {
                Some(
                    compose(CATEGORY_GENERAL_HEAD, subject.as_str(), CATEGORY_GENERAL_TAIL, context),
                )
            }
        },
        None => None,
    }
}

} // verus!
