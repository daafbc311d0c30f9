use kumou_japanese::error::AnalysisError;
use kumou_japanese::tokenizer::{
    analysis_of, analyze_sentence, create_tokenizer, pos_css_class, pos_english, tokenizer_over,
    AnalyzedSentence, AnalyzedToken, PartOfSpeech, TokenFields,
};
use kumou_japanese::AlignedInterval;

fn fields(surface: &str, details: &[&str]) -> TokenFields {
    TokenFields {
        surface: surface.to_string(),
        details: details.iter().map(|d| d.to_string()).collect(),
    }
}

#[test]
fn token_takes_the_nine_fields_in_order() {
    let raw = fields(
        "行き",
        &["動詞", "自立", "*", "*", "五段・カ行促音便", "連用形", "行く", "イキ", "イキ"],
    );
    let token = AnalyzedToken::from_fields(&raw);
    assert_eq!(
        token,
        AnalyzedToken {
            surface: "行き".to_string(),
            pos: PartOfSpeech {
                major: "動詞".to_string(),
                sub1: "自立".to_string(),
                sub2: "*".to_string(),
                sub3: "*".to_string(),
            },
            conjugation_type: "五段・カ行促音便".to_string(),
            conjugation_form: "連用形".to_string(),
            base_form: "行く".to_string(),
            reading: "イキ".to_string(),
            pronunciation: "イキ".to_string(),
        }
    );
}

#[test]
fn missing_fields_become_stars() {
    let token = AnalyzedToken::from_fields(&fields("Rust", &["UNK"]));
    assert_eq!(token.surface, "Rust");
    assert_eq!(token.pos.major, "UNK");
    assert_eq!(token.pos.sub1, "*");
    assert_eq!(token.pos.sub2, "*");
    assert_eq!(token.pos.sub3, "*");
    assert_eq!(token.conjugation_type, "*");
    assert_eq!(token.conjugation_form, "*");
    assert_eq!(token.base_form, "*");
    assert_eq!(token.reading, "*");
    assert_eq!(token.pronunciation, "*");

    let token = AnalyzedToken::from_fields(&fields("", &[]));
    assert_eq!(token.surface, "");
    assert_eq!(token.pos.major, "*");
    assert_eq!(token.pronunciation, "*");
}

#[test]
fn fields_behind_the_ninth_are_left_out() {
    let token = AnalyzedToken::from_fields(&fields(
        "a",
        &["0", "1", "2", "3", "4", "5", "6", "7", "8", "9", "10"],
    ));
    assert_eq!(token.pos.major, "0");
    assert_eq!(token.pos.sub3, "3");
    assert_eq!(token.conjugation_type, "4");
    assert_eq!(token.conjugation_form, "5");
    assert_eq!(token.base_form, "6");
    assert_eq!(token.reading, "7");
    assert_eq!(token.pronunciation, "8");
}

#[test]
fn sentence_keeps_text_and_order() {
    let raw = vec![
        fields("今日", &["名詞", "副詞可能", "*", "*", "*", "*", "今日", "キョウ", "キョー"]),
        fields("は", &["助詞", "係助詞", "*", "*", "*", "*", "は", "ハ", "ワ"]),
        fields("晴れ", &["名詞", "一般", "*", "*", "*", "*", "晴れ", "ハレ", "ハレ"]),
    ];
    let sentence = AnalyzedSentence::from_fields("今日は晴れ", &raw);
    assert_eq!(sentence.text, "今日は晴れ");
    assert_eq!(sentence.tokens.len(), 3);
    assert_eq!(sentence.tokens[0], AnalyzedToken::from_fields(&raw[0]));
    assert_eq!(sentence.tokens[1].pos.major, "助詞");
    assert_eq!(sentence.tokens[1].pronunciation, "ワ");
    assert_eq!(sentence.tokens[2].reading, "ハレ");
    assert_eq!(sentence.surfaces(), vec!["今日", "は", "晴れ"]);
}

#[test]
fn sentence_without_tokens() {
    let sentence = AnalyzedSentence::from_fields("", &[]);
    assert_eq!(sentence, AnalyzedSentence { text: String::new(), tokens: vec![] });
    assert_eq!(sentence.surfaces(), Vec::<String>::new());
    assert_eq!(sentence.align(), Some(vec![]));
}

#[test]
fn sentence_aligns_its_tokens() {
    let raw = vec![fields("今日", &[]), fields("は", &[]), fields("晴れ", &[])];
    let sentence = AnalyzedSentence::from_fields("今日は晴れ", &raw);
    assert_eq!(
        sentence.align(),
        Some(vec![
            AlignedInterval { start: 0, end: 2, token_index: 0 },
            AlignedInterval { start: 2, end: 3, token_index: 1 },
            AlignedInterval { start: 3, end: 5, token_index: 2 },
        ])
    );
}

#[test]
fn tokenizer_is_made_or_the_error_says_why() {
    match create_tokenizer() {
        Ok(tokenizer) => {
            let text = "今日は晴れ";
            match analyze_sentence(&tokenizer, text) {
                Ok(sentence) => {
                    assert_eq!(sentence.text, text);
                    for token in &sentence.tokens {
                        assert!(!token.pos.major.is_empty());
                    }
                }
                Err(error) => assert!(matches!(error, AnalysisError::Tokenization(_))),
            }
        }
        Err(error) => {
            assert!(matches!(error, AnalysisError::TokenizerInit(_)));
            assert!(error.to_string().starts_with("Failed to initialize tokenizer: "));
        }
    }
}

#[test]
fn failed_tokenizing_is_a_tokenization_error() {
    assert_eq!(
        analysis_of("今日は晴れ", Err("lattice broke".to_string())),
        Err(AnalysisError::Tokenization("lattice broke".to_string()))
    );
    assert_eq!(
        analysis_of("", Err(String::new())).map_err(|e| e.to_string()),
        Err("Tokenization failed: ".to_string())
    );
}

#[test]
fn tokenized_fields_become_the_analysis() {
    let raw = vec![
        fields("は", &["助詞", "係助詞", "*", "*", "*", "*", "は", "ハ", "ワ"]),
        fields("い", &["動詞"]),
    ];
    assert_eq!(
        analysis_of("はい", Ok(raw.clone())),
        Ok(AnalyzedSentence::from_fields("はい", &raw))
    );
    let analysis = analysis_of("はい", Ok(raw)).unwrap();
    assert_eq!(analysis.text, "はい");
    assert_eq!(analysis.tokens.len(), 2);
    assert_eq!(analysis.tokens[0].pos.sub1, "係助詞");
    assert_eq!(analysis.tokens[1].pos.major, "動詞");
    assert_eq!(analysis.tokens[1].pos.sub1, "*");
}

#[test]
fn dictionary_that_is_not_loaded_gives_no_tokenizer() {
    let loaded = lindera::dictionary::load_dictionary("embedded://no-such-dictionary");
    let said = match &loaded {
        Ok(_) => String::new(),
        Err(error) => error.to_string(),
    };
    assert!(loaded.is_err());
    match tokenizer_over(loaded) {
        Ok(_) => panic!("a tokenizer without a dictionary"),
        Err(error) => {
            assert_eq!(error, AnalysisError::TokenizerInit(said.clone()));
            assert_eq!(error.to_string(), format!("Failed to initialize tokenizer: {said}"));
            assert!(!said.is_empty());
        }
    }
}

#[test]
fn style_classes() {
    assert_eq!(pos_css_class("名詞"), "pos-noun");
    assert_eq!(pos_css_class("動詞"), "pos-verb");
    assert_eq!(pos_css_class("形容詞"), "pos-adjective");
    assert_eq!(pos_css_class("副詞"), "pos-adverb");
    assert_eq!(pos_css_class("助詞"), "pos-particle");
    assert_eq!(pos_css_class("助動詞"), "pos-aux-verb");
    assert_eq!(pos_css_class("接続詞"), "pos-conjunction");
    assert_eq!(pos_css_class("感動詞"), "pos-interjection");
    assert_eq!(pos_css_class("連体詞"), "pos-adnominal");
    assert_eq!(pos_css_class("記号"), "pos-symbol");
}

#[test]
fn categories_without_a_class_share_one() {
    assert_eq!(pos_css_class("形容動詞"), "pos-other");
    assert_eq!(pos_css_class("フィラー"), "pos-other");
    assert_eq!(pos_css_class("*"), "pos-other");
    assert_eq!(pos_css_class(""), "pos-other");
    assert_eq!(pos_css_class("名"), "pos-other");
    assert_eq!(pos_css_class("名詞 "), "pos-other");
    assert_eq!(pos_css_class("Noun"), "pos-other");
}

#[test]
fn english_names() {
    assert_eq!(pos_english("名詞"), "Noun");
    assert_eq!(pos_english("動詞"), "Verb");
    assert_eq!(pos_english("形容詞"), "i-Adjective");
    assert_eq!(pos_english("形容動詞"), "na-Adjective");
    assert_eq!(pos_english("副詞"), "Adverb");
    assert_eq!(pos_english("助詞"), "Particle");
    assert_eq!(pos_english("助動詞"), "Aux. Verb");
    assert_eq!(pos_english("接続詞"), "Conjunction");
    assert_eq!(pos_english("感動詞"), "Interjection");
    assert_eq!(pos_english("連体詞"), "Adnominal");
    assert_eq!(pos_english("記号"), "Symbol");
    assert_eq!(pos_english("フィラー"), "Filler");
}

#[test]
fn categories_without_a_name_are_other() {
    assert_eq!(pos_english("その他"), "Other");
    assert_eq!(pos_english("*"), "Other");
    assert_eq!(pos_english(""), "Other");
    assert_eq!(pos_english("動"), "Other");
    assert_eq!(pos_english("Verb"), "Other");
}
