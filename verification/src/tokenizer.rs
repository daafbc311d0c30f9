//! Morphological analysis of a sentence: the tokens with their grammar
//! details, and the display labels of the major part-of-speech categories.

use vstd::prelude::*;

use crate::alignment::{
    cursor_after, is_alignment, texts_of, try_build_char_offset_ranges, AlignedInterval,
};
use crate::error::AnalysisError;
use crate::lindera_calls::{error_text, load_embedded_ipadic, normal_segmenter, token_fields};
use crate::text::same_text;
use lindera::dictionary::Dictionary;
use lindera::error::LinderaError;
use lindera::tokenizer::Tokenizer;

verus! {

/// Part-of-speech information in the layout of the IPADIC dictionary.
#[derive(Debug, Clone, PartialEq)]
pub struct PartOfSpeech {
    /// Major category: 名詞, 動詞, 助詞 and so on.
    pub major: String,
    /// First subcategory.
    pub sub1: String,
    /// Second subcategory.
    pub sub2: String,
    /// Third subcategory.
    pub sub3: String,
}

/// A token of a sentence with its grammar details.
#[derive(Debug, Clone, PartialEq)]
pub struct AnalyzedToken {
    /// The token as it stands in the text.
    pub surface: String,
    /// Part-of-speech information.
    pub pos: PartOfSpeech,
    /// Conjugation type, such as 一段 or 五段.
    pub conjugation_type: String,
    /// Conjugation form, such as 基本形 or 連用形.
    pub conjugation_form: String,
    /// Dictionary form.
    pub base_form: String,
    /// Reading in katakana.
    pub reading: String,
    /// Pronunciation.
    pub pronunciation: String,
}

/// The result of analyzing a sentence.
#[derive(Debug, Clone, PartialEq)]
pub struct AnalyzedSentence {
    /// The sentence as it was given.
    pub text: String,
    /// Its tokens, in the order of the text.
    pub tokens: Vec<AnalyzedToken>,
}

/// What a tokenizer gives for one token: the surface and the list of detail
/// fields that its dictionary holds for the word.
#[derive(Debug, Clone, PartialEq)]
pub struct TokenFields {
    pub surface: String,
    pub details: Vec<String>,
}

/// A `PartOfSpeech` as contracts see it.
pub struct PartOfSpeechView {
    pub major: Seq<char>,
    pub sub1: Seq<char>,
    pub sub2: Seq<char>,
    pub sub3: Seq<char>,
}

/// An `AnalyzedToken` as contracts see it.
pub struct AnalyzedTokenView {
    pub surface: Seq<char>,
    pub pos: PartOfSpeechView,
    pub conjugation_type: Seq<char>,
    pub conjugation_form: Seq<char>,
    pub base_form: Seq<char>,
    pub reading: Seq<char>,
    pub pronunciation: Seq<char>,
}

/// An `AnalyzedSentence` as contracts see it.
pub struct AnalyzedSentenceView {
    pub text: Seq<char>,
    pub tokens: Seq<AnalyzedTokenView>,
}

impl AnalyzedSentenceView {
    /// The surfaces of the tokens, in order.
    pub open spec fn surfaces(self) -> Seq<Seq<char>> {
        self.tokens.map_values(|t: AnalyzedTokenView| t.surface)
    }
}

/// A `TokenFields` as contracts see it.
pub struct TokenFieldsView {
    pub surface: Seq<char>,
    pub details: Seq<Seq<char>>,
}

impl View for PartOfSpeech {
    type V = PartOfSpeechView;

    open spec fn view(&self) -> PartOfSpeechView {
        PartOfSpeechView {
            major: self.major@,
            sub1: self.sub1@,
            sub2: self.sub2@,
            sub3: self.sub3@,
        }
    }
}

impl View for AnalyzedToken {
    type V = AnalyzedTokenView;

    open spec fn view(&self) -> AnalyzedTokenView {
        AnalyzedTokenView {
            surface: self.surface@,
            pos: self.pos@,
            conjugation_type: self.conjugation_type@,
            conjugation_form: self.conjugation_form@,
            base_form: self.base_form@,
            reading: self.reading@,
            pronunciation: self.pronunciation@,
        }
    }
}

impl View for AnalyzedSentence {
    type V = AnalyzedSentenceView;

    open spec fn view(&self) -> AnalyzedSentenceView {
        AnalyzedSentenceView {
            text: self.text@,
            tokens: self.tokens@.map_values(|t: AnalyzedToken| t@),
        }
    }
}

impl View for TokenFields {
    type V = TokenFieldsView;

    open spec fn view(&self) -> TokenFieldsView {
        TokenFieldsView { surface: self.surface@, details: texts_of(self.details@) }
    }
}

/// The views of a list of token fields.
pub open spec fn fields_of(raw: Seq<TokenFields>) -> Seq<TokenFieldsView> {
    raw.map_values(|f: TokenFields| f@)
}

/// Detail field `i`, or `*` where the dictionary holds fewer fields.
pub open spec fn detail_or_star(details: Seq<Seq<char>>, i: int) -> Seq<char> {
    if 0 <= i < details.len() {
        details[i]
    } else {
        seq!['*']
    }
}

/// The token that the detail fields describe. IPADIC holds nine fields per
/// word: the part of speech and its three subcategories, the conjugation
/// type and form, the base form, the reading and the pronunciation.
pub open spec fn token_of(fields: TokenFieldsView) -> AnalyzedTokenView {
    AnalyzedTokenView {
        surface: fields.surface,
        pos: PartOfSpeechView {
            major: detail_or_star(fields.details, 0),
            sub1: detail_or_star(fields.details, 1),
            sub2: detail_or_star(fields.details, 2),
            sub3: detail_or_star(fields.details, 3),
        },
        conjugation_type: detail_or_star(fields.details, 4),
        conjugation_form: detail_or_star(fields.details, 5),
        base_form: detail_or_star(fields.details, 6),
        reading: detail_or_star(fields.details, 7),
        pronunciation: detail_or_star(fields.details, 8),
    }
}

/// The analysis of `text` whose tokens are described by `raw`.
pub open spec fn sentence_of(text: Seq<char>, raw: Seq<TokenFieldsView>) -> AnalyzedSentenceView {
    AnalyzedSentenceView { text, tokens: raw.map_values(|f: TokenFieldsView| token_of(f)) }
}

/// Detail field `i` of a word, or `*` where there is no such field.
fn detail_at(details: &[String], i: usize) -> (field: String)
    ensures
        field@ == detail_or_star(texts_of(details@), i as int),
{
    if i < details.len() {
        details[i].clone()
    } else {
        proof {
            reveal_strlit("*");
        }
        String::from_str("*")
    }
}

impl AnalyzedToken {
    /// Builds the token that the fields of a tokenizer describe.
    pub fn from_fields(fields: &TokenFields) -> (token: AnalyzedToken)
        ensures
            token@ == token_of(fields@),
    {
        let details = fields.details.as_slice();
        AnalyzedToken {
            surface: fields.surface.clone(),
            pos: PartOfSpeech {
                major: detail_at(details, 0),
                sub1: detail_at(details, 1),
                sub2: detail_at(details, 2),
                sub3: detail_at(details, 3),
            },
            conjugation_type: detail_at(details, 4),
            conjugation_form: detail_at(details, 5),
            base_form: detail_at(details, 6),
            reading: detail_at(details, 7),
            pronunciation: detail_at(details, 8),
        }
    }
}

impl AnalyzedSentence {
    /// Builds the analysis of `text` from what a tokenizer gave for it.
    pub fn from_fields(text: &str, raw: &[TokenFields]) -> (sentence: AnalyzedSentence)
        ensures
            sentence@ == sentence_of(text@, fields_of(raw@)),
    {
        let n = raw.len();
        let mut tokens: Vec<AnalyzedToken> = Vec::new();
        let mut i: usize = 0;
        while i < n
            invariant
                n == raw@.len(),
                i <= n,
                tokens@.len() == i,
                forall|k: int| 0 <= k < i ==> (#[trigger] tokens@[k])@ == token_of(raw@[k]@),
            decreases n - i,
        {
            tokens.push(AnalyzedToken::from_fields(&raw[i]));
            i += 1;
        }
        let sentence = AnalyzedSentence { text: text.to_owned(), tokens };
        assert(sentence@.tokens =~= sentence_of(text@, fields_of(raw@)).tokens);
        sentence
    }

    /// The surfaces of the tokens, in order.
    pub fn surfaces(&self) -> (surfaces: Vec<String>)
        ensures
            texts_of(surfaces@) == self@.surfaces(),
    {
        let n = self.tokens.len();
        let mut surfaces: Vec<String> = Vec::new();
        let mut i: usize = 0;
        while i < n
            invariant
                n == self.tokens@.len(),
                i <= n,
                surfaces@.len() == i,
                forall|k: int| 0 <= k < i ==> (#[trigger] surfaces@[k])@ == self.tokens@[k].surface@,
            decreases n - i,
        {
            surfaces.push(self.tokens[i].surface.clone());
            i += 1;
        }
        surfaces
    }

    /// Aligns the tokens onto the text, or returns `None` when an offset
    /// would not fit in `usize`.
    pub fn align(&self) -> (out: Option<Vec<AlignedInterval>>)
        ensures
            match out {
                Some(ranges) => is_alignment(self@.text, self@.surfaces(), ranges@),
                None => cursor_after(
                    self@.text,
                    self@.surfaces(),
                    self@.tokens.len() as int,
                ) > usize::MAX,
            },
    {
        let surfaces = self.surfaces();
        assert(surfaces@.len() == self@.tokens.len()) by {
            assert(texts_of(surfaces@).len() == self@.surfaces().len());
        }
        try_build_char_offset_ranges(self.text.as_str(), surfaces.as_slice())
    }
}

/// Sets up a tokenizer over the IPADIC dictionary that is embedded in the
/// program. Whether the dictionary can be had is up to lindera.
pub fn create_tokenizer() -> (made: Result<Tokenizer, AnalysisError>)
    ensures
        made matches Err(error) ==> error is TokenizerInit,
{
    tokenizer_over(load_embedded_ipadic())
}

/// Sets up a tokenizer over a dictionary that has been loaded: a segmenter
/// in normal mode without a user dictionary, and no filters. Where loading
/// has failed, so does this, with what the loader said.
pub fn tokenizer_over(loaded: Result<Dictionary, LinderaError>) -> (made: Result<
    Tokenizer,
    AnalysisError,
>)
    ensures
        made is Ok <==> loaded is Ok,
        made matches Err(error) ==> error is TokenizerInit,
{
    match loaded {
        Ok(dictionary) => Ok(Tokenizer::new(normal_segmenter(dictionary))),
        Err(error) => Err(AnalysisError::TokenizerInit(error_text(&error))),
    }
}

/// Turns the outcome of tokenizing `text` into the outcome of the analysis:
/// the sentence that the token fields describe, or a tokenization error
/// that carries what the tokenizer said.
pub fn analysis_of(text: &str, tokenized: Result<Vec<TokenFields>, String>) -> (analysis: Result<
    AnalyzedSentence,
    AnalysisError,
>)
    ensures
        match tokenized {
            Ok(raw) => analysis matches Ok(sentence) && sentence@ == sentence_of(
                text@,
                fields_of(raw@),
            ),
            Err(detail) => analysis == Err::<AnalyzedSentence, AnalysisError>(
                AnalysisError::Tokenization(detail),
            ),
        },
{
    match tokenized {
        Ok(raw) => Ok(AnalyzedSentence::from_fields(text, raw.as_slice())),
        Err(detail) => Err(AnalysisError::Tokenization(detail)),
    }
}

/// Analyzes a sentence into its tokens with their grammar details.
///
/// What the tokens are is up to the tokenizer. The analysis keeps the text
/// as it was given and describes each token by the fields that the
/// tokenizer gave for it, in the tokenizer's order. Where the tokenizer
/// fails, the error is a tokenization error.
pub fn analyze_sentence(tokenizer: &Tokenizer, text: &str) -> (analysis: Result<
    AnalyzedSentence,
    AnalysisError,
>)
    ensures
        match analysis {
            Ok(sentence) => exists|raw: Seq<TokenFieldsView>| sentence@ == sentence_of(text@, raw),
            Err(error) => error is Tokenization,
        },
{
    let tokenized = match tokenizer.tokenize(text) {
        Ok(tokens) => {
            let mut raw: Vec<TokenFields> = Vec::new();
            for token in tokens {
                let mut token = token;
                raw.push(token_fields(&mut token));
            }
            Ok(raw)
        },
        Err(error) => Err(error_text(&error)),
    };
    analysis_of(text, tokenized)
}

/// The style class of a major part-of-speech category.
pub open spec fn css_class_of(major: Seq<char>) -> Seq<char> {
    if major == "名詞"@ {
        "pos-noun"@
    } else if major == "動詞"@ {
        "pos-verb"@
    } else if major == "形容詞"@ {
        "pos-adjective"@
    } else if major == "副詞"@ {
        "pos-adverb"@
    } else if major == "助詞"@ {
        "pos-particle"@
    } else if major == "助動詞"@ {
        "pos-aux-verb"@
    } else if major == "接続詞"@ {
        "pos-conjunction"@
    } else if major == "感動詞"@ {
        "pos-interjection"@
    } else if major == "連体詞"@ {
        "pos-adnominal"@
    } else if major == "記号"@ {
        "pos-symbol"@
    } else {
        "pos-other"@
    }
}

/// The English name of a major part-of-speech category.
pub open spec fn english_of(major: Seq<char>) -> Seq<char> {
    if major == "名詞"@ {
        "Noun"@
    } else if major == "動詞"@ {
        "Verb"@
    } else if major == "形容詞"@ {
        "i-Adjective"@
    } else if major == "形容動詞"@ {
        "na-Adjective"@
    } else if major == "副詞"@ {
        "Adverb"@
    } else if major == "助詞"@ {
        "Particle"@
    } else if major == "助動詞"@ {
        "Aux. Verb"@
    } else if major == "接続詞"@ {
        "Conjunction"@
    } else if major == "感動詞"@ {
        "Interjection"@
    } else if major == "連体詞"@ {
        "Adnominal"@
    } else if major == "記号"@ {
        "Symbol"@
    } else if major == "フィラー"@ {
        "Filler"@
    } else {
        "Other"@
    }
}

/// The style class under which tokens of the major category `major` are
/// coloured; categories without a colour of their own share one class.
pub fn pos_css_class(major: &str) -> (class: &str)
    ensures
        class@ == css_class_of(major@),
{
    if same_text(major, "名詞") {
        "pos-noun"
    } else if same_text(major, "動詞") {
        "pos-verb"
    } else if same_text(major, "形容詞") {
        "pos-adjective"
    } else if same_text(major, "副詞") {
        "pos-adverb"
    } else if same_text(major, "助詞") {
        "pos-particle"
    } else if same_text(major, "助動詞") {
        "pos-aux-verb"
    } else if same_text(major, "接続詞") {
        "pos-conjunction"
    } else if same_text(major, "感動詞") {
        "pos-interjection"
    } else if same_text(major, "連体詞") {
        "pos-adnominal"
    } else if same_text(major, "記号") {
        "pos-symbol"
    } else {
        "pos-other"
    }
}

/// The English name of the major category `major`, or `Other` for a
/// category that has none.
pub fn pos_english(major: &str) -> (name: &str)
    ensures
        name@ == english_of(major@),
{
    if same_text(major, "名詞") {
        "Noun"
    } else if same_text(major, "動詞") {
        "Verb"
    } else if same_text(major, "形容詞") {
        "i-Adjective"
    } else if same_text(major, "形容動詞") {
        "na-Adjective"
    } else if same_text(major, "副詞") {
        "Adverb"
    } else if same_text(major, "助詞") {
        "Particle"
    } else if same_text(major, "助動詞") {
        "Aux. Verb"
    } else if same_text(major, "接続詞") {
        "Conjunction"
    } else if same_text(major, "感動詞") {
        "Interjection"
    } else if same_text(major, "連体詞") {
        "Adnominal"
    } else if same_text(major, "記号") {
        "Symbol"
    } else if same_text(major, "フィラー") {
        "Filler"
    } else {
        "Other"
    }
}

} // verus!
