//! The calls into the `lindera` crate. Nothing in this file is proved: each
//! item states what the library takes on trust from lindera.

use vstd::prelude::*;

use crate::tokenizer::TokenFields;

verus! {

/// lindera's tokenizer: a segmenter with its dictionary, and filters.
#[verifier::external_type_specification]
#[verifier::external_body]
pub struct ExTokenizer(lindera::tokenizer::Tokenizer);

/// lindera's segmenter: a dictionary and the mode in which it is searched.
#[verifier::external_type_specification]
#[verifier::external_body]
pub struct ExSegmenter(lindera::segmenter::Segmenter);

/// lindera's dictionary.
#[verifier::external_type_specification]
#[verifier::external_body]
pub struct ExDictionary(lindera::dictionary::Dictionary);

/// lindera's error.
#[verifier::external_type_specification]
#[verifier::external_body]
pub struct ExLinderaError(lindera::error::LinderaError);

/// lindera's token: a surface with a reference into the dictionary.
#[verifier::external_type_specification]
#[verifier::external_body]
pub struct ExToken<'a>(lindera::token::Token<'a>);

/// `lindera::dictionary::load_dictionary` on the address of the embedded
/// IPADIC dictionary. Nothing is claimed of the outcome: it is an error
/// where lindera was built without that dictionary.
#[verifier::external_body]
pub(crate) fn load_embedded_ipadic() -> Result<
    lindera::dictionary::Dictionary,
    lindera::error::LinderaError,
> {
    lindera::dictionary::load_dictionary("embedded://ipadic")
}

/// `lindera::segmenter::Segmenter::new` in normal mode and without a user
/// dictionary. Nothing is claimed of the segmenter.
#[verifier::external_body]
pub(crate) fn normal_segmenter(
    dictionary: lindera::dictionary::Dictionary,
) -> lindera::segmenter::Segmenter {
    lindera::segmenter::Segmenter::new(lindera::mode::Mode::Normal, dictionary, None)
}

/// `lindera::tokenizer::Tokenizer::new`. Nothing is claimed of the tokenizer.
pub assume_specification[ lindera::tokenizer::Tokenizer::new ](
    segmenter: lindera::segmenter::Segmenter,
) -> lindera::tokenizer::Tokenizer
;

/// `lindera::tokenizer::Tokenizer::tokenize`. Nothing is claimed of the
/// tokens or of the error.
pub assume_specification<'a>[ lindera::tokenizer::Tokenizer::tokenize ](
    tokenizer: &'a lindera::tokenizer::Tokenizer,
    text: &'a str,
) -> Result<Vec<lindera::token::Token<'a>>, lindera::error::LinderaError>
;

/// The surface of a lindera token and what `lindera::token::Token::details`
/// gives for it, as owned strings. Nothing is claimed of their contents.
/// `details` looks the word up in the dictionary that the token came from
/// and takes it that the dictionary's index points into its data.
#[verifier::external_body]
pub(crate) fn token_fields(token: &mut lindera::token::Token<'_>) -> TokenFields {
    TokenFields {
        surface: token.surface.to_string(),
        details: token.details().iter().map(|detail| detail.to_string()).collect(),
    }
}

/// The text of a lindera error, as its `Display` impl writes it.
#[verifier::external_body]
pub(crate) fn error_text(error: &lindera::error::LinderaError) -> String {
    error.to_string()
}

} // verus!
