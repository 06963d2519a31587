//! The recipe that a request carries in a cookie: base64 text that holds UTF-8.

use vstd::prelude::*;
use vstd::string::StringSliceAdditionalSpecFns;
use vstd::utf8::{decode_utf8, encode_utf8, valid_utf8};
use base64::engine::general_purpose::STANDARD;
use base64::{DecodeError, Engine};

verus! {

/// The error of the base64 decoder, carried through as it comes.
#[verifier::external_type_specification]
#[verifier::external_body]
pub struct ExDecodeError(DecodeError);

/// What the standard base64 alphabet with padding decodes the input to, where it
/// decodes at all.
pub uninterp spec fn base64_decoded(input: Seq<u8>) -> Option<Seq<u8>>;

/// `Engine::decode` of `base64`'s `STANDARD` engine decodes the input into a new
/// vector or reports why it cannot; whether it succeeds, and the bytes that it
/// gives, depend on the input alone and are named `base64_decoded`.
#[verifier::external_body]
fn base64_decode(input: &[u8]) -> (decoded: Result<Vec<u8>, DecodeError>)
    ensures
        match decoded {
            Ok(bytes) => base64_decoded(input@) == Some(bytes@),
            Err(_) => base64_decoded(input@) is None,
        },
{
    STANDARD.decode(input)
}

/// `String::from_utf8` turns the bytes into a string exactly when they are valid
/// UTF-8, and the string then holds the characters that the bytes encode.
#[verifier::external_body]
fn string_from_utf8(bytes: Vec<u8>) -> (text: Option<String>)
    ensures
        text is Some <==> valid_utf8(bytes@),
        text matches Some(s) ==> s@ == decode_utf8(bytes@),
{
    String::from_utf8(bytes).ok()
}

/// Why no recipe could be read.
#[derive(Debug)]
pub enum RecipeError {
    /// The request has no cookie header, or no cookie named for the recipe.
    MissingRecipe,
    /// The cookie's value is not base64.
    DecodeError(DecodeError),
    /// The decoded bytes are not UTF-8.
    NotUtf8,
}

/// What is made of the decoder's answer: its error as it came, or the text that
/// the bytes encode, or the complaint that they encode none.
pub open spec fn is_recipe_text(
    decoded: Result<Vec<u8>, DecodeError>,
    recipe: Result<String, RecipeError>,
) -> bool {
    match decoded {
        Err(e) => recipe == Err::<String, RecipeError>(RecipeError::DecodeError(e)),
        Ok(bytes) => if valid_utf8(bytes@) {
            recipe matches Ok(text) && text@ == decode_utf8(bytes@)
        } else {
            recipe == Err::<String, RecipeError>(RecipeError::NotUtf8)
        },
    }
}

/// What reading a cookie's value gives, in terms of what the decoder makes of it.
pub open spec fn is_decoded_recipe(value: Seq<char>, recipe: Result<String, RecipeError>) -> bool {
    match base64_decoded(encode_utf8(value)) {
        None => recipe matches Err(RecipeError::DecodeError(_)),
        Some(bytes) => if valid_utf8(bytes) {
            recipe matches Ok(text) && text@ == decode_utf8(bytes)
        } else {
            recipe == Err::<String, RecipeError>(RecipeError::NotUtf8)
        },
    }
}

/// Turns the decoder's answer into the recipe text.
pub fn recipe_text(decoded: Result<Vec<u8>, DecodeError>) -> (recipe: Result<String, RecipeError>)
    ensures
        is_recipe_text(decoded, recipe),
{
    match decoded {
        Err(e) => Err(RecipeError::DecodeError(e)),
        Ok(bytes) => match string_from_utf8(bytes) {
            Some(text) => Ok(text),
            None => Err(RecipeError::NotUtf8),
        },
    }
}

/// Reads the recipe from a request: `has_cookie_header` tells whether the request
/// has a cookie header at all, `cookie` is the value of the recipe cookie where
/// there is one.
pub fn decode_recipe(has_cookie_header: bool, cookie: Option<&str>) -> (recipe: Result<
    String,
    RecipeError,
>)
    ensures
        match cookie {
            Some(value) if has_cookie_header => is_decoded_recipe(value@, recipe),
            _ => recipe == Err::<String, RecipeError>(RecipeError::MissingRecipe),
        },
{
    if !has_cookie_header {
        return Err(RecipeError::MissingRecipe);
    }
    match cookie {
        None => Err(RecipeError::MissingRecipe),
        Some(value) => recipe_text(base64_decode(value.as_bytes())),
    }
}

} // verus!
