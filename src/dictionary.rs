//! The dictionary lookup: the data of a dictionary entry, the address of a
//! lookup, the choice of the entry to show, and the page that shows it.
use vstd::prelude::*;
use vstd::string::{StrSliceExecFns, StringExecFns};

verus! {

/// Identity of a dictionary entry.
pub struct EntryMetadata {
    pub id: String,
    pub offensive: bool,
}

/// How an entry's head word is written.
pub struct HeadwordInformation {
    pub head_word: String,
}

/// One entry of a dictionary answer.
pub struct Definition {
    pub meta: EntryMetadata,
    pub headword_information: HeadwordInformation,
    pub short_definition: Vec<String>,
    pub family: String,
}

/// Why a definition could not be fetched.
#[derive(Clone, Copy, Debug, PartialEq, Eq, Structural)]
pub enum GetDefinitionError {
    NoApiKey,
    UriBuilderError,
    ResponseError,
    ToBytesError,
    DeserializeError,
    NoResults,
}

/// Address of the collegiate dictionary's JSON lookup; the word follows it.
pub const API_URL: &'static str = "https://dictionaryapi.com/api/v3/references/collegiate/json/";

/// Query string that introduces the API key.
pub const KEY_PARAMETER: &'static str = "?key=";

/// The lookup address of `word`: `API_URL`, the word, `?key=` and the key.
/// Without a key there is nothing to ask.
pub fn definition_uri(word: &str, api_key: Option<&str>) -> (r: Result<String, GetDefinitionError>)
    ensures
        api_key is None <==> r == Err::<String, GetDefinitionError>(GetDefinitionError::NoApiKey),
        api_key is Some <==> r is Ok,
        r matches Ok(uri) ==> uri@ == API_URL@ + word@ + KEY_PARAMETER@ + api_key.unwrap()@,
{
    match api_key {
        None => Err(GetDefinitionError::NoApiKey),
        Some(key) => {
            let uri = API_URL.to_owned().concat(word).concat(KEY_PARAMETER).concat(key);
            Ok(uri)
        },
    }
}

/// The entry to show: the first one of the answer.
pub fn first_definition(definitions: Vec<Definition>) -> (r: Result<Definition, GetDefinitionError>)
    ensures
        definitions.len() == 0 <==> r == Err::<Definition, GetDefinitionError>(
            GetDefinitionError::NoResults,
        ),
        definitions.len() > 0 <==> r is Ok,
        r matches Ok(d) ==> d == definitions@[0],
{
    let mut definitions = definitions;
    if definitions.len() == 0 {
        Err(GetDefinitionError::NoResults)
    } else {
        Ok(definitions.remove(0))
    }
}

/// Whether `char::is_alphanumeric` holds of a character.
pub uninterp spec fn alphanumeric(c: char) -> bool;

/// Relies on `char::is_alphanumeric`, which depends on the character alone.
#[verifier::external_body]
fn is_alphanumeric(c: char) -> (r: bool)
    ensures
        r == alphanumeric(c),
{
    c.is_alphanumeric()
}

/// Relies on `String::push`: the character is appended.
#[verifier::external_body]
fn push_char(s: &mut String, c: char)
    ensures
        final(s)@ == old(s)@.push(c),
{
    s.push(c)
}

/// The characters of a head word that are shown: spaces and alphanumerics.
pub open spec fn shown_in_headword(c: char) -> bool {
    c == ' ' || alphanumeric(c)
}

/// The characters of `s` that are shown, in order.
pub open spec fn shown_headword(s: Seq<char>) -> Seq<char> {
    s.filter(|c: char| shown_in_headword(c))
}

/// The head word with every character dropped that is neither a space nor
/// alphanumeric, so that it can stand in a page as it is.
pub fn displayed_headword(name: &str) -> (r: String)
    ensures
        r@ == shown_headword(name@),
{
    let len = name.unicode_len();
    let mut out = String::new();
    for i in 0..len
        invariant
            len == name@.len(),
            out@ == shown_headword(name@.take(i as int)),
    {
        let c = name.get_char(i);
        proof {
            assert(name@.take(i + 1).drop_last() =~= name@.take(i as int));
            assert(name@.take(i + 1).last() == c);
            reveal(Seq::filter);
            assert(shown_headword(name@.take(i + 1)) == if shown_in_headword(c) {
                shown_headword(name@.take(i as int)).push(c)
            } else {
                shown_headword(name@.take(i as int))
            });
        }
        if c == ' ' || is_alphanumeric(c) {
            push_char(&mut out, c);
        }
    }
    assert(name@.take(len as int) =~= name@);
    out
}

} // verus!
