//! The JSON files the apps share: lists of texts, and single fields of the shell's session
//! file. The reading and writing itself is serde_json's.

use vstd::prelude::*;
use crate::dock::texte_sicht;

verus! {

/// The list of texts that serde_json reads from a JSON text; `None` where the text is no
/// JSON array of strings.
pub uninterp spec fn json_liste(s: Seq<char>) -> Option<Seq<Seq<char>>>;

/// `serde_json::from_str::<Vec<String>>`. Stated: the outcome depends on the text alone;
/// the JSON grammar itself is left unsaid.
#[verifier::external_body]
pub(crate) fn liste_lesen(s: &str) -> (r: Option<Vec<String>>)
    ensures
        match r {
            Some(v) => json_liste(s@) == Some(texte_sicht(v@)),
            None => json_liste(s@) is None,
        },
{
    serde_json::from_str::<Vec<String>>(s).ok()
}

/// The JSON text that serde_json writes for a list of texts.
pub uninterp spec fn json_liste_text(v: Seq<Seq<char>>) -> Seq<char>;

/// `serde_json::to_string` of a list of texts. Stated: it succeeds (its documentation names
/// as failures only a `Serialize` impl that fails and a map with keys that are no strings,
/// and a list of strings has neither), and the text depends on the list alone; the JSON
/// form itself is left unsaid.
#[verifier::external_body]
pub(crate) fn liste_schreiben(v: &Vec<String>) -> (r: Option<String>)
    ensures
        r is Some,
        r matches Some(t) ==> t@ == json_liste_text(texte_sicht(v@)),
{
    serde_json::to_string(v).ok()
}

/// The text in field `feld` of the JSON object in `s`; `None` where `s` is no JSON, has no
/// such field, or the field holds no string.
pub uninterp spec fn json_feld(s: Seq<char>, feld: Seq<char>) -> Option<Seq<char>>;

/// `serde_json::from_str::<Value>`, then `get(feld)` and `as_str`. Stated: the outcome
/// depends on the two texts alone.
#[verifier::external_body]
pub(crate) fn feld_text(s: &str, feld: &str) -> (r: Option<String>)
    ensures
        match r {
            Some(t) => json_feld(s@, feld@) == Some(t@),
            None => json_feld(s@, feld@) is None,
        },
{
    serde_json::from_str::<serde_json::Value>(s).ok()?.get(feld)?.as_str().map(String::from)
}

/// The truth value in field `feld` of the JSON object in `s`; `None` where there is none.
pub uninterp spec fn json_wahrheit(s: Seq<char>, feld: Seq<char>) -> Option<bool>;

/// `serde_json::from_str::<Value>`, then `get(feld)` and `as_bool`. Stated: the outcome
/// depends on the two texts alone.
#[verifier::external_body]
pub(crate) fn feld_wahrheit(s: &str, feld: &str) -> (r: Option<bool>)
    ensures
        r == json_wahrheit(s@, feld@),
{
    serde_json::from_str::<serde_json::Value>(s).ok()?.get(feld)?.as_bool()
}

} // verus!
