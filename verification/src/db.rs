//! The translation store keeps, for each original text, a JSON object from
//! language code to translation; a translation is written at the JSON path
//! made of the language code.
use vstd::prelude::*;

verus! {

/// The JSON path under which the translation into `target_lang` is stored.
pub fn translation_path(target_lang: &str) -> (path: String)
    ensures
        path@ == "$."@ + target_lang@,
{
    let mut path = String::from_str("$.");
    path.append(target_lang);
    path
}

} // verus!
