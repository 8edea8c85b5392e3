//! The languages a paste may be highlighted as.
use vstd::prelude::*;

use crate::text::same_text;

verus! {

/// The names of the supported languages.
pub open spec fn is_known_lang(lang: Seq<char>) -> bool {
    lang == "Java"@ || lang == "Rust"@
}

/// Returns `true` if `lang` names a supported language.
pub fn valid_lang(lang: &str) -> (r: bool)
    ensures
        r == is_known_lang(lang@),
{
    same_text(lang, "Java") || same_text(lang, "Rust")
}

/// A supported language, as named in a path segment.
pub struct PasteLang {
    name: String,
}

impl View for PasteLang {
    type V = Seq<char>;

    closed spec fn view(&self) -> Seq<char> {
        self.name@
    }
}

impl PasteLang {
    /// Accepts a path segment that names a supported language; otherwise
    /// hands the segment back as the error.
    pub fn from_param<'a>(param: &'a str) -> (r: Result<PasteLang, &'a str>)
        ensures
            is_known_lang(param@) ==> r is Ok && r->Ok_0@ == param@,
            !is_known_lang(param@) ==> r is Err && r->Err_0 == param,
    {
        if valid_lang(param) {
            Ok(PasteLang { name: param.to_owned() })
        } else {
            Err(param)
        }
    }

    /// The language's name.
    pub fn as_str(&self) -> (r: &str)
        ensures
            r@ == self@,
    {
        self.name.as_str()
    }
}

} // verus!
