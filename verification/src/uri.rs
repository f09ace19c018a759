//! Validated names of realms, procedures, topics and error kinds.

use vstd::prelude::*;

verus! {

/// A validated, otherwise opaque, name.
#[derive(Clone, Debug, PartialEq, Eq, Hash)]
pub struct Uri {
    text: String,
}

impl View for Uri {
    type V = Seq<char>;

    closed spec fn view(&self) -> Seq<char> {
        self.text@
    }
}

impl Uri {
    /// What the relaxed policy accepts: any text that is not empty.
    pub open spec fn relaxed_ok(text: Seq<char>) -> bool {
        text.len() > 0
    }

    /// Validates `text` under the relaxed policy.
    pub fn relaxed(text: &str) -> (uri: Option<Uri>)
        ensures
            Self::relaxed_ok(text@) <==> uri.is_some(),
            uri matches Some(u) ==> u@ == text@,
    {
        if text.is_empty() {
            None
        } else {
            Some(Uri { text: text.to_owned() })
        }
    }

    /// The text of the name.
    pub fn as_str(&self) -> (text: &str)
        ensures
            text@ == self@,
    {
        self.text.as_str()
    }

    /// A copy of the name.
    pub fn duplicate(&self) -> (copy: Uri)
        ensures
            copy@ == self@,
    {
        Uri { text: self.text.clone() }
    }
}

} // verus!
