use vstd::prelude::*;

verus! {

/// A typed error condition: a static label naming the failure and a
/// human-readable context string.
#[derive(Debug)]
pub enum ContenderError {
    /// Failure in an admin operation (seed handling, account listing).
    AdminError(&'static str, String),
    /// Fatal failure of the spam engine (trigger source, scenario setup).
    SpamError(&'static str, String),
    /// Any other failure.
    GenericError(&'static str, String),
}

impl ContenderError {
    /// The static label naming the failure condition.
    pub open spec fn spec_label(&self) -> Seq<char> {
        match self {
            ContenderError::AdminError(l, _) => l@,
            ContenderError::SpamError(l, _) => l@,
            ContenderError::GenericError(l, _) => l@,
        }
    }

    /// The context string carried beside the label.
    pub open spec fn spec_context(&self) -> Seq<char> {
        match self {
            ContenderError::AdminError(_, c) => c@,
            ContenderError::SpamError(_, c) => c@,
            ContenderError::GenericError(_, c) => c@,
        }
    }

    pub fn label(&self) -> (r: &'static str)
        ensures
            r@ == self.spec_label(),
    {
        match self {
            ContenderError::AdminError(l, _) => l,
            ContenderError::SpamError(l, _) => l,
            ContenderError::GenericError(l, _) => l,
        }
    }

    /// One-line description: the label, a separator, then the context.
    pub fn describe(&self) -> (r: String)
        ensures
            r@ == self.spec_label() + ": "@ + self.spec_context(),
    {
        let mut out = String::from_str(self.label());
        out.append(": ");
        match self {
            ContenderError::AdminError(_, c) => out.append(c.as_str()),
            ContenderError::SpamError(_, c) => out.append(c.as_str()),
            ContenderError::GenericError(_, c) => out.append(c.as_str()),
        }
        out
    }
}

} // verus!
