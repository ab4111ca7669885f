//! The environmental context handed to the reasoning collaborator: which
//! window and application are active. Asking the display server is done
//! outside the library; this module only phrases the answer.

use vstd::prelude::*;

verus! {

/// The active window and application at the time of a query.
#[derive(Debug, Clone, PartialEq, Eq)]
pub struct EnvironmentalContext {
    pub active_window: String,
    pub active_app: String,
}

impl EnvironmentalContext {
    /// The context as the fragment appended to a reasoning prompt.
    pub fn to_prompt_fragment(&self) -> (r: String)
        ensures
            r@ == "\n[ENVIRONMENTAL CONTEXT]\nActive Window: "@ + self.active_window@
                + "\nActive Application: "@ + self.active_app@ + "\n"@,
    {
        let mut r = String::from_str("\n[ENVIRONMENTAL CONTEXT]\nActive Window: ");
        r.append(self.active_window.as_str());
        r.append("\nActive Application: ");
        r.append(self.active_app.as_str());
        r.append("\n");
        r
    }
}

} // verus!
