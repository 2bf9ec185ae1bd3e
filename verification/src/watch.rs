//! The watchers: read-only checks that mail a person when the book needs a decision.
//!
//! None of them places, cancels or reprices anything. Each one is given what was read,
//! decides whether something is worth a message, and remembers what it already said so that
//! the same thing is not mailed twice.
pub mod btc_level;
pub mod divergence;
pub mod fields;
pub mod froth;
pub mod json;
pub mod pyfmt;
pub mod regime_state;
pub mod regime_watch;
pub mod textwrap;
pub mod zone;

use crate::text;
pub use crate::time::utc_minute;
use vstd::prelude::*;

verus! {

/// The commands and paths the mails tell you to run. Only wording: nothing here is
/// executed.
#[derive(Debug)]
pub struct Hints {
    /// The executor's deploy command, as the mails quote it.
    pub deploy_cmd: String,
    /// The halt file the executor honours.
    pub halt_file: String,
}

/// What [`Hints`] holds.
pub struct HintsView {
    pub deploy_cmd: Seq<char>,
    pub halt_file: Seq<char>,
}

impl DeepView for Hints {
    type V = HintsView;

    open spec fn deep_view(&self) -> HintsView {
        HintsView { deploy_cmd: self.deploy_cmd@, halt_file: self.halt_file@ }
    }
}

impl Default for Hints {
    fn default() -> (r: Self)
        ensures
            r.deploy_cmd@ == "rungbot-exec deploy"@,
            r.halt_file@ == "~/.config/rungbot/halt"@,
    {
        Hints {
            deploy_cmd: text::owned("rungbot-exec deploy"),
            halt_file: text::owned("~/.config/rungbot/halt"),
        }
    }
}

/// The text in upper case.
pub fn upper(s: &str) -> (r: String)
    ensures
        r@ == text::upper_case(s@),
{
    text::uppercase(s)
}

} // verus!
