//! The built-in commands, as far as they compute anything.

use vstd::prelude::*;
use vstd::string::StringExecFns;

verus! {

/// What the help command is asked to show.
#[derive(Debug, PartialEq, Eq)]
pub enum HelpRequest {
    /// The help of one command or topic.
    About(String),
    /// The list of everything.
    Everything,
}

/// What a help request is, with its topic as a sequence of characters.
pub enum HelpRequestView {
    About(Seq<char>),
    Everything,
}

impl View for HelpRequest {
    type V = HelpRequestView;

    open spec fn view(&self) -> HelpRequestView {
        match self {
            HelpRequest::About(topic) => HelpRequestView::About(topic@),
            HelpRequest::Everything => HelpRequestView::Everything,
        }
    }
}

/// Decides what the help command shows: the help of the word that follows the
/// command, or the list of everything where no word follows.
pub fn help(next_word: Option<&str>) -> (request: HelpRequest)
    ensures
        request@ == (match next_word {
            Some(topic) => HelpRequestView::About(topic@),
            None => HelpRequestView::Everything,
        }),
{
    match next_word {
        Some(topic) => HelpRequest::About(String::from_str(topic)),
        None => HelpRequest::Everything,
    }
}

} // verus!
