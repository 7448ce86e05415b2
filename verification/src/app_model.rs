//! The main window: the queue of downloads and the dialogs it opens.
use vstd::prelude::*;
use vstd::string::*;
use crate::address::ParsedUrl;

verus! {

/// The messages the main window receives.
#[derive(Debug, PartialEq, Eq)]
pub enum AppInput {
    /// Open the dialog for a new download.
    CreateNewDownload,
    /// Add a download of this URL at the end of the queue.
    StartNewDownload(ParsedUrl),
    /// Remove the download at this position of the queue.
    CancelDownload(usize),
    /// Open the about dialog.
    OpenAbout,
    /// Open the dialog that cleans the cache.
    CleanCache,
}

/// What the main window does after a message.
#[derive(Debug, Clone, PartialEq, Eq)]
pub enum AppAction {
    /// Show the new download dialog.
    PresentNewDownload,
    /// Create a download item at the end of the list, for the URL at this
    /// position of the queue.
    AddDownload(usize),
    /// Drop the download item at this position, if there is one.
    RemoveDownload(usize),
    /// Show the about dialog.
    PresentAbout,
    /// Show the clean cache dialog.
    PresentCleanCache,
}

/// The state of the main window: the URLs of the queued downloads, in the
/// order in which they were started.
#[derive(Debug, PartialEq, Eq)]
pub struct App {
    pub downloads: Vec<ParsedUrl>,
}

impl App {
    /// The main window as it opens, with an empty queue.
    pub fn init() -> (app: App)
        ensures
            app.downloads@ == Seq::<ParsedUrl>::empty(),
    {
        App { downloads: Vec::new() }
    }

    /// Reacts to a message. Starting a download appends it to the queue;
    /// cancelling removes the download at the given position, and leaves the
    /// queue as it is when there is none there.
    pub fn update(&mut self, input: AppInput) -> (action: AppAction)
        ensures
            match input {
                AppInput::CreateNewDownload => final(self).downloads@ == old(self).downloads@
                    && action == AppAction::PresentNewDownload,
                AppInput::StartNewDownload(url) => final(self).downloads@ == old(
                    self,
                ).downloads@.push(url) && action == AppAction::AddDownload(
                    old(self).downloads@.len() as usize,
                ),
                AppInput::CancelDownload(index) => final(self).downloads@ == (if index < old(
                    self,
                ).downloads@.len() {
                    old(self).downloads@.remove(index as int)
                } else {
                    old(self).downloads@
                }) && action == AppAction::RemoveDownload(index),
                AppInput::OpenAbout => final(self).downloads@ == old(self).downloads@ && action
                    == AppAction::PresentAbout,
                AppInput::CleanCache => final(self).downloads@ == old(self).downloads@ && action
                    == AppAction::PresentCleanCache,
            },
    {
        match input {
            AppInput::CreateNewDownload => AppAction::PresentNewDownload,
            AppInput::StartNewDownload(url) => {
                let position = self.downloads.len();
                self.downloads.push(url);
                AppAction::AddDownload(position)
            },
            AppInput::CancelDownload(index) => {
                if index < self.downloads.len() {
                    self.downloads.remove(index);
                }
                AppAction::RemoveDownload(index)
            },
            AppInput::OpenAbout => AppAction::PresentAbout,
            AppInput::CleanCache => AppAction::PresentCleanCache,
        }
    }
}

/// Cancelling the download that was just started gives back the queue as it
/// was before.
pub proof fn lemma_cancel_last_started_restores_queue(queue: Seq<ParsedUrl>, url: ParsedUrl)
    ensures
        queue.push(url).remove(queue.len() as int) == queue,
{
    assert(queue.push(url).remove(queue.len() as int) =~= queue);
}

/// The text of the clean cache dialog, given the size of the cache as
/// formatted in mebibytes, or `None` when the size could not be read.
pub open spec fn clean_cache_body_spec(size_text: Option<Seq<char>>) -> Seq<char> {
    match size_text {
        Some(text) => text + "MiB of cached downloaded files will be removed."@,
        None => "N/A MiB of cached downloaded files will be removed."@,
    }
}

/// The text of the clean cache dialog: the size of the cache in mebibytes,
/// or `N/A ` when it could not be read, followed by the warning.
pub fn clean_cache_body(size_text: Option<&str>) -> (body: String)
    ensures
        body@ == clean_cache_body_spec(
            match size_text {
                Some(t) => Some(t@),
                None => None,
            },
        ),
{
    let mut body = match size_text {
        Some(text) => String::from_str(text),
        None => String::from_str("N/A "),
    };
    body.append("MiB of cached downloaded files will be removed.");
    proof {
        if size_text is None {
            reveal_strlit("N/A ");
            reveal_strlit("MiB of cached downloaded files will be removed.");
            reveal_strlit("N/A MiB of cached downloaded files will be removed.");
            assert(body@ =~= "N/A MiB of cached downloaded files will be removed."@);
        }
    }
    body
}

} // verus!
