//! The dialog in which the user enters the URL of a new download.
use vstd::prelude::*;
use vstd::string::*;
use crate::address::{ParsedUrl, parse_url, url_parse_result};

verus! {

/// The messages the dialog receives.
#[derive(Debug, Clone, PartialEq, Eq)]
pub enum NewDownloadInput {
    /// The user asks to create the download.
    Create,
    /// The dialog closes.
    Close,
    /// The entered text is not a URL.
    InvalidUrl,
}

/// The messages the dialog sends to the main window.
#[derive(Debug, PartialEq, Eq)]
pub enum NewDownloadOutput {
    /// Start a download of this URL.
    Create(ParsedUrl),
}

/// What the dialog does with its entry field, when anything.
#[derive(Debug, Clone, Copy, PartialEq, Eq)]
pub enum EntryChange {
    /// Leave it as it is.
    Keep,
    /// Empty it and drop its error style.
    Clear,
    /// Give it the error style.
    MarkInvalid,
}

/// What the dialog does after a message.
#[derive(Debug, PartialEq, Eq)]
pub struct NewDownloadEffects {
    /// The message sent to the main window, if any.
    pub output: Option<NewDownloadOutput>,
    /// The message the dialog sends to itself, if any.
    pub input: Option<NewDownloadInput>,
    /// What happens to the entry field.
    pub entry: EntryChange,
    /// Whether the dialog closes.
    pub close: bool,
}

/// The state of the dialog: the error line under the entry.
#[derive(Debug, Clone, PartialEq, Eq)]
pub struct NewDownload {
    pub error_text: String,
}

/// The error line shown for a text that is not a URL.
pub open spec fn invalid_url_text() -> Seq<char> {
    "The URL is invalid!"@
}

impl NewDownload {
    /// The dialog as it opens, with no error shown.
    pub fn init() -> (dialog: NewDownload)
        ensures
            dialog.error_text@ == Seq::<char>::empty(),
    {
        NewDownload { error_text: String::new() }
    }

    /// Reacts to a message; `entry` is the text in the entry field.
    ///
    /// - Create sends the parsed URL to the main window and closes the
    ///   dialog, or reports the text as invalid when it does not parse.
    /// - Close empties the entry and the error line, and closes the dialog.
    /// - InvalidUrl shows the error line and styles the entry as an error.
    pub fn update_with_view(&mut self, input: NewDownloadInput, entry: &str) -> (effects:
        NewDownloadEffects)
        ensures
            match input {
                NewDownloadInput::Create => {
                    &&& *final(self) == *old(self)
                    &&& effects.entry == EntryChange::Keep
                    &&& !effects.close
                    &&& match url_parse_result(entry@) {
                        Ok(parts) => effects.output matches Some(NewDownloadOutput::Create(url))
                            && parts == (url.text(), url.path_text()) && effects.input == Some(
                            NewDownloadInput::Close,
                        ),
                        Err(_) => effects.output is None && effects.input == Some(
                            NewDownloadInput::InvalidUrl,
                        ),
                    }
                },
                NewDownloadInput::Close => {
                    &&& final(self).error_text@ == Seq::<char>::empty()
                    &&& effects == NewDownloadEffects {
                        output: None,
                        input: None,
                        entry: EntryChange::Clear,
                        close: true,
                    }
                },
                NewDownloadInput::InvalidUrl => {
                    &&& final(self).error_text@ == invalid_url_text()
                    &&& effects == NewDownloadEffects {
                        output: None,
                        input: None,
                        entry: EntryChange::MarkInvalid,
                        close: false,
                    }
                },
            },
    {
        match input {
            NewDownloadInput::Create => {
                match parse_url(entry) {
                    Ok(url) => NewDownloadEffects {
                        output: Some(NewDownloadOutput::Create(url)),
                        input: Some(NewDownloadInput::Close),
                        entry: EntryChange::Keep,
                        close: false,
                    },
                    Err(_) => NewDownloadEffects {
                        output: None,
                        input: Some(NewDownloadInput::InvalidUrl),
                        entry: EntryChange::Keep,
                        close: false,
                    },
                }
            },
            NewDownloadInput::Close => {
                self.error_text = String::new();
                NewDownloadEffects { output: None, input: None, entry: EntryChange::Clear, close: true }
            },
            NewDownloadInput::InvalidUrl => {
                self.error_text = String::from_str("The URL is invalid!");
                NewDownloadEffects {
                    output: None,
                    input: None,
                    entry: EntryChange::MarkInvalid,
                    close: false,
                }
            },
        }
    }
}

} // verus!
