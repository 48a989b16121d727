//! The remote data loader: one fetch per page load, whose outcome moves the
//! loader from "not started" to "loaded" or "failed".  The fetch itself is
//! outside work; the loader consumes its outcome and decodes the body.
//!
//! A failed fetch or a bad body leaves a visible failed state; it never
//! takes the page down.

use vstd::prelude::*;
use crate::content::{DataSchema, Entry, clone_entries, entries_view};
use crate::schema::{SchemaError, parse_data, spec_parse_data};

verus! {

/// Why no document is shown.
#[derive(Clone, Debug, PartialEq, Eq)]
pub enum LoadError {
    /// The request itself failed; the message describes how.
    Fetch(String),
    /// The body arrived but is not a well-shaped document.
    Decode(SchemaError),
}

/// The three observable states of the one fetch.
#[derive(Debug, PartialEq, Eq)]
pub enum LoadState {
    NotStarted,
    Loaded(DataSchema),
    Failed(LoadError),
}

/// Fetches one document from a fixed URL and exposes the outcome.
#[derive(Debug, PartialEq, Eq)]
pub struct RemoteDataLoader {
    pub url: String,
    pub state: LoadState,
}

impl RemoteDataLoader {
    /// A loader for the document at `url`; nothing fetched yet.
    pub fn new(url: String) -> (r: RemoteDataLoader)
        ensures
            r.url@ == url@,
            r.state is NotStarted,
    {
        RemoteDataLoader { url, state: LoadState::NotStarted }
    }

    /// Consume the outcome of the one fetch: decode the body on success,
    /// record the failure otherwise.  The loader resolves exactly once.
    pub fn resolve(&mut self, outcome: Result<String, String>)
        requires
            old(self).state is NotStarted,
        ensures
            final(self).url == old(self).url,
            (match outcome {
                Err(msg) => final(self).state == LoadState::Failed(LoadError::Fetch(msg)),
                Ok(body) => (match spec_parse_data(body@) {
                    Some(d) => final(self).state matches LoadState::Loaded(data) && data@ == d,
                    None => final(self).state == LoadState::Failed(
                        LoadError::Decode(SchemaError::Malformed),
                    ),
                }),
            }),
    {
        match outcome {
            Err(msg) => {
                self.state = LoadState::Failed(LoadError::Fetch(msg));
            },
            Ok(body) => {
                match parse_data(body.as_str()) {
                    Ok(d) => {
                        self.state = LoadState::Loaded(d);
                    },
                    Err(e) => {
                        self.state = LoadState::Failed(LoadError::Decode(e));
                    },
                }
            },
        }
    }

    /// The loaded document, if there is one.
    pub fn data(&self) -> (r: Option<&DataSchema>)
        ensures
            (match self.state {
                LoadState::Loaded(d) => r matches Some(rd) && *rd == d,
                _ => r is None,
            }),
    {
        match &self.state {
            LoadState::Loaded(d) => Some(d),
            _ => None,
        }
    }

    /// The three sections to show: the loaded ones, or empty sections while
    /// nothing is loaded or the load failed.  This is the fallback state the
    /// dependent views render; a failure never panics.
    pub fn sections(&self) -> (r: (Vec<Entry>, Vec<Entry>, Vec<Entry>))
        ensures
            (match self.state {
                LoadState::Loaded(d) => entries_view(r.0@) == entries_view(d.projects@)
                    && entries_view(r.1@) == entries_view(d.articles@) && entries_view(r.2@)
                    == entries_view(d.contacts@),
                _ => r.0@.len() == 0 && r.1@.len() == 0 && r.2@.len() == 0,
            }),
    {
        match &self.state {
            LoadState::Loaded(d) => (
                clone_entries(&d.projects),
                clone_entries(&d.articles),
                clone_entries(&d.contacts),
            ),
            _ => (Vec::new(), Vec::new(), Vec::new()),
        }
    }
}

} // verus!
