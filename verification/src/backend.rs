//! What a backend reports: its errors and the results of a batch.

use serde_json::Value;
use vstd::hash_map::StringHashMap;
use vstd::prelude::*;

verus! {

/// Error raised by a backend.
#[derive(Debug)]
pub enum BackendError {
    /// Underlying transport / HTTP error.
    Transport(String),
    /// Provider returned an error payload.
    Provider(String),
    /// Anything else.
    Other(String),
}

/// A [`BackendError`] with its text as a sequence of characters.
pub enum ErrorView {
    Transport(Seq<char>),
    Provider(Seq<char>),
    Other(Seq<char>),
}

/// What one caller is told: the response, or why there is none.
pub type Outcome = Result<Value, BackendError>;

/// An [`Outcome`] with its error as an [`ErrorView`].
pub type OutcomeView = Result<Value, ErrorView>;

impl View for BackendError {
    type V = ErrorView;

    open spec fn view(&self) -> ErrorView {
        match self {
            BackendError::Transport(text) => ErrorView::Transport(text@),
            BackendError::Provider(text) => ErrorView::Provider(text@),
            BackendError::Other(text) => ErrorView::Other(text@),
        }
    }
}

/// The view of an outcome.
pub open spec fn outcome_view(outcome: Outcome) -> OutcomeView {
    match outcome {
        Ok(value) => Ok(value),
        Err(error) => Err(error@),
    }
}

impl ErrorView {
    /// The text shown for the error.
    pub open spec fn message(self) -> Seq<char> {
        match self {
            ErrorView::Transport(text) => "backend transport error: "@ + text,
            ErrorView::Provider(text) => "provider error: "@ + text,
            ErrorView::Other(text) => "backend error: "@ + text,
        }
    }
}

impl BackendError {
    /// The error as text: what kind of error it is, then its own text.
    pub fn to_string(&self) -> (message: String)
        ensures
            message@ == self@.message(),
    {
        match self {
            BackendError::Transport(text) => "backend transport error: ".to_string().concat(
                text.as_str(),
            ),
            BackendError::Provider(text) => "provider error: ".to_string().concat(text.as_str()),
            BackendError::Other(text) => "backend error: ".to_string().concat(text.as_str()),
        }
    }

    /// An error of the same kind with the same text.
    fn duplicate(&self) -> (copy: BackendError)
        ensures
            copy == *self,
    {
        match self {
            BackendError::Transport(text) => BackendError::Transport(text.clone()),
            BackendError::Provider(text) => BackendError::Provider(text.clone()),
            BackendError::Other(text) => BackendError::Other(text.clone()),
        }
    }
}

/// The results of one batch, by request identifier.
pub struct BatchResults {
    by_id: StringHashMap<Outcome>,
}

impl View for BatchResults {
    type V = Map<Seq<char>, Outcome>;

    closed spec fn view(&self) -> Map<Seq<char>, Outcome> {
        self.by_id@
    }
}

impl BatchResults {
    /// No results.
    pub fn new() -> (results: Self)
        ensures
            results@ == Map::<Seq<char>, Outcome>::empty(),
    {
        BatchResults { by_id: StringHashMap::new() }
    }

    /// Sets the result of the request `id`; an earlier result of it is replaced.
    pub fn insert(&mut self, id: String, outcome: Outcome)
        ensures
            final(self)@ == old(self)@.insert(id@, outcome),
    {
        self.by_id.insert(id, outcome);
    }

    /// Takes the result of the request `id` out, if there is one.
    pub fn remove(&mut self, id: &String) -> (outcome: Option<Outcome>)
        ensures
            final(self)@ == old(self)@.remove(id@),
            outcome == (if old(self)@.contains_key(id@) {
                Some(old(self)@[id@])
            } else {
                None
            }),
    {
        let outcome = match self.by_id.get(id.as_str()) {
            Some(Ok(value)) => Some(Ok(value.clone())),
            Some(Err(error)) => Some(Err(error.duplicate())),
            None => None,
        };
        self.by_id.remove(id.as_str());
        outcome
    }
}

} // verus!
