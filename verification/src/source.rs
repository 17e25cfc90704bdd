//! What a sentence provider is, and how its failures are reported.

use vstd::prelude::*;

verus! {

/// A provider of sentences: it produces one sentence on request, or fails
/// with a reason. How it finds the sentence is its own business.
pub trait Sourceable {
    /// Whether asking for a sentence may end in `outcome`. A provider that
    /// says nothing else may end in any.
    open spec fn may_yield(&self, outcome: Result<Seq<char>, Seq<char>>) -> bool {
        true
    }

    /// Produces one sentence, or fails with a reason.
    fn get_new_sentence(&self) -> (r: Result<String, String>)
        ensures
            self.may_yield(outcome_view(r)),
    ;
}

/// Why a session could not go on.
#[derive(Debug)]
pub enum SourceError {
    /// No provider is registered.
    ProviderUnavailable,
    /// The provider that was asked failed; the text is its reason.
    ProviderFetchFailed(String),
    /// The configuration cannot be used; the text says why.
    ConfigurationInvalid(String),
}

/// The mathematical model of a [`SourceError`].
pub enum SourceErrorView {
    ProviderUnavailable,
    ProviderFetchFailed(Seq<char>),
    ConfigurationInvalid(Seq<char>),
}

impl View for SourceError {
    type V = SourceErrorView;

    open spec fn view(&self) -> SourceErrorView {
        match self {
            SourceError::ProviderUnavailable => SourceErrorView::ProviderUnavailable,
            SourceError::ProviderFetchFailed(reason) => SourceErrorView::ProviderFetchFailed(
                reason@,
            ),
            SourceError::ConfigurationInvalid(reason) => SourceErrorView::ConfigurationInvalid(
                reason@,
            ),
        }
    }
}

/// The text shown when no provider is registered.
pub open spec fn unavailable_text() -> Seq<char> {
    "No source provided! Please provide source according to `typers --help`"@
}

impl SourceError {
    /// The error as a line for the diagnostic stream.
    pub fn message(&self) -> (r: String)
        ensures
            r@ == match self@ {
                SourceErrorView::ProviderUnavailable => unavailable_text(),
                SourceErrorView::ProviderFetchFailed(reason) => reason,
                SourceErrorView::ConfigurationInvalid(reason) => reason,
            },
    {
        match self {
            SourceError::ProviderUnavailable => String::from_str(
                "No source provided! Please provide source according to `typers --help`",
            ),
            SourceError::ProviderFetchFailed(reason) => reason.clone(),
            SourceError::ConfigurationInvalid(reason) => reason.clone(),
        }
    }
}

/// What a provider's answer looks like, as plain text.
pub open spec fn outcome_view(outcome: Result<String, String>) -> Result<Seq<char>, Seq<char>> {
    match outcome {
        Ok(sentence) => Ok(sentence@),
        Err(reason) => Err(reason@),
    }
}

/// What the session makes of a provider's answer: a sentence is passed on
/// as it is, and a failure keeps its reason.
pub open spec fn relayed(outcome: Result<Seq<char>, Seq<char>>) -> Result<
    Seq<char>,
    SourceErrorView,
> {
    match outcome {
        Ok(sentence) => Ok(sentence),
        Err(reason) => Err(SourceErrorView::ProviderFetchFailed(reason)),
    }
}

/// The model of a sentence request's result.
pub open spec fn request_view(r: Result<String, SourceError>) -> Result<
    Seq<char>,
    SourceErrorView,
> {
    match r {
        Ok(sentence) => Ok(sentence@),
        Err(e) => Err(e@),
    }
}

/// Passes a provider's answer on, unchanged but for the error's type.
pub fn relay(outcome: Result<String, String>) -> (r: Result<String, SourceError>)
    ensures
        request_view(r) == relayed(outcome_view(outcome)),
{
    match outcome {
        Ok(sentence) => Ok(sentence),
        Err(reason) => Err(SourceError::ProviderFetchFailed(reason)),
    }
}

} // verus!
