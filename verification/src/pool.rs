//! The providers registered for a session, and the choice among them.

use crate::random::pick_one;
use crate::source::{
    outcome_view, relay, relayed, request_view, SourceError, SourceErrorView, Sourceable,
};
use vstd::prelude::*;

verus! {

/// One registered provider: a source of sentences, taken in by the pool.
pub struct Provider<S> {
    /// The source that is asked.
    pub source: S,
}

impl<S: Sourceable> Provider<S> {
    /// Takes `source` in as a provider: the provider holds `source` itself.
    fn new(source: S) -> (r: Provider<S>)
        ensures
            r == (Provider { source }),
    {
        Provider { source }
    }

    /// Whether asking the provider for a sentence may end in `outcome`: it
    /// may where asking its source may.
    pub open spec fn may_yield(&self, outcome: Result<Seq<char>, Seq<char>>) -> bool {
        self.source.may_yield(outcome)
    }

    /// Asks the provider for a sentence and passes its answer on.
    pub fn produce(&self) -> (r: Result<String, SourceError>)
        ensures
            exists|outcome: Result<Seq<char>, Seq<char>>| #[trigger]
                self.may_yield(outcome) && request_view(r) == relayed(outcome),
    {
        let outcome = self.source.get_new_sentence();
        let r = relay(outcome);
        assert(self.may_yield(outcome_view(outcome)));
        r
    }
}

/// Whether asking one of `providers` for a sentence may end in `outcome`.
pub open spec fn some_may_yield<S: Sourceable>(
    providers: Seq<Provider<S>>,
    outcome: Result<Seq<char>, Seq<char>>,
) -> bool {
    exists|i: int| 0 <= i < providers.len() && (#[trigger] providers[i]).may_yield(outcome)
}

/// What a request to `providers` may end in: with none registered, in the
/// report of that; else in what one of them answers, passed on.
pub open spec fn may_answer<S: Sourceable>(
    providers: Seq<Provider<S>>,
    r: Result<Seq<char>, SourceErrorView>,
) -> bool {
    if providers.len() == 0 {
        r == Err::<Seq<char>, SourceErrorView>(SourceErrorView::ProviderUnavailable)
    } else {
        exists|outcome: Result<Seq<char>, Seq<char>>| #[trigger]
            some_may_yield(providers, outcome) && r == relayed(outcome)
    }
}

/// The providers of a session, in the order of their registration. They
/// are of one type; a pool of several kinds takes a type that stands for
/// all of them.
pub struct ProviderPool<S> {
    providers: Vec<Provider<S>>,
}

impl<S> View for ProviderPool<S> {
    type V = Seq<Provider<S>>;

    closed spec fn view(&self) -> Seq<Provider<S>> {
        self.providers@
    }
}

impl<S: Sourceable> ProviderPool<S> {
    /// Number of registered providers.
    pub open spec fn count(&self) -> nat {
        self@.len()
    }

    /// A pool without providers.
    pub fn new() -> (r: ProviderPool<S>)
        ensures
            r.count() == 0,
    {
        ProviderPool { providers: Vec::new() }
    }

    /// Number of registered providers.
    pub fn len(&self) -> (r: usize)
        ensures
            r == self.count(),
    {
        self.providers.len()
    }

    /// Appends `source` as one more provider, behind those that are there.
    /// Providers that are equal are not merged.
    pub fn register(&mut self, source: S)
        ensures
            final(self)@ == old(self)@.push(Provider { source }),
    {
        let provider = Provider::new(source);
        self.providers.push(provider);
    }

    /// Asks one provider, picked at random, for a sentence and passes its
    /// answer on. An empty pool has nobody to ask.
    pub fn next_sentence(&self) -> (r: Result<String, SourceError>)
        ensures
            may_answer(self@, request_view(r)),
    {
        match pick_one(&self.providers) {
            None => Err(SourceError::ProviderUnavailable),
            Some(provider) => {
                let r = provider.produce();
                proof {
                    let i = choose|i: int|
                        0 <= i < self.providers@.len() && self.providers@[i] == *provider;
                    let outcome = choose|outcome: Result<Seq<char>, Seq<char>>| #[trigger]
                        provider.may_yield(outcome) && request_view(r) == relayed(outcome);
                    assert(self@[i].may_yield(outcome));
                    assert(some_may_yield(self@, outcome));
                }
                r
            },
        }
    }
}

} // verus!
