//! The session: a number of rounds, each on one sentence from the pool,
//! with counters that run over all of them.

use crate::metrics::{CountersView, SessionCounters};
use crate::pool::{may_answer, some_may_yield, Provider, ProviderPool};
use crate::source::{outcome_view, relayed, SourceError, SourceErrorView, Sourceable};
use crate::typing::{KeyEvent, TypingState, TypingView};
use std::time::Instant;
use vstd::prelude::*;
use vstd::utf8::*;

verus! {

/// Where a session stands.
#[derive(Clone, Copy, Debug, PartialEq, Eq, Structural)]
pub enum SessionPhase {
    /// A round is due, and its sentence has not been asked for.
    AwaitingSentence,
    /// The sentence of the round is being typed.
    InProgress,
    /// The sentence of the round is done; the round is not closed yet.
    RoundComplete,
    /// No round is left.
    Finished,
}

/// The mathematical model of a [`SentenceTyper`].
pub struct TyperView<S> {
    /// The sentence of the round.
    pub state: TypingView,
    /// The counters of the session.
    pub counters: CountersView,
    /// The registered providers.
    pub providers: Seq<Provider<S>>,
    /// Rounds that are not closed yet, the one under way among them.
    pub rounds_left: nat,
    /// Whether the round under way has its sentence.
    pub loaded: bool,
}

impl<S: Sourceable> TyperView<S> {
    /// Where the session stands.
    pub open spec fn phase(self) -> SessionPhase {
        if self.rounds_left == 0 {
            SessionPhase::Finished
        } else if !self.loaded {
            SessionPhase::AwaitingSentence
        } else if !self.state.is_complete() {
            SessionPhase::InProgress
        } else {
            SessionPhase::RoundComplete
        }
    }

    /// `provider` is registered, behind those that were.
    pub open spec fn registered(self, provider: Provider<S>) -> TyperView<S> {
        TyperView { providers: self.providers.push(provider), ..self }
    }

    /// A session of `rounds` rounds begins. The counters go on.
    pub open spec fn begun(self, rounds: nat) -> TyperView<S> {
        TyperView { rounds_left: rounds, loaded: false, ..self }
    }

    /// The round under way gets the sentence with bytes `bytes`.
    pub open spec fn fetched(self, bytes: Seq<u8>) -> TyperView<S> {
        TyperView { state: TypingView::loaded(bytes), loaded: true, ..self }
    }

    /// The counters can count what `input` does to the sentence.
    pub open spec fn can_take(self, input: KeyEvent) -> bool {
        self.counters.can_record(self.state.classify(input), input)
    }

    /// One input event arrives.
    pub open spec fn keyed(self, input: KeyEvent) -> TyperView<S> {
        TyperView {
            state: self.state.step(input),
            counters: self.counters.record(self.state.classify(input), input),
            ..self
        }
    }

    /// The round under way is closed.
    pub open spec fn closed(self) -> TyperView<S> {
        TyperView { rounds_left: (self.rounds_left - 1) as nat, loaded: false, ..self }
    }

    /// The session left to itself with the sentences `sentences` to fetch
    /// and the input events `inputs` to take, each in order: it fetches
    /// when a sentence is due, takes an event while a sentence is being
    /// typed, closes a round when its sentence is done, and stops when no
    /// round is left or what it needs next has run out.
    pub open spec fn driven(self, sentences: Seq<Seq<u8>>, inputs: Seq<KeyEvent>) -> TyperView<S>
        decreases self.rounds_left + sentences.len() + inputs.len(),
    {
        match self.phase() {
            SessionPhase::Finished => self,
            SessionPhase::AwaitingSentence => if sentences.len() == 0 {
                self
            } else {
                self.fetched(sentences[0]).driven(sentences.drop_first(), inputs)
            },
            SessionPhase::InProgress => if inputs.len() == 0 {
                self
            } else {
                self.keyed(inputs[0]).driven(sentences, inputs.drop_first())
            },
            SessionPhase::RoundComplete => self.closed().driven(sentences, inputs),
        }
    }

    /// How many of the input events `inputs` the session takes when it is
    /// left to itself as in `driven`.
    pub open spec fn taken(self, sentences: Seq<Seq<u8>>, inputs: Seq<KeyEvent>) -> nat
        decreases self.rounds_left + sentences.len() + inputs.len(),
    {
        match self.phase() {
            SessionPhase::Finished => 0,
            SessionPhase::AwaitingSentence => if sentences.len() == 0 {
                0
            } else {
                self.fetched(sentences[0]).taken(sentences.drop_first(), inputs)
            },
            SessionPhase::InProgress => if inputs.len() == 0 {
                0
            } else {
                1 + self.keyed(inputs[0]).taken(sentences, inputs.drop_first())
            },
            SessionPhase::RoundComplete => self.closed().taken(sentences, inputs),
        }
    }

    /// How many of the sentences `sentences` the session fetches when it
    /// is left to itself as in `driven`.
    pub open spec fn asked(self, sentences: Seq<Seq<u8>>, inputs: Seq<KeyEvent>) -> nat
        decreases self.rounds_left + sentences.len() + inputs.len(),
    {
        match self.phase() {
            SessionPhase::Finished => 0,
            SessionPhase::AwaitingSentence => if sentences.len() == 0 {
                0
            } else {
                1 + self.fetched(sentences[0]).asked(sentences.drop_first(), inputs)
            },
            SessionPhase::InProgress => if inputs.len() == 0 {
                0
            } else {
                self.keyed(inputs[0]).asked(sentences, inputs.drop_first())
            },
            SessionPhase::RoundComplete => self.closed().asked(sentences, inputs),
        }
    }

    /// `later` is where the session stands after it fetched the sentences
    /// `fetched` and took the input events `typed`, all of them: whatever
    /// comes after these, it goes on from `later`.
    pub open spec fn leads_to(
        self,
        later: TyperView<S>,
        fetched: Seq<Seq<u8>>,
        typed: Seq<KeyEvent>,
    ) -> bool {
        forall|more: Seq<Seq<u8>>, inputs: Seq<KeyEvent>|
            {
                &&& self.driven(fetched + more, typed + inputs) == #[trigger] later.driven(
                    more,
                    inputs,
                )
                &&& self.taken(fetched + more, typed + inputs) == typed.len() + later.taken(
                    more,
                    inputs,
                )
                &&& self.asked(fetched + more, typed + inputs) == fetched.len() + later.asked(
                    more,
                    inputs,
                )
            }
    }

    /// A session has led to where it stands before it fetched or took
    /// anything.
    pub proof fn lemma_leads_to_itself(self)
        ensures
            self.leads_to(self, Seq::empty(), Seq::empty()),
    {
        assert forall|more: Seq<Seq<u8>>, inputs: Seq<KeyEvent>|
            {
                &&& self.driven(Seq::<Seq<u8>>::empty() + more, Seq::<KeyEvent>::empty() + inputs)
                    == #[trigger] self.driven(more, inputs)
                &&& self.taken(Seq::<Seq<u8>>::empty() + more, Seq::<KeyEvent>::empty() + inputs)
                    == self.taken(more, inputs)
                &&& self.asked(Seq::<Seq<u8>>::empty() + more, Seq::<KeyEvent>::empty() + inputs)
                    == self.asked(more, inputs)
            } by {
            assert(Seq::<Seq<u8>>::empty() + more =~= more);
            assert(Seq::<KeyEvent>::empty() + inputs =~= inputs);
        }
    }

    /// Fetching the sentence that is due leads one sentence further.
    pub proof fn lemma_leads_over_fetch(
        self,
        later: TyperView<S>,
        fetched: Seq<Seq<u8>>,
        typed: Seq<KeyEvent>,
        bytes: Seq<u8>,
    )
        requires
            self.leads_to(later, fetched, typed),
            later.phase() == SessionPhase::AwaitingSentence,
        ensures
            self.leads_to(later.fetched(bytes), fetched.push(bytes), typed),
    {
        let next = later.fetched(bytes);
        assert forall|more: Seq<Seq<u8>>, inputs: Seq<KeyEvent>|
            {
                &&& self.driven(fetched.push(bytes) + more, typed + inputs)
                    == #[trigger] next.driven(more, inputs)
                &&& self.taken(fetched.push(bytes) + more, typed + inputs) == typed.len()
                    + next.taken(more, inputs)
                &&& self.asked(fetched.push(bytes) + more, typed + inputs) == fetched.push(
                    bytes,
                ).len() + next.asked(more, inputs)
            } by {
            let longer = seq![bytes] + more;
            assert(fetched.push(bytes) + more =~= fetched + longer);
            assert(longer.drop_first() =~= more);
            assert(later.driven(longer, inputs) == next.driven(more, inputs));
            assert(later.taken(longer, inputs) == next.taken(more, inputs));
            assert(later.asked(longer, inputs) == 1 + next.asked(more, inputs));
        }
    }

    /// Taking an input event while a sentence is typed leads one event
    /// further.
    pub proof fn lemma_leads_over_key(
        self,
        later: TyperView<S>,
        fetched: Seq<Seq<u8>>,
        typed: Seq<KeyEvent>,
        input: KeyEvent,
    )
        requires
            self.leads_to(later, fetched, typed),
            later.phase() == SessionPhase::InProgress,
        ensures
            self.leads_to(later.keyed(input), fetched, typed.push(input)),
    {
        let next = later.keyed(input);
        assert forall|more: Seq<Seq<u8>>, inputs: Seq<KeyEvent>|
            {
                &&& self.driven(fetched + more, typed.push(input) + inputs)
                    == #[trigger] next.driven(more, inputs)
                &&& self.taken(fetched + more, typed.push(input) + inputs) == typed.push(
                    input,
                ).len() + next.taken(more, inputs)
                &&& self.asked(fetched + more, typed.push(input) + inputs) == fetched.len()
                    + next.asked(more, inputs)
            } by {
            let longer = seq![input] + inputs;
            assert(typed.push(input) + inputs =~= typed + longer);
            assert(longer.drop_first() =~= inputs);
            assert(later.driven(more, longer) == next.driven(more, inputs));
            assert(later.taken(more, longer) == 1 + next.taken(more, inputs));
            assert(later.asked(more, longer) == next.asked(more, inputs));
        }
    }

    /// Closing a round whose sentence is done fetches and takes nothing.
    pub proof fn lemma_leads_over_close(
        self,
        later: TyperView<S>,
        fetched: Seq<Seq<u8>>,
        typed: Seq<KeyEvent>,
    )
        requires
            self.leads_to(later, fetched, typed),
            later.phase() == SessionPhase::RoundComplete,
        ensures
            self.leads_to(later.closed(), fetched, typed),
    {
        let next = later.closed();
        assert forall|more: Seq<Seq<u8>>, inputs: Seq<KeyEvent>|
            {
                &&& self.driven(fetched + more, typed + inputs) == #[trigger] next.driven(
                    more,
                    inputs,
                )
                &&& self.taken(fetched + more, typed + inputs) == typed.len() + next.taken(
                    more,
                    inputs,
                )
                &&& self.asked(fetched + more, typed + inputs) == fetched.len() + next.asked(
                    more,
                    inputs,
                )
            } by {
            assert(later.driven(more, inputs) == next.driven(more, inputs));
            assert(later.taken(more, inputs) == next.taken(more, inputs));
            assert(later.asked(more, inputs) == next.asked(more, inputs));
        }
    }

    /// Where the session stops, unless a round waits to be closed, it has
    /// fetched and taken exactly what led there.
    pub proof fn lemma_leads_to_stop(
        self,
        later: TyperView<S>,
        fetched: Seq<Seq<u8>>,
        typed: Seq<KeyEvent>,
    )
        requires
            self.leads_to(later, fetched, typed),
            later.phase() != SessionPhase::RoundComplete,
        ensures
            self.driven(fetched, typed) == later,
            self.taken(fetched, typed) == typed.len(),
            self.asked(fetched, typed) == fetched.len(),
    {
        assert(fetched + Seq::<Seq<u8>>::empty() =~= fetched);
        assert(typed + Seq::<KeyEvent>::empty() =~= typed);
        assert(later.driven(Seq::empty(), Seq::empty()) == later);
        assert(later.taken(Seq::empty(), Seq::empty()) == 0);
        assert(later.asked(Seq::empty(), Seq::empty()) == 0);
    }

    /// `after` is what a session of `rounds` rounds makes of `self` with
    /// the first `used` of the input events `inputs`, all of which it takes,
    /// for some sentences that the providers may give, all of which it
    /// fetches, no more than one per round.
    pub open spec fn drives_to(
        self,
        after: TyperView<S>,
        rounds: nat,
        inputs: Seq<KeyEvent>,
        used: int,
    ) -> bool {
        &&& 0 <= used <= inputs.len()
        &&& exists|texts: Seq<Seq<char>>|
            {
                &&& texts.len() <= rounds
                &&& forall|k: int|
                    0 <= k < texts.len() ==> some_may_yield(
                        self.providers,
                        Ok(#[trigger] texts[k]),
                    )
                &&& after == #[trigger] self.begun(rounds).driven(
                    sentence_bytes(texts),
                    inputs.take(used),
                )
                &&& self.begun(rounds).taken(sentence_bytes(texts), inputs.take(used)) == used
                &&& self.begun(rounds).asked(sentence_bytes(texts), inputs.take(used))
                    == texts.len()
            }
    }
}

/// The bytes of each of the sentences `texts`.
pub open spec fn sentence_bytes(texts: Seq<Seq<char>>) -> Seq<Seq<u8>> {
    texts.map_values(|text: Seq<char>| encode_utf8(text))
}

/// The sentence that a provider's answer puts on the screen: the sentence
/// itself, ready to be typed, or the reason of the failure, marked wrong.
pub open spec fn shown(outcome: Result<Seq<char>, Seq<char>>) -> TypingView {
    match outcome {
        Ok(sentence) => TypingView::loaded(encode_utf8(sentence)),
        Err(reason) => TypingView::failed(encode_utf8(reason)),
    }
}

/// The driver of a typing session.
pub struct SentenceTyper<S> {
    state: TypingState,
    counters: SessionCounters,
    pool: ProviderPool<S>,
    rounds_left: u8,
    loaded: bool,
}

impl<S> View for SentenceTyper<S> {
    type V = TyperView<S>;

    closed spec fn view(&self) -> TyperView<S> {
        TyperView {
            state: self.state@,
            counters: self.counters@,
            providers: self.pool@,
            rounds_left: self.rounds_left as nat,
            loaded: self.loaded,
        }
    }
}

impl<S: Sourceable> SentenceTyper<S> {
    /// The sentence of the round, as text.
    pub closed spec fn text(&self) -> Seq<char> {
        self.state.text()
    }

    /// The clock reading taken when the session started. The session keeps
    /// it to its end: no sentence, keystroke or round changes it.
    pub closed spec fn started(&self) -> Instant {
        self.counters.started()
    }

    /// The invariant: that of the sentence.
    pub open spec fn wf(&self) -> bool {
        &&& self@.state.wf()
        &&& self@.state.bytes == encode_utf8(self.text())
    }

    /// A one-round session on what `outcome`, a provider's answer, puts on
    /// the screen.
    pub fn from_outcome(outcome: Result<String, String>) -> (r: SentenceTyper<S>)
        ensures
            r.wf(),
            r@.state == shown(outcome_view(outcome)),
            r.text() == match outcome {
                Ok(sentence) => sentence@,
                Err(reason) => reason@,
            },
            r@.counters == CountersView::zero(),
            r@.providers.len() == 0,
            r@.rounds_left == 1,
            r@.loaded,
    {
        let state = match outcome {
            Ok(sentence) => TypingState::load(sentence),
            Err(reason) => TypingState::failed(reason),
        };
        SentenceTyper {
            state,
            counters: SessionCounters::new(),
            pool: ProviderPool::new(),
            rounds_left: 1,
            loaded: true,
        }
    }

    /// A one-round session on a sentence of `source`. Where `source` fails,
    /// its reason stands in place of the sentence, all of it marked wrong.
    pub fn new(source: &S) -> (r: SentenceTyper<S>)
        ensures
            r.wf(),
            exists|outcome: Result<Seq<char>, Seq<char>>| #[trigger]
                source.may_yield(outcome) && r@.state == shown(outcome) && r.text() == match outcome {
                    Ok(sentence) => sentence,
                    Err(reason) => reason,
                },
            r@.counters == CountersView::zero(),
            r@.providers.len() == 0,
            r@.rounds_left == 1,
            r@.loaded,
    {
        let outcome = source.get_new_sentence();
        let ghost answer = outcome_view(outcome);
        let r = SentenceTyper::from_outcome(outcome);
        assert(source.may_yield(answer) && r@.state == shown(answer));
        r
    }

    /// A one-round session that shows `error_msg` in place of a sentence.
    pub fn error(error_msg: String) -> (r: SentenceTyper<S>)
        ensures
            r.wf(),
            r@.state == TypingView::failed(encode_utf8(error_msg@)),
            r.text() == error_msg@,
            r@.counters == CountersView::zero(),
            r@.providers.len() == 0,
            r@.rounds_left == 1,
            r@.loaded,
    {
        SentenceTyper::from_outcome(Err(error_msg))
    }

    /// Registers `source` as one more provider, behind those that are
    /// there.
    pub fn add_source(&mut self, source: S)
        ensures
            final(self).wf() == old(self).wf(),
            final(self).text() == old(self).text(),
            final(self)@ == old(self)@.registered(Provider { source }),
            final(self).started() == old(self).started(),
    {
        self.pool.register(source);
    }

    /// Where the session stands.
    pub fn phase(&self) -> (r: SessionPhase)
        ensures
            r == self@.phase(),
    {
        if self.rounds_left == 0 {
            SessionPhase::Finished
        } else if !self.loaded {
            SessionPhase::AwaitingSentence
        } else if !self.state.is_complete() {
            SessionPhase::InProgress
        } else {
            SessionPhase::RoundComplete
        }
    }

    /// Begins a session of `n_of_sentences` rounds. The counters go on.
    pub fn begin(&mut self, n_of_sentences: u8)
        ensures
            final(self).wf() == old(self).wf(),
            final(self).text() == old(self).text(),
            final(self)@ == old(self)@.begun(n_of_sentences as nat),
            final(self).started() == old(self).started(),
    {
        self.rounds_left = n_of_sentences;
        self.loaded = false;
    }

    /// Asks the pool for the sentence of the round. A failure leaves the
    /// session as it was.
    pub fn get_next_sentence(&mut self) -> (r: Result<(), SourceError>)
        requires
            old(self).wf(),
        ensures
            final(self).wf(),
            final(self).started() == old(self).started(),
            match r {
                Ok(_) => {
                    &&& may_answer(old(self)@.providers, Ok(final(self).text()))
                    &&& final(self)@ == old(self)@.fetched(encode_utf8(final(self).text()))
                },
                Err(e) => {
                    &&& may_answer(old(self)@.providers, Err(e@))
                    &&& final(self)@ == old(self)@
                    &&& final(self).text() == old(self).text()
                },
            },
    {
        match self.pool.next_sentence() {
            Ok(sentence) => {
                self.state = TypingState::load(sentence);
                self.loaded = true;
                Ok(())
            },
            Err(e) => Err(e),
        }
    }

    /// Whether the counters can count what `input` does to the sentence.
    pub fn can_take(&self, input: KeyEvent) -> (r: bool)
        requires
            self.wf(),
        ensures
            r == self@.can_take(input),
    {
        let stroke = self.state.classify(input);
        self.counters.can_record(stroke, input)
    }

    /// Applies one input event to the sentence of the round and counts it.
    pub fn apply_keystroke(&mut self, input: KeyEvent)
        requires
            old(self).wf(),
            old(self)@.can_take(input),
        ensures
            final(self).wf(),
            final(self).text() == old(self).text(),
            final(self)@ == old(self)@.keyed(input),
            final(self).started() == old(self).started(),
    {
        let stroke = self.state.apply(input);
        self.counters.record(stroke, input);
    }

    /// Closes the round under way, whose sentence is done.
    pub fn close_round(&mut self)
        requires
            old(self).wf(),
            old(self)@.phase() == SessionPhase::RoundComplete,
        ensures
            final(self).wf(),
            final(self).text() == old(self).text(),
            final(self)@ == old(self)@.closed(),
            final(self).started() == old(self).started(),
    {
        self.rounds_left -= 1;
        self.loaded = false;
    }

    /// Runs a session of `n_of_sentences` rounds on the input events
    /// `keys`: it fetches a sentence for each round, feeds it events until
    /// it is done, and closes the round. It stops when all rounds are
    /// closed, when no sentence could be had, or in the middle of a
    /// sentence when the events have run out or the next one cannot be
    /// counted any more. It says how many events it took.
    pub fn type_sentences(&mut self, n_of_sentences: u8, keys: &Vec<KeyEvent>) -> (r: Result<
        usize,
        SourceError,
    >)
        requires
            old(self).wf(),
        ensures
            final(self).wf(),
            final(self).started() == old(self).started(),
            match r {
                Ok(used) => {
                    &&& old(self)@.drives_to(final(self)@, n_of_sentences as nat, keys@, used as int)
                    &&& final(self)@.phase() == SessionPhase::Finished || (final(self)@.phase()
                        == SessionPhase::InProgress && (used == keys@.len()
                        || !final(self)@.can_take(keys@[used as int])))
                },
                Err(e) => {
                    &&& exists|used: int| #[trigger]
                        old(self)@.drives_to(final(self)@, n_of_sentences as nat, keys@, used)
                    &&& final(self)@.phase() == SessionPhase::AwaitingSentence
                    &&& may_answer(old(self)@.providers, Err(e@))
                },
            },
    {
        let ghost start = self@.begun(n_of_sentences as nat);
        let ghost mut texts: Seq<Seq<char>> = Seq::empty();
        self.begin(n_of_sentences);
        let mut used: usize = 0;
        proof {
            start.lemma_leads_to_itself();
            assert(sentence_bytes(texts) =~= Seq::<Seq<u8>>::empty());
            assert(keys@.take(0) =~= Seq::<KeyEvent>::empty());
        }
        loop
            invariant
                self.wf(),
                self.started() == old(self).started(),
                used <= keys@.len(),
                self@.providers == old(self)@.providers,
                start == old(self)@.begun(n_of_sentences as nat),
                forall|k: int|
                    0 <= k < texts.len() ==> some_may_yield(
                        old(self)@.providers,
                        Ok(#[trigger] texts[k]),
                    ),
                texts.len() + self@.rounds_left == n_of_sentences + if self@.loaded {
                    1int
                } else {
                    0int
                },
                self@.loaded ==> self@.rounds_left > 0,
                start.leads_to(self@, sentence_bytes(texts), keys@.take(used as int)),
            decreases 2 * self@.rounds_left + (keys@.len() - used) + if self@.loaded {
                0int
            } else {
                1int
            },
        {
            let ghost cur = self@;
            let ghost fetched = sentence_bytes(texts);
            let ghost typed = keys@.take(used as int);
            match self.phase() {
                SessionPhase::Finished => {
                    proof {
                        start.lemma_leads_to_stop(cur, fetched, typed);
                    }
                    return Ok(used);
                },
                SessionPhase::AwaitingSentence => {
                    match self.get_next_sentence() {
                        Err(e) => {
                            proof {
                                start.lemma_leads_to_stop(cur, fetched, typed);
                                assert(old(self)@.drives_to(
                                    self@,
                                    n_of_sentences as nat,
                                    keys@,
                                    used as int,
                                ));
                            }
                            return Err(e);
                        },
                        Ok(_) => {
                            proof {
                                let text = self.text();
                                let answer = choose|outcome: Result<Seq<char>, Seq<char>>|
                                    #[trigger] some_may_yield(old(self)@.providers, outcome) && Ok::<
                                        Seq<char>,
                                        SourceErrorView,
                                    >(text) == relayed(outcome);
                                assert(answer == Ok::<Seq<char>, Seq<char>>(text));
                                start.lemma_leads_over_fetch(cur, fetched, typed, encode_utf8(text));
                                assert(sentence_bytes(texts.push(text)) =~= fetched.push(
                                    encode_utf8(text),
                                ));
                                texts = texts.push(text);
                            }
                        },
                    }
                },
                SessionPhase::InProgress => {
                    if used == keys.len() {
                        proof {
                            start.lemma_leads_to_stop(cur, fetched, typed);
                        }
                        return Ok(used);
                    }
                    let key = keys[used];
                    if !self.can_take(key) {
                        proof {
                            start.lemma_leads_to_stop(cur, fetched, typed);
                        }
                        return Ok(used);
                    }
                    self.apply_keystroke(key);
                    proof {
                        start.lemma_leads_over_key(cur, fetched, typed, key);
                        assert(keys@.take(used + 1) =~= typed.push(key));
                    }
                    used += 1;
                },
                SessionPhase::RoundComplete => {
                    self.close_round();
                    proof {
                        start.lemma_leads_over_close(cur, fetched, typed);
                    }
                },
            }
        }
    }

    /// The sentence of the round with its marks and cursor.
    pub fn state(&self) -> (r: &TypingState)
        ensures
            r@ == self@.state,
            r.text() == self.text(),
            r.wf() == self.wf(),
    {
        &self.state
    }

    /// The counters of the session.
    pub fn counters(&self) -> (r: &SessionCounters)
        ensures
            r@ == self@.counters,
            r.started() == self.started(),
    {
        &self.counters
    }

    /// Number of registered providers.
    pub fn source_count(&self) -> (r: usize)
        ensures
            r == self@.providers.len(),
    {
        self.pool.len()
    }

    /// Rounds that are not closed yet.
    pub fn rounds_left(&self) -> (r: u8)
        ensures
            r == self@.rounds_left,
    {
        self.rounds_left
    }
}

impl<S: Sourceable> Default for SentenceTyper<S> {
    /// A session without sentence, provider or round.
    fn default() -> (r: SentenceTyper<S>)
        ensures
            r.wf(),
            r@.state == TypingView::loaded(Seq::empty()),
            r.text() == Seq::<char>::empty(),
            r@.counters == CountersView::zero(),
            r@.providers.len() == 0,
            r@.rounds_left == 0,
            !r@.loaded,
    {
        let state = TypingState::load(String::new());
        assert(encode_utf8(Seq::<char>::empty()) =~= Seq::<u8>::empty());
        SentenceTyper {
            state,
            counters: SessionCounters::new(),
            pool: ProviderPool::new(),
            rounds_left: 0,
            loaded: false,
        }
    }
}

} // verus!
