//! A provider that holds its sentences in memory.

use crate::random::pick_one;
use crate::source::Sourceable;
use crate::text::{split_inclusive, split_trimmed, trim};
use vstd::prelude::*;

verus! {

/// The reason given when a provider holds no sentence.
pub open spec fn no_sentence_text() -> Seq<char> {
    "Could not get a sentence!"@
}

/// The sentences of one text, cut behind a separator.
#[derive(Debug)]
pub struct TextSource {
    sentences: Vec<String>,
}

impl View for TextSource {
    type V = Seq<Seq<char>>;

    closed spec fn view(&self) -> Seq<Seq<char>> {
        self.sentences@.map_values(|s: String| s@)
    }
}

impl TextSource {
    /// Cuts `text` behind each `separator` and keeps every piece, without
    /// the white space at its two ends, as one sentence.
    pub fn new(text: String, separator: char) -> (r: TextSource)
        ensures
            r@ == split_inclusive(text@, separator).map_values(|piece: Seq<char>| trim(piece)),
    {
        let sentences = split_trimmed(text.as_str(), separator);
        let r = TextSource { sentences };
        assert(r@ =~= split_inclusive(text@, separator).map_values(|piece: Seq<char>| trim(piece)));
        r
    }

    /// The sentences held, in the order of the text.
    pub fn sentences(&self) -> (r: &Vec<String>)
        ensures
            r@.map_values(|s: String| s@) == self@,
    {
        &self.sentences
    }
}

impl Sourceable for TextSource {
    /// Asking ends in one of the sentences held, or in a failure where
    /// none is held.
    open spec fn may_yield(&self, outcome: Result<Seq<char>, Seq<char>>) -> bool {
        match outcome {
            Ok(sentence) => self@.contains(sentence),
            Err(reason) => self@.len() == 0 && reason == no_sentence_text(),
        }
    }

    /// One of the sentences held, picked at random; a failure where none is held.
    fn get_new_sentence(&self) -> (r: Result<String, String>)
        ensures
            self@.len() > 0 <==> r is Ok,
            r matches Ok(sentence) ==> self@.contains(sentence@),
            r matches Err(reason) ==> reason@ == no_sentence_text(),
    {
        match pick_one(&self.sentences) {
            Some(sentence) => {
                proof {
                    let i = choose|i: int|
                        0 <= i < self.sentences@.len() && self.sentences@[i] == *sentence;
                    assert(self@[i] == sentence@);
                }
                Ok(sentence.clone())
            },
            None => Err(String::from_str("Could not get a sentence!")),
        }
    }
}

} // verus!
