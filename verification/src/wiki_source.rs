//! The remote provider: random article summaries, one language at a time.
//! The request itself is the caller's; what to ask for and what to make of
//! the answer is decided here.

use crate::config::{Config, Configurable};
use crate::json::{json_member, member_text};
use crate::random::pick_one;
use crate::source::{outcome_view, SourceError, SourceErrorView};
use crate::text::{alphabetic, chars_of, option_text};
use iso639_1::{Iso639_1, Iso639v1Error};
use vstd::prelude::*;
use vstd::utf8::*;

verus! {

/// `iso639_1::Iso639_1`: a language of ISO 639-1.
#[verifier::external_type_specification]
#[verifier::external_body]
pub struct ExIso639_1(Iso639_1);

/// `iso639_1::Iso639v1Error`: why a text names no such language.
#[verifier::external_type_specification]
#[verifier::external_body]
pub struct ExIso639v1Error(Iso639v1Error);

/// Whether `code` is one of the two-letter codes of ISO 639-1, as the
/// crate iso639-1 lists them.
pub uninterp spec fn is_language_code(code: Seq<char>) -> bool;

/// What `any_ascii::any_ascii` makes of `text`.
pub uninterp spec fn ascii_of(text: Seq<char>) -> Seq<char>;

/// Looks `code` up among the languages of ISO 639-1.
///
/// This is `Iso639_1::try_from` on a string slice. Believed of it: whether
/// it succeeds depends on `code` alone.
#[verifier::external_body]
pub(crate) fn language_of(code: &str) -> (r: Result<Iso639_1, Iso639v1Error>)
    ensures
        r is Ok <==> is_language_code(code@),
{
    Iso639_1::try_from(code)
}

/// Writes `text` in ASCII.
///
/// This is `any_ascii::any_ascii`. Believed of it: the result depends on
/// `text` alone and holds ASCII characters only, and a text that is ASCII
/// already comes back unchanged.
#[verifier::external_body]
pub(crate) fn to_ascii(text: &str) -> (r: String)
    ensures
        r@ == ascii_of(text@),
        is_ascii_chars(r@),
        is_ascii_chars(text@) ==> r@ == text@,
{
    any_ascii::any_ascii(text)
}

/// The letters of `text`, in order.
pub open spec fn letters_of(text: Seq<char>) -> Seq<char> {
    text.filter(|c: char| alphabetic(c))
}

/// The language codes that the entries `entries` of a configuration give:
/// the letters of each entry, where they are a code of ISO 639-1.
pub open spec fn usable_languages(entries: Seq<Seq<char>>) -> Seq<Seq<char>> {
    entries.map_values(|entry: Seq<char>| letters_of(entry)).filter(
        |code: Seq<char>| is_language_code(code),
    )
}

/// The address that gives a random summary in language `code`.
pub open spec fn summary_url(code: Seq<char>) -> Seq<char> {
    "https://"@ + code + ".wikipedia.org/api/rest_v1/page/random/summary"@
}

/// `text` without its first and last character, where both are a double quote.
pub open spec fn unquoted(text: Seq<char>) -> Option<Seq<char>> {
    if text.len() >= 2 && text.first() == '"' && text.last() == '"' {
        Some(text.subrange(1, text.len() - 1))
    } else {
        None
    }
}

/// `text` without its backslashes.
pub open spec fn without_backslashes(text: Seq<char>) -> Seq<char> {
    text.filter(|c: char| c != '\\')
}

/// The reason given when no language of the configuration can be used.
pub open spec fn no_language_text() -> Seq<char> {
    "No languages parsed successfully! Please check the config and try again."@
}

/// What precedes the transport's reason when a request failed.
pub open spec fn request_error_prefix() -> Seq<char> {
    "Error ocurred while sending request: "@
}

/// The reason given for an answer that holds no summary.
pub open spec fn malformed_text() -> Seq<char> {
    "Received a summary that cannot be read!"@
}

/// The reason given for an answer with another status than 200.
pub open spec fn status_text(status_line: Seq<char>) -> Seq<char> {
    "Received status code "@ + status_line + " instead of 200 OK"@
}

/// How a request to the remote source ended, as the caller saw it.
#[derive(Debug)]
pub enum HttpOutcome {
    /// No answer came; the text is the transport's reason.
    Failed(String),
    /// An answer came.
    Answered {
        /// The status code.
        status: u16,
        /// The status as the answer words it, code and phrase.
        status_line: String,
        /// The body of the answer.
        body: String,
    },
}

/// The mathematical model of an [`HttpOutcome`].
pub enum HttpOutcomeView {
    Failed(Seq<char>),
    Answered { status: int, status_line: Seq<char>, body: Seq<char> },
}

impl View for HttpOutcome {
    type V = HttpOutcomeView;

    open spec fn view(&self) -> HttpOutcomeView {
        match self {
            HttpOutcome::Failed(reason) => HttpOutcomeView::Failed(reason@),
            HttpOutcome::Answered { status, status_line, body } => HttpOutcomeView::Answered {
                status: *status as int,
                status_line: status_line@,
                body: body@,
            },
        }
    }
}

/// The text of the member `extract` of a summary, given as that member is
/// written in JSON: what stands between the quotes, without backslashes.
/// Nothing where there is no member, or it is not quoted.
pub open spec fn extract_text(member: Option<Seq<char>>) -> Option<Seq<char>> {
    match member {
        None => None,
        Some(written) => match unquoted(written) {
            None => None,
            Some(inner) => Some(without_backslashes(inner)),
        },
    }
}

/// The sentence in the member `extract` of a summary, given as that member
/// is written in JSON: its text, in ASCII.
pub open spec fn sentence_of_extract(member: Option<Seq<char>>) -> Result<Seq<char>, Seq<char>> {
    match extract_text(member) {
        None => Err(malformed_text()),
        Some(text) => Ok(ascii_of(text)),
    }
}

/// The member `extract` of the answer that a request ended in, as it is
/// written in JSON; nothing where the request ended otherwise than in an
/// answer with status 200.
pub open spec fn answered_extract(outcome: HttpOutcomeView) -> Option<Seq<char>> {
    match outcome {
        HttpOutcomeView::Failed(reason) => None,
        HttpOutcomeView::Answered { status, status_line, body } => if status == 200 {
            json_member(body, "extract"@)
        } else {
            None
        },
    }
}

/// What the provider makes of the end of a request.
pub open spec fn sentence_of(outcome: HttpOutcomeView) -> Result<Seq<char>, Seq<char>> {
    match outcome {
        HttpOutcomeView::Failed(reason) => Err(request_error_prefix() + reason),
        HttpOutcomeView::Answered { status, status_line, body } => if status == 200 {
            sentence_of_extract(json_member(body, "extract"@))
        } else {
            Err(status_text(status_line))
        },
    }
}

/// The letters of `text`, in order.
pub fn letters(text: &str) -> (r: String)
    ensures
        r@ == letters_of(text@),
{
    let chars = chars_of(text);
    let mut out = String::new();
    let mut i: usize = 0;
    assert(chars@.take(0) =~= Seq::<char>::empty());
    proof {
        reveal(Seq::filter);
    }
    while i < chars.len()
        invariant
            i <= chars@.len(),
            chars@ == text@,
            out@ == letters_of(chars@.take(i as int)),
        decreases chars@.len() - i,
    {
        let c = chars[i];
        proof {
            reveal(Seq::filter);
            assert(chars@.take(i + 1).drop_last() =~= chars@.take(i as int));
        }
        if c.is_alphabetic() {
            out.push(c);
        }
        i += 1;
    }
    assert(chars@.take(chars@.len() as int) =~= chars@);
    out
}

/// The text between the quotes of `written`, without its backslashes;
/// nothing where `written` is not quoted.
pub fn unescape(written: &str) -> (r: Option<String>)
    ensures
        match r {
            Some(inner) => unquoted(written@) matches Some(quoted) && inner@
                == without_backslashes(quoted),
            None => unquoted(written@) is None,
        },
{
    let chars = chars_of(written);
    let n: usize = chars.len();
    if n < 2 || chars[0] != '"' || chars[n - 1] != '"' {
        return None;
    }
    let ghost quoted = chars@.subrange(1, n - 1);
    let mut out = String::new();
    let mut i: usize = 1;
    assert(quoted.take(0) =~= Seq::<char>::empty());
    proof {
        reveal(Seq::filter);
    }
    while i < n - 1
        invariant
            1 <= i <= n - 1,
            n == chars@.len(),
            quoted == chars@.subrange(1, n - 1),
            out@ == without_backslashes(quoted.take(i - 1)),
        decreases n - i,
    {
        let c = chars[i];
        proof {
            reveal(Seq::filter);
            assert(quoted.take(i as int).drop_last() =~= quoted.take(i - 1));
            assert(quoted.take(i as int).last() == c);
        }
        if c != '\\' {
            out.push(c);
        }
        i += 1;
    }
    assert(quoted.take(n - 2) =~= quoted);
    Some(out)
}

/// The sentence in the member `extract` of a summary, given as that member
/// is written in JSON. It is in ASCII, and the same as what stands between
/// the quotes, less the backslashes, where that is in ASCII already.
pub fn sentence_from_extract(member: Option<String>) -> (r: Result<String, String>)
    ensures
        outcome_view(r) == sentence_of_extract(option_text(member)),
        r matches Ok(sentence) ==> is_ascii_chars(sentence@),
        extract_text(option_text(member)) matches Some(text) ==> (is_ascii_chars(text)
            ==> outcome_view(r) == Ok::<Seq<char>, Seq<char>>(text)),
{
    match member {
        None => Err(String::from_str("Received a summary that cannot be read!")),
        Some(written) => match unescape(written.as_str()) {
            None => Err(String::from_str("Received a summary that cannot be read!")),
            Some(inner) => Ok(to_ascii(inner.as_str())),
        },
    }
}

/// The provider of random article summaries.
#[derive(Debug)]
pub struct WikipediaSource {
    languages: Vec<String>,
}

impl View for WikipediaSource {
    type V = Seq<Seq<char>>;

    /// The language codes to choose from.
    closed spec fn view(&self) -> Seq<Seq<char>> {
        self.languages@.map_values(|s: String| s@)
    }
}

impl WikipediaSource {
    /// The invariant: there is a language to ask in.
    pub open spec fn wf(&self) -> bool {
        self@.len() > 0
    }

    /// The language codes to choose from.
    pub fn languages(&self) -> (r: &Vec<String>)
        ensures
            r@.map_values(|s: String| s@) == self@,
    {
        &self.languages
    }

    /// The address to ask next: that of a language picked at random.
    pub fn request_url(&self) -> (r: String)
        requires
            self.wf(),
        ensures
            exists|i: int| 0 <= i < self@.len() && r@ == summary_url(#[trigger] self@[i]),
    {
        match pick_one(&self.languages) {
            Some(code) => {
                proof {
                    let i = choose|i: int|
                        0 <= i < self.languages@.len() && self.languages@[i] == *code;
                    assert(self@[i] == code@);
                }
                String::from_str("https://").concat(code.as_str()).concat(
                    ".wikipedia.org/api/rest_v1/page/random/summary",
                )
            },
            None => {
                assert(false);
                String::new()
            },
        }
    }

    /// The sentence that the end of a request gives, or the reason why it
    /// gives none. A sentence is in ASCII, and the same as the text of the
    /// answer's extract where that is in ASCII already.
    pub fn sentence_from(outcome: HttpOutcome) -> (r: Result<String, String>)
        ensures
            outcome_view(r) == sentence_of(outcome@),
            r matches Ok(sentence) ==> is_ascii_chars(sentence@),
            extract_text(answered_extract(outcome@)) matches Some(text) ==> (is_ascii_chars(text)
                ==> outcome_view(r) == Ok::<Seq<char>, Seq<char>>(text)),
    {
        match outcome {
            HttpOutcome::Failed(reason) => Err(
                String::from_str("Error ocurred while sending request: ").concat(reason.as_str()),
            ),
            HttpOutcome::Answered { status, status_line, body } => {
                if status == 200 {
                    sentence_from_extract(member_text(body.as_str(), "extract"))
                } else {
                    Err(
                        String::from_str("Received status code ").concat(
                            status_line.as_str(),
                        ).concat(" instead of 200 OK"),
                    )
                }
            },
        }
    }
}

impl Default for WikipediaSource {
    /// The provider that asks in English.
    fn default() -> (r: WikipediaSource)
        ensures
            r.wf(),
            r@ == seq!["en"@],
    {
        let mut languages: Vec<String> = Vec::new();
        languages.push(String::from_str("en"));
        let r = WikipediaSource { languages };
        assert(r@ =~= seq!["en"@]);
        r
    }
}

impl Configurable for WikipediaSource {
    /// The provider for the languages of `config` that can be used. A
    /// configuration without one is refused.
    fn from_config(config: Config) -> (r: Result<WikipediaSource, SourceError>)
        ensures
            match r {
                Ok(source) => source.wf() && source@ == usable_languages(
                    config.wikipedia.languages@.map_values(|s: String| s@),
                ),
                Err(e) => e@ == SourceErrorView::ConfigurationInvalid(no_language_text())
                    && usable_languages(
                    config.wikipedia.languages@.map_values(|s: String| s@),
                ).len() == 0,
            },
    {
        let entries = &config.wikipedia.languages;
        let ghost model = entries@.map_values(|s: String| s@);
        let mut languages: Vec<String> = Vec::new();
        let mut i: usize = 0;
        assert(model.take(0) =~= Seq::<Seq<char>>::empty());
        proof {
            reveal(Seq::filter);
        }
        while i < entries.len()
            invariant
                i <= entries@.len(),
                model == entries@.map_values(|s: String| s@),
                languages@.map_values(|s: String| s@) == usable_languages(model.take(i as int)),
            decreases entries@.len() - i,
        {
            let code = letters(entries[i].as_str());
            let known = language_of(code.as_str()).is_ok();
            proof {
                reveal(Seq::filter);
                let before = model.take(i as int);
                let now = model.take(i + 1);
                let f = |entry: Seq<char>| letters_of(entry);
                assert(now.drop_last() =~= before);
                assert(now.map_values(f).drop_last() =~= before.map_values(f));
                assert(now.map_values(f).last() == code@);
                if known {
                    assert(languages@.push(code).map_values(|s: String| s@)
                        =~= languages@.map_values(|s: String| s@).push(code@));
                }
            }
            if known {
                languages.push(code);
            }
            i += 1;
        }
        assert(model.take(entries@.len() as int) =~= model);
        if languages.len() == 0 {
            Err(
                SourceError::ConfigurationInvalid(
                    String::from_str(
                        "No languages parsed successfully! Please check the config and try again.",
                    ),
                ),
            )
        } else {
            Ok(WikipediaSource { languages })
        }
    }
}

} // verus!
