//! A provider that holds the sentences of one file.

use crate::json::{error_text, json_string_list, parse_string_list};
use crate::random::pick_one;
use crate::source::{outcome_view, Sourceable};
use crate::text::option_text;
use crate::text_source::no_sentence_text;
use vstd::prelude::*;

verus! {

/// What was found at a path, as the caller read it from disk.
#[derive(Debug)]
pub enum FileProbe {
    /// Nothing is there.
    Missing,
    /// A file is there.
    Found {
        /// What follows the last dot of the file's name, if it has one.
        extension: Option<String>,
        /// The file's text, or the reason why it could not be opened.
        contents: Result<String, String>,
    },
}

/// The reason given for a path without a file.
pub open spec fn missing_text() -> Seq<char> {
    "File does not exist!"@
}

/// The reason given for a file of a kind that cannot be read.
pub open spec fn unsupported_text() -> Seq<char> {
    "File format is not supported!"@
}

/// What precedes the system's reason in the failure to open a file.
pub open spec fn open_error_prefix() -> Seq<char> {
    "File open error: "@
}

/// What precedes the detail in the failure to parse a file.
pub open spec fn parse_error_prefix() -> Seq<char> {
    "JSON parse error: "@
}

/// The extension of the one format that is read: a JSON array of strings.
pub open spec fn json_extension() -> Seq<char> {
    "json"@
}

/// The sentences of one file.
#[derive(Debug)]
pub struct FileSource {
    file_path: String,
    lines: Vec<String>,
}

/// The mathematical model of a [`FileSource`].
pub struct FileSourceView {
    pub file_path: Seq<char>,
    pub lines: Seq<Seq<char>>,
}

impl View for FileSource {
    type V = FileSourceView;

    closed spec fn view(&self) -> FileSourceView {
        FileSourceView {
            file_path: self.file_path@,
            lines: self.lines@.map_values(|s: String| s@),
        }
    }
}

/// What loading makes of a probe: the lines of the file, or the reason
/// why there are none. `detail` stands for the parser's account of a text
/// that it refused.
pub open spec fn loaded_lines(
    extension: Option<Seq<char>>,
    contents: Result<Seq<char>, Seq<char>>,
    detail: Seq<char>,
) -> Result<Seq<Seq<char>>, Seq<char>> {
    if extension != Some(json_extension()) {
        Err(unsupported_text())
    } else {
        match contents {
            Err(reason) => Err(open_error_prefix() + reason),
            Ok(text) => match json_string_list(text) {
                Some(lines) => Ok(lines),
                None => Err(parse_error_prefix() + detail),
            },
        }
    }
}

impl FileSource {
    /// Makes a provider of the file at `file_path`, which the caller has
    /// probed. Only a JSON array of strings is read: each string is one
    /// sentence.
    pub fn from_file(file_path: String, probe: FileProbe) -> (r: Result<FileSource, String>)
        ensures
            match probe {
                FileProbe::Missing => r matches Err(reason) && reason@ == missing_text(),
                FileProbe::Found { extension, contents } => exists|detail: Seq<char>|
                    match #[trigger] loaded_lines(
                        option_text(extension),
                        outcome_view(contents),
                        detail,
                    ) {
                        Ok(lines) => r matches Ok(source) && source@.lines == lines
                            && source@.file_path == file_path@,
                        Err(reason) => r matches Err(given) && given@ == reason,
                    },
            },
    {
        match probe {
            FileProbe::Missing => Err(String::from_str("File does not exist!")),
            FileProbe::Found { extension, contents } => {
                let ghost ext = option_text(extension);
                let ghost cont = outcome_view(contents);
                let is_json = match extension {
                    Some(e) => e == String::from_str("json"),
                    None => false,
                };
                if !is_json {
                    assert(loaded_lines(ext, cont, Seq::empty()) is Err);
                    return Err(String::from_str("File format is not supported!"));
                }
                match contents {
                    Err(reason) => {
                        assert(loaded_lines(ext, cont, Seq::empty()) is Err);
                        Err(String::from_str("File open error: ").concat(reason.as_str()))
                    },
                    Ok(text) => match parse_string_list(text.as_str()) {
                        Ok(lines) => {
                            assert(loaded_lines(ext, cont, Seq::empty()) is Ok);
                            Ok(FileSource { file_path, lines })
                        },
                        Err(err) => {
                            let detail = error_text(&err);
                            assert(loaded_lines(ext, cont, detail@) is Err);
                            Err(String::from_str("JSON parse error: ").concat(detail.as_str()))
                        },
                    },
                }
            },
        }
    }

    /// The path the sentences came from.
    pub fn file_path(&self) -> (r: &str)
        ensures
            r@ == self@.file_path,
    {
        self.file_path.as_str()
    }

    /// The sentences held, in the order of the file.
    pub fn lines(&self) -> (r: &Vec<String>)
        ensures
            r@.map_values(|s: String| s@) == self@.lines,
    {
        &self.lines
    }
}

impl Sourceable for FileSource {
    /// Asking ends in one of the sentences held, or in a failure where
    /// none is held.
    open spec fn may_yield(&self, outcome: Result<Seq<char>, Seq<char>>) -> bool {
        match outcome {
            Ok(sentence) => self@.lines.contains(sentence),
            Err(reason) => self@.lines.len() == 0 && reason == no_sentence_text(),
        }
    }

    /// One of the sentences held, picked at random; a failure where none is held.
    fn get_new_sentence(&self) -> (r: Result<String, String>)
        ensures
            self@.lines.len() > 0 <==> r is Ok,
            r matches Ok(sentence) ==> self@.lines.contains(sentence@),
            r matches Err(reason) ==> reason@ == no_sentence_text(),
    {
        match pick_one(&self.lines) {
            Some(line) => {
                proof {
                    let i = choose|i: int| 0 <= i < self.lines@.len() && self.lines@[i] == *line;
                    assert(self@.lines[i] == line@);
                }
                Ok(line.clone())
            },
            None => Err(String::from_str("Could not get a sentence!")),
        }
    }
}

} // verus!
