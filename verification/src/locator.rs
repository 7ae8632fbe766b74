//! Choosing the store file: one candidate path per installation variant,
//! tried in order until one can be read.
//!
//! The library decides which path to try next and what a probe's outcome
//! means; reading and decoding the file is the caller's part.

use vstd::prelude::*;
use crate::error::Failure;
use crate::model::Document;

verus! {

/// The placeholder of a path template, which stands for the variant's name.
pub open spec fn placeholder() -> Seq<char> {
    "{edition}"@
}

/// `text` with every occurrence of `pattern` replaced by `with`: occurrences
/// are found from the left and do not overlap.
pub open spec fn replaced(text: Seq<char>, pattern: Seq<char>, with: Seq<char>) -> Seq<char>
    decreases text.len(),
{
    if pattern.len() == 0 || text.len() < pattern.len() {
        text
    } else if text.subrange(0, pattern.len() as int) == pattern {
        with + replaced(text.skip(pattern.len() as int), pattern, with)
    } else {
        seq![text[0]] + replaced(text.skip(1), pattern, with)
    }
}

/// The path that a template gives for a variant, before any reference to
/// the environment in it is expanded.
pub open spec fn substituted(template: Seq<char>, variant: Seq<char>) -> Seq<char> {
    replaced(template, placeholder(), variant)
}

/// `str::replace` of the standard library, for a pattern that is not empty:
/// trusted to replace each occurrence of `pattern`, found from the left and
/// without overlap, by `with`, and to keep the rest of `text`.
#[verifier::external_body]
fn replace_all(text: &str, pattern: &str, with: &str) -> (out: String)
    requires
        pattern@.len() > 0,
    ensures
        out@ == replaced(text@, pattern@, with@),
{
    text.replace(pattern, with)
}

/// `envmnt::expand` with its default options: references to environment
/// variables in `text` (`$NAME` and `${NAME}`, or `%NAME%` on Windows) are
/// replaced by the variables' values, and a reference to a variable that is
/// not set is replaced by nothing. The result depends on the environment of
/// the process, so nothing is claimed of it.
#[verifier::external_body]
fn expand_environment(text: &str) -> (out: String) {
    envmnt::expand(text, None)
}

/// Puts `variant` in the place of the placeholder of `template`.
pub fn substitute(template: &str, variant: &str) -> (path: String)
    ensures
        path@ == substituted(template@, variant@),
{
    proof {
        reveal_strlit("{edition}");
    }
    replace_all(template, "{edition}", variant)
}

/// A file that may hold the store.
#[derive(Debug, PartialEq, Eq)]
pub struct Candidate {
    /// The template with the variant's name in it.
    pub template_path: String,
    /// The same after expansion of environment references: the path to read.
    pub path: String,
}

/// What came of reading and decoding the candidate that was tried last.
#[derive(Debug, PartialEq, Eq)]
pub enum Probe {
    /// The file does not exist or cannot be read as text.
    Unavailable,
    /// The file was read, and is not a bookmark document.
    Malformed,
    /// The file was read and decoded.
    Decoded(Document),
}

/// What to do next.
#[derive(Debug, PartialEq, Eq)]
pub enum Decision {
    /// Read and decode the candidate, and report the outcome to the locator.
    Try(Locator, Candidate),
    /// The store was found.
    Done(Document),
    /// The store was not found.
    Fail(Failure),
}

/// The state of a search for the store file: the template, the variants in
/// order of priority, and the paths tried so far.
#[derive(Debug, PartialEq, Eq)]
pub struct Locator {
    pub template: String,
    pub variants: Vec<String>,
    pub tried: Vec<String>,
}

impl Locator {
    /// A locator that has tried nothing yet.
    pub fn new(template: String, variants: Vec<String>) -> (locator: Locator)
        ensures
            locator.template == template,
            locator.variants == variants,
            locator.tried@.len() == 0,
    {
        Locator { template, variants, tried: Vec::new() }
    }

    /// Whether a variant is left to try.
    pub open spec fn has_next(&self) -> bool {
        self.tried@.len() < self.variants@.len()
    }

    /// The decision to try the file at `path`, which the next variant's
    /// `template_path` expanded to: the path joins the paths tried.
    pub fn attempt(self, template_path: String, path: String) -> (decision: Decision)
        ensures
            decision matches Decision::Try(locator, candidate) && {
                &&& locator.template == self.template
                &&& locator.variants == self.variants
                &&& locator.tried@ == self.tried@.push(path)
                &&& candidate == (Candidate { template_path, path })
            },
    {
        let mut locator = self;
        locator.tried.push(path.clone());
        Decision::Try(locator, Candidate { template_path, path })
    }

    /// Moves on to the next variant. Where one is left, the decision is to
    /// try its candidate: the template with the variant's name in it, then
    /// expanded against the environment, whose outcome joins the paths tried.
    /// Where none is left, the search fails with all the paths tried.
    pub fn advance(self) -> (decision: Decision)
        ensures
            self.has_next() ==> {
                &&& decision matches Decision::Try(locator, candidate)
                &&& locator.template == self.template
                &&& locator.variants == self.variants
                &&& locator.tried@ == self.tried@.push(candidate.path)
                &&& candidate.template_path@ == substituted(
                    self.template@,
                    self.variants@[self.tried@.len() as int]@,
                )
            },
            !self.has_next() ==> decision == Decision::Fail(
                Failure::FileUnavailable { tried: self.tried },
            ),
    {
        if self.tried.len() < self.variants.len() {
            let template_path = substitute(
                self.template.as_str(),
                self.variants[self.tried.len()].as_str(),
            );
            let path = expand_environment(template_path.as_str());
            self.attempt(template_path, path)
        } else {
            Decision::Fail(Failure::FileUnavailable { tried: self.tried })
        }
    }

    /// What follows from a probe of the candidate tried last: a decoded
    /// document ends the search with success, a malformed file ends it with
    /// failure whatever variants are left, and an unavailable file moves the
    /// search on to the next variant.
    pub fn step(self, probe: Probe) -> (decision: Decision)
        ensures
            probe matches Probe::Decoded(document) ==> decision == Decision::Done(document),
            probe is Malformed ==> decision == Decision::Fail(Failure::DecodeError),
            probe is Unavailable && self.has_next() ==> {
                &&& decision matches Decision::Try(locator, candidate)
                &&& locator.template == self.template
                &&& locator.variants == self.variants
                &&& locator.tried@ == self.tried@.push(candidate.path)
                &&& candidate.template_path@ == substituted(
                    self.template@,
                    self.variants@[self.tried@.len() as int]@,
                )
            },
            probe is Unavailable && !self.has_next() ==> decision == Decision::Fail(
                Failure::FileUnavailable { tried: self.tried },
            ),
    {
        match probe {
            Probe::Decoded(document) => Decision::Done(document),
            Probe::Malformed => Decision::Fail(Failure::DecodeError),
            Probe::Unavailable => self.advance(),
        }
    }
}

} // verus!
