//! The command line, once it is parsed: which files a run reads.

use vstd::prelude::*;
use vstd::string::StringExecFns;

verus! {

/// What the program is asked to do.
#[derive(Debug, Clone, Copy, PartialEq, Eq, Structural)]
pub enum Command {
    /// Compute the codes of characters and words and rate them.
    Encode,
    /// Rate the scheme as it is.
    Evaluate,
    /// Search for a better layout of the elements.
    Optimize,
}

/// The arguments of the program.  A file that is not named is looked for
/// in its usual place.
#[derive(Debug, Clone, PartialEq, Eq)]
pub struct Cli {
    pub command: Command,
    /// The scheme.
    pub config: Option<String>,
    /// The decomposition of every character into elements.
    pub elements: Option<String>,
    /// The list of words.
    pub words: Option<String>,
    /// How often each character occurs.
    pub character_frequency: Option<String>,
    /// How often each word occurs.
    pub word_frequency: Option<String>,
    /// How the load is to be spread over the keys.
    pub key_distribution: Option<String>,
    /// How long it takes to strike each pair of keys.
    pub pair_equivalence: Option<String>,
}

/// The files that a run reads.
#[derive(Debug, Clone, PartialEq, Eq)]
pub struct Inputs {
    pub config: String,
    pub elements: String,
    pub character_frequency: String,
    pub word_frequency: String,
    pub key_distribution: String,
    pub pair_equivalence: String,
    /// Whether the words of the run are those of the word frequency table.
    /// They are unless a list of words is named.
    pub words_from_frequency: bool,
}

/// The path `path` if one is given, `usual` otherwise.
pub open spec fn path_or(path: Option<String>, usual: &str) -> Seq<char> {
    match path {
        Some(path) => path@,
        None => usual@,
    }
}

/// The path to read: `path` if one is given, `usual` otherwise.
pub fn resolve(path: &Option<String>, usual: &str) -> (r: String)
    ensures
        r@ == path_or(*path, usual),
{
    match path {
        Some(path) => path.clone(),
        None => String::from_str(usual),
    }
}

impl Cli {
    /// The files that a run with these arguments reads.  The scheme and the
    /// decomposition are looked for in the working directory, the tables in
    /// the directory `assets`.
    pub fn inputs(&self) -> (r: Inputs)
        ensures
            r.config@ == path_or(self.config, "config.yaml"),
            r.elements@ == path_or(self.elements, "elements.txt"),
            r.character_frequency@ == path_or(
                self.character_frequency,
                "assets/character_frequency.txt",
            ),
            r.word_frequency@ == path_or(self.word_frequency, "assets/word_frequency.txt"),
            r.key_distribution@ == path_or(self.key_distribution, "assets/key_distribution.txt"),
            r.pair_equivalence@ == path_or(self.pair_equivalence, "assets/pair_equivalence.txt"),
            r.words_from_frequency == (self.words is None),
    {
        Inputs {
            config: resolve(&self.config, "config.yaml"),
            elements: resolve(&self.elements, "elements.txt"),
            character_frequency: resolve(
                &self.character_frequency,
                "assets/character_frequency.txt",
            ),
            word_frequency: resolve(&self.word_frequency, "assets/word_frequency.txt"),
            key_distribution: resolve(&self.key_distribution, "assets/key_distribution.txt"),
            pair_equivalence: resolve(&self.pair_equivalence, "assets/pair_equivalence.txt"),
            words_from_frequency: self.words.is_none(),
        }
    }
}

} // verus!
