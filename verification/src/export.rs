//! What a run writes: the rows of a table of codes, and the names of the
//! files that hold a solution.

use vstd::prelude::*;
use vstd::string::StringExecFns;

verus! {

/// The code of one character or word.
#[derive(Debug, Clone, PartialEq, Eq)]
pub struct Entry {
    /// The character or word.
    pub item: String,
    /// Its full code.
    pub full: String,
    /// Its short code, if it has one.
    pub short: Option<String>,
}

/// The codes that a run computed.
#[derive(Debug, Clone, PartialEq, Eq)]
pub struct EncodeExport {
    pub characters: Vec<Entry>,
    pub words: Option<Vec<Entry>>,
}

impl Entry {
    /// The fields of the row of this entry: the item and its full code,
    /// followed by the short code if there is one.
    pub open spec fn fields(&self) -> Seq<Seq<char>> {
        match self.short {
            Some(short) => seq![self.item@, self.full@, short@],
            None => seq![self.item@, self.full@],
        }
    }

    /// The row of this entry in a table of codes.
    pub fn row(&self) -> (r: Vec<String>)
        ensures
            r@.len() == self.fields().len(),
            forall|i: int| 0 <= i < r@.len() ==> (#[trigger] r@[i])@ == self.fields()[i],
    {
        let mut r: Vec<String> = Vec::new();
        r.push(self.item.clone());
        r.push(self.full.clone());
        match &self.short {
            Some(short) => {
                r.push(short.clone());
            },
            None => {},
        }
        r
    }
}

/// The rows of a table of codes, one for each entry, in their order.
pub fn rows(entries: &Vec<Entry>) -> (r: Vec<Vec<String>>)
    ensures
        r@.len() == entries@.len(),
        forall|i: int|
            0 <= i < r@.len() ==> (#[trigger] r@[i])@.len() == entries@[i].fields().len(),
        forall|i: int, j: int|
            0 <= i < r@.len() && 0 <= j < r@[i]@.len() ==> (#[trigger] r@[i]@[j])@
                == entries@[i].fields()[j],
{
    let mut r: Vec<Vec<String>> = Vec::new();
    let mut i: usize = 0;
    while i < entries.len()
        invariant
            i <= entries@.len(),
            r@.len() == i,
            forall|k: int|
                0 <= k < r@.len() ==> (#[trigger] r@[k])@.len() == entries@[k].fields().len(),
            forall|k: int, j: int|
                0 <= k < r@.len() && 0 <= j < r@[k]@.len() ==> (#[trigger] r@[k]@[j])@
                    == entries@[k].fields()[j],
        decreases entries@.len() - i,
    {
        let row = entries[i].row();
        r.push(row);
        i += 1;
    }
    r
}

/// The files that hold a solution.
#[derive(Debug, Clone, PartialEq, Eq)]
pub struct SolutionFiles {
    /// The scheme with the layout that was found.
    pub config: String,
    /// The rating of that layout.
    pub metric: String,
}

/// The two files of the solution with the name `prefix`: they stand in the
/// directory `output` and differ in their extension only.
pub fn solution_files(prefix: &str) -> (r: SolutionFiles)
    ensures
        r.config@ == "output/"@ + prefix@ + ".yaml"@,
        r.metric@ == "output/"@ + prefix@ + ".txt"@,
{
    let mut config = String::from_str("output/");
    config.append(prefix);
    config.append(".yaml");
    let mut metric = String::from_str("output/");
    metric.append(prefix);
    metric.append(".txt");
    SolutionFiles { config, metric }
}

} // verus!
