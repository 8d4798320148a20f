//! Where a generated program reads from, and in which format.

use vstd::prelude::*;
use vstd::string::StringExecFns;
use crate::error::LobError;

verus! {

/// The format in which input is parsed.
#[derive(Clone, Copy, Debug, PartialEq, Eq, Structural)]
pub enum InputFormat {
    /// Plain text lines.
    Lines,
    /// Comma-separated values with a header row.
    Csv,
    /// Tab-separated values with a header row.
    Tsv,
    /// One JSON value per line.
    JsonLines,
}

/// The name of an input format.
pub open spec fn input_format_name(format: InputFormat) -> Seq<char> {
    match format {
        InputFormat::Lines => "lines"@,
        InputFormat::Csv => "csv"@,
        InputFormat::Tsv => "tsv"@,
        InputFormat::JsonLines => "jsonlines"@,
    }
}

impl InputFormat {
    /// The format's name.
    pub fn as_str(self) -> (name: &'static str)
        ensures
            name@ == input_format_name(self),
    {
        match self {
            InputFormat::Lines => "lines",
            InputFormat::Csv => "csv",
            InputFormat::Tsv => "tsv",
            InputFormat::JsonLines => "jsonlines",
        }
    }
}

/// The files to read, in order, and the format to read them in. With no
/// files, standard input is read.
#[derive(Debug)]
pub struct InputSource {
    /// Paths of the files to read.
    pub files: Vec<String>,
    /// Input format.
    pub format: InputFormat,
}

/// The file at index `i` is there: `present` says so. A file that `present`
/// does not reach is not there.
pub open spec fn is_present(present: Seq<bool>, i: int) -> bool {
    0 <= i < present.len() && present[i]
}

/// The index of the first of `n` files that is not there, or `n`.
pub open spec fn first_missing(present: Seq<bool>, n: int) -> int
    decreases n,
{
    if n <= 0 {
        0
    } else if first_missing(present, n - 1) < n - 1 {
        first_missing(present, n - 1)
    } else if is_present(present, n - 1) {
        n
    } else {
        n - 1
    }
}

/// `first_missing` is the least index of a file that is not there.
pub proof fn lemma_first_missing(present: Seq<bool>, n: int)
    requires
        0 <= n,
    ensures
        0 <= first_missing(present, n) <= n,
        forall|i: int| 0 <= i < first_missing(present, n) ==> is_present(present, i),
        first_missing(present, n) < n ==> !is_present(present, first_missing(present, n)),
    decreases n,
{
    if n > 0 {
        lemma_first_missing(present, n - 1);
    }
}

impl InputSource {
    /// An input source that reads `files` in `format`.
    pub fn new(files: Vec<String>, format: InputFormat) -> (source: Self)
        ensures
            source.files == files,
            source.format == format,
    {
        InputSource { files, format }
    }

    /// Whether standard input is read: no file is named.
    pub open spec fn reads_stdin(&self) -> bool {
        self.files@.len() == 0
    }

    /// Whether standard input is read.
    pub fn is_stdin(&self) -> (r: bool)
        ensures
            r == self.reads_stdin(),
    {
        self.files.len() == 0
    }

    /// Checks that every file is there. `present` says of each file, in
    /// order, whether it exists. The first file that does not is reported.
    pub fn validate(&self, present: &Vec<bool>) -> (r: Result<(), LobError>)
        ensures
            r is Ok <==> first_missing(present@, self.files@.len() as int) == self.files@.len(),
            r matches Err(e) ==> e matches LobError::Io(message) && message@
                == "File not found: "@ + self.files@[first_missing(
                present@,
                self.files@.len() as int,
            )]@,
    {
        let mut i: usize = 0;
        while i < self.files.len()
            invariant
                0 <= i <= self.files.len(),
                first_missing(present@, i as int) == i,
            decreases self.files.len() - i,
        {
            if !(i < present.len() && present[i]) {
                proof {
                    lemma_first_missing_stays(present@, i as int, self.files@.len() as int);
                }
                let message = String::from_str("File not found: ").concat(self.files[i].as_str());
                return Err(LobError::Io(message));
            }
            i += 1;
        }
        Ok(())
    }
}

/// Once a file is missing, files after it do not change which one is first.
pub proof fn lemma_first_missing_stays(present: Seq<bool>, k: int, n: int)
    requires
        0 <= k < n,
        first_missing(present, k) == k,
        !is_present(present, k),
    ensures
        first_missing(present, n) == k,
    decreases n,
{
    if n > k + 1 {
        lemma_first_missing_stays(present, k, n - 1);
    }
}

} // verus!
