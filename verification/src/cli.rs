//! The settings of a run, and which of the files found are worked on.

use crate::naming::{read_file_name_extension, split_name};
use vstd::prelude::*;

verus! {

/// What a run is asked to do.
#[derive(Debug)]
pub struct Cli {
    /// The file or folder that holds the source files.
    pub input_path: String,
    /// The folder that receives the copies.
    pub output_path: String,
    /// How many copies are made of each source file.
    pub number_of_broken_files: u32,
    /// Whether content is handled as characters, so that text stays text.
    pub character_mode: bool,
    /// Whether content of other source files is spliced into copies.
    pub connect_multiple_files: bool,
    /// The words that are inserted into copies made of characters.
    pub special_words: Vec<String>,
}

/// The file that `path` names has an extension.
pub open spec fn has_extension(path: Seq<char>) -> bool {
    split_name(path) is Some
}

/// The test for an extension, as a function.
pub open spec fn with_extension() -> spec_fn(Seq<char>) -> bool {
    |path: Seq<char>| has_extension(path)
}

/// Whether the file that `path` names has an extension: whether its last
/// component splits into a stem and an extension.
pub fn holds_extension(path: &str) -> (found: bool)
    ensures
        found == has_extension(path@),
{
    read_file_name_extension(path).is_some()
}

/// The paths of files that have an extension, in the order in which they
/// were found. The others are not worked on.
pub fn retain_with_extension(paths: Vec<String>) -> (kept: Vec<String>)
    ensures
        kept.deep_view() == paths.deep_view().filter(with_extension()),
{
    let ghost all = paths.deep_view();
    let mut kept: Vec<String> = Vec::new();
    proof {
        reveal(Seq::filter);
    }
    for path in it: paths
        invariant
            it.seq().len() == all.len(),
            forall|j: int| 0 <= j < all.len() ==> (#[trigger] it.seq()[j])@ == all[j],
            kept.deep_view() == all.take(it.index() as int).filter(with_extension()),
    {
        let ghost done = it.index() as int;
        let ghost earlier = kept.deep_view();
        proof {
            reveal(Seq::filter);
            assert(all.take(done + 1).drop_last() == all.take(done));
            assert(all.take(done + 1).filter(with_extension()) == if has_extension(path@) {
                earlier.push(path@)
            } else {
                earlier
            });
        }
        if holds_extension(path.as_str()) {
            kept.push(path);
        }
    }
    assert(all.take(all.len() as int) == all);
    kept
}

} // verus!
