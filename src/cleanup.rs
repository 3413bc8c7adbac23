//! Reclaiming the content store: the files of unreferenced input files.
use vstd::prelude::*;
use crate::address::hex_of;
use crate::input_file::InputFile;

verus! {

/// The content-store names of the files in `files` that are not inline, in
/// order.
pub open spec fn cache_names_of(files: Seq<InputFile>) -> Seq<Seq<char>>
    decreases files.len(),
{
    if files.len() == 0 {
        seq![]
    } else {
        let rest = cache_names_of(files.drop_last());
        if files.last().contents is None {
            rest.push(hex_of(files.last().contents_hash@))
        } else {
            rest
        }
    }
}

/// The content-store files to remove along with the unreferenced input
/// files `files`: one per file whose bytes are not inline.
pub fn cache_files_to_remove(files: &Vec<InputFile>) -> (r: Vec<String>)
    ensures
        r@.map_values(|n: String| n@) == cache_names_of(files@),
{
    let mut names: Vec<String> = Vec::new();
    let mut i: usize = 0;
    while i < files.len()
        invariant
            i <= files@.len(),
            names@.map_values(|n: String| n@) == cache_names_of(files@.subrange(0, i as int)),
        decreases files@.len() - i,
    {
        let ghost before = names@;
        if let Some(name) = files[i].cache_file_name() {
            names.push(name);
            assert(names@.map_values(|n: String| n@) =~= before.map_values(|n: String| n@).push(
                name@,
            ));
        }
        i = i + 1;
        assert(files@.subrange(0, i as int).drop_last() =~= files@.subrange(0, i - 1));
    }
    assert(files@.subrange(0, i as int) =~= files@);
    names
}

} // verus!
