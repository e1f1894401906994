//! A structural model of classes read from ctags output, and its rendering
//! as PlantUML, Mermaid and Graphviz text.

use vstd::prelude::*;

pub mod coco_struct;
pub mod ctags;
pub mod file_filter;
pub mod parse_option;
pub mod render;
pub mod segment;
pub mod sorting;
pub mod text;

pub use coco_struct::{ClassInfo, MemberInfo, MethodInfo};
pub use ctags::ctags_parser::CtagsParser;
pub use file_filter::{filter_by_packages, filter_by_suffix, grep_by_text, FileFilter, FilePath};
pub use parse_option::ParseOption;

verus! {

/// The largest number of shards that a list of files is split into.
pub const MAX_SHARDS: usize = 8;

/// The number of shards for a list of files: one for each file, and at most
/// `MAX_SHARDS`.
pub fn count_thread(origin_files: &Vec<String>) -> (thread: usize)
    ensures
        thread == if origin_files.len() >= MAX_SHARDS {
            MAX_SHARDS as int
        } else {
            origin_files.len() as int
        },
{
    if origin_files.len() >= MAX_SHARDS {
        MAX_SHARDS
    } else {
        origin_files.len()
    }
}

/// The text of shard `k` of `thread`: the files whose position leaves the
/// remainder `k`, in order, each followed by a line break.
pub open spec fn shard_text(files: Seq<Seq<char>>, thread: int, k: int) -> Seq<char>
    decreases files.len(),
{
    if files.len() == 0 {
        Seq::empty()
    } else {
        let before = shard_text(files.drop_last(), thread, k);
        if (files.len() - 1) % thread == k {
            before + files.last() + "\n"@
        } else {
            before
        }
    }
}

/// The files dealt out to `thread` shards in turn, each shard as one text
/// with a file to a line.
pub fn files_by_thread(origin_files: Vec<String>, thread: usize) -> (files: Vec<String>)
    requires
        thread > 0 || origin_files.len() == 0,
    ensures
        files.len() == thread,
        forall|k: int|
            0 <= k < thread ==> (#[trigger] files@[k])@ == shard_text(
                origin_files.deep_view(),
                thread as int,
                k,
            ),
{
    let ghost all = origin_files.deep_view();
    let mut files: Vec<String> = Vec::new();
    let mut k: usize = 0;
    assert(all.take(0) =~= Seq::empty());
    while k < thread
        invariant
            k <= thread,
            files.len() == k,
            forall|j: int| 0 <= j < k ==> (#[trigger] files@[j])@ == Seq::<char>::empty(),
        decreases thread - k,
    {
        files.push(String::new());
        k += 1;
    }
    let mut i: usize = 0;
    while i < origin_files.len()
        invariant
            all == origin_files.deep_view(),
            thread > 0 || origin_files.len() == 0,
            i <= origin_files.len(),
            files.len() == thread,
            forall|j: int|
                0 <= j < thread ==> (#[trigger] files@[j])@ == shard_text(
                    all.take(i as int),
                    thread as int,
                    j,
                ),
        decreases origin_files.len() - i,
    {
        let at: usize = i % thread;
        let ghost before = files@;
        proof {
            let upto = all.take(i + 1);
            assert(upto.drop_last() == all.take(i as int));
            assert(upto.last() == origin_files@[i as int]@);
        }
        let shard = &mut files[at];
        shard.append(origin_files[i].as_str());
        shard.append("\n");
        assert(files@ == before.update(at as int, files@[at as int]));
        i += 1;
    }
    assert(all.take(origin_files.len() as int) == all);
    files
}

} // verus!
