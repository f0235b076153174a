//! The list of recently used files that the configuration keeps: newest
//! first, every path once, ten at most.

use vstd::prelude::*;
use crate::text::same_text;

verus! {

/// How many recent files are kept.
pub const MAX_RECENT_FILES: usize = 10;

/// The texts that a list of strings holds, in order.
pub open spec fn texts_of(items: Seq<String>) -> Seq<Seq<char>> {
    Seq::new(items.len(), |i: int| items[i]@)
}

/// `files` without the entries equal to `path`, order kept.
pub open spec fn without(files: Seq<Seq<char>>, path: Seq<char>) -> Seq<Seq<char>>
    decreases files.len(),
{
    if files.len() == 0 {
        Seq::empty()
    } else if files.last() == path {
        without(files.drop_last(), path)
    } else {
        without(files.drop_last(), path).push(files.last())
    }
}

/// The first `limit` entries of `files`, or all of them if there are fewer.
pub open spec fn capped(files: Seq<Seq<char>>, limit: int) -> Seq<Seq<char>> {
    if files.len() > limit {
        files.take(limit)
    } else {
        files
    }
}

/// The list after `path` was used: `path` first, then the former entries
/// other than `path` in their order, cut to the ten newest.
pub open spec fn with_recent(files: Seq<Seq<char>>, path: Seq<char>) -> Seq<Seq<char>> {
    capped(seq![path] + without(files, path), MAX_RECENT_FILES as int)
}

/// Records that `file_path` was used.
pub fn add_recent_file(recent_files: &mut Vec<String>, file_path: &str)
    ensures
        texts_of(final(recent_files)@) == with_recent(texts_of(old(recent_files)@), file_path@),
{
    let ghost files = texts_of(recent_files@);
    let mut kept: Vec<String> = Vec::new();
    kept.push(file_path.to_owned());
    assert(files.take(0) =~= Seq::<Seq<char>>::empty());
    assert(texts_of(kept@) =~= seq![file_path@] + without(files.take(0), file_path@));
    let mut i: usize = 0;
    while i < recent_files.len()
        invariant
            i <= recent_files.len(),
            files == texts_of(recent_files@),
            texts_of(kept@) == capped(
                seq![file_path@] + without(files.take(i as int), file_path@),
                MAX_RECENT_FILES as int,
            ),
            kept.len() <= MAX_RECENT_FILES,
        decreases recent_files.len() - i,
    {
        let ghost seen = without(files.take(i as int), file_path@);
        let ghost upto = files.take(i + 1);
        assert(upto.drop_last() =~= files.take(i as int));
        assert(upto.last() == recent_files@[i as int]@);
        if !same_text(recent_files[i].as_str(), file_path) && kept.len() < MAX_RECENT_FILES {
            let ghost head = texts_of(kept@);
            let copy = recent_files[i].clone();
            assert(copy@ == recent_files@[i as int]@);
            kept.push(copy);
            assert(texts_of(kept@) =~= head.push(copy@));
            assert(head =~= seq![file_path@] + seen);
            assert(texts_of(kept@) =~= seq![file_path@] + seen.push(recent_files@[i as int]@));
        } else if !same_text(recent_files[i].as_str(), file_path) {
            let ghost all = seq![file_path@] + seen;
            let ghost more = seq![file_path@] + seen.push(recent_files@[i as int]@);
            assert(all.len() >= MAX_RECENT_FILES);
            assert(more.take(MAX_RECENT_FILES as int) =~= all.take(MAX_RECENT_FILES as int));
            assert(all.len() == MAX_RECENT_FILES ==> all.take(MAX_RECENT_FILES as int) =~= all);
        }
        i = i + 1;
    }
    assert(files.take(i as int) =~= files);
    *recent_files = kept;
}

} // verus!
