//! Merging the block files into the file.
//!
//! The file is the contents of its blocks one after another, in the order of
//! the manifest and with nothing in between. Each block is looked up by its
//! name among the files at hand; in which order those files are listed has no
//! bearing on the result.
use vstd::prelude::*;
use crate::manifest::merge_names;
use crate::manifest::Metadata;

verus! {

/// A block file: its name and what it holds.
#[derive(Clone, Debug)]
pub struct BlockFile {
    pub name: String,
    pub content: Vec<u8>,
}

/// Why a merge came to nothing.
#[derive(Clone, Copy, Debug, PartialEq, Eq, Structural)]
pub enum MergeError {
    /// No file has the name of the block at this place in the manifest.
    Missing(usize),
}

/// Whether `files[at]` is the first file called `name`.
pub open spec fn first_named(files: Seq<BlockFile>, name: Seq<char>, at: int) -> bool {
    &&& 0 <= at < files.len()
    &&& files[at].name@ == name
    &&& forall|k: int| 0 <= k < at ==> files[k].name@ != name
}

/// Whether a file is called `name`.
pub open spec fn has_file(files: Seq<BlockFile>, name: Seq<char>) -> bool {
    exists|at: int| 0 <= at < files.len() && #[trigger] files[at].name@ == name
}

/// What the first file called `name` holds, if there is one.
pub open spec fn content_of(files: Seq<BlockFile>, name: Seq<char>) -> Option<Seq<u8>> {
    if exists|at: int| first_named(files, name, at) {
        Some(files[choose|at: int| first_named(files, name, at)].content@)
    } else {
        None
    }
}

/// The contents of the files called `names`, one after another in the order
/// of `names`; nothing if one of them is missing.
pub open spec fn merged(names: Seq<Seq<char>>, files: Seq<BlockFile>) -> Option<Seq<u8>>
    decreases names.len(),
{
    if names.len() == 0 {
        Some(Seq::empty())
    } else {
        match (merged(names.drop_last(), files), content_of(files, names.last())) {
            (Some(front), Some(back)) => Some(front + back),
            _ => None,
        }
    }
}

/// The sizes of the files called `names`, added up; a missing file counts 0.
pub open spec fn total_len(names: Seq<Seq<char>>, files: Seq<BlockFile>) -> nat
    decreases names.len(),
{
    if names.len() == 0 {
        0
    } else {
        total_len(names.drop_last(), files) + match content_of(files, names.last()) {
            Some(content) => content.len(),
            None => 0,
        }
    }
}

/// Among files of which one is called `name`, one is the first of that name.
proof fn lemma_first_named_exists(files: Seq<BlockFile>, name: Seq<char>, at: int)
    requires
        0 <= at < files.len(),
        files[at].name@ == name,
    ensures
        exists|first: int| first_named(files, name, first),
    decreases at,
{
    if forall|k: int| 0 <= k < at ==> files[k].name@ != name {
        assert(first_named(files, name, at));
    } else {
        let k = choose|k: int| 0 <= k < at && files[k].name@ == name;
        lemma_first_named_exists(files, name, k);
    }
}

/// A name leads to a content exactly when a file has that name.
pub proof fn lemma_content_needs_file(files: Seq<BlockFile>, name: Seq<char>)
    ensures
        content_of(files, name) is Some <==> has_file(files, name),
{
    if has_file(files, name) {
        let at = choose|at: int| 0 <= at < files.len() && #[trigger] files[at].name@ == name;
        lemma_first_named_exists(files, name, at);
    }
}

/// The merged file is as long as its blocks together.
pub proof fn lemma_merged_len(names: Seq<Seq<char>>, files: Seq<BlockFile>)
    ensures
        merged(names, files) matches Some(bytes) ==> bytes.len() == total_len(names, files),
    decreases names.len(),
{
    if names.len() > 0 {
        lemma_merged_len(names.drop_last(), files);
    }
}

/// The merge succeeds exactly when every name has its file.
pub proof fn lemma_merged_needs_all(names: Seq<Seq<char>>, files: Seq<BlockFile>)
    ensures
        merged(names, files) is Some <==> forall|i: int|
            0 <= i < names.len() ==> content_of(files, #[trigger] names[i]) is Some,
    decreases names.len(),
{
    if names.len() > 0 {
        let front = names.drop_last();
        lemma_merged_needs_all(front, files);
        if merged(names, files) is Some {
            assert forall|i: int| 0 <= i < names.len() implies content_of(
                files,
                #[trigger] names[i],
            ) is Some by {
                if i < front.len() {
                    assert(front[i] == names[i]);
                }
            }
        }
    }
}

/// The result of a merge depends on what each name leads to and on nothing
/// else: listing the files in another order changes nothing.
pub proof fn lemma_merge_ignores_listing(
    names: Seq<Seq<char>>,
    files: Seq<BlockFile>,
    other: Seq<BlockFile>,
)
    requires
        forall|i: int|
            0 <= i < names.len() ==> content_of(files, #[trigger] names[i]) == content_of(
                other,
                names[i],
            ),
    ensures
        merged(names, files) == merged(names, other),
    decreases names.len(),
{
    if names.len() > 0 {
        lemma_merge_ignores_listing(names.drop_last(), files, other);
    }
}

/// The place of the first file called `name`.
pub fn find(files: &Vec<BlockFile>, name: &String) -> (place: Option<usize>)
    ensures
        match place {
            Some(at) => first_named(files@, name@, at as int),
            None => !has_file(files@, name@),
        },
{
    let mut at: usize = 0;
    while at < files.len()
        invariant
            at <= files@.len(),
            forall|k: int| 0 <= k < at ==> files@[k].name@ != name@,
        decreases files@.len() - at,
    {
        if files[at].name == *name {
            return Some(at);
        }
        at += 1;
    }
    None
}

impl Metadata {
    /// The file that the manifest describes, put together from `files`: the
    /// contents of the blocks' files in the order of the manifest.
    ///
    /// Fails exactly when a block has no file, and then names the first such
    /// block.
    pub fn merge(&self, files: &Vec<BlockFile>) -> (result: Result<Vec<u8>, MergeError>)
        ensures
            match result {
                Ok(bytes) => merged(merge_names(self@), files@) == Some(bytes@),
                Err(MergeError::Missing(at)) => {
                    &&& at < self@.block.len()
                    &&& !has_file(files@, self@.block[at as int].sha1)
                    &&& forall|k: int|
                        0 <= k < at ==> has_file(files@, #[trigger] self@.block[k].sha1)
                    &&& merged(merge_names(self@), files@) is None
                },
            },
    {
        let ghost names = merge_names(self@);
        let mut bytes: Vec<u8> = Vec::new();
        let mut i: usize = 0;
        while i < self.block.len()
            invariant
                i <= self.block@.len(),
                names == merge_names(self@),
                names.len() == self.block@.len(),
                merged(names.take(i as int), files@) == Some(bytes@),
                forall|k: int| 0 <= k < i ==> has_file(files@, #[trigger] self@.block[k].sha1),
            decreases self.block@.len() - i,
        {
            let ghost name = self.block@[i as int].sha1@;
            assert(names.take(i + 1).drop_last() =~= names.take(i as int));
            match find(files, &self.block[i].sha1) {
                Some(at) => {
                    bytes.extend_from_slice(files[at].content.as_slice());
                },
                None => {
                    proof {
                        lemma_merged_needs_all(names, files@);
                        assert(names[i as int] == name);
                    }
                    return Err(MergeError::Missing(i));
                },
            }
            i += 1;
        }
        assert(names.take(i as int) =~= names);
        Ok(bytes)
    }
}

} // verus!
