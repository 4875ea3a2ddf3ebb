//! The manifest: what the file is called and which blocks make it up.
use vstd::prelude::*;
use vstd::string::StringExecFns;
use crate::digest::sha1_hex;
use crate::digest::sha1_hex_of;
use crate::mirror::candidate_url;
use crate::mirror::mirror_url;
use crate::text::chars_of;
use crate::text::string_of;

verus! {

/// One block of the file, as the manifest announces it.
#[derive(Clone, Debug)]
pub struct MetadataBlock {
    /// The address the block is announced under.
    pub url: String,
    /// The announced size of the block in bytes; nothing depends on it.
    pub size: usize,
    /// The hex-encoded SHA-1 digest of the block, which also names its file.
    pub sha1: String,
}

/// A block as plain values.
pub struct BlockView {
    pub url: Seq<char>,
    pub size: nat,
    pub sha1: Seq<char>,
}

impl View for MetadataBlock {
    type V = BlockView;

    open spec fn view(&self) -> BlockView {
        BlockView { url: self.url@, size: self.size as nat, sha1: self.sha1@ }
    }
}

/// The manifest of one file. The order of `block` is the order in which the
/// blocks follow each other in the file.
#[derive(Clone, Debug)]
pub struct Metadata {
    /// When the manifest was made; nothing depends on it.
    pub time: u64,
    /// The name of the file.
    pub filename: String,
    /// The announced size of the file in bytes; nothing depends on it.
    pub size: usize,
    /// The announced digest of the whole file; it is kept and not checked.
    pub sha1: String,
    /// The blocks, in the order of the file.
    pub block: Vec<MetadataBlock>,
}

/// A manifest as plain values.
pub struct ManifestView {
    pub time: nat,
    pub filename: Seq<char>,
    pub size: nat,
    pub sha1: Seq<char>,
    pub block: Seq<BlockView>,
}

impl View for Metadata {
    type V = ManifestView;

    open spec fn view(&self) -> ManifestView {
        ManifestView {
            time: self.time as nat,
            filename: self.filename@,
            size: self.size as nat,
            sha1: self.sha1@,
            block: Seq::new(self.block@.len(), |i: int| self.block@[i]@),
        }
    }
}

/// The names of the block files, in the order in which they are merged.
pub open spec fn merge_names(manifest: ManifestView) -> Seq<Seq<char>> {
    Seq::new(manifest.block.len(), |i: int| manifest.block[i].sha1)
}

/// The address under which the manifest with identifier `id` is served.
pub open spec fn manifest_address(id: Seq<char>) -> Seq<char> {
    "https://i0.hdslb.com/bfs/album/"@ + id + ".png"@
}

/// The identifier that `argument` stands for: what follows the marker
/// `bdex://` if the argument begins with it, else the argument itself.
pub open spec fn identifier_of(argument: Seq<char>) -> Seq<char> {
    if "bdex://"@.is_prefix_of(argument) {
        argument.skip("bdex://"@.len() as int)
    } else {
        argument
    }
}

impl MetadataBlock {
    /// The address to try at `attempt`.
    pub fn candidate_url(&self, attempt: u32) -> (url: String)
        ensures
            url@ == mirror_url(self@.url, attempt as nat),
    {
        candidate_url(self.url.as_str(), attempt)
    }

    /// Whether `content` is the block, going by its digest.
    pub fn holds(&self, content: &[u8]) -> (same: bool)
        ensures
            same == (sha1_hex_of(content@) == self@.sha1),
    {
        let found = sha1_hex(content);
        self.has_digest(found.as_str())
    }

    /// Whether `digest` is the digest the manifest gives for the block.
    /// The comparison is letter by letter: upper-case hex does not match.
    pub fn has_digest(&self, digest: &str) -> (same: bool)
        ensures
            same == (digest@ == self@.sha1),
    {
        let given = digest.to_owned();
        given == self.sha1
    }
}

impl Metadata {
    /// The identifier that `argument` stands for: the argument without the
    /// marker `bdex://` that may precede it.
    pub fn identifier(argument: &str) -> (id: String)
        ensures
            id@ == identifier_of(argument@),
    {
        let given = chars_of(argument);
        let marker = chars_of("bdex://");
        if given.len() < marker.len() {
            return argument.to_owned();
        }
        let mut k: usize = 0;
        while k < marker.len()
            invariant
                k <= marker@.len(),
                marker@.len() <= given@.len(),
                given@ == argument@,
                marker@ == "bdex://"@,
                given@.take(k as int) == marker@.take(k as int),
            decreases marker@.len() - k,
        {
            if given[k] != marker[k] {
                return argument.to_owned();
            }
            k += 1;
        }
        let mut rest: Vec<char> = Vec::new();
        let mut i: usize = marker.len();
        while i < given.len()
            invariant
                marker@.len() <= i <= given@.len(),
                rest@ == given@.subrange(marker@.len() as int, i as int),
            decreases given@.len() - i,
        {
            rest.push(given[i]);
            i += 1;
        }
        string_of(&rest)
    }

    /// The address under which the manifest with identifier `id` is served.
    pub fn address(id: &str) -> (url: String)
        ensures
            url@ == manifest_address(id@),
    {
        let mut url = "https://i0.hdslb.com/bfs/album/".to_owned();
        url.append(id);
        url.append(".png");
        url
    }

    /// The names of the block files, in the order in which they are merged:
    /// the order of the manifest.
    pub fn merge_order(&self) -> (names: Vec<String>)
        ensures
            names@.len() == self@.block.len(),
            forall|i: int| 0 <= i < names@.len() ==> names@[i]@ == merge_names(self@)[i],
    {
        let mut names: Vec<String> = Vec::new();
        let mut i: usize = 0;
        while i < self.block.len()
            invariant
                i <= self.block@.len(),
                names@.len() == i,
                forall|k: int| 0 <= k < i ==> names@[k]@ == self.block@[k].sha1@,
            decreases self.block@.len() - i,
        {
            names.push(self.block[i].sha1.clone());
            i += 1;
        }
        names
    }
}

} // verus!
