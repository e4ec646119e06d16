//! Probes of the host: is its kernel the virtualized one that bottles need?

use crate::chars::{fields, lines, rows, same_chars, split_fields, split_lines, to_chars};
use vstd::prelude::*;

verus! {

/// What the mount table says of the root filesystem.
#[derive(Clone, Copy, Debug, PartialEq, Eq, Structural)]
pub enum RootKind {
    /// The root is mounted with a filesystem of the translating kernel
    /// layer, which has no namespaces.
    Translated,
    /// The root is mounted with some other filesystem.
    Native,
    /// No line of the table mounts the root.
    Unlisted,
    /// A line before the root's, or the root's own, holds too few fields.
    Malformed,
}

/// Whether `kind` names a filesystem of the translating kernel layer.
pub open spec fn is_translated(kind: Seq<char>) -> bool {
    kind == "lxfs"@ || kind == "wslfs"@
}

/// Reads the lines of a mount table in order. The first line whose second
/// field, the mount point, is `/` decides by its third field, the kind of
/// filesystem. A line with fewer than two fields, or a root line with
/// fewer than three, makes the table malformed.
pub open spec fn root_kind_of_lines(ls: Seq<Seq<char>>) -> RootKind
    decreases ls.len(),
{
    if ls.len() == 0 {
        RootKind::Unlisted
    } else {
        let fs = fields(ls[0]);
        if fs.len() < 2 {
            RootKind::Malformed
        } else if fs[1] == "/"@ {
            if fs.len() < 3 {
                RootKind::Malformed
            } else if is_translated(fs[2]) {
                RootKind::Translated
            } else {
                RootKind::Native
            }
        } else {
            root_kind_of_lines(ls.skip(1))
        }
    }
}

/// What the mount table `mounts` says of the root filesystem.
pub open spec fn root_kind(mounts: Seq<char>) -> RootKind {
    root_kind_of_lines(lines(mounts))
}

/// Whether a host with this root filesystem can hold a bottle.
pub open spec fn supports_bottles(kind: RootKind) -> bool {
    kind == RootKind::Native || kind == RootKind::Unlisted
}

/// Finds out from the text of the mount table how the root is mounted.
pub fn root_filesystem(mounts: &str) -> (kind: RootKind)
    ensures
        kind == root_kind(mounts@),
{
    let text = to_chars(mounts);
    let ls = split_lines(&text);
    let root = to_chars("/");
    let lxfs = to_chars("lxfs");
    let wslfs = to_chars("wslfs");
    let ghost all = rows(ls@);
    let mut i: usize = 0;
    assert(all.skip(0) == all);
    while i < ls.len()
        invariant
            i <= ls.len(),
            all == rows(ls@),
            all == lines(mounts@),
            root@ == "/"@,
            lxfs@ == "lxfs"@,
            wslfs@ == "wslfs"@,
            root_kind_of_lines(all) == root_kind_of_lines(all.skip(i as int)),
        decreases ls.len() - i,
    {
        assert(all.skip(i as int)[0] == ls@[i as int]@);
        assert(all.skip(i as int).skip(1) == all.skip(i + 1));
        let fs = split_fields(&ls[i]);
        let ghost f = fields(ls@[i as int]@);
        assert(rows(fs@).len() == fs.len());
        if fs.len() < 2 {
            return RootKind::Malformed;
        }
        assert(f[1] == fs@[1]@);
        if same_chars(&fs[1], &root) {
            if fs.len() < 3 {
                return RootKind::Malformed;
            }
            assert(f[2] == fs@[2]@);
            if same_chars(&fs[2], &lxfs) || same_chars(&fs[2], &wslfs) {
                return RootKind::Translated;
            }
            return RootKind::Native;
        }
        i = i + 1;
    }
    assert(all.skip(ls.len() as int).len() == 0);
    RootKind::Unlisted
}

} // verus!
