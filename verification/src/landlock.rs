//! The sandbox on Linux: Landlock, which grants rights to a file and
//! everything under it, and denies the rights it handles wherever it does not
//! grant them.
//!
//! The command is granted the rights to what is around the hidden paths
//! rather than denied those to the hidden paths: the rights to read
//! everything, and to write to devices and the writable paths, are granted to
//! each path whose tree holds no hidden path, descending into those that do,
//! and never to a hidden path. The clone is granted both last. The paths must
//! be canonical, as Landlock grants rights to the file a path resolves to.

use vstd::prelude::*;

use crate::error::{Error, ErrorView};
use crate::path::{is_canonical, is_within, within};

verus! {

/// The right to run a file.
pub const EXECUTE: u64 = 1u64 << 0u64;
/// The right to write to a file.
pub const WRITE_FILE: u64 = 1u64 << 1u64;
/// The right to read a file.
pub const READ_FILE: u64 = 1u64 << 2u64;
/// The right to remove a directory.
pub const REMOVE_DIR: u64 = 1u64 << 4u64;
/// The right to remove a file.
pub const REMOVE_FILE: u64 = 1u64 << 5u64;
/// The right to make a character device.
pub const MAKE_CHAR: u64 = 1u64 << 6u64;
/// The right to make a directory.
pub const MAKE_DIR: u64 = 1u64 << 7u64;
/// The right to make a regular file.
pub const MAKE_REG: u64 = 1u64 << 8u64;
/// The right to make a socket.
pub const MAKE_SOCK: u64 = 1u64 << 9u64;
/// The right to make a named pipe.
pub const MAKE_FIFO: u64 = 1u64 << 10u64;
/// The right to make a block device.
pub const MAKE_BLOCK: u64 = 1u64 << 11u64;
/// The right to make a symbolic link.
pub const MAKE_SYM: u64 = 1u64 << 12u64;
/// The right to move or link a file to another directory, from version 2 of
/// Landlock's ABI.
pub const REFER: u64 = 1u64 << 13u64;
/// The right to truncate a file, from version 3 of Landlock's ABI.
pub const TRUNCATE: u64 = 1u64 << 14u64;

/// The rights to read a file's contents or run it. Listing a directory is not
/// among them, so the command may list any directory, hidden ones included,
/// though it may not read what is in them.
pub const READ: u64 = 0x5u64;

/// The rights to change files and directories.
pub const WRITE: u64 = 0x7ff2u64;

/// The rights that apply to a file that is not a directory.
pub const FILE: u64 = 0x4007u64;

/// The version of Landlock's ABI with `REFER`, without which a file may not
/// be moved or linked to another directory, as git does.
pub const MIN_ABI: i64 = 2;

/// The rights are the flags they are made of.
pub proof fn lemma_rights()
    ensures
        READ == EXECUTE | READ_FILE,
        WRITE == WRITE_FILE | REMOVE_DIR | REMOVE_FILE | MAKE_CHAR | MAKE_DIR | MAKE_REG
            | MAKE_SOCK | MAKE_FIFO | MAKE_BLOCK | MAKE_SYM | REFER | TRUNCATE,
        FILE == EXECUTE | WRITE_FILE | READ_FILE | TRUNCATE,
{
    assert(0x5u64 == (1u64 << 0u64) | (1u64 << 2u64)) by (bit_vector);
    assert(0x7ff2u64 == (1u64 << 1u64) | (1u64 << 4u64) | (1u64 << 5u64) | (1u64 << 6u64) | (1u64
        << 7u64) | (1u64 << 8u64) | (1u64 << 9u64) | (1u64 << 10u64) | (1u64 << 11u64) | (1u64
        << 12u64) | (1u64 << 13u64) | (1u64 << 14u64)) by (bit_vector);
    assert(0x4007u64 == (1u64 << 0u64) | (1u64 << 1u64) | (1u64 << 2u64) | (1u64 << 14u64))
        by (bit_vector);
}

/// The rights the ruleset handles, for the version `abi` of Landlock's ABI
/// the system has: those to read and write, but to truncate before version 3.
/// An error before version 2, or if there is no Landlock.
pub open spec fn handled_of(abi: i64) -> Result<u64, ErrorView> {
    if abi < MIN_ABI {
        Err(ErrorView::NoLandlock)
    } else if abi < 3 {
        Ok((READ | WRITE) & !TRUNCATE)
    } else {
        Ok(READ | WRITE)
    }
}

/// The rights the ruleset handles, for the version `abi` of Landlock's ABI.
pub fn handled(abi: i64) -> (r: Result<u64, Error>)
    ensures
        match handled_of(abi) {
            Ok(h) => r matches Ok(x) && x == h,
            Err(e) => r matches Err(x) && x@ == e,
        },
{
    if abi < MIN_ABI {
        return Err(Error::NoLandlock);
    }
    let mut h = READ | WRITE;
    if abi < 3 {
        h = h & !TRUNCATE;
    }
    Ok(h)
}

/// What a path opened turned out to be.
pub enum Kind {
    Directory,
    SymbolicLink,
    Other,
}

/// The rights granted to a path of kind `kind` asked for `access`: all of
/// them for a directory, those that apply to a file for another file, none
/// for a symbolic link, as Landlock checks what it points to; and only those
/// the ruleset handles.
pub open spec fn granted_of(kind: Kind, access: u64, handled: u64) -> u64 {
    match kind {
        Kind::Directory => access & handled,
        Kind::SymbolicLink => 0,
        Kind::Other => access & FILE & handled,
    }
}

/// The rights granted to a path of kind `kind` asked for `access`; none
/// means no rule is added.
pub fn granted(kind: Kind, access: u64, handled: u64) -> (g: u64)
    ensures
        g == granted_of(kind, access, handled),
{
    match kind {
        Kind::Directory => access & handled,
        Kind::SymbolicLink => 0,
        Kind::Other => access & FILE & handled,
    }
}

/// No rule grants more than was asked for or than the ruleset handles, and a
/// file that is not a directory gets no right that applies only to
/// directories.
pub proof fn lemma_granted_within(kind: Kind, access: u64, handled: u64)
    ensures
        granted_of(kind, access, handled) & !access == 0,
        granted_of(kind, access, handled) & !handled == 0,
        kind is Other ==> granted_of(kind, access, handled) & !FILE == 0,
{
    let g = granted_of(kind, access, handled);
    match kind {
        Kind::Directory => {
            assert((access & handled) & !access == 0) by (bit_vector);
            assert((access & handled) & !handled == 0) by (bit_vector);
        },
        Kind::SymbolicLink => {
            assert(0u64 & !access == 0) by (bit_vector);
            assert(0u64 & !handled == 0) by (bit_vector);
        },
        Kind::Other => {
            assert((access & 0x4007u64 & handled) & !access == 0) by (bit_vector);
            assert((access & 0x4007u64 & handled) & !handled == 0) by (bit_vector);
            assert((access & 0x4007u64 & handled) & !0x4007u64 == 0) by (bit_vector);
        },
    }
}

/// How rights asked for a path are granted, given the hidden paths.
pub enum Grant {
    /// To nothing: the path is hidden, or under a hidden path.
    Nothing,
    /// To the path and everything under it: nothing under it is hidden.
    Whole,
    /// To each file in the path, in the same way: something under it is
    /// hidden.
    Each,
}

/// How rights asked for `path` are granted, given `hidden`.
pub open spec fn grant_of(path: Seq<char>, hidden: Seq<Seq<char>>) -> Grant {
    if exists|i: int| 0 <= i < hidden.len() && #[trigger] is_within(path, hidden[i]) {
        Grant::Nothing
    } else if exists|i: int| 0 <= i < hidden.len() && is_within(#[trigger] hidden[i], path) {
        Grant::Each
    } else {
        Grant::Whole
    }
}

/// How rights asked for the canonical `path` are granted, given the
/// canonical `hidden` paths.
pub fn grant(path: &str, hidden: &Vec<String>) -> (g: Grant)
    requires
        is_canonical(path@),
        forall|i: int| 0 <= i < hidden@.len() ==> is_canonical(#[trigger] hidden@[i]@),
    ensures
        g == grant_of(path@, hidden@.map_values(|h: String| h@)),
{
    let ghost hs = hidden@.map_values(|h: String| h@);
    let mut i: usize = 0;
    while i < hidden.len()
        invariant
            hs == hidden@.map_values(|h: String| h@),
            is_canonical(path@),
            forall|k: int| 0 <= k < hidden@.len() ==> is_canonical(#[trigger] hidden@[k]@),
            i <= hidden@.len(),
            forall|k: int| 0 <= k < i ==> !#[trigger] is_within(path@, hs[k]),
        decreases hidden@.len() - i,
    {
        if within(path, hidden[i].as_str()) {
            assert(is_within(path@, hs[i as int]));
            return Grant::Nothing;
        }
        i = i + 1;
    }
    let mut j: usize = 0;
    while j < hidden.len()
        invariant
            hs == hidden@.map_values(|h: String| h@),
            is_canonical(path@),
            j <= hidden@.len(),
            forall|k: int| 0 <= k < hidden@.len() ==> !#[trigger] is_within(path@, hs[k]),
            forall|k: int| 0 <= k < j ==> !is_within(#[trigger] hs[k], path@),
        decreases hidden@.len() - j,
    {
        if within(hidden[j].as_str(), path) {
            assert(is_within(hs[j as int], path@));
            return Grant::Each;
        }
        j = j + 1;
    }
    Grant::Whole
}

} // verus!
