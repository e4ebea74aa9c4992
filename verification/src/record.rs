//! Result records.
//!
//! A raw index hit normalizes into either a compact record (entry kind, full
//! path, raw size and raw timestamps) or a full record that adds the derived
//! fields: the decomposed directory and file name, the extension (the
//! `"Folder"` sentinel for directories), and human-readable renderings of
//! size and timestamps. Records are plain immutable data; converting a
//! compact record into a full one is the projection this module specifies.

use vstd::prelude::*;

use crate::calendar::{human_readable_date, human_readable_date_at_offset, local_date_ok,
    timestamp_seq};
use crate::human::{human_readable_size, size_human_seq};
use crate::pathsplit::{directory_seq, extension_of_file_name, extension_seq, file_name_seq,
    split_full_path};

verus! {

/// The kind of a result entry, decided by a live file-system check at
/// projection time: a path that currently resolves to a directory is `Dir`,
/// every other (files, and paths that no longer exist) is `File`.
#[derive(Clone, Copy, Debug, PartialEq, Eq, Structural)]
pub enum ItemType {
    Dir,
    File,
}

impl ItemType {
    pub open spec fn label_seq(self) -> Seq<char> {
        if self == ItemType::Dir {
            seq!['D', 'i', 'r']
        } else {
            seq!['F', 'i', 'l', 'e']
        }
    }

    /// The display label of the kind: `"Dir"` or `"File"`.
    pub fn label(&self) -> (r: String)
        ensures
            r@ == self.label_seq(),
    {
        match self {
            ItemType::Dir => {
                proof {
                    reveal_strlit("Dir");
                    assert("Dir"@ =~= seq!['D', 'i', 'r']);
                }
                String::from_str("Dir")
            },
            ItemType::File => {
                proof {
                    reveal_strlit("File");
                    assert("File"@ =~= seq!['F', 'i', 'l', 'e']);
                }
                String::from_str("File")
            },
        }
    }
}

/// A full result record: the compact fields plus every derived one.
#[derive(Clone, Debug, PartialEq)]
pub struct Item {
    pub item_type: ItemType,
    pub full_path: String,
    pub directory: String,
    pub file_name: String,
    pub file_extension: String,
    pub size: u64,
    pub size_human: String,
    pub date_created: u64,
    pub date_created_human: String,
    pub date_modified: u64,
    pub date_modified_human: String,
}

/// A compact result record: only what the index hands back, for callers
/// that will project lazily.
#[derive(Clone, Debug, PartialEq)]
pub struct CompactItem {
    pub item_type: ItemType,
    pub full_path: String,
    pub size: u64,
    pub date_created: u64,
    pub date_modified: u64,
}

pub open spec fn folder_seq() -> Seq<char> {
    seq!['F', 'o', 'l', 'd', 'e', 'r']
}

/// The extension field of a record: the `"Folder"` sentinel for a
/// directory, whatever dots its name holds; otherwise the extension of the
/// file name decomposed from the full path.
pub open spec fn extension_field_seq(t: ItemType, full_path: Seq<char>) -> Seq<char> {
    if t == ItemType::Dir {
        folder_seq()
    } else {
        extension_seq(file_name_seq(full_path))
    }
}

/// `it` is exactly the projection of `c` with timestamps rendered at zone
/// offset `off`.
pub open spec fn is_projection_at(c: CompactItem, it: Item, off: int) -> bool {
    &&& it.item_type == c.item_type
    &&& it.full_path@ == c.full_path@
    &&& it.directory@ == directory_seq(c.full_path@)
    &&& it.file_name@ == file_name_seq(c.full_path@)
    &&& it.file_extension@ == extension_field_seq(c.item_type, c.full_path@)
    &&& it.size == c.size
    &&& it.size_human@ == size_human_seq(c.size as nat)
    &&& it.date_created == c.date_created
    &&& it.date_created_human@ == timestamp_seq(c.date_created, off)
    &&& it.date_modified == c.date_modified
    &&& it.date_modified_human@ == timestamp_seq(c.date_modified, off)
}

/// `it` is the projection of `c` with timestamps rendered in the machine's
/// local zone: every field but the two timestamp strings is pinned exactly,
/// and those two satisfy the local-rendering contract.
pub open spec fn is_projection_local(c: CompactItem, it: Item) -> bool {
    &&& it.item_type == c.item_type
    &&& it.full_path@ == c.full_path@
    &&& it.directory@ == directory_seq(c.full_path@)
    &&& it.file_name@ == file_name_seq(c.full_path@)
    &&& it.file_extension@ == extension_field_seq(c.item_type, c.full_path@)
    &&& it.size == c.size
    &&& it.size_human@ == size_human_seq(c.size as nat)
    &&& it.date_created == c.date_created
    &&& local_date_ok(c.date_created, it.date_created_human@)
    &&& it.date_modified == c.date_modified
    &&& local_date_ok(c.date_modified, it.date_modified_human@)
}

fn folder_string() -> (r: String)
    ensures
        r@ == folder_seq(),
{
    proof {
        reveal_strlit("Folder");
        assert("Folder"@ =~= folder_seq());
    }
    String::from_str("Folder")
}

/// Projects a compact record into a full one, rendering timestamps at an
/// explicit zone offset; a pure function of its two arguments.
pub fn convert_compact_item_to_item_at_offset(c_item: &CompactItem, offset_seconds: i32) -> (r:
    Item)
    requires
        -86400 < offset_seconds < 86400,
    ensures
        is_projection_at(*c_item, r, offset_seconds as int),
{
    let parts = split_full_path(c_item.full_path.as_str());
    let extension = if c_item.item_type == ItemType::Dir {
        folder_string()
    } else {
        extension_of_file_name(parts.1.as_str())
    };
    Item {
        item_type: c_item.item_type,
        full_path: c_item.full_path.clone(),
        directory: parts.0,
        file_name: parts.1,
        file_extension: extension,
        size: c_item.size,
        size_human: human_readable_size(c_item.size),
        date_created: c_item.date_created,
        date_created_human: human_readable_date_at_offset(c_item.date_created, offset_seconds),
        date_modified: c_item.date_modified,
        date_modified_human: human_readable_date_at_offset(c_item.date_modified, offset_seconds),
    }
}

/// Projects a compact record into a full one, rendering timestamps in the
/// machine's local zone.
pub fn convert_compact_item_to_item(c_item: &CompactItem) -> (r: Item)
    ensures
        is_projection_local(*c_item, r),
{
    let parts = split_full_path(c_item.full_path.as_str());
    let extension = if c_item.item_type == ItemType::Dir {
        folder_string()
    } else {
        extension_of_file_name(parts.1.as_str())
    };
    Item {
        item_type: c_item.item_type,
        full_path: c_item.full_path.clone(),
        directory: parts.0,
        file_name: parts.1,
        file_extension: extension,
        size: c_item.size,
        size_human: human_readable_size(c_item.size),
        date_created: c_item.date_created,
        date_created_human: human_readable_date(c_item.date_created),
        date_modified: c_item.date_modified,
        date_modified_human: human_readable_date(c_item.date_modified),
    }
}

/// Projects a whole compact result set in result-set order, in the
/// machine's local zone.
pub fn convert_compat_item_array_to_item_array(c_items: Vec<CompactItem>) -> (r: Vec<Item>)
    ensures
        r@.len() == c_items@.len(),
        forall|i: int|
            0 <= i < c_items@.len() ==> is_projection_local(c_items@[i], #[trigger] r@[i]),
{
    let mut items: Vec<Item> = Vec::new();
    let mut idx: usize = 0;
    while idx < c_items.len()
        invariant
            idx <= c_items@.len(),
            items@.len() == idx,
            forall|i: int| 0 <= i < idx ==> is_projection_local(c_items@[i], #[trigger] items@[i]),
        decreases c_items@.len() - idx,
    {
        let it = convert_compact_item_to_item(&c_items[idx]);
        items.push(it);
        idx = idx + 1;
    }
    items
}

/// Projects a whole compact result set in result-set order, rendering
/// timestamps at an explicit zone offset.
pub fn convert_compact_item_array_to_item_array_at_offset(
    c_items: &Vec<CompactItem>,
    offset_seconds: i32,
) -> (r: Vec<Item>)
    requires
        -86400 < offset_seconds < 86400,
    ensures
        r@.len() == c_items@.len(),
        forall|i: int|
            0 <= i < c_items@.len() ==> is_projection_at(
                c_items@[i],
                #[trigger] r@[i],
                offset_seconds as int,
            ),
{
    let mut items: Vec<Item> = Vec::new();
    let mut idx: usize = 0;
    while idx < c_items.len()
        invariant
            -86400 < offset_seconds < 86400,
            idx <= c_items@.len(),
            items@.len() == idx,
            forall|i: int|
                0 <= i < idx ==> is_projection_at(
                    c_items@[i],
                    #[trigger] items@[i],
                    offset_seconds as int,
                ),
        decreases c_items@.len() - idx,
    {
        let it = convert_compact_item_to_item_at_offset(&c_items[idx], offset_seconds);
        items.push(it);
        idx = idx + 1;
    }
    items
}

/// Projection is a pure function of the raw record and the zone offset:
/// records projected from field-for-field equal compact records at the same
/// offset are field-for-field identical, so projecting the same result set
/// twice yields identical records.
pub proof fn lemma_projection_deterministic(
    c1: CompactItem,
    c2: CompactItem,
    r1: Item,
    r2: Item,
    off: int,
)
    requires
        c1.item_type == c2.item_type,
        c1.full_path@ == c2.full_path@,
        c1.size == c2.size,
        c1.date_created == c2.date_created,
        c1.date_modified == c2.date_modified,
        is_projection_at(c1, r1, off),
        is_projection_at(c2, r2, off),
    ensures
        r1.item_type == r2.item_type,
        r1.full_path@ == r2.full_path@,
        r1.directory@ == r2.directory@,
        r1.file_name@ == r2.file_name@,
        r1.file_extension@ == r2.file_extension@,
        r1.size == r2.size,
        r1.size_human@ == r2.size_human@,
        r1.date_created == r2.date_created,
        r1.date_created_human@ == r2.date_created_human@,
        r1.date_modified == r2.date_modified,
        r1.date_modified_human@ == r2.date_modified_human@,
{
}

} // verus!
