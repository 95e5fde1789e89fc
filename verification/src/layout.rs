//! The container's byte layout, as mathematical functions of a buffer and a
//! position in it. Every decoding step of the library is stated against these.
use vstd::prelude::*;
use vstd::utf8::{decode_utf8, valid_utf8};
use crate::errors::{out_of_data, DSStoreError};
use crate::impls::be_u32;
use crate::record::RecordModel;
use crate::text::utf16_text;

verus! {

/// One entry of the table of contents: a name and the block it names.
pub type TocModel = Seq<(Seq<char>, usize)>;

/// Everything a decoding session has gathered so far.
#[verifier::ext_equal]
pub struct Model {
    pub offsets: Seq<usize>,
    pub toc: TocModel,
    pub free: Map<usize, Seq<usize>>,
    pub levels: usize,
    pub record_count: usize,
    pub block_count: usize,
    pub records: Seq<RecordModel>,
}

/// The state of a session that has read nothing yet.
pub open spec fn blank() -> Model {
    Model {
        offsets: Seq::empty(),
        toc: Seq::empty(),
        free: Map::empty(),
        levels: 0,
        record_count: 0,
        block_count: 0,
        records: Seq::empty(),
    }
}

/// The eight bytes every container starts with.
pub open spec fn magic() -> Seq<u8> {
    seq![0x00u8, 0x00u8, 0x00u8, 0x01u8, 0x42u8, 0x75u8, 0x64u8, 0x31u8]
}

/// The name under which the table of contents lists the tree's descriptor.
pub open spec fn tree_name() -> Seq<char> {
    seq!['D', 'S', 'D', 'B']
}

/// A block address without its five size-class bits.
pub open spec fn masked(raw: int) -> int {
    raw - raw % 32
}

/// Two to the power `class`.
pub open spec fn class_size(class: nat) -> nat
    decreases class,
{
    if class == 0 {
        1
    } else {
        2 * class_size((class - 1) as nat)
    }
}

/// The next `n` bytes at `pos` and the position behind them.
pub open spec fn take(data: Seq<u8>, pos: int, n: int) -> Result<(Seq<u8>, int), DSStoreError> {
    if pos + n <= data.len() {
        Ok((data.subrange(pos, pos + n), pos + n))
    } else {
        Err(out_of_data(pos + n))
    }
}

/// The big-endian 32-bit integer at `pos` and the position behind it.
pub open spec fn take_u32(data: Seq<u8>, pos: int) -> Result<(usize, int), DSStoreError> {
    match take(data, pos, 4) {
        Ok((b, p)) => Ok((be_u32(b) as usize, p)),
        Err(e) => Err(e),
    }
}

/// Moving to the absolute position `to`.
pub open spec fn jump(data: Seq<u8>, to: int) -> Result<int, DSStoreError> {
    if to <= data.len() {
        Ok(to)
    } else {
        Err(out_of_data(to))
    }
}

/// The header behind the signature: the root offset, four reserved bytes, the
/// root offset again, sixteen reserved bytes. Gives the position at which the
/// root block's payload starts, four bytes behind the root offset.
pub open spec fn header(data: Seq<u8>, pos: int) -> Result<(usize, int), DSStoreError> {
    match take_u32(data, pos) {
        Err(e) => Err(e),
        Ok((first, _)) => match take(data, pos + 4, 4) {
            Err(e) => Err(e),
            Ok(_) => match take_u32(data, pos + 8) {
                Err(e) => Err(e),
                Ok((second, _)) => if first != second {
                    Err(DSStoreError::OffsetsDontMatch)
                } else {
                    match take(data, pos + 12, 16) {
                        Err(e) => Err(e),
                        Ok(_) => if first + 4 > usize::MAX {
                            Err(out_of_data(first + 4))
                        } else {
                            Ok(((first + 4) as usize, pos + 28))
                        },
                    }
                },
            },
        },
    }
}

/// `remaining` consecutive 32-bit integers from `pos`, appended to `acc`.
pub open spec fn words(data: Seq<u8>, pos: int, remaining: nat, acc: Seq<usize>) -> Result<
    (Seq<usize>, int),
    DSStoreError,
>
    decreases remaining,
{
    if remaining == 0 {
        Ok((acc, pos))
    } else {
        match take_u32(data, pos) {
            Err(e) => Err(e),
            Ok((v, p)) => words(data, p, (remaining - 1) as nat, acc.push(v)),
        }
    }
}

/// The place of `name` in a table of contents, if it is listed.
pub open spec fn toc_index(toc: TocModel, name: Seq<char>) -> Option<int>
    decreases toc.len(),
{
    if toc.len() == 0 {
        None
    } else if toc.last().0 == name {
        Some(toc.len() - 1)
    } else {
        toc_index(toc.drop_last(), name)
    }
}

/// A table of contents after `name` was set to `block`: a listed name keeps
/// its place and gets the new block, a new name goes to the end.
pub open spec fn toc_put(toc: TocModel, name: Seq<char>, block: usize) -> TocModel {
    match toc_index(toc, name) {
        Some(i) => toc.update(i, (name, block)),
        None => toc.push((name, block)),
    }
}

/// No name is listed twice.
pub open spec fn toc_unique(toc: TocModel) -> bool {
    forall|i: int, j: int| 0 <= i < j < toc.len() ==> (#[trigger] toc[i]).0 != (#[trigger] toc[j]).0
}

/// One entry of the table of contents at `pos`: a length byte, that many bytes
/// of UTF-8, and a 32-bit block number.
pub open spec fn toc_entry(data: Seq<u8>, pos: int) -> Result<
    ((Seq<char>, usize), int),
    DSStoreError,
> {
    match take(data, pos, 1) {
        Err(e) => Err(e),
        Ok((len, p)) => match take(data, p, len[0] as int) {
            Err(e) => Err(e),
            Ok((name, q)) => if !valid_utf8(name) {
                Err(DSStoreError::BadToc)
            } else {
                match take_u32(data, q) {
                    Err(e) => Err(e),
                    Ok((block, r)) => Ok(((decode_utf8(name), block), r)),
                }
            },
        },
    }
}

/// `remaining` entries from `pos`, each put into `acc` in turn.
pub open spec fn toc_entries(data: Seq<u8>, pos: int, remaining: nat, acc: TocModel) -> Result<
    (TocModel, int),
    DSStoreError,
>
    decreases remaining,
{
    if remaining == 0 {
        Ok((acc, pos))
    } else {
        match toc_entry(data, pos) {
            Err(e) => Err(e),
            Ok((entry, p)) => toc_entries(
                data,
                p,
                (remaining - 1) as nat,
                toc_put(acc, entry.0, entry.1),
            ),
        }
    }
}

/// One bucket of the free list at `pos`: a count and that many offsets.
pub open spec fn bucket(data: Seq<u8>, pos: int) -> Result<(Seq<usize>, int), DSStoreError> {
    match take_u32(data, pos) {
        Err(e) => Err(e),
        Ok((count, p)) => words(data, p, count as nat, Seq::empty()),
    }
}

/// The buckets of the size classes `class` to 31 from `pos`, each stored in
/// `acc` under its block size.
pub open spec fn buckets(data: Seq<u8>, pos: int, class: nat, acc: Map<usize, Seq<usize>>) -> Result<
    (Map<usize, Seq<usize>>, int),
    DSStoreError,
>
    decreases 32 - class,
{
    if class >= 32 {
        Ok((acc, pos))
    } else {
        match bucket(data, pos) {
            Err(e) => Err(e),
            Ok((items, p)) => buckets(
                data,
                p,
                class + 1,
                acc.insert(class_size(class) as usize, items),
            ),
        }
    }
}

/// Where the table of contents starts, for a root block at `start` that
/// declares `count` offsets.
pub open spec fn toc_start(start: int, count: int) -> int {
    (start - 4) + count * 8 + (256 - count) * 4
}

/// The root block at `start`: the offsets, the table of contents and the free
/// list, added to what `m` holds.
pub open spec fn root_block(data: Seq<u8>, start: int, m: Model) -> Result<(Model, int), DSStoreError> {
    match take_u32(data, start) {
        Err(e) => Err(e),
        Ok((count, _)) => match take(data, start + 4, 4) {
            Err(e) => Err(e),
            Ok(_) => match words(data, start + 8, count as nat, m.offsets) {
                Err(e) => Err(e),
                Ok((offsets, _)) => match jump(data, toc_start(start, count as int)) {
                    Err(e) => Err(e),
                    Ok(at) => match take_u32(data, at) {
                        Err(e) => Err(e),
                        Ok((entries, p)) => match toc_entries(data, p, entries as nat, m.toc) {
                            Err(e) => Err(e),
                            Ok((toc, q)) => match buckets(data, q, 0, m.free) {
                                Err(e) => Err(e),
                                Ok((free, r)) => Ok(
                                    (Model { offsets: offsets, toc: toc, free: free, ..m }, r),
                                ),
                            },
                        },
                    },
                },
            },
        },
    }
}

/// The 16-bit code units that `b` spells, each most significant byte first.
pub open spec fn code_units_of(b: Seq<u8>) -> Seq<u16> {
    Seq::new(b.len() / 2, |i: int| (b[2 * i] as int * 0x100 + b[2 * i + 1] as int) as u16)
}

/// What decoding the text in `b` gives: the text, or the error for bytes that
/// are no whole number of well-paired code units.
pub open spec fn text_of(b: Seq<u8>) -> Result<Seq<char>, DSStoreError> {
    if b.len() % 2 != 0 {
        Err(DSStoreError::BadString)
    } else {
        match utf16_text(code_units_of(b)) {
            Some(s) => Ok(s),
            None => Err(DSStoreError::BadString),
        }
    }
}

/// The big-endian UTF-16 text in the `n` bytes at `pos`.
pub open spec fn take_utf16(data: Seq<u8>, pos: int, n: int) -> Result<(Seq<char>, int), DSStoreError> {
    match take(data, pos, n) {
        Err(e) => Err(e),
        Ok((b, p)) => match text_of(b) {
            Err(e) => Err(e),
            Ok(s) => Ok((s, p)),
        },
    }
}

/// The record at `pos`: the name's length in code units, the name, the
/// structure's number and its four-character tag.
pub open spec fn record_at(data: Seq<u8>, pos: int) -> Result<(RecordModel, int), DSStoreError> {
    match take_u32(data, pos) {
        Err(e) => Err(e),
        Ok((len, p)) => match take_utf16(data, p, len * 2) {
            Err(e) => Err(e),
            Ok((name, q)) => match take_u32(data, q) {
                Err(e) => Err(e),
                Ok((id, r)) => match take(data, r, 4) {
                    Err(e) => Err(e),
                    Ok((tag, t)) => if !valid_utf8(tag) {
                        Err(DSStoreError::BadToc)
                    } else {
                        Ok(
                            (
                                RecordModel {
                                    file_name: name,
                                    structure_type: decode_utf8(tag),
                                    structure_id: id,
                                },
                                t,
                            ),
                        )
                    },
                },
            },
        },
    }
}

/// `remaining` consecutive records from `pos`, appended to `acc`.
pub open spec fn records_from(data: Seq<u8>, pos: int, remaining: nat, acc: Seq<RecordModel>) -> Result<
    (Seq<RecordModel>, int),
    DSStoreError,
>
    decreases remaining,
{
    if remaining == 0 {
        Ok((acc, pos))
    } else {
        match record_at(data, pos) {
            Err(e) => Err(e),
            Ok((rec, p)) => records_from(data, p, (remaining - 1) as nat, acc.push(rec)),
        }
    }
}

/// The records of the subtree whose root node is the block at `address`,
/// appended to `acc` from left to right. A node starts with the address of its
/// rightmost child, zero in a leaf, and the number of its entries. A leaf's
/// entries are records; an inner node's entries are a child's address and a
/// record each, the child's records coming before the record. A node may have
/// children only while `depth` is above zero.
pub open spec fn node(data: Seq<u8>, address: int, depth: nat, acc: Seq<RecordModel>) -> Result<
    Seq<RecordModel>,
    DSStoreError,
>
    decreases depth, 1nat, 0nat,
{
    match jump(data, address) {
        Err(e) => Err(e),
        Ok(at) => match take_u32(data, at) {
            Err(e) => Err(e),
            Ok((rightmost, p)) => match take_u32(data, p) {
                Err(e) => Err(e),
                Ok((count, q)) => if rightmost == 0 {
                    match records_from(data, q, count as nat, acc) {
                        Err(e) => Err(e),
                        Ok((records, _)) => Ok(records),
                    }
                } else if depth == 0 {
                    Err(DSStoreError::BadToc)
                } else {
                    match entries(data, q, count as nat, depth, acc) {
                        Err(e) => Err(e),
                        Ok((records, _)) => node(
                            data,
                            masked(rightmost as int),
                            (depth - 1) as nat,
                            records,
                        ),
                    }
                },
            },
        },
    }
}

/// `remaining` entries of an inner node from `pos`.
pub open spec fn entries(
    data: Seq<u8>,
    pos: int,
    remaining: nat,
    depth: nat,
    acc: Seq<RecordModel>,
) -> Result<(Seq<RecordModel>, int), DSStoreError>
    decreases depth, 0nat, remaining,
{
    if remaining == 0 || depth == 0 {
        Ok((acc, pos))
    } else {
        match take_u32(data, pos) {
            Err(e) => Err(e),
            Ok((child, p)) => match node(data, masked(child as int), (depth - 1) as nat, acc) {
                Err(e) => Err(e),
                Ok(below) => match record_at(data, p) {
                    Err(e) => Err(e),
                    Ok((rec, q)) => entries(data, q, (remaining - 1) as nat, depth, below.push(rec)),
                },
            },
        }
    }
}

/// The tree's descriptor, found through the table of contents and the
/// offsets: the address of the root node, the number of levels of inner
/// nodes, and the numbers of records and of blocks. Gives the new state, the
/// root node's address without its size-class bits, and the position behind
/// the descriptor.
pub open spec fn tree_root(data: Seq<u8>, m: Model) -> Result<(Model, int, int), DSStoreError> {
    match toc_index(m.toc, tree_name()) {
        None => Err(DSStoreError::BadToc),
        Some(i) => if m.toc[i].1 >= m.offsets.len() {
            Err(DSStoreError::BadToc)
        } else {
            match jump(data, masked(m.offsets[m.toc[i].1 as int] as int)) {
                Err(e) => Err(e),
                Ok(at) => match take_u32(data, at) {
                    Err(e) => Err(e),
                    Ok((first, p)) => match take_u32(data, p) {
                        Err(e) => Err(e),
                        Ok((levels, q)) => match take_u32(data, q) {
                            Err(e) => Err(e),
                            Ok((records, r)) => match take_u32(data, r) {
                                Err(e) => Err(e),
                                Ok((blocks, t)) => Ok(
                                    (
                                        Model {
                                            levels: levels,
                                            record_count: records,
                                            block_count: blocks,
                                            ..m
                                        },
                                        masked(first as int),
                                        t,
                                    ),
                                ),
                            },
                        },
                    },
                },
            }
        },
    }
}

/// The tree: its descriptor, then every record under its root node.
pub open spec fn tree(data: Seq<u8>, m: Model) -> Result<Model, DSStoreError> {
    match tree_root(data, m) {
        Err(e) => Err(e),
        Ok((with_root, first, _)) => match node(data, first, with_root.levels as nat, with_root.records) {
            Err(e) => Err(e),
            Ok(records) => Ok(Model { records: records, ..with_root }),
        },
    }
}

/// A whole container read from `pos`: the signature, the header, the root
/// block and the tree, added to what `m` holds.
pub open spec fn session(data: Seq<u8>, pos: int, m: Model) -> Result<Model, DSStoreError> {
    match take(data, pos, 8) {
        Err(e) => Err(e),
        Ok((signature, p)) => if signature != magic() {
            Err(DSStoreError::BadMagic)
        } else {
            match header(data, p) {
                Err(e) => Err(e),
                Ok((root, _)) => match jump(data, root as int) {
                    Err(e) => Err(e),
                    Ok(at) => match root_block(data, at, m) {
                        Err(e) => Err(e),
                        Ok((with_root, _)) => tree(data, with_root),
                    },
                },
            }
        },
    }
}

} // verus!
