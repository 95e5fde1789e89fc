//! Decoder for the directory-metadata container that the macOS Finder keeps
//! beside a folder's files: a header, a root block with the block offsets, a
//! table of contents and a free list, and a tree of records.
use vstd::prelude::*;
use std::collections::BTreeMap;

pub mod errors;
pub mod impls;
pub mod layout;
pub mod record;
pub mod tables;
pub mod text;
pub mod theorems;
pub mod truncation;

pub use crate::errors::DSStoreError;
pub use crate::impls::ArrayAsInt;
pub use crate::record::Record;
pub use crate::tables::{find_block, free_view, put_bucket, put_entry, toc_view};
pub use crate::text::{code_units, text_from};
use crate::errors::out_of_data;
use crate::layout::{
    blank, bucket, buckets, class_size, entries, header, jump, magic, masked, node, record_at,
    records_from, root_block, session, take, take_u32, take_utf16, toc_entries, toc_start, tree,
    tree_name, tree_root, words, Model,
};
use crate::record::RecordModel;
use crate::text::{string_from_utf16, string_from_utf8};
use crate::theorems::class_sizes_differ;

verus! {

/// One decoding session: the buffer, the position in it, and what has been
/// decoded so far.
pub struct DSStore {
    data: Vec<u8>,
    position: usize,
    /// The block addresses of the root block, by block number, as stored.
    pub offsets: Vec<usize>,
    /// The named blocks, in the order in which their names first appeared.
    pub table_of_contents: Vec<(String, usize)>,
    /// The freed blocks of each size class, by block size.
    pub free_list: BTreeMap<usize, Vec<usize>>,
    pub internal_block_levels: usize,
    pub record_count: usize,
    pub block_count: usize,
    /// The records of the tree, in the order of the walk.
    pub records: Vec<Record>,
}

/// The records as mathematical values.
pub open spec fn records_view(records: Seq<Record>) -> Seq<RecordModel> {
    records.map_values(|r: Record| r@)
}

/// The position that a step of `n` bytes from `pos` needs the buffer to reach,
/// or the largest `usize` where that position does not fit.
fn required_end(pos: usize, n: usize) -> (r: usize)
    ensures
        DSStoreError::TooLittleData(r) == out_of_data(pos + n),
{
    if n > usize::MAX - pos {
        usize::MAX
    } else {
        pos + n
    }
}

/// A block address without its five size-class bits: the block's true offset.
pub fn block_offset(raw: usize) -> (r: usize)
    ensures
        r == masked(raw as int),
        r % 32 == 0,
        r <= raw < r + 32,
{
    raw - raw % 32
}

/// Whether `b` is the signature that every container starts with.
pub fn is_magic(b: &Vec<u8>) -> (r: bool)
    ensures
        r == (b@ == magic()),
{
    if b.len() != 8 {
        return false;
    }
    let r = b[0] == 0x00 && b[1] == 0x00 && b[2] == 0x00 && b[3] == 0x01 && b[4] == 0x42 && b[5]
        == 0x75 && b[6] == 0x64 && b[7] == 0x31;
    proof {
        if r {
            assert(b@ =~= magic());
        }
    }
    r
}

impl DSStore {
    /// The buffer being decoded.
    pub closed spec fn bytes(&self) -> Seq<u8> {
        self.data@
    }

    /// The position of the next byte to read.
    pub closed spec fn cursor(&self) -> usize {
        self.position
    }

    /// The position never lies behind the buffer's end, which a `usize` can
    /// hold.
    pub open spec fn wf(&self) -> bool {
        self.cursor() <= self.bytes().len() <= usize::MAX
    }

    /// What the session has decoded so far: its public fields, strings and
    /// vectors taken by their views.
    pub closed spec fn model(&self) -> Model {
        Model {
            offsets: self.offsets@,
            toc: toc_view(self.table_of_contents@),
            free: free_view(self.free_list@),
            levels: self.internal_block_levels,
            record_count: self.record_count,
            block_count: self.block_count,
            records: records_view(self.records@),
        }
    }

    /// The session is at `pos` in the buffer of `before` and holds what
    /// `before` held.
    pub open spec fn at(&self, before: &DSStore, pos: int) -> bool {
        &&& self.wf()
        &&& self.bytes() == before.bytes()
        &&& self.cursor() == pos
        &&& self.model() == before.model()
    }

    /// A session on `data` that has read nothing yet.
    pub fn new(data: Vec<u8>) -> (r: Self)
        ensures
            r.wf(),
            r.bytes() == data@,
            r.cursor() == 0,
            r.model() == blank(),
    {
        broadcast use vstd::std_specs::btree::group_btree_axioms;
        broadcast use vstd::laws_cmp::group_laws_cmp;

        let r = DSStore {
            data: data,
            position: 0,
            offsets: Vec::new(),
            table_of_contents: Vec::new(),
            free_list: BTreeMap::new(),
            internal_block_levels: 0,
            record_count: 0,
            block_count: 0,
            records: Vec::new(),
        };
        assert(r.model() =~= blank());
        assert(r.bytes().len() == r.data.len());
        r
    }

    /// The position of the next byte to read.
    pub fn position(&self) -> (r: usize)
        ensures
            r == self.cursor(),
    {
        self.position
    }

    /// The next `count` bytes. On failure the position stays.
    pub fn read(&mut self, count: usize) -> (r: Result<Vec<u8>, DSStoreError>)
        requires
            old(self).wf(),
        ensures
            match take(old(self).bytes(), old(self).cursor() as int, count as int) {
                Ok((b, p)) => r matches Ok(v) && v@ == b && final(self).at(old(self), p),
                Err(e) => r matches Err(x) && x == e && final(self).at(
                    old(self),
                    old(self).cursor() as int,
                ),
            },
    {
        if count > self.data.len() - self.position {
            return Err(DSStoreError::TooLittleData(required_end(self.position, count)));
        }
        let end: usize = self.position + count;
        let mut out: Vec<u8> = Vec::new();
        let mut i: usize = self.position;
        while i < end
            invariant
                self.position <= i <= end <= self.data.len(),
                out@ == self.data@.subrange(self.position as int, i as int),
            decreases end - i,
        {
            out.push(self.data[i]);
            i += 1;
            assert(out@ =~= self.data@.subrange(self.position as int, i as int));
        }
        self.position = end;
        Ok(out)
    }

    /// The next byte. On failure the position stays.
    pub fn read_one(&mut self) -> (r: Result<u8, DSStoreError>)
        requires
            old(self).wf(),
        ensures
            match take(old(self).bytes(), old(self).cursor() as int, 1) {
                Ok((b, p)) => r matches Ok(v) && v == b[0] && final(self).at(old(self), p),
                Err(e) => r matches Err(x) && x == e && final(self).at(
                    old(self),
                    old(self).cursor() as int,
                ),
            },
    {
        if self.data.len() - self.position < 1 {
            return Err(DSStoreError::TooLittleData(required_end(self.position, 1)));
        }
        let b: u8 = self.data[self.position];
        self.position += 1;
        Ok(b)
    }

    /// Passes over the next `count` bytes. On failure the position stays.
    pub fn skip(&mut self, count: usize) -> (r: Result<(), DSStoreError>)
        requires
            old(self).wf(),
        ensures
            match take(old(self).bytes(), old(self).cursor() as int, count as int) {
                Ok((_, p)) => r is Ok && final(self).at(old(self), p),
                Err(e) => r matches Err(x) && x == e && final(self).at(
                    old(self),
                    old(self).cursor() as int,
                ),
            },
    {
        if count > self.data.len() - self.position {
            return Err(DSStoreError::TooLittleData(required_end(self.position, count)));
        }
        self.position = self.position + count;
        Ok(())
    }

    /// Moves to the absolute position `to`, which may be the buffer's end. On
    /// failure the position stays.
    pub fn jump_to(&mut self, to: usize) -> (r: Result<(), DSStoreError>)
        requires
            old(self).wf(),
        ensures
            match jump(old(self).bytes(), to as int) {
                Ok(p) => r is Ok && final(self).at(old(self), p),
                Err(e) => r matches Err(x) && x == e && final(self).at(
                    old(self),
                    old(self).cursor() as int,
                ),
            },
    {
        if self.data.len() < to {
            return Err(DSStoreError::TooLittleData(to));
        }
        self.position = to;
        Ok(())
    }

    /// The next four bytes as one big-endian integer. On failure the position
    /// stays.
    pub fn read_u32(&mut self) -> (r: Result<usize, DSStoreError>)
        requires
            old(self).wf(),
        ensures
            match take_u32(old(self).bytes(), old(self).cursor() as int) {
                Ok((n, p)) => r matches Ok(v) && v == n && final(self).at(old(self), p),
                Err(e) => r matches Err(x) && x == e && final(self).at(
                    old(self),
                    old(self).cursor() as int,
                ),
            },
    {
        match self.read(4) {
            Ok(b) => Ok(b.as_slice().as_usize()),
            Err(e) => Err(e),
        }
    }

    /// The header behind the signature; gives the position at which the root
    /// block's payload starts.
    pub fn parse_header(&mut self) -> (r: Result<usize, DSStoreError>)
        requires
            old(self).wf(),
        ensures
            final(self).wf(),
            final(self).bytes() == old(self).bytes(),
            final(self).model() == old(self).model(),
            match header(old(self).bytes(), old(self).cursor() as int) {
                Ok((root, p)) => r matches Ok(v) && v == root && final(self).cursor() == p,
                Err(e) => r matches Err(x) && x == e,
            },
    {
        let first: usize = self.read_u32()?;
        self.skip(4)?;
        let second: usize = self.read_u32()?;
        if first != second {
            return Err(DSStoreError::OffsetsDontMatch);
        }
        self.skip(16)?;
        if first > usize::MAX - 4 {
            return Err(DSStoreError::TooLittleData(usize::MAX));
        }
        Ok(first + 4)
    }

    /// The next `count` block addresses, appended to the offsets.
    #[verifier::loop_isolation(false)]
    pub fn read_offsets(&mut self, count: usize) -> (r: Result<(), DSStoreError>)
        requires
            old(self).wf(),
        ensures
            final(self).wf(),
            final(self).bytes() == old(self).bytes(),
            match words(
                old(self).bytes(),
                old(self).cursor() as int,
                count as nat,
                old(self).model().offsets,
            ) {
                Ok((offsets, p)) => r is Ok && final(self).cursor() == p && final(self).model() == (
                Model { offsets: offsets, ..old(self).model() }),
                Err(e) => r matches Err(x) && x == e,
            },
    {
        let ghost data = self.bytes();
        let ghost m0 = self.model();
        let ghost start = self.cursor() as int;
        let mut i: usize = 0;
        while i < count
            invariant
                self.wf(),
                self.bytes() == data,
                i <= count,
                self.model() == (Model { offsets: self.model().offsets, ..m0 }),
                words(data, start, count as nat, m0.offsets) == words(
                    data,
                    self.cursor() as int,
                    (count - i) as nat,
                    self.model().offsets,
                ),
            decreases count - i,
        {
            let value: usize = self.read_u32()?;
            self.offsets.push(value);
            i += 1;
        }
        Ok(())
    }

    /// The next `count` entries of the table of contents, each set in the
    /// table in turn.
    #[verifier::loop_isolation(false)]
    pub fn read_toc(&mut self, count: usize) -> (r: Result<(), DSStoreError>)
        requires
            old(self).wf(),
        ensures
            final(self).wf(),
            final(self).bytes() == old(self).bytes(),
            match toc_entries(
                old(self).bytes(),
                old(self).cursor() as int,
                count as nat,
                old(self).model().toc,
            ) {
                Ok((toc, p)) => r is Ok && final(self).cursor() == p && final(self).model() == (
                Model { toc: toc, ..old(self).model() }),
                Err(e) => r matches Err(x) && x == e,
            },
    {
        let ghost data = self.bytes();
        let ghost m0 = self.model();
        let ghost start = self.cursor() as int;
        let mut j: usize = 0;
        while j < count
            invariant
                self.wf(),
                self.bytes() == data,
                j <= count,
                self.model() == (Model { toc: self.model().toc, ..m0 }),
                toc_entries(data, start, count as nat, m0.toc) == toc_entries(
                    data,
                    self.cursor() as int,
                    (count - j) as nat,
                    self.model().toc,
                ),
            decreases count - j,
        {
            let name_len: u8 = self.read_one()?;
            let raw: Vec<u8> = self.read(name_len as usize)?;
            let key: String = match string_from_utf8(raw) {
                Some(s) => s,
                None => {
                    return Err(DSStoreError::BadToc);
                },
            };
            let address: usize = self.read_u32()?;
            put_entry(&mut self.table_of_contents, key, address);
            j += 1;
        }
        Ok(())
    }

    /// One bucket of the free list: a count and that many offsets.
    #[verifier::loop_isolation(false)]
    pub fn read_bucket(&mut self) -> (r: Result<Vec<usize>, DSStoreError>)
        requires
            old(self).wf(),
        ensures
            final(self).wf(),
            final(self).bytes() == old(self).bytes(),
            final(self).model() == old(self).model(),
            match bucket(old(self).bytes(), old(self).cursor() as int) {
                Ok((items, p)) => r matches Ok(v) && v@ == items && final(self).cursor() == p,
                Err(e) => r matches Err(x) && x == e,
            },
    {
        let ghost data = self.bytes();
        let ghost m0 = self.model();
        let count: usize = self.read_u32()?;
        let ghost start = self.cursor() as int;
        let mut items: Vec<usize> = Vec::new();
        let mut k: usize = 0;
        while k < count
            invariant
                self.wf(),
                self.bytes() == data,
                k <= count,
                self.model() == m0,
                words(data, start, count as nat, Seq::empty()) == words(
                    data,
                    self.cursor() as int,
                    (count - k) as nat,
                    items@,
                ),
            decreases count - k,
        {
            let item: usize = self.read_u32()?;
            items.push(item);
            k += 1;
        }
        Ok(items)
    }

    /// The 32 buckets of the free list, smallest size class first, each
    /// stored under its block size.
    #[verifier::loop_isolation(false)]
    pub fn read_free_list(&mut self) -> (r: Result<(), DSStoreError>)
        requires
            old(self).wf(),
        ensures
            final(self).wf(),
            final(self).bytes() == old(self).bytes(),
            match buckets(old(self).bytes(), old(self).cursor() as int, 0, old(self).model().free) {
                Ok((free, p)) => r is Ok && final(self).cursor() == p && final(self).model() == (
                Model { free: free, ..old(self).model() }),
                Err(e) => r matches Err(x) && x == e,
            },
    {
        let ghost data = self.bytes();
        let ghost m0 = self.model();
        let ghost start = self.cursor() as int;
        let mut class: usize = 0;
        let mut size: usize = 1;
        while class < 32
            invariant
                self.wf(),
                self.bytes() == data,
                class <= 32,
                class < 32 ==> size == class_size(class as nat),
                self.model() == (Model { free: self.model().free, ..m0 }),
                buckets(data, start, 0, m0.free) == buckets(
                    data,
                    self.cursor() as int,
                    class as nat,
                    self.model().free,
                ),
            decreases 32 - class,
        {
            let items: Vec<usize> = self.read_bucket()?;
            put_bucket(&mut self.free_list, size, items);
            proof {
                if class < 31 {
                    class_sizes_differ(class as nat, (class + 1) as nat);
                    assert(class_size((class + 1) as nat) == 2 * class_size(class as nat));
                }
            }
            class += 1;
            if class < 32 {
                size = size * 2;
            }
        }
        Ok(())
    }

    /// The root block at the current position: the offsets, the table of
    /// contents and the 32 buckets of the free list.
    pub fn parse_root(&mut self) -> (r: Result<(), DSStoreError>)
        requires
            old(self).wf(),
        ensures
            final(self).wf(),
            final(self).bytes() == old(self).bytes(),
            match root_block(old(self).bytes(), old(self).cursor() as int, old(self).model()) {
                Ok((m, p)) => r is Ok && final(self).cursor() == p && final(self).model() == m,
                Err(e) => r matches Err(x) && x == e,
            },
    {
        let start: usize = self.position;
        let offset_count: usize = self.read_u32()?;
        self.skip(4)?;
        self.read_offsets(offset_count)?;
        let step: u64 = (offset_count as u64) * 4 + 1020;
        assert(toc_start(start as int, offset_count as int) == start + step);
        if step > (usize::MAX - start) as u64 {
            return Err(DSStoreError::TooLittleData(usize::MAX));
        }
        self.jump_to(start + step as usize)?;
        let toc_count: usize = self.read_u32()?;
        self.read_toc(toc_count)?;
        self.read_free_list()
    }

    /// The big-endian UTF-16 text in the next `count` bytes. On failure the
    /// position stays.
    pub fn read_utf16_str(&mut self, count: usize) -> (r: Result<String, DSStoreError>)
        requires
            old(self).wf(),
        ensures
            match take_utf16(old(self).bytes(), old(self).cursor() as int, count as int) {
                Ok((s, p)) => r matches Ok(v) && v@ == s && final(self).at(old(self), p),
                Err(e) => r matches Err(x) && x == e && final(self).at(
                    old(self),
                    old(self).cursor() as int,
                ),
            },
    {
        let start: usize = self.position;
        let raw: Vec<u8> = self.read(count)?;
        let units: Vec<u16> = code_units(&raw);
        let text = text_from(&raw, string_from_utf16(&units));
        if text.is_err() {
            self.position = start;
        }
        text
    }

    /// The record at the current position, appended to the records. The
    /// record's value, which follows its tag, is not read.
    pub fn parse_record(&mut self) -> (r: Result<(), DSStoreError>)
        requires
            old(self).wf(),
        ensures
            final(self).wf(),
            final(self).bytes() == old(self).bytes(),
            match record_at(old(self).bytes(), old(self).cursor() as int) {
                Ok((rec, p)) => r is Ok && final(self).cursor() == p && final(self).model() == (
                Model { records: old(self).model().records.push(rec), ..old(self).model() }),
                Err(e) => r matches Err(x) && x == e,
            },
    {
        let length: usize = self.read_u32()?;
        if length > usize::MAX / 2 {
            return Err(DSStoreError::TooLittleData(usize::MAX));
        }
        let file_name: String = self.read_utf16_str(length * 2)?;
        let structure_id: usize = self.read_u32()?;
        let tag: Vec<u8> = self.read(4)?;
        let structure_type: String = match string_from_utf8(tag) {
            Some(s) => s,
            None => {
                return Err(DSStoreError::BadToc);
            },
        };
        let ghost before = records_view(self.records@);
        let record = Record::new(file_name, structure_type, structure_id);
        self.records.push(record);
        assert(records_view(self.records@) =~= before.push(record@));
        Ok(())
    }

    /// The tree's descriptor; gives the true offset of the root node.
    pub fn parse_tree_root(&mut self) -> (r: Result<usize, DSStoreError>)
        requires
            old(self).wf(),
        ensures
            final(self).wf(),
            final(self).bytes() == old(self).bytes(),
            match tree_root(old(self).bytes(), old(self).model()) {
                Ok((m, first, p)) => r matches Ok(v) && v == first && final(self).cursor() == p
                    && final(self).model() == m,
                Err(e) => r matches Err(x) && x == e,
            },
    {
        let name: String = "DSDB".to_owned();
        proof {
            reveal_strlit("DSDB");
            assert(name@ =~= tree_name());
        }
        let block: usize = match find_block(&self.table_of_contents, &name) {
            Some(b) => b,
            None => {
                return Err(DSStoreError::BadToc);
            },
        };
        if block >= self.offsets.len() {
            return Err(DSStoreError::BadToc);
        }
        let address: usize = block_offset(self.offsets[block]);
        self.jump_to(address)?;
        let first: usize = self.read_u32()?;
        let levels: usize = self.read_u32()?;
        let records: usize = self.read_u32()?;
        let blocks: usize = self.read_u32()?;
        self.internal_block_levels = levels;
        self.record_count = records;
        self.block_count = blocks;
        Ok(block_offset(first))
    }

    /// The next `count` records, one behind the other, appended to the
    /// records.
    #[verifier::loop_isolation(false)]
    pub fn read_records(&mut self, count: usize) -> (r: Result<(), DSStoreError>)
        requires
            old(self).wf(),
        ensures
            final(self).wf(),
            final(self).bytes() == old(self).bytes(),
            match records_from(
                old(self).bytes(),
                old(self).cursor() as int,
                count as nat,
                old(self).model().records,
            ) {
                Ok((records, p)) => r is Ok && final(self).cursor() == p && final(self).model() == (
                Model { records: records, ..old(self).model() }),
                Err(e) => r matches Err(x) && x == e,
            },
    {
        let ghost data = self.bytes();
        let ghost m0 = self.model();
        let ghost start = self.cursor() as int;
        let mut i: usize = 0;
        while i < count
            invariant
                self.wf(),
                self.bytes() == data,
                i <= count,
                self.model() == (Model { records: self.model().records, ..m0 }),
                records_from(data, start, count as nat, m0.records) == records_from(
                    data,
                    self.cursor() as int,
                    (count - i) as nat,
                    self.model().records,
                ),
            decreases count - i,
        {
            self.parse_record()?;
            i += 1;
        }
        Ok(())
    }

    /// The records of the subtree under the node at `address`, appended to
    /// the records from left to right. `depth` is the number of levels of
    /// inner nodes that the subtree may have; a node with children below that
    /// is an error.
    #[verifier::loop_isolation(false)]
    pub fn parse_node(&mut self, address: usize, depth: usize) -> (r: Result<(), DSStoreError>)
        requires
            old(self).wf(),
        ensures
            final(self).wf(),
            final(self).bytes() == old(self).bytes(),
            match node(
                old(self).bytes(),
                address as int,
                depth as nat,
                old(self).model().records,
            ) {
                Ok(records) => r is Ok && final(self).model() == (Model {
                    records: records,
                    ..old(self).model()
                }),
                Err(e) => r matches Err(x) && x == e,
            },
        decreases depth,
    {
        let ghost data = self.bytes();
        let ghost m0 = self.model();
        self.jump_to(address)?;
        let rightmost: usize = self.read_u32()?;
        let count: usize = self.read_u32()?;
        if rightmost == 0 {
            return self.read_records(count);
        }
        if depth == 0 {
            return Err(DSStoreError::BadToc);
        }
        let ghost start = self.cursor() as int;
        let mut i: usize = 0;
        while i < count
            invariant
                self.wf(),
                self.bytes() == data,
                i <= count,
                depth > 0,
                self.model() == (Model { records: self.model().records, ..m0 }),
                entries(data, start, count as nat, depth as nat, m0.records) == entries(
                    data,
                    self.cursor() as int,
                    (count - i) as nat,
                    depth as nat,
                    self.model().records,
                ),
            decreases count - i,
        {
            let child: usize = self.read_u32()?;
            let back: usize = self.position;
            self.parse_node(block_offset(child), depth - 1)?;
            self.jump_to(back)?;
            self.parse_record()?;
            i += 1;
        }
        self.parse_node(block_offset(rightmost), depth - 1)
    }

    /// The tree: its descriptor, then every record under its root node.
    pub fn parse_tree(&mut self) -> (r: Result<(), DSStoreError>)
        requires
            old(self).wf(),
        ensures
            final(self).wf(),
            final(self).bytes() == old(self).bytes(),
            match tree(old(self).bytes(), old(self).model()) {
                Ok(m) => r is Ok && final(self).model() == m,
                Err(e) => r matches Err(x) && x == e,
            },
    {
        let first: usize = self.parse_tree_root()?;
        let levels: usize = self.internal_block_levels;
        self.parse_node(first, levels)
    }

    /// Decodes the whole container from the current position: the signature,
    /// the header, the root block and the tree. Gives the session with all
    /// that was decoded, or the first error.
    pub fn parse(self) -> (r: Result<Self, DSStoreError>)
        requires
            self.wf(),
        ensures
            match session(self.bytes(), self.cursor() as int, self.model()) {
                Ok(m) => r matches Ok(s) && s.wf() && s.bytes() == self.bytes() && s.model() == m,
                Err(e) => r matches Err(x) && x == e,
            },
    {
        let mut store = self;
        let signature: Vec<u8> = store.read(8)?;
        if !is_magic(&signature) {
            return Err(DSStoreError::BadMagic);
        }
        let root_offset: usize = store.parse_header()?;
        store.jump_to(root_offset)?;
        store.parse_root()?;
        store.parse_tree()?;
        Ok(store)
    }
}

} // verus!
