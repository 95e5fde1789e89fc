//! What holds of the layout for every buffer.
use vstd::prelude::*;
use vstd::utf8::{decode_utf8, valid_utf8};
use crate::errors::{out_of_data, DSStoreError};
use crate::impls::be_u32;
use crate::layout::{
    bucket, buckets, class_size, jump, magic, masked, session, take, take_u32, toc_entries,
    toc_entry, toc_index, toc_put, toc_unique, words, Model, TocModel,
};

verus! {

/// The true offset of a block address is the address with its low five bits
/// cleared: it equals `v & 0xFFFFFFE0`, and none of the five bits is left in it.
pub proof fn masking_clears_size_class(v: u32)
    ensures
        masked(v as int) == (v & 0xFFFF_FFE0u32) as int,
        (v & 0xFFFF_FFE0u32) & 0x1Fu32 == 0,
        0 <= masked(v as int) <= v,
{
    assert(v - v % 32 == v & 0xFFFF_FFE0u32) by (bit_vector);
    assert((v & 0xFFFF_FFE0u32) & 0x1Fu32 == 0) by (bit_vector);
}

/// A read that a buffer can serve fails on every shorter cut of that buffer
/// that ends before the read does, and the error carries the position at which
/// the read would have ended.
pub proof fn cut_read_fails(data: Seq<u8>, pos: int, n: int, cut: int)
    requires
        0 <= pos,
        0 <= n,
        pos + n <= data.len() <= usize::MAX,
        0 <= cut < pos + n,
    ensures
        take(data, pos, n) is Ok,
        take(data.take(cut), pos, n) == Err::<(Seq<u8>, int), DSStoreError>(
            DSStoreError::TooLittleData((pos + n) as usize),
        ),
        n == 4 ==> take_u32(data.take(cut), pos) == Err::<(usize, int), DSStoreError>(
            DSStoreError::TooLittleData((pos + 4) as usize),
        ),
{
}

/// A jump that a buffer can serve fails on every cut of that buffer that ends
/// before the target, and the error carries the target.
pub proof fn cut_jump_fails(data: Seq<u8>, to: int, cut: int)
    requires
        0 <= cut < to <= data.len() <= usize::MAX,
    ensures
        jump(data, to) == Ok::<int, DSStoreError>(to),
        jump(data.take(cut), to) == Err::<int, DSStoreError>(
            DSStoreError::TooLittleData(to as usize),
        ),
{
}

/// A buffer whose first eight bytes differ from the signature in the byte `i`
/// is refused for its signature, whatever else it holds.
pub proof fn wrong_signature_refused(data: Seq<u8>, pos: int, m: Model, i: int)
    requires
        0 <= pos,
        pos + 8 <= data.len(),
        0 <= i < 8,
        data[pos + i] != magic()[i],
    ensures
        session(data, pos, m) == Err::<Model, DSStoreError>(DSStoreError::BadMagic),
{
    assert(data.subrange(pos, pos + 8)[i] == data[pos + i]);
}

/// A name that no entry carries is not found.
pub proof fn unlisted_name_not_found(toc: TocModel, name: Seq<char>)
    requires
        forall|i: int| 0 <= i < toc.len() ==> (#[trigger] toc[i]).0 != name,
    ensures
        toc_index(toc, name) is None,
    decreases toc.len(),
{
    if toc.len() > 0 {
        assert(toc.last() == toc[toc.len() - 1]);
        unlisted_name_not_found(toc.drop_last(), name);
    }
}

/// The four bytes that store `v`, most significant byte first.
pub open spec fn be_bytes(v: u32) -> Seq<u8> {
    seq![
        (v / 0x100_0000) as u8,
        (v / 0x1_0000 % 0x100) as u8,
        (v / 0x100 % 0x100) as u8,
        (v % 0x100) as u8,
    ]
}

/// The bytes that store one entry of the table of contents: the length of the
/// name, the name in UTF-8, and the block number.
pub open spec fn entry_bytes(name: Seq<u8>, block: u32) -> Seq<u8> {
    seq![name.len() as u8] + name + be_bytes(block)
}

/// Four bytes that store an integer are read as that integer.
pub proof fn stored_integer_is_read(v: u32)
    ensures
        be_u32(be_bytes(v)) == v,
{
}

/// An entry that a buffer stores at `pos`, with a name of valid UTF-8 that one
/// length byte can announce, is decoded to that name and that block number,
/// and the position ends behind it.
pub proof fn stored_entry_is_decoded(data: Seq<u8>, pos: int, name: Seq<u8>, block: u32)
    requires
        0 <= pos,
        name.len() <= 255,
        valid_utf8(name),
        pos + 5 + name.len() <= data.len(),
        data.subrange(pos, pos + 5 + name.len()) == entry_bytes(name, block),
    ensures
        toc_entry(data, pos) == Ok::<((Seq<char>, usize), int), DSStoreError>(
            ((decode_utf8(name), block as usize), pos + 5 + name.len()),
        ),
{
    let n = name.len() as int;
    let stored = data.subrange(pos, pos + 5 + n);
    assert(data.subrange(pos, pos + 1) =~= stored.subrange(0, 1));
    assert(stored.subrange(0, 1)[0] == n as u8);
    assert(data.subrange(pos + 1, pos + 1 + n) =~= stored.subrange(1, 1 + n));
    assert(stored.subrange(1, 1 + n) =~= name);
    assert(data.subrange(pos + 1 + n, pos + 5 + n) =~= stored.subrange(1 + n, 5 + n));
    assert(stored.subrange(1 + n, 5 + n) =~= be_bytes(block));
    stored_integer_is_read(block);
}

/// The `count` entries stored from `pos`, one behind the other, as they are
/// written: a name may occur more than once.
pub open spec fn written_entries(data: Seq<u8>, pos: int, count: nat) -> Result<
    (TocModel, int),
    DSStoreError,
>
    decreases count,
{
    if count == 0 {
        Ok((Seq::empty(), pos))
    } else {
        match toc_entry(data, pos) {
            Err(e) => Err(e),
            Ok((entry, p)) => match written_entries(data, p, (count - 1) as nat) {
                Err(e) => Err(e),
                Ok((rest, q)) => Ok((seq![entry] + rest, q)),
            },
        }
    }
}

/// Where a buffer stores `count` entries with names that differ from each
/// other and from those already in the table, decoding them adds exactly
/// those entries to the table, in their order, with the names and blocks
/// written.
pub proof fn distinct_entries_all_decoded(data: Seq<u8>, pos: int, count: nat, acc: TocModel)
    requires
        written_entries(data, pos, count) is Ok,
        toc_unique(acc + written_entries(data, pos, count)->Ok_0.0),
    ensures
        written_entries(data, pos, count)->Ok_0.0.len() == count,
        toc_entries(data, pos, count, acc) == Ok::<(TocModel, int), DSStoreError>(
            (
                acc + written_entries(data, pos, count)->Ok_0.0,
                written_entries(data, pos, count)->Ok_0.1,
            ),
        ),
    decreases count,
{
    let all = written_entries(data, pos, count)->Ok_0.0;
    if count == 0 {
        assert(acc + all =~= acc);
    } else {
        let (entry, p) = toc_entry(data, pos)->Ok_0;
        let rest = written_entries(data, p, (count - 1) as nat)->Ok_0.0;
        assert(all =~= seq![entry] + rest);
        let whole = acc + all;
        assert(whole[acc.len() as int] == entry);
        assert forall|i: int| 0 <= i < acc.len() implies (#[trigger] acc[i]).0 != entry.0 by {
            assert(whole[i] == acc[i]);
        }
        unlisted_name_not_found(acc, entry.0);
        assert(toc_put(acc, entry.0, entry.1) =~= acc.push(entry));
        assert(acc.push(entry) + rest =~= whole);
        distinct_entries_all_decoded(data, p, (count - 1) as nat, acc.push(entry));
    }
}

/// Block sizes grow strictly with the size class.
pub proof fn class_sizes_grow(a: nat, b: nat)
    requires
        a < b,
    ensures
        0 < class_size(a) < class_size(b),
    decreases b,
{
    if a + 1 < b {
        class_sizes_grow(a, (b - 1) as nat);
    } else if a > 0 {
        class_sizes_grow((a - 1) as nat, a);
    }
}

/// Block sizes of different size classes differ, and the largest is two to
/// the power 31.
pub proof fn class_sizes_differ(a: nat, b: nat)
    requires
        a < b <= 31,
    ensures
        0 < class_size(a) < class_size(b) <= 0x8000_0000,
{
    class_sizes_grow(a, b);
    assert(class_size(31) == 0x8000_0000) by {
        reveal_with_fuel(class_size, 32);
    }
    if b < 31 {
        class_sizes_grow(b, 31);
    }
}

/// Reading the buckets of the classes `class` to 31 leaves every other key of
/// the free list as it was.
pub proof fn other_buckets_kept(
    data: Seq<u8>,
    pos: int,
    class: nat,
    acc: Map<usize, Seq<usize>>,
    key: usize,
)
    requires
        buckets(data, pos, class, acc) is Ok,
        acc.contains_key(key),
        forall|k: nat| class <= k < 32 ==> class_size(k) != key,
    ensures
        buckets(data, pos, class, acc)->Ok_0.0.contains_key(key),
        buckets(data, pos, class, acc)->Ok_0.0[key] == acc[key],
    decreases 32 - class,
{
    if class < 32 {
        let (items, p) = bucket(data, pos)->Ok_0;
        assert(class_size(class) != key);
        if class < 31 {
            class_sizes_differ(class, 31);
        } else {
            class_sizes_differ(30, 31);
        }
        other_buckets_kept(data, p, class + 1, acc.insert(class_size(class) as usize, items), key);
    }
}

/// Every bucket is stored: after the buckets of the classes `class` to 31 were
/// read, the free list holds what the bucket of `class` held under that
/// class's block size, and holds the empty sequence there where the bucket's
/// count is zero.
pub proof fn every_bucket_stored(data: Seq<u8>, pos: int, class: nat, acc: Map<usize, Seq<usize>>)
    requires
        class < 32,
        buckets(data, pos, class, acc) is Ok,
    ensures
        bucket(data, pos) is Ok,
        buckets(data, pos, class, acc)->Ok_0.0.contains_key(class_size(class) as usize),
        buckets(data, pos, class, acc)->Ok_0.0[class_size(class) as usize] == bucket(
            data,
            pos,
        )->Ok_0.0,
        take_u32(data, pos) matches Ok((count, _)) && (count == 0 ==> bucket(data, pos)->Ok_0.0
            == Seq::<usize>::empty()),
{
    let (items, p) = bucket(data, pos)->Ok_0;
    let key = class_size(class) as usize;
    assert forall|k: nat| class + 1 <= k < 32 implies class_size(k) != key by {
        class_sizes_differ(class, k);
    }
    if class < 31 {
        class_sizes_differ(class, 31);
    } else {
        class_sizes_differ(30, 31);
    }
    other_buckets_kept(data, p, class + 1, acc.insert(key, items), key);
    reveal_with_fuel(crate::layout::words, 2);
}

/// After the buckets of the classes `class` to 31 were read, the free list
/// has an entry for each of these classes, under its block size.
pub proof fn every_class_present(
    data: Seq<u8>,
    pos: int,
    class: nat,
    acc: Map<usize, Seq<usize>>,
    k: nat,
)
    requires
        buckets(data, pos, class, acc) is Ok,
        class <= k < 32,
    ensures
        buckets(data, pos, class, acc)->Ok_0.0.contains_key(class_size(k) as usize),
    decreases 32 - class,
{
    if k == class {
        every_bucket_stored(data, pos, class, acc);
    } else {
        let (items, p) = bucket(data, pos)->Ok_0;
        every_class_present(
            data,
            p,
            class + 1,
            acc.insert(class_size(class) as usize, items),
            k,
        );
    }
}

/// A run of integers is read if and only if the buffer holds all of it; the
/// integers then follow what was there before, in the order in which the
/// buffer holds them, and the position ends behind the last.
pub proof fn words_are_read_in_order(data: Seq<u8>, pos: int, remaining: nat, acc: Seq<usize>)
    requires
        0 <= pos,
    ensures
        words(data, pos, remaining, acc) is Ok <==> remaining == 0 || pos + 4 * remaining
            <= data.len(),
        words(data, pos, remaining, acc) matches Ok((all, p)) ==> {
            &&& p == pos + 4 * remaining
            &&& all.len() == acc.len() + remaining
            &&& all.take(acc.len() as int) == acc
            &&& forall|i: int|
                0 <= i < remaining ==> #[trigger] all[acc.len() + i] == be_u32(
                    data.subrange(pos + 4 * i, pos + 4 * i + 4),
                ) as usize
        },
    decreases remaining,
{
    if remaining > 0 {
        if let Ok((v, p)) = take_u32(data, pos) {
            let next = acc.push(v);
            words_are_read_in_order(data, p, (remaining - 1) as nat, next);
            if let Ok((all, q)) = words(data, p, (remaining - 1) as nat, next) {
                assert(all.take(acc.len() as int) =~= next.take(acc.len() as int));
                assert(next.take(acc.len() as int) =~= acc);
                assert(all[acc.len() as int] == all.take(next.len() as int)[acc.len() as int]);
                assert forall|i: int| 0 <= i < remaining implies #[trigger] all[acc.len() + i]
                    == be_u32(data.subrange(pos + 4 * i, pos + 4 * i + 4)) as usize by {
                    if i > 0 {
                        assert(all[next.len() + (i - 1)] == be_u32(
                            data.subrange(p + 4 * (i - 1), p + 4 * (i - 1) + 4),
                        ) as usize);
                    }
                }
            }
        }
    } else {
        assert(acc.take(acc.len() as int) =~= acc);
    }
}

/// A name that is found is carried by the entry at the place given.
pub proof fn found_name_is_listed(toc: TocModel, name: Seq<char>)
    ensures
        toc_index(toc, name) matches Some(i) ==> 0 <= i < toc.len() && toc[i].0 == name,
        toc_index(toc, name) is None ==> forall|i: int|
            0 <= i < toc.len() ==> (#[trigger] toc[i]).0 != name,
    decreases toc.len(),
{
    if toc.len() > 0 && toc.last().0 != name {
        found_name_is_listed(toc.drop_last(), name);
        assert forall|i: int| 0 <= i < toc.len() - 1 implies toc[i] == toc.drop_last()[i] by {}
    }
}

/// Setting a name in a table without repeated names leaves it without
/// repeated names, and with the name set to the block.
pub proof fn put_keeps_names_unique(toc: TocModel, name: Seq<char>, block: usize)
    requires
        toc_unique(toc),
    ensures
        toc_unique(toc_put(toc, name, block)),
        toc_index(toc_put(toc, name, block), name) matches Some(i) && toc_put(
            toc,
            name,
            block,
        )[i] == (name, block),
{
    found_name_is_listed(toc, name);
    let after = toc_put(toc, name, block);
    found_name_is_listed(after, name);
    match toc_index(toc, name) {
        Some(i) => {
            assert(after[i].0 == name);
        },
        None => {
            assert(after[toc.len() as int].0 == name);
        },
    }
}

/// The table of contents that is decoded into a table without repeated names
/// has no repeated names.
pub proof fn decoded_names_are_unique(data: Seq<u8>, pos: int, remaining: nat, acc: TocModel)
    requires
        toc_unique(acc),
    ensures
        toc_entries(data, pos, remaining, acc) matches Ok((toc, _)) ==> toc_unique(toc),
    decreases remaining,
{
    if remaining > 0 {
        if let Ok((entry, p)) = toc_entry(data, pos) {
            put_keeps_names_unique(acc, entry.0, entry.1);
            decoded_names_are_unique(
                data,
                p,
                (remaining - 1) as nat,
                toc_put(acc, entry.0, entry.1),
            );
        }
    }
}

} // verus!
