//! Cutting a buffer short never yields a different decoding: every step either
//! gives what it gave on the whole buffer or fails for want of data.
use vstd::prelude::*;
use crate::errors::DSStoreError;
use crate::layout::{
    bucket, buckets, entries, header, jump, node, record_at, records_from, root_block, session,
    take, take_u32, take_utf16, toc_entries, toc_entry, tree, tree_root, words, Model, TocModel,
};
use crate::record::RecordModel;

verus! {

/// `short` is the outcome `full` itself, or the error for a buffer that would
/// have had to reach a position behind `cut` and inside the first `len` bytes.
pub open spec fn same_or_short<T>(
    full: Result<T, DSStoreError>,
    short: Result<T, DSStoreError>,
    cut: int,
    len: int,
) -> bool {
    short == full || (short matches Err(DSStoreError::TooLittleData(end)) && cut < end <= len)
}

/// The conditions under which a buffer is cut: the cut lies in the buffer, and
/// a `usize` holds the buffer's length.
pub open spec fn cut_of(data: Seq<u8>, cut: int) -> bool {
    0 <= cut <= data.len() <= usize::MAX
}

/// Every read and every jump on the cut buffer gives what it gave on the whole
/// one, or fails with the position that it needed.
pub proof fn cut_steps(data: Seq<u8>, cut: int)
    requires
        cut_of(data, cut),
    ensures
        forall|pos: int, n: int|
            0 <= pos && 0 <= n ==> same_or_short(
                take(data, pos, n),
                #[trigger] take(data.take(cut), pos, n),
                cut,
                data.len() as int,
            ),
        forall|pos: int|
            0 <= pos ==> same_or_short(
                take_u32(data, pos),
                #[trigger] take_u32(data.take(cut), pos),
                cut,
                data.len() as int,
            ),
        forall|pos: int, n: int|
            0 <= pos && 0 <= n ==> same_or_short(
                take_utf16(data, pos, n),
                #[trigger] take_utf16(data.take(cut), pos, n),
                cut,
                data.len() as int,
            ),
        forall|to: int|
            0 <= to ==> same_or_short(
                jump(data, to),
                #[trigger] jump(data.take(cut), to),
                cut,
                data.len() as int,
            ),
{
    let short = data.take(cut);
    assert forall|pos: int, n: int| 0 <= pos && 0 <= n implies same_or_short(
        take(data, pos, n),
        #[trigger] take(short, pos, n),
        cut,
        data.len() as int,
    ) by {
        if pos + n <= cut {
            assert(short.subrange(pos, pos + n) =~= data.subrange(pos, pos + n));
        }
    }
}

/// Cutting the buffer changes a run of integers only into a failure for want
/// of data.
pub proof fn cut_words(data: Seq<u8>, cut: int, pos: int, remaining: nat, acc: Seq<usize>)
    requires
        cut_of(data, cut),
        0 <= pos,
    ensures
        same_or_short(
            words(data, pos, remaining, acc),
            words(data.take(cut), pos, remaining, acc),
            cut,
            data.len() as int,
        ),
    decreases remaining,
{
    cut_steps(data, cut);
    if remaining > 0 {
        if let Ok((v, p)) = take_u32(data.take(cut), pos) {
            cut_words(data, cut, p, (remaining - 1) as nat, acc.push(v));
        }
    }
}

/// Cutting the buffer changes one entry of the table of contents only into a
/// failure for want of data.
pub proof fn cut_toc_entry(data: Seq<u8>, cut: int, pos: int)
    requires
        cut_of(data, cut),
        0 <= pos,
    ensures
        same_or_short(
            toc_entry(data, pos),
            toc_entry(data.take(cut), pos),
            cut,
            data.len() as int,
        ),
{
    cut_steps(data, cut);
}

/// Cutting the buffer changes the entries of the table of contents only into
/// a failure for want of data.
pub proof fn cut_toc_entries(data: Seq<u8>, cut: int, pos: int, remaining: nat, acc: TocModel)
    requires
        cut_of(data, cut),
        0 <= pos,
    ensures
        same_or_short(
            toc_entries(data, pos, remaining, acc),
            toc_entries(data.take(cut), pos, remaining, acc),
            cut,
            data.len() as int,
        ),
    decreases remaining,
{
    cut_toc_entry(data, cut, pos);
    if remaining > 0 {
        if let Ok((entry, p)) = toc_entry(data.take(cut), pos) {
            cut_toc_entries(
                data,
                cut,
                p,
                (remaining - 1) as nat,
                crate::layout::toc_put(acc, entry.0, entry.1),
            );
        }
    }
}

/// Cutting the buffer changes one bucket of the free list only into a failure
/// for want of data.
pub proof fn cut_bucket(data: Seq<u8>, cut: int, pos: int)
    requires
        cut_of(data, cut),
        0 <= pos,
    ensures
        same_or_short(bucket(data, pos), bucket(data.take(cut), pos), cut, data.len() as int),
{
    cut_steps(data, cut);
    if let Ok((count, p)) = take_u32(data.take(cut), pos) {
        cut_words(data, cut, p, count as nat, Seq::empty());
    }
}

/// Positions only grow along a run of integers.
pub proof fn words_go_forward(data: Seq<u8>, pos: int, remaining: nat, acc: Seq<usize>)
    requires
        0 <= pos,
    ensures
        words(data, pos, remaining, acc) matches Ok((_, p)) ==> pos <= p,
    decreases remaining,
{
    if remaining > 0 {
        if let Ok((v, p)) = take_u32(data, pos) {
            words_go_forward(data, p, (remaining - 1) as nat, acc.push(v));
        }
    }
}

/// Positions only grow along the entries of the table of contents.
pub proof fn toc_entries_go_forward(data: Seq<u8>, pos: int, remaining: nat, acc: TocModel)
    requires
        0 <= pos,
    ensures
        toc_entries(data, pos, remaining, acc) matches Ok((_, p)) ==> pos <= p,
    decreases remaining,
{
    if remaining > 0 {
        if let Ok((entry, p)) = toc_entry(data, pos) {
            toc_entries_go_forward(
                data,
                p,
                (remaining - 1) as nat,
                crate::layout::toc_put(acc, entry.0, entry.1),
            );
        }
    }
}

/// Cutting the buffer changes the free list only into a failure for want of
/// data.
pub proof fn cut_buckets(
    data: Seq<u8>,
    cut: int,
    pos: int,
    class: nat,
    acc: Map<usize, Seq<usize>>,
)
    requires
        cut_of(data, cut),
        0 <= pos,
    ensures
        same_or_short(
            buckets(data, pos, class, acc),
            buckets(data.take(cut), pos, class, acc),
            cut,
            data.len() as int,
        ),
    decreases 32 - class,
{
    cut_bucket(data, cut, pos);
    if class < 32 {
        if let Ok((items, p)) = bucket(data.take(cut), pos) {
            if let Ok((count, q)) = take_u32(data.take(cut), pos) {
                words_go_forward(data.take(cut), q, count as nat, Seq::empty());
            }
            cut_buckets(
                data,
                cut,
                p,
                class + 1,
                acc.insert(crate::layout::class_size(class) as usize, items),
            );
        }
    }
}

/// Cutting the buffer changes the header only into a failure for want of
/// data.
pub proof fn cut_header(data: Seq<u8>, cut: int, pos: int)
    requires
        cut_of(data, cut),
        0 <= pos,
    ensures
        same_or_short(header(data, pos), header(data.take(cut), pos), cut, data.len() as int),
{
    cut_steps(data, cut);
}

/// Cutting the buffer changes the root block only into a failure for want of
/// data.
pub proof fn cut_root_block(data: Seq<u8>, cut: int, start: int, m: Model)
    requires
        cut_of(data, cut),
        0 <= start,
    ensures
        same_or_short(
            root_block(data, start, m),
            root_block(data.take(cut), start, m),
            cut,
            data.len() as int,
        ),
{
    let short = data.take(cut);
    cut_steps(data, cut);
    if let Ok((count, _)) = take_u32(short, start) {
        cut_words(data, cut, start + 8, count as nat, m.offsets);
        if let Ok(at) = jump(short, crate::layout::toc_start(start, count as int)) {
            if let Ok((n, p)) = take_u32(short, at) {
                cut_toc_entries(data, cut, p, n as nat, m.toc);
                toc_entries_go_forward(short, p, n as nat, m.toc);
                if let Ok((_, q)) = toc_entries(short, p, n as nat, m.toc) {
                    cut_buckets(data, cut, q, 0, m.free);
                }
            }
        }
    }
}

/// Cutting the buffer changes a record only into a failure for want of data.
pub proof fn cut_record(data: Seq<u8>, cut: int, pos: int)
    requires
        cut_of(data, cut),
        0 <= pos,
    ensures
        same_or_short(
            record_at(data, pos),
            record_at(data.take(cut), pos),
            cut,
            data.len() as int,
        ),
        record_at(data.take(cut), pos) matches Ok((_, p)) ==> pos <= p,
{
    cut_steps(data, cut);
}

/// Cutting the buffer changes a run of records only into a failure for want
/// of data.
pub proof fn cut_records(
    data: Seq<u8>,
    cut: int,
    pos: int,
    remaining: nat,
    acc: Seq<RecordModel>,
)
    requires
        cut_of(data, cut),
        0 <= pos,
    ensures
        same_or_short(
            records_from(data, pos, remaining, acc),
            records_from(data.take(cut), pos, remaining, acc),
            cut,
            data.len() as int,
        ),
    decreases remaining,
{
    cut_record(data, cut, pos);
    if remaining > 0 {
        if let Ok((rec, p)) = record_at(data.take(cut), pos) {
            cut_records(data, cut, p, (remaining - 1) as nat, acc.push(rec));
        }
    }
}

/// Cutting the buffer changes the walk of a subtree only into a failure for
/// want of data.
pub proof fn cut_node(data: Seq<u8>, cut: int, address: int, depth: nat, acc: Seq<RecordModel>)
    requires
        cut_of(data, cut),
        0 <= address,
    ensures
        same_or_short(
            node(data, address, depth, acc),
            node(data.take(cut), address, depth, acc),
            cut,
            data.len() as int,
        ),
    decreases depth, 1nat, 0nat,
{
    let short = data.take(cut);
    cut_steps(data, cut);
    if let Ok(at) = jump(short, address) {
        if let Ok((rightmost, p)) = take_u32(short, at) {
            if let Ok((count, q)) = take_u32(short, p) {
                if rightmost == 0 {
                    cut_records(data, cut, q, count as nat, acc);
                } else if depth > 0 {
                    cut_entries(data, cut, q, count as nat, depth, acc);
                    if let Ok((records, _)) = entries(short, q, count as nat, depth, acc) {
                        cut_node(
                            data,
                            cut,
                            crate::layout::masked(rightmost as int),
                            (depth - 1) as nat,
                            records,
                        );
                    }
                }
            }
        }
    }
}

/// Cutting the buffer changes the walk of an inner node's entries only into a
/// failure for want of data.
pub proof fn cut_entries(
    data: Seq<u8>,
    cut: int,
    pos: int,
    remaining: nat,
    depth: nat,
    acc: Seq<RecordModel>,
)
    requires
        cut_of(data, cut),
        0 <= pos,
    ensures
        same_or_short(
            entries(data, pos, remaining, depth, acc),
            entries(data.take(cut), pos, remaining, depth, acc),
            cut,
            data.len() as int,
        ),
    decreases depth, 0nat, remaining,
{
    let short = data.take(cut);
    cut_steps(data, cut);
    if remaining > 0 && depth > 0 {
        if let Ok((child, p)) = take_u32(short, pos) {
            let below_at = crate::layout::masked(child as int);
            cut_node(data, cut, below_at, (depth - 1) as nat, acc);
            if let Ok(below) = node(short, below_at, (depth - 1) as nat, acc) {
                cut_record(data, cut, p);
                if let Ok((rec, q)) = record_at(short, p) {
                    cut_entries(data, cut, q, (remaining - 1) as nat, depth, below.push(rec));
                }
            }
        }
    }
}

/// Cutting the buffer changes the tree only into a failure for want of data.
pub proof fn cut_tree(data: Seq<u8>, cut: int, m: Model)
    requires
        cut_of(data, cut),
    ensures
        same_or_short(tree(data, m), tree(data.take(cut), m), cut, data.len() as int),
{
    let short = data.take(cut);
    cut_steps(data, cut);
    assert(same_or_short(tree_root(data, m), tree_root(short, m), cut, data.len() as int));
    if let Ok((with_root, first, _)) = tree_root(short, m) {
        cut_node(data, cut, first, with_root.levels as nat, with_root.records);
    }
}

/// A buffer cut short at any byte is never decoded to something else: the
/// outcome is that of the whole buffer, or the error for too little data,
/// carrying a position behind the cut that the whole buffer reaches.
pub proof fn cut_session(data: Seq<u8>, cut: int, pos: int, m: Model)
    requires
        cut_of(data, cut),
        0 <= pos,
    ensures
        same_or_short(
            session(data, pos, m),
            session(data.take(cut), pos, m),
            cut,
            data.len() as int,
        ),
{
    let short = data.take(cut);
    cut_steps(data, cut);
    cut_header(data, cut, pos + 8);
    if let Ok((root, _)) = header(short, pos + 8) {
        if let Ok(at) = jump(short, root as int) {
            cut_root_block(data, cut, at, m);
            if let Ok((with_root, _)) = root_block(short, at, m) {
                cut_tree(data, cut, with_root);
            }
        }
    }
}

} // verus!
