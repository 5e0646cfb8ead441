//! How content is cut into numbered blocks.

use vstd::prelude::*;

verus! {

/// The 16-bit id of block `n`; ids start over after 65535.
pub open spec fn block_id(n: nat) -> u16 {
    (n % 65536) as u16
}

/// The content of `blocks`, one after the other.
pub open spec fn joined(blocks: Seq<Seq<u8>>) -> Seq<u8>
    decreases blocks.len(),
{
    if blocks.len() == 0 {
        Seq::empty()
    } else {
        joined(blocks.drop_last()) + blocks.last()
    }
}

/// The blocks of `content`: full ones as long as there is enough, then what is
/// left, which may be nothing.
pub open spec fn cut(content: Seq<u8>, block_size: nat) -> Seq<Seq<u8>>
    decreases content.len(),
{
    if block_size == 0 || content.len() < block_size {
        seq![content]
    } else {
        seq![content.take(block_size as int)] + cut(content.skip(block_size as int), block_size)
    }
}

/// Every block but the last is full, and no block is more than full.
pub open spec fn well_cut(blocks: Seq<Seq<u8>>, block_size: nat) -> bool {
    &&& forall|i: int| 0 <= i < blocks.len() - 1 ==> (#[trigger] blocks[i]).len() == block_size
    &&& blocks.len() > 0 ==> blocks.last().len() <= block_size
}

/// The block that ends the content, one that is not full, is there.
pub open spec fn ended(blocks: Seq<Seq<u8>>, block_size: nat) -> bool {
    blocks.len() > 0 && blocks.last().len() < block_size
}

/// How many of the `len` blocks from the one with id `base` on an ACK for `id`
/// acknowledges: those up to the block with that id, if it is one of them.
pub open spec fn acked_count(base: u16, len: nat, id: u16) -> Option<nat> {
    let ahead = (id - base) % 65536;
    if ahead < len {
        Some((ahead + 1) as nat)
    } else {
        None
    }
}

/// The id `k` blocks ahead.
pub proof fn lemma_id_ahead(n: nat, k: u16)
    ensures
        block_id(n).wrapping_add(k) == block_id(n + k as nat),
        n == 0 || n == 1 ==> block_id(n) == n,
{
}

/// Joining one block more appends it.
pub proof fn lemma_joined_push(blocks: Seq<Seq<u8>>, block: Seq<u8>)
    ensures
        joined(blocks.push(block)) == joined(blocks) + block,
{
    assert(blocks.push(block).drop_last() =~= blocks);
}

proof fn lemma_joined_front(blocks: Seq<Seq<u8>>)
    requires
        blocks.len() > 0,
    ensures
        joined(blocks) == blocks[0] + joined(blocks.drop_first()),
    decreases blocks.len(),
{
    if blocks.len() == 1 {
        assert(joined(blocks.drop_last()) =~= Seq::empty());
        assert(joined(blocks.drop_first()) =~= Seq::empty());
        assert(joined(blocks) =~= blocks[0] + joined(blocks.drop_first()));
    } else {
        lemma_joined_front(blocks.drop_last());
        assert(blocks.drop_last().drop_first() =~= blocks.drop_first().drop_last());
        assert(joined(blocks) =~= blocks[0] + joined(blocks.drop_first()));
    }
}

/// Cutting loses nothing: the blocks of a content join to that content.
pub proof fn law_cut_joins(content: Seq<u8>, block_size: nat)
    ensures
        joined(cut(content, block_size)) == content,
    decreases content.len(),
{
    if block_size == 0 || content.len() < block_size {
        lemma_joined_front(seq![content]);
        assert(seq![content].drop_first() =~= Seq::empty());
        assert(joined(seq![content]) =~= content);
    } else {
        let rest = cut(content.skip(block_size as int), block_size);
        law_cut_joins(content.skip(block_size as int), block_size);
        lemma_joined_front(seq![content.take(block_size as int)] + rest);
        assert((seq![content.take(block_size as int)] + rest).drop_first() =~= rest);
        assert(joined(cut(content, block_size)) =~= content);
    }
}

/// The blocks of a content are full but for the last, which is not.
pub proof fn law_cut_well(content: Seq<u8>, block_size: nat)
    requires
        block_size > 0,
    ensures
        well_cut(cut(content, block_size), block_size),
        ended(cut(content, block_size), block_size),
        cut(content, block_size).len() == content.len() / block_size + 1,
    decreases content.len(),
{
    if content.len() < block_size {
        assert(content.len() / block_size == 0) by (nonlinear_arith)
            requires
                content.len() < block_size,
        ;
    } else {
        let rest = cut(content.skip(block_size as int), block_size);
        law_cut_well(content.skip(block_size as int), block_size);
        let blocks = cut(content, block_size);
        assert(blocks.last() == rest.last());
        assert forall|i: int| 0 <= i < blocks.len() - 1 implies (#[trigger] blocks[i]).len()
            == block_size by {
            if i > 0 {
                assert(blocks[i] == rest[i - 1]);
            }
        }
        let n = content.len();
        assert((n - block_size) as nat / block_size + 1 == n / block_size) by (nonlinear_arith)
            requires
                n >= block_size,
                block_size > 0,
        ;
    }
}

/// There is only one way to cut: full blocks that end with one that is not
/// full are the blocks of the content that they join to.
pub proof fn law_cut_unique(blocks: Seq<Seq<u8>>, block_size: nat)
    requires
        well_cut(blocks, block_size),
        ended(blocks, block_size),
    ensures
        blocks == cut(joined(blocks), block_size),
    decreases blocks.len(),
{
    lemma_joined_front(blocks);
    if blocks.len() == 1 {
        assert(joined(blocks.drop_first()) =~= Seq::empty());
        assert(joined(blocks) =~= blocks[0]);
        assert(blocks =~= seq![blocks[0]]);
    } else {
        let rest = blocks.drop_first();
        assert(rest.last() == blocks.last());
        assert forall|i: int| 0 <= i < rest.len() - 1 implies (#[trigger] rest[i]).len()
            == block_size by {
            assert(rest[i] == blocks[i + 1]);
        }
        law_cut_unique(rest, block_size);
        let content = joined(blocks);
        assert(content.take(block_size as int) =~= blocks[0]);
        assert(content.skip(block_size as int) =~= joined(rest));
        assert(blocks =~= seq![blocks[0]] + rest);
    }
}

/// Of at most 65536 blocks no two share an id, so an ACK names the block up
/// to which it acknowledges: `k` blocks from block `first` on if and only if
/// its id is that of the `k`th of them.
pub proof fn law_ack_names_block(first: nat, len: nat, id: u16, k: nat)
    requires
        len <= 65536,
    ensures
        acked_count(block_id(first), len, id) == Some(k) <==> 1 <= k <= len && id == block_id(
            (first + k - 1) as nat,
        ),
{
}

/// Ids count up from 0, and after 65535 comes 0.
pub proof fn law_ids_count_up(n: nat)
    ensures
        block_id(0) == 0,
        block_id(n + 1) == if block_id(n) == 65535 {
            0
        } else {
            block_id(n) + 1
        },
{
}

/// Blocks are joined in order, each behind those before it.
pub proof fn law_joined(blocks: Seq<Seq<u8>>, block: Seq<u8>)
    ensures
        joined(Seq::empty()) == Seq::<u8>::empty(),
        joined(blocks.push(block)) == joined(blocks) + block,
{
    lemma_joined_push(blocks, block);
}

/// Block `i` of a content is the content from `i` times the block size on, up
/// to a block size of it.
pub proof fn law_cut_at(content: Seq<u8>, block_size: nat, i: nat)
    requires
        block_size > 0,
    ensures
        cut(content, block_size).len() == content.len() / block_size + 1,
        i < cut(content, block_size).len() ==> {
            &&& i * block_size <= content.len()
            &&& cut(content, block_size)[i as int] == content.subrange(
                (i * block_size) as int,
                if (i + 1) * block_size <= content.len() {
                    ((i + 1) * block_size) as int
                } else {
                    content.len() as int
                },
            )
        },
    decreases content.len(),
{
    law_cut_well(content, block_size);
    if i < cut(content, block_size).len() {
        let blocks = cut(content, block_size);
        if content.len() < block_size {
            assert(0 * block_size == 0) by (nonlinear_arith);
            assert(1 * block_size == block_size) by (nonlinear_arith);
            assert(content =~= content.subrange(0, content.len() as int));
        } else if i == 0 {
            assert(0 * block_size == 0) by (nonlinear_arith);
            assert(1 * block_size == block_size) by (nonlinear_arith);
            assert(content.take(block_size as int) =~= content.subrange(0, block_size as int));
        } else {
            let rest = content.skip(block_size as int);
            let j = (i - 1) as nat;
            law_cut_at(rest, block_size, j);
            assert(blocks[i as int] == cut(rest, block_size)[j as int]);
            assert(i * block_size == j * block_size + block_size) by (nonlinear_arith)
                requires
                    i == j + 1,
            ;
            assert((i + 1) * block_size == (j + 1) * block_size + block_size) by (nonlinear_arith)
                requires
                    i == j + 1,
            ;
            let end = if (j + 1) * block_size <= rest.len() {
                ((j + 1) * block_size) as int
            } else {
                rest.len() as int
            };
            assert(0 <= j * block_size <= (j + 1) * block_size) by (nonlinear_arith);
            assert(rest.subrange((j * block_size) as int, end) =~= content.subrange(
                (i * block_size) as int,
                end + block_size,
            ));
        }
    }
}

} // verus!
