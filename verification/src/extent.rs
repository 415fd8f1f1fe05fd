//! Mapping byte ranges onto the region's extents and blocks: the address
//! arithmetic behind IO placement, bulk import and bulk export.

use vstd::prelude::*;

use crate::protocol::{CrucibleError, RegionDefinition};

verus! {

/// The split of `blocks` consecutive blocks, starting at absolute block
/// `b0`, over extents of `es` blocks of `bs` bytes each: one entry per
/// extent touched, as (extent id, first block offset within the extent,
/// byte length within the extent).
pub open spec fn extent_split(b0: int, blocks: int, es: int, bs: int) -> Seq<(u64, u64, u64)>
    decreases blocks,
{
    if blocks <= 0 || es <= 0 || bs <= 0 {
        Seq::empty()
    } else {
        let off = b0 % es;
        let room = es - off;
        let take = if blocks < room {
            blocks
        } else {
            room
        };
        seq![(((b0 / es) as u64), (off as u64), ((take * bs) as u64))] + extent_split(
            b0 + take,
            blocks - take,
            es,
            bs,
        )
    }
}

/// A byte range is mappable when it is non-empty, block-aligned at both
/// ends, spans at most one extent's worth of bytes, and lies inside the
/// region.
pub open spec fn range_valid(ddef: RegionDefinition, offset: int, len: int) -> bool {
    &&& len > 0
    &&& len % ddef.block_size as int == 0
    &&& offset % ddef.block_size as int == 0
    &&& len <= ddef.extent_size * ddef.block_size
    &&& offset + len <= ddef.block_size * ddef.extent_size * ddef.extent_count
}

/// Map the byte range `offset..offset + len` onto extents and blocks, one
/// entry per extent touched. A range that is empty, unaligned, longer than
/// one extent or out of bounds is refused.
pub fn extent_from_offset(ddef: &RegionDefinition, offset: u64, len: u64) -> (r: Result<
    Vec<(u64, u64, u64)>,
    CrucibleError,
>)
    requires
        ddef.wf(),
    ensures
        match r {
            Ok(v) => range_valid(*ddef, offset as int, len as int) && v@ == extent_split(
                offset as int / ddef.block_size as int,
                len as int / ddef.block_size as int,
                ddef.extent_size as int,
                ddef.block_size as int,
            ),
            Err(e) => !range_valid(*ddef, offset as int, len as int) && e
                == CrucibleError::GenericError,
        },
{
    let bs = ddef.block_size;
    let es = ddef.extent_size;
    let ec = ddef.extent_count as u64;
    if len == 0 || len % bs != 0 || offset % bs != 0 {
        return Err(CrucibleError::GenericError);
    }
    if ec == 0 {
        proof {
            assert(ddef.block_size * ddef.extent_size * ddef.extent_count == 0) by (nonlinear_arith)
                requires
                    ddef.extent_count == 0,
            ;
        }
        return Err(CrucibleError::GenericError);
    }
    proof {
        assert(es * bs <= bs * es * ec && es * ec <= bs * es * ec) by (nonlinear_arith)
            requires
                ec >= 1,
                bs >= 1,
                es >= 1,
        ;
    }
    let extent_bytes = es * bs;
    if len > extent_bytes {
        return Err(CrucibleError::GenericError);
    }
    let total = extent_bytes * ec;
    proof {
        assert(es * bs * ec == bs * es * ec) by (nonlinear_arith);
    }
    if offset > total - len {
        proof {
            assert(offset as int + len as int > ddef.block_size * ddef.extent_size
                * ddef.extent_count);
        }
        return Err(CrucibleError::GenericError);
    }
    let b0 = offset / bs;
    let blocks0 = len / bs;
    proof {
        assert(offset as int == bs * (offset as int / bs as int) && len as int == bs * (
        len as int / bs as int)) by {
            vstd::arithmetic::div_mod::lemma_fundamental_div_mod(offset as int, bs as int);
            vstd::arithmetic::div_mod::lemma_fundamental_div_mod(len as int, bs as int);
        }
        assert(b0 + blocks0 <= es * ec) by (nonlinear_arith)
            requires
                offset as int == bs * b0,
                len as int == bs * blocks0,
                offset as int + len as int <= (es * bs) * ec,
                bs >= 1,
        ;
        assert(blocks0 >= 1) by (nonlinear_arith)
            requires
                len as int == bs * blocks0,
                len >= 1,
                bs >= 1,
        ;
    }
    let ghost gb0 = b0 as int;
    let ghost gn0 = blocks0 as int;
    let mut result: Vec<(u64, u64, u64)> = Vec::new();
    let mut b = b0;
    let mut blocks_left = blocks0;
    while blocks_left > 0
        invariant
            bs == ddef.block_size,
            es == ddef.extent_size,
            ec == ddef.extent_count as u64,
            bs >= 1,
            es >= 1,
            ec >= 1,
            es * bs <= u64::MAX,
            es * ec <= u64::MAX,
            b + blocks_left <= es * ec,
            extent_split(gb0, gn0, es as int, bs as int) == result@ + extent_split(
                b as int,
                blocks_left as int,
                es as int,
                bs as int,
            ),
        decreases blocks_left,
    {
        let off = b % es;
        proof {
            assert(off < es) by {
                vstd::arithmetic::div_mod::lemma_mod_bound(b as int, es as int);
            }
        }
        let room = es - off;
        let take = if blocks_left < room {
            blocks_left
        } else {
            room
        };
        proof {
            assert(take * bs <= es * bs && (take as int) * (bs as int) == take * bs) by (
            nonlinear_arith)
                requires
                    0 <= take <= es,
                    bs >= 1,
                    es * bs <= u64::MAX,
            ;
        }
        let entry = (b / es, off, take * bs);
        let ghost pre_result = result@;
        let ghost pre_b = b as int;
        let ghost pre_left = blocks_left as int;
        result.push(entry);
        b = b + take;
        blocks_left = blocks_left - take;
        proof {
            assert(extent_split(pre_b, pre_left, es as int, bs as int) == seq![entry]
                + extent_split(b as int, blocks_left as int, es as int, bs as int));
            assert(result@ + extent_split(b as int, blocks_left as int, es as int, bs as int)
                =~= pre_result + extent_split(pre_b, pre_left, es as int, bs as int));
        }
    }
    proof {
        assert(extent_split(b as int, 0, es as int, bs as int) =~= Seq::<(u64, u64, u64)>::empty());
        assert(result@ =~= result@ + extent_split(b as int, 0, es as int, bs as int));
    }
    Ok(result)
}

/// Number of extents needed to hold `file_size` bytes: the total rounded up
/// to the next whole extent.
pub fn extents_needed(file_size: u64, space_per_extent: u64) -> (r: u64)
    requires
        space_per_extent > 0,
    ensures
        r == (if file_size as int % space_per_extent as int == 0 {
            file_size as int / space_per_extent as int
        } else {
            file_size as int / space_per_extent as int + 1
        }),
{
    if file_size % space_per_extent == 0 {
        file_size / space_per_extent
    } else {
        proof {
            vstd::arithmetic::div_mod::lemma_div_is_ordered(
                file_size as int,
                u64::MAX as int,
                space_per_extent as int,
            );
            if space_per_extent == 1 {
                assert(file_size as int % 1 == 0);
            } else {
                assert((u64::MAX as int) / (space_per_extent as int) < u64::MAX) by (
                nonlinear_arith)
                    requires
                        space_per_extent >= 2,
                ;
            }
        }
        file_size / space_per_extent + 1
    }
}

/// Round `total` up to the next multiple of `block_size`, as a bulk import
/// pads its final short chunk with zero bytes.
pub fn pad_to_block(total: u64, block_size: u64) -> (r: u64)
    requires
        block_size > 0,
        total <= u64::MAX - block_size,
    ensures
        r as int % block_size as int == 0,
        total <= r < total + block_size,
{
    let rem = total % block_size;
    if rem == 0 {
        total
    } else {
        proof {
            vstd::arithmetic::div_mod::lemma_mod_bound(total as int, block_size as int);
            vstd::arithmetic::div_mod::lemma_fundamental_div_mod(total as int, block_size as int);
            let q = total as int / block_size as int;
            assert((total as int + (block_size as int - rem)) % block_size as int == 0) by {
                vstd::arithmetic::div_mod::lemma_mod_multiples_vanish(
                    q + 1,
                    0,
                    block_size as int,
                );
                assert(total as int + (block_size as int - rem) == (q + 1) * block_size as int)
                    by (nonlinear_arith)
                    requires
                        total as int == block_size as int * q + rem,
                ;
            }
        }
        total + (block_size - rem)
    }
}

/// The extent and block-within-extent of absolute block `abs_block`.
pub fn block_address(ddef: &RegionDefinition, abs_block: u64) -> (r: (u64, u64))
    requires
        ddef.wf(),
    ensures
        r.0 == abs_block as int / ddef.extent_size as int,
        r.1 == abs_block as int % ddef.extent_size as int,
{
    (abs_block / ddef.extent_size, abs_block % ddef.extent_size)
}

} // verus!
