//! The two projections of a run of spectra: tiles along the time axis, and
//! buckets along the throttle axis.
//!
//! Spectra arrive in time order. The time projection cuts them into tiles of
//! at most `TIME_DOMAIN_TEX_WIDTH` columns, each drawn as an image of its
//! own. The throttle projection sorts them into
//! `THROTTLE_DOMAIN_BUCKETS` buckets of equal width by the throttle that was
//! set while they were taken.
use crate::colors::clamp_index;
use crate::colors::clamped;
use vstd::prelude::*;

verus! {

/// The largest number of columns in one image of the time projection.
pub const TIME_DOMAIN_TEX_WIDTH: usize = 1024;

/// The number of buckets of the throttle projection.
pub const THROTTLE_DOMAIN_BUCKETS: usize = 256;

/// A run of consecutive spectra: those with an index from `start` up to, but
/// not including, `end`.
#[derive(Clone, Copy, PartialEq, Eq, Debug, Structural)]
pub struct Tile {
    pub start: usize,
    pub end: usize,
}

/// How many tiles of `width` columns it takes to hold `count` columns.
pub open spec fn tile_count(count: int, width: int) -> int {
    (count + width - 1) / width
}

/// The tile with index `i` when `count` columns are cut into tiles of
/// `width`: full but for the last, which holds what is left.
pub open spec fn tile_at(count: int, width: int, i: int) -> Tile {
    Tile {
        start: (i * width) as usize,
        end: (if (i + 1) * width < count {
            (i + 1) * width
        } else {
            count
        }) as usize,
    }
}

/// Cuts `count` columns into tiles of `width`, in order. No tile is empty,
/// and every column is in exactly one.
pub fn tile_bounds(count: usize, width: usize) -> (tiles: Vec<Tile>)
    requires
        width > 0,
    ensures
        tiles@.len() == tile_count(count as int, width as int),
        forall|i: int|
            0 <= i < tiles@.len() ==> #[trigger] tiles@[i] == tile_at(
                count as int,
                width as int,
                i,
            ),
        forall|i: int|
            0 <= i < tiles@.len() ==> (#[trigger] tiles@[i]).start < tiles@[i].end <= count,
{
    let mut tiles: Vec<Tile> = Vec::new();
    let mut start: usize = 0;
    proof {
        lemma_no_tiles(count as int, width as int);
    }
    while start < count
        invariant
            width > 0,
            start <= count,
            start < count ==> start == tiles@.len() * width,
            start < count ==> tiles@.len() < tile_count(count as int, width as int),
            start == count ==> tiles@.len() == tile_count(count as int, width as int),
            forall|i: int|
                0 <= i < tiles@.len() ==> #[trigger] tiles@[i] == tile_at(
                    count as int,
                    width as int,
                    i,
                ),
            forall|i: int|
                0 <= i < tiles@.len() ==> (#[trigger] tiles@[i]).start < tiles@[i].end <= count,
        decreases count - start,
    {
        let ghost done = tiles@.len() as int;
        let end: usize = if count - start > width {
            start + width
        } else {
            count
        };
        proof {
            lemma_tile_step(count as int, width as int, done);
        }
        tiles.push(Tile { start, end });
        start = end;
    }
    tiles
}

/// Before the first tile nothing is covered, and no columns need no tiles.
proof fn lemma_no_tiles(count: int, width: int)
    requires
        width > 0,
        count >= 0,
    ensures
        0 * width == 0,
        count == 0 ==> tile_count(count, width) == 0,
        count > 0 ==> tile_count(count, width) > 0,
{
    assert(0 * width == 0) by (nonlinear_arith);
    let total = tile_count(count, width);
    assert(total * width >= count && (total - 1) * width < count) by (nonlinear_arith)
        requires
            total == (count + width - 1) / width,
            width > 0,
    ;
    if count == 0 {
        assert(total == 0) by (nonlinear_arith)
            requires
                (total - 1) * width < 0,
                total * width >= 0,
                width > 0,
        ;
    } else {
        assert(total > 0) by (nonlinear_arith)
            requires
                total * width >= count,
                count > 0,
                width > 0,
        ;
    }
}

/// The arithmetic of one more tile: with `done` full tiles behind and
/// columns left, the next tile is within the count, and it is the last one
/// exactly when it reaches the end.
proof fn lemma_tile_step(count: int, width: int, done: int)
    requires
        width > 0,
        done >= 0,
        done * width < count,
    ensures
        done < tile_count(count, width),
        (done + 1) * width == done * width + width,
        (done + 1) * width < count ==> done + 1 < tile_count(count, width),
        (done + 1) * width >= count ==> done + 1 == tile_count(count, width),
{
    assert((done + 1) * width == done * width + width) by (nonlinear_arith);
    let total = tile_count(count, width);
    assert(total * width >= count && (total - 1) * width < count) by (nonlinear_arith)
        requires
            total == (count + width - 1) / width,
            width > 0,
    ;
    assert(done < total) by (nonlinear_arith)
        requires
            done * width < count,
            total * width >= count,
            width > 0,
    ;
    if (done + 1) * width < count {
        assert(done + 1 < total) by (nonlinear_arith)
            requires
                (done + 1) * width < count,
                total * width >= count,
                width > 0,
        ;
    } else {
        assert(done + 1 >= total) by (nonlinear_arith)
            requires
                (done + 1) * width >= count,
                (total - 1) * width < count,
                width > 0,
        ;
    }
}

/// The tiles lie end to end: the first starts at the first column, each
/// starts where the one before it ends, and the last ends with the last
/// column.
pub proof fn law_tiles_lie_end_to_end(count: int, width: int, i: int)
    requires
        0 < width,
        0 <= count <= usize::MAX,
        0 <= i < tile_count(count, width),
    ensures
        tile_at(count, width, 0).start == 0,
        tile_at(count, width, i).start < tile_at(count, width, i).end,
        i + 1 < tile_count(count, width) ==> tile_at(count, width, i).end == tile_at(
            count,
            width,
            i + 1,
        ).start,
        i + 1 == tile_count(count, width) ==> tile_at(count, width, i).end == count,
{
    let total = tile_count(count, width);
    assert(0 * width == 0) by (nonlinear_arith);
    assert(total * width >= count && (total - 1) * width < count) by (nonlinear_arith)
        requires
            total == (count + width - 1) / width,
            width > 0,
    ;
    assert((i + 1) * width == i * width + width) by (nonlinear_arith);
    assert(0 <= i * width && i * width <= (total - 1) * width) by (nonlinear_arith)
        requires
            0 <= i <= total - 1,
            width > 0,
    ;
    if i + 1 < total {
        assert((i + 1) * width <= (total - 1) * width) by (nonlinear_arith)
            requires
                i + 1 <= total - 1,
                width > 0,
        ;
    }
}

/// The tiles of the time projection for `count` spectra.
pub fn time_tiles(count: usize) -> (tiles: Vec<Tile>)
    ensures
        tiles@.len() == tile_count(count as int, TIME_DOMAIN_TEX_WIDTH as int),
        forall|i: int|
            0 <= i < tiles@.len() ==> #[trigger] tiles@[i] == tile_at(
                count as int,
                TIME_DOMAIN_TEX_WIDTH as int,
                i,
            ),
        forall|i: int|
            0 <= i < tiles@.len() ==> (#[trigger] tiles@[i]).start < tiles@[i].end <= count,
{
    tile_bounds(count, TIME_DOMAIN_TEX_WIDTH)
}

/// The bucket of a throttle, given as the integer part of
/// `throttle / 1000 * THROTTLE_DOMAIN_BUCKETS`.
pub open spec fn bucket_of(scaled: i64) -> int {
    clamped(scaled as int, THROTTLE_DOMAIN_BUCKETS as int)
}

/// The bucket that a spectrum falls into. A throttle below the range falls
/// into the first bucket, one at or beyond its end into the last.
pub fn throttle_bucket(scaled: i64) -> (bucket: usize)
    ensures
        bucket == bucket_of(scaled),
        bucket < THROTTLE_DOMAIN_BUCKETS,
{
    clamp_index(scaled, THROTTLE_DOMAIN_BUCKETS)
}

/// The indices below `upto` of the spectra that fall into `bucket`, in
/// rising order.
pub open spec fn members(scaled: Seq<i64>, bucket: int, upto: int) -> Seq<usize>
    decreases upto,
{
    if upto <= 0 {
        Seq::empty()
    } else if bucket_of(scaled[upto - 1]) == bucket {
        members(scaled, bucket, upto - 1).push((upto - 1) as usize)
    } else {
        members(scaled, bucket, upto - 1)
    }
}

/// Sorts spectra into the buckets of the throttle projection: bucket `b` of
/// the result lists the indices of the spectra whose throttle falls into it,
/// in the order in which they came.
pub fn throttle_buckets(scaled: &Vec<i64>) -> (buckets: Vec<Vec<usize>>)
    ensures
        buckets@.len() == THROTTLE_DOMAIN_BUCKETS,
        forall|b: int|
            0 <= b < THROTTLE_DOMAIN_BUCKETS ==> (#[trigger] buckets@[b])@ == members(
                scaled@,
                b,
                scaled@.len() as int,
            ),
{
    let mut buckets: Vec<Vec<usize>> = Vec::new();
    while buckets.len() < THROTTLE_DOMAIN_BUCKETS
        invariant
            buckets@.len() <= THROTTLE_DOMAIN_BUCKETS,
            forall|b: int| 0 <= b < buckets@.len() ==> (#[trigger] buckets@[b])@.len() == 0,
        decreases THROTTLE_DOMAIN_BUCKETS - buckets@.len(),
    {
        buckets.push(Vec::new());
    }
    assert forall|b: int| 0 <= b < THROTTLE_DOMAIN_BUCKETS implies (#[trigger] buckets@[b])@
        == members(scaled@, b, 0) by {
        assert(buckets@[b]@ =~= Seq::<usize>::empty());
    }
    let mut i: usize = 0;
    while i < scaled.len()
        invariant
            i <= scaled@.len(),
            buckets@.len() == THROTTLE_DOMAIN_BUCKETS,
            forall|b: int|
                0 <= b < THROTTLE_DOMAIN_BUCKETS ==> (#[trigger] buckets@[b])@ == members(
                    scaled@,
                    b,
                    i as int,
                ),
        decreases scaled@.len() - i,
    {
        let bucket = throttle_bucket(scaled[i]);
        let ghost before = buckets@;
        let mut list: Vec<usize> = Vec::new();
        buckets.set_and_swap(bucket, &mut list);
        list.push(i);
        buckets.set_and_swap(bucket, &mut list);
        proof {
            assert forall|b: int| 0 <= b < THROTTLE_DOMAIN_BUCKETS implies (
            #[trigger] buckets@[b])@ == members(scaled@, b, i + 1) by {
                assert(before[b]@ == members(scaled@, b, i as int));
            }
        }
        i += 1;
    }
    buckets
}

/// Every spectrum is in the bucket of its throttle, and in no other.
pub proof fn law_bucket_holds_its_members(scaled: Seq<i64>, bucket: int, upto: int, i: int)
    requires
        0 <= upto <= scaled.len() <= usize::MAX,
        0 <= i < upto,
    ensures
        members(scaled, bucket, upto).contains(i as usize) <==> bucket_of(scaled[i]) == bucket,
        forall|k: int|
            0 <= k < members(scaled, bucket, upto).len() ==> (#[trigger] members(
                scaled,
                bucket,
                upto,
            )[k]) < upto,
    decreases upto,
{
    lemma_members_below(scaled, bucket, upto);
    let all = members(scaled, bucket, upto);
    let earlier = members(scaled, bucket, upto - 1);
    lemma_members_below(scaled, bucket, upto - 1);
    assert(all == if bucket_of(scaled[upto - 1]) == bucket {
        earlier.push((upto - 1) as usize)
    } else {
        earlier
    });
    if i < upto - 1 {
        law_bucket_holds_its_members(scaled, bucket, upto - 1, i);
        if bucket_of(scaled[upto - 1]) == bucket {
            if earlier.contains(i as usize) {
                let k = choose|k: int| 0 <= k < earlier.len() && earlier[k] == i as usize;
                assert(all[k] == i as usize);
            }
            if all.contains(i as usize) {
                let k = choose|k: int| 0 <= k < all.len() && all[k] == i as usize;
                assert(all[all.len() - 1] == (upto - 1) as usize);
                assert(k < earlier.len());
                assert(earlier[k] == i as usize);
            }
        }
    } else {
        if bucket_of(scaled[upto - 1]) == bucket {
            assert(all[all.len() - 1] == i as usize);
        } else {
            if all.contains(i as usize) {
                let k = choose|k: int| 0 <= k < all.len() && all[k] == i as usize;
                assert(all[k] < upto - 1);
            }
        }
    }
}

/// The members listed below `upto` are indices below `upto`.
proof fn lemma_members_below(scaled: Seq<i64>, bucket: int, upto: int)
    requires
        0 <= upto <= scaled.len() <= usize::MAX,
    ensures
        forall|k: int|
            0 <= k < members(scaled, bucket, upto).len() ==> (#[trigger] members(
                scaled,
                bucket,
                upto,
            )[k]) < upto,
    decreases upto,
{
    if upto > 0 {
        lemma_members_below(scaled, bucket, upto - 1);
        let all = members(scaled, bucket, upto);
        let earlier = members(scaled, bucket, upto - 1);
        assert forall|k: int| 0 <= k < all.len() implies (#[trigger] all[k]) < upto by {
            if k < earlier.len() {
                assert(all[k] == earlier[k]);
            }
        }
    }
}

} // verus!
