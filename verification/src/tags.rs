//! Tag projection: pairing string-table indices into key/value rows.
//!
//! Dense nodes share one flat `keys_vals` stream: for node `i` the stream
//! holds (key, value) index pairs until a `0` read in key position closes the
//! node's tag list. Plain records carry two parallel index arrays instead.

use vstd::prelude::*;
use crate::error::DecodeError;
use crate::results::{collect_concat, lemma_collect_concat_err_extends};
use crate::rows::{rows_model, TagModel, TagRow};
use crate::strtab::{spec_resolve, StringTable};

verus! {

/// Position of the first sentinel at an even offset from `pos`, scanning in
/// key/value steps; `None` when the stream ends first.
pub open spec fn sentinel_from(kv: Seq<i32>, pos: int) -> Option<int>
    decreases kv.len() + 1 - pos,
{
    if pos < 0 || pos >= kv.len() {
        None
    } else if kv[pos] == 0 {
        Some(pos)
    } else {
        sentinel_from(kv, pos + 2)
    }
}

proof fn lemma_sentinel_from(kv: Seq<i32>, pos: int)
    requires
        0 <= pos,
    ensures
        sentinel_from(kv, pos) matches Some(s) ==> pos <= s < kv.len() && kv[s] == 0 && (s - pos)
            % 2 == 0 && (forall|k: int| pos <= k < s && (k - pos) % 2 == 0 ==> kv[k] != 0),
        sentinel_from(kv, pos) is None ==> forall|k: int|
            pos <= k < kv.len() && (k - pos) % 2 == 0 ==> kv[k] != 0,
    decreases kv.len() + 1 - pos,
{
    if pos < kv.len() && kv[pos] != 0 {
        lemma_sentinel_from(kv, pos + 2);
    }
}

/// Splits the suffix of `kv` starting at `pos` into exactly `n`
/// sentinel-terminated segments consuming the whole stream, or `None` when
/// the sentinel count does not match.
pub open spec fn segments_from(kv: Seq<i32>, pos: int, n: nat) -> Option<Seq<Seq<i32>>>
    decreases n,
{
    if n == 0 {
        if pos == kv.len() {
            Some(Seq::empty())
        } else {
            None
        }
    } else {
        match sentinel_from(kv, pos) {
            None => None,
            Some(s) => match segments_from(kv, s + 1, (n - 1) as nat) {
                None => None,
                Some(rest) => Some(seq![kv.subrange(pos, s)] + rest),
            },
        }
    }
}

/// The tag-list segments of the dense stream `kv` for `n` nodes: one segment
/// per node, each closed by its own sentinel.
pub open spec fn kv_segments(kv: Seq<i32>, n: nat) -> Option<Seq<Seq<i32>>> {
    segments_from(kv, 0, n)
}

/// The total element count of a sequence of segments.
pub open spec fn total_len(segs: Seq<Seq<i32>>) -> int
    decreases segs.len(),
{
    if segs.len() == 0 {
        0
    } else {
        segs[0].len() + total_len(segs.drop_first())
    }
}

proof fn lemma_segments_from_count(kv: Seq<i32>, pos: int, n: nat)
    requires
        0 <= pos <= kv.len(),
        segments_from(kv, pos, n) is Some,
    ensures
        segments_from(kv, pos, n)->0.len() == n,
        kv.len() - pos == n + total_len(segments_from(kv, pos, n)->0),
        forall|i: int|
            0 <= i < n ==> (#[trigger] segments_from(kv, pos, n)->0[i]).len() % 2 == 0,
        forall|i: int, k: int|
            0 <= i < n && 0 <= k < segments_from(kv, pos, n)->0[i].len() && k % 2 == 0
                ==> #[trigger] segments_from(kv, pos, n)->0[i][k] != 0,
    decreases n,
{
    if n > 0 {
        let s = sentinel_from(kv, pos)->0;
        lemma_sentinel_from(kv, pos);
        lemma_segments_from_count(kv, s + 1, (n - 1) as nat);
        let rest = segments_from(kv, s + 1, (n - 1) as nat)->0;
        let whole = segments_from(kv, pos, n)->0;
        assert(whole.drop_first() =~= rest);
        assert(whole[0] == kv.subrange(pos, s));
        assert forall|k: int| 0 <= k < whole[0].len() && k % 2 == 0 implies #[trigger] whole[0][k]
            != 0 by {
            assert(whole[0][k] == kv[pos + k]);
            assert((pos + k - pos) % 2 == 0);
        }
        assert forall|i: int| 0 <= i < n implies (#[trigger] whole[i]).len() % 2 == 0 by {
            if i > 0 {
                assert(whole[i] == rest[i - 1]);
            }
        }
        assert forall|i: int, k: int|
            0 <= i < n && 0 <= k < whole[i].len() && k % 2 == 0 implies #[trigger] whole[i][k]
            != 0 by {
            if i > 0 {
                assert(whole[i] == rest[i - 1]);
            }
        }
    }
}

/// Decoding the dense tag stream consumes exactly one sentinel per node:
/// when `kv` splits into segments for `n` nodes, there are `n` segments,
/// the stream length is their total length plus one sentinel for each, and
/// no segment holds a sentinel of its own — every segment is a whole number
/// of key/value pairs with no zero in key position.
pub proof fn lemma_sentinel_count(kv: Seq<i32>, n: nat)
    requires
        kv_segments(kv, n) is Some,
    ensures
        kv_segments(kv, n)->0.len() == n,
        kv.len() == n + total_len(kv_segments(kv, n)->0),
        forall|i: int| 0 <= i < n ==> (#[trigger] kv_segments(kv, n)->0[i]).len() % 2 == 0,
        forall|i: int, k: int|
            0 <= i < n && 0 <= k < kv_segments(kv, n)->0[i].len() && k % 2 == 0
                ==> #[trigger] kv_segments(kv, n)->0[i][k] != 0,
{
    lemma_segments_from_count(kv, 0, n);
}

proof fn lemma_zero_segments_from(z: Seq<i32>, pos: int)
    requires
        0 <= pos <= z.len(),
        forall|i: int| 0 <= i < z.len() ==> z[i] == 0,
    ensures
        segments_from(z, pos, (z.len() - pos) as nat) == Some(
            Seq::new((z.len() - pos) as nat, |i: int| Seq::<i32>::empty()),
        ),
    decreases z.len() - pos,
{
    let n = (z.len() - pos) as nat;
    if n > 0 {
        assert(sentinel_from(z, pos) == Some(pos));
        lemma_zero_segments_from(z, pos + 1);
        assert(z.subrange(pos, pos) =~= Seq::<i32>::empty());
        assert(seq![z.subrange(pos, pos)] + Seq::new((n - 1) as nat, |i: int| Seq::<i32>::empty())
            =~= Seq::new(n, |i: int| Seq::<i32>::empty()));
    } else {
        assert(Seq::new(0, |i: int| Seq::<i32>::empty()) =~= Seq::<Seq<i32>>::empty());
    }
}

/// A stream of exactly `n` zeros is the tag stream of `n` nodes with no
/// tags: it splits into `n` empty segments.
pub proof fn lemma_zero_stream(n: nat)
    ensures
        kv_segments(Seq::new(n, |i: int| 0i32), n) == Some(
            Seq::new(n, |i: int| Seq::<i32>::empty()),
        ),
{
    lemma_zero_segments_from(Seq::new(n, |i: int| 0i32), 0);
}

/// The key/value index pairs of one dense segment: elements at offsets
/// (2j, 2j+1). A dangling trailing key with no value is not a pair.
pub open spec fn seg_pairs(seg: Seq<i32>) -> Seq<(i64, i64)> {
    Seq::new((seg.len() / 2) as nat, |j: int| (seg[2 * j] as i64, seg[2 * j + 1] as i64))
}

/// The key/value index pairs of two parallel plain arrays: indices pair
/// positionally, up to the shorter length.
pub open spec fn plain_pairs(keys: Seq<u32>, vals: Seq<u32>) -> Seq<(i64, i64)> {
    Seq::new(
        if keys.len() <= vals.len() {
            keys.len()
        } else {
            vals.len()
        },
        |j: int| (keys[j] as i64, vals[j] as i64),
    )
}

/// The exclusion set as character sequences.
pub open spec fn skip_keys_model(skip: Seq<String>) -> Seq<Seq<char>> {
    skip.map_values(|s: String| s@)
}

/// Whether `key` is in the global tag-key exclusion set.
pub open spec fn spec_excluded(skip: Seq<Seq<char>>, key: Seq<char>) -> bool {
    exists|j: int| 0 <= j < skip.len() && skip[j] == key
}

/// The tag rows of one index pair: none when the key is excluded, one
/// otherwise; the first resolution failure is fatal. The value is only
/// resolved when the key is kept.
pub open spec fn spec_tag_pair(
    id: i64,
    key_idx: i64,
    val_idx: i64,
    st: Seq<Seq<u8>>,
    skip: Seq<Seq<char>>,
) -> Result<Seq<TagModel>, DecodeError> {
    match spec_resolve(st, key_idx as int) {
        Err(e) => Err(e),
        Ok(k) => if spec_excluded(skip, k) {
            Ok(Seq::empty())
        } else {
            match spec_resolve(st, val_idx as int) {
                Err(e) => Err(e),
                Ok(v) => Ok(seq![TagModel { id: id, key: k, value: v }]),
            }
        },
    }
}

/// The tag rows of a whole pair list, in order.
pub open spec fn spec_tags(
    id: i64,
    pairs: Seq<(i64, i64)>,
    st: Seq<Seq<u8>>,
    skip: Seq<Seq<char>>,
) -> Result<Seq<TagModel>, DecodeError> {
    collect_concat(
        pairs.len() as int,
        |j: int| spec_tag_pair(id, pairs[j].0, pairs[j].1, st, skip),
    )
}

fn is_excluded(skip: &Vec<String>, key: &String) -> (b: bool)
    ensures
        b == spec_excluded(skip_keys_model(skip@), key@),
{
    let mut j: usize = 0;
    while j < skip.len()
        invariant
            j <= skip.len(),
            forall|k: int| 0 <= k < j ==> skip_keys_model(skip@)[k] != key@,
        decreases skip.len() - j,
    {
        if skip[j] == *key {
            assert(skip_keys_model(skip@)[j as int] == key@);
            return true;
        }
        j += 1;
    }
    false
}

/// Projects the tag rows of one record from its key/value index pairs,
/// resolving both indices and dropping pairs whose key is excluded.
pub fn tags_for_pairs(
    id: i64,
    pairs: &Vec<(i64, i64)>,
    table: &StringTable,
    skip: &Vec<String>,
) -> (r: Result<Vec<TagRow>, DecodeError>)
    ensures
        ({
            let s = spec_tags(id, pairs@, table.model(), skip_keys_model(skip@));
            match r {
                Ok(out) => s == Ok::<Seq<TagModel>, DecodeError>(rows_model(out@)),
                Err(e) => s == Err::<Seq<TagModel>, DecodeError>(e),
            }
        }),
{
    let ghost f = |j: int|
        spec_tag_pair(id, pairs@[j].0, pairs@[j].1, table.model(), skip_keys_model(skip@));
    let mut out: Vec<TagRow> = Vec::new();
    assert(rows_model(out@) =~= Seq::<TagModel>::empty());
    let mut j: usize = 0;
    while j < pairs.len()
        invariant
            j <= pairs.len(),
            f == (|j: int|
                spec_tag_pair(id, pairs@[j].0, pairs@[j].1, table.model(), skip_keys_model(skip@))),
            collect_concat(j as int, f) == Ok::<Seq<TagModel>, DecodeError>(rows_model(out@)),
        decreases pairs.len() - j,
    {
        let (key_idx, val_idx) = pairs[j];
        let key = match table.resolve(key_idx) {
            Ok(k) => k,
            Err(e) => {
                proof {
                    assert(collect_concat(j as int + 1, f) == Err::<Seq<TagModel>, DecodeError>(e));
                    lemma_collect_concat_err_extends(j as int + 1, pairs@.len() as int, f);
                }
                return Err(e);
            },
        };
        if !is_excluded(skip, &key) {
            let value = match table.resolve(val_idx) {
                Ok(v) => v,
                Err(e) => {
                    proof {
                        assert(collect_concat(j as int + 1, f) == Err::<
                            Seq<TagModel>,
                            DecodeError,
                        >(e));
                        lemma_collect_concat_err_extends(j as int + 1, pairs@.len() as int, f);
                    }
                    return Err(e);
                },
            };
            out.push(TagRow { id, key, value });
            assert(rows_model(out@) =~= collect_concat(j as int, f)->Ok_0 + f(j as int)->Ok_0);
        } else {
            assert(rows_model(out@) =~= collect_concat(j as int, f)->Ok_0 + f(j as int)->Ok_0);
        }
        j += 1;
    }
    Ok(out)
}

fn find_sentinel(kv: &Vec<i32>, pos: usize) -> (r: Option<usize>)
    requires
        pos <= kv@.len(),
    ensures
        r matches Some(s) ==> sentinel_from(kv@, pos as int) == Some(s as int) && pos <= s
            < kv@.len(),
        r is None ==> sentinel_from(kv@, pos as int) is None,
{
    let mut j: usize = pos;
    while j < kv.len()
        invariant
            pos <= j,
            sentinel_from(kv@, pos as int) == sentinel_from(kv@, j as int),
        decreases kv@.len() + 2 - j,
    {
        if kv[j] == 0 {
            return Some(j);
        }
        j = match j.checked_add(2) {
            Some(next) => next,
            None => {
                assert(sentinel_from(kv@, j as int + 2) is None);
                return None;
            },
        };
    }
    None
}

/// Splits the dense tag stream into one segment per node; `None` when the
/// sentinel count does not equal `n`.
pub fn split_keys_vals(kv: &Vec<i32>, n: usize) -> (r: Option<Vec<Vec<i32>>>)
    ensures
        ({
            let s = kv_segments(kv@, n as nat);
            match r {
                Some(segs) => s == Some(segs@.map_values(|v: Vec<i32>| v@)),
                None => s is None,
            }
        }),
{
    let mut segs: Vec<Vec<i32>> = Vec::new();
    let mut pos: usize = 0;
    let mut count: usize = 0;
    while count < n
        invariant
            count <= n,
            pos <= kv.len(),
            segs@.len() == count,
            segments_from(kv@, pos as int, (n - count) as nat) is Some ==> kv_segments(
                kv@,
                n as nat,
            ) == Some(
                segs@.map_values(|v: Vec<i32>| v@) + segments_from(
                    kv@,
                    pos as int,
                    (n - count) as nat,
                )->0,
            ),
            segments_from(kv@, pos as int, (n - count) as nat) is None ==> kv_segments(
                kv@,
                n as nat,
            ) is None,
        decreases n - count,
    {
        // scan for the sentinel closing this segment
        let j: usize = match find_sentinel(kv, pos) {
            Some(s) => s,
            None => {
                return None;
            },
        };
        // copy out this segment
        let mut seg: Vec<i32> = Vec::new();
        let mut k: usize = pos;
        while k < j
            invariant
                pos <= k <= j,
                j < kv.len(),
                seg@ == kv@.subrange(pos as int, k as int),
            decreases j - k,
        {
            seg.push(kv[k]);
            assert(seg@ =~= kv@.subrange(pos as int, k as int + 1));
            k += 1;
        }
        assert(seg@ =~= kv@.subrange(pos as int, j as int));
        let ghost old_segs = segs@;
        segs.push(seg);
        proof {
            assert(segs@.map_values(|v: Vec<i32>| v@) =~= old_segs.map_values(|v: Vec<i32>| v@)
                + seq![kv@.subrange(pos as int, j as int)]);
            if segments_from(kv@, j as int + 1, (n - count - 1) as nat) is Some {
                let rest = segments_from(kv@, j as int + 1, (n - count - 1) as nat)->0;
                assert(segments_from(kv@, pos as int, (n - count) as nat) == Some(
                    seq![kv@.subrange(pos as int, j as int)] + rest,
                ));
                assert(old_segs.map_values(|v: Vec<i32>| v@) + (seq![
                    kv@.subrange(pos as int, j as int),
                ] + rest) =~= segs@.map_values(|v: Vec<i32>| v@) + rest);
            }
        }
        pos = j + 1;
        count += 1;
    }
    if pos == kv.len() {
        proof {
            assert(segments_from(kv@, pos as int, 0) == Some(Seq::<Seq<i32>>::empty()));
            assert(segs@.map_values(|v: Vec<i32>| v@) + Seq::<Seq<i32>>::empty() =~= segs@
                .map_values(|v: Vec<i32>| v@));
        }
        Some(segs)
    } else {
        assert(segments_from(kv@, pos as int, 0) is None);
        None
    }
}

/// Builds the index-pair list of one dense segment.
pub fn pairs_of_segment(seg: &Vec<i32>) -> (r: Vec<(i64, i64)>)
    ensures
        r@ == seg_pairs(seg@),
{
    let mut out: Vec<(i64, i64)> = Vec::new();
    let mut j: usize = 0;
    while j + 1 < seg.len()
        invariant
            j % 2 == 0,
            j <= seg.len(),
            out@ == seg_pairs(seg@).take((j / 2) as int),
        decreases seg.len() - j,
    {
        out.push((seg[j] as i64, seg[j + 1] as i64));
        assert(out@ =~= seg_pairs(seg@).take((j / 2) as int + 1));
        j += 2;
    }
    assert(out@ =~= seg_pairs(seg@));
    out
}

/// Builds the index-pair list of two parallel plain arrays.
pub fn pairs_of_plain(keys: &Vec<u32>, vals: &Vec<u32>) -> (r: Vec<(i64, i64)>)
    ensures
        r@ == plain_pairs(keys@, vals@),
{
    let n = if keys.len() <= vals.len() {
        keys.len()
    } else {
        vals.len()
    };
    let mut out: Vec<(i64, i64)> = Vec::new();
    let mut j: usize = 0;
    while j < n
        invariant
            j <= n,
            n == (if keys@.len() <= vals@.len() {
                keys@.len()
            } else {
                vals@.len()
            }),
            out@ == plain_pairs(keys@, vals@).take(j as int),
        decreases n - j,
    {
        out.push((keys[j] as i64, vals[j] as i64));
        assert(out@ =~= plain_pairs(keys@, vals@).take(j as int + 1));
        j += 1;
    }
    assert(out@ =~= plain_pairs(keys@, vals@));
    out
}

} // verus!
