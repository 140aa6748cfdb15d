//! Composing the filter graph from the ordered transform history.
//!
//! Rotations and flips contribute filters in history order; of all crops
//! only the last contributes, at the end. The graph then gets an optional
//! scale filter and a mandatory even-dimension padding filter, all joined
//! by commas.

use crate::options::{Dimensions, TransformAction};
use crate::text::{dec_digits, dec_digits_signed, i64_to_string, u64_to_string};
use vstd::prelude::*;

verus! {

/// Filters contributed by one rotation, by its angle normalized into
/// [0, 360): a quarter turn is a transpose, a half turn a double flip,
/// anything else contributes nothing.
pub open spec fn rotation_filters(angle: int) -> Seq<Seq<char>> {
    let a = angle % 360;
    if a == 90 {
        seq!["transpose=1"@]
    } else if a == 270 {
        seq!["transpose=2"@]
    } else if a == 180 {
        seq!["hflip,vflip"@]
    } else {
        Seq::empty()
    }
}

/// Filters one action contributes to the rotate/flip part of the graph.
pub open spec fn action_filters(a: TransformAction) -> Seq<Seq<char>> {
    match a {
        TransformAction::Rotate { angle } => rotation_filters(angle as int),
        TransformAction::Flip { horizontal, vertical } => {
            let hf: Seq<Seq<char>> = if horizontal {
                seq!["hflip"@]
            } else {
                Seq::empty()
            };
            let vf: Seq<Seq<char>> = if vertical {
                seq!["vflip"@]
            } else {
                Seq::empty()
            };
            hf + vf
        },
        TransformAction::Crop { .. } => Seq::empty(),
    }
}

/// Rotate/flip filters of the whole history, in order.
pub open spec fn history_filters(h: Seq<TransformAction>) -> Seq<Seq<char>>
    decreases h.len(),
{
    if h.len() == 0 {
        Seq::empty()
    } else {
        history_filters(h.drop_last()) + action_filters(h.last())
    }
}

/// The last crop of the history, if any.
pub open spec fn last_crop(h: Seq<TransformAction>) -> Option<TransformAction>
    decreases h.len(),
{
    if h.len() == 0 {
        None
    } else if h.last() is Crop {
        Some(h.last())
    } else {
        last_crop(h.drop_last())
    }
}

/// The filter text of a crop rectangle.
pub open spec fn crop_filter(left: int, top: int, width: int, height: int) -> Seq<char> {
    "crop="@ + dec_digits_signed(width) + ":"@ + dec_digits_signed(height) + ":"@
        + dec_digits_signed(left) + ":"@ + dec_digits_signed(top)
}

/// All transform filters: rotates and flips in order, then the resolved
/// crop.
pub open spec fn transform_filters(h: Seq<TransformAction>) -> Seq<Seq<char>> {
    match last_crop(h) {
        Some(TransformAction::Crop { left, top, width, height }) => history_filters(h).push(
            crop_filter(left as int, top as int, width as int, height as int),
        ),
        _ => history_filters(h),
    }
}

/// A list of filters joined by commas.
pub open spec fn join_comma(parts: Seq<Seq<char>>) -> Seq<char>
    decreases parts.len(),
{
    if parts.len() == 0 {
        Seq::empty()
    } else if parts.len() == 1 {
        parts[0]
    } else {
        join_comma(parts.drop_last()) + ","@ + parts.last()
    }
}

/// The transform part of the filter graph as one comma-joined text.
pub open spec fn transform_filter_string(h: Seq<TransformAction>) -> Seq<char> {
    join_comma(transform_filters(h))
}

/// The padding filter every invocation carries, rounding both dimensions
/// up to even pixel counts.
pub open spec fn pad_filter() -> Seq<char> {
    "pad=ceil(iw/2)*2:ceil(ih/2)*2"@
}

/// The full filter graph: transform filters, then an optional scale, then
/// the padding filter.
pub open spec fn filter_graph(h: Seq<TransformAction>, dims: Option<Dimensions>) -> Seq<char> {
    let tf = transform_filter_string(h);
    let tail = match dims {
        Some(d) => "scale="@ + dec_digits(d.width as int) + ":"@ + dec_digits(d.height as int)
            + ","@ + pad_filter(),
        None => pad_filter(),
    };
    if tf.len() == 0 {
        tail
    } else {
        tf + ","@ + tail
    }
}

/// The two actions are the same, or both are rotations by angles congruent
/// modulo a full turn.
pub open spec fn congruent_action(a: TransformAction, b: TransformAction) -> bool {
    ||| a == b
    ||| (a matches TransformAction::Rotate { angle: x } && b matches TransformAction::Rotate {
        angle: y } && x as int % 360 == y as int % 360)
}

/// Rotation angles congruent modulo a full turn contribute identical
/// filters.
pub proof fn lemma_rotation_normalization(a1: int, a2: int)
    requires
        a1 % 360 == a2 % 360,
    ensures
        rotation_filters(a1) == rotation_filters(a2),
{
}

/// A quarter turn is one transpose however the angle is written: 90, -270
/// and 450 degrees all contribute the same filter.
pub proof fn lemma_quarter_turns()
    ensures
        rotation_filters(90) == rotation_filters(-270),
        rotation_filters(90) == rotation_filters(450),
{
}

proof fn lemma_congruent_history_filters(h1: Seq<TransformAction>, h2: Seq<TransformAction>)
    requires
        h1.len() == h2.len(),
        forall|i: int| 0 <= i < h1.len() ==> congruent_action(h1[i], h2[i]),
    ensures
        history_filters(h1) == history_filters(h2),
    decreases h1.len(),
{
    if h1.len() > 0 {
        assert forall|i: int| 0 <= i < h1.drop_last().len() implies congruent_action(
            h1.drop_last()[i],
            h2.drop_last()[i],
        ) by {
            assert(congruent_action(h1[i], h2[i]));
        }
        lemma_congruent_history_filters(h1.drop_last(), h2.drop_last());
        assert(congruent_action(h1[h1.len() - 1], h2[h2.len() - 1]));
        assert(action_filters(h1.last()) == action_filters(h2.last()));
    }
}

proof fn lemma_congruent_last_crop(h1: Seq<TransformAction>, h2: Seq<TransformAction>)
    requires
        h1.len() == h2.len(),
        forall|i: int| 0 <= i < h1.len() ==> congruent_action(h1[i], h2[i]),
    ensures
        last_crop(h1) == last_crop(h2),
    decreases h1.len(),
{
    if h1.len() > 0 {
        assert(congruent_action(h1[h1.len() - 1], h2[h2.len() - 1]));
        if h1.last() is Crop || h2.last() is Crop {
            assert(h1.last() == h2.last());
        } else {
            assert forall|i: int| 0 <= i < h1.drop_last().len() implies congruent_action(
                h1.drop_last()[i],
                h2.drop_last()[i],
            ) by {
                assert(congruent_action(h1[i], h2[i]));
            }
            lemma_congruent_last_crop(h1.drop_last(), h2.drop_last());
        }
    }
}

/// Histories that agree up to rotation angles congruent modulo a full turn
/// produce the identical filter graph.
pub proof fn lemma_congruent_histories(h1: Seq<TransformAction>, h2: Seq<TransformAction>)
    requires
        h1.len() == h2.len(),
        forall|i: int| 0 <= i < h1.len() ==> congruent_action(h1[i], h2[i]),
    ensures
        transform_filter_string(h1) == transform_filter_string(h2),
{
    lemma_congruent_history_filters(h1, h2);
    lemma_congruent_last_crop(h1, h2);
}

/// The same, for the full filter graph with any target dimensions.
pub proof fn lemma_congruent_graph(
    h1: Seq<TransformAction>,
    h2: Seq<TransformAction>,
    dims: Option<Dimensions>,
)
    requires
        h1.len() == h2.len(),
        forall|i: int| 0 <= i < h1.len() ==> congruent_action(h1[i], h2[i]),
    ensures
        filter_graph(h1, dims) == filter_graph(h2, dims),
{
    lemma_congruent_histories(h1, h2);
}

proof fn lemma_history_filters_skip_crop(h: Seq<TransformAction>, i: int)
    requires
        0 <= i < h.len(),
        h[i] is Crop,
    ensures
        history_filters(h.remove(i)) == history_filters(h),
    decreases h.len(),
{
    if i == h.len() - 1 {
        assert(h.remove(i) =~= h.drop_last());
        assert(action_filters(h.last()) =~= Seq::<Seq<char>>::empty());
        assert(history_filters(h) =~= history_filters(h.drop_last()));
    } else {
        lemma_history_filters_skip_crop(h.drop_last(), i);
        assert(h.remove(i).drop_last() =~= h.drop_last().remove(i));
        assert(h.remove(i).last() == h.last());
    }
}

proof fn lemma_last_crop_override(h: Seq<TransformAction>, i: int, j: int)
    requires
        0 <= i < j < h.len(),
        h[i] is Crop,
        h[j] is Crop,
    ensures
        last_crop(h.remove(i)) == last_crop(h),
    decreases h.len(),
{
    if h.last() is Crop {
        assert(h.remove(i).last() == h.last());
    } else {
        assert(j < h.len() - 1);
        lemma_last_crop_override(h.drop_last(), i, j);
        assert(h.remove(i).drop_last() =~= h.drop_last().remove(i));
        assert(h.remove(i).last() == h.last());
    }
}

/// Of several crops in a history only the last shapes the filter graph:
/// removing any crop that another crop follows leaves the graph unchanged.
pub proof fn lemma_crop_override(h: Seq<TransformAction>, i: int, j: int)
    requires
        0 <= i < j < h.len(),
        h[i] is Crop,
        h[j] is Crop,
    ensures
        transform_filter_string(h.remove(i)) == transform_filter_string(h),
{
    lemma_history_filters_skip_crop(h, i);
    lemma_last_crop_override(h, i, j);
}

/// The same, for the full filter graph with any target dimensions.
pub proof fn lemma_crop_override_graph(
    h: Seq<TransformAction>,
    i: int,
    j: int,
    dims: Option<Dimensions>,
)
    requires
        0 <= i < j < h.len(),
        h[i] is Crop,
        h[j] is Crop,
    ensures
        filter_graph(h.remove(i), dims) == filter_graph(h, dims),
{
    lemma_crop_override(h, i, j);
}

/// Normalizes a rotation angle into [0, 360).
pub fn normalize_angle(angle: i64) -> (r: u64)
    ensures
        r == angle as int % 360,
        r < 360,
{
    if angle >= 0 {
        (angle as u64) % 360
    } else {
        let magnitude: u64 = (-(angle as i128)) as u64;
        let rem = magnitude % 360;
        proof {
            vstd::arithmetic::div_mod::lemma_fundamental_div_mod(magnitude as int, 360);
            let q = magnitude as int / 360;
            if rem == 0 {
                vstd::arithmetic::div_mod::lemma_fundamental_div_mod_converse(
                    angle as int,
                    360,
                    -q,
                    0,
                );
            } else {
                vstd::arithmetic::div_mod::lemma_fundamental_div_mod_converse(
                    angle as int,
                    360,
                    -q - 1,
                    360 - rem,
                );
            }
        }
        if rem == 0 {
            0
        } else {
            360 - rem
        }
    }
}

/// Pushes the filters of one rotation.
fn push_rotation(filters: &mut Vec<String>, angle: i64)
    ensures
        final(filters)@.map_values(|s: String| s@) == old(filters)@.map_values(|s: String| s@)
            + rotation_filters(angle as int),
{
    let a = normalize_angle(angle);
    if a == 90 {
        filters.push(String::from_str("transpose=1"));
    } else if a == 270 {
        filters.push(String::from_str("transpose=2"));
    } else if a == 180 {
        filters.push(String::from_str("hflip,vflip"));
    }
    proof {
        assert(filters@.map_values(|s: String| s@) =~= old(filters)@.map_values(|s: String| s@)
            + rotation_filters(angle as int));
    }
}

/// The filter text of a crop rectangle.
fn crop_filter_string(left: i64, top: i64, width: i64, height: i64) -> (r: String)
    ensures
        r@ == crop_filter(left as int, top as int, width as int, height as int),
{
    let mut s = String::from_str("crop=");
    s.append(i64_to_string(width).as_str());
    s.append(":");
    s.append(i64_to_string(height).as_str());
    s.append(":");
    s.append(i64_to_string(left).as_str());
    s.append(":");
    s.append(i64_to_string(top).as_str());
    s
}

/// Builds the comma-joined transform part of the filter graph from the
/// ordered history.
pub fn build_transform_filters(actions: &Vec<TransformAction>) -> (r: String)
    ensures
        r@ == transform_filter_string(actions@),
{
    let mut filters: Vec<String> = Vec::new();
    let mut latest_crop: Option<TransformAction> = None;
    let mut idx: usize = 0;
    while idx < actions.len()
        invariant
            idx <= actions.len(),
            filters@.map_values(|s: String| s@) == history_filters(actions@.take(idx as int)),
            latest_crop == last_crop(actions@.take(idx as int)),
        decreases actions.len() - idx,
    {
        let a = actions[idx];
        proof {
            assert(actions@.take(idx + 1).drop_last() =~= actions@.take(idx as int));
            assert(actions@.take(idx + 1).last() == actions@[idx as int]);
        }
        match a {
            TransformAction::Rotate { angle } => {
                push_rotation(&mut filters, angle);
            },
            TransformAction::Flip { horizontal, vertical } => {
                if horizontal {
                    filters.push(String::from_str("hflip"));
                }
                if vertical {
                    filters.push(String::from_str("vflip"));
                }
            },
            TransformAction::Crop { .. } => {
                latest_crop = Some(a);
            },
        }
        proof {
            assert(filters@.map_values(|s: String| s@) =~= history_filters(
                actions@.take(idx + 1),
            ));
        }
        idx = idx + 1;
    }
    proof {
        assert(actions@.take(actions@.len() as int) =~= actions@);
    }
    match latest_crop {
        Some(TransformAction::Crop { left, top, width, height }) => {
            filters.push(crop_filter_string(left, top, width, height));
            proof {
                assert(filters@.map_values(|s: String| s@) =~= transform_filters(actions@));
            }
        },
        _ => {
            proof {
                assert(filters@.map_values(|s: String| s@) =~= transform_filters(actions@));
            }
        },
    }
    join_filters(&filters)
}

/// Joins filter texts with commas.
fn join_filters(filters: &Vec<String>) -> (r: String)
    ensures
        r@ == join_comma(filters@.map_values(|s: String| s@)),
{
    let ghost parts = filters@.map_values(|s: String| s@);
    let mut out = String::new();
    let mut k: usize = 0;
    while k < filters.len()
        invariant
            k <= filters.len(),
            parts == filters@.map_values(|s: String| s@),
            out@ == join_comma(parts.take(k as int)),
        decreases filters.len() - k,
    {
        if k > 0 {
            out.append(",");
        }
        out.append(filters[k].as_str());
        proof {
            assert(parts.take(k + 1).drop_last() =~= parts.take(k as int));
            assert(parts.take(k + 1).last() == parts[k as int]);
            if k == 0 {
                assert(out@ =~= join_comma(parts.take(k + 1)));
            }
        }
        k = k + 1;
    }
    proof {
        assert(parts.take(parts.len() as int) =~= parts);
    }
    out
}

/// Builds the full filter graph: transforms, optional scale, padding.
pub fn build_filter_graph(actions: &Vec<TransformAction>, dims: &Option<Dimensions>) -> (r: String)
    ensures
        r@ == filter_graph(actions@, *dims),
{
    let tf = build_transform_filters(actions);
    let mut out = String::new();
    if tf.as_str().unicode_len() > 0 {
        out.append(tf.as_str());
        out.append(",");
    }
    match dims {
        Some(d) => {
            out.append("scale=");
            out.append(u64_to_string(d.width as u64).as_str());
            out.append(":");
            out.append(u64_to_string(d.height as u64).as_str());
            out.append(",");
        },
        None => {},
    }
    out.append("pad=ceil(iw/2)*2:ceil(ih/2)*2");
    proof {
        assert(out@ =~= filter_graph(actions@, *dims));
    }
    out
}

} // verus!
