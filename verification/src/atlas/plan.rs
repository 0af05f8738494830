//! What to do with the sprite frames once an atlas has been read: which
//! frames to add, and which animations and trailing frames are no longer used.
use vstd::prelude::*;
use crate::atlas::text::{bytes_equal, copy_range};
use crate::atlas::{Atlas, FrameView};

verus! {

/// The animations that an atlas uses, each with the largest index of its
/// frames; `names[k]` goes with `max_indices[k]`.
pub struct UsedAnimations {
    pub names: Vec<Vec<u8>>,
    pub max_indices: Vec<i32>,
}

/// No name occurs twice in `names`.
pub open spec fn all_distinct(names: Seq<Seq<u8>>) -> bool {
    forall|i: int, j: int| 0 <= i < j < names.len() ==> names[i] != names[j]
}

/// The animation of frame `k` is among `names`.
pub open spec fn names_frame(names: Seq<Seq<u8>>, frames: Seq<FrameView>, k: int) -> bool {
    exists|i: int| 0 <= i < names.len() && names[i] == frames[k].anim_name
}

/// The animation of every frame is among `names`.
pub open spec fn covers(names: Seq<Seq<u8>>, frames: Seq<FrameView>) -> bool {
    forall|k: int| 0 <= k < frames.len() ==> #[trigger] names_frame(names, frames, k)
}

/// No frame of the animation `names[i]` has an index above `maxes[i]`.
pub open spec fn bounds_indices(names: Seq<Seq<u8>>, maxes: Seq<i32>, frames: Seq<FrameView>) -> bool {
    forall|i: int, k: int|
        0 <= i < names.len() && 0 <= k < frames.len() && (#[trigger] frames[k]).anim_name
            == #[trigger] names[i] ==> frames[k].index <= maxes[i]
}

/// Some frame of the animation `names[i]` has the index `maxes[i]`.
pub open spec fn attained(names: Seq<Seq<u8>>, maxes: Seq<i32>, frames: Seq<FrameView>, i: int) -> bool {
    exists|k: int| 0 <= k < frames.len() && frames[k].anim_name == names[i] && frames[k].index == maxes[i]
}

/// For every animation, some frame has the largest index listed for it.
pub open spec fn attains_indices(names: Seq<Seq<u8>>, maxes: Seq<i32>, frames: Seq<FrameView>) -> bool {
    forall|i: int| 0 <= i < names.len() ==> #[trigger] attained(names, maxes, frames, i)
}

/// Whether `names` lists, once each, exactly the animations of the frames
/// `frames`, with `maxes[k]` the largest index of the frames of `names[k]`.
#[verifier::opaque]
pub open spec fn lists_animations(names: Seq<Seq<u8>>, maxes: Seq<i32>, frames: Seq<FrameView>) -> bool {
    &&& names.len() == maxes.len()
    &&& all_distinct(names)
    &&& covers(names, frames)
    &&& bounds_indices(names, maxes, frames)
    &&& attains_indices(names, maxes, frames)
}

impl UsedAnimations {
    /// The animation names, as byte strings.
    pub open spec fn name_views(&self) -> Seq<Seq<u8>> {
        self.names@.map_values(|n: Vec<u8>| n@)
    }

    /// Whether `self` lists, once each, exactly the animations of the frames
    /// `frames`, with the largest index of the frames of each.
    pub open spec fn describes(&self, frames: Seq<FrameView>) -> bool {
        lists_animations(self.name_views(), self.max_indices@, frames)
    }
}

proof fn lemma_covers_push(names: Seq<Seq<u8>>, nn: Seq<Seq<u8>>, pre: Seq<FrameView>, f: FrameView, i: int)
    requires
        covers(names, pre),
        names.len() <= nn.len(),
        forall|j: int| 0 <= j < names.len() ==> nn[j] == names[j],
        0 <= i < nn.len(),
        nn[i] == f.anim_name,
    ensures
        covers(nn, pre.push(f)),
{
    let post = pre.push(f);
    assert forall|k: int| 0 <= k < post.len() implies #[trigger] names_frame(nn, post, k) by {
        if k < pre.len() {
            assert(post[k] == pre[k]);
            assert(names_frame(names, pre, k));
            let j = choose|j: int| 0 <= j < names.len() && names[j] == pre[k].anim_name;
            assert(nn[j] == names[j]);
        } else {
            assert(nn[i] == post[k].anim_name);
        }
    }
}

proof fn lemma_bounds_known(
    names: Seq<Seq<u8>>,
    maxes: Seq<i32>,
    pre: Seq<FrameView>,
    f: FrameView,
    i: int,
    nm: Seq<i32>,
)
    requires
        bounds_indices(names, maxes, pre),
        all_distinct(names),
        0 <= i < names.len(),
        names.len() == maxes.len(),
        names[i] == f.anim_name,
        nm.len() == maxes.len(),
        forall|j: int| 0 <= j < maxes.len() && j != i ==> nm[j] == maxes[j],
        nm[i] >= maxes[i],
        nm[i] >= f.index,
    ensures
        bounds_indices(names, nm, pre.push(f)),
{
    let post = pre.push(f);
    assert forall|j: int, k: int|
        0 <= j < names.len() && 0 <= k < post.len() && (#[trigger] post[k]).anim_name
            == #[trigger] names[j] implies post[k].index <= nm[j] by {
        if k < pre.len() {
            assert(post[k] == pre[k]);
        } else if j != i {
            assert(names[i] != names[j]);
        }
    }
}

proof fn lemma_attains_known(
    names: Seq<Seq<u8>>,
    maxes: Seq<i32>,
    pre: Seq<FrameView>,
    f: FrameView,
    i: int,
    nm: Seq<i32>,
)
    requires
        attains_indices(names, maxes, pre),
        0 <= i < names.len(),
        names.len() == maxes.len(),
        names[i] == f.anim_name,
        nm.len() == maxes.len(),
        forall|j: int| 0 <= j < maxes.len() && j != i ==> nm[j] == maxes[j],
        nm[i] == maxes[i] || nm[i] == f.index,
    ensures
        attains_indices(names, nm, pre.push(f)),
{
    let post = pre.push(f);
    assert forall|j: int| 0 <= j < names.len() implies #[trigger] attained(names, nm, post, j) by {
        if j == i && nm[i] != maxes[i] {
            assert(post[pre.len() as int] == f);
        } else {
            assert(attained(names, maxes, pre, j));
            let m = choose|m: int|
                0 <= m < pre.len() && pre[m].anim_name == names[j] && pre[m].index == maxes[j];
            assert(post[m] == pre[m]);
        }
    }
}

proof fn lemma_lists_known(
    names: Seq<Seq<u8>>,
    maxes: Seq<i32>,
    pre: Seq<FrameView>,
    f: FrameView,
    i: int,
    nm: Seq<i32>,
)
    requires
        lists_animations(names, maxes, pre),
        0 <= i < names.len(),
        names[i] == f.anim_name,
        nm.len() == maxes.len(),
        forall|j: int| 0 <= j < maxes.len() && j != i ==> nm[j] == maxes[j],
        nm[i] >= maxes[i],
        nm[i] >= f.index,
        nm[i] == maxes[i] || nm[i] == f.index,
    ensures
        lists_animations(names, nm, pre.push(f)),
{
    reveal(lists_animations);
    lemma_covers_push(names, names, pre, f, i);
    lemma_bounds_known(names, maxes, pre, f, i, nm);
    lemma_attains_known(names, maxes, pre, f, i, nm);
}

proof fn lemma_bounds_new(names: Seq<Seq<u8>>, maxes: Seq<i32>, pre: Seq<FrameView>, f: FrameView, v: i32)
    requires
        bounds_indices(names, maxes, pre),
        covers(names, pre),
        names.len() == maxes.len(),
        forall|m: int| 0 <= m < names.len() ==> names[m] != f.anim_name,
        v == f.index,
    ensures
        bounds_indices(names.push(f.anim_name), maxes.push(v), pre.push(f)),
{
    let post = pre.push(f);
    let nn = names.push(f.anim_name);
    let nm = maxes.push(v);
    assert forall|j: int, k: int|
        0 <= j < nn.len() && 0 <= k < post.len() && (#[trigger] post[k]).anim_name
            == #[trigger] nn[j] implies post[k].index <= nm[j] by {
        if k < pre.len() {
            assert(post[k] == pre[k]);
            if j == names.len() {
                assert(names_frame(names, pre, k));
                let jj = choose|jj: int| 0 <= jj < names.len() && names[jj] == pre[k].anim_name;
                assert(names[jj] == f.anim_name);
            } else {
                assert(nn[j] == names[j]);
            }
        } else if j < names.len() {
            assert(nn[j] == names[j]);
        }
    }
}

proof fn lemma_attains_new(names: Seq<Seq<u8>>, maxes: Seq<i32>, pre: Seq<FrameView>, f: FrameView, v: i32)
    requires
        attains_indices(names, maxes, pre),
        names.len() == maxes.len(),
        v == f.index,
    ensures
        attains_indices(names.push(f.anim_name), maxes.push(v), pre.push(f)),
{
    let post = pre.push(f);
    let nn = names.push(f.anim_name);
    let nm = maxes.push(v);
    assert forall|j: int| 0 <= j < nn.len() implies #[trigger] attained(nn, nm, post, j) by {
        if j == names.len() {
            assert(post[pre.len() as int] == f);
        } else {
            assert(nn[j] == names[j]);
            assert(attained(names, maxes, pre, j));
            let m = choose|m: int|
                0 <= m < pre.len() && pre[m].anim_name == names[j] && pre[m].index == maxes[j];
            assert(post[m] == pre[m]);
        }
    }
}

proof fn lemma_distinct_new(names: Seq<Seq<u8>>, name: Seq<u8>)
    requires
        all_distinct(names),
        forall|m: int| 0 <= m < names.len() ==> names[m] != name,
    ensures
        all_distinct(names.push(name)),
{
    let nn = names.push(name);
    assert forall|a: int, b: int| 0 <= a < b < nn.len() implies nn[a] != nn[b] by {
        if b == names.len() {
            assert(nn[a] == names[a]);
        } else {
            assert(nn[a] == names[a] && nn[b] == names[b]);
        }
    }
}

proof fn lemma_lists_new(names: Seq<Seq<u8>>, maxes: Seq<i32>, pre: Seq<FrameView>, f: FrameView, v: i32)
    requires
        lists_animations(names, maxes, pre),
        forall|m: int| 0 <= m < names.len() ==> names[m] != f.anim_name,
        v == f.index,
    ensures
        lists_animations(names.push(f.anim_name), maxes.push(v), pre.push(f)),
{
    reveal(lists_animations);
    lemma_covers_push(names, names.push(f.anim_name), pre, f, names.len() as int);
    lemma_bounds_new(names, maxes, pre, f, v);
    lemma_attains_new(names, maxes, pre, f, v);
    lemma_distinct_new(names, f.anim_name);
}

/// The animations that the frames of `atlas` use, each once and with the
/// largest index of its frames; the order of the list is left open.
pub fn used_animations(atlas: &Atlas) -> (r: UsedAnimations)
    ensures
        r.describes(atlas@.frames),
{
    let ghost fs = atlas@.frames;
    let mut names: Vec<Vec<u8>> = Vec::new();
    let mut maxes: Vec<i32> = Vec::new();
    let mut k: usize = 0;
    assert(fs.take(0) =~= Seq::<FrameView>::empty());
    assert(lists_animations(Seq::empty(), Seq::empty(), Seq::empty())) by {
        reveal(lists_animations);
    }
    assert(names@.map_values(|n: Vec<u8>| n@) =~= Seq::empty());
    while k < atlas.frames.len()
        invariant
            k <= atlas.frames@.len(),
            fs == atlas@.frames,
            lists_animations(names@.map_values(|n: Vec<u8>| n@), maxes@, fs.take(k as int)),
            names@.len() == maxes@.len(),
        decreases atlas.frames@.len() - k,
    {
        let ghost pre = fs.take(k as int);
        let ghost old_names = names@.map_values(|n: Vec<u8>| n@);
        let ghost old_maxes = maxes@;
        assert(fs.take(k + 1) =~= pre.push(fs[k as int]));
        let frame = &atlas.frames[k];
        assert(frame@ == fs[k as int]);
        match position_of(&names, frame.anim_name.as_slice()) {
            Some(i) => {
                if frame.index > maxes[i] {
                    maxes.set(i, frame.index);
                }
                proof {
                    lemma_lists_known(old_names, old_maxes, pre, frame@, i as int, maxes@);
                }
                assert(names@.map_values(|n: Vec<u8>| n@) == old_names);
            },
            None => {
                let copy = copy_range(frame.anim_name.as_slice(), 0, frame.anim_name.len());
                assert(copy@ =~= frame.anim_name@);
                names.push(copy);
                maxes.push(frame.index);
                proof {
                    lemma_lists_new(old_names, old_maxes, pre, frame@, frame.index);
                    assert(names@.map_values(|n: Vec<u8>| n@) =~= old_names.push(frame@.anim_name));
                }
            },
        }
        k = k + 1;
    }
    assert(fs.take(k as int) =~= fs);
    UsedAnimations { names, max_indices: maxes }
}

/// The position of the first of `names` equal to `name`.
fn position_of(names: &Vec<Vec<u8>>, name: &[u8]) -> (r: Option<usize>)
    ensures
        r matches Some(i) ==> i < names@.len() && names@[i as int]@ == name@,
        r is None ==> forall|m: int| 0 <= m < names@.len() ==> names@[m]@ != name@,
{
    let mut i: usize = 0;
    while i < names.len()
        invariant
            i <= names@.len(),
            forall|m: int| 0 <= m < i ==> names@[m]@ != name@,
        decreases names@.len() - i,
    {
        if bytes_equal(names[i].as_slice(), name) {
            return Some(i);
        }
        i = i + 1;
    }
    None
}

/// How many frames an animation with `frame_count` frames needs to be given
/// so that it has a frame at `index`.
pub fn frames_to_add(index: i32, frame_count: i32) -> (n: i32)
    requires
        0 <= index < i32::MAX,
        0 <= frame_count,
    ensures
        n >= 0,
        n == (if index + 1 > frame_count {
            index + 1 - frame_count
        } else {
            0
        }),
        frame_count + n > index,
{
    if index + 1 > frame_count {
        index + 1 - frame_count
    } else {
        0
    }
}

/// The frames of an animation that follow its last used index: the range
/// `start..end` to remove, when it is not empty.
pub fn trailing_frames(max_index: i32, frame_count: i32) -> (r: Option<(i32, i32)>)
    requires
        max_index < i32::MAX,
    ensures
        r is Some <==> max_index + 1 < frame_count,
        r matches Some((start, end)) ==> start == max_index + 1 && end == frame_count,
{
    if max_index + 1 < frame_count {
        Some((max_index + 1, frame_count))
    } else {
        None
    }
}

/// Whether `name` is one of `names`.
pub open spec fn is_listed(names: Seq<Seq<u8>>, name: Seq<u8>) -> bool {
    exists|i: int| 0 <= i < names.len() && names[i] == name
}

/// The names of `existing` that are not listed in `used`, in order.
pub open spec fn unlisted(existing: Seq<Seq<u8>>, used: Seq<Seq<u8>>) -> Seq<Seq<u8>>
    decreases existing.len(),
{
    if existing.len() == 0 {
        seq![]
    } else {
        let rest = unlisted(existing.drop_last(), used);
        if is_listed(used, existing.last()) {
            rest
        } else {
            rest.push(existing.last())
        }
    }
}

/// The animations among `existing` that the atlas no longer uses.
pub fn unused_animations(existing: &Vec<Vec<u8>>, used: &UsedAnimations) -> (r: Vec<Vec<u8>>)
    ensures
        r@.map_values(|n: Vec<u8>| n@) == unlisted(
            existing@.map_values(|n: Vec<u8>| n@),
            used.name_views(),
        ),
{
    let ghost ex = existing@.map_values(|n: Vec<u8>| n@);
    let ghost un = used.name_views();
    let mut r: Vec<Vec<u8>> = Vec::new();
    let mut k: usize = 0;
    assert(ex.take(0) =~= Seq::<Seq<u8>>::empty());
    while k < existing.len()
        invariant
            k <= existing@.len(),
            ex == existing@.map_values(|n: Vec<u8>| n@),
            un == used.name_views(),
            r@.map_values(|n: Vec<u8>| n@) == unlisted(ex.take(k as int), un),
        decreases existing@.len() - k,
    {
        let ghost before = r@.map_values(|n: Vec<u8>| n@);
        assert(ex.take(k + 1).drop_last() =~= ex.take(k as int));
        assert(ex.take(k + 1).last() == existing@[k as int]@);
        let name = &existing[k];
        let pos = position_of(&used.names, name.as_slice());
        let listed = pos.is_some();
        let i: usize = match pos {
            Some(p) => p,
            None => 0,
        };
        if listed {
            assert(un[i as int] == name@);
            assert(is_listed(un, name@));
        } else {
            assert(!is_listed(un, name@));
            let copy = copy_range(name.as_slice(), 0, name.len());
            assert(copy@ =~= name@);
            r.push(copy);
            assert(r@.map_values(|n: Vec<u8>| n@) =~= before.push(name@));
        }
        k = k + 1;
    }
    assert(ex.take(k as int) =~= ex);
    r
}

/// Removing the trailing frames of an animation never removes a frame that
/// the atlas uses: every frame of a used animation has an index below the
/// first trailing frame. When the frames of the atlas have indices from 0 to
/// below `i32::MAX`, so has the largest index of each animation.
pub proof fn lemma_trailing_frames_unused(u: UsedAnimations, frames: Seq<FrameView>, i: int, k: int)
    requires
        u.describes(frames),
        0 <= i < u.names@.len(),
        0 <= k < frames.len(),
        frames[k].anim_name == u.name_views()[i],
    ensures
        frames[k].index < u.max_indices@[i] + 1,
        (forall|m: int| 0 <= m < frames.len() ==> 0 <= #[trigger] frames[m].index < i32::MAX) ==> 0
            <= u.max_indices@[i] < i32::MAX,
{
    reveal(lists_animations);
    let names = u.name_views();
    assert(names[i] == frames[k].anim_name);
    assert(attained(names, u.max_indices@, frames, i));
    let m = choose|m: int|
        0 <= m < frames.len() && frames[m].anim_name == names[i] && frames[m].index
            == u.max_indices@[i];
}

/// The animations dropped are exactly those of the sprite frames that no
/// frame of the atlas uses: a name is in `unlisted(existing, used)` exactly
/// when it is in `existing` and not in `used`.
pub proof fn lemma_unlisted(existing: Seq<Seq<u8>>, used: Seq<Seq<u8>>, x: Seq<u8>)
    ensures
        unlisted(existing, used).contains(x) <==> (existing.contains(x) && !is_listed(used, x)),
    decreases existing.len(),
{
    if existing.len() > 0 {
        let init = existing.drop_last();
        lemma_unlisted(init, used, x);
        assert(existing =~= init.push(existing.last()));
        if init.contains(x) {
            let k = choose|k: int| 0 <= k < init.len() && init[k] == x;
            assert(existing[k] == x);
        }
        if existing.contains(x) && !init.contains(x) {
            let k = choose|k: int| 0 <= k < existing.len() && existing[k] == x;
            if k < init.len() {
                assert(init[k] == x);
            }
        }
        let rest = unlisted(init, used);
        if !is_listed(used, existing.last()) {
            let r = rest.push(existing.last());
            if rest.contains(x) {
                let k = choose|k: int| 0 <= k < rest.len() && rest[k] == x;
                assert(r[k] == x);
            }
            if r.contains(x) && x != existing.last() {
                let k = choose|k: int| 0 <= k < r.len() && r[k] == x;
                assert(rest[k] == x);
            }
            assert(r[rest.len() as int] == existing.last());
        }
    }
}

} // verus!
