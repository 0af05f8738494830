//! What holds of every atlas that reads without error.
use vstd::prelude::*;
use crate::atlas::reader::{
    atlas_of, finished, frame_from_name, has_attr, initial_state, read_line, read_lines, attr_from_line,
    ReadState, UNDERSCORE, COLON,
};
use crate::atlas::text::{
    find_pair_from, lemma_find_pair_from, lemma_line_end, lemma_rfind_before, line_end, lines_from, rfind,
    split_pair_from, strip_cr, text_lines, CARRIAGE_RETURN,
};
use crate::atlas::encoding::{is_ascii_cut, lemma_cut_valid};
use crate::atlas::values::{COMMA, SPACE};
use vstd::utf8::valid_utf8;
use crate::atlas::values::four_values;
use crate::atlas::{AttrKey, AttrView, FrameView};

verus! {

/// A frame as it is while it is being read: on an existing page, with a
/// non-empty animation name, an index from 0 to below `i32::MAX`, and four
/// values in each attribute.
pub open spec fn frame_well_formed(f: FrameView, n_textures: int) -> bool {
    &&& 0 <= f.page < n_textures
    &&& 0 <= f.index < i32::MAX
    &&& f.anim_name.len() > 0
    &&& forall|k: int| 0 <= k < f.attrs.len() ==> (#[trigger] f.attrs[k]).values.len() == 4
}

/// A frame as it is once read: well formed, with bounds and offsets.
pub open spec fn frame_complete(f: FrameView, n_textures: int) -> bool {
    &&& frame_well_formed(f, n_textures)
    &&& has_attr(f, AttrKey::Bounds)
    &&& has_attr(f, AttrKey::Offsets)
}

/// Whether consecutive frames stay on a page or go to the next one, the
/// first frame being on the first page.
pub open spec fn pages_in_order(frames: Seq<FrameView>) -> bool {
    &&& frames.len() > 0 ==> frames[0].page == 0
    &&& forall|k: int|
        0 <= k < frames.len() - 1 ==> (#[trigger] frames[k + 1]).page == frames[k].page
            || frames[k + 1].page == frames[k].page + 1
}

/// The state of the reading: the finished frames are complete and in page
/// order, and the page of the last frame (finished or current) matches the
/// number of textures met so far.
pub open spec fn state_invariant(st: ReadState) -> bool {
    let n = st.textures.len() as int;
    let fs = st.frames;
    &&& forall|k: int| 0 <= k < fs.len() ==> frame_complete(#[trigger] fs[k], n)
    &&& pages_in_order(fs)
    &&& match st.current {
        Some(f) => {
            &&& st.in_page
            &&& frame_well_formed(f, n)
            &&& f.page == n - 1
            &&& fs.len() == 0 ==> f.page == 0
            &&& fs.len() > 0 ==> (f.page == fs.last().page || f.page == fs.last().page + 1)
        },
        None => if st.in_page {
            &&& fs.len() == 0 ==> n == 1
            &&& fs.len() > 0 ==> fs.last().page == n - 2
        } else {
            &&& fs.len() == 0 ==> n == 0
            &&& fs.len() > 0 ==> fs.last().page == n - 1
        },
    }
}

proof fn lemma_frame_from_name(line: Seq<u8>, page: int, n: int)
    requires
        0 <= page < n,
    ensures
        frame_from_name(line, page) matches Ok(f) ==> frame_well_formed(f, n) && f.page == page,
{
    lemma_rfind_before(line, UNDERSCORE, line.len() as int);
}

proof fn lemma_attr_four(rest: Seq<u8>)
    ensures
        attr_from_line(rest) matches Ok(a) ==> a.values.len() == 4,
{
}

proof fn lemma_push_complete(fs: Seq<FrameView>, g: FrameView, n: int)
    requires
        forall|k: int| 0 <= k < fs.len() ==> frame_complete(#[trigger] fs[k], n),
        pages_in_order(fs),
        frame_complete(g, n),
        fs.len() == 0 ==> g.page == 0,
        fs.len() > 0 ==> (g.page == fs.last().page || g.page == fs.last().page + 1),
    ensures
        forall|k: int| 0 <= k < fs.push(g).len() ==> frame_complete(#[trigger] fs.push(g)[k], n),
        pages_in_order(fs.push(g)),
{
    let p = fs.push(g);
    assert forall|k: int| 0 <= k < p.len() - 1 implies (#[trigger] p[k + 1]).page == p[k].page
        || p[k + 1].page == p[k].page + 1 by {
        if k + 1 < fs.len() {
            assert(p[k + 1] == fs[k + 1] && p[k] == fs[k]);
        } else {
            assert(p[k] == fs.last());
        }
    }
    assert forall|k: int| 0 <= k < p.len() implies frame_complete(#[trigger] p[k], n) by {
        if k < fs.len() {
            assert(p[k] == fs[k]);
        }
    }
}

proof fn lemma_complete_grows(fs: Seq<FrameView>, n: int)
    requires
        forall|k: int| 0 <= k < fs.len() ==> frame_complete(#[trigger] fs[k], n),
    ensures
        forall|k: int| 0 <= k < fs.len() ==> frame_complete(#[trigger] fs[k], n + 1),
{
}

proof fn lemma_read_line_invariant(st: ReadState, line: Seq<u8>)
    requires
        state_invariant(st),
    ensures
        read_line(st, line) matches Ok(next) ==> state_invariant(next),
{
    let n = st.textures.len() as int;
    if !st.in_page {
        lemma_complete_grows(st.frames, n);
    } else {
        match st.current {
            None => {
                lemma_frame_from_name(line, n - 1, n);
            },
            Some(f) => {
                if line.len() == 0 {
                    if finished(f) is Ok {
                        lemma_push_complete(st.frames, f, n);
                    }
                } else if line[0] >= 128 {
                } else if line[0] == crate::atlas::text::TAB {
                    lemma_attr_four(line.drop_first());
                    if let Ok(a) = attr_from_line(line.drop_first()) {
                        let g = FrameView { attrs: f.attrs.push(a), ..f };
                        assert forall|k: int| 0 <= k < g.attrs.len() implies (#[trigger] g.attrs[k]).values.len()
                            == 4 by {
                            if k < f.attrs.len() {
                                assert(g.attrs[k] == f.attrs[k]);
                            }
                        }
                    }
                } else {
                    lemma_frame_from_name(line, n - 1, n);
                    if finished(f) is Ok {
                        lemma_push_complete(st.frames, f, n);
                    }
                }
            },
        }
    }
}

proof fn lemma_read_lines_invariant(lines: Seq<Seq<u8>>, st: ReadState)
    requires
        state_invariant(st),
    ensures
        read_lines(lines, st) matches Ok(fin) ==> state_invariant(fin),
    decreases lines.len(),
{
    if lines.len() > 0 {
        lemma_read_line_invariant(st, lines[0]);
        if let Ok(next) = read_line(st, lines[0]) {
            lemma_read_lines_invariant(lines.drop_first(), next);
        }
    }
}

/// Every frame of an atlas that reads without error is complete: it lies on
/// one of the atlas's pages, belongs to a named animation, has an index from
/// 0 to below `i32::MAX`, four values in each attribute, and both bounds and
/// offsets. The frames come page by page, the first on the first page, and
/// the last on the last page, so every page has at least one frame.
pub proof fn lemma_read_atlas_is_complete(bytes: Seq<u8>)
    ensures
        atlas_of(bytes) matches Ok(a) ==> {
            &&& a.frames.len() > 0
            &&& forall|k: int|
                0 <= k < a.frames.len() ==> frame_complete(#[trigger] a.frames[k], a.textures.len() as int)
            &&& pages_in_order(a.frames)
            &&& a.frames.last().page == a.textures.len() - 1
        },
{
    assert(state_invariant(initial_state()));
    lemma_read_lines_invariant(text_lines(bytes), initial_state());
    if let Ok(st) = read_lines(text_lines(bytes), initial_state()) {
        if let Some(f) = st.current {
            if finished(f) is Ok {
                lemma_push_complete(st.frames, f, st.textures.len() as int);
            }
        }
    }
}

/// Every value of attribute `a` is valid UTF-8.
pub open spec fn attr_utf8(a: AttrView) -> bool {
    forall|m: int| 0 <= m < a.values.len() ==> valid_utf8(#[trigger] a.values[m])
}

/// The animation name and every attribute value of `f` are valid UTF-8.
pub open spec fn frame_utf8(f: FrameView) -> bool {
    &&& valid_utf8(f.anim_name)
    &&& forall|k: int| 0 <= k < f.attrs.len() ==> attr_utf8(#[trigger] f.attrs[k])
}

/// Every byte string held by the reading state is valid UTF-8.
pub open spec fn state_utf8(st: ReadState) -> bool {
    &&& forall|k: int| 0 <= k < st.textures.len() ==> valid_utf8(#[trigger] st.textures[k])
    &&& forall|k: int| 0 <= k < st.frames.len() ==> frame_utf8(#[trigger] st.frames[k])
    &&& st.current matches Some(f) ==> frame_utf8(f)
}

proof fn lemma_lines_utf8(s: Seq<u8>, i: int)
    requires
        valid_utf8(s),
        0 <= i <= s.len(),
        is_ascii_cut(s, i),
    ensures
        forall|k: int| 0 <= k < lines_from(s, i).len() ==> valid_utf8(#[trigger] lines_from(s, i)[k]),
    decreases s.len() - i,
{
    if i < s.len() {
        let e = line_end(s, i);
        lemma_line_end(s, i);
        let ls = lines_from(s, i);
        if e < s.len() {
            lemma_lines_utf8(s, e + 1);
            let raw = s.subrange(i, e);
            let line = strip_cr(raw);
            if raw.len() > 0 && raw[raw.len() - 1] == CARRIAGE_RETURN {
                assert(s[e - 1] == raw[raw.len() - 1]);
                lemma_cut_valid(s, i, e - 1);
                assert(line =~= s.subrange(i, e - 1));
            } else {
                lemma_cut_valid(s, i, e);
            }
            let rest = lines_from(s, e + 1);
            assert(ls == seq![line] + rest);
            assert forall|k: int| 0 <= k < ls.len() implies valid_utf8(#[trigger] ls[k]) by {
                if k > 0 {
                    assert(ls[k] == rest[k - 1]);
                }
            }
        } else {
            lemma_cut_valid(s, i, s.len() as int);
        }
    }
}

proof fn lemma_split_utf8(t: Seq<u8>, i: int)
    requires
        valid_utf8(t),
        0 <= i <= t.len(),
        is_ascii_cut(t, i),
    ensures
        forall|k: int|
            0 <= k < split_pair_from(t, COMMA, SPACE, i).len() ==> valid_utf8(
                #[trigger] split_pair_from(t, COMMA, SPACE, i)[k],
            ),
    decreases t.len() - i,
{
    let ps = split_pair_from(t, COMMA, SPACE, i);
    lemma_find_pair_from(t, COMMA, SPACE, i);
    match find_pair_from(t, COMMA, SPACE, i) {
        None => {
            lemma_cut_valid(t, i, t.len() as int);
        },
        Some(j) => {
            lemma_cut_valid(t, i, j);
            lemma_split_utf8(t, j + 2);
            let rest = split_pair_from(t, COMMA, SPACE, j + 2);
            assert(ps == seq![t.subrange(i, j)] + rest);
            assert forall|k: int| 0 <= k < ps.len() implies valid_utf8(#[trigger] ps[k]) by {
                if k > 0 {
                    assert(ps[k] == rest[k - 1]);
                }
            }
        },
    }
}

proof fn lemma_attr_utf8(rest: Seq<u8>)
    requires
        valid_utf8(rest),
    ensures
        attr_from_line(rest) matches Ok(a) ==> attr_utf8(a),
{
    lemma_find_pair_from(rest, COLON, 32, 0);
    if let Some(i) = find_pair_from(rest, COLON, 32, 0) {
        lemma_cut_valid(rest, i + 2, rest.len() as int);
        let t = rest.subrange(i + 2, rest.len() as int);
        lemma_split_utf8(t, 0);
    }
}

proof fn lemma_name_utf8(line: Seq<u8>, page: int)
    requires
        valid_utf8(line),
    ensures
        frame_from_name(line, page) matches Ok(f) ==> frame_utf8(f),
{
    lemma_rfind_before(line, UNDERSCORE, line.len() as int);
    if let Some(i) = rfind(line, UNDERSCORE) {
        lemma_cut_valid(line, 0, i);
    }
}

proof fn lemma_read_line_utf8(st: ReadState, line: Seq<u8>)
    requires
        state_utf8(st),
        valid_utf8(line),
    ensures
        read_line(st, line) matches Ok(next) ==> state_utf8(next),
{
    lemma_name_utf8(line, st.textures.len() - 1);
    if line.len() > 0 && line[0] == crate::atlas::text::TAB {
        lemma_cut_valid(line, 1, line.len() as int);
        assert(line.drop_first() =~= line.subrange(1, line.len() as int));
        lemma_attr_utf8(line.drop_first());
    }
    if let Ok(next) = read_line(st, line) {
        if !st.in_page {
            assert forall|k: int| 0 <= k < next.textures.len() implies valid_utf8(
                #[trigger] next.textures[k],
            ) by {
                if k < st.textures.len() {
                    assert(next.textures[k] == st.textures[k]);
                }
            }
        }
        assert forall|k: int| 0 <= k < next.frames.len() implies frame_utf8(#[trigger] next.frames[k]) by {
            if k < st.frames.len() {
                assert(next.frames[k] == st.frames[k]);
            }
        }
        if let Some(f) = st.current {
            if let Some(g) = next.current {
                if line.len() > 0 && line[0] == crate::atlas::text::TAB && line[0] < 128 {
                    assert forall|k: int| 0 <= k < g.attrs.len() implies attr_utf8(#[trigger] g.attrs[k]) by {
                        if k < f.attrs.len() {
                            assert(g.attrs[k] == f.attrs[k]);
                        }
                    }
                }
            }
        }
    }
}

proof fn lemma_read_lines_utf8(lines: Seq<Seq<u8>>, st: ReadState)
    requires
        state_utf8(st),
        forall|k: int| 0 <= k < lines.len() ==> valid_utf8(#[trigger] lines[k]),
    ensures
        read_lines(lines, st) matches Ok(fin) ==> state_utf8(fin),
    decreases lines.len(),
{
    if lines.len() > 0 {
        lemma_read_line_utf8(st, lines[0]);
        if let Ok(next) = read_line(st, lines[0]) {
            let rest = lines.drop_first();
            assert forall|k: int| 0 <= k < rest.len() implies valid_utf8(#[trigger] rest[k]) by {
                assert(rest[k] == lines[k + 1]);
            }
            lemma_read_lines_utf8(rest, next);
        }
    }
}

/// Reading a UTF-8 text cuts it only next to ASCII bytes, so every texture
/// name, animation name and attribute value of the atlas is valid UTF-8 and
/// converts back to a string.
pub proof fn lemma_read_atlas_is_utf8(bytes: Seq<u8>)
    requires
        valid_utf8(bytes),
    ensures
        atlas_of(bytes) matches Ok(a) ==> {
            &&& forall|k: int| 0 <= k < a.textures.len() ==> valid_utf8(#[trigger] a.textures[k])
            &&& forall|k: int| 0 <= k < a.frames.len() ==> frame_utf8(#[trigger] a.frames[k])
        },
{
    lemma_lines_utf8(bytes, 0);
    lemma_read_lines_utf8(text_lines(bytes), initial_state());
    if let Ok(st) = read_lines(text_lines(bytes), initial_state()) {
        if let Some(f) = st.current {
            if let Ok(g) = finished(f) {
                let fs = st.frames.push(g);
                assert forall|k: int| 0 <= k < fs.len() implies frame_utf8(#[trigger] fs[k]) by {
                    if k < st.frames.len() {
                        assert(fs[k] == st.frames[k]);
                    }
                }
            }
        }
    }
}

} // verus!
