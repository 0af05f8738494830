//! Reading an atlas line by line, as a state machine over the lines of the
//! text.
use vstd::prelude::*;
use vstd::string::StringSliceAdditionalSpecFns;
use crate::atlas::text::{
    copy_range, find_line_end, find_pair, find_pair_from, lemma_find_pair_from, lemma_line_end,
    lemma_rfind_before, lines_from, parse_i32, parse_i32_spec, rfind, rfind_byte, strip_cr,
    text_lines, CARRIAGE_RETURN, TAB,
};
use crate::atlas::values::{four_values, parse_values};
use crate::atlas::{Atlas, AtlasError, AtlasFrame, AtlasView, AttrKey, AttrView, FrameAttr, FrameView};

verus! {

pub const UNDERSCORE: u8 = 95;

pub const COLON: u8 = 58;

/// The bytes of the key `bounds`.
pub open spec fn bounds_key() -> Seq<u8> {
    seq![98u8, 111u8, 117u8, 110u8, 100u8, 115u8]
}

/// The bytes of the key `offsets`.
pub open spec fn offsets_key() -> Seq<u8> {
    seq![111u8, 102u8, 102u8, 115u8, 101u8, 116u8, 115u8]
}

/// Where the reading of an atlas stands after some lines: the texture of
/// each page met so far, the finished frames, whether a page is open, and the
/// frame being read, if any.
#[verifier::ext_equal]
pub struct ReadState {
    pub textures: Seq<Seq<u8>>,
    pub frames: Seq<FrameView>,
    pub in_page: bool,
    pub current: Option<FrameView>,
}

/// The state before the first line.
pub open spec fn initial_state() -> ReadState {
    ReadState { textures: seq![], frames: seq![], in_page: false, current: None }
}

/// The frame that the name line `line` starts on page `page`: the animation is
/// what precedes the last `_`, the index what follows it.
pub open spec fn frame_from_name(line: Seq<u8>, page: int) -> Result<FrameView, AtlasError> {
    match rfind(line, UNDERSCORE) {
        None => Err(AtlasError::MissingUnderscore),
        Some(i) => match parse_i32_spec(line.subrange(i + 1, line.len() as int)) {
            None => Err(AtlasError::BadFrameIndex),
            Some(n) => if i == 0 {
                Err(AtlasError::EmptyAnimationName)
            } else if n < 0 || n >= i32::MAX {
                Err(AtlasError::FrameIndexOutOfRange)
            } else {
                Ok(FrameView { page, anim_name: line.subrange(0, i), index: n, attrs: seq![] })
            },
        },
    }
}

/// The attribute that an attribute line writes after its tab: `key: values`.
pub open spec fn attr_from_line(rest: Seq<u8>) -> Result<AttrView, AtlasError> {
    match find_pair_from(rest, COLON, 32, 0) {
        None => Err(AtlasError::MissingKeySeparator),
        Some(i) => match four_values(rest.subrange(i + 2, rest.len() as int)) {
            Err(e) => Err(e),
            Ok(values) => {
                let key = rest.subrange(0, i);
                if key == bounds_key() {
                    Ok(AttrView { key: AttrKey::Bounds, values })
                } else if key == offsets_key() {
                    Ok(AttrView { key: AttrKey::Offsets, values })
                } else {
                    Err(AtlasError::UnknownKey)
                }
            },
        },
    }
}

/// Whether frame `f` has an attribute with key `key`.
pub open spec fn has_attr(f: FrameView, key: AttrKey) -> bool {
    exists|k: int| 0 <= k < f.attrs.len() && (#[trigger] f.attrs[k]).key == key
}

/// A frame at its end: it must have been given bounds and offsets.
pub open spec fn finished(f: FrameView) -> Result<FrameView, AtlasError> {
    if !has_attr(f, AttrKey::Bounds) {
        Err(AtlasError::MissingBounds)
    } else if !has_attr(f, AttrKey::Offsets) {
        Err(AtlasError::MissingOffsets)
    } else {
        Ok(f)
    }
}

/// The state after reading `line` in state `st`.
pub open spec fn read_line(st: ReadState, line: Seq<u8>) -> Result<ReadState, AtlasError> {
    if !st.in_page {
        Ok(ReadState { textures: st.textures.push(line), in_page: true, ..st })
    } else {
        match st.current {
            None => if line.len() == 0 || line[0] >= 128 {
                Err(AtlasError::BadLineStart)
            } else if line[0] == TAB {
                Ok(st)
            } else {
                match frame_from_name(line, st.textures.len() - 1) {
                    Ok(f) => Ok(ReadState { current: Some(f), ..st }),
                    Err(e) => Err(e),
                }
            },
            Some(f) => if line.len() == 0 {
                match finished(f) {
                    Ok(g) => Ok(
                        ReadState { frames: st.frames.push(g), in_page: false, current: None, ..st },
                    ),
                    Err(e) => Err(e),
                }
            } else if line[0] >= 128 {
                Err(AtlasError::BadLineStart)
            } else if line[0] == TAB {
                match attr_from_line(line.drop_first()) {
                    Ok(a) => Ok(
                        ReadState { current: Some(FrameView { attrs: f.attrs.push(a), ..f }), ..st },
                    ),
                    Err(e) => Err(e),
                }
            } else {
                match finished(f) {
                    Err(e) => Err(e),
                    Ok(g) => match frame_from_name(line, st.textures.len() - 1) {
                        Ok(h) => Ok(
                            ReadState { frames: st.frames.push(g), current: Some(h), ..st },
                        ),
                        Err(e) => Err(e),
                    },
                }
            },
        }
    }
}

/// The state after reading `lines` in order, from state `st`.
pub open spec fn read_lines(lines: Seq<Seq<u8>>, st: ReadState) -> Result<ReadState, AtlasError>
    decreases lines.len(),
{
    if lines.len() == 0 {
        Ok(st)
    } else {
        match read_line(st, lines[0]) {
            Ok(next) => read_lines(lines.drop_first(), next),
            Err(e) => Err(e),
        }
    }
}

/// The atlas that the text with UTF-8 encoding `bytes` describes: all its
/// lines are read, and the text must end inside a frame, which is finished.
pub open spec fn atlas_of(bytes: Seq<u8>) -> Result<AtlasView, AtlasError> {
    match read_lines(text_lines(bytes), initial_state()) {
        Err(e) => Err(e),
        Ok(st) => match st.current {
            None => Err(AtlasError::UnfinishedFrame),
            Some(f) => match finished(f) {
                Ok(g) => Ok(AtlasView { textures: st.textures, frames: st.frames.push(g) }),
                Err(e) => Err(e),
            },
        },
    }
}

struct Reader {
    textures: Vec<Vec<u8>>,
    frames: Vec<AtlasFrame>,
    in_page: bool,
    current: Option<AtlasFrame>,
}

impl View for Reader {
    type V = ReadState;

    closed spec fn view(&self) -> ReadState {
        ReadState {
            textures: self.textures@.map_values(|t: Vec<u8>| t@),
            frames: self.frames@.map_values(|f: AtlasFrame| f@),
            in_page: self.in_page,
            current: match self.current {
                Some(f) => Some(f@),
                None => None,
            },
        }
    }
}

impl Reader {
    spec fn wf(&self) -> bool {
        &&& self.in_page ==> self.textures@.len() > 0
        &&& self.current is Some ==> self.in_page
    }
}

/// The attribute key that `k` names, if any.
fn key_of(k: &[u8]) -> (r: Option<AttrKey>)
    ensures
        r == (if k@ == bounds_key() {
            Some(AttrKey::Bounds)
        } else if k@ == offsets_key() {
            Some(AttrKey::Offsets)
        } else {
            None::<AttrKey>
        }),
{
    if k.len() == 6 && k[0] == 98 && k[1] == 111 && k[2] == 117 && k[3] == 110 && k[4] == 100
        && k[5] == 115 {
        assert(k@ =~= bounds_key());
        Some(AttrKey::Bounds)
    } else if k.len() == 7 && k[0] == 111 && k[1] == 102 && k[2] == 102 && k[3] == 115 && k[4]
        == 101 && k[5] == 116 && k[6] == 115 {
        assert(k@ =~= offsets_key());
        assert(k@ != bounds_key());
        Some(AttrKey::Offsets)
    } else {
        assert(k@ != bounds_key() && k@ != offsets_key()) by {
            if k@ == bounds_key() {
                assert(k@[0] == 98 && k@[1] == 111 && k@[2] == 117 && k@[3] == 110 && k@[4] == 100
                    && k@[5] == 115);
            }
            if k@ == offsets_key() {
                assert(k@[0] == 111 && k@[1] == 102 && k@[2] == 102 && k@[3] == 115 && k@[4] == 101
                    && k@[5] == 116 && k@[6] == 115);
            }
        }
        None
    }
}

/// The frame that the name line `line` starts on page `page`.
fn read_frame_name(line: &[u8], page: usize) -> (r: Result<AtlasFrame, AtlasError>)
    ensures
        r matches Ok(f) ==> frame_from_name(line@, page as int) == Ok::<FrameView, AtlasError>(f@),
        r matches Err(e) ==> frame_from_name(line@, page as int) == Err::<FrameView, AtlasError>(e),
{
    proof {
        lemma_rfind_before(line@, UNDERSCORE, line@.len() as int);
    }
    match rfind_byte(line, UNDERSCORE) {
        None => Err(AtlasError::MissingUnderscore),
        Some(i) => {
            let n = line.len();
            let suffix = &line[i + 1..n];
            match parse_i32(suffix) {
                None => Err(AtlasError::BadFrameIndex),
                Some(n) => {
                    if i == 0 {
                        Err(AtlasError::EmptyAnimationName)
                    } else if n < 0 || n == i32::MAX {
                        Err(AtlasError::FrameIndexOutOfRange)
                    } else {
                        let name = copy_range(line, 0, i);
                        let f = AtlasFrame { page, anim_name: name, index: n, attrs: Vec::new() };
                        assert(f@.attrs =~= Seq::<AttrView>::empty());
                        Ok(f)
                    }
                },
            }
        },
    }
}

/// The attribute that an attribute line writes after its tab.
fn read_attr(rest: &[u8]) -> (r: Result<FrameAttr, AtlasError>)
    ensures
        r matches Ok(a) ==> attr_from_line(rest@) == Ok::<AttrView, AtlasError>(a@),
        r matches Err(e) ==> attr_from_line(rest@) == Err::<AttrView, AtlasError>(e),
{
    proof {
        lemma_find_pair_from(rest@, COLON, 32, 0);
    }
    match find_pair(rest, COLON, 32, 0) {
        None => Err(AtlasError::MissingKeySeparator),
        Some(i) => {
            let n = rest.len();
            let key = &rest[0..i];
            let vals = &rest[i + 2..n];
            match parse_values(vals) {
                Err(e) => Err(e),
                Ok(a) => match key_of(key) {
                    None => Err(AtlasError::UnknownKey),
                    Some(k) => {
                        let fa = FrameAttr { key: k, values: a };
                        proof {
                            let parts = four_values(vals@)->Ok_0;
                            assert(fa@.values =~= parts);
                        }
                        Ok(fa)
                    },
                },
            }
        },
    }
}

/// Whether frame `f` has an attribute with key `key`.
fn has_key(f: &AtlasFrame, key: AttrKey) -> (b: bool)
    ensures
        b == has_attr(f@, key),
{
    let mut k: usize = 0;
    while k < f.attrs.len()
        invariant
            k <= f.attrs@.len(),
            forall|m: int| 0 <= m < k ==> f.attrs@[m].key != key,
        decreases f.attrs@.len() - k,
    {
        if f.attrs[k].key == key {
            assert(f@.attrs[k as int].key == key);
            return true;
        }
        k = k + 1;
    }
    assert forall|m: int| 0 <= m < f@.attrs.len() implies (#[trigger] f@.attrs[m]).key != key by {
        assert(f@.attrs[m] == f.attrs@[m]@);
    }
    false
}

/// The frame `f` at its end.
fn finish(f: AtlasFrame) -> (r: Result<AtlasFrame, AtlasError>)
    ensures
        r matches Ok(g) ==> finished(f@) == Ok::<FrameView, AtlasError>(g@),
        r matches Err(e) ==> finished(f@) == Err::<FrameView, AtlasError>(e),
{
    if !has_key(&f, AttrKey::Bounds) {
        Err(AtlasError::MissingBounds)
    } else if !has_key(&f, AttrKey::Offsets) {
        Err(AtlasError::MissingOffsets)
    } else {
        Ok(f)
    }
}

/// The reader after reading `line`.
fn read_one_line(st: Reader, line: &[u8]) -> (r: Result<Reader, AtlasError>)
    requires
        st.wf(),
    ensures
        r matches Ok(next) ==> next.wf() && read_line(st@, line@) == Ok::<ReadState, AtlasError>(
            next@,
        ),
        r matches Err(e) ==> read_line(st@, line@) == Err::<ReadState, AtlasError>(e),
{
    let ghost old_view = st@;
    let Reader { mut textures, mut frames, in_page, current } = st;
    if !in_page {
        let name = copy_range(line, 0, line.len());
        assert(name@ =~= line@);
        textures.push(name);
        let next = Reader { textures, frames, in_page: true, current: None };
        assert(next@.textures =~= old_view.textures.push(line@));
        assert(next@.frames =~= old_view.frames);
        return Ok(next);
    }
    let page = textures.len() - 1;
    match current {
        None => {
            if line.len() == 0 || line[0] >= 128 {
                Err(AtlasError::BadLineStart)
            } else if line[0] == TAB {
                let next = Reader { textures, frames, in_page, current: None };
                assert(next@ =~= old_view);
                Ok(next)
            } else {
                match read_frame_name(line, page) {
                    Ok(f) => {
                        let next = Reader { textures, frames, in_page, current: Some(f) };
                        assert(next@.textures =~= old_view.textures);
                        assert(next@.frames =~= old_view.frames);
                        Ok(next)
                    },
                    Err(e) => Err(e),
                }
            }
        },
        Some(f) => {
            if line.len() == 0 {
                match finish(f) {
                    Ok(g) => {
                        frames.push(g);
                        let next = Reader { textures, frames, in_page: false, current: None };
                        assert(next@.textures =~= old_view.textures);
                        assert(next@.frames =~= old_view.frames.push(g@));
                        Ok(next)
                    },
                    Err(e) => Err(e),
                }
            } else if line[0] >= 128 {
                Err(AtlasError::BadLineStart)
            } else if line[0] == TAB {
                let rest = &line[1..line.len()];
                assert(rest@ =~= line@.drop_first());
                match read_attr(rest) {
                    Ok(a) => {
                        let ghost fv = f@;
                        let ghost av = a@;
                        let AtlasFrame { page: fpage, anim_name, index, mut attrs } = f;
                        attrs.push(a);
                        let g = AtlasFrame { page: fpage, anim_name, index, attrs };
                        assert(g@.attrs =~= fv.attrs.push(av));
                        let next = Reader { textures, frames, in_page, current: Some(g) };
                        assert(next@.textures =~= old_view.textures);
                        assert(next@.frames =~= old_view.frames);
                        Ok(next)
                    },
                    Err(e) => Err(e),
                }
            } else {
                match finish(f) {
                    Err(e) => Err(e),
                    Ok(g) => match read_frame_name(line, page) {
                        Ok(h) => {
                            frames.push(g);
                            let next = Reader { textures, frames, in_page, current: Some(h) };
                            assert(next@.textures =~= old_view.textures);
                            assert(next@.frames =~= old_view.frames.push(g@));
                            Ok(next)
                        },
                        Err(e) => Err(e),
                    },
                }
            }
        },
    }
}

/// The atlas that `contents` describes.
pub fn parse_atlas(contents: &str) -> (r: Result<Atlas, AtlasError>)
    ensures
        r matches Ok(a) ==> atlas_of(contents.spec_bytes()) == Ok::<AtlasView, AtlasError>(a@),
        r matches Err(e) ==> atlas_of(contents.spec_bytes()) == Err::<AtlasView, AtlasError>(e),
{
    let s = contents.as_bytes();
    let ghost all = text_lines(s@);
    let mut st = Reader { textures: Vec::new(), frames: Vec::new(), in_page: false, current: None };
    assert(st@ =~= initial_state());
    let mut pos: usize = 0;
    while pos < s.len()
        invariant
            pos <= s@.len(),
            st.wf(),
            all == text_lines(s@),
            s@ == contents.spec_bytes(),
            read_lines(lines_from(s@, pos as int), st@) == read_lines(all, initial_state()),
        decreases s@.len() - pos,
    {
        let e = find_line_end(s, pos);
        proof {
            lemma_line_end(s@, pos as int);
        }
        let hi = if e < s.len() && e > pos && s[e - 1] == CARRIAGE_RETURN {
            e - 1
        } else {
            e
        };
        let line = &s[pos..hi];
        let next_pos = if e < s.len() {
            e + 1
        } else {
            s.len()
        };
        let ghost rest = lines_from(s@, next_pos as int);
        proof {
            if e < s.len() {
                assert(line@ =~= strip_cr(s@.subrange(pos as int, e as int)));
            } else {
                assert(line@ =~= s@.subrange(pos as int, s@.len() as int));
                assert(rest =~= Seq::<Seq<u8>>::empty());
            }
            assert(lines_from(s@, pos as int) =~= seq![line@] + rest);
            assert((seq![line@] + rest).drop_first() =~= rest);
        }
        let ghost st_view = st@;
        assert(read_lines(lines_from(s@, pos as int), st_view) == match read_line(st_view, line@) {
            Ok(next) => read_lines(rest, next),
            Err(e) => Err(e),
        });
        match read_one_line(st, line) {
            Ok(next) => {
                st = next;
            },
            Err(err) => {
                return Err(err);
            },
        }
        pos = next_pos;
    }
    let Reader { textures, mut frames, in_page, current } = st;
    let ghost fin = st@;
    match current {
        None => Err(AtlasError::UnfinishedFrame),
        Some(f) => match finish(f) {
            Err(e) => Err(e),
            Ok(g) => {
                frames.push(g);
                let a = Atlas { textures, frames };
                assert(a@.textures =~= fin.textures);
                assert(a@.frames =~= fin.frames.push(g@));
                Ok(a)
            },
        },
    }
}

/// On every page, a line that starts with a tab before the page's first frame
/// is a page setting and is skipped: whatever was read before, including the
/// frames of earlier pages, reading it leaves the state as it was, and reading
/// it followed by more lines is the same as reading the more lines alone.
pub proof fn lemma_page_setting_skipped(st: ReadState, line: Seq<u8>, rest: Seq<Seq<u8>>)
    requires
        st.in_page,
        st.current is None,
        line.len() > 0,
        line[0] == TAB,
    ensures
        read_line(st, line) == Ok::<ReadState, AtlasError>(st),
        read_lines(seq![line] + rest, st) == read_lines(rest, st),
{
    assert((seq![line] + rest)[0] == line);
    assert((seq![line] + rest).drop_first() =~= rest);
}

} // verus!
