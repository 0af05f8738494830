//! Where the files of an atlas import are: the directory of the atlas, the
//! sprite frames resource beside it, the texture of each page, and the
//! resource that the import itself saves.
use vstd::prelude::*;
use vstd::string::StringSliceAdditionalSpecFns;
use vstd::utf8::valid_utf8;
use crate::atlas::encoding::{lemma_ascii_valid, lemma_cut_valid, lemma_join_valid};
use crate::atlas::text::{copy_range, lemma_rfind_before, rfind, rfind_byte};
use crate::atlas::AtlasError;

verus! {

pub const SLASH: u8 = 47;

/// The bytes of `.atlas`.
pub open spec fn atlas_suffix() -> Seq<u8> {
    seq![46u8, 97u8, 116u8, 108u8, 97u8, 115u8]
}

/// The bytes of `.sprite_frames.tres`.
pub open spec fn sprite_frames_suffix() -> Seq<u8> {
    seq![
        46u8, 115u8, 112u8, 114u8, 105u8, 116u8, 101u8, 95u8, 102u8, 114u8, 97u8, 109u8, 101u8,
        115u8, 46u8, 116u8, 114u8, 101u8, 115u8,
    ]
}

/// The bytes of `.res`: the extension of the resource an import saves.
pub open spec fn saved_resource_suffix() -> Seq<u8> {
    seq![46u8, 114u8, 101u8, 115u8]
}

/// Where the files of an import are: the directory of the atlas, with its
/// final `/`, and the sprite frames resource written beside the atlas.
pub struct AtlasPaths {
    pub directory: Vec<u8>,
    pub sprite_frames: Vec<u8>,
}

/// The paths of an import from the path of the atlas file.
pub open spec fn atlas_paths_of(path: Seq<u8>) -> Result<(Seq<u8>, Seq<u8>), AtlasError> {
    let n = path.len();
    if n < 6 || path.subrange(n - 6, n as int) != atlas_suffix() {
        Err(AtlasError::NotAnAtlasPath)
    } else {
        let stem = path.subrange(0, n - 6);
        match rfind(stem, SLASH) {
            None => Err(AtlasError::NoDirectory),
            Some(d) => Ok((path.subrange(0, d + 1), stem + sprite_frames_suffix())),
        }
    }
}

/// `base` followed by the bytes of `suffix`.
fn append_bytes(base: &[u8], suffix: &[u8]) -> (v: Vec<u8>)
    ensures
        v@ == base@ + suffix@,
{
    let mut v = copy_range(base, 0, base.len());
    assert(v@ =~= base@);
    let mut k: usize = 0;
    while k < suffix.len()
        invariant
            k <= suffix@.len(),
            v@ == base@ + suffix@.subrange(0, k as int),
        decreases suffix@.len() - k,
    {
        v.push(suffix[k]);
        k = k + 1;
        assert(v@ =~= base@ + suffix@.subrange(0, k as int));
    }
    assert(suffix@.subrange(0, k as int) =~= suffix@);
    v
}

/// The directory of the atlas at `path` and the path of the sprite frames
/// resource beside it; an error when `path` does not end in `.atlas` or has
/// no directory.
pub fn atlas_paths(path: &str) -> (r: Result<AtlasPaths, AtlasError>)
    ensures
        r matches Ok(p) ==> atlas_paths_of(path.spec_bytes()) == Ok::<(Seq<u8>, Seq<u8>), AtlasError>(
            (p.directory@, p.sprite_frames@),
        ),
        r matches Err(e) ==> atlas_paths_of(path.spec_bytes()) == Err::<(Seq<u8>, Seq<u8>), AtlasError>(e),
{
    let s = path.as_bytes();
    let n = s.len();
    if n < 6 || !(s[n - 6] == 46 && s[n - 5] == 97 && s[n - 4] == 116 && s[n - 3] == 108 && s[n
        - 2] == 97 && s[n - 1] == 115) {
        proof {
            if n >= 6 && s@.subrange(n - 6, n as int) == atlas_suffix() {
                assert(s@.subrange(n - 6, n as int)[0] == s@[n - 6]);
                assert(s@.subrange(n - 6, n as int)[1] == s@[n - 5]);
                assert(s@.subrange(n - 6, n as int)[2] == s@[n - 4]);
                assert(s@.subrange(n - 6, n as int)[3] == s@[n - 3]);
                assert(s@.subrange(n - 6, n as int)[4] == s@[n - 2]);
                assert(s@.subrange(n - 6, n as int)[5] == s@[n - 1]);
            }
        }
        return Err(AtlasError::NotAnAtlasPath);
    }
    assert(s@.subrange(n - 6, n as int) =~= atlas_suffix());
    let stem = &s[0..n - 6];
    match rfind_byte(stem, SLASH) {
        None => Err(AtlasError::NoDirectory),
        Some(d) => {
            let directory = copy_range(stem, 0, d + 1);
            assert(directory@ =~= s@.subrange(0, d + 1));
            let suffix: Vec<u8> = vec![
                46u8, 115u8, 112u8, 114u8, 105u8, 116u8, 101u8, 95u8, 102u8, 114u8, 97u8, 109u8,
                101u8, 115u8, 46u8, 116u8, 114u8, 101u8, 115u8,
            ];
            assert(suffix@ =~= sprite_frames_suffix());
            let sprite_frames = append_bytes(stem, suffix.as_slice());
            Ok(AtlasPaths { directory, sprite_frames })
        },
    }
}

/// The path of the texture file `name` of a page: the atlas directory
/// followed by the name.
pub fn texture_path(paths: &AtlasPaths, name: &[u8]) -> (v: Vec<u8>)
    ensures
        v@ == paths.directory@ + name@,
{
    append_bytes(paths.directory.as_slice(), name)
}

/// The path of the resource that an import saves: the stem it is given,
/// followed by `.res`.
pub fn saved_resource_path(stem: &str) -> (v: Vec<u8>)
    ensures
        v@ == stem.spec_bytes() + saved_resource_suffix(),
{
    let suffix: Vec<u8> = vec![46u8, 114u8, 101u8, 115u8];
    assert(suffix@ =~= saved_resource_suffix());
    append_bytes(stem.as_bytes(), suffix.as_slice())
}

/// Cut from a UTF-8 path next to ASCII bytes and joined with ASCII
/// suffixes, the paths of an import are valid UTF-8 and convert back to
/// strings; so is a texture path made of the directory and a UTF-8 name.
pub proof fn lemma_paths_utf8(path: Seq<u8>, name: Seq<u8>)
    requires
        valid_utf8(path),
        valid_utf8(name),
    ensures
        atlas_paths_of(path) matches Ok((dir, sprite_frames)) ==> valid_utf8(dir) && valid_utf8(
            sprite_frames,
        ) && valid_utf8(dir + name),
        valid_utf8(path + saved_resource_suffix()),
{
    lemma_ascii_valid(saved_resource_suffix());
    lemma_join_valid(path, saved_resource_suffix());
    let n = path.len();
    if n >= 6 && path.subrange(n - 6, n as int) == atlas_suffix() {
        let stem = path.subrange(0, n - 6);
        assert(path[n - 6] == path.subrange(n - 6, n as int)[0]);
        lemma_cut_valid(path, 0, n - 6);
        lemma_ascii_valid(sprite_frames_suffix());
        lemma_join_valid(stem, sprite_frames_suffix());
        lemma_rfind_before(stem, SLASH, stem.len() as int);
        if let Some(d) = rfind(stem, SLASH) {
            assert(path[d] == stem[d]);
            lemma_cut_valid(path, 0, d + 1);
            lemma_join_valid(path.subrange(0, d + 1), name);
        }
    }
}

/// The import paths of an atlas: for a path that ends in `.atlas` and whose
/// stem (the path without `.atlas`) has its last `/` at `d`, the directory is
/// the path up to and including that `/`, and the sprite frames resource is the
/// stem followed by `.sprite_frames.tres`. This holds wherever the last `/`
/// stands, also right after another `/` as in `res://hero.atlas`.
pub proof fn lemma_atlas_paths_found(path: Seq<u8>, d: int)
    requires
        path.len() >= 6,
        path.subrange(path.len() - 6, path.len() as int) == seq![46u8, 97u8, 116u8, 108u8, 97u8, 115u8],
        0 <= d < path.len() - 6,
        path[d] == SLASH,
        forall|m: int| d < m < path.len() - 6 ==> path[m] != SLASH,
    ensures
        atlas_paths_of(path) == Ok::<(Seq<u8>, Seq<u8>), AtlasError>(
            (
                path.subrange(0, d + 1),
                path.subrange(0, path.len() - 6) + seq![
                    46u8, 115u8, 112u8, 114u8, 105u8, 116u8, 101u8, 95u8, 102u8, 114u8, 97u8,
                    109u8, 101u8, 115u8, 46u8, 116u8, 114u8, 101u8, 115u8,
                ],
            ),
        ),
{
    let n = path.len() as int;
    let stem = path.subrange(0, n - 6);
    lemma_rfind_before(stem, SLASH, stem.len() as int);
    assert(stem[d] == SLASH);
    match rfind(stem, SLASH) {
        None => {},
        Some(k) => {
            if k < d {
                assert(stem[d] != SLASH);
            }
            if k > d {
                assert(path[k] == stem[k]);
            }
        },
    }
    assert(sprite_frames_suffix() =~= seq![
        46u8, 115u8, 112u8, 114u8, 105u8, 116u8, 101u8, 95u8, 102u8, 114u8, 97u8, 109u8, 101u8,
        115u8, 46u8, 116u8, 114u8, 101u8, 115u8,
    ]);
}

/// An import fails only where it must: `NotAnAtlasPath` exactly when the path
/// does not end in `.atlas`, and `NoDirectory` exactly when it does but its
/// stem has no `/`.
pub proof fn lemma_atlas_paths_errors(path: Seq<u8>)
    ensures
        (atlas_paths_of(path) == Err::<(Seq<u8>, Seq<u8>), AtlasError>(AtlasError::NotAnAtlasPath))
            <==> !(path.len() >= 6 && path.subrange(path.len() - 6, path.len() as int) == seq![
            46u8, 97u8, 116u8, 108u8, 97u8, 115u8,
        ]),
        (atlas_paths_of(path) == Err::<(Seq<u8>, Seq<u8>), AtlasError>(AtlasError::NoDirectory))
            <==> (path.len() >= 6 && path.subrange(path.len() - 6, path.len() as int) == seq![
            46u8, 97u8, 116u8, 108u8, 97u8, 115u8,
        ] && forall|m: int| 0 <= m < path.len() - 6 ==> path[m] != SLASH),
{
    let n = path.len() as int;
    assert(atlas_suffix() =~= seq![46u8, 97u8, 116u8, 108u8, 97u8, 115u8]);
    if n >= 6 {
        let stem = path.subrange(0, n - 6);
        lemma_rfind_before(stem, SLASH, stem.len() as int);
        if let Some(k) = rfind(stem, SLASH) {
            assert(path[k] == stem[k]);
        } else {
            assert forall|m: int| 0 <= m < n - 6 implies path[m] != SLASH by {
                assert(path[m] == stem[m]);
            }
        }
    }
}

} // verus!
