//! The binary container grammar: a four-byte magic and a version number,
//! then a tree of length-prefixed chunks. The outer `MAIN` chunk wraps an
//! optional `PACK` model count (default one), that many `SIZE`/`XYZI`
//! pairs, and an optional `RGBA` palette chunk; a missing or unusable
//! palette chunk falls back to the compiled-in default table. Positions and
//! grid sizes are stored axis-swapped, like the text grammar's.

use vstd::prelude::*;
use crate::color::Color;
use crate::error::ParseError;
use crate::palette::{chunk_palette, chunk_palette_seq, default_palette, default_palette_seq};
use crate::scene::{assemble_scene, Scene, SceneModel, Vec3u, Voxel, swizzle, swizzled};

verus! {

/// The little-endian 32-bit value of the four bytes at `i`.
pub open spec fn le32_at(s: Seq<u8>, i: int) -> int {
    s[i] + s[i + 1] * 0x100 + s[i + 2] * 0x10000 + s[i + 3] * 0x1000000
}

/// The four bytes `t0 t1 t2 t3` stand at position `i`.
pub open spec fn tag_at(s: Seq<u8>, i: int, t0: u8, t1: u8, t2: u8, t3: u8) -> bool {
    &&& 0 <= i
    &&& i + 4 <= s.len()
    &&& s[i] == t0
    &&& s[i + 1] == t1
    &&& s[i + 2] == t2
    &&& s[i + 3] == t3
}

/// One chunk header at `i`: the expected four-byte tag, a content length
/// and a children length, followed by that much content. Yields the content
/// length, the children length and the content's start position; the chunk
/// ends at start + content length. Too few bytes for the header or the
/// declared content is a truncation; a differing tag is a tag mismatch.
pub open spec fn spec_chunk(s: Seq<u8>, i: int, t0: u8, t1: u8, t2: u8, t3: u8) -> Result<
    (int, int, int),
    ParseError,
> {
    if i + 4 > s.len() {
        Err(ParseError::TruncatedInput)
    } else if !tag_at(s, i, t0, t1, t2, t3) {
        Err(ParseError::UnexpectedChunkTag)
    } else if i + 12 > s.len() {
        Err(ParseError::TruncatedInput)
    } else if i + 12 + le32_at(s, i + 4) > s.len() {
        Err(ParseError::TruncatedInput)
    } else {
        Ok((le32_at(s, i + 4), le32_at(s, i + 8), i + 12))
    }
}

/// A `SIZE` chunk: no children, content of exactly three little-endian
/// dimensions, stored axis-swapped. Residual content bytes are an error.
pub open spec fn spec_size(s: Seq<u8>, i: int) -> Result<(Vec3u, int), ParseError> {
    match spec_chunk(s, i, 83, 73, 90, 69) {  // S I Z E
        Err(e) => Err(e),
        Ok((clen, children, body)) => if children != 0 {
            Err(ParseError::NonEmptyLeafChunk)
        } else if clen < 12 {
            Err(ParseError::TruncatedInput)
        } else if clen != 12 {
            Err(ParseError::NonEmptyLeafChunk)
        } else {
            Ok(
                (
                    swizzled(
                        le32_at(s, body) as u32,
                        le32_at(s, body + 4) as u32,
                        le32_at(s, body + 8) as u32,
                    ),
                    body + 12,
                ),
            )
        },
    }
}

/// The voxel record of four bytes at `o`: position X, Z, Y (stored
/// axis-swapped) and a palette color index.
pub open spec fn vox_voxel(s: Seq<u8>, o: int) -> Voxel {
    Voxel {
        pos: swizzled(s[o] as u32, s[o + 1] as u32, s[o + 2] as u32),
        color: s[o + 3] as u32,
    }
}

/// One model: a `SIZE` chunk, then an `XYZI` chunk whose content holds a
/// voxel count and that many four-byte voxel records. Neither chunk may
/// declare children; residual content bytes after the records are ignored.
pub open spec fn spec_model(s: Seq<u8>, i: int) -> Result<((Vec3u, Seq<Voxel>), int), ParseError> {
    match spec_size(s, i) {
        Err(e) => Err(e),
        Ok((grid, p)) => match spec_chunk(s, p, 88, 89, 90, 73) {  // X Y Z I
            Err(e) => Err(e),
            Ok((clen, children, body)) => if children != 0 {
                Err(ParseError::NonEmptyLeafChunk)
            } else if clen < 4 {
                Err(ParseError::TruncatedInput)
            } else if 4 + 4 * le32_at(s, body) > clen {
                Err(ParseError::TruncatedInput)
            } else {
                Ok(
                    (
                        (
                            grid,
                            Seq::new(
                                le32_at(s, body) as nat,
                                |j: int| vox_voxel(s, body + 4 + 4 * j),
                            ),
                        ),
                        body + clen,
                    ),
                )
            },
        },
    }
}

/// Exactly `k` consecutive models.
pub open spec fn spec_models(s: Seq<u8>, i: int, k: nat) -> Result<
    (Seq<(Vec3u, Seq<Voxel>)>, int),
    ParseError,
>
    decreases k,
{
    if k == 0 {
        Ok((Seq::empty(), i))
    } else {
        match spec_model(s, i) {
            Err(e) => Err(e),
            Ok((m, j)) => match spec_models(s, j, (k - 1) as nat) {
                Err(e) => Err(e),
                Ok((ms, j2)) => Ok((seq![m] + ms, j2)),
            },
        }
    }
}

/// The optional `PACK` chunk at `i`: absent (no `PACK` tag) means one model
/// and nothing consumed; present, it must carry no children and a content
/// of at least four bytes holding the model count.
pub open spec fn spec_pack(s: Seq<u8>, i: int) -> Result<(int, int), ParseError> {
    if !tag_at(s, i, 80, 65, 67, 75) {  // P A C K
        Ok((1, i))
    } else {
        match spec_chunk(s, i, 80, 65, 67, 75) {
            Err(e) => Err(e),
            Ok((clen, children, body)) => if children != 0 {
                Err(ParseError::NonEmptyLeafChunk)
            } else if clen < 4 {
                Err(ParseError::TruncatedInput)
            } else {
                Ok((le32_at(s, body), body + clen))
            },
        }
    }
}

/// The palette in force after the models: a well-formed `RGBA` chunk at `i`
/// (no children, content of at least 255 four-byte entries) resolves
/// shifted by one; anything else falls back to the default table.
pub open spec fn spec_palette(s: Seq<u8>, i: int) -> Seq<Color> {
    match spec_chunk(s, i, 82, 71, 66, 65) {  // R G B A
        Ok((clen, children, body)) => if children == 0 && clen >= 1020 {
            chunk_palette_seq(s, body)
        } else {
            default_palette_seq()
        },
        Err(_) => default_palette_seq(),
    }
}

/// Each parsed model joined with the one palette into a scene value.
pub open spec fn scenes_of(ms: Seq<(Vec3u, Seq<Voxel>)>, pal: Seq<Color>) -> Seq<SceneModel> {
    Seq::new(
        ms.len(),
        |j: int| SceneModel { voxels: ms[j].1, colors: pal, grid_size: ms[j].0 },
    )
}

/// The views of a list of scenes.
pub open spec fn scene_views(v: Seq<Scene>) -> Seq<SceneModel> {
    Seq::new(v.len(), |j: int| v[j]@)
}

/// The `MAIN` chunk and everything under it: empty content, a nonzero
/// children length (else the archive has room for no model at all), the
/// optional `PACK` count (zero declared models is an error), that many
/// models, and the palette.
pub open spec fn spec_main(s: Seq<u8>, i: int) -> Result<Seq<SceneModel>, ParseError> {
    match spec_chunk(s, i, 77, 65, 73, 78) {  // M A I N
        Err(e) => Err(e),
        Ok((clen, children, body)) => if clen != 0 {
            Err(ParseError::NonEmptyLeafChunk)
        } else if children == 0 {
            Err(ParseError::EmptyPack)
        } else {
            match spec_pack(s, body) {
                Err(e) => Err(e),
                Ok((cnt, p)) => if cnt == 0 {
                    Err(ParseError::EmptyPack)
                } else {
                    match spec_models(s, p, cnt as nat) {
                        Err(e) => Err(e),
                        Ok((ms, q)) => Ok(scenes_of(ms, spec_palette(s, q))),
                    }
                },
            }
        },
    }
}

/// The whole binary grammar: the magic bytes `VOX `, the version (exactly
/// 150), then the `MAIN` chunk.
pub open spec fn vox_parse(s: Seq<u8>) -> Result<Seq<SceneModel>, ParseError> {
    if s.len() < 4 {
        Err(ParseError::TruncatedInput)
    } else if !tag_at(s, 0, 86, 79, 88, 32) {  // V O X space
        Err(ParseError::UnexpectedChunkTag)
    } else if s.len() < 8 {
        Err(ParseError::TruncatedInput)
    } else if le32_at(s, 4) != 150 {
        Err(ParseError::UnsupportedVersion)
    } else {
        spec_main(s, 8)
    }
}

/// Four bytes read little-endian lie between 0 and the 32-bit maximum.
pub proof fn lemma_le32_bounds(s: Seq<u8>, i: int)
    requires
        0 <= i,
        i + 4 <= s.len(),
    ensures
        0 <= le32_at(s, i) <= u32::MAX,
{
}

/// Reads a little-endian 32-bit value.
fn read_le32(s: &[u8], i: usize) -> (v: u32)
    requires
        i + 4 <= s@.len(),
    ensures
        v as int == le32_at(s@, i as int),
{
    s[i] as u32 + s[i + 1] as u32 * 0x100 + s[i + 2] as u32 * 0x10000 + s[i + 3] as u32
        * 0x1000000
}

/// Reads one chunk header and checks that its content lies within the
/// input. Yields the content length, the children length and the content's
/// start position.
fn parse_chunk(s: &[u8], i: usize, t0: u8, t1: u8, t2: u8, t3: u8) -> (r: Result<
    (u32, u32, usize),
    ParseError,
>)
    requires
        i <= s@.len(),
    ensures
        match r {
            Ok((clen, children, body)) => {
                &&& spec_chunk(s@, i as int, t0, t1, t2, t3) == Ok::<(int, int, int), ParseError>(
                    (clen as int, children as int, body as int),
                )
                &&& body == i + 12
                &&& body + clen <= s@.len()
            },
            Err(e) => spec_chunk(s@, i as int, t0, t1, t2, t3) == Err::<(int, int, int), ParseError>(
                e,
            ),
        },
{
    let n: usize = s.len();
    if n - i < 4 {
        return Err(ParseError::TruncatedInput);
    }
    if !(s[i] == t0 && s[i + 1] == t1 && s[i + 2] == t2 && s[i + 3] == t3) {
        return Err(ParseError::UnexpectedChunkTag);
    }
    if n - i < 12 {
        return Err(ParseError::TruncatedInput);
    }
    let clen = read_le32(s, i + 4);
    let children = read_le32(s, i + 8);
    if clen as usize > n - (i + 12) {
        return Err(ParseError::TruncatedInput);
    }
    Ok((clen, children, i + 12))
}

/// Reads a `SIZE` chunk into an axis-swapped grid size.
fn parse_size(s: &[u8], i: usize) -> (r: Result<(Vec3u, usize), ParseError>)
    requires
        i <= s@.len(),
    ensures
        match r {
            Ok((g, j)) => {
                &&& spec_size(s@, i as int) == Ok::<(Vec3u, int), ParseError>((g, j as int))
                &&& i < j <= s@.len()
            },
            Err(e) => spec_size(s@, i as int) == Err::<(Vec3u, int), ParseError>(e),
        },
{
    let n: usize = s.len();
    let (clen, children, body) = match parse_chunk(s, i, 83, 73, 90, 69) {
        Err(e) => { return Err(e); },
        Ok(x) => x,
    };
    if children != 0 {
        return Err(ParseError::NonEmptyLeafChunk);
    }
    if clen < 12 {
        return Err(ParseError::TruncatedInput);
    }
    proof {
        assert(body + 12 <= n);
    }
    if clen != 12 {
        return Err(ParseError::NonEmptyLeafChunk);
    }
    proof {
        lemma_le32_bounds(s@, body as int);
        lemma_le32_bounds(s@, body as int + 4);
        lemma_le32_bounds(s@, body as int + 8);
    }
    let a = read_le32(s, body);
    let b = read_le32(s, body + 4);
    let c = read_le32(s, body + 8);
    Ok((swizzle(a, b, c), body + 12))
}

/// Reads one model: a `SIZE` chunk then an `XYZI` chunk.
fn parse_model(s: &[u8], i: usize) -> (r: Result<(Vec3u, Vec<Voxel>, usize), ParseError>)
    requires
        i <= s@.len(),
    ensures
        match r {
            Ok((g, vs, j)) => {
                &&& spec_model(s@, i as int) == Ok::<((Vec3u, Seq<Voxel>), int), ParseError>(
                    ((g, vs@), j as int),
                )
                &&& i < j <= s@.len()
            },
            Err(e) => spec_model(s@, i as int) == Err::<((Vec3u, Seq<Voxel>), int), ParseError>(e),
        },
{
    let n: usize = s.len();
    let (grid, p) = match parse_size(s, i) {
        Err(e) => { return Err(e); },
        Ok(x) => x,
    };
    let (clen, children, body) = match parse_chunk(s, p, 88, 89, 90, 73) {
        Err(e) => { return Err(e); },
        Ok(x) => x,
    };
    if children != 0 {
        return Err(ParseError::NonEmptyLeafChunk);
    }
    if clen < 4 {
        return Err(ParseError::TruncatedInput);
    }
    let num = read_le32(s, body);
    if 4u64 + 4u64 * (num as u64) > clen as u64 {
        return Err(ParseError::TruncatedInput);
    }
    let mut voxels: Vec<Voxel> = Vec::new();
    let mut j: u32 = 0;
    while j < num
        invariant
            j <= num,
            n == s@.len(),
            body + 4 + 4 * num <= body + clen <= n,
            voxels@ == Seq::new(j as nat, |t: int| vox_voxel(s@, body + 4 + 4 * t)),
        decreases num - j,
    {
        let base = body + 4 + 4 * (j as usize);
        let v = Voxel {
            pos: swizzle(s[base] as u32, s[base + 1] as u32, s[base + 2] as u32),
            color: s[base + 3] as u32,
        };
        voxels.push(v);
        j = j + 1;
        proof {
            assert(voxels@ =~= Seq::new(j as nat, |t: int| vox_voxel(s@, body + 4 + 4 * t)));
        }
    }
    Ok((grid, voxels, body + clen as usize))
}

/// Reads the optional `PACK` chunk; when its tag is absent the model count
/// defaults to one and nothing is consumed.
fn parse_pack(s: &[u8], i: usize) -> (r: Result<(u32, usize), ParseError>)
    requires
        i <= s@.len(),
    ensures
        match r {
            Ok((cnt, j)) => {
                &&& spec_pack(s@, i as int) == Ok::<(int, int), ParseError>((cnt as int, j as int))
                &&& i <= j <= s@.len()
            },
            Err(e) => spec_pack(s@, i as int) == Err::<(int, int), ParseError>(e),
        },
{
    let n: usize = s.len();
    if n - i < 4 || !(s[i] == 80 && s[i + 1] == 65 && s[i + 2] == 67 && s[i + 3] == 75) {
        return Ok((1, i));
    }
    let (clen, children, body) = match parse_chunk(s, i, 80, 65, 67, 75) {
        Err(e) => { return Err(e); },
        Ok(x) => x,
    };
    if children != 0 {
        return Err(ParseError::NonEmptyLeafChunk);
    }
    if clen < 4 {
        return Err(ParseError::TruncatedInput);
    }
    proof {
        lemma_le32_bounds(s@, body as int);
    }
    let cnt = read_le32(s, body);
    Ok((cnt, body + clen as usize))
}

/// Resolves the palette at `i`: the `RGBA` chunk when it is usable, the
/// default table otherwise.
fn resolve_palette(s: &[u8], i: usize) -> (v: Vec<Color>)
    requires
        i <= s@.len(),
    ensures
        v@ == spec_palette(s@, i as int),
{
    match parse_chunk(s, i, 82, 71, 66, 65) {
        Ok((clen, children, body)) => {
            if children == 0 && clen >= 1020 {
                chunk_palette(s, body)
            } else {
                default_palette()
            }
        },
        Err(_) => default_palette(),
    }
}

/// Copies a palette so that every model of a pack can own one.
fn copy_colors(v: &Vec<Color>) -> (r: Vec<Color>)
    ensures
        r@ == v@,
{
    let mut r: Vec<Color> = Vec::new();
    let mut i: usize = 0;
    while i < v.len()
        invariant
            i <= v@.len(),
            r@ == v@.take(i as int),
        decreases v@.len() - i,
    {
        r.push(v[i]);
        i = i + 1;
        proof {
            assert(r@ =~= v@.take(i as int));
        }
    }
    proof {
        assert(r@ =~= v@);
    }
    r
}

/// Splitting a fixed repetition of models: the first `k1` followed by `k2`
/// more parse exactly when `k1 + k2` do, and yield the concatenation.
proof fn lemma_models_split(s: Seq<u8>, i: int, k1: nat, k2: nat)
    ensures
        spec_models(s, i, k1 + k2) == match spec_models(s, i, k1) {
            Err(e) => Err::<(Seq<(Vec3u, Seq<Voxel>)>, int), ParseError>(e),
            Ok((ms1, j)) => match spec_models(s, j, k2) {
                Err(e) => Err::<(Seq<(Vec3u, Seq<Voxel>)>, int), ParseError>(e),
                Ok((ms2, j2)) => Ok((ms1 + ms2, j2)),
            },
        },
    decreases k1,
{
    if k1 == 0 {
        match spec_models(s, i, k2) {
            Err(_) => {},
            Ok((ms2, j2)) => {
                assert(Seq::<(Vec3u, Seq<Voxel>)>::empty() + ms2 =~= ms2);
            },
        }
    } else {
        match spec_model(s, i) {
            Err(_) => {},
            Ok((m, j)) => {
                lemma_models_split(s, j, (k1 - 1) as nat, k2);
                match spec_models(s, j, (k1 - 1) as nat) {
                    Err(_) => {},
                    Ok((ms1, j1)) => {
                        match spec_models(s, j1, k2) {
                            Err(_) => {},
                            Ok((ms2, j2)) => {
                                assert((seq![m] + ms1) + ms2 =~= seq![m] + (ms1 + ms2));
                            },
                        }
                    },
                }
            },
        }
    }
}

/// A parsed fixed repetition holds exactly as many models as were asked
/// for; every voxel's color index in it is a byte, hence below 256.
pub proof fn lemma_models_shape(s: Seq<u8>, i: int, k: nat)
    requires
        spec_models(s, i, k) is Ok,
    ensures
        spec_models(s, i, k).unwrap().0.len() == k,
        forall|t: int, j: int|
            #![trigger spec_models(s, i, k).unwrap().0[t].1[j]]
            0 <= t < k && 0 <= j < spec_models(s, i, k).unwrap().0[t].1.len()
                ==> spec_models(s, i, k).unwrap().0[t].1[j].color < 256,
    decreases k,
{
    if k > 0 {
        let (m, j) = spec_model(s, i).unwrap();
        lemma_models_shape(s, j, (k - 1) as nat);
        let ms = spec_models(s, i, k).unwrap().0;
        let tail = spec_models(s, j, (k - 1) as nat).unwrap().0;
        assert forall|t: int, jj: int|
            0 <= t < k && 0 <= jj < ms[t].1.len() implies #[trigger] ms[t].1[jj].color
            < 256 by {
            if t == 0 {
                assert(ms[0] == m);
            } else {
                assert(ms[t] == tail[t - 1]);
            }
        }
    }
}

/// Reads the `MAIN` chunk and everything under it, producing one scene per
/// model, all sharing the one resolved palette.
fn parse_main(s: &[u8], i: usize) -> (r: Result<Vec<Scene>, ParseError>)
    requires
        i <= s@.len(),
    ensures
        match r {
            Ok(v) => spec_main(s@, i as int) == Ok::<Seq<SceneModel>, ParseError>(scene_views(v@))
                && v@.len() >= 1,
            Err(e) => spec_main(s@, i as int) == Err::<Seq<SceneModel>, ParseError>(e),
        },
{
    let (clen, children, body) = match parse_chunk(s, i, 77, 65, 73, 78) {
        Err(e) => { return Err(e); },
        Ok(x) => x,
    };
    if clen != 0 {
        return Err(ParseError::NonEmptyLeafChunk);
    }
    if children == 0 {
        return Err(ParseError::EmptyPack);
    }
    let (cnt, p0) = match parse_pack(s, body) {
        Err(e) => { return Err(e); },
        Ok(x) => x,
    };
    if cnt == 0 {
        return Err(ParseError::EmptyPack);
    }
    let mut grids: Vec<Vec3u> = Vec::new();
    let mut voxel_lists: Vec<Vec<Voxel>> = Vec::new();
    let ghost mut ms: Seq<(Vec3u, Seq<Voxel>)> = Seq::empty();
    let mut cur = p0;
    let mut k: u32 = 0;
    proof {
        assert(spec_models(s@, p0 as int, 0) == Ok::<(Seq<(Vec3u, Seq<Voxel>)>, int), ParseError>(
            (ms, p0 as int),
        ));
    }
    while k < cnt
        invariant
            k <= cnt,
            cnt >= 1,
            cur <= s@.len(),
            spec_main(s@, i as int) == (match spec_models(s@, p0 as int, cnt as nat) {
                Err(e) => Err::<Seq<SceneModel>, ParseError>(e),
                Ok((ms2, q)) => Ok::<Seq<SceneModel>, ParseError>(
                    scenes_of(ms2, spec_palette(s@, q)),
                ),
            }),
            spec_models(s@, p0 as int, k as nat) == Ok::<
                (Seq<(Vec3u, Seq<Voxel>)>, int),
                ParseError,
            >((ms, cur as int)),
            grids@.len() == k,
            voxel_lists@.len() == k,
            ms.len() == k,
            forall|t: int|
                0 <= t < k ==> ms[t] == (grids@[t], voxel_lists@[t]@),
        decreases cnt - k,
    {
        proof {
            lemma_models_split(s@, p0 as int, k as nat, 1);
        }
        match parse_model(s, cur) {
            Err(e) => {
                proof {
                    assert(spec_models(s@, cur as int, 1) == Err::<
                        (Seq<(Vec3u, Seq<Voxel>)>, int),
                        ParseError,
                    >(e));
                    assert(spec_models(s@, p0 as int, (k + 1) as nat) == Err::<
                        (Seq<(Vec3u, Seq<Voxel>)>, int),
                        ParseError,
                    >(e));
                    lemma_models_split(s@, p0 as int, (k + 1) as nat, (cnt - k - 1) as nat);
                }
                return Err(e);
            },
            Ok((g, vs, j)) => {
                proof {
                    assert(spec_models(s@, j as int, 0) == Ok::<
                        (Seq<(Vec3u, Seq<Voxel>)>, int),
                        ParseError,
                    >((Seq::empty(), j as int)));
                    assert(seq![(g, vs@)] + Seq::<(Vec3u, Seq<Voxel>)>::empty() =~= seq![
                        (g, vs@),
                    ]);
                    assert(spec_models(s@, cur as int, 1) == Ok::<
                        (Seq<(Vec3u, Seq<Voxel>)>, int),
                        ParseError,
                    >((seq![(g, vs@)], j as int)));
                }
                grids.push(g);
                voxel_lists.push(vs);
                proof {
                    ms = ms + seq![(g, vs@)];
                }
                cur = j;
                k = k + 1;
            },
        }
    }
    let palette = resolve_palette(s, cur);
    let ghost pal = palette@;
    let mut scenes: Vec<Scene> = Vec::new();
    let mut t: usize = 0;
    let total: usize = grids.len();
    while t < total
        invariant
            t <= total,
            total == grids@.len(),
            total == voxel_lists@.len(),
            ms.len() == total,
            pal == palette@,
            forall|u: int| 0 <= u < total ==> ms[u] == (grids@[u], voxel_lists@[u]@),
            scenes@.len() == t,
            forall|u: int|
                0 <= u < t ==> #[trigger] scenes@[u]@ == (SceneModel {
                    voxels: ms[u].1,
                    colors: pal,
                    grid_size: ms[u].0,
                }),
        decreases total - t,
    {
        let own_pal = copy_colors(&palette);
        let g = grids[t];
        let vs = copy_voxels(&voxel_lists[t]);
        scenes.push(assemble_scene(vs, own_pal, g));
        t = t + 1;
    }
    proof {
        assert(scene_views(scenes@) =~= scenes_of(ms, spec_palette(s@, cur as int)));
    }
    Ok(scenes)
}

/// Copies one model's voxel list out of the parsed pack.
fn copy_voxels(v: &Vec<Voxel>) -> (r: Vec<Voxel>)
    ensures
        r@ == v@,
{
    let mut r: Vec<Voxel> = Vec::new();
    let mut i: usize = 0;
    while i < v.len()
        invariant
            i <= v@.len(),
            r@ == v@.take(i as int),
        decreases v@.len() - i,
    {
        r.push(v[i]);
        i = i + 1;
        proof {
            assert(r@ =~= v@.take(i as int));
        }
    }
    proof {
        assert(r@ =~= v@);
    }
    r
}

/// Parses the whole binary grammar, yielding every model of the archive as
/// a scene (the caller keeps only the first). Success and each distinct
/// error come exactly when `vox_parse` says so.
pub fn parse_scene(input: &[u8]) -> (r: Result<Vec<Scene>, ParseError>)
    ensures
        match r {
            Ok(v) => vox_parse(input@) == Ok::<Seq<SceneModel>, ParseError>(scene_views(v@))
                && v@.len() >= 1,
            Err(e) => vox_parse(input@) == Err::<Seq<SceneModel>, ParseError>(e),
        },
{
    let n: usize = input.len();
    if n < 4 {
        return Err(ParseError::TruncatedInput);
    }
    if !(input[0] == 86 && input[1] == 79 && input[2] == 88 && input[3] == 32) {
        return Err(ParseError::UnexpectedChunkTag);
    }
    if n < 8 {
        return Err(ParseError::TruncatedInput);
    }
    let ver = read_le32(input, 4);
    if ver != 150 {
        proof {
            lemma_le32_bounds(input@, 4);
        }
        return Err(ParseError::UnsupportedVersion);
    }
    parse_main(input, 8)
}

/// The binary grammar applies the axis swap identically to the grid size
/// and to every voxel position: a `SIZE` chunk's stored vector keeps the
/// first dimension and exchanges the second and third, and a voxel record's
/// stored position does the same with its three position bytes.
pub proof fn lemma_vox_axis_swap(s: Seq<u8>, i: int, o: int)
    requires
        0 <= o,
        o + 4 <= s.len(),
    ensures
        spec_size(s, i) matches Ok((g, _)) ==> {
            let body = i + 12;
            g == swizzled(le32_at(s, body) as u32, le32_at(s, body + 4) as u32, le32_at(s, body + 8) as u32)
                && g.x == le32_at(s, body) as u32 && g.y == le32_at(s, body + 8) as u32 && g.z
                == le32_at(s, body + 4) as u32
        },
        vox_voxel(s, o).pos == swizzled(s[o] as u32, s[o + 1] as u32, s[o + 2] as u32),
        vox_voxel(s, o).pos.x == s[o] as u32,
        vox_voxel(s, o).pos.y == s[o + 2] as u32,
        vox_voxel(s, o).pos.z == s[o + 1] as u32,
{
}

/// Every scene the binary grammar accepts has exactly 256 palette entries
/// with slot 0 black, and every voxel's color index addresses the palette:
/// a one-byte index is always below 256.
pub proof fn lemma_vox_scene_shape(s: Seq<u8>)
    requires
        vox_parse(s) is Ok,
    ensures
        forall|t: int|
            0 <= t < vox_parse(s).unwrap().len() ==> #[trigger] vox_parse(s).unwrap()[t].colors.len()
                == 256,
        forall|t: int|
            0 <= t < vox_parse(s).unwrap().len() ==> #[trigger] vox_parse(s).unwrap()[t].colors[0]
                == (Color { r: 0, g: 0, b: 0 }),
        forall|t: int, j: int|
            #![trigger vox_parse(s).unwrap()[t].voxels[j]]
            0 <= t < vox_parse(s).unwrap().len() && 0 <= j < vox_parse(s).unwrap()[t].voxels.len()
                ==> vox_parse(s).unwrap()[t].voxels[j].color < 256,
{
    let scenes = vox_parse(s).unwrap();
    let (clen, children, body) = spec_chunk(s, 8, 77, 65, 73, 78).unwrap();
    let (cnt, p) = spec_pack(s, body).unwrap();
    let (ms, q) = spec_models(s, p, cnt as nat).unwrap();
    lemma_models_shape(s, p, cnt as nat);
    let pal = spec_palette(s, q);
    assert(pal.len() == 256 && pal[0] == (Color { r: 0, g: 0, b: 0 })) by {
        match spec_chunk(s, q, 82, 71, 66, 65) {
            Ok((cl, ch, bd)) => {
                crate::palette::lemma_palette_shape(s, bd);
            },
            Err(_) => {
                crate::palette::lemma_palette_shape(s, 0);
            },
        }
    }
    assert(scenes == scenes_of(ms, pal));
}

} // verus!
