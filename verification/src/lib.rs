//! Decoder for voxel-model files: a line-oriented text grammar and a
//! chunk-structured binary container are both turned into one unified
//! `Scene` value (voxel list, color palette, bounding grid size). The
//! dispatcher picks a grammar from the filename extension, or probes the
//! text grammar and then the binary grammar when no extension decides.

use vstd::prelude::*;

pub mod color;
pub mod error;
pub mod scene;
pub mod palette;
pub mod vly;
pub mod vox;

use crate::error::ParseError;
use crate::scene::{Scene, SceneModel};

verus! {

/// Where the filename's extension starts: just after the last dot, or the
/// start of the whole name when it holds no dot.
pub open spec fn ext_start(s: Seq<u8>) -> int
    decreases s.len(),
{
    if s.len() == 0 {
        0
    } else if s.last() == 46 {  // .
        s.len() as int
    } else {
        ext_start(s.drop_last())
    }
}

/// The filename's extension bytes.
pub open spec fn ext_of(s: Seq<u8>) -> Seq<u8> {
    s.subrange(ext_start(s), s.len() as int)
}

/// The extension names the text grammar (`vly`).
pub open spec fn is_vly_ext(name: Seq<u8>) -> bool {
    ext_of(name) == seq![118u8, 108u8, 121u8]  // v l y
}

/// The extension names the binary grammar (`vox`).
pub open spec fn is_vox_ext(name: Seq<u8>) -> bool {
    ext_of(name) == seq![118u8, 111u8, 120u8]  // v o x
}

/// The text grammar's outcome as the dispatcher reports it.
pub open spec fn text_outcome(data: Seq<u8>) -> Result<SceneModel, ParseError> {
    match vly::text_parse(data) {
        Some(m) => Ok(m),
        None => Err(ParseError::UnexpectedToken),
    }
}

/// The binary grammar's outcome as the dispatcher reports it: the first
/// model of the archive; every error verbatim.
pub open spec fn vox_outcome(data: Seq<u8>) -> Result<SceneModel, ParseError> {
    match vox::vox_parse(data) {
        Ok(ms) => Ok(ms[0]),
        Err(e) => Err(e),
    }
}

/// The fallback probe: the text grammar first, then the binary grammar;
/// when both refuse, their errors are discarded and the outcome is the one
/// unknown-format error.
pub open spec fn probe_outcome(data: Seq<u8>) -> Result<SceneModel, ParseError> {
    match vly::text_parse(data) {
        Some(m) => Ok(m),
        None => match vox::vox_parse(data) {
            Ok(ms) => Ok(ms[0]),
            Err(_) => Err(ParseError::UnknownFormat),
        },
    }
}

/// The view of an optional filename.
pub open spec fn name_view(o: Option<&[u8]>) -> Option<Seq<u8>> {
    match o {
        Some(n) => Some(n@),
        None => None,
    }
}

/// What the dispatcher returns: a recognized extension runs exactly its own
/// grammar and propagates that grammar's error verbatim; otherwise both
/// grammars are probed in a fixed order.
pub open spec fn scene_outcome(data: Seq<u8>, name: Option<Seq<u8>>) -> Result<
    SceneModel,
    ParseError,
> {
    match name {
        Some(n) => if is_vly_ext(n) {
            text_outcome(data)
        } else if is_vox_ext(n) {
            vox_outcome(data)
        } else {
            probe_outcome(data)
        },
        None => probe_outcome(data),
    }
}

/// Finds where the filename's extension starts.
fn find_ext_start(name: &[u8]) -> (r: usize)
    ensures
        r as int == ext_start(name@),
        r <= name@.len(),
{
    let n: usize = name.len();
    let mut i = n;
    proof {
        assert(name@.take(n as int) =~= name@);
    }
    while i > 0
        invariant
            i <= n,
            n == name@.len(),
            ext_start(name@) == ext_start(name@.take(i as int)),
        decreases i,
    {
        if name[i - 1] == 46 {
            proof {
                assert(name@.take(i as int).last() == name@[i - 1]);
                assert(ext_start(name@.take(i as int)) == i);
            }
            return i;
        }
        proof {
            assert(name@.take(i as int).last() == name@[i - 1]);
            assert(name@.take(i as int).drop_last() =~= name@.take(i - 1));
        }
        i = i - 1;
    }
    proof {
        assert(name@.take(0) =~= Seq::<u8>::empty());
        assert(ext_start(name@.take(0)) == 0);
    }
    0
}

/// Whether the filename's extension is exactly the three given bytes
/// (case-sensitive, no normalization).
fn has_ext(name: &[u8], e0: u8, e1: u8, e2: u8) -> (b: bool)
    ensures
        b == (ext_of(name@) == seq![e0, e1, e2]),
{
    let n: usize = name.len();
    let st = find_ext_start(name);
    proof {
        assert(ext_of(name@).len() == n - st);
    }
    if n - st != 3 {
        proof {
            assert(seq![e0, e1, e2].len() == 3);
        }
        return false;
    }
    let b = name[st] == e0 && name[st + 1] == e1 && name[st + 2] == e2;
    proof {
        assert(ext_of(name@)[0] == name@[st as int]);
        assert(ext_of(name@)[1] == name@[st as int + 1]);
        assert(ext_of(name@)[2] == name@[st as int + 2]);
        if b {
            assert(ext_of(name@) =~= seq![e0, e1, e2]);
        } else {
            if ext_of(name@) == seq![e0, e1, e2] {
                assert(seq![e0, e1, e2][0] == e0);
                assert(seq![e0, e1, e2][1] == e1);
                assert(seq![e0, e1, e2][2] == e2);
            }
        }
    }
    b
}

/// Runs the binary grammar and keeps only the archive's first model; the
/// others were parsed (keeping the byte cursor correct) and are dropped.
fn parse_vox_first(data: &[u8]) -> (r: Result<Scene, ParseError>)
    ensures
        match r {
            Ok(sc) => vox_outcome(data@) == Ok::<SceneModel, ParseError>(sc@),
            Err(e) => vox_outcome(data@) == Err::<SceneModel, ParseError>(e),
        },
{
    match vox::parse_scene(data) {
        Err(e) => Err(e),
        Ok(mut v) => {
            let ghost before = v@;
            let first = v.remove(0);
            proof {
                assert(vox::scene_views(before)[0] == first@);
            }
            Ok(first)
        },
    }
}

/// Probes the text grammar, then the binary grammar, and reports the one
/// unknown-format error when both refuse.
fn probe_scene(data: &[u8]) -> (r: Result<Scene, ParseError>)
    ensures
        match r {
            Ok(sc) => probe_outcome(data@) == Ok::<SceneModel, ParseError>(sc@),
            Err(e) => probe_outcome(data@) == Err::<SceneModel, ParseError>(e),
        },
{
    match vly::parse_scene(data) {
        Ok(sc) => Ok(sc),
        Err(_) => match parse_vox_first(data) {
            Ok(sc) => Ok(sc),
            Err(_) => Err(ParseError::UnknownFormat),
        },
    }
}

/// Decodes a voxel-model buffer into a scene. A `vly` extension runs only
/// the text grammar and a `vox` extension only the binary grammar, each
/// propagating its own error verbatim; an absent or unrecognized name
/// probes the text grammar and then the binary grammar, and reports the
/// unknown-format error when both refuse. Pure: no I/O, no retries.
pub fn parse_scene(file_content: &[u8], file_name: Option<&[u8]>) -> (r: Result<Scene, ParseError>)
    ensures
        match r {
            Ok(sc) => scene_outcome(file_content@, name_view(file_name)) == Ok::<
                SceneModel,
                ParseError,
            >(sc@),
            Err(e) => scene_outcome(file_content@, name_view(file_name)) == Err::<
                SceneModel,
                ParseError,
            >(e),
        },
{
    match file_name {
        Some(name) => {
            if has_ext(name, 118, 108, 121) {  // v l y
                vly::parse_scene(file_content)
            } else if has_ext(name, 118, 111, 120) {  // v o x
                parse_vox_first(file_content)
            } else {
                probe_scene(file_content)
            }
        },
        None => probe_scene(file_content),
    }
}

} // verus!
