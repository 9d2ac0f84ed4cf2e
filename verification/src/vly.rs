//! The text grammar: a header (`grid_size:` three integers, `voxel_num:`
//! one integer), then exactly `voxel_num` voxel records of four integers,
//! then greedily as many color records of four integers as still parse.
//! Tokens are non-negative decimal integers separated by arbitrary runs of
//! whitespace. Every triple read as a position or extent is stored
//! axis-swapped. Any failure is reported as the single invalid-text error.

use vstd::prelude::*;
use crate::color::Color;
use crate::error::ParseError;
use crate::scene::{assemble_scene, Scene, SceneModel, Vec3u, Voxel, swizzle, swizzled};

verus! {

/// Token-separating whitespace: space, tab, line feed, carriage return.
pub open spec fn is_ws(c: u8) -> bool {
    c == 32 || c == 9 || c == 10 || c == 13
}

/// An ASCII decimal digit.
pub open spec fn is_dec_digit(c: u8) -> bool {
    48 <= c && c <= 57
}

/// The first position at or after `i` that does not hold whitespace.
pub open spec fn ws_end(s: Seq<u8>, i: int) -> int
    decreases s.len() - i,
{
    if i < s.len() && 0 <= i && is_ws(s[i]) {
        ws_end(s, i + 1)
    } else {
        i
    }
}

/// The first position at or after `i` that does not hold a digit.
pub open spec fn digit_end(s: Seq<u8>, i: int) -> int
    decreases s.len() - i,
{
    if i < s.len() && 0 <= i && is_dec_digit(s[i]) {
        digit_end(s, i + 1)
    } else {
        i
    }
}

/// The decimal value of the digit run `s[i..j]`, most significant first.
pub open spec fn digits_value(s: Seq<u8>, i: int, j: int) -> int
    decreases j - i,
{
    if i < j {
        digits_value(s, i, j - 1) * 10 + (s[j - 1] - 48)
    } else {
        0
    }
}

/// One integer token: leading whitespace, then one or more digits whose
/// value fits an unsigned 32-bit integer. Yields the value and the position
/// after the digits; `None` when no digit follows the whitespace or the
/// value is out of range.
pub open spec fn spec_uint(s: Seq<u8>, i: int) -> Option<(int, int)> {
    let t = ws_end(s, i);
    let e = digit_end(s, t);
    if e == t {
        None
    } else if digits_value(s, t, e) > u32::MAX {
        None
    } else {
        Some((digits_value(s, t, e), e))
    }
}

/// Three integer tokens, stored axis-swapped.
pub open spec fn spec_vec3(s: Seq<u8>, i: int) -> Option<(Vec3u, int)> {
    match spec_uint(s, i) {
        None => None,
        Some((a, i1)) => match spec_uint(s, i1) {
            None => None,
            Some((b, i2)) => match spec_uint(s, i2) {
                None => None,
                Some((c, i3)) => Some((swizzled(a as u32, b as u32, c as u32), i3)),
            },
        },
    }
}

/// The bytes of `grid_size:` stand at position `i`.
pub open spec fn grid_size_kw_at(s: Seq<u8>, i: int) -> bool {
    &&& 0 <= i
    &&& i + 10 <= s.len()
    &&& s[i] == 103  // g
    &&& s[i + 1] == 114  // r
    &&& s[i + 2] == 105  // i
    &&& s[i + 3] == 100  // d
    &&& s[i + 4] == 95  // _
    &&& s[i + 5] == 115  // s
    &&& s[i + 6] == 105  // i
    &&& s[i + 7] == 122  // z
    &&& s[i + 8] == 101  // e
    &&& s[i + 9] == 58  // :
}

/// The bytes of `voxel_num:` stand at position `i`.
pub open spec fn voxel_num_kw_at(s: Seq<u8>, i: int) -> bool {
    &&& 0 <= i
    &&& i + 10 <= s.len()
    &&& s[i] == 118  // v
    &&& s[i + 1] == 111  // o
    &&& s[i + 2] == 120  // x
    &&& s[i + 3] == 101  // e
    &&& s[i + 4] == 108  // l
    &&& s[i + 5] == 95  // _
    &&& s[i + 6] == 110  // n
    &&& s[i + 7] == 117  // u
    &&& s[i + 8] == 109  // m
    &&& s[i + 9] == 58  // :
}

/// The header: `grid_size:` with its swapped triple, then `voxel_num:` with
/// the declared voxel count. Yields (grid size, count) and the position
/// after the count.
pub open spec fn spec_header(s: Seq<u8>) -> Option<((Vec3u, int), int)> {
    let i0 = ws_end(s, 0);
    if !grid_size_kw_at(s, i0) {
        None
    } else {
        match spec_vec3(s, i0 + 10) {
            None => None,
            Some((g, i1)) => {
                let i2 = ws_end(s, i1);
                if !voxel_num_kw_at(s, i2) {
                    None
                } else {
                    match spec_uint(s, i2 + 10) {
                        None => None,
                        Some((n, i3)) => Some(((g, n), i3)),
                    }
                }
            },
        }
    }
}

/// One voxel record: four integer tokens, the first three stored as the
/// axis-swapped position, the fourth as the color index.
pub open spec fn spec_voxel(s: Seq<u8>, i: int) -> Option<(Voxel, int)> {
    match spec_vec3(s, i) {
        None => None,
        Some((p, i1)) => match spec_uint(s, i1) {
            None => None,
            Some((c, i2)) => Some((Voxel { pos: p, color: c as u32 }, i2)),
        },
    }
}

/// Exactly `k` consecutive voxel records.
pub open spec fn spec_voxels(s: Seq<u8>, i: int, k: nat) -> Option<(Seq<Voxel>, int)>
    decreases k,
{
    if k == 0 {
        Some((Seq::empty(), i))
    } else {
        match spec_voxel(s, i) {
            None => None,
            Some((v, j)) => match spec_voxels(s, j, (k - 1) as nat) {
                None => None,
                Some((vs, j2)) => Some((seq![v] + vs, j2)),
            },
        }
    }
}

/// One color record: four integer tokens; the leading index token is read
/// and discarded, the next three must each fit one byte.
pub open spec fn spec_color(s: Seq<u8>, i: int) -> Option<(Color, int)> {
    match spec_uint(s, i) {
        None => None,
        Some((_idx, i1)) => match spec_uint(s, i1) {
            None => None,
            Some((r, i2)) => match spec_uint(s, i2) {
                None => None,
                Some((g, i3)) => match spec_uint(s, i3) {
                    None => None,
                    Some((b, i4)) => if r <= 255 && g <= 255 && b <= 255 {
                        Some((Color { r: r as u8, g: g as u8, b: b as u8 }, i4))
                    } else {
                        None
                    },
                },
            },
        },
    }
}

/// The trailing color list, read greedily until the first record that does
/// not parse; whatever follows is ignored.
pub open spec fn spec_colors(s: Seq<u8>, i: int) -> Seq<Color>
    decreases s.len() - i,
    when 0 <= i <= s.len()
    via spec_colors_decreases
{
    match spec_color(s, i) {
        None => Seq::empty(),
        Some((c, j)) => seq![c] + spec_colors(s, j),
    }
}

#[via_fn]
proof fn spec_colors_decreases(s: Seq<u8>, i: int) {
    if spec_color(s, i) is Some {
        lemma_color_bounds(s, i);
    }
}

/// The whole text grammar: header, exactly the declared number of voxel
/// records, then the greedy color list. `None` is the single
/// invalid-text-format outcome.
pub open spec fn text_parse(s: Seq<u8>) -> Option<SceneModel> {
    match spec_header(s) {
        None => None,
        Some(((g, n), i)) => match spec_voxels(s, i, n as nat) {
            None => None,
            Some((vs, i2)) => Some(
                SceneModel { voxels: vs, colors: spec_colors(s, i2), grid_size: g },
            ),
        },
    }
}

pub proof fn lemma_ws_end_bounds(s: Seq<u8>, i: int)
    requires
        0 <= i <= s.len(),
    ensures
        i <= ws_end(s, i) <= s.len(),
    decreases s.len() - i,
{
    if i < s.len() && is_ws(s[i]) {
        lemma_ws_end_bounds(s, i + 1);
    }
}

pub proof fn lemma_digit_end_bounds(s: Seq<u8>, i: int)
    requires
        0 <= i <= s.len(),
    ensures
        i <= digit_end(s, i) <= s.len(),
    decreases s.len() - i,
{
    if i < s.len() && is_dec_digit(s[i]) {
        lemma_digit_end_bounds(s, i + 1);
    }
}

/// A successfully read integer token ends strictly beyond where it began
/// and within the input.
pub proof fn lemma_uint_bounds(s: Seq<u8>, i: int)
    requires
        0 <= i <= s.len(),
        spec_uint(s, i) is Some,
    ensures
        i < spec_uint(s, i).unwrap().1 <= s.len(),
{
    lemma_ws_end_bounds(s, i);
    lemma_digit_end_bounds(s, ws_end(s, i));
}

/// A successfully read color record ends strictly beyond where it began
/// and within the input.
pub proof fn lemma_color_bounds(s: Seq<u8>, i: int)
    requires
        0 <= i <= s.len(),
        spec_color(s, i) is Some,
    ensures
        i < spec_color(s, i).unwrap().1 <= s.len(),
{
    lemma_uint_bounds(s, i);
    let i1 = spec_uint(s, i).unwrap().1;
    lemma_uint_bounds(s, i1);
    let i2 = spec_uint(s, i1).unwrap().1;
    lemma_uint_bounds(s, i2);
    let i3 = spec_uint(s, i2).unwrap().1;
    lemma_uint_bounds(s, i3);
}

/// Whether one byte is token-separating whitespace.
fn ws_byte(c: u8) -> (b: bool)
    ensures
        b == is_ws(c),
{
    c == 32 || c == 9 || c == 10 || c == 13
}

/// Advances past whitespace.
fn scan_ws(s: &[u8], i: usize) -> (r: usize)
    requires
        i <= s@.len(),
    ensures
        r as int == ws_end(s@, i as int),
        i <= r <= s@.len(),
{
    let n: usize = s.len();
    let mut r = i;
    while r < n && s[r] == 32 || r < n && s[r] == 9 || r < n && s[r] == 10 || r < n && s[r] == 13
        invariant
            i <= r <= n,
            n == s@.len(),
            ws_end(s@, i as int) == ws_end(s@, r as int),
        decreases n - r,
    {
        r = r + 1;
    }
    r
}

/// Reads one integer token.
fn parse_uint(s: &[u8], i: usize) -> (r: Option<(u32, usize)>)
    requires
        i <= s@.len(),
    ensures
        match r {
            Some((v, j)) => {
                &&& spec_uint(s@, i as int) == Some((v as int, j as int))
                &&& i < j <= s@.len()
            },
            None => spec_uint(s@, i as int) is None,
        },
{
    let n: usize = s.len();
    let t = scan_ws(s, i);
    let mut e = t;
    let mut acc: u64 = 0;
    let mut over = false;
    while e < n && 48 <= s[e] && s[e] <= 57
        invariant
            t <= e <= n,
            n == s@.len(),
            digit_end(s@, t as int) == digit_end(s@, e as int),
            !over ==> acc == digits_value(s@, t as int, e as int) && acc <= u32::MAX,
            over ==> digits_value(s@, t as int, e as int) > u32::MAX,
        decreases n - e,
    {
        let d: u64 = (s[e] - 48) as u64;
        if !over {
            if acc * 10 + d > u32::MAX as u64 {
                over = true;
            } else {
                acc = acc * 10 + d;
            }
        }
        e = e + 1;
    }
    if e == t {
        None
    } else if over {
        None
    } else {
        Some((acc as u32, e))
    }
}

/// Reads three integer tokens into an axis-swapped vector.
fn parse_vec3(s: &[u8], i: usize) -> (r: Option<(Vec3u, usize)>)
    requires
        i <= s@.len(),
    ensures
        match r {
            Some((v, j)) => {
                &&& spec_vec3(s@, i as int) == Some((v, j as int))
                &&& i < j <= s@.len()
            },
            None => spec_vec3(s@, i as int) is None,
        },
{
    let (a, i1) = match parse_uint(s, i) {
        None => { return None; },
        Some(x) => x,
    };
    let (b, i2) = match parse_uint(s, i1) {
        None => { return None; },
        Some(x) => x,
    };
    let (c, i3) = match parse_uint(s, i2) {
        None => { return None; },
        Some(x) => x,
    };
    Some((swizzle(a, b, c), i3))
}

/// Checks for the bytes of `grid_size:` at position `i`.
fn grid_size_kw(s: &[u8], i: usize) -> (b: bool)
    requires
        i <= s@.len(),
    ensures
        b == grid_size_kw_at(s@, i as int),
{
    let n: usize = s.len();
    if n - i < 10 {
        return false;
    }
    s[i] == 103 && s[i + 1] == 114 && s[i + 2] == 105 && s[i + 3] == 100 && s[i + 4] == 95
        && s[i + 5] == 115 && s[i + 6] == 105 && s[i + 7] == 122 && s[i + 8] == 101 && s[i + 9]
        == 58
}

/// Checks for the bytes of `voxel_num:` at position `i`.
fn voxel_num_kw(s: &[u8], i: usize) -> (b: bool)
    requires
        i <= s@.len(),
    ensures
        b == voxel_num_kw_at(s@, i as int),
{
    let n: usize = s.len();
    if n - i < 10 {
        return false;
    }
    s[i] == 118 && s[i + 1] == 111 && s[i + 2] == 120 && s[i + 3] == 101 && s[i + 4] == 108
        && s[i + 5] == 95 && s[i + 6] == 110 && s[i + 7] == 117 && s[i + 8] == 109 && s[i + 9]
        == 58
}

/// Reads the header, yielding the grid size, the declared voxel count and
/// the position after it.
fn parse_header(s: &[u8]) -> (r: Option<(Vec3u, u32, usize)>)
    ensures
        match r {
            Some((g, n, j)) => {
                &&& spec_header(s@) == Some(((g, n as int), j as int))
                &&& j <= s@.len()
            },
            None => spec_header(s@) is None,
        },
{
    let n: usize = s.len();
    let i0 = scan_ws(s, 0);
    if !grid_size_kw(s, i0) {
        return None;
    }
    proof {
        assert(i0 + 10 <= n);
    }
    let (g, i1) = match parse_vec3(s, i0 + 10) {
        None => { return None; },
        Some(x) => x,
    };
    let i2 = scan_ws(s, i1);
    if !voxel_num_kw(s, i2) {
        return None;
    }
    proof {
        assert(i2 + 10 <= n);
    }
    match parse_uint(s, i2 + 10) {
        None => None,
        Some((n, i3)) => Some((g, n, i3)),
    }
}

/// Reads one voxel record.
fn parse_voxel(s: &[u8], i: usize) -> (r: Option<(Voxel, usize)>)
    requires
        i <= s@.len(),
    ensures
        match r {
            Some((v, j)) => {
                &&& spec_voxel(s@, i as int) == Some((v, j as int))
                &&& i < j <= s@.len()
            },
            None => spec_voxel(s@, i as int) is None,
        },
{
    let (p, i1) = match parse_vec3(s, i) {
        None => { return None; },
        Some(x) => x,
    };
    match parse_uint(s, i1) {
        None => None,
        Some((c, i2)) => Some((Voxel { pos: p, color: c }, i2)),
    }
}

/// Reads one color record.
fn parse_color(s: &[u8], i: usize) -> (r: Option<(Color, usize)>)
    requires
        i <= s@.len(),
    ensures
        match r {
            Some((c, j)) => {
                &&& spec_color(s@, i as int) == Some((c, j as int))
                &&& i < j <= s@.len()
            },
            None => spec_color(s@, i as int) is None,
        },
{
    let (_idx, i1) = match parse_uint(s, i) {
        None => { return None; },
        Some(x) => x,
    };
    let (r, i2) = match parse_uint(s, i1) {
        None => { return None; },
        Some(x) => x,
    };
    let (g, i3) = match parse_uint(s, i2) {
        None => { return None; },
        Some(x) => x,
    };
    let (b, i4) = match parse_uint(s, i3) {
        None => { return None; },
        Some(x) => x,
    };
    if r <= 255 && g <= 255 && b <= 255 {
        Some((Color { r: r as u8, g: g as u8, b: b as u8 }, i4))
    } else {
        None
    }
}

/// Splitting a fixed repetition: the first `k1` records followed by `k2`
/// more parse exactly when `k1 + k2` do, and yield the concatenation.
proof fn lemma_voxels_split(s: Seq<u8>, i: int, k1: nat, k2: nat)
    ensures
        spec_voxels(s, i, k1 + k2) == match spec_voxels(s, i, k1) {
            None => None::<(Seq<Voxel>, int)>,
            Some((vs1, j)) => match spec_voxels(s, j, k2) {
                None => None::<(Seq<Voxel>, int)>,
                Some((vs2, j2)) => Some((vs1 + vs2, j2)),
            },
        },
    decreases k1,
{
    if k1 == 0 {
        match spec_voxels(s, i, k2) {
            None => {},
            Some((vs2, j2)) => {
                assert(Seq::<Voxel>::empty() + vs2 =~= vs2);
            },
        }
    } else {
        match spec_voxel(s, i) {
            None => {},
            Some((v, j)) => {
                lemma_voxels_split(s, j, (k1 - 1) as nat, k2);
                match spec_voxels(s, j, (k1 - 1) as nat) {
                    None => {},
                    Some((vs1, j1)) => {
                        match spec_voxels(s, j1, k2) {
                            None => {},
                            Some((vs2, j2)) => {
                                assert((seq![v] + vs1) + vs2 =~= seq![v] + (vs1 + vs2));
                            },
                        }
                    },
                }
            },
        }
    }
}

/// A parsed fixed repetition holds exactly as many records as were asked
/// for, and ends within the input when it began within it.
pub proof fn lemma_voxels_count(s: Seq<u8>, i: int, k: nat)
    requires
        0 <= i <= s.len(),
        spec_voxels(s, i, k) is Some,
    ensures
        spec_voxels(s, i, k).unwrap().0.len() == k,
        i <= spec_voxels(s, i, k).unwrap().1 <= s.len(),
    decreases k,
{
    if k > 0 {
        let (v, j) = spec_voxel(s, i).unwrap();
        lemma_voxel_bounds(s, i);
        lemma_voxels_count(s, j, (k - 1) as nat);
    }
}

/// A successfully read voxel record ends strictly beyond where it began
/// and within the input.
pub proof fn lemma_voxel_bounds(s: Seq<u8>, i: int)
    requires
        0 <= i <= s.len(),
        spec_voxel(s, i) is Some,
    ensures
        i < spec_voxel(s, i).unwrap().1 <= s.len(),
{
    lemma_uint_bounds(s, i);
    let i1 = spec_uint(s, i).unwrap().1;
    lemma_uint_bounds(s, i1);
    let i2 = spec_uint(s, i1).unwrap().1;
    lemma_uint_bounds(s, i2);
    let i3 = spec_uint(s, i2).unwrap().1;
    lemma_uint_bounds(s, i3);
}

/// Parses the whole text grammar. Success returns exactly the scene that
/// `text_parse` assigns to the input; every failure is the single
/// invalid-text error, and comes exactly when `text_parse` rejects.
pub fn parse_scene(input: &[u8]) -> (r: Result<Scene, ParseError>)
    ensures
        match r {
            Ok(sc) => text_parse(input@) == Some(sc@),
            Err(e) => text_parse(input@) is None && e == ParseError::UnexpectedToken,
        },
{
    let (grid, num, hdr_end) = match parse_header(input) {
        None => { return Err(ParseError::UnexpectedToken); },
        Some(x) => x,
    };
    let ghost i0 = hdr_end as int;
    let mut voxels: Vec<Voxel> = Vec::new();
    let mut cur = hdr_end;
    let mut k: u32 = 0;
    while k < num
        invariant
            k <= num,
            cur <= input@.len(),
            spec_header(input@) == Some(((grid, num as int), i0)),
            spec_voxels(input@, i0, k as nat) == Some((voxels@, cur as int)),
        decreases num - k,
    {
        proof {
            lemma_voxels_split(input@, i0, k as nat, 1);
        }
        match parse_voxel(input, cur) {
            None => {
                proof {
                    assert(spec_voxels(input@, cur as int, 1) is None);
                    assert(spec_voxels(input@, i0, (k + 1) as nat) is None);
                    lemma_voxels_split(input@, i0, (k + 1) as nat, (num - k - 1) as nat);
                    assert(spec_voxels(input@, i0, num as nat) is None);
                }
                return Err(ParseError::UnexpectedToken);
            },
            Some((v, j)) => {
                proof {
                    let ghost tail = spec_voxels(input@, j as int, 0);
                    assert(tail == Some((Seq::<Voxel>::empty(), j as int)));
                    assert(seq![v] + Seq::<Voxel>::empty() =~= seq![v]);
                    assert(spec_voxels(input@, cur as int, 1) == Some((seq![v], j as int)));
                }
                voxels.push(v);
                proof {
                    assert(voxels@ =~= spec_voxels(input@, i0, k as nat).unwrap().0 + seq![v]);
                }
                cur = j;
                k = k + 1;
            },
        }
    }
    let ghost colors_start = cur as int;
    let mut colors: Vec<Color> = Vec::new();
    let mut at = cur;
    loop
        invariant
            at <= input@.len(),
            colors_start <= input@.len(),
            spec_colors(input@, colors_start) == colors@ + spec_colors(input@, at as int),
        ensures
            spec_colors(input@, colors_start) == colors@,
        decreases input@.len() - at,
    {
        match parse_color(input, at) {
            None => {
                proof {
                    assert(spec_colors(input@, at as int) == Seq::<Color>::empty());
                    assert(colors@ + Seq::<Color>::empty() =~= colors@);
                }
                break;
            },
            Some((c, j)) => {
                proof {
                    assert(spec_colors(input@, at as int) == seq![c] + spec_colors(
                        input@,
                        j as int,
                    ));
                }
                let ghost prev = colors@;
                colors.push(c);
                proof {
                    assert(prev + (seq![c] + spec_colors(input@, j as int)) =~= (prev + seq![c])
                        + spec_colors(input@, j as int));
                    assert(colors@ == prev + seq![c]);
                }
                at = j;
            },
        }
    }
    Ok(assemble_scene(voxels, colors, grid))
}

/// Every accepted text input yields exactly as many voxels as its header
/// declares: the declared count is an exact repetition count.
pub proof fn lemma_text_voxel_count(s: Seq<u8>)
    requires
        text_parse(s) is Some,
    ensures
        spec_header(s) is Some,
        text_parse(s).unwrap().voxels.len() == spec_header(s).unwrap().0.1,
{
    let ((g, n), i) = spec_header(s).unwrap();
    lemma_header_bounds(s);
    lemma_voxels_count(s, i, n as nat);
}

/// A successfully read header ends within the input, and its voxel count is
/// non-negative.
pub proof fn lemma_header_bounds(s: Seq<u8>)
    requires
        spec_header(s) is Some,
    ensures
        0 <= spec_header(s).unwrap().1 <= s.len(),
        spec_header(s).unwrap().0.1 >= 0,
{
    let i0 = ws_end(s, 0);
    lemma_ws_end_bounds(s, 0);
    lemma_uint_bounds(s, i0 + 10);
    let (a, j1) = spec_uint(s, i0 + 10).unwrap();
    lemma_uint_bounds(s, j1);
    let (b, j2) = spec_uint(s, j1).unwrap();
    lemma_uint_bounds(s, j2);
    let (c, j3) = spec_uint(s, j2).unwrap();
    lemma_ws_end_bounds(s, j3);
    let i2 = ws_end(s, j3);
    lemma_uint_bounds(s, i2 + 10);
    lemma_uint_nonneg(s, i2 + 10);
}

/// A read integer token is non-negative: its digits contribute only
/// non-negative amounts.
pub proof fn lemma_uint_nonneg(s: Seq<u8>, i: int)
    requires
        0 <= i <= s.len(),
        spec_uint(s, i) is Some,
    ensures
        spec_uint(s, i).unwrap().0 >= 0,
{
    let t = ws_end(s, i);
    lemma_ws_end_bounds(s, i);
    lemma_digit_end_bounds(s, t);
    lemma_digit_run(s, t);
    lemma_digits_value_nonneg(s, t, digit_end(s, t));
}

/// Every byte of the run `[i, digit_end(s, i))` is a digit.
pub proof fn lemma_digit_run(s: Seq<u8>, i: int)
    requires
        0 <= i <= s.len(),
    ensures
        forall|k: int| i <= k < digit_end(s, i) ==> is_dec_digit(s[k]),
    decreases s.len() - i,
{
    if i < s.len() && is_dec_digit(s[i]) {
        lemma_digit_run(s, i + 1);
        lemma_digit_end_bounds(s, i + 1);
    }
}

/// The value of an all-digit run is non-negative.
pub proof fn lemma_digits_value_nonneg(s: Seq<u8>, i: int, j: int)
    requires
        i <= j,
        forall|k: int| i <= k < j ==> is_dec_digit(s[k]),
    ensures
        digits_value(s, i, j) >= 0,
    decreases j - i,
{
    if i < j {
        lemma_digits_value_nonneg(s, i, j - 1);
    }
}

/// The text grammar applies the axis swap identically to the grid size and
/// to every voxel position: wherever three integers are read as a triple,
/// the stored vector keeps the first and exchanges the second and third.
pub proof fn lemma_text_axis_swap(s: Seq<u8>, i: int)
    requires
        0 <= i <= s.len(),
    ensures
        spec_vec3(s, i) matches Some((v, _)) ==> {
            let (a, i1) = spec_uint(s, i).unwrap();
            let (b, i2) = spec_uint(s, i1).unwrap();
            let (c, _) = spec_uint(s, i2).unwrap();
            v == swizzled(a as u32, b as u32, c as u32) && v.x == a as u32 && v.y == c as u32
                && v.z == b as u32
        },
        spec_header(s) matches Some(((g, _), _)) ==> g == spec_vec3(s, ws_end(s, 0) + 10).unwrap().0,
        spec_voxel(s, i) matches Some((v, _)) ==> v.pos == spec_vec3(s, i).unwrap().0,
{
}

} // verus!
