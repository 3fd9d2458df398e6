use vstd::prelude::*;

verus! {

/// The UTF-8 bytes of the `.otf` file suffix.
pub open spec fn otf_suffix() -> Seq<u8> {
    seq![46u8, 111u8, 116u8, 102u8]
}

/// The UTF-8 bytes of the `.ttf` file suffix.
pub open spec fn ttf_suffix() -> Seq<u8> {
    seq![46u8, 116u8, 116u8, 102u8]
}

/// Whether a path (as UTF-8 bytes) names an OpenType or TrueType font file:
/// it ends in `.otf` or `.ttf`. Only such paths are worth handing to the font
/// parser.
pub fn has_font_extension(path: &[u8]) -> (r: bool)
    ensures
        r == (path@.len() >= 4 && (path@.skip(path@.len() - 4) == otf_suffix() || path@.skip(
            path@.len() - 4,
        ) == ttf_suffix())),
{
    let n = path.len();
    if n < 4 {
        return false;
    }
    let dot = path[n - 4];
    let c1 = path[n - 3];
    let c2 = path[n - 2];
    let c3 = path[n - 1];
    let is_otf = dot == 46 && c1 == 111 && c2 == 116 && c3 == 102;
    let is_ttf = dot == 46 && c1 == 116 && c2 == 116 && c3 == 102;
    proof {
        let tail = path@.skip(path@.len() - 4);
        assert(tail.len() == 4);
        assert(tail[0] == path@[path@.len() - 4]);
        assert(tail[1] == path@[path@.len() - 3]);
        assert(tail[2] == path@[path@.len() - 2]);
        assert(tail[3] == path@[path@.len() - 1]);
        if is_otf {
            assert(tail =~= otf_suffix());
        }
        if is_ttf {
            assert(tail =~= ttf_suffix());
        }
        if tail == otf_suffix() {
            assert(tail[0] == 46 && tail[1] == 111 && tail[2] == 116 && tail[3] == 102);
        }
        if tail == ttf_suffix() {
            assert(tail[0] == 46 && tail[1] == 116 && tail[2] == 116 && tail[3] == 102);
        }
    }
    is_otf || is_ttf
}

} // verus!
