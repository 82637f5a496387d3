use vstd::prelude::*;

use crate::OrientationError;

verus! {

use vstd::arithmetic::div_mod::lemma_fundamental_div_mod;
use vstd::arithmetic::div_mod::lemma_fundamental_div_mod_converse;
use vstd::arithmetic::div_mod::lemma_mod_division_less_than_divisor;

/// A grayscale image: `height` rows of `width` pixels, one byte per pixel,
/// stored row-major in `data`. The source image of a run is loaded once and
/// never mutated; every rotation produces a fresh value.
pub struct Image {
    pub width: usize,
    pub height: usize,
    pub data: Vec<u8>,
}

impl Image {
    /// The pixel buffer matches the stated dimensions exactly.
    pub open spec fn wf(self) -> bool {
        self.data@.len() == self.width * self.height
    }

    /// The pixel in row `r`, column `c` of the row-major grid.
    pub open spec fn pixel(self, r: int, c: int) -> u8 {
        self.data@[r * self.width + c]
    }

    /// The two images agree in dimensions and in every pixel byte.
    pub open spec fn same_as(self, other: Image) -> bool {
        self.width == other.width && self.height == other.height && self.data@ == other.data@
    }

    /// Builds an image from decoded pixel bytes. Fails with `DecodeFailed`
    /// exactly when the buffer length does not match the dimensions, the one
    /// way a decoded buffer can fail to form an image.
    pub fn new(width: usize, height: usize, data: Vec<u8>) -> (r: Result<Image, OrientationError>)
        ensures
            width * height == data@.len() ==> (r matches Ok(img)
                && img.width == width && img.height == height && img.data@ == data@ && img.wf()),
            width * height != data@.len() ==> r == Err::<Image, OrientationError>(
                OrientationError::DecodeFailed),
    {
        let len = data.len();
        match width.checked_mul(height) {
            Some(n) if n == len => Ok(Image { width, height, data }),
            _ => Err(OrientationError::DecodeFailed),
        }
    }

    /// A fresh image with the same dimensions and pixel bytes.
    pub fn clone_image(&self) -> (r: Image)
        ensures
            r.same_as(*self),
    {
        let mut data: Vec<u8> = Vec::new();
        let mut i: usize = 0;
        while i < self.data.len()
            invariant
                i <= self.data@.len(),
                data@ == self.data@.subrange(0, i as int),
            decreases self.data@.len() - i,
        {
            data.push(self.data[i]);
            proof {
                assert(data@ =~= self.data@.subrange(0, i + 1));
            }
            i = i + 1;
        }
        proof {
            assert(data@ =~= self.data@);
        }
        Image { width: self.width, height: self.height, data }
    }

    /// Reports whether the two images are pixel-identical.
    pub fn same_pixels(&self, other: &Image) -> (r: bool)
        ensures
            r == self.same_as(*other),
    {
        if self.width != other.width || self.height != other.height
            || self.data.len() != other.data.len() {
            return false;
        }
        let mut i: usize = 0;
        while i < self.data.len()
            invariant
                i <= self.data@.len(),
                self.data@.len() == other.data@.len(),
                forall|j: int| 0 <= j < i ==> self.data@[j] == other.data@[j],
            decreases self.data@.len() - i,
        {
            if self.data[i] != other.data[i] {
                return false;
            }
            i = i + 1;
        }
        proof {
            assert(self.data@ =~= other.data@);
        }
        true
    }
}

/// `dst` is `src` turned one quarter turn clockwise: dimensions swap, and the
/// pixel that sat in row `h - 1 - c`, column `r` of the source lands in row
/// `r`, column `c` of the result.
pub open spec fn rotated_cw(src: Image, dst: Image) -> bool {
    &&& dst.width == src.height
    &&& dst.height == src.width
    &&& forall|r: int, c: int|
        0 <= r < dst.height && 0 <= c < dst.width ==>
            #[trigger] dst.pixel(r, c) == src.pixel(src.height - 1 - c, r)
}

/// `dst` is `src` turned a half turn: dimensions are kept, and every pixel
/// moves to the diagonally opposite position.
pub open spec fn rotated_half(src: Image, dst: Image) -> bool {
    &&& dst.width == src.width
    &&& dst.height == src.height
    &&& forall|r: int, c: int|
        0 <= r < dst.height && 0 <= c < dst.width ==>
            #[trigger] dst.pixel(r, c) == src.pixel(src.height - 1 - r, src.width - 1 - c)
}

/// `dst` is `src` turned one quarter turn counter-clockwise.
pub open spec fn rotated_ccw(src: Image, dst: Image) -> bool {
    &&& dst.width == src.height
    &&& dst.height == src.width
    &&& forall|r: int, c: int|
        0 <= r < dst.height && 0 <= c < dst.width ==>
            #[trigger] dst.pixel(r, c) == src.pixel(c, src.width - 1 - r)
}

/// Turns the image one quarter turn clockwise. Exact: a pure permutation of
/// the pixel bytes, with no interpolation and no border fill.
pub fn rotate_quarter_cw(img: &Image) -> (r: Image)
    requires
        img.wf(),
    ensures
        r.wf(),
        rotated_cw(*img, r),
{
    let nw: usize = img.height;
    let nh: usize = img.width;
    let total: usize = img.data.len();
    let mut data: Vec<u8> = Vec::new();
    let mut k: usize = 0;
    while k < total
        invariant
            img.wf(),
            nw == img.height,
            nh == img.width,
            total == img.data@.len(),
            total == nh * nw,
            k <= total,
            data@.len() == k,
            forall|j: int| 0 <= j < k ==>
                #[trigger] data@[j] == img.pixel(
                    img.height - 1 - (j % (nw as int)), j / (nw as int)),
        decreases total - k,
    {
        proof {
            assert(nw > 0) by (nonlinear_arith)
                requires k < total, total == nh * nw, 0 <= nh, 0 <= nw;
        }
        let r_i: usize = k / nw;
        let c_i: usize = k % nw;
        proof {
            lemma_fundamental_div_mod(k as int, nw as int);
            lemma_mod_division_less_than_divisor(k as int, nw as int);
            assert(r_i < nh) by (nonlinear_arith)
                requires
                    k < total,
                    total == nh * nw,
                    nw > 0,
                    k as int == (nw as int) * (r_i as int) + (c_i as int),
                    0 <= c_i < nw;
            assert((nw - 1 - c_i) * nh + r_i < total) by (nonlinear_arith)
                requires c_i < nw, r_i < nh, total == nh * nw;
        }
        let idx: usize = (img.height - 1 - c_i) * img.width + r_i;
        let ghost old_data = data@;
        data.push(img.data[idx]);
        proof {
            assert forall|j: int| 0 <= j < k + 1 implies
                #[trigger] data@[j] == img.pixel(
                    img.height - 1 - (j % (nw as int)), j / (nw as int)) by {
                if j < k {
                    assert(data@[j] == old_data[j]);
                } else {
                    assert(j == k);
                    assert((k as int) % (nw as int) == c_i as int);
                    assert((k as int) / (nw as int) == r_i as int);
                    assert(data@[j] == img.data@[(img.height - 1 - c_i as int) * img.width + r_i]);
                }
            }
        }
        k = k + 1;
    }
    let res = Image { width: nw, height: nh, data };
    proof {
        assert(res.wf()) by (nonlinear_arith)
            requires res.data@.len() == nh * nw, res.width == nw, res.height == nh;
        assert forall|r2: int, c2: int|
            0 <= r2 < res.height && 0 <= c2 < res.width implies
            #[trigger] res.pixel(r2, c2) == img.pixel(img.height - 1 - c2, r2) by {
            let j = r2 * (nw as int) + c2;
            assert(0 <= j < total) by (nonlinear_arith)
                requires
                    j == r2 * (nw as int) + c2,
                    0 <= r2 < nh,
                    0 <= c2 < nw,
                    total == nh * nw;
            lemma_fundamental_div_mod_converse(j, nw as int, r2, c2);
            assert(res.data@[j] == img.pixel(img.height - 1 - c2, r2));
        }
    }
    res
}

/// A candidate rotation: one of the four exact quarter-turn multiples. Every
/// candidate is expressible as a quarter turn, so width/height swap behavior
/// is well defined and no interpolation is ever needed.
#[derive(Clone, Copy, PartialEq, Eq, Structural, Debug)]
pub enum Angle {
    Deg0,
    Deg90,
    Deg180,
    Deg270,
}

impl Angle {
    /// The angle in degrees, measured clockwise.
    pub open spec fn degrees(self) -> int {
        match self {
            Angle::Deg0 => 0,
            Angle::Deg90 => 90,
            Angle::Deg180 => 180,
            Angle::Deg270 => 270,
        }
    }

    pub fn to_degrees(self) -> (r: u32)
        ensures
            r == self.degrees(),
    {
        match self {
            Angle::Deg0 => 0,
            Angle::Deg90 => 90,
            Angle::Deg180 => 180,
            Angle::Deg270 => 270,
        }
    }

    /// The angle for a degree count, if it is one of the four quarter-turn
    /// multiples; `None` for every other degree count.
    pub fn from_degrees(deg: u32) -> (r: Option<Angle>)
        ensures
            deg == 0 ==> r == Some(Angle::Deg0),
            deg == 90 ==> r == Some(Angle::Deg90),
            deg == 180 ==> r == Some(Angle::Deg180),
            deg == 270 ==> r == Some(Angle::Deg270),
            deg != 0 && deg != 90 && deg != 180 && deg != 270 ==> r == None::<Angle>,
    {
        if deg == 0 {
            Some(Angle::Deg0)
        } else if deg == 90 {
            Some(Angle::Deg90)
        } else if deg == 180 {
            Some(Angle::Deg180)
        } else if deg == 270 {
            Some(Angle::Deg270)
        } else {
            None
        }
    }
}

/// `dst` is `src` rotated clockwise by `angle`: the identity at 0 degrees, an
/// exact pixel permutation at the other three quarter turns.
pub open spec fn rotated_by(src: Image, dst: Image, angle: Angle) -> bool {
    match angle {
        Angle::Deg0 => dst.same_as(src),
        Angle::Deg90 => rotated_cw(src, dst),
        Angle::Deg180 => rotated_half(src, dst),
        Angle::Deg270 => rotated_ccw(src, dst),
    }
}

/// Rotates the image clockwise by the given quarter-turn angle. Pure: a new
/// image is produced and the source is left as it is. Exact for every angle
/// of the candidate set, so it never fails.
pub fn rotate(img: &Image, angle: Angle) -> (r: Image)
    requires
        img.wf(),
    ensures
        r.wf(),
        rotated_by(*img, r, angle),
{
    match angle {
        Angle::Deg0 => img.clone_image(),
        Angle::Deg90 => rotate_quarter_cw(img),
        Angle::Deg180 => {
            let t = rotate_quarter_cw(img);
            let res = rotate_quarter_cw(&t);
            proof {
                lemma_cw_cw_is_half_turn(*img, t, res);
            }
            res
        },
        Angle::Deg270 => {
            let t1 = rotate_quarter_cw(img);
            let t2 = rotate_quarter_cw(&t1);
            let res = rotate_quarter_cw(&t2);
            proof {
                lemma_cw_thrice_is_ccw(*img, t1, t2, res);
            }
            res
        },
    }
}

/// Re-renders the image at the winning angle. A winning angle of 0 returns
/// the source image unchanged, short-circuiting past the rotator so that no
/// border artifact can be introduced; any other quarter-turn multiple is
/// delegated to the rotator. Fails with `RotationFailed` exactly when the
/// requested angle is not a quarter-turn multiple and so cannot be realized.
pub fn apply_winning_orientation(img: &Image, winning_angle: u32) -> (r: Result<
    Image,
    OrientationError,
>)
    requires
        img.wf(),
    ensures
        winning_angle == 0 ==> (r matches Ok(out) && out.same_as(*img) && out.wf()),
        winning_angle == 90 ==> (r matches Ok(out) && out.wf() && rotated_cw(*img, out)),
        winning_angle == 180 ==> (r matches Ok(out) && out.wf() && rotated_half(*img, out)),
        winning_angle == 270 ==> (r matches Ok(out) && out.wf() && rotated_ccw(*img, out)),
        winning_angle != 0 && winning_angle != 90 && winning_angle != 180 && winning_angle != 270
            ==> r == Err::<Image, OrientationError>(OrientationError::RotationFailed),
{
    match Angle::from_degrees(winning_angle) {
        Some(Angle::Deg0) => Ok(img.clone_image()),
        Some(angle) => Ok(rotate(img, angle)),
        None => Err(OrientationError::RotationFailed),
    }
}

/// Two clockwise quarter turns make a half turn.
pub proof fn lemma_cw_cw_is_half_turn(a: Image, b: Image, c: Image)
    requires
        rotated_cw(a, b),
        rotated_cw(b, c),
    ensures
        rotated_half(a, c),
{
    assert forall|r: int, cc: int|
        0 <= r < c.height && 0 <= cc < c.width implies
        #[trigger] c.pixel(r, cc) == a.pixel(a.height - 1 - r, a.width - 1 - cc) by {
        assert(c.pixel(r, cc) == b.pixel(b.height - 1 - cc, r));
        assert(b.pixel(b.height - 1 - cc, r) == a.pixel(a.height - 1 - r, a.width - 1 - cc));
    }
}

/// Three clockwise quarter turns make one counter-clockwise quarter turn.
pub proof fn lemma_cw_thrice_is_ccw(a: Image, b: Image, c: Image, d: Image)
    requires
        rotated_cw(a, b),
        rotated_cw(b, c),
        rotated_cw(c, d),
    ensures
        rotated_ccw(a, d),
{
    lemma_cw_cw_is_half_turn(a, b, c);
    assert forall|r: int, cc: int|
        0 <= r < d.height && 0 <= cc < d.width implies
        #[trigger] d.pixel(r, cc) == a.pixel(cc, a.width - 1 - r) by {
        assert(d.pixel(r, cc) == c.pixel(c.height - 1 - cc, r));
        assert(c.pixel(c.height - 1 - cc, r) == a.pixel(cc, a.width - 1 - r));
    }
}

/// Four clockwise quarter turns return the original image, pixel for pixel:
/// quarter-turn rotation is exact, and accumulating it around the full circle
/// is the identity.
pub proof fn lemma_four_quarter_turns(a: Image, b: Image, c: Image, d: Image, e: Image)
    requires
        a.wf(),
        e.wf(),
        rotated_cw(a, b),
        rotated_cw(b, c),
        rotated_cw(c, d),
        rotated_cw(d, e),
    ensures
        e.same_as(a),
{
    lemma_cw_cw_is_half_turn(a, b, c);
    lemma_cw_cw_is_half_turn(c, d, e);
    assert forall|r: int, cc: int|
        0 <= r < a.height && 0 <= cc < a.width implies
        #[trigger] e.pixel(r, cc) == a.pixel(r, cc) by {
        assert(e.pixel(r, cc) == c.pixel(c.height - 1 - r, c.width - 1 - cc));
        assert(c.pixel(c.height - 1 - r, c.width - 1 - cc) == a.pixel(r, cc));
    }
    let w = a.width as int;
    let h = a.height as int;
    assert(e.data@.len() == a.data@.len()) by (nonlinear_arith)
        requires
            e.data@.len() == e.width * e.height,
            a.data@.len() == a.width * a.height,
            e.width == a.width,
            e.height == a.height;
    assert forall|k: int| 0 <= k < a.data@.len() implies e.data@[k] == a.data@[k] by {
        assert(w > 0) by (nonlinear_arith)
            requires 0 <= k < a.data@.len(), a.data@.len() == a.width * a.height, w == a.width;
        let r = k / w;
        let cc = k % w;
        lemma_fundamental_div_mod(k, w);
        lemma_mod_division_less_than_divisor(k, w);
        assert(r < h) by (nonlinear_arith)
            requires
                0 <= k < a.data@.len(),
                a.data@.len() == a.width * a.height,
                w == a.width,
                h == a.height,
                w > 0,
                k == w * r + cc,
                0 <= cc < w;
        assert(e.pixel(r, cc) == a.pixel(r, cc));
        assert(r * w + cc == k);
    }
    assert(e.data@ =~= a.data@);
}

} // verus!
