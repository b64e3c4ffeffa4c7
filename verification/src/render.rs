//! Models, viewports, cameras, the render builder and the frame canvas.
//!
//! A [`Canvas`] lives for exactly one frame. The host clears it, sets a
//! viewport and camera, and commits [`ModelRenderBuilder`]s to it; each
//! commit composes a model-view-projection matrix and records one draw
//! command. [`Canvas::finish`] consumes the canvas and hands the recorded
//! commands to the frontend, which replays them on the GPU.

use vstd::prelude::*;
use vstd::arithmetic::div_mod::{
    lemma_div_by_multiple, lemma_div_is_ordered, lemma_div_pos_is_pos, lemma_fundamental_div_mod,
};
use vstd::arithmetic::mul::lemma_mul_inequality;
use crate::fx::{fx_bounded, fx_mul_bits, Fx, COORD_MAX, ENTRY_MAX, FX_ONE, VP_MIN};
use crate::trig::{fx_cos, fx_cos_spec, fx_sin, fx_sin_spec};
use crate::utils::{
    bounded_by, lemma_bounded_from_fields, lemma_mul_bounded, lemma_wf_from_bounded, mat_mul_val,
    Mat4,
};

verus! {

/// Raised when an image asset cannot be read or decoded.
#[derive(Clone, Copy, PartialEq, Eq, Structural, Debug)]
pub struct AssetLoadError;

/// The error type of the image-decoding crate, opaque to this crate.
#[verifier::external_type_specification]
#[verifier::external_body]
pub struct ExImageError(image::ImageError);

/// Raw RGBA pixel rows decoded from an image file, bottom row last.
pub struct RawTexture {
    pub pixels: Vec<u8>,
    pub width: u32,
    pub height: u32,
}

/// Relies on `image::open` followed by `DynamicImage::to_rgba8`: on success
/// the returned buffer holds the image as four-byte RGBA pixels, so it is at
/// least `4 * width * height` bytes long.
#[verifier::external_body]
fn load_image_rgba(path: &str) -> (r: Result<RawTexture, image::ImageError>)
    ensures
        r matches Ok(t) ==> t.pixels@.len() >= 4 * (t.width as int) * (t.height as int),
{
    match image::open(path) {
        Ok(img) => {
            let rgba = img.to_rgba8();
            let (width, height) = rgba.dimensions();
            Ok(RawTexture { pixels: rgba.into_raw(), width, height })
        },
        Err(e) => Err(e),
    }
}

/// One mesh vertex: a position and a texture coordinate, both in fixed
/// point.
#[derive(Clone, Copy, PartialEq, Eq, Debug)]
pub struct Vertex {
    pub position: (Fx, Fx),
    pub tex_coords: (Fx, Fx),
}

impl Vertex {
    /// Builds a vertex from its four coordinates.
    pub fn new(x: Fx, y: Fx, tx: Fx, ty: Fx) -> (r: Vertex)
        ensures
            r == (Vertex { position: (x, y), tex_coords: (tx, ty) }),
    {
        Vertex { position: (x, y), tex_coords: (tx, ty) }
    }
}

/// An immutable mesh (triangle-strip vertices and indices), optionally
/// paired with decoded texture pixels; `texture == None` means the frontend
/// binds its 1x1 placeholder and the flat colour shows. The `id` is assigned
/// by the [`crate::game::Context`] cache and names the mesh in draw
/// commands.
pub struct Model {
    pub id: u64,
    pub vertices: Vec<Vertex>,
    pub indices: Vec<u16>,
    pub texture: Option<RawTexture>,
}

impl Model {
    /// Builds a model from vertex tuples `(x, y, tx, ty)`, triangle-strip
    /// indices, and an optional image path to decode. Fails only when a
    /// texture path is given and its image cannot be decoded.
    pub fn new(vertices: &[(Fx, Fx, Fx, Fx)], indices: &[u16], texture: Option<&str>) -> (r:
        Result<Model, AssetLoadError>)
        ensures
            r matches Ok(m) ==> {
                &&& m.id == 0
                &&& m.vertices@.len() == vertices@.len()
                &&& forall|i: int| 0 <= i < vertices@.len() ==> m.vertices@[i] == (Vertex {
                    position: (vertices@[i].0, vertices@[i].1),
                    tex_coords: (vertices@[i].2, vertices@[i].3),
                })
                &&& m.indices@ == indices@
                &&& (m.texture is Some <==> texture is Some)
            },
            texture is None ==> r is Ok,
            r is Err ==> texture is Some,
    {
        let tex: Option<RawTexture> = match texture {
            None => None,
            Some(path) => match load_image_rgba(path) {
                Ok(t) => Some(t),
                Err(_) => {
                    return Err(AssetLoadError);
                },
            },
        };
        let mut vs: Vec<Vertex> = Vec::new();
        let mut i: usize = 0;
        while i < vertices.len()
            invariant
                0 <= i <= vertices@.len(),
                vs@.len() == i,
                forall|k: int| 0 <= k < i ==> vs@[k] == (Vertex {
                    position: (vertices@[k].0, vertices@[k].1),
                    tex_coords: (vertices@[k].2, vertices@[k].3),
                }),
            decreases vertices@.len() - i,
        {
            let t = vertices[i];
            vs.push(Vertex { position: (t.0, t.1), tex_coords: (t.2, t.3) });
            i = i + 1;
        }
        let mut ix: Vec<u16> = Vec::new();
        let mut j: usize = 0;
        while j < indices.len()
            invariant
                0 <= j <= indices@.len(),
                ix@ == indices@.subrange(0, j as int),
            decreases indices@.len() - j,
        {
            ix.push(indices[j]);
            j = j + 1;
        }
        proof {
            assert(ix@ == indices@);
        }
        Ok(Model { id: 0, vertices: vs, indices: ix, texture: tex })
    }

    /// A unit quad centred on the origin, with texture coordinates covering
    /// the whole image and triangle-strip indices `[0, 1, 3, 2]`.
    pub fn square(texture: Option<&str>) -> (r: Result<Model, AssetLoadError>)
        ensures
            r matches Ok(m) ==> {
                &&& m.id == 0
                &&& m.vertices@ == square_vertices()
                &&& m.indices@ == square_indices()
                &&& (m.texture is Some <==> texture is Some)
            },
            texture is None ==> r is Ok,
            r is Err ==> texture is Some,
    {
        let h = 32768i64;
        let verts: [(Fx, Fx, Fx, Fx); 4] = [
            (Fx { bits: -h }, Fx { bits: -h }, Fx { bits: 0 }, Fx { bits: 0 }),
            (Fx { bits: h }, Fx { bits: -h }, Fx { bits: FX_ONE }, Fx { bits: 0 }),
            (Fx { bits: h }, Fx { bits: h }, Fx { bits: FX_ONE }, Fx { bits: FX_ONE }),
            (Fx { bits: -h }, Fx { bits: h }, Fx { bits: 0 }, Fx { bits: FX_ONE }),
        ];
        let inds: [u16; 4] = [0, 1, 3, 2];
        let r = Model::new(verts.as_slice(), inds.as_slice(), texture);
        proof {
            if r is Ok {
                let m = r->Ok_0;
                assert(m.vertices@ =~= square_vertices());
                assert(m.indices@ =~= square_indices());
            }
        }
        r
    }
}

/// The vertices of the built-in unit quad.
pub open spec fn square_vertices() -> Seq<Vertex> {
    seq![
        Vertex { position: (Fx { bits: -32768i64 }, Fx { bits: -32768i64 }), tex_coords: (Fx { bits: 0i64 }, Fx { bits: 0i64 }) },
        Vertex { position: (Fx { bits: 32768i64 }, Fx { bits: -32768i64 }), tex_coords: (Fx { bits: FX_ONE }, Fx { bits: 0i64 }) },
        Vertex { position: (Fx { bits: 32768i64 }, Fx { bits: 32768i64 }), tex_coords: (Fx { bits: FX_ONE }, Fx { bits: FX_ONE }) },
        Vertex { position: (Fx { bits: -32768i64 }, Fx { bits: 32768i64 }), tex_coords: (Fx { bits: 0i64 }, Fx { bits: FX_ONE }) },
    ]
}

/// The triangle-strip indices of the built-in unit quad.
pub open spec fn square_indices() -> Seq<u16> {
    seq![0u16, 1u16, 3u16, 2u16]
}

/// How a virtual extent is mapped onto the physical surface.
#[derive(Clone, Copy, PartialEq, Eq, Structural, Debug)]
pub enum ViewportScaling {
    /// Fill the whole surface, distorting the aspect ratio if needed.
    Stretch,
    /// Scale uniformly and centre, letterboxing the leftover space.
    Fit,
}

/// The virtual width and height visible in a frame and the policy mapping
/// them onto the physical surface.
#[derive(Clone, Copy, PartialEq, Eq, Structural, Debug)]
pub struct Viewport {
    pub width: Fx,
    pub height: Fx,
    pub scaling: ViewportScaling,
}

impl Viewport {
    /// Both extents positive and within the range whose reciprocal stays a
    /// valid matrix entry.
    pub open spec fn wf(self) -> bool {
        VP_MIN <= self.width.bits <= COORD_MAX && VP_MIN <= self.height.bits <= COORD_MAX
    }

    /// Builds a viewport with the given policy.
    fn new(width: Fx, height: Fx, scaling: ViewportScaling) -> (r: Viewport)
        requires
            VP_MIN <= width.bits <= COORD_MAX,
            VP_MIN <= height.bits <= COORD_MAX,
        ensures
            r == (Viewport { width, height, scaling }),
    {
        Viewport { width, height, scaling }
    }

    /// A viewport that fills the whole surface, ignoring aspect ratio.
    pub fn stretch(width: Fx, height: Fx) -> (r: Viewport)
        requires
            VP_MIN <= width.bits <= COORD_MAX,
            VP_MIN <= height.bits <= COORD_MAX,
        ensures
            r == (Viewport { width, height, scaling: ViewportScaling::Stretch }),
    {
        Viewport::new(width, height, ViewportScaling::Stretch)
    }

    /// A viewport that scales uniformly and centres, letterboxing the rest.
    pub fn fit(width: Fx, height: Fx) -> (r: Viewport)
        requires
            VP_MIN <= width.bits <= COORD_MAX,
            VP_MIN <= height.bits <= COORD_MAX,
        ensures
            r == (Viewport { width, height, scaling: ViewportScaling::Fit }),
    {
        Viewport::new(width, height, ViewportScaling::Fit)
    }

    /// The pixel rectangle `(left, bottom, width, height)` of the surface
    /// that this viewport draws into.
    pub fn get_dimensions(&self, surface: (u32, u32)) -> (r: (u32, u32, u32, u32))
        requires
            self.wf(),
        ensures
            r.0 == vp_rect(*self, surface.0, surface.1).0,
            r.1 == vp_rect(*self, surface.0, surface.1).1,
            r.2 == vp_rect(*self, surface.0, surface.1).2,
            r.3 == vp_rect(*self, surface.0, surface.1).3,
    {
        let sw: u64 = if surface.0 == 0 { 1 } else { surface.0 as u64 };
        let sh: u64 = if surface.1 == 0 { 1 } else { surface.1 as u64 };
        let vw: u64 = self.width.bits as u64;
        let vh: u64 = self.height.bits as u64;
        let smallest: u64 = if sw <= sh { sw } else { sh };
        proof {
            assert(sw * vh <= 0x1_0000_0000 * 0x200_0000) by (nonlinear_arith)
                requires
                    sw <= 0x1_0000_0000,
                    vh <= 0x200_0000,
                    0 <= sw,
                    0 <= vh,
            ;
            assert(sh * vw <= 0x1_0000_0000 * 0x200_0000) by (nonlinear_arith)
                requires
                    sh <= 0x1_0000_0000,
                    vw <= 0x200_0000,
                    0 <= sh,
                    0 <= vw,
            ;
            assert(smallest * vw <= 0x1_0000_0000 * 0x200_0000) by (nonlinear_arith)
                requires
                    smallest <= 0x1_0000_0000,
                    vw <= 0x200_0000,
                    0 <= smallest,
                    0 <= vw,
            ;
            assert(smallest * vh <= 0x1_0000_0000 * 0x200_0000) by (nonlinear_arith)
                requires
                    smallest <= 0x1_0000_0000,
                    vh <= 0x200_0000,
                    0 <= smallest,
                    0 <= vh,
            ;
        }
        match self.scaling {
            ViewportScaling::Stretch => (0, 0, sw as u32, sh as u32),
            ViewportScaling::Fit => {
                if sw * vh > sh * vw {
                    let ew = smallest * vw / vh;
                    proof {
                        lemma_mul_inequality(smallest as int, sh as int, vw as int);
                        lemma_div_is_ordered(
                            (smallest * vw) as int,
                            (sw * vh) as int,
                            vh as int,
                        );
                        lemma_div_by_multiple(sw as int, vh as int);
                        lemma_div_pos_is_pos((smallest * vw) as int, vh as int);
                    }
                    let left = (sw - ew) / 2;
                    (left as u32, 0, ew as u32, smallest as u32)
                } else {
                    let eh = smallest * vh / vw;
                    proof {
                        lemma_mul_inequality(smallest as int, sw as int, vh as int);
                        lemma_div_is_ordered(
                            (smallest * vh) as int,
                            (sh * vw) as int,
                            vw as int,
                        );
                        lemma_div_by_multiple(sh as int, vw as int);
                        lemma_div_pos_is_pos((smallest * vh) as int, vw as int);
                    }
                    let bottom = if sh * vw > sw * vh {
                        (sh - eh) / 2
                    } else {
                        0
                    };
                    (0, bottom as u32, smallest as u32, eh as u32)
                }
            },
        }
    }
}

/// Surface sides are floored at one pixel: a zero-area surface would make
/// the aspect ratios below meaningless.
pub open spec fn clamped_side(s: u32) -> int {
    if s == 0 {
        1
    } else {
        s as int
    }
}

/// The pixel rectangle `(left, bottom, width, height)` that a viewport maps
/// onto a surface of the given size. Stretch uses the full surface from the
/// origin. Fit takes the largest rectangle of the virtual aspect ratio
/// whose sides do not exceed the smaller surface side, and centres it along
/// the axis on which the surface is larger.
pub open spec fn vp_rect(vp: Viewport, sw0: u32, sh0: u32) -> (int, int, int, int) {
    let sw = clamped_side(sw0);
    let sh = clamped_side(sh0);
    let vw = vp.width.bits as int;
    let vh = vp.height.bits as int;
    let smallest = if sw <= sh {
        sw
    } else {
        sh
    };
    if vp.scaling is Stretch {
        (0, 0, sw, sh)
    } else if sw * vh > sh * vw {
        let ew = (smallest * vw) / vh;
        ((sw - ew) / 2, 0, ew, smallest)
    } else {
        let eh = (smallest * vh) / vw;
        let bottom = if sh * vw > sw * vh {
            (sh - eh) / 2
        } else {
            0
        };
        (0, bottom, smallest, eh)
    }
}

/// A fitted viewport never exceeds the physical surface, and its rectangle
/// keeps the virtual aspect ratio up to one pixel-rounding unit on either
/// side.
pub proof fn lemma_fit_dimensions(vp: Viewport, sw0: u32, sh0: u32)
    requires
        vp.wf(),
        vp.scaling is Fit,
    ensures
        ({
            let r = vp_rect(vp, sw0, sh0);
            let vw = vp.width.bits as int;
            let vh = vp.height.bits as int;
            &&& 0 <= r.2 <= clamped_side(sw0)
            &&& 0 <= r.3 <= clamped_side(sh0)
            &&& r.2 * vh <= r.3 * vw + vw
            &&& r.3 * vw <= r.2 * vh + vh
        }),
{
    let sw = clamped_side(sw0);
    let sh = clamped_side(sh0);
    let vw = vp.width.bits as int;
    let vh = vp.height.bits as int;
    let smallest = if sw <= sh {
        sw
    } else {
        sh
    };
    if sw * vh > sh * vw {
        let ew = (smallest * vw) / vh;
        lemma_mul_inequality(smallest, sh, vw);
        lemma_div_is_ordered(smallest * vw, sw * vh, vh);
        lemma_div_by_multiple(sw, vh);
        lemma_div_pos_is_pos(smallest * vw, vh);
        lemma_fundamental_div_mod(smallest * vw, vh);
        assert(ew * vh <= smallest * vw < ew * vh + vh) by (nonlinear_arith)
            requires
                vh > 0,
                smallest * vw == vh * ew + (smallest * vw) % vh,
                0 <= (smallest * vw) % vh < vh,
        ;
    } else {
        let eh = (smallest * vh) / vw;
        lemma_mul_inequality(smallest, sw, vh);
        lemma_div_is_ordered(smallest * vh, sh * vw, vw);
        lemma_div_by_multiple(sh, vw);
        lemma_div_pos_is_pos(smallest * vh, vw);
        lemma_fundamental_div_mod(smallest * vh, vw);
        assert(eh * vw <= smallest * vh < eh * vw + vw) by (nonlinear_arith)
            requires
                vw > 0,
                smallest * vh == vw * eh + (smallest * vh) % vw,
                0 <= (smallest * vh) % vw < vw,
        ;
    }
}

/// A stretched viewport always starts at the origin and covers the full
/// (one-pixel-floored) surface.
pub proof fn lemma_stretch_dimensions(vp: Viewport, sw0: u32, sh0: u32)
    requires
        vp.wf(),
        vp.scaling is Stretch,
    ensures
        vp_rect(vp, sw0, sh0) == (0int, 0int, clamped_side(sw0), clamped_side(sh0)),
{
}

/// A 2D camera: a world-space offset subtracted from every drawn position.
#[derive(Clone, Copy, PartialEq, Eq, Structural, Debug)]
pub struct Camera {
    pub x: Fx,
    pub y: Fx,
}

impl Camera {
    /// A camera at the origin.
    pub fn new() -> (r: Camera)
        ensures
            r == (Camera { x: Fx { bits: 0 }, y: Fx { bits: 0 } }),
    {
        Camera { x: Fx { bits: 0 }, y: Fx { bits: 0 } }
    }
}

/// A translation matrix placing a model at `(px, py)`.
pub open spec fn translation_val(px: Fx, py: Fx) -> Mat4 {
    Mat4 {
        m00: FX_ONE, m01: 0i64, m02: 0i64, m03: px.bits,
        m10: 0i64, m11: FX_ONE, m12: 0i64, m13: py.bits,
        m20: 0i64, m21: 0i64, m22: FX_ONE, m23: 0i64,
        m30: 0i64, m31: 0i64, m32: 0i64, m33: FX_ONE,
    }
}

/// A counter-clockwise rotation matrix about the origin. Its sine and
/// cosine entries lie in `[-1, 1]`, so the casts below are exact.
pub open spec fn rotation_val(rot: Fx) -> Mat4 {
    Mat4 {
        m00: fx_cos_spec(rot.bits as int) as i64,
        m01: (-fx_sin_spec(rot.bits as int)) as i64,
        m02: 0i64,
        m03: 0i64,
        m10: fx_sin_spec(rot.bits as int) as i64,
        m11: fx_cos_spec(rot.bits as int) as i64,
        m12: 0i64,
        m13: 0i64,
        m20: 0i64, m21: 0i64, m22: FX_ONE, m23: 0i64,
        m30: 0i64, m31: 0i64, m32: 0i64, m33: FX_ONE,
    }
}

/// An axis-aligned scale matrix.
pub open spec fn scale_val(sx: Fx, sy: Fx) -> Mat4 {
    Mat4 {
        m00: sx.bits, m01: 0i64, m02: 0i64, m03: 0i64,
        m10: 0i64, m11: sy.bits, m12: 0i64, m13: 0i64,
        m20: 0i64, m21: 0i64, m22: FX_ONE, m23: 0i64,
        m30: 0i64, m31: 0i64, m32: 0i64, m33: FX_ONE,
    }
}

/// The model matrix of a builder: translation times rotation times scale,
/// so a vertex is scaled, then rotated, then translated.
pub open spec fn model_val(b: ModelRenderBuilder) -> Mat4 {
    mat_mul_val(
        mat_mul_val(translation_val(b.position.0, b.position.1), rotation_val(b.rotation)),
        scale_val(b.scale.0, b.scale.1),
    )
}

/// The fixed-point reciprocal of a positive extent, in bits.
pub open spec fn fx_recip_bits(v: int) -> int {
    0x1_0000_0000int / v
}

/// The projection matrix of a viewport: scales world units by the
/// reciprocal of the virtual extent on each axis.
pub open spec fn projection_val(vp: Viewport) -> Mat4 {
    Mat4 {
        m00: fx_recip_bits(vp.width.bits as int) as i64, m01: 0i64, m02: 0i64, m03: 0i64,
        m10: 0i64, m11: fx_recip_bits(vp.height.bits as int) as i64, m12: 0i64, m13: 0i64,
        m20: 0i64, m21: 0i64, m22: FX_ONE, m23: 0i64,
        m30: 0i64, m31: 0i64, m32: 0i64, m33: FX_ONE,
    }
}

/// The view matrix of a camera: a pure translation away from the camera, so
/// the world moves opposite the eye.
pub open spec fn view_val(cam: Camera) -> Mat4 {
    Mat4 {
        m00: FX_ONE, m01: 0i64, m02: 0i64, m03: (-cam.x.bits) as i64,
        m10: 0i64, m11: FX_ONE, m12: 0i64, m13: (-cam.y.bits) as i64,
        m20: 0i64, m21: 0i64, m22: FX_ONE, m23: 0i64,
        m30: 0i64, m31: 0i64, m32: 0i64, m33: FX_ONE,
    }
}

/// The full model-view-projection matrix of one draw call.
pub open spec fn mvp_val(vp: Viewport, cam: Camera, b: ModelRenderBuilder) -> Mat4 {
    mat_mul_val(mat_mul_val(projection_val(vp), view_val(cam)), model_val(b))
}

/// A transient, single-use accumulator for one draw call: position, scale,
/// rotation and colour, committed to a [`Canvas`] exactly once.
pub struct ModelRenderBuilder<'a> {
    pub model: &'a Model,
    pub position: (Fx, Fx),
    pub scale: (Fx, Fx),
    pub rotation: Fx,
    pub color: (Fx, Fx, Fx),
}

/// The builder after a translation: offsets added to the position, all
/// other fields kept.
pub open spec fn translated(b: ModelRenderBuilder, dx: Fx, dy: Fx) -> ModelRenderBuilder {
    ModelRenderBuilder {
        model: b.model,
        position: (
            Fx { bits: (b.position.0.bits + dx.bits) as i64 },
            Fx { bits: (b.position.1.bits + dy.bits) as i64 },
        ),
        scale: b.scale,
        rotation: b.rotation,
        color: b.color,
    }
}

/// The builder after a shade: the colour overwritten, all other fields
/// kept.
pub open spec fn shaded(b: ModelRenderBuilder, red: Fx, green: Fx, blue: Fx) -> ModelRenderBuilder {
    ModelRenderBuilder {
        model: b.model,
        position: b.position,
        scale: b.scale,
        rotation: b.rotation,
        color: (red, green, blue),
    }
}

/// Two chained translations accumulate their offsets, while two chained
/// shades overwrite: the final colour is the last one given and the rest of
/// the builder is untouched.
pub proof fn lemma_builder_composition(
    b: ModelRenderBuilder,
    dx1: Fx, dy1: Fx, dx2: Fx, dy2: Fx,
    c1: (Fx, Fx, Fx), c2: (Fx, Fx, Fx),
)
    requires
        fx_bounded(b.position.0.bits + dx1.bits),
        fx_bounded(b.position.1.bits + dy1.bits),
        fx_bounded(b.position.0.bits + dx1.bits + dx2.bits),
        fx_bounded(b.position.1.bits + dy1.bits + dy2.bits),
    ensures
        ({
            let t = translated(translated(b, dx1, dy1), dx2, dy2);
            &&& t.position.0.bits == b.position.0.bits + dx1.bits + dx2.bits
            &&& t.position.1.bits == b.position.1.bits + dy1.bits + dy2.bits
            &&& t.model == b.model && t.scale == b.scale && t.rotation == b.rotation
                && t.color == b.color
        }),
        ({
            let sh = shaded(shaded(b, c1.0, c1.1, c1.2), c2.0, c2.1, c2.2);
            &&& sh.color == c2
            &&& sh.model == b.model && sh.position == b.position && sh.scale == b.scale
                && sh.rotation == b.rotation
        }),
{
}

impl<'a> ModelRenderBuilder<'a> {
    /// Position, scale and rotation all within the coordinate range the
    /// transform pipeline admits.
    pub open spec fn wf(self) -> bool {
        &&& fx_bounded(self.position.0.bits as int)
        &&& fx_bounded(self.position.1.bits as int)
        &&& fx_bounded(self.scale.0.bits as int)
        &&& fx_bounded(self.scale.1.bits as int)
        &&& fx_bounded(self.rotation.bits as int)
    }

    /// A fresh builder: at the origin, unit scale, no rotation, black.
    pub fn new(model: &'a Model) -> (r: ModelRenderBuilder<'a>)
        ensures
            r.model == model,
            r.position == (Fx { bits: 0i64 }, Fx { bits: 0i64 }),
            r.scale == (Fx { bits: FX_ONE }, Fx { bits: FX_ONE }),
            r.rotation == (Fx { bits: 0i64 }),
            r.color == (Fx { bits: 0i64 }, Fx { bits: 0i64 }, Fx { bits: 0i64 }),
            r.wf(),
    {
        ModelRenderBuilder {
            model,
            position: (Fx { bits: 0 }, Fx { bits: 0 }),
            scale: (Fx { bits: FX_ONE }, Fx { bits: FX_ONE }),
            rotation: Fx { bits: 0 },
            color: (Fx { bits: 0 }, Fx { bits: 0 }, Fx { bits: 0 }),
        }
    }

    /// Adds to the current position.
    pub fn translate(self, dx: Fx, dy: Fx) -> (r: ModelRenderBuilder<'a>)
        requires
            fx_bounded(self.position.0.bits + dx.bits),
            fx_bounded(self.position.1.bits + dy.bits),
        ensures
            r == translated(self, dx, dy),
    {
        ModelRenderBuilder {
            position: (
                Fx { bits: self.position.0.bits + dx.bits },
                Fx { bits: self.position.1.bits + dy.bits },
            ),
            ..self
        }
    }

    /// Adds a position offset given as a pair.
    pub fn translate_tup(self, d: (Fx, Fx)) -> (r: ModelRenderBuilder<'a>)
        requires
            fx_bounded(self.position.0.bits + d.0.bits),
            fx_bounded(self.position.1.bits + d.1.bits),
        ensures
            r == translated(self, d.0, d.1),
    {
        self.translate(d.0, d.1)
    }

    /// Multiplies the current scale component-wise; repeated calls
    /// compound.
    pub fn scale(self, x_mult: Fx, y_mult: Fx) -> (r: ModelRenderBuilder<'a>)
        requires
            -ENTRY_MAX <= self.scale.0.bits <= ENTRY_MAX,
            -ENTRY_MAX <= self.scale.1.bits <= ENTRY_MAX,
            -ENTRY_MAX <= x_mult.bits <= ENTRY_MAX,
            -ENTRY_MAX <= y_mult.bits <= ENTRY_MAX,
        ensures
            r.scale.0.bits == fx_mul_bits(self.scale.0.bits as int, x_mult.bits as int),
            r.scale.1.bits == fx_mul_bits(self.scale.1.bits as int, y_mult.bits as int),
            r.model == self.model && r.position == self.position && r.rotation == self.rotation
                && r.color == self.color,
    {
        ModelRenderBuilder {
            scale: (self.scale.0.times(x_mult), self.scale.1.times(y_mult)),
            ..self
        }
    }

    /// Multiplies the scale by a factor pair.
    pub fn scale_tup(self, m: (Fx, Fx)) -> (r: ModelRenderBuilder<'a>)
        requires
            -ENTRY_MAX <= self.scale.0.bits <= ENTRY_MAX,
            -ENTRY_MAX <= self.scale.1.bits <= ENTRY_MAX,
            -ENTRY_MAX <= m.0.bits <= ENTRY_MAX,
            -ENTRY_MAX <= m.1.bits <= ENTRY_MAX,
        ensures
            r.scale.0.bits == fx_mul_bits(self.scale.0.bits as int, m.0.bits as int),
            r.scale.1.bits == fx_mul_bits(self.scale.1.bits as int, m.1.bits as int),
            r.model == self.model && r.position == self.position && r.rotation == self.rotation
                && r.color == self.color,
    {
        self.scale(m.0, m.1)
    }

    /// Adds to the current rotation, in radians, counter-clockwise.
    pub fn rotate(self, by_rad: Fx) -> (r: ModelRenderBuilder<'a>)
        requires
            fx_bounded(self.rotation.bits + by_rad.bits),
        ensures
            r.rotation.bits == self.rotation.bits + by_rad.bits,
            r.model == self.model && r.position == self.position && r.scale == self.scale
                && r.color == self.color,
    {
        ModelRenderBuilder { rotation: Fx { bits: self.rotation.bits + by_rad.bits }, ..self }
    }

    /// Overwrites the colour: the last shade wins.
    pub fn shade(self, red: Fx, green: Fx, blue: Fx) -> (r: ModelRenderBuilder<'a>)
        ensures
            r == shaded(self, red, green, blue),
    {
        ModelRenderBuilder { color: (red, green, blue), ..self }
    }

    /// Overwrites the colour with a triple.
    pub fn shade_tup(self, c: (Fx, Fx, Fx)) -> (r: ModelRenderBuilder<'a>)
        ensures
            r == shaded(self, c.0, c.1, c.2),
    {
        self.shade(c.0, c.1, c.2)
    }

    /// Hands the accumulated state to the canvas for drawing, consuming the
    /// builder.
    pub fn commit(self, canvas: &mut Canvas)
        requires
            self.wf(),
            old(canvas).wf(),
        ensures
            final(canvas).commands@ == old(canvas).commands@.push(
                CanvasCommand::Draw { call: draw_call_spec(*old(canvas), self) },
            ),
            final(canvas).surface_size == old(canvas).surface_size,
            final(canvas).viewport == old(canvas).viewport,
            final(canvas).camera == old(canvas).camera,
    {
        canvas.render_model_from_builder(self);
    }

    /// Composes this builder's model matrix: translation times rotation
    /// times scale.
    fn get_model_matrix(&self) -> (r: Mat4)
        requires
            self.wf(),
        ensures
            r == model_val(*self),
            bounded_by(r, ENTRY_MAX as int),
    {
        let c = fx_cos(self.rotation);
        let s = fx_sin(self.rotation);
        let t_m = Mat4 {
            m00: FX_ONE, m01: 0, m02: 0, m03: self.position.0.bits,
            m10: 0, m11: FX_ONE, m12: 0, m13: self.position.1.bits,
            m20: 0, m21: 0, m22: FX_ONE, m23: 0,
            m30: 0, m31: 0, m32: 0, m33: FX_ONE,
        };
        let r_m = Mat4 {
            m00: c.bits, m01: -s.bits, m02: 0, m03: 0,
            m10: s.bits, m11: c.bits, m12: 0, m13: 0,
            m20: 0, m21: 0, m22: FX_ONE, m23: 0,
            m30: 0, m31: 0, m32: 0, m33: FX_ONE,
        };
        let s_m = Mat4 {
            m00: self.scale.0.bits, m01: 0, m02: 0, m03: 0,
            m10: 0, m11: self.scale.1.bits, m12: 0, m13: 0,
            m20: 0, m21: 0, m22: FX_ONE, m23: 0,
            m30: 0, m31: 0, m32: 0, m33: FX_ONE,
        };
        proof {
            assert(t_m == translation_val(self.position.0, self.position.1));
            assert(r_m == rotation_val(self.rotation));
            assert(s_m == scale_val(self.scale.0, self.scale.1));
            lemma_bounded_from_fields(t_m, COORD_MAX as int);
            lemma_bounded_from_fields(r_m, FX_ONE as int);
            lemma_bounded_from_fields(s_m, COORD_MAX as int);
            lemma_wf_from_bounded(t_m, COORD_MAX as int);
            lemma_wf_from_bounded(r_m, FX_ONE as int);
        }
        let tr = t_m.mul(r_m);
        proof {
            lemma_mul_bounded(t_m, r_m, COORD_MAX as int, FX_ONE as int);
            lemma_wf_from_bounded(tr, 0x800_0000);
            lemma_wf_from_bounded(s_m, COORD_MAX as int);
        }
        let m = tr.mul(s_m);
        proof {
            lemma_mul_bounded(tr, s_m, 0x800_0000, COORD_MAX as int);
        }
        m
    }
}

/// One draw call handed to the frontend: which mesh, its composed
/// model-view-projection matrix, its flat colour, whether a texture is
/// bound, and the pixel rectangle to draw into.
#[derive(Clone, Copy, PartialEq, Eq, Debug)]
pub struct DrawCall {
    pub model_id: u64,
    pub textured: bool,
    pub mvp: Mat4,
    pub color: (Fx, Fx, Fx),
    pub viewport_rect: (u32, u32, u32, u32),
}

/// One recorded canvas operation, replayed in order by the frontend.
#[derive(Clone, Copy, PartialEq, Eq, Debug)]
pub enum CanvasCommand {
    /// Clear the frame to an opaque colour.
    Clear { color: (Fx, Fx, Fx) },
    /// Issue one draw call.
    Draw { call: DrawCall },
}

/// The draw call that committing builder `b` on canvas `c` records.
pub open spec fn draw_call_spec(c: Canvas, b: ModelRenderBuilder) -> DrawCall {
    DrawCall {
        model_id: b.model.id,
        textured: b.model.texture is Some,
        mvp: mvp_val(c.viewport, c.camera, b),
        color: b.color,
        viewport_rect: rect_to_u32(vp_rect(c.viewport, c.surface_size.0, c.surface_size.1)),
    }
}

/// Narrows a pixel rectangle whose sides are known to fit `u32`.
pub open spec fn rect_to_u32(r: (int, int, int, int)) -> (u32, u32, u32, u32) {
    (r.0 as u32, r.1 as u32, r.2 as u32, r.3 as u32)
}

/// A per-frame drawing surface: the current viewport and camera, and the
/// commands recorded so far. Constructed fresh each frame and consumed by
/// [`Canvas::finish`].
pub struct Canvas {
    pub surface_size: (u32, u32),
    pub viewport: Viewport,
    pub camera: Camera,
    pub commands: Vec<CanvasCommand>,
}

impl Canvas {
    /// The viewport and camera are within the transform pipeline's range.
    pub open spec fn wf(self) -> bool {
        &&& self.viewport.wf()
        &&& fx_bounded(self.camera.x.bits as int)
        &&& fx_bounded(self.camera.y.bits as int)
    }

    /// A fresh canvas for a surface of the given pixel size: a one-by-one
    /// stretched viewport, the camera at the origin, nothing recorded.
    pub fn new(surface_size: (u32, u32)) -> (r: Canvas)
        ensures
            r.surface_size == surface_size,
            r.viewport == (Viewport {
                width: Fx { bits: FX_ONE },
                height: Fx { bits: FX_ONE },
                scaling: ViewportScaling::Stretch,
            }),
            r.camera == (Camera { x: Fx { bits: 0i64 }, y: Fx { bits: 0i64 } }),
            r.commands@ == Seq::<CanvasCommand>::empty(),
            r.wf(),
    {
        let r = Canvas {
            surface_size,
            viewport: Viewport::stretch(Fx::one(), Fx::one()),
            camera: Camera::new(),
            commands: Vec::new(),
        };
        proof {
            assert(r.commands@ =~= Seq::<CanvasCommand>::empty());
        }
        r
    }

    /// Ends the frame: consumes the canvas and hands the recorded commands
    /// to the frontend for replay and presentation.
    pub fn finish(self) -> (r: Vec<CanvasCommand>)
        ensures
            r@ == self.commands@,
    {
        self.commands
    }

    /// Replaces the viewport with a stretching one for the rest of the
    /// frame.
    pub fn stretch(&mut self, width: Fx, height: Fx)
        requires
            VP_MIN <= width.bits <= COORD_MAX,
            VP_MIN <= height.bits <= COORD_MAX,
        ensures
            final(self).viewport == (Viewport { width, height, scaling: ViewportScaling::Stretch }),
            final(self).surface_size == old(self).surface_size,
            final(self).camera == old(self).camera,
            final(self).commands@ == old(self).commands@,
    {
        self.viewport = Viewport::stretch(width, height);
    }

    /// Replaces the viewport with a fitting one for the rest of the frame.
    pub fn fit(&mut self, width: Fx, height: Fx)
        requires
            VP_MIN <= width.bits <= COORD_MAX,
            VP_MIN <= height.bits <= COORD_MAX,
        ensures
            final(self).viewport == (Viewport { width, height, scaling: ViewportScaling::Fit }),
            final(self).surface_size == old(self).surface_size,
            final(self).camera == old(self).camera,
            final(self).commands@ == old(self).commands@,
    {
        self.viewport = Viewport::fit(width, height);
    }

    /// Moves the camera to an absolute position for the rest of the frame.
    pub fn look_at(&mut self, x: Fx, y: Fx)
        requires
            fx_bounded(x.bits as int),
            fx_bounded(y.bits as int),
        ensures
            final(self).camera == (Camera { x, y }),
            final(self).surface_size == old(self).surface_size,
            final(self).viewport == old(self).viewport,
            final(self).commands@ == old(self).commands@,
    {
        self.camera = Camera { x, y };
    }

    /// Records a clear of the whole frame to an opaque colour.
    pub fn clear(&mut self, red: Fx, green: Fx, blue: Fx)
        ensures
            final(self).commands@ == old(self).commands@.push(
                CanvasCommand::Clear { color: (red, green, blue) },
            ),
            final(self).surface_size == old(self).surface_size,
            final(self).viewport == old(self).viewport,
            final(self).camera == old(self).camera,
    {
        self.commands.push(CanvasCommand::Clear { color: (red, green, blue) });
    }

    /// Composes projection, view and model matrices for one builder and
    /// records the resulting draw call.
    pub fn render_model_from_builder(&mut self, renderer: ModelRenderBuilder)
        requires
            old(self).wf(),
            renderer.wf(),
        ensures
            final(self).commands@ == old(self).commands@.push(
                CanvasCommand::Draw { call: draw_call_spec(*old(self), renderer) },
            ),
            final(self).surface_size == old(self).surface_size,
            final(self).viewport == old(self).viewport,
            final(self).camera == old(self).camera,
    {
        let rect = self.viewport.get_dimensions(self.surface_size);
        let rw = fx_recip(self.viewport.width);
        let rh = fx_recip(self.viewport.height);
        let p_m = Mat4 {
            m00: rw, m01: 0, m02: 0, m03: 0,
            m10: 0, m11: rh, m12: 0, m13: 0,
            m20: 0, m21: 0, m22: FX_ONE, m23: 0,
            m30: 0, m31: 0, m32: 0, m33: FX_ONE,
        };
        let v_m = Mat4 {
            m00: FX_ONE, m01: 0, m02: 0, m03: -self.camera.x.bits,
            m10: 0, m11: FX_ONE, m12: 0, m13: -self.camera.y.bits,
            m20: 0, m21: 0, m22: FX_ONE, m23: 0,
            m30: 0, m31: 0, m32: 0, m33: FX_ONE,
        };
        proof {
            assert(p_m == projection_val(old(self).viewport));
            assert(v_m == view_val(old(self).camera));
            lemma_bounded_from_fields(p_m, 0x100_0000);
            lemma_bounded_from_fields(v_m, COORD_MAX as int);
            lemma_wf_from_bounded(p_m, 0x100_0000);
            lemma_wf_from_bounded(v_m, COORD_MAX as int);
        }
        let pv = p_m.mul(v_m);
        let m_m = renderer.get_model_matrix();
        proof {
            lemma_mul_bounded(p_m, v_m, 0x100_0000, COORD_MAX as int);
            lemma_wf_from_bounded(pv, 0x8_0000_0000);
            lemma_wf_from_bounded(m_m, ENTRY_MAX as int);
        }
        let mvp = pv.mul(m_m);
        let call = DrawCall {
            model_id: renderer.model.id,
            textured: renderer.model.texture.is_some(),
            mvp,
            color: renderer.color,
            viewport_rect: rect,
        };
        proof {
            assert(call == draw_call_spec(*old(self), renderer));
        }
        self.commands.push(CanvasCommand::Draw { call });
    }
}

/// The fixed-point reciprocal of a viewport extent.
fn fx_recip(v: Fx) -> (r: i64)
    requires
        VP_MIN <= v.bits <= COORD_MAX,
    ensures
        r == fx_recip_bits(v.bits as int),
        0 < r <= 0x100_0000,
{
    proof {
        vstd::arithmetic::div_mod::lemma_div_is_ordered_by_denominator(
            0x1_0000_0000,
            VP_MIN as int,
            v.bits as int,
        );
        vstd::arithmetic::div_mod::lemma_div_is_ordered_by_denominator(
            0x1_0000_0000,
            v.bits as int,
            COORD_MAX as int,
        );
    }
    (0x1_0000_0000u64 / (v.bits as u64)) as i64
}

} // verus!
