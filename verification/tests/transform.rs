use gamelib::fx::{Fx, FX_ONE};
use gamelib::render::Model;
use gamelib::trig::{fx_cos, fx_sin};
use gamelib::utils::{Mat4, Rectangle};

fn diag(a: i64, b: i64, c: i64, d: i64) -> Mat4 {
    Mat4 {
        m00: a, m01: 0, m02: 0, m03: 0,
        m10: 0, m11: b, m12: 0, m13: 0,
        m20: 0, m21: 0, m22: c, m23: 0,
        m30: 0, m31: 0, m32: 0, m33: d,
    }
}

#[test]
fn identity_is_left_and_right_unit() {
    let m = Mat4 {
        m00: 3 * FX_ONE, m01: -2 * FX_ONE, m02: 7, m03: 123456,
        m10: 0, m11: 5 * FX_ONE, m12: -9, m13: -654321,
        m20: 11, m21: 13, m22: FX_ONE, m23: 0,
        m30: -17, m31: 19, m32: 0, m33: FX_ONE,
    };
    assert_eq!(Mat4::identity().mul(m), m);
    assert_eq!(m.mul(Mat4::identity()), m);
}

#[test]
fn product_matches_hand_computation() {
    // diag(2) * diag(3) == diag(6), exactly, in fixed point.
    let a = diag(2 * FX_ONE, 2 * FX_ONE, FX_ONE, FX_ONE);
    let b = diag(3 * FX_ONE, 3 * FX_ONE, FX_ONE, FX_ONE);
    assert_eq!(a.mul(b), diag(6 * FX_ONE, 6 * FX_ONE, FX_ONE, FX_ONE));
}

#[test]
fn product_associative_on_exact_inputs() {
    // With whole-unit entries every rescaling is exact, so the fixed-point
    // product is associative on these inputs.
    let a = Mat4 {
        m00: FX_ONE, m01: 2 * FX_ONE, m02: 0, m03: 3 * FX_ONE,
        m10: 0, m11: FX_ONE, m12: 0, m13: -4 * FX_ONE,
        m20: 0, m21: 0, m22: FX_ONE, m23: 0,
        m30: 0, m31: 0, m32: 0, m33: FX_ONE,
    };
    let b = Mat4 {
        m00: 2 * FX_ONE, m01: 0, m02: 0, m03: -FX_ONE,
        m10: FX_ONE, m11: 3 * FX_ONE, m12: 0, m13: 0,
        m20: 0, m21: 0, m22: FX_ONE, m23: 0,
        m30: 0, m31: 0, m32: 0, m33: FX_ONE,
    };
    let c = Mat4 {
        m00: -FX_ONE, m01: 0, m02: 0, m03: 5 * FX_ONE,
        m10: 0, m11: 2 * FX_ONE, m12: 0, m13: 7 * FX_ONE,
        m20: 0, m21: 0, m22: FX_ONE, m23: 0,
        m30: 0, m31: 0, m32: 0, m33: FX_ONE,
    };
    assert_eq!(a.mul(b).mul(c), a.mul(b.mul(c)));
}

#[test]
fn builder_translate_accumulates() {
    let m = Model::square(None).unwrap();
    let b = gamelib::render::ModelRenderBuilder::new(&m)
        .translate(Fx::from_int(1), Fx::from_int(2))
        .translate(Fx::from_int(3), Fx::from_int(-5));
    assert_eq!(b.position.0.bits, 4 * FX_ONE);
    assert_eq!(b.position.1.bits, -3 * FX_ONE);
}

#[test]
fn builder_shade_overwrites() {
    let m = Model::square(None).unwrap();
    let b = gamelib::render::ModelRenderBuilder::new(&m)
        .shade(Fx::from_int(1), Fx::from_int(0), Fx::from_int(0))
        .shade(Fx::from_int(0), Fx::from_int(1), Fx::from_int(1));
    assert_eq!(b.color.0.bits, 0);
    assert_eq!(b.color.1.bits, FX_ONE);
    assert_eq!(b.color.2.bits, FX_ONE);
}

#[test]
fn builder_scale_compounds() {
    let m = Model::square(None).unwrap();
    let b = gamelib::render::ModelRenderBuilder::new(&m)
        .scale(Fx::from_int(2), Fx::from_int(2))
        .scale(Fx::from_int(3), Fx::from_int(1));
    assert_eq!(b.scale.0.bits, 6 * FX_ONE);
    assert_eq!(b.scale.1.bits, 2 * FX_ONE);
}

#[test]
fn builder_rotate_accumulates() {
    let m = Model::square(None).unwrap();
    let b = gamelib::render::ModelRenderBuilder::new(&m)
        .rotate(Fx::from_bits(102944))
        .rotate(Fx::from_bits(102944));
    assert_eq!(b.rotation.bits, 205888);
}

#[test]
fn trig_exact_at_axes() {
    assert_eq!(fx_cos(Fx::from_bits(0)).bits, FX_ONE);
    assert_eq!(fx_sin(Fx::from_bits(0)).bits, 0);
    // a quarter turn, pi/2 in fixed-point radians
    assert_eq!(fx_cos(Fx::from_bits(102944)).bits, 0);
    assert_eq!(fx_sin(Fx::from_bits(102944)).bits, FX_ONE);
}

#[test]
fn trig_series_values() {
    // half a turn: cosine -1 up to the series' truncation error
    assert_eq!(fx_cos(Fx::from_bits(205887)).bits, -65527);
    assert_eq!(fx_sin(Fx::from_bits(205887)).bits, 0);
    // an eighth of a turn: both close to sqrt(2)/2 = 46340.5 bits
    assert_eq!(fx_cos(Fx::from_bits(51472)).bits, 46341);
    assert_eq!(fx_sin(Fx::from_bits(51472)).bits, 46342);
    // negative angles reduce into the circle
    assert_eq!(fx_sin(Fx::from_bits(-102944)).bits, -65527);
}

#[test]
fn model_square_shape() {
    let m = Model::square(None).unwrap();
    assert_eq!(m.vertices.len(), 4);
    assert_eq!(m.vertices[0].position.0.bits, -32768);
    assert_eq!(m.vertices[0].position.1.bits, -32768);
    assert_eq!(m.vertices[2].position.0.bits, 32768);
    assert_eq!(m.vertices[2].tex_coords.1.bits, FX_ONE);
    assert_eq!(m.indices, vec![0, 1, 3, 2]);
    assert!(m.texture.is_none());
}

#[test]
fn model_new_maps_vertices() {
    let verts = [
        (Fx::from_int(0), Fx::from_int(0), Fx::from_int(0), Fx::from_int(0)),
        (Fx::from_int(1), Fx::from_int(2), Fx::from_int(1), Fx::from_int(0)),
    ];
    let inds = [0u16, 1];
    let m = Model::new(&verts, &inds, None).unwrap();
    assert_eq!(m.vertices.len(), 2);
    assert_eq!(m.vertices[1].position.1.bits, 2 * FX_ONE);
    assert_eq!(m.indices, vec![0, 1]);
}

#[test]
fn rectangle_collision() {
    let a = Rectangle::new(Fx::from_int(0), Fx::from_int(0), Fx::from_int(2), Fx::from_int(2));
    let b = Rectangle::new(Fx::from_int(1), Fx::from_int(1), Fx::from_int(2), Fx::from_int(2));
    let c = Rectangle::new(Fx::from_int(5), Fx::from_int(5), Fx::from_int(1), Fx::from_int(1));
    assert!(a.collides_with(&b));
    assert!(b.collides_with(&a));
    assert!(!a.collides_with(&c));
    // touching edges count as a collision
    let d = Rectangle::new(Fx::from_int(2), Fx::from_int(0), Fx::from_int(1), Fx::from_int(1));
    assert!(a.collides_with(&d));
}

#[test]
fn builder_tuple_variants_match() {
    let m = Model::square(None).unwrap();
    let b = gamelib::render::ModelRenderBuilder::new(&m)
        .translate_tup((Fx::from_int(2), Fx::from_int(3)))
        .scale_tup((Fx::from_int(2), Fx::from_int(2)))
        .shade_tup((Fx::from_int(1), Fx::from_int(1), Fx::from_int(0)));
    assert_eq!(b.position.0.bits, 2 * FX_ONE);
    assert_eq!(b.position.1.bits, 3 * FX_ONE);
    assert_eq!(b.scale.0.bits, 2 * FX_ONE);
    assert_eq!(b.color.2.bits, 0);
}

#[test]
fn model_new_reports_bad_texture() {
    let verts = [(Fx::from_int(0), Fx::from_int(0), Fx::from_int(0), Fx::from_int(0))];
    let inds = [0u16];
    let r = Model::new(&verts, &inds, Some("missing_texture_file.png"));
    assert!(r.is_err());
}

#[test]
fn fx_arithmetic() {
    assert_eq!(Fx::from_int(3).plus(Fx::from_int(4)).bits, 7 * FX_ONE);
    assert_eq!(Fx::from_int(3).times(Fx::from_int(4)).bits, 12 * FX_ONE);
    assert_eq!(Fx::from_int(5).negate().bits, -5 * FX_ONE);
    // truncation toward zero on both signs
    assert_eq!(Fx::from_bits(3).times(Fx::from_bits(32768)).bits, 1);
    assert_eq!(Fx::from_bits(-3).times(Fx::from_bits(32768)).bits, -1);
    assert_eq!(Fx::one().bits, FX_ONE);
    assert_eq!(Fx::zero().bits, 0);
}
