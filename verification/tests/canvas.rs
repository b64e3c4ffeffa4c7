use gamelib::fx::{Fx, FX_ONE};
use gamelib::game::{default_config, Context};
use gamelib::render::{Canvas, CanvasCommand};

#[test]
fn end_to_end_rect_draw() {
    // A host that fits a 2x2 virtual extent on a 200x100 surface and
    // commits a red unit quad translated to (-1, -1) produces exactly one
    // draw call: untextured, red, letterboxed into the centred square,
    // with an mvp that maps the quad into the lower-left quadrant.
    let config = default_config();
    let mut ctx = Context::new(&config);
    let mut canvas = Canvas::new((200, 100));
    canvas.fit(Fx::from_int(2), Fx::from_int(2));
    ctx.render("rect")
        .unwrap()
        .translate(Fx::from_int(-1), Fx::from_int(-1))
        .shade(Fx::from_int(1), Fx::from_int(0), Fx::from_int(0))
        .commit(&mut canvas);
    let commands = canvas.finish();
    assert_eq!(commands.len(), 1);
    match &commands[0] {
        CanvasCommand::Draw { call } => {
            assert!(!call.textured);
            assert_eq!(call.color.0.bits, FX_ONE);
            assert_eq!(call.color.1.bits, 0);
            assert_eq!(call.color.2.bits, 0);
            assert_eq!(call.viewport_rect, (50, 0, 100, 100));
            // scale by 1/2 on both axes, shift by -1/2: world (-1..0)
            // lands in clip (-1..-1/2), the lower-left quadrant
            assert_eq!(call.mvp.m00, 32768);
            assert_eq!(call.mvp.m03, -32768);
            assert_eq!(call.mvp.m11, 32768);
            assert_eq!(call.mvp.m13, -32768);
            assert_eq!(call.mvp.m01, 0);
            assert_eq!(call.mvp.m10, 0);
            assert_eq!(call.mvp.m33, FX_ONE);
        },
        other => panic!("expected a draw call, got {:?}", other),
    }
}

#[test]
fn clear_recorded_in_order() {
    let mut canvas = Canvas::new((100, 100));
    canvas.clear(Fx::from_int(0), Fx::from_int(1), Fx::from_int(0));
    let commands = canvas.finish();
    assert_eq!(commands.len(), 1);
    match &commands[0] {
        CanvasCommand::Clear { color } => {
            assert_eq!(color.1.bits, FX_ONE);
        },
        other => panic!("expected a clear, got {:?}", other),
    }
}

#[test]
fn camera_translates_view() {
    let config = default_config();
    let mut ctx = Context::new(&config);
    let mut canvas = Canvas::new((100, 100));
    canvas.look_at(Fx::from_int(1), Fx::from_int(0));
    ctx.render("rect").unwrap().commit(&mut canvas);
    let commands = canvas.finish();
    match &commands[0] {
        CanvasCommand::Draw { call } => {
            // the world moves opposite the camera: minus one unit in x
            assert_eq!(call.mvp.m03, -FX_ONE);
            assert_eq!(call.mvp.m13, 0);
        },
        other => panic!("expected a draw call, got {:?}", other),
    }
}

#[test]
fn rotation_reaches_draw_call() {
    let config = default_config();
    let mut ctx = Context::new(&config);
    let mut canvas = Canvas::new((100, 100));
    // a quarter turn is exact in the fixed-point series
    ctx.render("rect").unwrap().rotate(Fx::from_bits(102944)).commit(&mut canvas);
    let commands = canvas.finish();
    match &commands[0] {
        CanvasCommand::Draw { call } => {
            assert_eq!(call.mvp.m00, 0);
            assert_eq!(call.mvp.m01, -FX_ONE);
            assert_eq!(call.mvp.m10, FX_ONE);
            assert_eq!(call.mvp.m11, 0);
        },
        other => panic!("expected a draw call, got {:?}", other),
    }
}

#[test]
fn viewport_reset_each_frame() {
    // a fresh canvas starts from the one-by-one stretch viewport
    let canvas = Canvas::new((640, 480));
    assert_eq!(canvas.viewport.width.bits, FX_ONE);
    assert_eq!(canvas.viewport.height.bits, FX_ONE);
    assert_eq!(canvas.camera.x.bits, 0);
    assert_eq!(canvas.camera.y.bits, 0);
    assert!(canvas.finish().is_empty());
}
