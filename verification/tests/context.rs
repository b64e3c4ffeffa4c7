use gamelib::game::{default_config, Context, FrameClock};
use gamelib::render::AssetLoadError;

fn fresh_context() -> Context {
    let config = default_config();
    Context::new(&config)
}

#[test]
fn default_config_values() {
    let c = default_config();
    assert_eq!(c.title, "My Game");
    assert_eq!(c.window_size, (640, 420));
    assert_eq!(c.update_fps, 24);
}

#[test]
fn context_delta_from_update_fps() {
    let mut config = default_config();
    config.update_fps = 10;
    let ctx = Context::new(&config);
    assert_eq!(ctx.fixed_delta_micros, 100_000);
    assert_eq!(ctx.delta.bits, 6553); // 0.1s in fixed point, truncated
}

#[test]
fn sprite_loaded_at_most_once_per_key() {
    let mut ctx = fresh_context();
    let id0 = {
        let m = ctx.get_sprite("rect").unwrap();
        m.id
    };
    assert_eq!(ctx.models.len(), 1);
    let id1 = {
        let m = ctx.get_sprite("rect").unwrap();
        m.id
    };
    // the second call is a pure lookup of the same cached model
    assert_eq!(ctx.models.len(), 1);
    assert_eq!(id0, id1);
    let m = ctx.get_sprite("rect").unwrap();
    assert!(m.texture.is_none());
    assert_eq!(m.vertices.len(), 4);
}

#[test]
fn sprite_load_failure_is_reported() {
    let mut ctx = fresh_context();
    let r = ctx.get_sprite("no_such_image_file.png");
    assert_eq!(r.err(), Some(AssetLoadError));
    // a failed load leaves the cache untouched
    assert_eq!(ctx.models.len(), 0);
}

#[test]
fn render_builds_fresh_builder() {
    let mut ctx = fresh_context();
    let b = ctx.render("rect").unwrap();
    assert_eq!(b.position.0.bits, 0);
    assert_eq!(b.scale.0.bits, 65536);
    assert_eq!(b.rotation.bits, 0);
    assert_eq!(b.color.0.bits, 0);
}

#[test]
fn was_pressed_true_exactly_once_per_cycle() {
    let mut ctx = fresh_context();
    ctx.press(42);
    assert!(ctx.was_pressed(42)); // first read consumes the press
    assert!(!ctx.was_pressed(42)); // second read reports nothing
    ctx.release(42);
    ctx.press(42);
    assert!(ctx.was_pressed(42)); // a re-press arms the signal again
}

#[test]
fn is_held_is_a_pure_query() {
    let mut ctx = fresh_context();
    assert!(!ctx.is_held(7));
    ctx.press(7);
    assert!(ctx.is_held(7));
    assert!(ctx.is_held(7)); // unchanged by the query
    ctx.release(7);
    assert!(!ctx.is_held(7));
}

#[test]
fn press_is_idempotent_while_held() {
    let mut ctx = fresh_context();
    ctx.press(3);
    ctx.press(3);
    assert_eq!(ctx.pressed.len(), 1);
    ctx.release(3);
    assert_eq!(ctx.pressed.len(), 0);
}

#[test]
fn release_leaves_other_keys_held() {
    let mut ctx = fresh_context();
    ctx.press(1);
    ctx.press(2);
    ctx.release(1);
    assert!(!ctx.is_held(1));
    assert!(ctx.is_held(2));
}

#[test]
fn clock_pays_out_fixed_steps() {
    // update_fps = 10 gives a 0.1s step; 0.35s owes three updates and
    // banks the residual 0.05s for the next frame.
    let mut clock = FrameClock::new(100_000);
    assert_eq!(clock.tick(350_000), 3);
    assert_eq!(clock.accumulator_micros, 50_000);
    // the residual carries: 0.05s more reaches exactly one step's worth,
    // which is not yet *more* than a step, so no update is owed
    assert_eq!(clock.tick(50_000), 0);
    assert_eq!(clock.accumulator_micros, 100_000);
    // one more microsecond tips it over
    assert_eq!(clock.tick(1), 1);
    assert_eq!(clock.accumulator_micros, 1);
}

#[test]
fn clock_banks_short_frames() {
    let mut clock = FrameClock::new(41_666); // 24 updates per second
    assert_eq!(clock.tick(10_000), 0);
    assert_eq!(clock.tick(10_000), 0);
    assert_eq!(clock.accumulator_micros, 20_000);
    assert_eq!(clock.tick(100_000), 2);
    assert_eq!(clock.accumulator_micros, 120_000 - 2 * 41_666);
}
