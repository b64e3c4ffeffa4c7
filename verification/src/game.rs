//! The host-facing context: configuration, input state, the resource cache
//! and the fixed-timestep clock.

use vstd::prelude::*;
use crate::fx::Fx;
use crate::render::{
    square_indices, square_vertices, AssetLoadError, Canvas, Model, ModelRenderBuilder,
};

verus! {

/// A key identifier delivered by the windowing frontend.
pub type KeyCode = u32;

/// A pair of fixed-point world coordinates.
pub type Vec2 = (Fx, Fx);

/// An RGB colour with fixed-point channels.
pub type Color = (Fx, Fx, Fx);

/// Startup configuration, read once through the host's `configure` hook.
pub struct GameConfig {
    pub title: String,
    pub window_size: (u32, u32),
    pub update_fps: u32,
}

/// The configuration used where the host's `configure` changes nothing.
pub fn default_config() -> (c: GameConfig)
    ensures
        c.title@ == "My Game"@,
        c.window_size == (640u32, 420u32),
        c.update_fps == 24u32,
{
    GameConfig { title: "My Game".to_owned(), window_size: (640, 420), update_fps: 24 }
}

/// The hooks a host implements; each defaults to doing nothing. The
/// frontend's scheduler calls `configure` once before the surface exists,
/// `init` once after, then `update` at the fixed simulation rate and
/// `render` once per displayed frame.
pub trait Game {
    /// Adjusts the startup configuration.
    fn configure(&self, _config: &mut GameConfig) {
    }

    /// Runs once before the first frame.
    fn init(&mut self, _context: &mut Context) {
    }

    /// Advances the simulation by one fixed step of `context.delta`
    /// seconds.
    fn update(&mut self, _context: &mut Context) {
    }

    /// Issues this frame's drawing through the canvas.
    fn render(&mut self, _canvas: &mut Canvas, _context: &mut Context) {
    }
}

/// The held-key sequence after a key-down event: unchanged when the key is
/// already held, extended by it otherwise.
pub open spec fn pressed_after_press(s: Seq<KeyCode>, key: KeyCode) -> Seq<KeyCode> {
    if s.contains(key) {
        s
    } else {
        s.push(key)
    }
}

/// `was_pressed` reports a key exactly once per press-release cycle: after
/// a key-down the next edge-triggered read reports true (first clause);
/// that read consumes the key, and from any state without the key a read
/// reports false (second clause) until another key-down makes the next
/// read report true again (third clause).
pub proof fn lemma_edge_triggered_input(s: Seq<KeyCode>, consumed: Seq<KeyCode>, key: KeyCode)
    requires
        !consumed.contains(key),
    ensures
        pressed_after_press(s, key).contains(key),
        !consumed.contains(key),
        pressed_after_press(consumed, key).contains(key),
{
    if !s.contains(key) {
        assert(s.push(key)[s.len() as int] == key);
    }
    assert(consumed.push(key)[consumed.len() as int] == key);
}

/// Per-run state handed to every host hook: the fixed simulation step, the
/// model cache and the held-key set.
pub struct Context {
    /// Seconds advanced by each `update` call, in fixed point.
    pub delta: Fx,
    /// The same fixed step, in whole microseconds.
    pub fixed_delta_micros: u64,
    /// The resource cache: one model per distinct key, in load order.
    pub models: Vec<(String, Model)>,
    /// The currently held keys, each at most once.
    pub pressed: Vec<KeyCode>,
}

impl Context {
    /// Cache keys are unique and each model's id is its cache position.
    pub open spec fn cache_inv(self) -> bool {
        &&& forall|i: int, j: int| 0 <= i < j < self.models@.len() ==> (
            #[trigger] self.models@[i].0@) != (#[trigger] self.models@[j].0@)
        &&& forall|i: int| 0 <= i < self.models@.len() ==> (#[trigger] self.models@[i].1.id)
            == i
    }

    /// No key is held twice.
    pub open spec fn input_inv(self) -> bool {
        forall|i: int, j: int| 0 <= i < j < self.pressed@.len() ==> (
        #[trigger] self.pressed@[i]) != (#[trigger] self.pressed@[j])
    }

    /// The context's internal invariant.
    pub open spec fn inv(self) -> bool {
        self.cache_inv() && self.input_inv()
    }

    /// Whether a key is in the cache.
    pub open spec fn has_model(self, k: Seq<char>) -> bool {
        exists|i: int| 0 <= i < self.models@.len() && (#[trigger] self.models@[i].0@) == k
    }

    /// The cache position of a key; meaningful only when the key is
    /// cached.
    pub open spec fn model_index(self, k: Seq<char>) -> int {
        choose|i: int| 0 <= i < self.models@.len() && (#[trigger] self.models@[i].0@) == k
    }

    /// A fresh context with an empty cache and no held keys, stepping
    /// `1 / update_fps` seconds per update.
    pub fn new(config: &GameConfig) -> (r: Context)
        requires
            1 <= config.update_fps <= 1_000_000,
        ensures
            r.delta.bits == 65536int / (config.update_fps as int),
            r.fixed_delta_micros == 1_000_000int / (config.update_fps as int),
            r.fixed_delta_micros >= 1,
            r.models@.len() == 0,
            r.pressed@.len() == 0,
            r.inv(),
    {
        proof {
            vstd::arithmetic::div_mod::lemma_div_is_ordered_by_denominator(
                1_000_000,
                config.update_fps as int,
                1_000_000,
            );
        }
        Context {
            delta: Fx { bits: (65536u64 / (config.update_fps as u64)) as i64 },
            fixed_delta_micros: 1_000_000u64 / (config.update_fps as u64),
            models: Vec::new(),
            pressed: Vec::new(),
        }
    }

    /// Records a key-down event.
    pub fn press(&mut self, key: KeyCode)
        requires
            old(self).inv(),
        ensures
            final(self).inv(),
            final(self).pressed@ == pressed_after_press(old(self).pressed@, key),
            final(self).models@ == old(self).models@,
            final(self).delta == old(self).delta,
            final(self).fixed_delta_micros == old(self).fixed_delta_micros,
    {
        if !self.is_held(key) {
            self.pressed.push(key);
            proof {
                let s = old(self).pressed@;
                let t = self.pressed@;
                assert forall|p: int, q: int| 0 <= p < q < t.len() implies (#[trigger] t[p]) != (
                #[trigger] t[q]) by {
                    if q == s.len() {
                        if t[p] == key {
                            assert(s[p] == key);
                            assert(s.contains(key));
                        }
                    }
                }
            }
        }
    }

    /// Records a key-up event: afterwards the key is not held, and no
    /// other key's state changes.
    pub fn release(&mut self, key: KeyCode)
        requires
            old(self).inv(),
        ensures
            final(self).inv(),
            !final(self).pressed@.contains(key),
            forall|k2: KeyCode| k2 != key ==> final(self).pressed@.contains(k2) == old(
                self,
            ).pressed@.contains(k2),
            final(self).models@ == old(self).models@,
            final(self).delta == old(self).delta,
            final(self).fixed_delta_micros == old(self).fixed_delta_micros,
    {
        let mut i: usize = 0;
        while i < self.pressed.len()
            invariant
                old(self).inv(),
                *self == *old(self),
                i <= self.pressed@.len(),
                forall|j: int| 0 <= j < i ==> (#[trigger] self.pressed@[j]) != key,
            decreases self.pressed@.len() - i,
        {
            if self.pressed[i] == key {
                self.pressed.remove(i);
                proof {
                    let s = old(self).pressed@;
                    let t = self.pressed@;
                    let iv = i as int;
                    assert(t =~= s.subrange(0, iv) + s.subrange(iv + 1, s.len() as int));
                    assert forall|j: int| 0 <= j < t.len() implies (#[trigger] t[j]) == (
                        if j < iv {
                            s[j]
                        } else {
                            s[j + 1]
                        }) by {}
                    assert forall|j: int| 0 <= j < t.len() implies (#[trigger] t[j]) != key by {
                        if j < iv {
                            assert(t[j] == s[j]);
                        } else {
                            assert(t[j] == s[j + 1]);
                            assert(s[iv] == key);
                            assert(iv < j + 1 < s.len());
                            assert(s[iv] != s[j + 1]);
                        }
                    }
                    assert(!t.contains(key));
                    assert forall|p: int, q: int| 0 <= p < q < t.len() implies (#[trigger] t[p])
                        != (#[trigger] t[q]) by {
                        let sp = if p < iv { p } else { p + 1 };
                        let sq = if q < iv { q } else { q + 1 };
                        assert(t[p] == s[sp]);
                        assert(t[q] == s[sq]);
                        assert(0 <= sp < sq < s.len());
                        assert(s[sp] != s[sq]);
                    }
                    assert forall|k2: KeyCode|
                        k2 != key implies #[trigger] t.contains(k2) == s.contains(k2) by {
                        if s.contains(k2) {
                            let j = choose|j: int| 0 <= j < s.len() && s[j] == k2;
                            if j < iv {
                                assert(t[j] == k2);
                            } else {
                                assert(j != iv);
                                assert(t[j - 1] == k2);
                            }
                            assert(t.contains(k2));
                        }
                        if t.contains(k2) {
                            let j = choose|j: int| 0 <= j < t.len() && t[j] == k2;
                            if j < iv {
                                assert(s[j] == k2);
                            } else {
                                assert(s[j + 1] == k2);
                            }
                            assert(s.contains(k2));
                        }
                    }
                }
                return ;
            }
            i = i + 1;
        }
        proof {
            assert forall|k2: KeyCode| self.pressed@.contains(k2) implies k2 != key by {
                let j = choose|j: int| 0 <= j < self.pressed@.len() && self.pressed@[j] == k2;
            }
        }
    }

    /// Whether a key is currently held: a pure query.
    pub fn is_held(&self, key: KeyCode) -> (r: bool)
        ensures
            r == self.pressed@.contains(key),
    {
        let mut i: usize = 0;
        while i < self.pressed.len()
            invariant
                i <= self.pressed@.len(),
                forall|j: int| 0 <= j < i ==> (#[trigger] self.pressed@[j]) != key,
            decreases self.pressed@.len() - i,
        {
            if self.pressed[i] == key {
                proof {
                    assert(self.pressed@.contains(key)) by {
                        assert(self.pressed@[i as int] == key);
                    }
                }
                return true;
            }
            i = i + 1;
        }
        proof {
            assert forall|k2: KeyCode| self.pressed@.contains(k2) implies k2 != key by {
                let j = choose|j: int| 0 <= j < self.pressed@.len() && self.pressed@[j] == k2;
            }
        }
        false
    }

    /// Whether a key is held, consuming the signal: the query also
    /// releases the key, so a held key is reported exactly once until it
    /// is released and pressed again.
    pub fn was_pressed(&mut self, key: KeyCode) -> (r: bool)
        requires
            old(self).inv(),
        ensures
            final(self).inv(),
            r == old(self).pressed@.contains(key),
            !final(self).pressed@.contains(key),
            forall|k2: KeyCode| k2 != key ==> final(self).pressed@.contains(k2) == old(
                self,
            ).pressed@.contains(k2),
            final(self).models@ == old(self).models@,
            final(self).delta == old(self).delta,
            final(self).fixed_delta_micros == old(self).fixed_delta_micros,
    {
        let held = self.is_held(key);
        self.release(key);
        held
    }
}

impl Context {
    /// Returns the cached model for `filename`, loading and inserting it on
    /// first use. The key `"rect"` yields the built-in untextured unit
    /// quad; any other key is decoded as an image file and textures the
    /// quad. A key already in the cache, and the key `"rect"`, always
    /// succeed; a load failure leaves the cache unchanged.
    pub fn get_sprite(&mut self, filename: &str) -> (r: Result<&Model, AssetLoadError>)
        requires
            old(self).inv(),
        ensures
            final(self).inv(),
            final(self).pressed@ == old(self).pressed@,
            final(self).delta == old(self).delta,
            final(self).fixed_delta_micros == old(self).fixed_delta_micros,
            old(self).has_model(filename@) ==> r is Ok && final(self).models@ == old(
                self,
            ).models@,
            filename@ == "rect"@ ==> r is Ok,
            r is Err ==> final(self).models@ == old(self).models@ && !old(self).has_model(
                filename@,
            ) && filename@ != "rect"@,
            r matches Ok(m) ==> {
                &&& final(self).has_model(filename@)
                &&& m == final(self).models@[final(self).model_index(filename@)].1
            },
            r is Ok && !old(self).has_model(filename@) ==> {
                &&& final(self).models@.len() == old(self).models@.len() + 1
                &&& final(self).models@.subrange(0, old(self).models@.len() as int) == old(
                    self,
                ).models@
                &&& final(self).models@.last().0@ == filename@
                &&& final(self).models@.last().1.vertices@ == square_vertices()
                &&& final(self).models@.last().1.indices@ == square_indices()
                &&& final(self).models@.last().1.id == old(self).models@.len()
                &&& (final(self).models@.last().1.texture is Some <==> filename@ != "rect"@)
            },
    {
        let key: String = filename.to_owned();
        let mut i: usize = 0;
        while i < self.models.len()
            invariant
                old(self).inv(),
                *self == *old(self),
                i <= self.models@.len(),
                key@ == filename@,
                forall|j: int| 0 <= j < i ==> (#[trigger] self.models@[j].0@) != key@,
            decreases self.models@.len() - i,
        {
            if self.models[i].0 == key {
                proof {
                    lemma_unique_model_index(*self, filename@, i as int);
                }
                return Ok(&self.models[i].1);
            }
            i = i + 1;
        }
        proof {
            assert forall|j: int| 0 <= j < self.models@.len() implies (
            #[trigger] self.models@[j].0@) != filename@ by {}
            assert(!self.has_model(filename@));
        }
        let is_rect = {
            let rect_key: String = "rect".to_owned();
            key == rect_key
        };
        let texture: Option<&str> = if is_rect {
            None
        } else {
            Some(filename)
        };
        let mut model = match Model::square(texture) {
            Ok(m) => m,
            Err(e) => {
                return Err(e);
            },
        };
        let n = self.models.len();
        model.id = n as u64;
        self.models.push((key, model));
        proof {
            let t = self.models@;
            let nn = n as int;
            assert forall|p: int, q: int| 0 <= p < q < t.len() implies (#[trigger] t[p].0@) != (
            #[trigger] t[q].0@) by {
                if q == nn {
                    assert(t[p].0@ != filename@);
                }
            }
            assert forall|p: int| 0 <= p < t.len() implies (#[trigger] t[p].1.id) == p by {}
            assert(t.subrange(0, nn) =~= old(self).models@);
            lemma_unique_model_index(*self, filename@, nn);
        }
        let last = self.models.len() - 1;
        Ok(&self.models[last].1)
    }

    /// Shorthand: a fresh render builder for the cached model of
    /// `filename`, loading it on first use as [`Context::get_sprite`]
    /// does.
    pub fn render(&mut self, filename: &str) -> (r: Result<
        ModelRenderBuilder<'_>,
        AssetLoadError,
    >)
        requires
            old(self).inv(),
        ensures
            final(self).inv(),
            final(self).pressed@ == old(self).pressed@,
            final(self).delta == old(self).delta,
            final(self).fixed_delta_micros == old(self).fixed_delta_micros,
            old(self).has_model(filename@) ==> r is Ok && final(self).models@ == old(
                self,
            ).models@,
            filename@ == "rect"@ ==> r is Ok,
            r is Err ==> final(self).models@ == old(self).models@ && !old(self).has_model(
                filename@,
            ) && filename@ != "rect"@,
            r matches Ok(b) ==> {
                &&& final(self).has_model(filename@)
                &&& b.model == final(self).models@[final(self).model_index(filename@)].1
                &&& b.position == (Fx { bits: 0i64 }, Fx { bits: 0i64 })
                &&& b.scale == (Fx { bits: crate::fx::FX_ONE }, Fx { bits: crate::fx::FX_ONE })
                &&& b.rotation == (Fx { bits: 0i64 })
                &&& b.color == (Fx { bits: 0i64 }, Fx { bits: 0i64 }, Fx { bits: 0i64 })
                &&& b.wf()
            },
    {
        let model = match self.get_sprite(filename) {
            Ok(m) => m,
            Err(e) => {
                return Err(e);
            },
        };
        Ok(ModelRenderBuilder::new(model))
    }
}

/// In a cache with unique keys, the index a key resolves to is the only
/// one holding it: looking the same key up twice in an unchanged cache
/// yields the same entry, and a hit never grows the cache.
pub proof fn lemma_unique_model_index(c: Context, k: Seq<char>, i: int)
    requires
        c.cache_inv(),
        0 <= i < c.models@.len(),
        c.models@[i].0@ == k,
    ensures
        c.has_model(k),
        c.model_index(k) == i,
        forall|j: int| 0 <= j < c.models@.len() && (#[trigger] c.models@[j].0@) == k ==> j == i,
{
    assert(c.has_model(k));
    let x = c.model_index(k);
    assert(0 <= x < c.models@.len() && c.models@[x].0@ == k);
    assert forall|j: int| 0 <= j < c.models@.len() && (#[trigger] c.models@[j].0@)
        == k implies j == i by {
        if j < i {
            assert(c.models@[j].0@ != c.models@[i].0@);
        } else if i < j {
            assert(c.models@[i].0@ != c.models@[j].0@);
        }
    }
}

/// The fixed-timestep accumulator: real elapsed time is banked and paid
/// out in fixed simulation steps, decoupling the update rate from the
/// display rate.
pub struct FrameClock {
    /// The fixed simulation step, in microseconds.
    pub fixed_delta_micros: u64,
    /// Elapsed time not yet consumed by updates, in microseconds.
    pub accumulator_micros: u64,
}

impl FrameClock {
    /// A clock with nothing banked.
    pub fn new(fixed_delta_micros: u64) -> (r: FrameClock)
        requires
            fixed_delta_micros >= 1,
        ensures
            r.fixed_delta_micros == fixed_delta_micros,
            r.accumulator_micros == 0,
    {
        FrameClock { fixed_delta_micros, accumulator_micros: 0 }
    }

    /// Banks the elapsed real time since the previous frame and pays out
    /// the number of fixed update steps owed before the next render: one
    /// step while more than a full step is banked. The remainder stays
    /// banked for the next frame, so no elapsed time is ever lost.
    pub fn tick(&mut self, elapsed_micros: u64) -> (steps: u64)
        requires
            old(self).fixed_delta_micros >= 1,
            old(self).accumulator_micros + elapsed_micros <= u64::MAX,
        ensures
            final(self).fixed_delta_micros == old(self).fixed_delta_micros,
            steps * old(self).fixed_delta_micros + final(self).accumulator_micros == old(
                self,
            ).accumulator_micros + elapsed_micros,
            final(self).accumulator_micros <= old(self).fixed_delta_micros,
            old(self).accumulator_micros + elapsed_micros <= old(self).fixed_delta_micros
                ==> steps == 0,
            old(self).accumulator_micros + elapsed_micros > old(self).fixed_delta_micros
                ==> steps >= 1 && final(self).accumulator_micros > 0,
    {
        let fd = self.fixed_delta_micros;
        let mut total = self.accumulator_micros + elapsed_micros;
        let ghost t0 = total as int;
        let mut steps: u64 = 0;
        while total > fd
            invariant
                fd >= 1,
                steps * fd + total == t0,
                t0 <= u64::MAX,
                steps >= 1 ==> total >= 1,
            decreases total,
        {
            proof {
                vstd::arithmetic::mul::lemma_mul_inequality(1, fd as int, steps as int);
                vstd::arithmetic::mul::lemma_mul_is_distributive_add_other_way(
                    fd as int,
                    steps as int,
                    1,
                );
            }
            steps = steps + 1;
            total = total - fd;
        }
        self.accumulator_micros = total;
        proof {
            if steps >= 1 {
                vstd::arithmetic::mul::lemma_mul_inequality(1, steps as int, fd as int);
            }
        }
        steps
    }
}

/// Runs the host's `update` hook the given number of times, each with the
/// context's fixed step, as the scheduler owes after banking a frame's
/// elapsed time.
pub fn run_updates<T: Game>(game: &mut T, context: &mut Context, steps: u64)
    requires
        old(context).inv(),
{
    let mut i: u64 = 0;
    while i < steps
        decreases steps - i,
    {
        game.update(context);
        i = i + 1;
    }
}

} // verus!
