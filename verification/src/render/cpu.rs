//! The CPU integrator's decisions: which pixels are shaded and in what order,
//! how many samples a pixel takes, which hit is the closest, and how a path
//! bounces through the scene until it reaches the sky, a matte surface, or
//! the end of its bounce budget.
use vstd::prelude::*;
use vstd::arithmetic::div_mod::lemma_fundamental_div_mod_converse_div;
use vstd::arithmetic::div_mod::lemma_fundamental_div_mod_converse_mod;

use super::config::RenderConfig;

verus! {

// ==========================================
// The pixel grid
// ==========================================

/// The pixel that stands at position `i` of a row-major image `width` pixels wide.
pub open spec fn pixel_at(width: u32, i: int) -> (u32, u32) {
    ((i % (width as int)) as u32, (i / (width as int)) as u32)
}

/// Pixel `(x, y)` of a `width`-wide image stands at position `y * width + x`.
pub proof fn lemma_pixel_index(width: u32, height: u32, x: u32, y: u32)
    requires
        x < width,
        y < height,
    ensures
        0 <= y * width + x < width * height,
        pixel_at(width, y * width + x) == (x, y),
{
    assert(y * width + x < width * height) by (nonlinear_arith)
        requires
            x < width,
            y < height,
    ;
    assert(0 <= y * width) by (nonlinear_arith);
    lemma_fundamental_div_mod_converse_mod(y * width + x, width as int, y as int, x as int);
    lemma_fundamental_div_mod_converse_div(y * width + x, width as int, y as int, x as int);
}

/// The pixels that `render` shades, in the order in which it shades them:
/// row by row from the top, each row from left to right.
pub fn pixel_coords(width: u32, height: u32) -> (r: Vec<(u32, u32)>)
    requires
        width * height <= u32::MAX,
    ensures
        r.len() == width * height,
        forall|i: int| 0 <= i < r.len() ==> #[trigger] r[i] == pixel_at(width, i),
{
    let mut r: Vec<(u32, u32)> = Vec::new();
    let mut y: u32 = 0;
    while y < height
        invariant
            y <= height,
            width * height <= u32::MAX,
            r.len() == y * width,
            forall|i: int| 0 <= i < r.len() ==> #[trigger] r[i] == pixel_at(width, i),
        decreases height - y,
    {
        let mut x: u32 = 0;
        while x < width
            invariant
                x <= width,
                y < height,
                width * height <= u32::MAX,
                r.len() == y * width + x,
                forall|i: int| 0 <= i < r.len() ==> #[trigger] r[i] == pixel_at(width, i),
            decreases width - x,
        {
            proof {
                lemma_pixel_index(width, height, x, y);
            }
            r.push((x, y));
            x = x + 1;
        }
        assert(y * width + width == (y + 1) * width) by (nonlinear_arith);
        y = y + 1;
    }
    assert(height * width == width * height) by (nonlinear_arith);
    r
}


// ==========================================
// Samples per pixel
// ==========================================

/// How many rays a pixel averages: `samples_per_pixel`, and at least one.
pub fn sample_count(config: &RenderConfig) -> (n: u32)
    ensures
        n >= 1,
        n == if config.samples_per_pixel == 0 { 1 } else { config.samples_per_pixel },
{
    if config.samples_per_pixel < 1 {
        1
    } else {
        config.samples_per_pixel
    }
}

// ==========================================
// Closest hit
// ==========================================

/// Position `i` holds the closest hit of `keys`: a hit whose key is no larger
/// than any other hit's, and strictly smaller than the key of every hit before it.
/// `None` stands for an object that the ray misses.
pub open spec fn is_closest(keys: Seq<Option<u32>>, i: int) -> bool {
    &&& 0 <= i < keys.len()
    &&& keys[i] is Some
    &&& forall|j: int| 0 <= j < keys.len() && #[trigger] keys[j] is Some
        ==> keys[i].unwrap() <= keys[j].unwrap()
    &&& forall|j: int| 0 <= j < i && #[trigger] keys[j] is Some
        ==> keys[i].unwrap() < keys[j].unwrap()
}

/// The object that a ray hits first: `keys[i]` is the order key of the ray
/// parameter at which object `i` is hit, or `None` where it is missed.
/// Among equal keys the earliest object wins.
pub fn closest_hit(keys: &Vec<Option<u32>>) -> (r: Option<usize>)
    ensures
        r is None <==> forall|j: int| 0 <= j < keys.len() ==> #[trigger] keys[j] is None,
        r matches Some(i) ==> is_closest(keys@, i as int),
{
    let mut best: Option<usize> = None;
    let mut best_key: u32 = 0;
    for i in 0..keys.len()
        invariant
            best is None <==> forall|j: int| 0 <= j < i ==> #[trigger] keys[j] is None,
            best matches Some(b) ==> {
                &&& b < i
                &&& keys[b as int] == Some(best_key)
                &&& forall|j: int| 0 <= j < i && #[trigger] keys[j] is Some
                    ==> best_key <= keys[j].unwrap()
                &&& forall|j: int| 0 <= j < b && #[trigger] keys[j] is Some
                    ==> best_key < keys[j].unwrap()
            },
    {
        if let Some(k) = keys[i] {
            if best.is_none() || k < best_key {
                best = Some(i);
                best_key = k;
            }
        }
    }
    best
}


// ==========================================
// The bounce loop
// ==========================================

/// What tracing the current ray found.
#[derive(Debug, Clone, Copy, PartialEq, Eq, Structural)]
pub enum Event {
    /// The ray missed everything.
    Miss,
    /// The ray hit a matte surface; `facing_light` says whether the surface
    /// normal makes a positive dot product with the light direction.
    Diffuse { facing_light: bool },
    /// The ray hit a metal surface.
    Metal,
}

/// What the integrator does with what the ray found.
#[derive(Debug, Clone, Copy, PartialEq, Eq, Structural)]
pub enum Action {
    /// Shade with the sky; the path ends.
    Sky,
    /// Shade the matte surface; the path ends. `shadow_test` says whether a
    /// shadow ray is to be shot toward the light to decide occlusion.
    Diffuse { shadow_test: bool },
    /// Reflect off the metal and trace on.
    Reflect,
}

/// The state of one path, as contracts see it.
pub struct PathModel {
    /// Surface interactions so far that let the path go on (metal reflections).
    pub bounces: nat,
    /// The bounce budget: how many rays the path may trace.
    pub max_bounces: nat,
    /// Whether matte surfaces get a shadow test.
    pub shadows: bool,
    /// Whether the path has ended at the sky or at a matte surface.
    pub finished: bool,
}

/// A fresh path for one camera ray.
pub open spec fn path_start(config: RenderConfig) -> PathModel {
    PathModel {
        bounces: 0,
        max_bounces: config.max_bounces as nat,
        shadows: config.shadows,
        finished: false,
    }
}

/// A path traces another ray while it has not ended and has budget left.
pub open spec fn path_may_trace(m: PathModel) -> bool {
    !m.finished && m.bounces < m.max_bounces
}

/// What the integrator does when the ray of a path finds `e`.
pub open spec fn path_action(m: PathModel, e: Event) -> Action {
    match e {
        Event::Miss => Action::Sky,
        Event::Diffuse { facing_light } => Action::Diffuse { shadow_test: m.shadows && facing_light },
        Event::Metal => Action::Reflect,
    }
}

/// The path after its ray found `e`.
pub open spec fn path_step(m: PathModel, e: Event) -> PathModel {
    match e {
        Event::Metal => PathModel {
            bounces: m.bounces + 1,
            max_bounces: m.max_bounces,
            shadows: m.shadows,
            finished: m.finished,
        },
        _ => PathModel {
            bounces: m.bounces,
            max_bounces: m.max_bounces,
            shadows: m.shadows,
            finished: true,
        },
    }
}

/// The path after its rays found `events` in turn, for as long as it may trace.
pub open spec fn path_run(m: PathModel, events: Seq<Event>) -> PathModel
    decreases events.len(),
{
    if events.len() == 0 || !path_may_trace(m) {
        m
    } else {
        path_run(path_step(m, events[0]), events.drop_first())
    }
}

/// How many rays the path traces when its rays find `events` in turn.
pub open spec fn path_rays(m: PathModel, events: Seq<Event>) -> nat
    decreases events.len(),
{
    if events.len() == 0 || !path_may_trace(m) {
        0
    } else {
        1 + path_rays(path_step(m, events[0]), events.drop_first())
    }
}

/// One path of the integrator: a camera ray and its reflections.
pub struct Path {
    bounces: u32,
    max_bounces: u32,
    shadows: bool,
    finished: bool,
}

impl View for Path {
    type V = PathModel;

    closed spec fn view(&self) -> PathModel {
        PathModel {
            bounces: self.bounces as nat,
            max_bounces: self.max_bounces as nat,
            shadows: self.shadows,
            finished: self.finished,
        }
    }
}

impl Path {
    /// A fresh path under `config`: no bounces yet, the budget `max_bounces`.
    pub fn new(config: &RenderConfig) -> (p: Path)
        ensures
            p@ == path_start(*config),
    {
        Path { bounces: 0, max_bounces: config.max_bounces, shadows: config.shadows, finished: false }
    }

    /// Whether the path traces another ray. When it does not and has not
    /// ended, the bounce budget is exhausted and the remaining light is lost.
    pub fn may_trace(&self) -> (b: bool)
        ensures
            b == path_may_trace(self@),
    {
        !self.finished && self.bounces < self.max_bounces
    }

    /// Whether the path ended at the sky or at a matte surface.
    pub fn is_finished(&self) -> (b: bool)
        ensures
            b == self@.finished,
    {
        self.finished
    }

    /// Takes what the path's ray found and says what to do with it.
    pub fn advance(&mut self, event: Event) -> (a: Action)
        requires
            path_may_trace(old(self)@),
        ensures
            a == path_action(old(self)@, event),
            final(self)@ == path_step(old(self)@, event),
    {
        match event {
            Event::Miss => {
                self.finished = true;
                Action::Sky
            },
            Event::Diffuse { facing_light } => {
                self.finished = true;
                Action::Diffuse { shadow_test: self.shadows && facing_light }
            },
            Event::Metal => {
                self.bounces = self.bounces + 1;
                Action::Reflect
            },
        }
    }
}

/// A path traces at most as many rays as it has budget left.
pub proof fn lemma_path_rays_bounded(m: PathModel, events: Seq<Event>)
    requires
        m.bounces <= m.max_bounces,
    ensures
        path_rays(m, events) <= m.max_bounces - m.bounces,
        path_run(m, events).bounces <= m.max_bounces,
    decreases events.len(),
{
    if events.len() > 0 && path_may_trace(m) {
        lemma_path_rays_bounded(path_step(m, events[0]), events.drop_first());
    }
}

/// The bounce budget: whatever the rays find, one camera ray leads to at most
/// `max_bounces` traced rays.
pub proof fn lemma_bounce_budget(config: RenderConfig, events: Seq<Event>)
    ensures
        path_rays(path_start(config), events) <= config.max_bounces,
{
    lemma_path_rays_bounded(path_start(config), events);
}

/// A path whose first `max_bounces` rays all meet metal exhausts its budget
/// without ending, whatever would come after: the remaining light is lost and
/// the pixel is black. With `max_bounces == 1` a metal surface seen directly
/// appears black; with `max_bounces == 0` no ray is traced at all.
pub proof fn lemma_mirrors_exhaust_budget(config: RenderConfig, events: Seq<Event>)
    requires
        events.len() >= config.max_bounces,
        forall|i: int| 0 <= i < config.max_bounces ==> #[trigger] events[i] == Event::Metal,
    ensures
        !path_run(path_start(config), events).finished,
        path_run(path_start(config), events).bounces == config.max_bounces,
        path_rays(path_start(config), events) == config.max_bounces,
        !path_may_trace(path_run(path_start(config), events)),
{
    lemma_mirrors_exhaust_from(path_start(config), events);
}

proof fn lemma_mirrors_exhaust_from(m: PathModel, events: Seq<Event>)
    requires
        !m.finished,
        m.bounces <= m.max_bounces,
        events.len() >= m.max_bounces - m.bounces,
        forall|i: int| 0 <= i < m.max_bounces - m.bounces ==> #[trigger] events[i] == Event::Metal,
    ensures
        !path_run(m, events).finished,
        path_run(m, events).bounces == m.max_bounces,
        path_rays(m, events) == m.max_bounces - m.bounces,
        path_run(m, events).max_bounces == m.max_bounces,
    decreases events.len(),
{
    if events.len() > 0 && path_may_trace(m) {
        assert(events[0] == Event::Metal);
        let rest = events.drop_first();
        let m1 = path_step(m, events[0]);
        assert forall|i: int| 0 <= i < m1.max_bounces - m1.bounces implies #[trigger] rest[i] == Event::Metal by {
            assert(rest[i] == events[i + 1]);
        }
        lemma_mirrors_exhaust_from(m1, rest);
    }
}

/// A path whose first ray misses everything traces exactly that one ray and
/// is shaded with the sky; one whose first ray hits a matte surface traces
/// exactly that ray too, with a shadow test only when shadows are on and the
/// surface faces the light.
pub proof fn lemma_first_hit_ends_path(config: RenderConfig, events: Seq<Event>)
    requires
        config.max_bounces > 0,
        events.len() > 0,
        events[0] != Event::Metal,
    ensures
        path_rays(path_start(config), events) == 1,
        path_run(path_start(config), events).finished,
        path_action(path_start(config), events[0]) == (match events[0] {
            Event::Diffuse { facing_light } => Action::Diffuse { shadow_test: config.shadows && facing_light },
            _ => Action::Sky,
        }),
{
    let m1 = path_step(path_start(config), events[0]);
    assert(!path_may_trace(m1));
    assert(path_rays(m1, events.drop_first()) == 0);
    assert(path_run(m1, events.drop_first()) == m1);
}

} // verus!
