use vstd::prelude::*;
use crate::display::{popped, Command, CommandQueue};
use crate::entropy::{drawn, random};

verus! {

/// Width of the panel, in pixels.
pub const WIDTH: u32 = 240;

/// Height of the panel, in pixels.
pub const HEIGHT: u32 = 135;

/// Number of stars on the splash screen.
pub const STAR_COUNT: usize = 255;

/// What the renderer can draw.
pub enum Scene {
    /// The background alone.
    Clear,
    /// The starfield and wordmark.
    Splash,
    /// The alert screen: title, instructions and `message`.
    Panic { message: heapless::String<64> },
}

/// The scene a command asks for; `None` for the reserved commands, which
/// the renderer does not draw.
pub open spec fn scene_of(c: Command) -> Option<Scene> {
    match c {
        Command::Clear => Some(Scene::Clear),
        Command::Splash => Some(Scene::Splash),
        Command::Panic { message } => Some(Scene::Panic { message }),
        _ => None,
    }
}

/// The renderer's state: waiting for work, or drawing one scene.
pub enum RenderState {
    Idle,
    Drawing(Scene),
}

/// The state machine of the rendering context. It takes one command at a
/// time off the bus; the caller draws the scene into a cleared buffer,
/// blits it to the panel, clears the buffer again and calls [`Self::finish`].
pub struct Renderer {
    state: RenderState,
}

impl View for Renderer {
    type V = RenderState;

    closed spec fn view(&self) -> RenderState {
        self.state
    }
}

impl Renderer {
    pub fn new() -> (r: Self)
        ensures
            r@ is Idle,
    {
        Renderer { state: RenderState::Idle }
    }

    /// Polls the bus while idle. With nothing queued, stays idle and returns
    /// `Ok(false)`. Otherwise takes the oldest command: a drawable one moves
    /// the renderer to drawing its scene and gives `Ok(true)`; a reserved
    /// one is handed back in `Err`, a fatal mismatch between policy and
    /// renderer, and the renderer stays idle.
    pub fn poll(&mut self, queue: &mut CommandQueue) -> (r: Result<bool, Command>)
        requires
            old(self)@ is Idle,
        ensures
            final(queue)@ == popped(old(queue)@).1,
            popped(old(queue)@).0 is None ==> r == Ok::<bool, Command>(false) && final(self)@ is Idle,
            popped(old(queue)@).0 matches Some(c) ==> match scene_of(c) {
                Some(s) => r == Ok::<bool, Command>(true) && final(self)@ == RenderState::Drawing(s),
                None => r == Err::<bool, Command>(c) && final(self)@ is Idle,
            },
    {
        match queue.dequeue() {
            None => Ok(false),
            Some(c) => match c {
                Command::Clear => {
                    self.state = RenderState::Drawing(Scene::Clear);
                    Ok(true)
                },
                Command::Splash => {
                    self.state = RenderState::Drawing(Scene::Splash);
                    Ok(true)
                },
                Command::Panic { message } => {
                    self.state = RenderState::Drawing(Scene::Panic { message });
                    Ok(true)
                },
                other => Err(other),
            },
        }
    }

    /// The scene being drawn, if any.
    pub fn scene(&self) -> (s: Option<&Scene>)
        ensures
            self@ is Idle ==> s is None,
            self@ matches RenderState::Drawing(sc) ==> s == Some(&sc),
    {
        match &self.state {
            RenderState::Idle => None,
            RenderState::Drawing(sc) => Some(sc),
        }
    }

    /// Ends the current draw, once its output is on the panel and the
    /// buffer is cleared: back to idle.
    pub fn finish(&mut self)
        requires
            old(self)@ is Drawing,
        ensures
            final(self)@ is Idle,
    {
        self.state = RenderState::Idle;
    }
}

/// The accent colors of the splash wordmark.
#[derive(Clone, Copy, PartialEq, Eq, Structural, Debug)]
pub enum Accent {
    DarkBlue,
    DarkRed,
    DarkGoldenrod,
    Purple,
    DarkGreen,
    DarkCyan,
}

/// The palette of wordmark color pairs, by index.
pub open spec fn accent_pair_spec(choice: u32) -> (Accent, Accent) {
    if choice == 0 {
        (Accent::DarkBlue, Accent::DarkRed)
    } else if choice == 1 {
        (Accent::DarkBlue, Accent::DarkGoldenrod)
    } else if choice == 2 {
        (Accent::Purple, Accent::DarkGreen)
    } else {
        (Accent::Purple, Accent::DarkCyan)
    }
}

/// The wordmark color pair at index `choice` of the palette.
pub fn accent_pair(choice: u32) -> (p: (Accent, Accent))
    requires
        choice <= 3,
    ensures
        p == accent_pair_spec(choice),
{
    if choice == 0 {
        (Accent::DarkBlue, Accent::DarkRed)
    } else if choice == 1 {
        (Accent::DarkBlue, Accent::DarkGoldenrod)
    } else if choice == 2 {
        (Accent::Purple, Accent::DarkGreen)
    } else {
        (Accent::Purple, Accent::DarkCyan)
    }
}

/// The random parts of the splash screen: where the stars go, and which
/// color pair the wordmark takes.
pub struct SplashLayout {
    pub stars: Vec<(i32, i32)>,
    pub accents: (Accent, Accent),
}

/// Lays out a splash screen from the entropy source `random_bit`: 255 stars,
/// each a column in `[0, WIDTH)` then a row in `[0, HEIGHT)` drawn by
/// [`random`], then a color pair picked from the palette by one more draw.
pub fn splash_layout<F: Fn() -> bool>(random_bit: &F) -> (l: SplashLayout)
    requires
        random_bit.requires(()),
    ensures
        l.stars@.len() == STAR_COUNT,
        forall|i: int|
            0 <= i < STAR_COUNT ==> {
                let p = #[trigger] l.stars@[i];
                &&& 0 <= p.0 < WIDTH
                &&& 0 <= p.1 < HEIGHT
                &&& drawn(*random_bit, 0, (WIDTH - 1) as u32, p.0 as u32)
                &&& drawn(*random_bit, 0, (HEIGHT - 1) as u32, p.1 as u32)
            },
        exists|c: u32| drawn(*random_bit, 0, 3, c) && l.accents == accent_pair_spec(c),
{
    let mut stars: Vec<(i32, i32)> = Vec::new();
    let mut i: usize = 0;
    while i < STAR_COUNT
        invariant
            i <= STAR_COUNT,
            random_bit.requires(()),
            stars@.len() == i,
            forall|j: int|
                0 <= j < i ==> {
                    let p = #[trigger] stars@[j];
                    &&& 0 <= p.0 < WIDTH
                    &&& 0 <= p.1 < HEIGHT
                    &&& drawn(*random_bit, 0, (WIDTH - 1) as u32, p.0 as u32)
                    &&& drawn(*random_bit, 0, (HEIGHT - 1) as u32, p.1 as u32)
                },
        decreases STAR_COUNT - i,
    {
        let x = random(random_bit, 0, WIDTH - 1);
        let y = random(random_bit, 0, HEIGHT - 1);
        stars.push((x as i32, y as i32));
        i = i + 1;
    }
    let choice = random(random_bit, 0, 3);
    let accents = accent_pair(choice);
    assert(drawn(*random_bit, 0, 3, choice) && accents == accent_pair_spec(choice));
    SplashLayout { stars, accents }
}

} // verus!
