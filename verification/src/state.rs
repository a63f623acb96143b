//! The transition controller: which two fractals the animation is between,
//! since when, for how long, and what to show at any instant.

use vstd::prelude::*;
use crate::colors::ColorScheme;
use crate::complexity::{complexity_score, measure_complexity, sample_counts};
use crate::numeric::SCALE;
use crate::parameters::{lemma_lerp_endpoints, FractalParameters};

verus! {

/// Shortest transition, in milliseconds: that of a score of zero.
pub const MIN_TRANSITION_TIME: u64 = 5_000;

/// Longest transition, in milliseconds: that of a score of one.
pub const MAX_TRANSITION_TIME: u64 = 20_000;

/// Length of the first transition, in milliseconds.
pub const TRANSITION_TIME: u64 = 10_000;

/// Size of the output grid, in cells.
#[derive(Clone, Copy, Debug, PartialEq, Eq, Structural)]
pub struct ScreenSize {
    pub width: u16,
    pub height: u16,
}

/// State of the animation. Times are milliseconds on a monotonic clock.
#[derive(Clone, Copy, Debug, PartialEq, Eq, Structural)]
pub struct AppState {
    pub current_fractal: FractalParameters,
    pub next_fractal: FractalParameters,
    pub transition_start: u64,
    pub transition_time: u64,
    pub color_scheme: ColorScheme,
    pub show_help: bool,
}

/// What the user may ask of the running animation.
#[derive(Clone, Copy, Debug, PartialEq, Eq, Structural)]
pub enum Command {
    /// Leave the program.
    Quit,
    /// Switch to the next palette.
    NextColorScheme,
    /// Move on to a new fractal at once.
    NewFractal,
    /// Show or hide the help text.
    ToggleHelp,
}

/// The command bound to a key, if any: `q` quits, `c` changes the palette,
/// `n` asks for a new fractal, `h` toggles the help.
pub open spec fn command_for_key_spec(key: char) -> Option<Command> {
    if key == 'q' {
        Some(Command::Quit)
    } else if key == 'c' {
        Some(Command::NextColorScheme)
    } else if key == 'n' {
        Some(Command::NewFractal)
    } else if key == 'h' {
        Some(Command::ToggleHelp)
    } else {
        None
    }
}

/// Looks up the command bound to a key.
pub fn command_for_key(key: char) -> (command: Option<Command>)
    ensures
        command == command_for_key_spec(key),
{
    if key == 'q' {
        Some(Command::Quit)
    } else if key == 'c' {
        Some(Command::NextColorScheme)
    } else if key == 'n' {
        Some(Command::NewFractal)
    } else if key == 'h' {
        Some(Command::ToggleHelp)
    } else {
        None
    }
}

/// The transition time for a complexity score: the minimum plus the score's
/// share of the span up to the maximum, rounded down to a millisecond.
pub open spec fn transition_time_for(score: int) -> int {
    MIN_TRANSITION_TIME + score * (MAX_TRANSITION_TIME - MIN_TRANSITION_TIME) / (SCALE as int)
}

/// Time from `start` to `now`; zero should the clock read earlier than `start`.
pub open spec fn elapsed_between(start: int, now: int) -> int {
    if now >= start {
        now - start
    } else {
        0
    }
}

/// The fraction `elapsed / duration` as a fixed-point number, capped at one.
pub open spec fn progress_at(elapsed: int, duration: int) -> int {
    if elapsed >= duration {
        SCALE as int
    } else {
        elapsed * SCALE / duration
    }
}

/// The scores zero and one give the shortest and the longest transition,
/// and no score within the unit interval gives one outside them.
pub proof fn lemma_transition_time_range(score: int)
    ensures
        transition_time_for(0) == MIN_TRANSITION_TIME,
        transition_time_for(SCALE as int) == MAX_TRANSITION_TIME,
        0 <= score <= SCALE ==> MIN_TRANSITION_TIME <= transition_time_for(score)
            <= MAX_TRANSITION_TIME,
{
}

/// A transition is over exactly from the instant at which the elapsed time
/// equals its length: at that instant a tick rolls the state over, and one
/// millisecond earlier it leaves the state as it is.
pub proof fn lemma_rollover_boundary(
    s: AppState,
    now: u64,
    fresh: FractalParameters,
    width: u16,
    height: u16,
)
    ensures
        s.elapsed_spec(now as int) == s.transition_time ==> {
            &&& s.ticked(now, fresh, width, height).current_fractal == s.next_fractal
            &&& s.ticked(now, fresh, width, height).next_fractal == fresh
            &&& s.ticked(now, fresh, width, height).transition_start == now
        },
        s.elapsed_spec(now as int) + 1 == s.transition_time ==> s.ticked(
            now,
            fresh,
            width,
            height,
        ) == s,
{
}

/// Computes the transition time for a complexity score.
pub fn calculate_duration(score: u32) -> (ms: u64)
    ensures
        ms == transition_time_for(score as int),
        score <= SCALE ==> MIN_TRANSITION_TIME <= ms <= MAX_TRANSITION_TIME,
{
    let span: u64 = MAX_TRANSITION_TIME - MIN_TRANSITION_TIME;
    proof {
        assert(score * (MAX_TRANSITION_TIME - MIN_TRANSITION_TIME) == score * 15_000);
    }
    MIN_TRANSITION_TIME + (score as u64) * span / (SCALE as u64)
}

/// Measures a fractal's complexity on the given grid and returns the
/// transition time that the score calls for.
pub fn calculate_transition_time(julia: &FractalParameters, width: u16, height: u16) -> (ms: u64)
    requires
        width > 0,
        height > 0,
        julia.wf(),
    ensures
        ms == transition_time_for(
            complexity_score(sample_counts(*julia, width as int, height as int)),
        ),
        MIN_TRANSITION_TIME <= ms <= MAX_TRANSITION_TIME,
{
    calculate_duration(measure_complexity(julia, width, height))
}

/// The fixed-point fraction of a transition of `duration` milliseconds that
/// has passed after `elapsed` milliseconds, capped at one.
pub fn progress(elapsed: u64, duration: u64) -> (t: i64)
    ensures
        t == progress_at(elapsed as int, duration as int),
        0 <= t <= SCALE,
{
    if elapsed >= duration {
        SCALE
    } else {
        proof {
            assert(elapsed * SCALE <= 0xffff_ffff_ffff_ffff * 1_000_000) by (nonlinear_arith)
                requires 0 <= elapsed <= 0xffff_ffff_ffff_ffff, SCALE == 1_000_000;
            assert(elapsed * SCALE / (duration as int) <= SCALE) by (nonlinear_arith)
                requires 0 <= elapsed < duration, SCALE == 1_000_000;
            assert(elapsed * SCALE / (duration as int) >= 0) by (nonlinear_arith)
                requires 0 <= elapsed < duration, SCALE == 1_000_000;
        }
        let scaled: u128 = (elapsed as u128) * (SCALE as u128) / (duration as u128);
        scaled as i64
    }
}

impl AppState {
    /// Both fractals are well formed.
    pub open spec fn wf(&self) -> bool {
        self.current_fractal.wf() && self.next_fractal.wf()
    }

    /// Tells whether the state is well formed.
    pub fn is_valid(&self) -> (ok: bool)
        ensures
            ok == self.wf(),
    {
        self.current_fractal.is_valid() && self.next_fractal.is_valid()
    }

    /// Time since the running transition began.
    pub open spec fn elapsed_spec(&self, now: int) -> int {
        elapsed_between(self.transition_start as int, now)
    }

    /// The fractal to show `elapsed` milliseconds into the transition.
    pub open spec fn interpolated_spec(&self, elapsed: int) -> FractalParameters {
        self.current_fractal.lerp_spec(
            &self.next_fractal,
            progress_at(elapsed, self.transition_time as int),
        )
    }

    /// The state once `next_fractal` has been promoted, `fresh` has taken its
    /// place and a transition of `duration` milliseconds has begun at `now`.
    pub open spec fn rolled_over(&self, fresh: FractalParameters, now: u64, duration: u64)
        -> AppState {
        AppState {
            current_fractal: self.next_fractal,
            next_fractal: fresh,
            transition_start: now,
            transition_time: duration,
            color_scheme: self.color_scheme,
            show_help: self.show_help,
        }
    }

    /// The state after a tick at `now` that had `fresh` to draw on: rolled
    /// over if the transition was complete, else unchanged. The new transition
    /// is timed by the complexity of the fractal that has just become current.
    pub open spec fn ticked(&self, now: u64, fresh: FractalParameters, width: u16, height: u16)
        -> AppState {
        if self.elapsed_spec(now as int) >= self.transition_time {
            self.rolled_over(
                fresh,
                now,
                transition_time_for(
                    complexity_score(
                        sample_counts(self.next_fractal, width as int, height as int),
                    ),
                ) as u64,
            )
        } else {
            *self
        }
    }

    /// The state at start-up: the first transition has the default length,
    /// the palette is the rainbow and the help is hidden.
    pub open spec fn with_fractals_spec(
        current: FractalParameters,
        next: FractalParameters,
        now: u64,
    ) -> AppState {
        AppState {
            current_fractal: current,
            next_fractal: next,
            transition_start: now,
            transition_time: TRANSITION_TIME,
            color_scheme: ColorScheme::Rainbow,
            show_help: false,
        }
    }

    /// The state at start-up, given the two fractals to begin with.
    pub fn with_fractals(current: FractalParameters, next: FractalParameters, now: u64) -> (s:
        AppState)
        ensures
            s == AppState::with_fractals_spec(current, next, now),
    {
        AppState {
            current_fractal: current,
            next_fractal: next,
            transition_start: now,
            transition_time: TRANSITION_TIME,
            color_scheme: ColorScheme::Rainbow,
            show_help: false,
        }
    }

    /// The state at start-up, between two independently drawn fractals.
    pub fn new(now: u64) -> (s: AppState)
        ensures
            s.wf(),
            s.current_fractal.in_random_range(),
            s.next_fractal.in_random_range(),
            s == AppState::with_fractals_spec(s.current_fractal, s.next_fractal, now),
    {
        let current = FractalParameters::random();
        let next = FractalParameters::random();
        AppState::with_fractals(current, next, now)
    }

    /// Switches to the next palette of the cycle.
    pub fn next_color_scheme(&mut self)
        ensures
            *final(self) == (AppState {
                color_scheme: old(self).color_scheme.next_spec(),
                ..*old(self)
            }),
    {
        self.color_scheme = self.color_scheme.next();
    }

    /// Shows the help text if it is hidden, hides it if it is shown.
    pub fn toggle_help(&mut self)
        ensures
            *final(self) == (AppState { show_help: !old(self).show_help, ..*old(self) }),
    {
        self.show_help = !self.show_help;
    }

    /// Sets the length of the running transition from a complexity score.
    pub fn update_transition_time(&mut self, complexity: u32)
        ensures
            *final(self) == (AppState {
                transition_time: transition_time_for(complexity as int) as u64,
                ..*old(self)
            }),
            final(self).transition_time == transition_time_for(complexity as int),
    {
        self.transition_time = calculate_duration(complexity);
    }

    /// Promotes the next fractal to current, takes `fresh` as the new next
    /// one, restarts the clock at `now` and times the new transition by
    /// `complexity`.
    pub fn roll_over(&mut self, fresh: FractalParameters, now: u64, complexity: u32)
        ensures
            *final(self) == old(self).rolled_over(
                fresh,
                now,
                transition_time_for(complexity as int) as u64,
            ),
            final(self).transition_time == transition_time_for(complexity as int),
    {
        self.current_fractal = self.next_fractal;
        self.next_fractal = fresh;
        self.transition_start = now;
        self.update_transition_time(complexity);
    }

    /// Begins a new transition at once, toward a freshly drawn fractal.
    pub fn start_new_transition(&mut self, now: u64, complexity: u32)
        ensures
            final(self).next_fractal.in_random_range(),
            final(self).next_fractal.wf(),
            *final(self) == old(self).rolled_over(
                final(self).next_fractal,
                now,
                transition_time_for(complexity as int) as u64,
            ),
    {
        let fresh = FractalParameters::random();
        self.roll_over(fresh, now, complexity);
    }

    /// Milliseconds since the running transition began.
    pub fn elapsed(&self, now: u64) -> (ms: u64)
        ensures
            ms == self.elapsed_spec(now as int),
    {
        if now >= self.transition_start {
            now - self.transition_start
        } else {
            0
        }
    }

    /// Whether the running transition is over: the boundary counts as over.
    pub fn is_transition_complete(&self, elapsed_ms: u64) -> (done: bool)
        ensures
            done == (elapsed_ms >= self.transition_time),
    {
        elapsed_ms >= self.transition_time
    }

    /// The fractal to show `elapsed_ms` into the running transition.
    pub fn current_fractal_interpolated(&self, elapsed_ms: u64) -> (p: FractalParameters)
        ensures
            p == self.interpolated_spec(elapsed_ms as int),
            self.wf() ==> p.wf(),
            elapsed_ms >= self.transition_time ==> p == self.next_fractal,
            elapsed_ms == 0 && self.transition_time > 0 ==> p == self.current_fractal,
    {
        let t: i64 = progress(elapsed_ms, self.transition_time);
        proof {
            lemma_lerp_endpoints(self.current_fractal, self.next_fractal, t as int);
        }
        self.current_fractal.lerp(&self.next_fractal, t)
    }

    /// The state after a command given at time `now`, where `fresh` is the
    /// fractal drawn should a new one be asked for. A new transition is timed
    /// by the complexity, on the given grid, of the fractal that becomes
    /// current.
    pub open spec fn commanded(
        &self,
        command: Command,
        fresh: FractalParameters,
        now: u64,
        width: u16,
        height: u16,
    ) -> AppState {
        match command {
            Command::Quit => *self,
            Command::NextColorScheme => AppState {
                color_scheme: self.color_scheme.next_spec(),
                ..*self
            },
            Command::ToggleHelp => AppState { show_help: !self.show_help, ..*self },
            Command::NewFractal => self.rolled_over(
                fresh,
                now,
                transition_time_for(
                    complexity_score(
                        sample_counts(self.next_fractal, width as int, height as int),
                    ),
                ) as u64,
            ),
        }
    }

    /// Carries out a command given at time `now` and tells whether the
    /// animation goes on: it does unless the command is to quit. The command
    /// for a new fractal draws one at random; it alone looks at the grid.
    pub fn handle_command(
        &mut self,
        command: Command,
        now: u64,
        width: u16,
        height: u16,
    ) -> (running: bool)
        requires
            command == Command::NewFractal ==> old(self).wf() && width > 0 && height > 0,
        ensures
            *final(self) == old(self).commanded(
                command,
                final(self).next_fractal,
                now,
                width,
                height,
            ),
            command == Command::NewFractal ==> final(self).next_fractal.in_random_range(),
            old(self).wf() ==> final(self).wf(),
            running == (command != Command::Quit),
    {
        match command {
            Command::Quit => false,
            Command::NextColorScheme => {
                self.next_color_scheme();
                true
            },
            Command::ToggleHelp => {
                self.toggle_help();
                true
            },
            Command::NewFractal => {
                let score: u32 = measure_complexity(&self.next_fractal, width, height);
                self.start_new_transition(now, score);
                true
            },
        }
    }

    /// One step of the animation at time `now`, with `fresh` at hand should
    /// a new fractal be needed. If the running transition is complete, the
    /// state rolls over. The result is the fractal to show: the interpolation
    /// between the current and the next fractal, as they are after the step,
    /// at the progress that the transition had reached on entry.
    pub fn tick_with(
        &mut self,
        now: u64,
        fresh: FractalParameters,
        width: u16,
        height: u16,
    ) -> (shown: FractalParameters)
        requires
            old(self).wf(),
            fresh.wf(),
            width > 0,
            height > 0,
        ensures
            *final(self) == old(self).ticked(now, fresh, width, height),
            final(self).wf(),
            shown == final(self).current_fractal.lerp_spec(
                &final(self).next_fractal,
                progress_at(old(self).elapsed_spec(now as int), old(self).transition_time as int),
            ),
            shown.wf(),
            old(self).elapsed_spec(now as int) >= old(self).transition_time ==> shown == fresh,
    {
        let elapsed_ms: u64 = self.elapsed(now);
        let t: i64 = progress(elapsed_ms, self.transition_time);
        if self.is_transition_complete(elapsed_ms) {
            let score: u32 = measure_complexity(&self.next_fractal, width, height);
            self.roll_over(fresh, now, score);
        }
        proof {
            lemma_lerp_endpoints(self.current_fractal, self.next_fractal, t as int);
        }
        self.current_fractal.lerp(&self.next_fractal, t)
    }

    /// One step of the animation at time `now`; a new fractal, where one is
    /// needed, is drawn at random. See [`Self::tick_with`].
    pub fn tick(&mut self, now: u64, width: u16, height: u16) -> (shown: FractalParameters)
        requires
            old(self).wf(),
            width > 0,
            height > 0,
        ensures
            final(self).wf(),
            shown.wf(),
            old(self).elapsed_spec(now as int) < old(self).transition_time ==> {
                &&& *final(self) == *old(self)
                &&& shown == old(self).interpolated_spec(old(self).elapsed_spec(now as int))
            },
            old(self).elapsed_spec(now as int) >= old(self).transition_time ==> {
                &&& final(self).next_fractal.in_random_range()
                &&& *final(self) == old(self).ticked(
                    now,
                    final(self).next_fractal,
                    width,
                    height,
                )
                &&& shown == final(self).next_fractal
            },
    {
        let elapsed_ms: u64 = self.elapsed(now);
        if self.is_transition_complete(elapsed_ms) {
            let fresh = FractalParameters::random();
            self.tick_with(now, fresh, width, height)
        } else {
            self.current_fractal_interpolated(elapsed_ms)
        }
    }
}

} // verus!
