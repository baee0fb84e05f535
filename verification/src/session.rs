//! The live-tuning session over a still image: the parameters in force,
//! the field that has the focus, and what each key does to them.
//!
//! Gamma is held in tenths, the step by which the keys change it.

use crate::converter::AsciiOptions;
use crate::gamma::{exponent_fault, CurveError, GammaCurve};
use crate::power_law::is_power_law;
use crate::text_grid::Settings;
use vstd::prelude::*;

verus! {

/// Length of one tick of the session loop, in nanoseconds.
pub const TICK_NS: u64 = 33_000_000;

/// Width of the grid when a session starts.
pub const INITIAL_WIDTH: u32 = 80;

/// Height of the grid when a session starts.
pub const INITIAL_HEIGHT: u32 = 50;

/// Gamma when a session starts, in tenths.
pub const INITIAL_GAMMA_TENTHS: i32 = 10;

/// The denominator under which gamma is held.
pub const GAMMA_DENOMINATOR: u32 = 10;

/// What the focus can be on.
#[derive(Clone, Copy, Debug, PartialEq, Eq, Structural)]
pub enum Field {
    Width,
    Height,
    Gamma,
    Finish,
}

/// The keys a session knows.
#[derive(Clone, Copy, Debug, PartialEq, Eq, Structural)]
pub enum Key {
    /// Raise the focused parameter by one step.
    Increase,
    /// Lower the focused parameter by one step.
    Decrease,
    /// Move the focus up.
    Previous,
    /// Move the focus down.
    Next,
    /// Confirm.
    Confirm,
    /// Any other key.
    Other,
}

/// The state of a session.
pub struct Live {
    pub width: int,
    pub height: int,
    pub gamma_tenths: int,
    pub focus: Field,
    pub art: Seq<char>,
}

/// The field below, the first following the last.
pub open spec fn field_after(field: Field) -> Field {
    match field {
        Field::Width => Field::Height,
        Field::Height => Field::Gamma,
        Field::Gamma => Field::Finish,
        Field::Finish => Field::Width,
    }
}

/// The field above, the last following the first.
pub open spec fn field_before(field: Field) -> Field {
    match field {
        Field::Width => Field::Finish,
        Field::Height => Field::Width,
        Field::Gamma => Field::Height,
        Field::Finish => Field::Gamma,
    }
}

/// `value` held between `low` and `high`.
pub open spec fn held(value: int, low: int, high: int) -> int {
    if value < low {
        low
    } else if value > high {
        high
    } else {
        value
    }
}

/// The state with the focused parameter moved by `steps`, held to the range
/// of its type. The focus on `Finish` moves nothing.
pub open spec fn adjusted(live: Live, steps: int) -> Live {
    match live.focus {
        Field::Width => Live { width: held(live.width + steps, 0, u32::MAX as int), ..live },
        Field::Height => Live { height: held(live.height + steps, 0, u32::MAX as int), ..live },
        Field::Gamma => Live {
            gamma_tenths: held(live.gamma_tenths + steps, i32::MIN as int, i32::MAX as int),
            ..live
        },
        Field::Finish => live,
    }
}

/// The state after a key.
pub open spec fn after_key(live: Live, key: Key) -> Live {
    match key {
        Key::Increase => adjusted(live, 1),
        Key::Decrease => adjusted(live, -1),
        Key::Previous => Live { focus: field_before(live.focus), ..live },
        Key::Next => Live { focus: field_after(live.focus), ..live },
        Key::Confirm => live,
        Key::Other => live,
    }
}

/// Whether a key ends the session: a confirmation with the focus on
/// `Finish`.
pub open spec fn ends_session(live: Live, key: Key) -> bool {
    key == Key::Confirm && live.focus == Field::Finish
}

/// The state after the same key `count` times.
pub open spec fn after_repeated(live: Live, key: Key, count: nat) -> Live
    decreases count,
{
    if count == 0 {
        live
    } else {
        after_key(after_repeated(live, key, (count - 1) as nat), key)
    }
}

/// The mark shown beside a field: `<` on the one that has the focus,
/// nothing on the others.
pub open spec fn marker_of(live: Live, field: Field) -> Seq<char> {
    if live.focus == field {
        "<"@
    } else {
        ""@
    }
}

/// The reason, if any, for which the parameters of a session cannot be
/// rendered: a gamma of zero or below, or one beyond what is evaluated.
pub open spec fn live_fault(live: Live) -> Option<CurveError> {
    if live.gamma_tenths <= 0 {
        Some(CurveError::Exponent)
    } else {
        exponent_fault(live.gamma_tenths as nat, GAMMA_DENOMINATOR as nat)
    }
}

/// Time left in a tick of which `elapsed_ns` have passed.
pub open spec fn tick_remainder(elapsed_ns: int) -> int {
    if elapsed_ns >= TICK_NS {
        0
    } else {
        TICK_NS - elapsed_ns
    }
}

impl Field {
    /// The field below.
    pub fn after(self) -> (field: Field)
        ensures
            field == field_after(self),
    {
        match self {
            Field::Width => Field::Height,
            Field::Height => Field::Gamma,
            Field::Gamma => Field::Finish,
            Field::Finish => Field::Width,
        }
    }

    /// The field above.
    pub fn before(self) -> (field: Field)
        ensures
            field == field_before(self),
    {
        match self {
            Field::Width => Field::Finish,
            Field::Height => Field::Width,
            Field::Gamma => Field::Height,
            Field::Finish => Field::Gamma,
        }
    }
}

/// A live-tuning session.
pub struct InteractiveSession {
    width: u32,
    height: u32,
    gamma_tenths: i32,
    focus: Field,
    art: String,
}

impl View for InteractiveSession {
    type V = Live;

    closed spec fn view(&self) -> Live {
        Live {
            width: self.width as int,
            height: self.height as int,
            gamma_tenths: self.gamma_tenths as int,
            focus: self.focus,
            art: self.art@,
        }
    }
}

impl InteractiveSession {
    /// A session at its start: 80 by 50 cells, gamma 1.0, the focus on the
    /// width, nothing rendered yet.
    pub fn new() -> (session: InteractiveSession)
        ensures
            session@ == (Live {
                width: INITIAL_WIDTH as int,
                height: INITIAL_HEIGHT as int,
                gamma_tenths: INITIAL_GAMMA_TENTHS as int,
                focus: Field::Width,
                art: Seq::<char>::empty(),
            }),
    {
        InteractiveSession {
            width: INITIAL_WIDTH,
            height: INITIAL_HEIGHT,
            gamma_tenths: INITIAL_GAMMA_TENTHS,
            focus: Field::Width,
            art: String::new(),
        }
    }

    /// Cells across.
    pub fn width(&self) -> (width: u32)
        ensures
            width == self@.width,
    {
        self.width
    }

    /// Cells down.
    pub fn height(&self) -> (height: u32)
        ensures
            height == self@.height,
    {
        self.height
    }

    /// Gamma, in tenths.
    pub fn gamma_tenths(&self) -> (tenths: i32)
        ensures
            tenths == self@.gamma_tenths,
    {
        self.gamma_tenths
    }

    /// The field that has the focus.
    pub fn focus(&self) -> (focus: Field)
        ensures
            focus == self@.focus,
    {
        self.focus
    }

    /// The options of the next conversion: the grid as it stands and the
    /// response of the gamma as it stands, evaluated exactly. A gamma of
    /// zero or below is refused. One beyond what is evaluated exactly is
    /// refused as too fine; `options_with` then takes its response from the
    /// caller.
    pub fn options(&self) -> (outcome: Result<AsciiOptions, CurveError>)
        ensures
            match outcome {
                Ok(options) => live_fault(self@) is None && options@.width == self@.width
                    && options@.height == self@.height && is_power_law(
                    options@.curve,
                    self@.gamma_tenths as nat,
                    GAMMA_DENOMINATOR as nat,
                ),
                Err(fault) => live_fault(self@) == Some(fault),
            },
    {
        if self.gamma_tenths <= 0 {
            return Err(CurveError::Exponent);
        }
        match GammaCurve::from_exponent(self.gamma_tenths as u32, GAMMA_DENOMINATOR) {
            Ok(curve) => Ok(AsciiOptions::new(self.width, self.height, curve)),
            Err(fault) => Err(fault),
        }
    }

    /// The options of the next conversion under a response that the caller
    /// has evaluated for the gamma as it stands: the grid as it stands and
    /// that response.
    pub fn options_with(&self, curve: GammaCurve) -> (options: AsciiOptions)
        ensures
            options@ == (Settings {
                width: self@.width,
                height: self@.height,
                curve: curve@,
            }),
    {
        AsciiOptions::new(self.width, self.height, curve)
    }

    /// The mark to show beside a field.
    pub fn marker(&self, field: Field) -> (mark: &'static str)
        ensures
            mark@ == marker_of(self@, field),
    {
        if self.focus == field {
            "<"
        } else {
            ""
        }
    }

    /// The text grid rendered last.
    pub fn art(&self) -> (art: &String)
        ensures
            art@ == self@.art,
    {
        &self.art
    }

    /// Keeps the text grid of this tick.
    pub fn set_art(&mut self, art: String)
        ensures
            final(self)@ == (Live { art: art@, ..old(self)@ }),
    {
        self.art = art;
    }

    /// Ends the session, handing out the text grid rendered last.
    pub fn finish(self) -> (art: String)
        ensures
            art@ == self@.art,
    {
        self.art
    }

    /// Applies a key, and says whether it ends the session.
    pub fn handle_key(&mut self, key: Key) -> (done: bool)
        ensures
            final(self)@ == after_key(old(self)@, key),
            done == ends_session(old(self)@, key),
    {
        match key {
            Key::Increase => {
                match self.focus {
                    Field::Width => {
                        if self.width < u32::MAX {
                            self.width = self.width + 1;
                        }
                    },
                    Field::Height => {
                        if self.height < u32::MAX {
                            self.height = self.height + 1;
                        }
                    },
                    Field::Gamma => {
                        if self.gamma_tenths < i32::MAX {
                            self.gamma_tenths = self.gamma_tenths + 1;
                        }
                    },
                    Field::Finish => {},
                }
                false
            },
            Key::Decrease => {
                match self.focus {
                    Field::Width => {
                        if self.width > 0 {
                            self.width = self.width - 1;
                        }
                    },
                    Field::Height => {
                        if self.height > 0 {
                            self.height = self.height - 1;
                        }
                    },
                    Field::Gamma => {
                        if self.gamma_tenths > i32::MIN {
                            self.gamma_tenths = self.gamma_tenths - 1;
                        }
                    },
                    Field::Finish => {},
                }
                false
            },
            Key::Previous => {
                self.focus = self.focus.before();
                false
            },
            Key::Next => {
                self.focus = self.focus.after();
                false
            },
            Key::Confirm => match self.focus {
                Field::Finish => true,
                _ => false,
            },
            Key::Other => false,
        }
    }
}

/// How long the loop may wait for a key when `elapsed_ns` of the tick have
/// passed: the rest of the tick.
pub fn poll_timeout_ns(elapsed_ns: u64) -> (timeout: u64)
    ensures
        timeout == tick_remainder(elapsed_ns as int),
{
    if elapsed_ns >= TICK_NS {
        0
    } else {
        TICK_NS - elapsed_ns
    }
}

/// Whether the tick is over when `elapsed_ns` have passed since it began.
pub fn tick_is_over(elapsed_ns: u64) -> (over: bool)
    ensures
        over == (tick_remainder(elapsed_ns as int) == 0),
{
    elapsed_ns >= TICK_NS
}

/// The focus goes round the four fields: down and up undo each other, and
/// four moves one way come back to where they began.
pub proof fn lemma_focus_cycles(field: Field)
    ensures
        field_before(field_after(field)) == field,
        field_after(field_before(field)) == field,
        field_after(field_after(field_after(field_after(field)))) == field,
        field_before(field_before(field_before(field_before(field)))) == field,
{
}

/// Raising the focused gamma `count` times raises it by `count` tenths and
/// leaves the rest alone, as long as the result is in range.
pub proof fn lemma_gamma_raised(live: Live, count: nat)
    requires
        live.focus == Field::Gamma,
        i32::MIN <= live.gamma_tenths,
        live.gamma_tenths + count <= i32::MAX,
    ensures
        after_repeated(live, Key::Increase, count) == (Live {
            gamma_tenths: live.gamma_tenths + count,
            ..live
        }),
    decreases count,
{
    if count > 0 {
        lemma_gamma_raised(live, (count - 1) as nat);
    }
}

/// A step up and a step down undo each other away from the ends of the
/// range.
pub proof fn lemma_adjust_undone(live: Live)
    requires
        0 < live.width < u32::MAX,
        0 < live.height < u32::MAX,
        i32::MIN < live.gamma_tenths < i32::MAX,
    ensures
        after_key(after_key(live, Key::Increase), Key::Decrease) == live,
        after_key(after_key(live, Key::Decrease), Key::Increase) == live,
{
}

/// Only a confirmation on `Finish` ends a session, and no key but
/// `Increase` and `Decrease` changes a parameter.
pub proof fn lemma_keys_keep_parameters(live: Live, key: Key)
    requires
        key != Key::Increase,
        key != Key::Decrease,
    ensures
        after_key(live, key).width == live.width,
        after_key(live, key).height == live.height,
        after_key(live, key).gamma_tenths == live.gamma_tenths,
        after_key(live, key).art == live.art,
{
}

} // verus!
