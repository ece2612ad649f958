use vstd::prelude::*;

use crate::digitus16::{hue_fits, lemma_small_hue_fits, DIGITS};

verus! {

/// Milliseconds between two ticks.
pub const FRAME_DELAY_MS: u32 = 10;

/// Ticks between two status reports.
pub const STATUS_INTERVAL_TICKS: u16 = 100;

/// Hue advance per tick, in tenths of a degree.
pub const HUE_STEP_TENTHS: u16 = 6;

/// One full turn of the hue circle, in tenths of a degree.
pub const HUE_TURN_TENTHS: u16 = 3600;

/// `"FCKAFD"`
pub open spec fn message() -> Seq<u8> {
    seq![70u8, 67, 75, 65, 70, 68]
}

/// The text shown in message mode.
pub fn message_text() -> (text: [u8; DIGITS])
    ensures
        text@ == message(),
{
    let text = [70u8, 67, 75, 65, 70, 68];
    assert(text@ =~= message());
    text
}

/// What the display shows.
#[derive(Clone, Copy, Debug, PartialEq, Eq, Structural)]
pub enum DisplayMode {
    Message,
    Temperature,
}

/// The other mode.
pub open spec fn other_mode(mode: DisplayMode) -> DisplayMode {
    match mode {
        DisplayMode::Message => DisplayMode::Temperature,
        DisplayMode::Temperature => DisplayMode::Message,
    }
}

impl DisplayMode {
    /// The mode a click switches to.
    pub fn toggled(self) -> (mode: Self)
        ensures
            mode == other_mode(self),
    {
        match self {
            DisplayMode::Message => DisplayMode::Temperature,
            DisplayMode::Temperature => DisplayMode::Message,
        }
    }

    /// The mode's name in status reports.
    pub fn label(self) -> (label: &'static str)
        ensures
            self == DisplayMode::Message ==> label@ == "message"@,
            self == DisplayMode::Temperature ==> label@ == "temperature"@,
    {
        match self {
            DisplayMode::Message => "message",
            DisplayMode::Temperature => "temperature",
        }
    }
}

/// Switching modes twice returns to the first mode.
pub proof fn lemma_toggle_twice(mode: DisplayMode)
    ensures
        other_mode(other_mode(mode)) == mode,
        other_mode(mode) != mode,
{
}

/// The display loop's state as plain values.
#[derive(Clone, Copy, Debug, PartialEq, Eq, Structural)]
pub struct AppState {
    pub mode: DisplayMode,
    /// Hue of the first LED, in tenths of a degree.
    pub hue_tenths: u16,
    /// Ticks since the last status report.
    pub status_ticks: u16,
}

/// The state once a tick has been planned: a click switches modes.
pub open spec fn mode_step(s: AppState, clicked: bool) -> AppState {
    AppState { mode: if clicked { other_mode(s.mode) } else { s.mode }, ..s }
}

/// The state once the planned frame has been shown: the hue advances
/// HUE_STEP_TENTHS around the circle and the status counter wraps every
/// STATUS_INTERVAL_TICKS.
pub open spec fn counters_step(s: AppState) -> AppState {
    AppState {
        hue_tenths: ((s.hue_tenths + HUE_STEP_TENTHS) % (HUE_TURN_TENTHS as int)) as u16,
        status_ticks: ((s.status_ticks + 1) % (STATUS_INTERVAL_TICKS as int)) as u16,
        ..s
    }
}

/// The state after one completed tick, `clicked` telling whether the button
/// was clicked.
pub open spec fn tick_step(s: AppState, clicked: bool) -> AppState {
    counters_step(mode_step(s, clicked))
}

/// What one tick shows and reports.
#[derive(Clone, Copy, Debug, PartialEq, Eq)]
pub struct TickPlan {
    /// The six characters to show.
    pub text: [u8; DIGITS],
    /// Hue of the first LED, in degrees.
    pub base_hue: u16,
    /// Whether the mode changed this tick (to be reported).
    pub mode_changed: bool,
    /// Whether a status report is due this tick.
    pub report_status: bool,
}

/// The display loop's decisions: which text to show in which colours, and
/// when to report.
pub struct App {
    mode: DisplayMode,
    hue_tenths: u16,
    status_ticks: u16,
}

impl View for App {
    type V = AppState;

    closed spec fn view(&self) -> AppState {
        AppState { mode: self.mode, hue_tenths: self.hue_tenths, status_ticks: self.status_ticks }
    }
}

/// The states the loop can reach: the hue stays within one turn and the
/// status counter below its interval.
pub open spec fn app_state_wf(s: AppState) -> bool {
    s.hue_tenths < HUE_TURN_TENTHS && s.status_ticks < STATUS_INTERVAL_TICKS
}

impl App {
    #[verifier::type_invariant]
    spec fn counters_in_range(self) -> bool {
        app_state_wf(self@)
    }

    /// The loop at start-up: message mode, hue 0, a status report due.
    pub fn new() -> (app: Self)
        ensures
            app@ == (AppState { mode: DisplayMode::Message, hue_tenths: 0, status_ticks: 0 }),
    {
        App { mode: DisplayMode::Message, hue_tenths: 0, status_ticks: 0 }
    }

    /// The current mode.
    pub fn mode(&self) -> (mode: DisplayMode)
        ensures
            mode == self@.mode,
    {
        self.mode
    }

    /// Plans one tick: `clicked` is whether the button was clicked this tick,
    /// and `temperature_text` what the temperature sensor would show. The
    /// hue and the status counter move on only once the frame has been shown
    /// (`frame_shown`).
    pub fn tick(&mut self, clicked: bool, temperature_text: &[u8; DIGITS]) -> (plan: TickPlan)
        ensures
            final(self)@ == mode_step(old(self)@, clicked),
            app_state_wf(final(self)@),
            plan.mode_changed == clicked,
            plan.text@ == (if final(self)@.mode == DisplayMode::Message {
                message()
            } else {
                temperature_text@
            }),
            plan.base_hue == old(self)@.hue_tenths / 10,
            plan.report_status == (old(self)@.status_ticks == 0),
            hue_fits(plan.text@, plan.base_hue),
    {
        proof {
            use_type_invariant(&*self);
        }
        if clicked {
            self.mode = self.mode.toggled();
        }
        let text = match self.mode {
            DisplayMode::Message => message_text(),
            DisplayMode::Temperature => *temperature_text,
        };
        let base_hue = self.hue_tenths / 10;
        proof {
            lemma_small_hue_fits(text@, base_hue);
        }
        let report_status = self.status_ticks == 0;
        TickPlan { text, base_hue, mode_changed: clicked, report_status }
    }

    /// Completes a tick after its frame has been sent: the hue advances and
    /// the status counter counts the tick.
    pub fn frame_shown(&mut self)
        ensures
            final(self)@ == counters_step(old(self)@),
            app_state_wf(final(self)@),
    {
        proof {
            use_type_invariant(&*self);
        }
        self.status_ticks = (self.status_ticks + 1) % STATUS_INTERVAL_TICKS;
        self.hue_tenths = (self.hue_tenths + HUE_STEP_TENTHS) % HUE_TURN_TENTHS;
    }
}

/// How many of `clicks` are clicks.
pub open spec fn click_count(clicks: Seq<bool>) -> nat
    decreases clicks.len(),
{
    if clicks.len() == 0 {
        0
    } else {
        click_count(clicks.drop_last()) + if clicks.last() { 1nat } else { 0nat }
    }
}

/// The state after one completed tick per entry of `clicks`.
pub open spec fn ticks_after(s: AppState, clicks: Seq<bool>) -> AppState
    decreases clicks.len(),
{
    if clicks.len() == 0 {
        s
    } else {
        tick_step(ticks_after(s, clicks.drop_last()), clicks.last())
    }
}

/// Over any run of completed ticks the hue advances HUE_STEP_TENTHS per tick around
/// the circle, the status counter counts ticks modulo STATUS_INTERVAL_TICKS
/// (so a report comes exactly once every STATUS_INTERVAL_TICKS ticks), and
/// the mode has changed exactly when the number of clicks is odd.
pub proof fn lemma_tick_cadence(s: AppState, clicks: Seq<bool>)
    requires
        app_state_wf(s),
    ensures
        ticks_after(s, clicks).hue_tenths == (s.hue_tenths + HUE_STEP_TENTHS * clicks.len()) % (HUE_TURN_TENTHS as int),
        ticks_after(s, clicks).status_ticks == (s.status_ticks + clicks.len()) % (STATUS_INTERVAL_TICKS as int),
        ticks_after(s, clicks).mode == (if click_count(clicks) % 2 == 0 { s.mode } else { other_mode(s.mode) }),
    decreases clicks.len(),
{
    if clicks.len() > 0 {
        let prefix = clicks.drop_last();
        lemma_tick_cadence(s, prefix);
        let n = prefix.len() as int;
        let h = s.hue_tenths as int;
        let c = s.status_ticks as int;
        vstd::arithmetic::div_mod::lemma_add_mod_noop(h + 6 * n, 6, 3600);
        vstd::arithmetic::div_mod::lemma_mod_twice(h + 6 * n, 3600);
        vstd::arithmetic::div_mod::lemma_add_mod_noop(c + n, 1, 100);
        vstd::arithmetic::div_mod::lemma_mod_twice(c + n, 100);
        assert(6int % 3600 == 6);
        assert(1int % 100 == 1);
    }
}

} // verus!
