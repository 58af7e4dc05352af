//! Brightness of the Touch Bar and of the display.

use crate::config::Config;
use crate::keys::{
    Key, KEY_BRIGHTNESS_DOWN, KEY_BRIGHTNESS_UP, KEY_ILLUM_DOWN, KEY_ILLUM_UP,
};
use crate::search;
use crate::search::Search;
use crate::text;
use crate::text::{contains, decimal_string, parse_number, trim};
use vstd::prelude::*;
use vstd::string::*;

verus! {

/// How long the brightness of the Touch Bar is left alone after a brightness
/// key, in milliseconds.
pub const BRIGHTNESS_PAUSE_MS: u64 = 3000;

/// How long to wait between two steps of the illumination, in milliseconds.
pub const ILLUM_WRITE_MIN_INTERVAL_MS: u64 = 300;

/// The number that an attribute file holds.
pub open spec fn attr_value(content: Seq<char>) -> Option<nat> {
    text::parsed_number(text::trimmed(content), u32::MAX as nat)
}

/// Reads the number that an attribute file holds, where it holds one.
pub fn parse_attr(content: &str) -> (r: Option<u32>)
    ensures
        r matches Some(v) ==> attr_value(content@) == Some(v as nat),
        r is None ==> attr_value(content@) is None,
{
    match parse_number(trim(content), u32::MAX as u64) {
        Some(v) => Some(v as u32),
        None => None,
    }
}

/// The line that sets the brightness.
pub open spec fn brightness_line(value: u32) -> Seq<char> {
    text::decimal(value as nat) + "\n"@
}

/// The line that sets the brightness.
pub fn backlight_line(value: u32) -> (r: String)
    ensures
        r@ == brightness_line(value),
{
    let mut line = decimal_string(value as u64);
    line.append("\n");
    line
}

/// What is written to set the brightness reads back as the brightness.
pub proof fn brightness_reads_back(value: u32)
    ensures
        attr_value(brightness_line(value)) == Some(value as nat),
{
    let d = text::decimal(value as nat);
    let line = brightness_line(value);
    reveal_strlit("\n");
    text::decimal_denotes(value as nat);
    text::parse_undoes_decimal(value as nat, u32::MAX as nat);
    assert(line[0] == d[0]);
    assert(text::is_digit(d[0]));
    assert(text::trim_start_of(line) == line);
    assert(line.last() == '\n');
    assert(line.drop_last() =~= d);
    assert(text::is_digit(d[d.len() - 1]));
    assert(text::trim_end_of(d) == d);
    assert(text::trim_end_of(line) == text::trim_end_of(line.drop_last()));
}

/// The name is that of a Touch Bar backlight.
pub open spec fn is_touchbar_name(name: Seq<char>) -> bool {
    text::occurs_in(name, "display-pipe"@) || text::occurs_in(name, "appletb_backlight"@)
}

/// The name is that of a backlight of the built-in display.
pub open spec fn is_display_name(name: Seq<char>) -> bool {
    ||| text::occurs_in(name, "apple-panel-bl"@)
    ||| text::occurs_in(name, "gmux_backlight"@)
    ||| text::occurs_in(name, "intel_backlight"@)
    ||| text::occurs_in(name, "acpi_video0"@)
}

/// Finds the backlight of the Touch Bar among the names of a directory;
/// `read_failed` tells whether reading the directory broke off after them.
pub fn find_backlight(names: &Vec<String>, read_failed: bool) -> (r: Search)
    ensures
        search::search_result(
            text::texts(names@),
            |name: Seq<char>| is_touchbar_name(name),
            read_failed,
            r,
        ),
{
    let mut i: usize = 0;
    while i < names.len()
        invariant
            i <= names@.len(),
            forall|j: int| 0 <= j < i ==> !is_touchbar_name(#[trigger] text::texts(names@)[j]),
        decreases names.len() - i,
    {
        let name = names[i].as_str();
        if contains(name, "display-pipe") || contains(name, "appletb_backlight") {
            return Search::Found(i);
        }
        i += 1;
    }
    if read_failed {
        Search::ReadFailed
    } else {
        Search::Missing
    }
}

/// Finds the backlight of the built-in display among the names of a directory;
/// `read_failed` tells whether reading the directory broke off after them.
pub fn find_display_backlight(names: &Vec<String>, read_failed: bool) -> (r: Search)
    ensures
        search::search_result(
            text::texts(names@),
            |name: Seq<char>| is_display_name(name),
            read_failed,
            r,
        ),
{
    let mut i: usize = 0;
    while i < names.len()
        invariant
            i <= names@.len(),
            forall|j: int| 0 <= j < i ==> !is_display_name(#[trigger] text::texts(names@)[j]),
        decreases names.len() - i,
    {
        let name = names[i].as_str();
        if contains(name, "apple-panel-bl") || contains(name, "gmux_backlight") || contains(
            name,
            "intel_backlight",
        ) || contains(name, "acpi_video0") {
            return Search::Found(i);
        }
        i += 1;
    }
    if read_failed {
        Search::ReadFailed
    } else {
        Search::Missing
    }
}

/// The position of the lid: the switch is on while the lid is shut.
#[derive(Clone, Copy, PartialEq, Eq, Structural, Debug)]
pub enum SwitchState {
    Off,
    On,
}

/// What input events mean for the backlight.
#[derive(Clone, Copy, PartialEq, Eq, Structural, Debug)]
pub enum ActivityEvent {
    /// A key, the pointer, a gesture or a touch.
    Input,
    /// The lid was opened or shut.
    Lid(SwitchState),
    /// Anything else.
    Other,
}

/// One step of brightness: a thirty-second of the range, at least one.
pub open spec fn step_size(max: u32) -> u32 {
    if max / 32 >= 1 {
        max / 32
    } else {
        1
    }
}

/// The brightness one step up or down, within the range. The sum is kept to 32
/// bits.
pub open spec fn stepped(current: u32, max: u32, direction: i32) -> u32 {
    if direction > 0 {
        let up = (current + step_size(max)) % 0x1_0000_0000;
        if up < max {
            up as u32
        } else {
            max
        }
    } else if current >= step_size(max) {
        (current - step_size(max)) as u32
    } else {
        0
    }
}

fn step(current: u32, max: u32, direction: i32) -> (r: u32)
    ensures
        r == stepped(current, max, direction),
{
    let by: u32 = if max / 32 >= 1 {
        max / 32
    } else {
        1
    };
    if direction > 0 {
        let up: u32 = current.wrapping_add(by);
        if up < max {
            up
        } else {
            max
        }
    } else {
        current.saturating_sub(by)
    }
}

/// A step never leaves the range, where the brightness is in it and stays
/// clear of the limit of 32 bits: it goes up to the maximum, or down to zero.
pub proof fn steps_stay_in_range(current: u32, max: u32)
    requires
        current <= max,
        current + step_size(max) <= u32::MAX,
    ensures
        current <= stepped(current, max, 1i32) <= max,
        stepped(current, max, -1i32) <= current,
        current < max ==> current < stepped(current, max, 1i32),
        0 < current ==> stepped(current, max, -1i32) < current,
{
}

/// The number of nanoseconds in so many milliseconds.
pub open spec fn ms(millis: u64) -> int {
    millis * 1_000_000
}

/// The key changes the brightness of the display.
pub open spec fn is_display_key(action: Key) -> bool {
    action.code == KEY_BRIGHTNESS_UP || action.code == KEY_BRIGHTNESS_DOWN
}

/// The key changes the illumination of the Touch Bar.
pub open spec fn is_illum_key(action: Key) -> bool {
    action.code == KEY_ILLUM_UP || action.code == KEY_ILLUM_DOWN
}

/// The direction in which a key steps the brightness of the display.
pub open spec fn display_direction(action: Key) -> Option<i32> {
    if action.code == KEY_BRIGHTNESS_UP {
        Some(1i32)
    } else if action.code == KEY_BRIGHTNESS_DOWN {
        Some(-1i32)
    } else {
        None
    }
}

/// Keeps track of activity and sets the brightness of the Touch Bar by it.
/// Points in time are in nanoseconds of one clock.
pub struct BacklightManager {
    pub last_active: u64,
    pub max_bl: u32,
    pub current_bl: u32,
    pub lid_state: SwitchState,
    pub display_bl_max: u32,
    /// Until then the brightness of the Touch Bar is left alone.
    pub adaptive_paused_until: u128,
    /// Not before then the illumination is stepped again.
    pub illum_write_allowed_at: u128,
}

impl BacklightManager {
    /// The state at the start: the lid is open, and that was activity.
    pub open spec fn starting(
        max_bl: u32,
        current_bl: u32,
        display_bl_max: u32,
        now: u64,
    ) -> BacklightManager {
        BacklightManager {
            last_active: now,
            max_bl,
            current_bl,
            lid_state: SwitchState::Off,
            display_bl_max,
            adaptive_paused_until: now as u128,
            illum_write_allowed_at: now as u128,
        }
    }

    /// Starts at the time `now` with the values read from the two backlights.
    pub fn new(max_bl: u32, current_bl: u32, display_bl_max: u32, now: u64) -> (r: BacklightManager)
        ensures
            r == BacklightManager::starting(max_bl, current_bl, display_bl_max, now),
    {
        BacklightManager {
            lid_state: SwitchState::Off,
            max_bl,
            current_bl,
            last_active: now,
            display_bl_max,
            adaptive_paused_until: now as u128,
            illum_write_allowed_at: now as u128,
        }
    }

    /// Tells whether a key changes a brightness.
    pub fn is_brightness_key(action: Key) -> (r: bool)
        ensures
            r == (is_display_key(action) || is_illum_key(action)),
    {
        Self::is_display_brightness_key(action) || Self::is_touchbar_illum_key(action)
    }

    /// Tells whether a key changes the brightness of the display.
    pub fn is_display_brightness_key(action: Key) -> (r: bool)
        ensures
            r == is_display_key(action),
    {
        action.code == KEY_BRIGHTNESS_UP || action.code == KEY_BRIGHTNESS_DOWN
    }

    /// Tells whether a key changes the illumination of the Touch Bar.
    pub fn is_touchbar_illum_key(action: Key) -> (r: bool)
        ensures
            r == is_illum_key(action),
    {
        action.code == KEY_ILLUM_UP || action.code == KEY_ILLUM_DOWN
    }

    /// The brightness of the Touch Bar is left alone for so many milliseconds.
    pub open spec fn paused(self, now: u64, pause_ms: u64) -> BacklightManager {
        BacklightManager { adaptive_paused_until: (now + ms(pause_ms)) as u128, ..self }
    }

    /// Leaves the brightness of the Touch Bar alone for so many milliseconds.
    pub fn pause_adaptive_sync(&mut self, now: u64, pause_ms: u64)
        ensures
            *final(self) == old(self).paused(now, pause_ms),
            final(self).adaptive_paused_until == now + ms(pause_ms),
    {
        self.adaptive_paused_until = now as u128 + pause_ms as u128 * 1_000_000;
    }

    /// The state after a brightness key: that was activity, and the brightness
    /// of the Touch Bar is left alone for a while.
    pub open spec fn keyed(self, now: u64) -> BacklightManager {
        BacklightManager {
            adaptive_paused_until: (now + ms(BRIGHTNESS_PAUSE_MS)) as u128,
            last_active: now,
            ..self
        }
    }

    /// Answers a brightness key: tells in which direction to step the
    /// brightness of the display, if at all.
    pub fn handle_brightness_key(&mut self, action: Key, now: u64) -> (r: Option<i32>)
        ensures
            *final(self) == old(self).keyed(now),
            r == display_direction(action),
    {
        self.pause_adaptive_sync(now, BRIGHTNESS_PAUSE_MS);
        self.last_active = now;
        if action.code == KEY_BRIGHTNESS_UP {
            Some(1)
        } else if action.code == KEY_BRIGHTNESS_DOWN {
            Some(-1)
        } else {
            None
        }
    }

    /// The brightness of the display one step up or down.
    pub open spec fn display_stepped(self, current: u32, direction: i32) -> u32 {
        stepped(current, self.display_bl_max, direction)
    }

    /// The brightness of the display one step up or down from `current`.
    pub fn step_display_brightness(&self, current: u32, direction: i32) -> (r: u32)
        ensures
            r == self.display_stepped(current, direction),
    {
        step(current, self.display_bl_max, direction)
    }

    /// The state after a step of the illumination, and what to set it to.
    pub open spec fn illuminated(self, direction: i32, now: u64) -> (
        BacklightManager,
        Option<u32>,
    ) {
        if now < self.illum_write_allowed_at {
            (self, None)
        } else {
            let new = stepped(self.current_bl, self.max_bl, direction);
            (
                BacklightManager {
                    illum_write_allowed_at: (now + ms(ILLUM_WRITE_MIN_INTERVAL_MS)) as u128,
                    current_bl: new,
                    ..self
                },
                Some(new),
            )
        }
    }

    /// Steps the illumination of the Touch Bar up or down, unless the last step
    /// was too short a time ago, and tells what to set it to.
    pub fn step_touchbar_illumination(&mut self, direction: i32, now: u64) -> (r: Option<u32>)
        ensures
            (*final(self), r) == old(self).illuminated(direction, now),
    {
        if (now as u128) < self.illum_write_allowed_at {
            return None;
        }
        self.illum_write_allowed_at = now as u128 + ILLUM_WRITE_MIN_INTERVAL_MS as u128 * 1_000_000;
        let new: u32 = step(self.current_bl, self.max_bl, direction);
        self.current_bl = new;
        Some(new)
    }

    /// The state after an event.
    pub open spec fn noted(self, event: ActivityEvent, now: u64) -> BacklightManager {
        match event {
            ActivityEvent::Input => BacklightManager { last_active: now, ..self },
            ActivityEvent::Lid(SwitchState::Off) => BacklightManager {
                lid_state: SwitchState::Off,
                last_active: now,
                ..self
            },
            ActivityEvent::Lid(SwitchState::On) => BacklightManager {
                lid_state: SwitchState::On,
                ..self
            },
            ActivityEvent::Other => self,
        }
    }

    /// Records an event: input counts as activity, and so does opening the
    /// lid.
    pub fn process_event(&mut self, event: ActivityEvent, now: u64)
        ensures
            *final(self) == old(self).noted(event, now),
    {
        match event {
            ActivityEvent::Input => {
                self.last_active = now;
            },
            ActivityEvent::Lid(state) => {
                self.lid_state = state;
                if state == SwitchState::Off {
                    self.last_active = now;
                }
            },
            ActivityEvent::Other => {},
        }
    }

    /// How many whole milliseconds ago the last activity was.
    pub open spec fn idle_ms(self, now: u64) -> int {
        if now >= self.last_active {
            (now - self.last_active) / 1_000_000
        } else {
            0
        }
    }

    /// The brightness that is due: none while the lid is shut, full while there
    /// is activity, then dimmed, then none; never more than there is.
    pub open spec fn due_brightness(self, cfg: Config, now: u64) -> u32 {
        let wanted = if self.lid_state == SwitchState::On {
            0
        } else if self.idle_ms(now) < cfg.dim_timeout_ms {
            cfg.active_brightness
        } else if self.idle_ms(now) < cfg.off_timeout_ms {
            cfg.dimmed_brightness
        } else {
            0
        };
        if wanted < self.max_bl {
            wanted
        } else {
            self.max_bl
        }
    }

    /// The state once the brightness is up to date, and what to set it to where
    /// that is a change.
    pub open spec fn updated(self, cfg: Config, now: u64) -> (BacklightManager, Option<u32>) {
        let due = self.due_brightness(cfg, now);
        if now < self.adaptive_paused_until || due == self.current_bl {
            (self, None)
        } else {
            (BacklightManager { current_bl: due, ..self }, Some(due))
        }
    }

    /// Brings the brightness up to date, unless it is to be left alone, and
    /// tells what to set it to where that is a change.
    pub fn update_backlight(&mut self, cfg: &Config, now: u64) -> (r: Option<u32>)
        ensures
            (*final(self), r) == old(self).updated(*cfg, now),
    {
        if (now as u128) < self.adaptive_paused_until {
            return None;
        }
        let since_last_active: u64 = now.saturating_sub(self.last_active) / 1_000_000;
        let wanted: u32 = if self.lid_state == SwitchState::On {
            0
        } else if since_last_active < cfg.dim_timeout_ms {
            cfg.active_brightness
        } else if since_last_active < cfg.off_timeout_ms {
            cfg.dimmed_brightness
        } else {
            0
        };
        let new_bl: u32 = if wanted < self.max_bl {
            wanted
        } else {
            self.max_bl
        };
        if self.current_bl != new_bl {
            self.current_bl = new_bl;
            Some(new_bl)
        } else {
            None
        }
    }

    /// The brightness of the Touch Bar.
    pub fn current_bl(&self) -> (r: u32)
        ensures
            r == self.current_bl,
    {
        self.current_bl
    }
}

/// The brightness never exceeds the maximum, and is zero while the lid is
/// shut.
pub proof fn brightness_is_bounded(m: BacklightManager, cfg: Config, now: u64)
    ensures
        m.due_brightness(cfg, now) <= m.max_bl,
        m.lid_state == SwitchState::On ==> m.due_brightness(cfg, now) == 0,
{
}

/// Without activity the Touch Bar goes dark and stays dark.
pub proof fn idle_goes_dark(m: BacklightManager, cfg: Config, now: u64, later: u64)
    requires
        now <= later,
        m.idle_ms(now) >= cfg.dim_timeout_ms,
        m.idle_ms(now) >= cfg.off_timeout_ms,
    ensures
        m.due_brightness(cfg, now) == 0,
        m.due_brightness(cfg, later) == 0,
{
}

/// Right after activity the Touch Bar is at its full brightness, unless the
/// lid is shut.
pub proof fn activity_lights_up(m: BacklightManager, cfg: Config)
    requires
        m.lid_state == SwitchState::Off,
        cfg.dim_timeout_ms > 0,
        cfg.active_brightness <= m.max_bl,
    ensures
        m.due_brightness(cfg, m.last_active) == cfg.active_brightness,
{
}

/// After a brightness key the brightness of the Touch Bar is not written for
/// three seconds.
pub proof fn brightness_key_pauses(m: BacklightManager, cfg: Config, now: u64, later: u64)
    requires
        later < now + ms(BRIGHTNESS_PAUSE_MS),
    ensures
        m.keyed(now).updated(cfg, later) == (m.keyed(now), None::<u32>),
{
}

/// The illumination is stepped at most once in 300 milliseconds.
pub proof fn illumination_is_throttled(
    m: BacklightManager,
    first: i32,
    second: i32,
    now: u64,
    later: u64,
)
    requires
        m.illuminated(first, now).1 is Some,
        later < now + ms(ILLUM_WRITE_MIN_INTERVAL_MS),
    ensures
        m.illuminated(first, now).0.illuminated(second, later) == (
            m.illuminated(first, now).0,
            None::<u32>,
        ),
{
}

/// Nothing is written twice: once the brightness is up to date, bringing it up
/// to date again at the same time changes nothing.
pub proof fn update_writes_once(m: BacklightManager, cfg: Config, now: u64)
    ensures
        m.updated(cfg, now).0.updated(cfg, now) == (m.updated(cfg, now).0, None::<u32>),
{
}

/// The keys of the display are the two brightness keys, those of the Touch Bar
/// the two illumination keys; up means up.
pub proof fn brightness_keys(action: Key)
    ensures
        is_display_key(action) <==> action.code == 225 || action.code == 224,
        is_illum_key(action) <==> action.code == 230 || action.code == 229,
        display_direction(action) == Some(1i32) <==> action.code == 225,
        display_direction(action) == Some(-1i32) <==> action.code == 224,
        display_direction(action) is None <==> !is_display_key(action),
{
}

/// At the start the values are those that were read, the lid counts as open and
/// the moment as activity, and nothing keeps the brightness from being set.
pub proof fn starting_is_activity(
    max_bl: u32,
    current_bl: u32,
    display_bl_max: u32,
    now: u64,
    cfg: Config,
)
    ensures
        ({
            let m = BacklightManager::starting(max_bl, current_bl, display_bl_max, now);
            &&& m.max_bl == max_bl && m.current_bl == current_bl
            &&& m.display_bl_max == display_bl_max
            &&& m.lid_state == SwitchState::Off
            &&& m.idle_ms(now) == 0
            &&& m.updated(cfg, now).0.current_bl == m.due_brightness(cfg, now)
            &&& m.illuminated(1, now).1 is Some
        }),
{
}

/// Input and opening the lid are activity; shutting the lid is none and only
/// notes that it is shut; other events do nothing.
pub proof fn what_counts_as_activity(m: BacklightManager, now: u64)
    ensures
        ({
            let input = m.noted(ActivityEvent::Input, now);
            let open = m.noted(ActivityEvent::Lid(SwitchState::Off), now);
            let shut = m.noted(ActivityEvent::Lid(SwitchState::On), now);
            &&& input.idle_ms(now) == 0 && input.lid_state == m.lid_state
            &&& open.idle_ms(now) == 0 && open.lid_state == SwitchState::Off
            &&& shut.last_active == m.last_active && shut.lid_state == SwitchState::On
            &&& m.noted(ActivityEvent::Other, now) == m
        }),
{
}

/// What events do not touch: the values of the backlights and the times until
/// which these are left alone.
pub proof fn events_change_no_brightness(m: BacklightManager, event: ActivityEvent, now: u64)
    ensures
        ({
            let r = m.noted(event, now);
            &&& r.max_bl == m.max_bl
            &&& r.current_bl == m.current_bl
            &&& r.display_bl_max == m.display_bl_max
            &&& r.adaptive_paused_until == m.adaptive_paused_until
            &&& r.illum_write_allowed_at == m.illum_write_allowed_at
        }),
{
}

/// The smaller of two brightnesses.
pub open spec fn lesser(a: u32, b: u32) -> u32 {
    if a <= b {
        a
    } else {
        b
    }
}

/// The brightness by the time since the last activity: full for as long as the
/// first timeout says, then dimmed until the second, then none. A shut lid means
/// none at any time. It never exceeds what the backlight can do.
pub proof fn brightness_falls_with_time(m: BacklightManager, cfg: Config, now: u64)
    requires
        m.last_active <= now,
    ensures
        ({
            let since = now - m.last_active;
            let due = m.due_brightness(cfg, now);
            &&& m.lid_state == SwitchState::On ==> due == 0
            &&& m.lid_state == SwitchState::Off && since < cfg.dim_timeout_ms * 1_000_000 ==> due
                == lesser(cfg.active_brightness, m.max_bl)
            &&& m.lid_state == SwitchState::Off && cfg.dim_timeout_ms * 1_000_000 <= since
                < cfg.off_timeout_ms * 1_000_000 ==> due == lesser(
                cfg.dimmed_brightness,
                m.max_bl,
            )
            &&& cfg.dim_timeout_ms * 1_000_000 <= since && cfg.off_timeout_ms * 1_000_000 <= since
                ==> due == 0
        }),
{
}

/// Activity that lies ahead counts as activity now.
pub proof fn activity_ahead_counts(m: BacklightManager, cfg: Config, now: u64)
    requires
        now < m.last_active,
        cfg.dim_timeout_ms > 0,
        m.lid_state == SwitchState::Off,
    ensures
        m.due_brightness(cfg, now) == lesser(cfg.active_brightness, m.max_bl),
{
}

/// Bringing the brightness up to date sets it to what is due, and tells so
/// exactly where it was something else. While it is left alone nothing is set.
/// Nothing but the brightness changes.
pub proof fn brightness_is_brought_up_to_date(m: BacklightManager, cfg: Config, now: u64)
    ensures
        ({
            let (r, written) = m.updated(cfg, now);
            let due = m.due_brightness(cfg, now);
            &&& now < m.adaptive_paused_until ==> r == m && written is None
            &&& now >= m.adaptive_paused_until ==> {
                &&& r.current_bl == due
                &&& written == (if due != m.current_bl {
                    Some(due)
                } else {
                    None
                })
            }
            &&& r == (BacklightManager { current_bl: r.current_bl, ..m })
        }),
{
}

/// A brightness key counts as activity and leaves the brightness alone for three
/// seconds from then, no longer; a pause of any other length likewise.
pub proof fn pauses_end(m: BacklightManager, cfg: Config, now: u64, later: u64, pause_ms: u64)
    ensures
        m.keyed(now) == (BacklightManager { last_active: now, ..m.paused(now, 3000) }),
        later < now + pause_ms * 1_000_000 ==> m.paused(now, pause_ms).updated(cfg, later).1 is None,
        later >= now + pause_ms * 1_000_000 ==> m.paused(now, pause_ms).updated(cfg, later).0
            .current_bl == m.due_brightness(cfg, later),
        m.paused(now, pause_ms) == (BacklightManager {
            adaptive_paused_until: m.paused(now, pause_ms).adaptive_paused_until,
            ..m
        }),
{
}

/// A step is a thirty-second of the range, rounded down, but at least one.
pub proof fn steps_are_a_thirty_second(max: u32)
    ensures
        step_size(max) >= 1,
        max >= 32 ==> 32 * step_size(max) <= max < 32 * (step_size(max) + 1),
        max < 32 ==> step_size(max) == 1,
{
}

/// A step goes up for a positive direction and down for any other, by the size
/// of a step but not beyond the ends of the range.
pub proof fn steps_go_up_and_down(current: u32, max: u32, direction: i32)
    requires
        current + step_size(max) <= u32::MAX,
    ensures
        direction > 0 && current + step_size(max) <= max ==> stepped(current, max, direction)
            == current + step_size(max),
        direction > 0 && current + step_size(max) > max ==> stepped(current, max, direction) == max,
        direction <= 0 && current >= step_size(max) ==> stepped(current, max, direction) == current
            - step_size(max),
        direction <= 0 && current < step_size(max) ==> stepped(current, max, direction) == 0,
{
}

/// A step of the illumination sets what a step from the current brightness
/// gives, and notes it; 300 milliseconds later the next one is possible. One
/// that comes too early does nothing.
pub proof fn illumination_is_stepped(m: BacklightManager, direction: i32, now: u64, later: u64)
    ensures
        ({
            let (r, written) = m.illuminated(direction, now);
            &&& now < m.illum_write_allowed_at ==> r == m && written is None
            &&& now >= m.illum_write_allowed_at ==> {
                &&& written == Some(stepped(m.current_bl, m.max_bl, direction))
                &&& r.current_bl == stepped(m.current_bl, m.max_bl, direction)
                &&& r.illuminated(direction, later).1 is Some <==> later >= now + 300_000_000
                &&& r.max_bl == m.max_bl && r.last_active == m.last_active
                &&& r.lid_state == m.lid_state && r.display_bl_max == m.display_bl_max
                &&& r.adaptive_paused_until == m.adaptive_paused_until
            }
        }),
{
}

/// The backlight of the Touch Bar and those of displays are known by parts of
/// their names, wherever these stand.
pub proof fn backlights_are_known_by_name(head: Seq<char>, tail: Seq<char>)
    ensures
        is_touchbar_name(head + "display-pipe"@ + tail),
        is_touchbar_name(head + "appletb_backlight"@ + tail),
        is_display_name(head + "apple-panel-bl"@ + tail),
        is_display_name(head + "gmux_backlight"@ + tail),
        is_display_name(head + "intel_backlight"@ + tail),
        is_display_name(head + "acpi_video0"@ + tail),
{
    text::parts_occur(head, "display-pipe"@, tail);
    text::parts_occur(head, "appletb_backlight"@, tail);
    text::parts_occur(head, "apple-panel-bl"@, tail);
    text::parts_occur(head, "gmux_backlight"@, tail);
    text::parts_occur(head, "intel_backlight"@, tail);
    text::parts_occur(head, "acpi_video0"@, tail);
}

/// No other names are those of backlights.
pub proof fn other_names_are_no_backlights(name: Seq<char>)
    ensures
        is_touchbar_name(name) ==> text::occurs_in(name, "display-pipe"@) || text::occurs_in(
            name,
            "appletb_backlight"@,
        ),
        is_display_name(name) ==> text::occurs_in(name, "apple-panel-bl"@) || text::occurs_in(
            name,
            "gmux_backlight"@,
        ) || text::occurs_in(name, "intel_backlight"@) || text::occurs_in(name, "acpi_video0"@),
{
}

/// An attribute file holds the number that its text denotes, whatever white
/// space stands around it; a text that is no number, or too large a one, is none.
pub proof fn attributes_are_numbers(content: Seq<char>)
    ensures
        attr_value(content) == text::parsed_number(text::trimmed(content), 4_294_967_295),
        attr_value(text::trimmed(content)) == attr_value(content),
{
    text::trimming_again(content);
}

/// The brightness of the display is stepped within the range of the display,
/// whatever that of the Touch Bar: from one end of the range to the other.
pub proof fn display_steps_are_those_of_the_display(
    m: BacklightManager,
    other: BacklightManager,
    current: u32,
    direction: i32,
)
    requires
        m.display_bl_max == other.display_bl_max,
        current <= m.display_bl_max,
        m.display_bl_max <= 0x7fff_ffff,
    ensures
        m.display_stepped(current, direction) == other.display_stepped(current, direction),
        m.display_stepped(current, direction) <= m.display_bl_max,
        direction > 0 && current < m.display_bl_max ==> m.display_stepped(current, direction)
            > current,
        direction <= 0 && current > 0 ==> m.display_stepped(current, direction) < current,
        m.display_stepped(m.display_bl_max, 1) == m.display_bl_max,
        m.display_stepped(0, -1i32) == 0,
{
}

} // verus!
