//! The decisions of the single-threaded refresh loop: how long to wait for
//! input, when a watcher-triggered refresh is due (debounce), when the polling
//! fallback refreshes, and what each key or mouse event asks of the session.
//! Times are milliseconds since the loop started.

use vstd::prelude::*;

verus! {

/// Quiet period after the last change signal before refreshing.
pub const DEBOUNCE_MS: u64 = 150;

/// Interval of the polling fallback.
pub const POLL_INTERVAL_MS: u64 = 2000;

/// Input wait while a refresh is pending.
pub const PENDING_TIMEOUT_MS: u64 = 10;

/// Input wait otherwise.
pub const IDLE_TIMEOUT_MS: u64 = 100;

/// Rows moved by one mouse-wheel step down.
pub const WHEEL_STEP: isize = 3;

/// Rows moved by one mouse-wheel step up.
pub const WHEEL_STEP_UP: isize = -3;

/// One row up.
pub const ROW_UP: isize = -1;

/// What a non-blocking read of the watcher channel found.
#[derive(Debug, Clone, Copy, PartialEq, Eq, Structural)]
pub enum WatcherPoll {
    Changed,
    Empty,
    Disconnected,
}

/// The refresh timers.
#[derive(Debug, Clone, Copy, PartialEq, Eq, Structural)]
pub struct RefreshTimer {
    /// When the last change signal of a pending refresh arrived.
    pub pending_since: Option<u64>,
    /// Whether the polling fallback is on, for good.
    pub use_polling: bool,
    /// When the last polling refresh ran.
    pub last_poll: u64,
}

impl RefreshTimer {
    /// Timers at the loop's start; polling from the outset when no watcher
    /// could be made.
    pub fn new(watcher_ok: bool) -> (r: RefreshTimer)
        ensures
            r.pending_since is None,
            r.use_polling == !watcher_ok,
            r.last_poll == 0,
    {
        RefreshTimer { pending_since: None, use_polling: !watcher_ok, last_poll: 0 }
    }

    /// How long to wait for input: short while a refresh is pending.
    pub fn input_timeout_ms(&self) -> (r: u64)
        ensures
            r == if self.pending_since is Some { PENDING_TIMEOUT_MS } else { IDLE_TIMEOUT_MS },
    {
        if self.pending_since.is_some() {
            PENDING_TIMEOUT_MS
        } else {
            IDLE_TIMEOUT_MS
        }
    }

    /// Takes one read of the watcher channel at time `now`: a change
    /// (re)starts the debounce; a disconnection turns polling on for good.
    /// Returns whether to warn, which is only when polling was off.
    pub fn note_watcher(&mut self, poll: WatcherPoll, now: u64) -> (warn: bool)
        ensures
            final(self).pending_since == if poll == WatcherPoll::Changed {
                Some(now)
            } else {
                old(self).pending_since
            },
            final(self).use_polling == (old(self).use_polling || poll == WatcherPoll::Disconnected),
            final(self).last_poll == old(self).last_poll,
            warn == (poll == WatcherPoll::Disconnected && !old(self).use_polling),
    {
        match poll {
            WatcherPoll::Changed => {
                self.pending_since = Some(now);
                false
            },
            WatcherPoll::Empty => false,
            WatcherPoll::Disconnected => {
                let warn = !self.use_polling;
                self.use_polling = true;
                warn
            },
        }
    }

    /// Whether the debounced refresh is due at `now`; when it is, the pending
    /// mark clears.
    pub fn take_debounced(&mut self, now: u64) -> (due: bool)
        ensures
            due == (old(self).pending_since matches Some(t) && now >= t && now - t >= DEBOUNCE_MS),
            final(self).pending_since == if due { None } else { old(self).pending_since },
            final(self).use_polling == old(self).use_polling,
            final(self).last_poll == old(self).last_poll,
    {
        match self.pending_since {
            Some(t) => {
                if now >= t && now - t >= DEBOUNCE_MS {
                    self.pending_since = None;
                    true
                } else {
                    false
                }
            },
            None => false,
        }
    }

    /// Whether the polling refresh is due at `now`; when it is, the poll
    /// time becomes `now`.
    pub fn take_poll(&mut self, now: u64) -> (due: bool)
        ensures
            due == (old(self).use_polling && now >= old(self).last_poll && now - old(self).last_poll
                >= POLL_INTERVAL_MS),
            final(self).last_poll == if due { now } else { old(self).last_poll },
            final(self).pending_since == old(self).pending_since,
            final(self).use_polling == old(self).use_polling,
    {
        if self.use_polling && now >= self.last_poll && now - self.last_poll >= POLL_INTERVAL_MS {
            self.last_poll = now;
            true
        } else {
            false
        }
    }
}

/// A key press, as the loop sees it.
#[derive(Debug, Clone, Copy, PartialEq, Eq, Structural)]
pub enum KeyInput {
    Char(char),
    /// A character typed with Control held.
    Control(char),
    Esc,
    Enter,
    Up,
    Down,
    PageUp,
    PageDown,
    Other,
}

/// What the session is asked to do.
#[derive(Debug, Clone, Copy, PartialEq, Eq, Structural)]
pub enum Command {
    Quit,
    /// Answer the pending prompt.
    Answer(bool),
    ClearMultiSelect,
    MoveHighlight(isize),
    ToggleMultiSelect,
    SelectCurrent,
    StageSelected,
    UnstageSelected,
    ConfirmStageAll,
    ConfirmUnstageAll,
    ConfirmDiscardSelected,
    ConfirmDiscardAll,
    /// Scroll the diff a page, down when `true`.
    PageDiff(bool),
    /// Scroll the diff by rows.
    ScrollDiff(isize),
    /// Select the file under the pointer.
    ClickFileList,
    Undo,
    Nothing,
}

pub open spec fn spec_key_command(key: KeyInput, prompt_pending: bool, multi_empty: bool) -> Command {
    if prompt_pending {
        Command::Answer(key == KeyInput::Char('y') || key == KeyInput::Char('Y'))
    } else {
        match key {
            KeyInput::Char('q') => Command::Quit,
            KeyInput::Esc => if multi_empty { Command::Quit } else { Command::ClearMultiSelect },
            KeyInput::Down => Command::MoveHighlight(1),
            KeyInput::Up => Command::MoveHighlight(ROW_UP),
            KeyInput::Char(' ') => Command::ToggleMultiSelect,
            KeyInput::Enter => Command::SelectCurrent,
            KeyInput::Char('s') => Command::StageSelected,
            KeyInput::Char('u') => Command::UnstageSelected,
            KeyInput::Char('S') => Command::ConfirmStageAll,
            KeyInput::Char('U') => Command::ConfirmUnstageAll,
            KeyInput::Char('d') => Command::ConfirmDiscardSelected,
            KeyInput::Char('D') => Command::ConfirmDiscardAll,
            KeyInput::PageDown => Command::PageDiff(true),
            KeyInput::PageUp => Command::PageDiff(false),
            KeyInput::Control('z') => Command::Undo,
            _ => Command::Nothing,
        }
    }
}

/// What a key press asks for. With a prompt pending every key answers it,
/// `y` or `Y` in the affirmative; otherwise Esc first empties the
/// multi-select set and quits only when it is empty.
pub fn command_for_key(key: KeyInput, prompt_pending: bool, multi_empty: bool) -> (r: Command)
    ensures
        r == spec_key_command(key, prompt_pending, multi_empty),
{
    if prompt_pending {
        return Command::Answer(key == KeyInput::Char('y') || key == KeyInput::Char('Y'));
    }
    match key {
        KeyInput::Char('q') => Command::Quit,
        KeyInput::Esc => if multi_empty { Command::Quit } else { Command::ClearMultiSelect },
        KeyInput::Down => Command::MoveHighlight(1),
        KeyInput::Up => Command::MoveHighlight(ROW_UP),
        KeyInput::Char(' ') => Command::ToggleMultiSelect,
        KeyInput::Enter => Command::SelectCurrent,
        KeyInput::Char('s') => Command::StageSelected,
        KeyInput::Char('u') => Command::UnstageSelected,
        KeyInput::Char('S') => Command::ConfirmStageAll,
        KeyInput::Char('U') => Command::ConfirmUnstageAll,
        KeyInput::Char('d') => Command::ConfirmDiscardSelected,
        KeyInput::Char('D') => Command::ConfirmDiscardAll,
        KeyInput::PageDown => Command::PageDiff(true),
        KeyInput::PageUp => Command::PageDiff(false),
        KeyInput::Control('z') => Command::Undo,
        _ => Command::Nothing,
    }
}

/// A mouse event, as the loop sees it.
#[derive(Debug, Clone, Copy, PartialEq, Eq, Structural)]
pub enum MouseInput {
    WheelDown,
    WheelUp,
    LeftPress,
    Other,
}

/// What a mouse event asks for: the wheel moves the highlight over the file
/// list and scrolls the diff over the diff pane; a left press on the file
/// list selects.
pub fn command_for_mouse(input: MouseInput, in_file_list: bool, in_diff: bool) -> (r: Command)
    ensures
        r == match input {
            MouseInput::WheelDown => if in_file_list {
                Command::MoveHighlight(WHEEL_STEP)
            } else if in_diff {
                Command::ScrollDiff(WHEEL_STEP)
            } else {
                Command::Nothing
            },
            MouseInput::WheelUp => if in_file_list {
                Command::MoveHighlight(WHEEL_STEP_UP)
            } else if in_diff {
                Command::ScrollDiff(WHEEL_STEP_UP)
            } else {
                Command::Nothing
            },
            MouseInput::LeftPress => if in_file_list { Command::ClickFileList } else { Command::Nothing },
            MouseInput::Other => Command::Nothing,
        },
{
    match input {
        MouseInput::WheelDown => if in_file_list {
            Command::MoveHighlight(WHEEL_STEP)
        } else if in_diff {
            Command::ScrollDiff(WHEEL_STEP)
        } else {
            Command::Nothing
        },
        MouseInput::WheelUp => if in_file_list {
            Command::MoveHighlight(WHEEL_STEP_UP)
        } else if in_diff {
            Command::ScrollDiff(WHEEL_STEP_UP)
        } else {
            Command::Nothing
        },
        MouseInput::LeftPress => if in_file_list { Command::ClickFileList } else { Command::Nothing },
        MouseInput::Other => Command::Nothing,
    }
}

/// Whether the notification clears before a command runs: every key press
/// but the answer to a prompt clears it.
pub fn clears_flash(command: Command) -> (r: bool)
    ensures
        r == !(command is Answer),
{
    !matches!(command, Command::Answer(_))
}

} // verus!
