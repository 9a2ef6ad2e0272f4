//! In-engine developer tooling: the dev console, the entity inspector and
//! the performance overlay.

use crate::plugin::Plugin;
use vstd::prelude::*;

verus! {

/// Largest number of log lines the console keeps before trimming.
pub const MAX_LOG_LINES: usize = 500;

/// How many of the oldest lines are dropped when the log is trimmed.
pub const LOG_TRIM: usize = 100;

/// `true` for the characters with the Unicode `White_Space` property.
pub open spec fn is_white_space(c: char) -> bool {
    ||| '\u{9}' <= c <= '\u{d}'
    ||| c == ' '
    ||| c == '\u{85}'
    ||| c == '\u{a0}'
    ||| c == '\u{1680}'
    ||| '\u{2000}' <= c <= '\u{200a}'
    ||| c == '\u{2028}'
    ||| c == '\u{2029}'
    ||| c == '\u{202f}'
    ||| c == '\u{205f}'
    ||| c == '\u{3000}'
}

/// `s` without its leading white space.
pub open spec fn trim_start(s: Seq<char>) -> Seq<char>
    decreases s.len(),
{
    if s.len() > 0 && is_white_space(s[0]) { trim_start(s.drop_first()) } else { s }
}

/// `s` without its trailing white space.
pub open spec fn trim_end(s: Seq<char>) -> Seq<char>
    decreases s.len(),
{
    if s.len() > 0 && is_white_space(s.last()) { trim_end(s.drop_last()) } else { s }
}

/// `s` without leading and trailing white space.
pub open spec fn trimmed(s: Seq<char>) -> Seq<char> {
    trim_end(trim_start(s))
}

/// `str::trim`: the string without leading and trailing white space, white
/// space being the characters with the Unicode `White_Space` property.
#[verifier::external_body]
fn trim_str(s: &str) -> (r: &str)
    ensures
        r@ == trimmed(s@),
{
    s.trim()
}

/// The log after appending `line`: once it grows past [`MAX_LOG_LINES`],
/// the oldest [`LOG_TRIM`] lines are dropped.
pub open spec fn appended_log(log: Seq<Seq<char>>, line: Seq<char>) -> Seq<Seq<char>> {
    let l = log.push(line);
    if l.len() > MAX_LOG_LINES { l.subrange(LOG_TRIM as int, l.len() as int) } else { l }
}

/// The views of a list of strings.
pub open spec fn str_views(v: Seq<String>) -> Seq<Seq<char>> {
    v.map_values(|s: String| s@)
}

/// In-engine developer console: command input and log output.
pub struct DevConsole {
    /// Whether the console window is currently visible.
    pub visible: bool,
    /// Log lines shown in the console output area.
    pub log: Vec<String>,
    /// Current text in the input field.
    pub input: String,
    history: Vec<String>,
    history_idx: Option<usize>,
}

impl DevConsole {
    /// Whether the console is visible.
    pub closed spec fn is_visible(&self) -> bool {
        self.visible
    }

    /// The log lines.
    pub closed spec fn log_lines(&self) -> Seq<Seq<char>> {
        str_views(self.log@)
    }

    /// The text in the input field.
    pub closed spec fn input_text(&self) -> Seq<char> {
        self.input@
    }

    /// Submitted commands, oldest first.
    pub closed spec fn history(&self) -> Seq<Seq<char>> {
        str_views(self.history@)
    }

    /// Position while browsing the history, if browsing.
    pub closed spec fn history_position(&self) -> Option<usize> {
        self.history_idx
    }

    /// A new, hidden console with nothing logged, typed or submitted.
    pub fn new() -> (c: Self)
        ensures
            !c.is_visible(),
            c.log_lines() == Seq::<Seq<char>>::empty(),
            c.input_text() == Seq::<char>::empty(),
            c.history() == Seq::<Seq<char>>::empty(),
            c.history_position() is None,
    {
        let c = DevConsole {
            visible: false,
            log: Vec::new(),
            input: String::new(),
            history: Vec::new(),
            history_idx: None,
        };
        assert(c.log_lines() =~= Seq::<Seq<char>>::empty());
        assert(c.history() =~= Seq::<Seq<char>>::empty());
        c
    }

    /// Toggle visibility.
    pub fn toggle(&mut self)
        ensures
            final(self).is_visible() == !old(self).is_visible(),
            final(self).log_lines() == old(self).log_lines(),
            final(self).input_text() == old(self).input_text(),
            final(self).history() == old(self).history(),
            final(self).history_position() == old(self).history_position(),
    {
        self.visible = !self.visible;
    }

    /// Append a line to the log, keeping it bounded.
    pub fn print(&mut self, line: String)
        ensures
            final(self).log_lines() == appended_log(old(self).log_lines(), line@),
            final(self).is_visible() == old(self).is_visible(),
            final(self).input_text() == old(self).input_text(),
            final(self).history() == old(self).history(),
            final(self).history_position() == old(self).history_position(),
    {
        let ghost old_log = self.log@;
        self.log.push(line);
        proof {
            assert(str_views(self.log@) =~= str_views(old_log).push(line@));
        }
        if self.log.len() > MAX_LOG_LINES {
            let ghost full = self.log@;
            let kept = self.log.split_off(LOG_TRIM);
            self.log = kept;
            proof {
                assert(str_views(self.log@) =~= str_views(full).subrange(LOG_TRIM as int, full.len() as int));
            }
        }
    }

    /// Submit an already-trimmed command line: an empty one is ignored and
    /// leaves the console as it is; otherwise it is recorded in the history,
    /// the input field is cleared, and the command is returned.
    pub fn submit_command(&mut self, cmd: String) -> (r: Option<String>)
        ensures
            cmd@.len() == 0 ==> r is None && *final(self) == *old(self),
            cmd@.len() > 0 ==> (r matches Some(c) && c@ == cmd@
                && final(self).history() == old(self).history().push(cmd@)
                && final(self).input_text() == Seq::<char>::empty()
                && final(self).history_position() is None
                && final(self).log_lines() == old(self).log_lines()
                && final(self).is_visible() == old(self).is_visible()),
    {
        if cmd.as_str().is_empty() {
            return None;
        }
        let ghost old_hist = self.history@;
        self.history.push(cmd.clone());
        proof {
            assert(str_views(self.history@) =~= str_views(old_hist).push(cmd@));
        }
        self.history_idx = None;
        self.input = String::new();
        Some(cmd)
    }

    /// Submit the current input line as a command: the input without
    /// surrounding whitespace, unless that is empty.
    pub fn submit(&mut self) -> (r: Option<String>)
        ensures
            trimmed(old(self).input_text()).len() == 0 ==> r is None && *final(self) == *old(self),
            trimmed(old(self).input_text()).len() > 0 ==> (r matches Some(c)
                && c@ == trimmed(old(self).input_text())
                && final(self).history() == old(self).history().push(c@)
                && final(self).input_text() == Seq::<char>::empty()
                && final(self).history_position() is None
                && final(self).log_lines() == old(self).log_lines()
                && final(self).is_visible() == old(self).is_visible()),
    {
        let cmd = trim_str(self.input.as_str()).to_owned();
        self.submit_command(cmd)
    }
}

/// The console log never holds more than [`MAX_LOG_LINES`] lines when it
/// starts within that bound.
pub proof fn lemma_log_stays_bounded(log: Seq<Seq<char>>, line: Seq<char>)
    requires
        log.len() <= MAX_LOG_LINES,
    ensures
        appended_log(log, line).len() <= MAX_LOG_LINES,
        appended_log(log, line).last() == line,
        log.len() < MAX_LOG_LINES ==> appended_log(log, line) == log.push(line),
        log.len() == MAX_LOG_LINES ==> appended_log(log, line).len() == MAX_LOG_LINES + 1 - LOG_TRIM
            && forall|i: int| 0 <= i < MAX_LOG_LINES - LOG_TRIM ==> #[trigger] appended_log(log, line)[i] == log[i + LOG_TRIM],
{
}

/// Entity inspector: which entity is selected, and whether it is shown.
pub struct EntityInspector {
    /// Whether the inspector window is visible.
    pub visible: bool,
    /// The entity being inspected. `None` = no selection.
    pub selected: Option<hecs::Entity>,
    /// Filter string for the entity list search box.
    pub filter: String,
}

impl EntityInspector {
    /// A new, hidden inspector with nothing selected and no filter.
    pub fn new() -> (i: Self)
        ensures
            !i.visible,
            i.selected is None,
            i.filter@ == Seq::<char>::empty(),
    {
        EntityInspector { visible: false, selected: None, filter: String::new() }
    }

    /// Select an entity for inspection; this also shows the inspector.
    pub fn select(&mut self, entity: hecs::Entity)
        ensures
            final(self).selected == Some(entity),
            final(self).visible,
            final(self).filter == old(self).filter,
    {
        self.selected = Some(entity);
        self.visible = true;
    }

    /// Clear the selection.
    pub fn deselect(&mut self)
        ensures
            final(self).selected is None,
            final(self).visible == old(self).visible,
            final(self).filter == old(self).filter,
    {
        self.selected = None;
    }

    /// Toggle visibility.
    pub fn toggle(&mut self)
        ensures
            final(self).visible == !old(self).visible,
            final(self).selected == old(self).selected,
            final(self).filter == old(self).filter,
    {
        self.visible = !self.visible;
    }
}

/// How many frame-time samples the performance overlay keeps.
pub const FRAME_SAMPLES: usize = 60;

/// The samples kept after recording `x`: the newest [`FRAME_SAMPLES`].
pub open spec fn recorded<S>(samples: Seq<S>, x: S) -> Seq<S> {
    if samples.len() >= FRAME_SAMPLES { samples.drop_first().push(x) } else { samples.push(x) }
}

/// Performance overlay: visibility, the recent frame-time samples (of type
/// `S`), and the entity count.
pub struct PerfOverlay<S> {
    /// Whether the overlay is visible.
    pub visible: bool,
    frame_times: std::collections::VecDeque<S>,
    /// Current entity count.
    pub entity_count: usize,
}

impl<S> PerfOverlay<S> {
    /// The kept samples, oldest first.
    pub closed spec fn samples(&self) -> Seq<S> {
        self.frame_times@
    }

    /// Whether the overlay is shown.
    pub closed spec fn shown(&self) -> bool {
        self.visible
    }

    /// The recorded entity count.
    pub closed spec fn entities(&self) -> usize {
        self.entity_count
    }

    /// A hidden overlay with no samples.
    pub fn new() -> (o: Self)
        ensures
            !o.shown(),
            o.samples() == Seq::<S>::empty(),
            o.entities() == 0,
    {
        PerfOverlay { visible: false, frame_times: std::collections::VecDeque::new(), entity_count: 0 }
    }

    /// Record a frame-time sample, dropping the oldest beyond
    /// [`FRAME_SAMPLES`] (when the overlay holds at most that many).
    pub fn record_frame(&mut self, dt: S)
        ensures
            final(self).samples() == recorded(old(self).samples(), dt),
            final(self).shown() == old(self).shown(),
            final(self).entities() == old(self).entities(),
    {
        if self.frame_times.len() >= FRAME_SAMPLES {
            self.frame_times.pop_front();
        }
        self.frame_times.push_back(dt);
    }

    /// The kept samples, oldest first.
    pub fn frame_times(&self) -> (v: &std::collections::VecDeque<S>)
        ensures
            v@ == self.samples(),
    {
        &self.frame_times
    }

    /// Toggle visibility.
    pub fn toggle(&mut self)
        ensures
            final(self).shown() == !old(self).shown(),
            final(self).samples() == old(self).samples(),
            final(self).entities() == old(self).entities(),
    {
        self.visible = !self.visible;
    }
}

/// The overlay never keeps more than [`FRAME_SAMPLES`] samples, and always
/// keeps the newest.
pub proof fn lemma_samples_stay_bounded<S>(samples: Seq<S>, x: S)
    requires
        samples.len() <= FRAME_SAMPLES,
    ensures
        recorded(samples, x).len() <= FRAME_SAMPLES,
        recorded(samples, x).last() == x,
        samples.len() < FRAME_SAMPLES ==> recorded(samples, x) == samples.push(x),
        samples.len() == FRAME_SAMPLES ==> recorded(samples, x).len() == FRAME_SAMPLES
            && forall|i: int| 0 <= i < FRAME_SAMPLES - 1 ==> #[trigger] recorded(samples, x)[i] == samples[i + 1],
{
}

/// Registers the developer tools.
pub struct ToolsPlugin;

impl Plugin for ToolsPlugin {
    /// The name this plugin reports.
    open spec fn spec_name(&self) -> Seq<char> {
        "gur_tools"@
    }

    /// The plugin's unique name.
    fn name(&self) -> (n: &'static str)
        ensures
            n@ == "gur_tools"@,
    {
        "gur_tools"
    }
}

} // verus!
