//! The decisions of the desktop front end: what a message does to the window's
//! state and which outside work it asks for, how log lines are shown, and which
//! log records the window takes.
use vstd::prelude::*;

use crate::app_config::{LogLevel, LogLevelFilter};
use crate::text::{chars_of, string_from_chars};

verus! {

/// A message of the window.
#[derive(Debug, Clone, PartialEq, Eq)]
pub enum Message {
    Start,
    Started,
    Stop,
    Stopped,
    Newlog(String),
}

/// The outside work that a message asks for.
#[derive(Debug, Clone, Copy, PartialEq, Eq, Structural)]
pub enum GuiTask {
    Nothing,
    /// Turn the system proxy on and start the inbound; report `Started` when
    /// that worked and `Stopped` when it did not.
    StartProxy,
    /// Stop the inbound, then report `Stopped`.
    StopProxy,
    /// Turn the system proxy off.
    DisableSystemProxy,
}

/// The state of the window: whether the system proxy is on, and the log lines
/// received.
pub struct ProxyGUI {
    system_proxy_enabled: bool,
    logs: Vec<String>,
}

/// The window's state as plain values.
pub struct GuiView {
    pub system_proxy_enabled: bool,
    pub logs: Seq<Seq<char>>,
}

impl View for ProxyGUI {
    type V = GuiView;

    closed spec fn view(&self) -> GuiView {
        GuiView {
            system_proxy_enabled: self.system_proxy_enabled,
            logs: self.logs@.map_values(|s: String| s@),
        }
    }
}

/// The state after a message, and the work it asks for.
pub open spec fn gui_step(s: GuiView, m: Message) -> (GuiView, GuiTask) {
    match m {
        Message::Start => (s, GuiTask::StartProxy),
        Message::Stop => (s, GuiTask::StopProxy),
        Message::Started => (GuiView { system_proxy_enabled: true, ..s }, GuiTask::Nothing),
        Message::Stopped => (
            GuiView { system_proxy_enabled: false, ..s },
            GuiTask::DisableSystemProxy,
        ),
        Message::Newlog(line) => (GuiView { logs: s.logs.push(line@), ..s }, GuiTask::Nothing),
    }
}

impl ProxyGUI {
    /// The system proxy off, and no log lines.
    pub fn new() -> (r: Self)
        ensures
            !r@.system_proxy_enabled,
            r@.logs.len() == 0,
    {
        let r = ProxyGUI { system_proxy_enabled: false, logs: Vec::new() };
        assert(r@.logs =~= Seq::<Seq<char>>::empty());
        r
    }

    pub fn system_proxy_enabled(&self) -> (r: bool)
        ensures
            r == self@.system_proxy_enabled,
    {
        self.system_proxy_enabled
    }

    pub fn logs(&self) -> (r: &[String])
        ensures
            r@.map_values(|s: String| s@) == self@.logs,
    {
        self.logs.as_slice()
    }

    /// Takes a message: updates the state and says which work to do.
    pub fn update(&mut self, msg: Message) -> (r: GuiTask)
        ensures
            (final(self)@, r) == gui_step(old(self)@, msg),
    {
        match msg {
            Message::Start => GuiTask::StartProxy,
            Message::Stop => GuiTask::StopProxy,
            Message::Started => {
                self.system_proxy_enabled = true;
                GuiTask::Nothing
            },
            Message::Stopped => {
                self.system_proxy_enabled = false;
                GuiTask::DisableSystemProxy
            },
            Message::Newlog(line) => {
                let ghost before = self@.logs;
                let ghost l = line@;
                self.logs.push(line);
                assert(self@.logs =~= before.push(l));
                GuiTask::Nothing
            },
        }
    }

    /// The message that toggling the proxy's check box sends: stop while the
    /// system proxy is on, start while it is off.
    pub fn toggle_message(&self) -> (r: Message)
        ensures
            r == (if self@.system_proxy_enabled { Message::Stop } else { Message::Start }),
    {
        if self.system_proxy_enabled {
            Message::Stop
        } else {
            Message::Start
        }
    }
}

/// The colour of a log line.
#[derive(Debug, Clone, Copy, PartialEq, Eq, Structural)]
pub enum LogColor {
    Error,
    Warn,
    Normal,
}

/// `t` stands in `s` at some position.
pub open spec fn contains_text(s: Seq<char>, t: Seq<char>) -> bool {
    exists|i: int| 0 <= i && i + t.len() <= s.len() && #[trigger] s.subrange(i, i + t.len()) == t
}

pub(crate) fn has_text(s: &[char], t: &[char]) -> (r: bool)
    ensures
        r == contains_text(s@, t@),
{
    if t.len() > s.len() {
        assert(!contains_text(s@, t@));
        return false;
    }
    let mut i: usize = 0;
    while i <= s.len() - t.len()
        invariant
            t@.len() <= s@.len(),
            s@.len() <= usize::MAX,
            i <= s@.len(),
            forall|j: int| 0 <= j < i && j + t@.len() <= s@.len() ==> #[trigger] s@.subrange(j, j + t@.len()) != t@,
        decreases s@.len() - i,
    {
        let mut k: usize = 0;
        let mut same = true;
        while k < t.len()
            invariant
                i + t@.len() <= s@.len(),
                s@.len() <= usize::MAX,
                k <= t@.len(),
                same == (forall|x: int| 0 <= x < k ==> s@[i + x] == t@[x]),
            decreases t@.len() - k,
        {
            if s[i + k] != t[k] {
                same = false;
            }
            k = k + 1;
        }
        if same {
            assert(s@.subrange(i as int, i + t@.len()) =~= t@);
            return true;
        } else {
            let ghost x = choose|x: int| 0 <= x < t@.len() && s@[i + x] != t@[x];
            assert(s@.subrange(i as int, i + t@.len())[x] != t@[x]);
        }
        i = i + 1;
    }
    assert forall|j: int| 0 <= j && j + t@.len() <= s@.len() implies #[trigger] s@.subrange(j, j + t@.len()) != t@ by {
        assert(j < i);
    }
    false
}

/// Lines holding "ERROR" are shown as errors, else lines holding "WARN" as
/// warnings.
pub fn log_color(line: &str) -> (r: LogColor)
    ensures
        contains_text(line@, seq!['E', 'R', 'R', 'O', 'R']) ==> r == LogColor::Error,
        !contains_text(line@, seq!['E', 'R', 'R', 'O', 'R']) && contains_text(line@, seq!['W', 'A', 'R', 'N'])
            ==> r == LogColor::Warn,
        !contains_text(line@, seq!['E', 'R', 'R', 'O', 'R']) && !contains_text(line@, seq!['W', 'A', 'R', 'N'])
            ==> r == LogColor::Normal,
{
    let c = chars_of(line);
    let error = ['E', 'R', 'R', 'O', 'R'];
    let warn = ['W', 'A', 'R', 'N'];
    assert(error@ =~= seq!['E', 'R', 'R', 'O', 'R']);
    assert(warn@ =~= seq!['W', 'A', 'R', 'N']);
    if has_text(c.as_slice(), error.as_slice()) {
        LogColor::Error
    } else if has_text(c.as_slice(), warn.as_slice()) {
        LogColor::Warn
    } else {
        LogColor::Normal
    }
}

/// Carriage returns, line feeds and tabs, which a shown log line drops.
pub open spec fn is_line_break(c: char) -> bool {
    c == '\r' || c == '\n' || c == '\t'
}

/// `s` without carriage returns, line feeds and tabs.
pub open spec fn without_breaks(s: Seq<char>) -> Seq<char>
    decreases s.len(),
{
    if s.len() == 0 {
        s
    } else if is_line_break(s.last()) {
        without_breaks(s.drop_last())
    } else {
        without_breaks(s.drop_last()).push(s.last())
    }
}

/// A log line as shown: without carriage returns, line feeds and tabs.
pub fn clean_log_line(line: &str) -> (r: String)
    ensures
        r@ == without_breaks(line@),
{
    let c = chars_of(line);
    let mut out: Vec<char> = Vec::new();
    let mut i: usize = 0;
    while i < c.len()
        invariant
            i <= c@.len(),
            out@ == without_breaks(c@.take(i as int)),
        decreases c@.len() - i,
    {
        assert(c@.take(i + 1).drop_last() =~= c@.take(i as int));
        let ch = c[i];
        if !(ch == '\r' || ch == '\n' || ch == '\t') {
            out.push(ch);
        }
        i = i + 1;
    }
    assert(c@.take(c@.len() as int) =~= c@);
    string_from_chars(out.as_slice())
}

pub open spec fn level_rank(l: LogLevel) -> nat {
    match l {
        LogLevel::Error => 1,
        LogLevel::Warn => 2,
        LogLevel::Info => 3,
        LogLevel::Debug => 4,
        LogLevel::Trace => 5,
    }
}

pub open spec fn filter_rank(f: LogLevelFilter) -> nat {
    match f {
        LogLevelFilter::Off => 0,
        LogLevelFilter::Error => 1,
        LogLevelFilter::Warn => 2,
        LogLevelFilter::Info => 3,
        LogLevelFilter::Debug => 4,
        LogLevelFilter::Trace => 5,
    }
}

pub open spec fn starts_with(s: Seq<char>, p: Seq<char>) -> bool {
    s.len() >= p.len() && s.take(p.len() as int) == p
}

/// Targets of the window's own toolkit, whose records the window leaves out.
pub open spec fn toolkit_target(t: Seq<char>) -> bool {
    ||| starts_with(t, seq!['i', 'c', 'e', 'd'])
    ||| starts_with(t, seq!['w', 'i', 'n', 'i', 't'])
    ||| starts_with(t, seq!['g', 'l', 'i', 'u', 'm'])
    ||| starts_with(t, seq!['s', 'o', 'f', 't', 'b', 'u', 'f', 'f', 'e', 'r'])
    ||| starts_with(t, seq!['g', 'i', 'l', 'r', 's'])
}

pub(crate) fn has_prefix(s: &[char], p: &[char]) -> (r: bool)
    ensures
        r == starts_with(s@, p@),
{
    if s.len() < p.len() {
        return false;
    }
    let mut i: usize = 0;
    while i < p.len()
        invariant
            p@.len() <= s@.len(),
            i <= p@.len(),
            forall|j: int| 0 <= j < i ==> s@[j] == p@[j],
        decreases p@.len() - i,
    {
        if s[i] != p[i] {
            assert(s@.take(p@.len() as int)[i as int] != p@[i as int]);
            return false;
        }
        i = i + 1;
    }
    assert(s@.take(p@.len() as int) =~= p@);
    true
}

/// Whether the window takes a record of level `level` from `target`, the
/// maximum level being `max`: a record within the maximum is taken unless it
/// comes from the toolkit; a record above the maximum is taken.
pub fn logger_enabled(level: LogLevel, max: LogLevelFilter, target: &str) -> (r: bool)
    ensures
        r == (level_rank(level) <= filter_rank(max) ==> !toolkit_target(target@)),
{
    let rank: u8 = match level {
        LogLevel::Error => 1,
        LogLevel::Warn => 2,
        LogLevel::Info => 3,
        LogLevel::Debug => 4,
        LogLevel::Trace => 5,
    };
    let max_rank: u8 = match max {
        LogLevelFilter::Off => 0,
        LogLevelFilter::Error => 1,
        LogLevelFilter::Warn => 2,
        LogLevelFilter::Info => 3,
        LogLevelFilter::Debug => 4,
        LogLevelFilter::Trace => 5,
    };
    if rank <= max_rank {
        let t = chars_of(target);
        let iced = ['i', 'c', 'e', 'd'];
        let winit = ['w', 'i', 'n', 'i', 't'];
        let glium = ['g', 'l', 'i', 'u', 'm'];
        let softbuffer = ['s', 'o', 'f', 't', 'b', 'u', 'f', 'f', 'e', 'r'];
        let gilrs = ['g', 'i', 'l', 'r', 's'];
        assert(iced@ =~= seq!['i', 'c', 'e', 'd']);
        assert(winit@ =~= seq!['w', 'i', 'n', 'i', 't']);
        assert(glium@ =~= seq!['g', 'l', 'i', 'u', 'm']);
        assert(softbuffer@ =~= seq!['s', 'o', 'f', 't', 'b', 'u', 'f', 'f', 'e', 'r']);
        assert(gilrs@ =~= seq!['g', 'i', 'l', 'r', 's']);
        let internal = has_prefix(t.as_slice(), iced.as_slice()) || has_prefix(
            t.as_slice(),
            winit.as_slice(),
        ) || has_prefix(t.as_slice(), glium.as_slice()) || has_prefix(
            t.as_slice(),
            softbuffer.as_slice(),
        ) || has_prefix(t.as_slice(), gilrs.as_slice());
        if internal {
            return false;
        }
    }
    true
}

} // verus!
