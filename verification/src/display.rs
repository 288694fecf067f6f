//! Virtual display management: the capture surface of a Wayland session,
//! and the state, `xrandr` reports and `xrandr` command plan of an X11
//! session.
use vstd::prelude::*;
use crate::config::SessionType;
use crate::text::{
    chars_of, contains, decimal, first_some, is_digit, lemma_decimal_digits,
    lemma_first_index_unique, is_first_index, has_prefix, has_substring, lemma_first_some_at,
    lemma_first_some_end, lemma_first_some_found, lemma_first_some_step, lines, parse_u32, parse_u32_chars, split_lines,
    split_once, split_once_chars, split_whitespace, starts_with, string_from_chars, views, words,
};

verus! {

// ---------------------------------------------------------------------
// The backends.
/// Why a display backend could not be set up.
#[derive(Debug, Clone, Copy, PartialEq, Eq, Structural)]
pub enum DisplayError {
    /// The session is neither X11 nor Wayland.
    UnknownSession,
}

impl DisplayError {
    pub fn message(&self) -> (s: &'static str)
        ensures
            s@ == "Cannot determine display session type"@,
    {
        "Cannot determine display session type"
    }
}

/// Which backend serves a session.
#[derive(Debug, Clone, Copy, PartialEq, Eq, Structural)]
pub enum BackendKind {
    X11,
    Wayland,
}

/// The backend for the current session type.
pub fn select_backend(session: SessionType) -> (r: Result<BackendKind, DisplayError>)
    ensures
        r == match session {
            SessionType::X11 => Ok(BackendKind::X11),
            SessionType::Wayland => Ok(BackendKind::Wayland),
            SessionType::Unknown => Err(DisplayError::UnknownSession),
        },
{
    match session {
        SessionType::X11 => Ok(BackendKind::X11),
        SessionType::Wayland => Ok(BackendKind::Wayland),
        SessionType::Unknown => Err(DisplayError::UnknownSession),
    }
}

/// Trait for virtual display backends.
pub trait VirtualDisplay {
    /// Create a virtual display with the given resolution.
    fn create(&mut self, width: u32, height: u32) -> Result<(), DisplayError>;

    /// Remove the virtual display.
    fn destroy(&mut self) -> Result<(), DisplayError>;

    /// Get the capture region (x, y, width, height) for the virtual display.
    fn capture_region(&self) -> (u32, u32, u32, u32);

    /// Check if the virtual display is currently active.
    fn is_active(&self) -> bool;
}

/// Wayland capture surface backed by the desktop portal/PipeWire.
///
/// Wayland compositors do not expose one universal API for creating a
/// monitor, so this backend keeps the requested capture surface dimensions
/// while the portal supplies the actual screen source.
pub struct WaylandVirtualDisplay {
    pub active: bool,
    pub width: u32,
    pub height: u32,
}

impl WaylandVirtualDisplay {
    /// Create a new Wayland display manager.
    pub fn new() -> (d: Self)
        ensures
            !d.active,
            d.width == 0,
            d.height == 0,
    {
        WaylandVirtualDisplay { active: false, width: 0, height: 0 }
    }
}

impl VirtualDisplay for WaylandVirtualDisplay {
    fn create(&mut self, width: u32, height: u32) -> (r: Result<(), DisplayError>)
        ensures
            r is Ok,
            final(self).active,
            final(self).width == width,
            final(self).height == height,
    {
        self.width = width;
        self.height = height;
        self.active = true;
        Ok(())
    }

    /// The portal owns the screen source, so only the capture surface is
    /// released: the display is no longer active.
    fn destroy(&mut self) -> (r: Result<(), DisplayError>)
        ensures
            r is Ok,
            !final(self).active,
            final(self).width == old(self).width,
            final(self).height == old(self).height,
    {
        self.active = false;
        Ok(())
    }

    fn capture_region(&self) -> (r: (u32, u32, u32, u32))
        ensures
            r == (0u32, 0u32, self.width, self.height),
    {
        (0, 0, self.width, self.height)
    }

    fn is_active(&self) -> (b: bool)
        ensures
            b == self.active,
    {
        self.active
    }
}

/// X11 virtual display: either a disconnected output enabled through
/// `xrandr` to the right of the primary monitor, or, failing that, a region
/// of the existing desktop.
pub struct X11VirtualDisplay {
    /// Whether a virtual display is currently active.
    pub active: bool,
    /// Primary monitor width (used to position virtual display to the right).
    pub primary_width: u32,
    /// Primary monitor height.
    pub primary_height: u32,
    /// Virtual display width.
    pub virtual_width: u32,
    /// Virtual display height.
    pub virtual_height: u32,
    /// Name of the virtual output (if using an xrandr output).
    pub virtual_output: Option<String>,
    /// Custom modeline name (if one was created).
    pub modeline_name: Option<String>,
}

/// The region an X11 display captures (x, y, width, height): the requested
/// size, starting at the right edge of the primary monitor.
pub open spec fn capture_region_of(d: X11VirtualDisplay) -> (u32, u32, u32, u32) {
    (d.primary_width, 0u32, d.virtual_width, d.virtual_height)
}

pub open spec fn arg_views(args: Seq<String>) -> Seq<Seq<char>> {
    args.map_values(|a: String| a@)
}

impl X11VirtualDisplay {
    /// A display manager for a primary monitor of the given size.
    pub fn new(primary_width: u32, primary_height: u32) -> (d: Self)
        ensures
            !d.active,
            d.primary_width == primary_width,
            d.primary_height == primary_height,
            d.virtual_width == 0,
            d.virtual_height == 0,
            d.virtual_output is None,
            d.modeline_name is None,
    {
        X11VirtualDisplay {
            active: false,
            primary_width,
            primary_height,
            virtual_width: 0,
            virtual_height: 0,
            virtual_output: None,
            modeline_name: None,
        }
    }

    /// Records the output and mode that an `xrandr` setup enabled.
    pub fn attach_output(&mut self, output: String, mode: String)
        ensures
            final(self).virtual_output matches Some(o) && o@ == output@,
            final(self).modeline_name matches Some(m) && m@ == mode@,
            final(self).active == old(self).active,
            final(self).primary_width == old(self).primary_width,
            final(self).primary_height == old(self).primary_height,
            final(self).virtual_width == old(self).virtual_width,
            final(self).virtual_height == old(self).virtual_height,
    {
        self.virtual_output = Some(output);
        self.modeline_name = Some(mode);
    }

    /// The `xrandr` argument lists that tear the virtual output down, in
    /// order: switch the output off, then remove its mode from it and
    /// delete the mode. Nothing when no output was enabled.
    pub fn teardown_commands(&self) -> (cmds: Vec<Vec<String>>)
        ensures
            cmds@.map_values(|c: Vec<String>| arg_views(c@)) == match (
                self.virtual_output,
                self.modeline_name,
            ) {
                (Some(o), Some(m)) => seq![
                    seq!["--output"@, o@, "--off"@],
                    seq!["--delmode"@, o@, m@],
                    seq!["--rmmode"@, m@],
                ],
                (Some(o), None) => seq![seq!["--output"@, o@, "--off"@]],
                (None, _) => Seq::<Seq<Seq<char>>>::empty(),
            },
    {
        let mut cmds: Vec<Vec<String>> = Vec::new();
        if let Some(output) = &self.virtual_output {
            let mut off: Vec<String> = Vec::new();
            off.push(crate::text::to_string("--output"));
            off.push(output.clone());
            off.push(crate::text::to_string("--off"));
            assert(arg_views(off@) =~= seq!["--output"@, output@, "--off"@]);
            cmds.push(off);
            if let Some(mode) = &self.modeline_name {
                let mut del: Vec<String> = Vec::new();
                del.push(crate::text::to_string("--delmode"));
                del.push(output.clone());
                del.push(mode.clone());
                assert(arg_views(del@) =~= seq!["--delmode"@, output@, mode@]);
                cmds.push(del);
                let mut rm: Vec<String> = Vec::new();
                rm.push(crate::text::to_string("--rmmode"));
                rm.push(mode.clone());
                assert(arg_views(rm@) =~= seq!["--rmmode"@, mode@]);
                cmds.push(rm);
            }
        }
        assert(cmds@.map_values(|c: Vec<String>| arg_views(c@)) =~= match (
            self.virtual_output,
            self.modeline_name,
        ) {
            (Some(o), Some(m)) => seq![
                seq!["--output"@, o@, "--off"@],
                seq!["--delmode"@, o@, m@],
                seq!["--rmmode"@, m@],
            ],
            (Some(o), None) => seq![seq!["--output"@, o@, "--off"@]],
            (None, _) => Seq::<Seq<Seq<char>>>::empty(),
        });
        cmds
    }
}

impl VirtualDisplay for X11VirtualDisplay {
    /// Takes the requested size and activates the display; an output that
    /// `xrandr` enabled is recorded with `attach_output`.
    fn create(&mut self, width: u32, height: u32) -> (r: Result<(), DisplayError>)
        ensures
            r is Ok,
            final(self).active,
            final(self).virtual_width == width,
            final(self).virtual_height == height,
            final(self).primary_width == old(self).primary_width,
            final(self).primary_height == old(self).primary_height,
            final(self).virtual_output == old(self).virtual_output,
            final(self).modeline_name == old(self).modeline_name,
    {
        self.virtual_width = width;
        self.virtual_height = height;
        self.active = true;
        Ok(())
    }

    /// Forgets the output and mode (whose `teardown_commands` have been
    /// run) and deactivates the display.
    fn destroy(&mut self) -> (r: Result<(), DisplayError>)
        ensures
            r is Ok,
            !final(self).active,
            final(self).virtual_output is None,
            old(self).virtual_output is Some ==> final(self).modeline_name is None,
            old(self).virtual_output is None ==> final(self).modeline_name
                == old(self).modeline_name,
            final(self).primary_width == old(self).primary_width,
            final(self).primary_height == old(self).primary_height,
            final(self).virtual_width == old(self).virtual_width,
            final(self).virtual_height == old(self).virtual_height,
    {
        if self.virtual_output.is_some() {
            self.virtual_output = None;
            self.modeline_name = None;
        }
        self.active = false;
        Ok(())
    }

    /// The display sits right of the primary monitor, whether `xrandr`
    /// enabled an output there or a region of the desktop is captured.
    fn capture_region(&self) -> (r: (u32, u32, u32, u32))
        ensures
            r == capture_region_of(*self),
    {
        (self.primary_width, 0, self.virtual_width, self.virtual_height)
    }

    fn is_active(&self) -> (b: bool)
        ensures
            b == self.active,
    {
        self.active
    }
}

// ---------------------------------------------------------------------
// Reading `xrandr --query`.
/// The resolution that a word like `1920x1080+0+0` gives: the part before
/// the first `'+'`, split at its first `'x'` into two `u32` numbers.
pub open spec fn word_resolution(word: Seq<char>) -> Option<(u32, u32)> {
    match split_once(word, '+') {
        Some((res, _)) => match split_once(res, 'x') {
            Some((w, h)) => match (parse_u32(w), parse_u32(h)) {
                (Some(a), Some(b)) => Some((a, b)),
                _ => None,
            },
            None => None,
        },
        None => None,
    }
}

pub open spec fn word_resolution_fn() -> spec_fn(Seq<char>) -> Option<(u32, u32)> {
    |w: Seq<char>| word_resolution(w)
}

/// The resolution on a line that reports a connected monitor: the first
/// word that gives one.
pub open spec fn line_resolution(line: Seq<char>) -> Option<(u32, u32)> {
    if contains(line, " connected"@) {
        first_some(words(line), word_resolution_fn())
    } else {
        None
    }
}

/// The resolution that a line gives, when `primary_only` only on a line
/// that also marks its monitor as primary.
pub open spec fn line_resolution_in(line: Seq<char>, primary_only: bool) -> Option<(u32, u32)> {
    if primary_only && !contains(line, " primary"@) {
        None
    } else {
        line_resolution(line)
    }
}

pub open spec fn line_resolution_in_fn(primary_only: bool) -> spec_fn(Seq<char>) -> Option<
    (u32, u32),
> {
    |l: Seq<char>| line_resolution_in(l, primary_only)
}

/// The primary monitor's resolution in an `xrandr --query` report: that of
/// the first line marked primary, else that of the first connected
/// monitor, else 1920x1080.
pub open spec fn primary_resolution_of(report: Seq<char>) -> (u32, u32) {
    match first_some(lines(report), line_resolution_in_fn(true)) {
        Some(r) => r,
        None => match first_some(lines(report), line_resolution_in_fn(false)) {
            Some(r) => r,
            None => (1920, 1080),
        },
    }
}

fn resolution_in_word(word: &[char]) -> (r: Option<(u32, u32)>)
    ensures
        r == word_resolution(word@),
{
    match split_once_chars(word, '+') {
        Some((res, _)) => match split_once_chars(res.as_slice(), 'x') {
            Some((w, h)) => match (parse_u32_chars(w.as_slice()), parse_u32_chars(h.as_slice())) {
                (Some(a), Some(b)) => Some((a, b)),
                _ => None,
            },
            None => None,
        },
        None => None,
    }
}

fn resolution_in_line(line: &[char]) -> (r: Option<(u32, u32)>)
    ensures
        r == line_resolution(line@),
{
    let connected = chars_of(" connected");
    if !has_substring(line, connected.as_slice()) {
        return None;
    }
    let ws = split_whitespace(line);
    let n: usize = ws.len();
    let ghost f = word_resolution_fn();
    proof {
        lemma_first_some_end(words(line@), f);
    }
    for i in 0..n
        invariant
            n == ws@.len(),
            views(ws@) == words(line@),
            contains(line@, " connected"@),
            f == word_resolution_fn(),
            first_some(words(line@), f) == first_some(words(line@).skip(i as int), f),
    {
        assert(views(ws@)[i as int] == ws@[i as int]@);
        let r = resolution_in_word(ws[i].as_slice());
        proof {
            lemma_first_some_step(words(line@), f, i as int);
            assert(f(words(line@)[i as int]) == word_resolution(words(line@)[i as int]));
        }
        if r.is_some() {
            return r;
        }
    }
    proof {
        lemma_first_some_end(words(line@), f);
    }
    None
}

/// The first resolution that the lines give, on lines marked primary only
/// when `primary_only`.
fn search_resolution(ls: &Vec<Vec<char>>, primary_only: bool) -> (r: Option<(u32, u32)>)
    ensures
        r == first_some(views(ls@), line_resolution_in_fn(primary_only)),
{
    let n: usize = ls.len();
    let ghost f = line_resolution_in_fn(primary_only);
    let ghost all = views(ls@);
    let primary = chars_of(" primary");
    proof {
        lemma_first_some_end(all, f);
    }
    for i in 0..n
        invariant
            n == ls@.len(),
            all == views(ls@),
            primary@ == " primary"@,
            f == line_resolution_in_fn(primary_only),
            first_some(all, f) == first_some(all.skip(i as int), f),
    {
        assert(all[i as int] == ls@[i as int]@);
        let line = ls[i].as_slice();
        let r = if primary_only && !has_substring(line, primary.as_slice()) {
            None
        } else {
            resolution_in_line(line)
        };
        proof {
            lemma_first_some_step(all, f, i as int);
            assert(f(all[i as int]) == line_resolution_in(all[i as int], primary_only));
        }
        if r.is_some() {
            return r;
        }
    }
    proof {
        lemma_first_some_end(all, f);
    }
    None
}

/// Detect the primary monitor resolution from an `xrandr --query` report.
pub fn detect_primary_resolution(report: &str) -> (r: (u32, u32))
    ensures
        r == primary_resolution_of(report@),
{
    let s = chars_of(report);
    let ls = split_lines(s.as_slice());
    match search_resolution(&ls, true) {
        Some(r) => r,
        None => match search_resolution(&ls, false) {
            Some(r) => r,
            None => (1920, 1080),
        },
    }
}

/// The output that a line of the report offers: the first word of a line
/// that reports a disconnected output, when it names a virtual or dummy
/// output (`virtual_kind`), or a DisplayPort or HDMI one (otherwise).
pub open spec fn offered_output(line: Seq<char>, virtual_kind: bool) -> Option<Seq<char>> {
    if contains(line, " disconnected"@) && words(line).len() > 0 {
        let name = words(line)[0];
        if virtual_kind && (starts_with(name, "VIRTUAL"@) || starts_with(name, "DUMMY"@)) {
            Some(name)
        } else if !virtual_kind && (starts_with(name, "DP"@) || starts_with(name, "HDMI"@)) {
            Some(name)
        } else {
            None
        }
    } else {
        None
    }
}

pub open spec fn offered_output_fn(virtual_kind: bool) -> spec_fn(Seq<char>) -> Option<Seq<char>> {
    |l: Seq<char>| offered_output(l, virtual_kind)
}

/// The disconnected output that an `xrandr --query` report offers as a
/// virtual display: the first virtual or dummy one, else the first
/// DisplayPort or HDMI one.
pub open spec fn disconnected_output_of(report: Seq<char>) -> Option<Seq<char>> {
    match first_some(lines(report), offered_output_fn(true)) {
        Some(name) => Some(name),
        None => first_some(lines(report), offered_output_fn(false)),
    }
}

fn output_in_line(line: &[char], virtual_kind: bool) -> (r: Option<Vec<char>>)
    ensures
        match r {
            None => offered_output(line@, virtual_kind) is None,
            Some(name) => offered_output(line@, virtual_kind) == Some(name@),
        },
{
    let marker = chars_of(" disconnected");
    if !has_substring(line, marker.as_slice()) {
        return None;
    }
    let ws = split_whitespace(line);
    if ws.len() == 0 {
        return None;
    }
    let name = ws[0].clone();
    assert(views(ws@)[0] == ws@[0]@);
    let wanted = if virtual_kind {
        let virt = chars_of("VIRTUAL");
        let dummy = chars_of("DUMMY");
        has_prefix(name.as_slice(), virt.as_slice()) || has_prefix(name.as_slice(), dummy.as_slice())
    } else {
        let dp = chars_of("DP");
        let hdmi = chars_of("HDMI");
        has_prefix(name.as_slice(), dp.as_slice()) || has_prefix(name.as_slice(), hdmi.as_slice())
    };
    if wanted {
        Some(name)
    } else {
        None
    }
}

/// The first output of the wanted kind that the lines offer.
fn search_output(ls: &Vec<Vec<char>>, virtual_kind: bool) -> (r: Option<Vec<char>>)
    ensures
        match r {
            None => first_some(views(ls@), offered_output_fn(virtual_kind)) is None,
            Some(name) => first_some(views(ls@), offered_output_fn(virtual_kind)) == Some(name@),
        },
{
    let n: usize = ls.len();
    let ghost f = offered_output_fn(virtual_kind);
    let ghost all = views(ls@);
    proof {
        lemma_first_some_end(all, f);
    }
    for i in 0..n
        invariant
            n == ls@.len(),
            all == views(ls@),
            f == offered_output_fn(virtual_kind),
            first_some(all, f) == first_some(all.skip(i as int), f),
    {
        assert(all[i as int] == ls@[i as int]@);
        let v = output_in_line(ls[i].as_slice(), virtual_kind);
        proof {
            lemma_first_some_step(all, f, i as int);
            assert(f(all[i as int]) == offered_output(all[i as int], virtual_kind));
        }
        if v.is_some() {
            return v;
        }
    }
    proof {
        lemma_first_some_end(all, f);
    }
    None
}

/// Find a disconnected output in an `xrandr --query` report that can be
/// used as a virtual display.
pub fn find_disconnected_output(report: &str) -> (r: Option<String>)
    ensures
        match r {
            Some(name) => disconnected_output_of(report@) == Some(name@),
            None => disconnected_output_of(report@) is None,
        },
{
    let s = chars_of(report);
    let ls = split_lines(s.as_slice());
    match search_output(&ls, true) {
        Some(name) => Some(string_from_chars(name.as_slice())),
        None => match search_output(&ls, false) {
            Some(name) => Some(string_from_chars(name.as_slice())),
            None => None,
        },
    }
}

/// A line of a report that reports a disconnected output whose name marks
/// it as usable for a virtual display: a virtual or dummy output
/// (`virtual_kind`), or a DisplayPort or HDMI one.
pub open spec fn reports_free_output(line: Seq<char>, virtual_kind: bool) -> bool {
    &&& contains(line, " disconnected"@)
    &&& words(line).len() > 0
    &&& if virtual_kind {
        starts_with(words(line)[0], "VIRTUAL"@) || starts_with(words(line)[0], "DUMMY"@)
    } else {
        starts_with(words(line)[0], "DP"@) || starts_with(words(line)[0], "HDMI"@)
    }
}

proof fn lemma_offered_output_reports(line: Seq<char>, virtual_kind: bool)
    ensures
        offered_output(line, virtual_kind) is Some <==> reports_free_output(line, virtual_kind),
        offered_output(line, virtual_kind) is Some ==> offered_output(line, virtual_kind)
            == Some(words(line)[0]),
{
}

/// The output used as a virtual display is always named by a line of the
/// report that says the output is disconnected; a virtual or dummy output
/// is taken whenever the report offers one, and an output is found
/// whenever the report offers any; among outputs of the preferred kind, the
/// first listed is taken.
pub proof fn law_offered_output_is_disconnected(report: Seq<char>)
    ensures
        disconnected_output_of(report) matches Some(n) ==> exists|i: int|
            0 <= i < lines(report).len() && contains(#[trigger] lines(report)[i], " disconnected"@)
                && words(lines(report)[i]).len() > 0 && words(lines(report)[i])[0] == n
                && (reports_free_output(lines(report)[i], true) || reports_free_output(
                lines(report)[i],
                false,
            )),
        (exists|i: int|
            0 <= i < lines(report).len() && reports_free_output(#[trigger] lines(report)[i], true))
            ==> (disconnected_output_of(report) matches Some(n) && (starts_with(n, "VIRTUAL"@)
            || starts_with(n, "DUMMY"@))),
        (exists|i: int|
            0 <= i < lines(report).len() && (reports_free_output(#[trigger] lines(report)[i], true)
                || reports_free_output(lines(report)[i], false)))
            ==> disconnected_output_of(report) is Some,
{
    let ls = lines(report);
    let fv = offered_output_fn(true);
    let fp = offered_output_fn(false);
    assert forall|i: int| 0 <= i < ls.len() implies (fv(#[trigger] ls[i]) is Some
        <==> reports_free_output(ls[i], true)) && (fp(ls[i]) is Some <==> reports_free_output(
        ls[i],
        false,
    )) && (fv(ls[i]) is Some ==> fv(ls[i]) == Some(words(ls[i])[0])) && (fp(ls[i]) is Some
        ==> fp(ls[i]) == Some(words(ls[i])[0])) by {
        lemma_offered_output_reports(ls[i], true);
        lemma_offered_output_reports(ls[i], false);
    }
    lemma_first_some_found(ls, fv);
    lemma_first_some_found(ls, fp);
    if first_some(ls, fv) is Some {
        let i = choose|i: int|
            0 <= i < ls.len() && fv(#[trigger] ls[i]) == first_some(ls, fv) && forall|j: int|
                0 <= j < i ==> fv(#[trigger] ls[j]) is None;
        assert(fv(ls[i]) is Some);
    } else if first_some(ls, fp) is Some {
        let i = choose|i: int|
            0 <= i < ls.len() && fp(#[trigger] ls[i]) == first_some(ls, fp) && forall|j: int|
                0 <= j < i ==> fp(#[trigger] ls[j]) is None;
        assert(fp(ls[i]) is Some);
    }
}

/// Among the usable outputs, the first listed virtual or dummy one is
/// taken; when there is none, the first listed DisplayPort or HDMI one.
pub proof fn law_offered_output_order(report: Seq<char>, i: int)
    requires
        0 <= i < lines(report).len(),
    ensures
        reports_free_output(lines(report)[i], true) && (forall|j: int|
            0 <= j < i ==> !reports_free_output(#[trigger] lines(report)[j], true))
            ==> disconnected_output_of(report) == Some(words(lines(report)[i])[0]),
        reports_free_output(lines(report)[i], false) && (forall|j: int|
            0 <= j < lines(report).len() ==> !reports_free_output(#[trigger] lines(report)[j], true))
            && (forall|j: int| 0 <= j < i ==> !reports_free_output(#[trigger] lines(report)[j], false))
            ==> disconnected_output_of(report) == Some(words(lines(report)[i])[0]),
{
    let ls = lines(report);
    let fv = offered_output_fn(true);
    let fp = offered_output_fn(false);
    assert forall|j: int| 0 <= j < ls.len() implies (fv(#[trigger] ls[j]) is Some
        <==> reports_free_output(ls[j], true)) && (fp(ls[j]) is Some <==> reports_free_output(
        ls[j],
        false,
    )) && (fv(ls[j]) is Some ==> fv(ls[j]) == Some(words(ls[j])[0])) && (fp(ls[j]) is Some
        ==> fp(ls[j]) == Some(words(ls[j])[0])) by {
        lemma_offered_output_reports(ls[j], true);
        lemma_offered_output_reports(ls[j], false);
    }
    if reports_free_output(ls[i], true) && (forall|j: int|
        0 <= j < i ==> !reports_free_output(#[trigger] ls[j], true)) {
        assert forall|j: int| 0 <= j < i implies fv(#[trigger] ls[j]) is None by {
            assert(!reports_free_output(ls[j], true));
        }
        lemma_first_some_at(ls, fv, i);
    }
    if reports_free_output(ls[i], false) && (forall|j: int|
        0 <= j < ls.len() ==> !reports_free_output(#[trigger] ls[j], true)) && (forall|j: int|
        0 <= j < i ==> !reports_free_output(#[trigger] ls[j], false)) {
        lemma_first_some_found(ls, fv);
        if first_some(ls, fv) is Some {
            let k = choose|k: int|
                0 <= k < ls.len() && fv(#[trigger] ls[k]) == first_some(ls, fv) && forall|j: int|
                    0 <= j < k ==> fv(#[trigger] ls[j]) is None;
            assert(!reports_free_output(ls[k], true));
        }
        assert forall|j: int| 0 <= j < i implies fp(#[trigger] ls[j]) is None by {
            assert(!reports_free_output(ls[j], false));
        }
        lemma_first_some_at(ls, fp, i);
    }
}

/// The line that decides the primary monitor's resolution: the first line
/// marked primary that gives a resolution; failing that, the first
/// connected line that gives one, in report order; failing both, 1920x1080.
pub proof fn law_primary_resolution_line_order(report: Seq<char>, i: int, res: (u32, u32))
    requires
        0 <= i < lines(report).len(),
        line_resolution(lines(report)[i]) == Some(res),
    ensures
        contains(lines(report)[i], " primary"@) && (forall|j: int|
            0 <= j < i ==> !contains(#[trigger] lines(report)[j], " primary"@) || line_resolution(
                lines(report)[j],
            ) is None) ==> primary_resolution_of(report) == res,
        (forall|j: int|
            0 <= j < lines(report).len() ==> !contains(#[trigger] lines(report)[j], " primary"@)
                || line_resolution(lines(report)[j]) is None) && (forall|j: int|
            0 <= j < i ==> line_resolution(#[trigger] lines(report)[j]) is None)
            ==> primary_resolution_of(report) == res,
{
    let ls = lines(report);
    let fp = line_resolution_in_fn(true);
    let fa = line_resolution_in_fn(false);
    assert(fa(ls[i]) == Some(res));
    if contains(ls[i], " primary"@) && (forall|j: int|
        0 <= j < i ==> !contains(#[trigger] ls[j], " primary"@) || line_resolution(ls[j]) is None) {
        assert(fp(ls[i]) == Some(res));
        assert forall|j: int| 0 <= j < i implies fp(#[trigger] ls[j]) is None by {
            assert(!contains(ls[j], " primary"@) || line_resolution(ls[j]) is None);
        }
        lemma_first_some_at(ls, fp, i);
    }
    if (forall|j: int|
        0 <= j < ls.len() ==> !contains(#[trigger] ls[j], " primary"@) || line_resolution(ls[j])
            is None) && (forall|j: int| 0 <= j < i ==> line_resolution(#[trigger] ls[j]) is None) {
        assert forall|j: int| 0 <= j < ls.len() implies fp(#[trigger] ls[j]) is None by {
            assert(!contains(ls[j], " primary"@) || line_resolution(ls[j]) is None);
        }
        lemma_first_some_found(ls, fp);
        if first_some(ls, fp) is Some {
            let k = choose|k: int|
                0 <= k < ls.len() && fp(#[trigger] ls[k]) == first_some(ls, fp) && forall|j: int|
                    0 <= j < k ==> fp(#[trigger] ls[j]) is None;
            assert(fp(ls[k]) is None);
        }
        assert forall|j: int| 0 <= j < i implies fa(#[trigger] ls[j]) is None by {
            assert(line_resolution(ls[j]) is None);
        }
        lemma_first_some_at(ls, fa, i);
    }
}

/// A report in which no line gives a resolution gives 1920x1080.
pub proof fn law_primary_resolution_default(report: Seq<char>)
    requires
        forall|j: int| 0 <= j < lines(report).len() ==> line_resolution(#[trigger] lines(report)[j]) is None,
    ensures
        primary_resolution_of(report) == (1920u32, 1080u32),
{
    let ls = lines(report);
    let fp = line_resolution_in_fn(true);
    let fa = line_resolution_in_fn(false);
    lemma_first_some_found(ls, fp);
    lemma_first_some_found(ls, fa);
    if first_some(ls, fp) is Some {
        let k = choose|k: int|
            0 <= k < ls.len() && fp(#[trigger] ls[k]) == first_some(ls, fp) && forall|j: int|
                0 <= j < k ==> fp(#[trigger] ls[j]) is None;
        assert(line_resolution(ls[k]) is None);
    }
    if first_some(ls, fa) is Some {
        let k = choose|k: int|
            0 <= k < ls.len() && fa(#[trigger] ls[k]) == first_some(ls, fa) && forall|j: int|
                0 <= j < k ==> fa(#[trigger] ls[j]) is None;
        assert(line_resolution(ls[k]) is None);
    }
}

/// A geometry word `WxH+X+Y` gives its width and height, in that order,
/// whatever follows the first `'+'`.
pub proof fn law_word_resolution(w: u32, h: u32, rest: Seq<char>)
    ensures
        word_resolution(decimal(w as nat) + "x"@ + decimal(h as nat) + "+"@ + rest) == Some((w, h)),
{
    reveal_strlit("x");
    reveal_strlit("+");
    let dw = decimal(w as nat);
    let dh = decimal(h as nat);
    lemma_decimal_digits(w as nat);
    lemma_decimal_digits(h as nat);
    let word = dw + "x"@ + dh + "+"@ + rest;
    let i: int = (dw.len() + 1 + dh.len()) as int;
    assert forall|j: int| 0 <= j < i implies word[j] != '+' by {
        if j < dw.len() {
            assert(word[j] == dw[j]);
            assert(is_digit(dw[j]));
        } else if j > dw.len() {
            assert(word[j] == dh[j - dw.len() - 1]);
            assert(is_digit(dh[j - dw.len() - 1]));
        }
    }
    assert(word[i] == '+');
    assert(is_first_index(word, '+', i));
    lemma_first_index_unique(word, '+', i);
    let res = word.take(i);
    assert(res =~= dw + "x"@ + dh);
    assert forall|j: int| 0 <= j < dw.len() implies res[j] != 'x' by {
        assert(res[j] == dw[j]);
        assert(is_digit(dw[j]));
    }
    assert(res[dw.len() as int] == 'x');
    assert(is_first_index(res, 'x', dw.len() as int));
    lemma_first_index_unique(res, 'x', dw.len() as int);
    assert(res.take(dw.len() as int) =~= dw);
    assert(res.skip((dw.len() + 1) as int) =~= dh);
    assert(is_digit(dw[0]) && is_digit(dh[0]));
}

} // verus!
