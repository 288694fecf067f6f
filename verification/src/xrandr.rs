//! The plan that enables a disconnected X11 output as a virtual display.
//!
//! The caller runs each command that the plan asks for and reports what it
//! observed; the plan decides what comes next: query the outputs, generate
//! a modeline with `cvt`, create the mode, add it to the output, enable the
//! output right of the primary monitor, and remove the mode again when the
//! output cannot be enabled.
use vstd::prelude::*;
use crate::display::{
    arg_views, capture_region_of, disconnected_output_of, find_disconnected_output,
    X11VirtualDisplay,
};
use crate::text::{
    chars_of, decimal, first_some, has_prefix, lemma_first_some_end, lemma_first_some_step,
    lines, push_decimal, split_lines, split_whitespace, starts_with, string_from_chars, to_string,
    views, words,
};

verus! {

/// A command for the caller to run.
#[derive(Debug, Clone)]
pub enum XrandrCommand {
    /// `xrandr` with these arguments.
    Xrandr(Vec<String>),
    /// `cvt` with these arguments.
    Cvt(Vec<String>),
}

/// What the caller observed of a command.
#[derive(Debug, Clone)]
pub enum CommandOutcome {
    /// The command could not be started.
    NotRun,
    /// The command ran: whether it exited successfully, and what it wrote
    /// to its standard output.
    Ran { success: bool, stdout: String },
}

/// Why the setup stopped before it could decide.
#[derive(Debug, Clone, Copy, PartialEq, Eq, Structural)]
pub enum SetupError {
    /// `cvt` could not be started.
    CvtNotRun,
    /// `cvt` printed no modeline.
    NoModeline,
    /// `xrandr --newmode` could not be started.
    NewmodeNotRun,
    /// `xrandr --addmode` could not be started.
    AddmodeNotRun,
    /// `xrandr --output` could not be started.
    EnableNotRun,
}

impl SetupError {
    pub fn message(&self) -> (s: &'static str)
        ensures
            s@ == match *self {
                SetupError::CvtNotRun => "Failed to run cvt"@,
                SetupError::NoModeline => "No Modeline in cvt output"@,
                SetupError::NewmodeNotRun => "Failed to run xrandr --newmode"@,
                SetupError::AddmodeNotRun => "Failed to run xrandr --addmode"@,
                SetupError::EnableNotRun => "Failed to enable xrandr output"@,
            },
    {
        match self {
            SetupError::CvtNotRun => "Failed to run cvt",
            SetupError::NoModeline => "No Modeline in cvt output",
            SetupError::NewmodeNotRun => "Failed to run xrandr --newmode",
            SetupError::AddmodeNotRun => "Failed to run xrandr --addmode",
            SetupError::EnableNotRun => "Failed to enable xrandr output",
        }
    }
}

/// What the plan asks for next.
#[derive(Debug)]
pub enum XrandrStep {
    /// Run this command and report its outcome.
    Run(XrandrCommand),
    /// The plan is over: the output and mode now in use, none (region
    /// capture is to be used), or why it stopped.
    Finished(Result<Option<(String, String)>, SetupError>),
}

/// Where the plan stands.
#[derive(Debug, Clone, Copy, PartialEq, Eq, Structural)]
pub enum SetupStage {
    Querying,
    GeneratingMode,
    CreatingMode,
    AddingMode,
    Enabling,
    CleaningUp,
    Done,
}

pub struct XrandrSetup {
    pub stage: SetupStage,
    pub width: u32,
    pub height: u32,
    pub primary_width: u32,
    pub output: String,
    pub mode: String,
}

pub open spec fn runs_xrandr(step: XrandrStep, args: Seq<Seq<char>>) -> bool {
    step matches XrandrStep::Run(XrandrCommand::Xrandr(a)) && arg_views(a@) == args
}

pub open spec fn runs_cvt(step: XrandrStep, args: Seq<Seq<char>>) -> bool {
    step matches XrandrStep::Run(XrandrCommand::Cvt(a)) && arg_views(a@) == args
}

pub open spec fn finishes(
    step: XrandrStep,
    r: Result<Option<(Seq<char>, Seq<char>)>, SetupError>,
) -> bool {
    step matches XrandrStep::Finished(x) && match x {
        Ok(Some((o, m))) => r == Ok::<Option<(Seq<char>, Seq<char>)>, SetupError>(
            Some((o@, m@)),
        ),
        Ok(None) => r == Ok::<Option<(Seq<char>, Seq<char>)>, SetupError>(None),
        Err(e) => r == Err::<Option<(Seq<char>, Seq<char>)>, SetupError>(e),
    }
}

/// The modeline that `cvt` prints: its first line that starts with
/// `"Modeline"`.
pub open spec fn modeline_verdict(line: Seq<char>) -> Option<Seq<char>> {
    if starts_with(line, "Modeline"@) {
        Some(line)
    } else {
        None
    }
}

pub open spec fn modeline_verdict_fn() -> spec_fn(Seq<char>) -> Option<Seq<char>> {
    |l: Seq<char>| modeline_verdict(l)
}

pub open spec fn modeline_of(report: Seq<char>) -> Option<Seq<char>> {
    first_some(lines(report), modeline_verdict_fn())
}

/// `s` without the quotes that start it.
pub open spec fn trim_quotes_start(s: Seq<char>) -> Seq<char>
    decreases s.len(),
{
    if s.len() > 0 && s[0] == '"' {
        trim_quotes_start(s.drop_first())
    } else {
        s
    }
}

/// `s` without the quotes that end it.
pub open spec fn trim_quotes_end(s: Seq<char>) -> Seq<char>
    decreases s.len(),
{
    if s.len() > 0 && s.last() == '"' {
        trim_quotes_end(s.drop_last())
    } else {
        s
    }
}

/// `str::trim_matches('"')`.
pub open spec fn trim_quotes(s: Seq<char>) -> Seq<char> {
    trim_quotes_end(trim_quotes_start(s))
}

/// The arguments of `xrandr --newmode` for a modeline's words: the mode's
/// name without quotes, then the timings.
pub open spec fn newmode_args(parts: Seq<Seq<char>>) -> Seq<Seq<char>> {
    seq!["--newmode"@, trim_quotes(parts[1])] + parts.skip(2)
}

pub open spec fn enable_args(output: Seq<char>, mode: Seq<char>, primary_width: u32) -> Seq<
    Seq<char>,
> {
    seq![
        "--output"@,
        output,
        "--mode"@,
        mode,
        "--pos"@,
        decimal(primary_width as nat) + "x0"@,
    ]
}

/// The plan's step from `old` on `outcome`, to `new` asking for `step`.
pub open spec fn plan_step(
    old: XrandrSetup,
    outcome: CommandOutcome,
    new: XrandrSetup,
    step: XrandrStep,
) -> bool {
    let kept = new.width == old.width && new.height == old.height && new.primary_width
        == old.primary_width;
    kept && match old.stage {
        SetupStage::Querying => match outcome {
            CommandOutcome::NotRun => new.stage == SetupStage::Done && finishes(step, Ok(None)),
            CommandOutcome::Ran { stdout, .. } => match disconnected_output_of(stdout@) {
                None => new.stage == SetupStage::Done && finishes(step, Ok(None)),
                Some(out) => new.stage == SetupStage::GeneratingMode && new.output@ == out
                    && runs_cvt(
                    step,
                    seq![decimal(old.width as nat), decimal(old.height as nat), "60"@],
                ),
            },
        },
        SetupStage::GeneratingMode => new.output@ == old.output@ && match outcome {
            CommandOutcome::NotRun => new.stage == SetupStage::Done && finishes(
                step,
                Err(SetupError::CvtNotRun),
            ),
            CommandOutcome::Ran { stdout, .. } => match modeline_of(stdout@) {
                None => new.stage == SetupStage::Done && finishes(
                    step,
                    Err(SetupError::NoModeline),
                ),
                Some(line) => if words(line).len() < 3 {
                    new.stage == SetupStage::Done && finishes(step, Ok(None))
                } else {
                    new.stage == SetupStage::CreatingMode && new.mode@ == trim_quotes(
                        words(line)[1],
                    ) && runs_xrandr(step, newmode_args(words(line)))
                },
            },
        },
        SetupStage::CreatingMode => new.output@ == old.output@ && new.mode@ == old.mode@
            && match outcome {
            CommandOutcome::NotRun => new.stage == SetupStage::Done && finishes(
                step,
                Err(SetupError::NewmodeNotRun),
            ),
            CommandOutcome::Ran { .. } => new.stage == SetupStage::AddingMode && runs_xrandr(
                step,
                seq!["--addmode"@, old.output@, old.mode@],
            ),
        },
        SetupStage::AddingMode => new.output@ == old.output@ && new.mode@ == old.mode@
            && match outcome {
            CommandOutcome::NotRun => new.stage == SetupStage::Done && finishes(
                step,
                Err(SetupError::AddmodeNotRun),
            ),
            CommandOutcome::Ran { success, .. } => if success {
                new.stage == SetupStage::Enabling && runs_xrandr(
                    step,
                    enable_args(old.output@, old.mode@, old.primary_width),
                )
            } else {
                new.stage == SetupStage::Done && finishes(step, Ok(None))
            },
        },
        SetupStage::Enabling => new.output@ == old.output@ && new.mode@ == old.mode@
            && match outcome {
            CommandOutcome::NotRun => new.stage == SetupStage::Done && finishes(
                step,
                Err(SetupError::EnableNotRun),
            ),
            CommandOutcome::Ran { success, .. } => if success {
                new.stage == SetupStage::Done && finishes(
                    step,
                    Ok(Some((old.output@, old.mode@))),
                )
            } else {
                new.stage == SetupStage::CleaningUp && runs_xrandr(
                    step,
                    seq!["--delmode"@, old.output@, old.mode@],
                )
            },
        },
        SetupStage::CleaningUp => new.stage == SetupStage::Done && finishes(step, Ok(None)),
        SetupStage::Done => false,
    }
}

fn trim_quotes_chars(s: &[char]) -> (r: Vec<char>)
    ensures
        r@ == trim_quotes(s@),
{
    let n: usize = s.len();
    let mut start: usize = 0;
    assert(s@.subrange(0, n as int) =~= s@);
    while start < n && s[start] == '"'
        invariant
            n == s@.len(),
            start <= n,
            trim_quotes_start(s@) == trim_quotes_start(s@.subrange(start as int, n as int)),
        decreases n - start,
    {
        assert(s@.subrange(start as int, n as int).drop_first() =~= s@.subrange(
            start + 1,
            n as int,
        ));
        start = start + 1;
    }
    let mut end: usize = n;
    while end > start && s[end - 1] == '"'
        invariant
            n == s@.len(),
            start <= end <= n,
            trim_quotes(s@) == trim_quotes_end(s@.subrange(start as int, end as int)),
        decreases end,
    {
        assert(s@.subrange(start as int, end as int).drop_last() =~= s@.subrange(
            start as int,
            end - 1,
        ));
        end = end - 1;
    }
    crate::text::slice_chars(s, start, end)
}

fn find_modeline(report: &str) -> (r: Option<Vec<char>>)
    ensures
        match r {
            Some(l) => modeline_of(report@) == Some(l@),
            None => modeline_of(report@) is None,
        },
{
    let s = chars_of(report);
    let ls = split_lines(s.as_slice());
    let n: usize = ls.len();
    let ghost f = modeline_verdict_fn();
    let prefix = chars_of("Modeline");
    proof {
        lemma_first_some_end(lines(s@), f);
    }
    for i in 0..n
        invariant
            n == ls@.len(),
            views(ls@) == lines(s@),
            s@ == report@,
            prefix@ == "Modeline"@,
            f == modeline_verdict_fn(),
            first_some(lines(s@), f) == first_some(lines(s@).skip(i as int), f),
    {
        assert(views(ls@)[i as int] == ls@[i as int]@);
        proof {
            lemma_first_some_step(lines(s@), f, i as int);
            assert(f(lines(s@)[i as int]) == modeline_verdict(lines(s@)[i as int]));
        }
        if has_prefix(ls[i].as_slice(), prefix.as_slice()) {
            return Some(ls[i].clone());
        }
    }
    proof {
        lemma_first_some_end(lines(s@), f);
    }
    None
}

fn strings_of(parts: &Vec<Vec<char>>, from: usize) -> (v: Vec<String>)
    requires
        from <= parts@.len(),
    ensures
        arg_views(v@) == views(parts@).skip(from as int),
{
    let mut v: Vec<String> = Vec::new();
    let n: usize = parts.len();
    for i in from..n
        invariant
            n == parts@.len(),
            from <= n,
            arg_views(v@) == views(parts@).subrange(from as int, i as int),
    {
        let ghost before = v@;
        let s = string_from_chars(parts[i].as_slice());
        v.push(s);
        assert(v@ =~= before.push(s));
        assert(views(parts@)[i as int] == parts@[i as int]@);
        assert(arg_views(v@) =~= arg_views(before).push(s@));
        assert(arg_views(v@) =~= views(parts@).subrange(from as int, i + 1));
    }
    assert(views(parts@).subrange(from as int, n as int) =~= views(parts@).skip(from as int));
    v
}

impl XrandrSetup {
    /// A plan for a display of the given size right of a primary monitor
    /// of the given width; its first step is `xrandr --query`.
    pub fn start(width: u32, height: u32, primary_width: u32) -> (r: (XrandrSetup, XrandrStep))
        ensures
            r.0.stage == SetupStage::Querying,
            r.0.width == width,
            r.0.height == height,
            r.0.primary_width == primary_width,
            runs_xrandr(r.1, seq!["--query"@]),
    {
        let mut args: Vec<String> = Vec::new();
        args.push(to_string("--query"));
        assert(arg_views(args@) =~= seq!["--query"@]);
        (
            XrandrSetup {
                stage: SetupStage::Querying,
                width,
                height,
                primary_width,
                output: String::new(),
                mode: String::new(),
            },
            XrandrStep::Run(XrandrCommand::Xrandr(args)),
        )
    }

    /// The next step, given the outcome of the command last asked for.
    pub fn advance(&mut self, outcome: CommandOutcome) -> (step: XrandrStep)
        requires
            old(self).stage != SetupStage::Done,
        ensures
            plan_step(*old(self), outcome, *final(self), step),
    {
        let ghost o = outcome;
        match self.stage {
            SetupStage::Querying => {
                match outcome {
                    CommandOutcome::NotRun => {
                        self.stage = SetupStage::Done;
                        XrandrStep::Finished(Ok(None))
                    },
                    CommandOutcome::Ran { stdout, .. } => {
                        match find_disconnected_output(stdout.as_str()) {
                            None => {
                                self.stage = SetupStage::Done;
                                XrandrStep::Finished(Ok(None))
                            },
                            Some(out) => {
                                self.output = out;
                                self.stage = SetupStage::GeneratingMode;
                                let mut w: Vec<char> = Vec::new();
                                push_decimal(&mut w, self.width);
                                let mut h: Vec<char> = Vec::new();
                                push_decimal(&mut h, self.height);
                                assert(w@ =~= decimal(self.width as nat));
                                assert(h@ =~= decimal(self.height as nat));
                                let mut args: Vec<String> = Vec::new();
                                args.push(string_from_chars(w.as_slice()));
                                args.push(string_from_chars(h.as_slice()));
                                args.push(to_string("60"));
                                assert(arg_views(args@) =~= seq![
                                    decimal(self.width as nat),
                                    decimal(self.height as nat),
                                    "60"@,
                                ]);
                                XrandrStep::Run(XrandrCommand::Cvt(args))
                            },
                        }
                    },
                }
            },
            SetupStage::GeneratingMode => {
                match outcome {
                    CommandOutcome::NotRun => {
                        self.stage = SetupStage::Done;
                        XrandrStep::Finished(Err(SetupError::CvtNotRun))
                    },
                    CommandOutcome::Ran { stdout, .. } => {
                        match find_modeline(stdout.as_str()) {
                            None => {
                                self.stage = SetupStage::Done;
                                XrandrStep::Finished(Err(SetupError::NoModeline))
                            },
                            Some(line) => {
                                let parts = split_whitespace(line.as_slice());
                                if parts.len() < 3 {
                                    self.stage = SetupStage::Done;
                                    XrandrStep::Finished(Ok(None))
                                } else {
                                    assert(views(parts@)[1] == parts@[1]@);
                                    let mode = trim_quotes_chars(parts[1].as_slice());
                                    let mut args: Vec<String> = Vec::new();
                                    args.push(to_string("--newmode"));
                                    args.push(string_from_chars(mode.as_slice()));
                                    let rest = strings_of(&parts, 2);
                                    let ghost head = args@;
                                    let ghost tail = rest@;
                                    let mut rest = rest;
                                    args.append(&mut rest);
                                    assert(args@ =~= head + tail);
                                    assert(arg_views(args@) =~= arg_views(head) + arg_views(
                                        tail,
                                    ));
                                    assert(arg_views(head) =~= seq![
                                        "--newmode"@,
                                        trim_quotes(words(line@)[1]),
                                    ]);
                                    self.mode = string_from_chars(mode.as_slice());
                                    self.stage = SetupStage::CreatingMode;
                                    XrandrStep::Run(XrandrCommand::Xrandr(args))
                                }
                            },
                        }
                    },
                }
            },
            SetupStage::CreatingMode => {
                match outcome {
                    CommandOutcome::NotRun => {
                        self.stage = SetupStage::Done;
                        XrandrStep::Finished(Err(SetupError::NewmodeNotRun))
                    },
                    CommandOutcome::Ran { .. } => {
                        self.stage = SetupStage::AddingMode;
                        let mut args: Vec<String> = Vec::new();
                        args.push(to_string("--addmode"));
                        args.push(self.output.clone());
                        args.push(self.mode.clone());
                        assert(arg_views(args@) =~= seq!["--addmode"@, self.output@, self.mode@]);
                        XrandrStep::Run(XrandrCommand::Xrandr(args))
                    },
                }
            },
            SetupStage::AddingMode => {
                match outcome {
                    CommandOutcome::NotRun => {
                        self.stage = SetupStage::Done;
                        XrandrStep::Finished(Err(SetupError::AddmodeNotRun))
                    },
                    CommandOutcome::Ran { success, .. } => {
                        if success {
                            self.stage = SetupStage::Enabling;
                            let mut pos: Vec<char> = Vec::new();
                            push_decimal(&mut pos, self.primary_width);
                            pos.push('x');
                            pos.push('0');
                            proof {
                                reveal_strlit("x0");
                            }
                            assert(pos@ =~= decimal(self.primary_width as nat) + "x0"@);
                            let mut args: Vec<String> = Vec::new();
                            args.push(to_string("--output"));
                            args.push(self.output.clone());
                            args.push(to_string("--mode"));
                            args.push(self.mode.clone());
                            args.push(to_string("--pos"));
                            args.push(string_from_chars(pos.as_slice()));
                            assert(arg_views(args@) =~= enable_args(
                                self.output@,
                                self.mode@,
                                self.primary_width,
                            ));
                            XrandrStep::Run(XrandrCommand::Xrandr(args))
                        } else {
                            self.stage = SetupStage::Done;
                            XrandrStep::Finished(Ok(None))
                        }
                    },
                }
            },
            SetupStage::Enabling => {
                match outcome {
                    CommandOutcome::NotRun => {
                        self.stage = SetupStage::Done;
                        XrandrStep::Finished(Err(SetupError::EnableNotRun))
                    },
                    CommandOutcome::Ran { success, .. } => {
                        if success {
                            self.stage = SetupStage::Done;
                            XrandrStep::Finished(Ok(Some((self.output.clone(), self.mode.clone()))))
                        } else {
                            self.stage = SetupStage::CleaningUp;
                            let mut args: Vec<String> = Vec::new();
                            args.push(to_string("--delmode"));
                            args.push(self.output.clone());
                            args.push(self.mode.clone());
                            assert(arg_views(args@) =~= seq![
                                "--delmode"@,
                                self.output@,
                                self.mode@,
                            ]);
                            XrandrStep::Run(XrandrCommand::Xrandr(args))
                        }
                    },
                }
            },
            SetupStage::CleaningUp => {
                self.stage = SetupStage::Done;
                XrandrStep::Finished(Ok(None))
            },
            SetupStage::Done => XrandrStep::Finished(Ok(None)),
        }
    }
}

/// How far the plan has come.
pub open spec fn stage_rank(s: SetupStage) -> nat {
    match s {
        SetupStage::Querying => 0,
        SetupStage::GeneratingMode => 1,
        SetupStage::CreatingMode => 2,
        SetupStage::AddingMode => 3,
        SetupStage::Enabling => 4,
        SetupStage::CleaningUp => 5,
        SetupStage::Done => 6,
    }
}

/// Every step moves the plan forward, so it ends after at most six
/// commands; it asks for a command exactly when it is not over; and an
/// output that could not be enabled has its mode removed before the plan
/// ends.
pub proof fn law_plan_progresses(
    old: XrandrSetup,
    outcome: CommandOutcome,
    new: XrandrSetup,
    step: XrandrStep,
)
    requires
        plan_step(old, outcome, new, step),
    ensures
        stage_rank(new.stage) > stage_rank(old.stage),
        new.stage == SetupStage::Done <==> step is Finished,
        old.stage == SetupStage::Enabling && (outcome matches CommandOutcome::Ran { success, .. }
            && !success) ==> runs_xrandr(step, seq!["--delmode"@, old.output@, old.mode@]),
{
}

/// The virtual display sits right of the primary monitor: the region that
/// an X11 display captures has the requested size and starts on the top
/// row at the primary's right edge, which is where the plan places the
/// output that it enables.
pub proof fn law_capture_at_output_position(
    d: X11VirtualDisplay,
    output: Seq<char>,
    mode: Seq<char>,
)
    ensures
        capture_region_of(d).0 == d.primary_width,
        capture_region_of(d).1 == 0,
        capture_region_of(d).2 == d.virtual_width,
        capture_region_of(d).3 == d.virtual_height,
        enable_args(output, mode, d.primary_width)[4] == "--pos"@,
        enable_args(output, mode, d.primary_width)[5] == decimal(capture_region_of(d).0 as nat)
            + "x0"@,
{
}

} // verus!
