//! Bringing a relational store at a path into service, step by step.
//!
//! The caller performs each step and says what it found; `next_step` says
//! what comes next. A step that fails ends the setup at the caller, with the
//! failure.

use vstd::prelude::*;
use vstd::string::*;

verus! {

/// The scheme of the address under which a store at a path is opened.
pub const SCHEME: &'static str = "sqlite:";

/// One step of the setup.
#[derive(Clone, Copy, Debug, PartialEq, Eq, Structural)]
pub enum Step {
    /// See whether a file exists at the path.
    ProbeFile,
    /// Create an empty file at the path.
    CreateFile,
    /// Open the store.
    Connect,
    /// See whether the table of pins exists.
    ProbePins,
    /// See whether the table of ratings exists; `pins` is what was found of
    /// the table of pins.
    ProbeRates { pins: bool },
    /// Create the table of pins.
    CreatePins,
    /// Create the table of ratings.
    CreateRates,
    /// The store is in service.
    Ready,
}

/// What performing a step found.
#[derive(Clone, Copy, Debug, PartialEq, Eq, Structural)]
pub enum Found {
    /// What a probe looked for is there.
    Present,
    /// What a probe looked for is not there.
    Absent,
    /// The step, no probe, was carried out.
    Done,
}

/// The step that follows `step` when performing it found `found`; `None`
/// where `found` is no answer to `step`, and after `Ready`.
///
/// A file is created only where none is. The tables are created only where
/// one of the two is missing, and then both, the pins' first.
pub open spec fn following(step: Step, found: Found) -> Option<Step> {
    match (step, found) {
        (Step::ProbeFile, Found::Present) => Some(Step::Connect),
        (Step::ProbeFile, Found::Absent) => Some(Step::CreateFile),
        (Step::CreateFile, Found::Done) => Some(Step::Connect),
        (Step::Connect, Found::Done) => Some(Step::ProbePins),
        (Step::ProbePins, Found::Present) => Some(Step::ProbeRates { pins: true }),
        (Step::ProbePins, Found::Absent) => Some(Step::ProbeRates { pins: false }),
        (Step::ProbeRates { pins: true }, Found::Present) => Some(Step::Ready),
        (Step::ProbeRates { pins: false }, Found::Present) => Some(Step::CreatePins),
        (Step::ProbeRates { pins: _ }, Found::Absent) => Some(Step::CreatePins),
        (Step::CreatePins, Found::Done) => Some(Step::CreateRates),
        (Step::CreateRates, Found::Done) => Some(Step::Ready),
        _ => None,
    }
}

/// What a probe finds of something that is there or not.
pub open spec fn probed(there: bool) -> Found {
    if there {
        Found::Present
    } else {
        Found::Absent
    }
}

/// What performing `step` finds where the file and the two tables are there
/// or not as given, and nothing fails.
pub open spec fn finding(step: Step, file: bool, pins: bool, rates: bool) -> Found {
    match step {
        Step::ProbeFile => probed(file),
        Step::ProbePins => probed(pins),
        Step::ProbeRates { pins: _ } => probed(rates),
        _ => Found::Done,
    }
}

/// The steps of a setup where the file and the two tables are there or not
/// as given.
pub open spec fn plan(file: bool, pins: bool, rates: bool) -> Seq<Step> {
    let open = if file {
        seq![Step::ProbeFile]
    } else {
        seq![Step::ProbeFile, Step::CreateFile]
    };
    let probe = seq![Step::Connect, Step::ProbePins, Step::ProbeRates { pins }];
    let create = if pins && rates {
        Seq::<Step>::empty()
    } else {
        seq![Step::CreatePins, Step::CreateRates]
    };
    open + probe + create + seq![Step::Ready]
}

/// What a probe says of something that is there or not.
pub fn found(there: bool) -> (r: Found)
    ensures
        r == probed(there),
{
    if there {
        Found::Present
    } else {
        Found::Absent
    }
}

/// The step with which a setup starts.
pub fn first_step() -> (r: Step)
    ensures
        r == Step::ProbeFile,
{
    Step::ProbeFile
}

/// The step that follows `step` when performing it found `found`.
pub fn next_step(step: Step, found: Found) -> (r: Option<Step>)
    ensures
        r == following(step, found),
{
    match step {
        Step::ProbeFile => match found {
            Found::Present => Some(Step::Connect),
            Found::Absent => Some(Step::CreateFile),
            Found::Done => None,
        },
        Step::ProbePins => match found {
            Found::Present => Some(Step::ProbeRates { pins: true }),
            Found::Absent => Some(Step::ProbeRates { pins: false }),
            Found::Done => None,
        },
        Step::ProbeRates { pins } => match found {
            Found::Present => if pins {
                Some(Step::Ready)
            } else {
                Some(Step::CreatePins)
            },
            Found::Absent => Some(Step::CreatePins),
            Found::Done => None,
        },
        Step::Ready => None,
        _ => match found {
            Found::Done => match step {
                Step::CreateFile => Some(Step::Connect),
                Step::Connect => Some(Step::ProbePins),
                Step::CreatePins => Some(Step::CreateRates),
                _ => Some(Step::Ready),
            },
            _ => None,
        },
    }
}

/// The address under which the store at `path` is opened.
pub fn connection_url(path: &str) -> (r: String)
    ensures
        r@ == SCHEME@ + path@,
{
    let mut url = String::from_str(SCHEME);
    url.append(path);
    url
}

/// A setup walks its plan: it starts at the plan's first step, each step is
/// followed by the plan's next, and the last is `Ready`. So a file is created
/// exactly where none was, both tables are created, the pins' first, exactly
/// where one was missing, and a second setup of the same store creates nothing.
pub proof fn law_setup_walks_plan(file: bool, pins: bool, rates: bool)
    ensures
        plan(file, pins, rates).first() == Step::ProbeFile,
        plan(file, pins, rates).last() == Step::Ready,
        forall|i: int|
            0 <= i < plan(file, pins, rates).len() - 1 ==> following(
                #[trigger] plan(file, pins, rates)[i],
                finding(plan(file, pins, rates)[i], file, pins, rates),
            ) == Some(plan(file, pins, rates)[i + 1]),
        plan(file, pins, rates).contains(Step::CreateFile) <==> !file,
        plan(file, pins, rates).contains(Step::CreatePins) <==> !(pins && rates),
        plan(file, pins, rates).contains(Step::CreateRates) <==> !(pins && rates),
        plan(true, true, true) == seq![
            Step::ProbeFile,
            Step::Connect,
            Step::ProbePins,
            Step::ProbeRates { pins: true },
            Step::Ready,
        ],
{
    let p = plan(file, pins, rates);
    let n = p.len() as int;
    assert(plan(true, true, true) =~= seq![
        Step::ProbeFile,
        Step::Connect,
        Step::ProbePins,
        Step::ProbeRates { pins: true },
        Step::Ready,
    ]);
    if file {
        if pins && rates {
            assert(p =~= seq![
                Step::ProbeFile,
                Step::Connect,
                Step::ProbePins,
                Step::ProbeRates { pins },
                Step::Ready,
            ]);
        } else {
            assert(p =~= seq![
                Step::ProbeFile,
                Step::Connect,
                Step::ProbePins,
                Step::ProbeRates { pins },
                Step::CreatePins,
                Step::CreateRates,
                Step::Ready,
            ]);
            assert(p[4] == Step::CreatePins && p[5] == Step::CreateRates);
        }
    } else {
        assert(p[1] == Step::CreateFile);
        if pins && rates {
            assert(p =~= seq![
                Step::ProbeFile,
                Step::CreateFile,
                Step::Connect,
                Step::ProbePins,
                Step::ProbeRates { pins },
                Step::Ready,
            ]);
        } else {
            assert(p =~= seq![
                Step::ProbeFile,
                Step::CreateFile,
                Step::Connect,
                Step::ProbePins,
                Step::ProbeRates { pins },
                Step::CreatePins,
                Step::CreateRates,
                Step::Ready,
            ]);
            assert(p[5] == Step::CreatePins && p[6] == Step::CreateRates);
        }
    }
}

} // verus!
