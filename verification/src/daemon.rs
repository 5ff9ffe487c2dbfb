//! Decisions of the daemon's main loop: timing of polls and ticks, when to
//! stop, how engine actions become work on the virtual mouse, and which
//! mouse to use.

use vstd::prelude::*;

use crate::event_router::{description, dry_run_describe};
use crate::model::CoreAction;
use crate::text::{
    decimal_text, lemma_decimal_text_parses, lemma_digits_trim, parse_unsigned, parsed_unsigned,
    push_decimal, trim, trim_str,
};

verus! {

/// Milliseconds to wait in `poll` until the next tick is due: the remaining
/// time rounded up to a whole millisecond, saturated at the poll limit.
pub open spec fn poll_timeout(until_next_tick_micros: int) -> int {
    let ms = (until_next_tick_micros + 999) / 1000;
    if ms > u16::MAX {
        u16::MAX as int
    } else {
        ms
    }
}

pub fn poll_timeout_millis(until_next_tick_micros: u128) -> (ms: u16)
    ensures
        ms == poll_timeout(until_next_tick_micros as int),
{
    let q = until_next_tick_micros / 1000;
    let ms = if until_next_tick_micros % 1000 == 0 { q } else { q + 1 };
    if ms > u16::MAX as u128 {
        u16::MAX
    } else {
        ms as u16
    }
}

/// The tick period in microseconds for a tick rate.
pub fn tick_period_micros(tick_hz: u32) -> (p: u64)
    requires
        tick_hz > 0,
    ensures
        p == 1_000_000int / (tick_hz as int),
{
    1_000_000u64 / (tick_hz as u64)
}

/// The time left until the next tick, in whole microseconds (rounded
/// down): the period minus the time since the last tick, measured in
/// nanoseconds, never below zero.
pub fn until_next_tick(period_micros: u64, since_last_tick_nanos: u128) -> (r: u128)
    ensures
        r == (if since_last_tick_nanos >= period_micros * 1000 {
            0
        } else {
            (period_micros * 1000 - since_last_tick_nanos) / 1000
        }),
{
    let p = period_micros as u128 * 1000;
    if since_last_tick_nanos >= p {
        0
    } else {
        (p - since_last_tick_nanos) / 1000
    }
}

/// A tick is due once a full period has passed since the last one.
pub fn tick_due(period_micros: u64, since_last_tick_micros: u128) -> (b: bool)
    ensures
        b == (since_last_tick_micros >= period_micros),
{
    since_last_tick_micros >= period_micros as u128
}

/// The elapsed time handed to the engine with a tick, saturated to 64 bits.
pub fn tick_dt_micros(elapsed_micros: u128) -> (dt: u64)
    ensures
        dt == (if elapsed_micros > u64::MAX {
            u64::MAX as int
        } else {
            elapsed_micros as int
        }),
{
    if elapsed_micros > u64::MAX as u128 {
        u64::MAX
    } else {
        elapsed_micros as u64
    }
}

/// Why the main loop stops.
#[derive(Debug, Clone, Copy, PartialEq, Eq, Structural)]
pub enum StopReason {
    ShutdownRequested,
    SafetyTimeout,
}

/// Whether the loop stops before its next round: a shutdown request first,
/// then the safety timeout once that many seconds have passed.
pub fn should_stop(
    shutdown_requested: bool,
    safety_timeout_seconds: Option<u64>,
    elapsed_micros: u128,
) -> (r: Option<StopReason>)
    ensures
        shutdown_requested ==> r == Some(StopReason::ShutdownRequested),
        !shutdown_requested ==> r == (match safety_timeout_seconds {
            Some(s) => if elapsed_micros >= s * 1_000_000 {
                Some(StopReason::SafetyTimeout)
            } else {
                None
            },
            None => None,
        }),
{
    if shutdown_requested {
        return Some(StopReason::ShutdownRequested);
    }
    match safety_timeout_seconds {
        Some(s) => {
            if elapsed_micros >= (s as u128) * 1_000_000 {
                Some(StopReason::SafetyTimeout)
            } else {
                None
            }
        },
        None => None,
    }
}

/// Takes the pending batch out of `batch`, leaving it empty; the batch is
/// returned for the virtual mouse unless it is empty or this is a dry run.
pub fn flush_batch(batch: &mut Vec<CoreAction>, dry_run: bool) -> (r: Option<Vec<CoreAction>>)
    ensures
        final(batch)@.len() == 0,
        r is Some <==> (old(batch)@.len() > 0 && !dry_run),
        r matches Some(b) ==> b@ == old(batch)@,
{
    let mut taken: Vec<CoreAction> = Vec::new();
    std::mem::swap(batch, &mut taken);
    if taken.len() == 0 || dry_run {
        None
    } else {
        Some(taken)
    }
}

/// A piece of work on the virtual mouse or the indicator.
#[derive(Debug, Clone, PartialEq, Eq)]
pub enum EmitStep {
    EnterScroll,
    ExitScroll,
    /// Emit these actions on the virtual mouse as one batch.
    ApplyBatch(Vec<CoreAction>),
    EmitMiddleClick,
    /// In a dry run: log this description instead of acting.
    DryRunLog(String),
}

/// An [`EmitStep`] with its contents as mathematical values.
pub enum StepView {
    EnterScroll,
    ExitScroll,
    ApplyBatch(Seq<CoreAction>),
    EmitMiddleClick,
    DryRunLog(Seq<char>),
}

impl View for EmitStep {
    type V = StepView;

    open spec fn view(&self) -> StepView {
        match self {
            EmitStep::EnterScroll => StepView::EnterScroll,
            EmitStep::ExitScroll => StepView::ExitScroll,
            EmitStep::ApplyBatch(b) => StepView::ApplyBatch(b@),
            EmitStep::EmitMiddleClick => StepView::EmitMiddleClick,
            EmitStep::DryRunLog(s) => StepView::DryRunLog(s@),
        }
    }
}

/// The steps that flush a batch: none when it is empty or in a dry run.
pub open spec fn flush_steps(batch: Seq<CoreAction>, dry_run: bool) -> Seq<StepView> {
    if batch.len() == 0 || dry_run {
        Seq::empty()
    } else {
        seq![StepView::ApplyBatch(batch)]
    }
}

/// The work for `actions`, given the batch collected so far: scroll-mode
/// changes go to the indicator; a middle click first flushes the batch;
/// suppressions are dropped; other actions are batched, or in a dry run
/// logged by their description; whatever is still batched is flushed at
/// the end.
pub open spec fn emission(actions: Seq<CoreAction>, dry_run: bool, batch: Seq<CoreAction>) -> Seq<StepView>
    decreases actions.len(),
{
    if actions.len() == 0 {
        flush_steps(batch, dry_run)
    } else {
        let a = actions[0];
        let rest = actions.subrange(1, actions.len() as int);
        match a {
            CoreAction::EnterScrollMode => seq![StepView::EnterScroll] + emission(rest, dry_run, batch),
            CoreAction::ExitScrollMode => seq![StepView::ExitScroll] + emission(rest, dry_run, batch),
            CoreAction::EmitMiddleClick => flush_steps(batch, dry_run) + seq![
                if dry_run {
                    StepView::DryRunLog("EmitMiddleClick"@)
                } else {
                    StepView::EmitMiddleClick
                },
            ] + emission(rest, dry_run, Seq::empty()),
            CoreAction::Suppress => emission(rest, dry_run, batch),
            _ => if dry_run {
                (match description(a) {
                    Some(t) => seq![StepView::DryRunLog(t)],
                    None => Seq::empty(),
                }) + emission(rest, dry_run, batch)
            } else {
                emission(rest, dry_run, batch.push(a))
            },
        }
    }
}

pub open spec fn views(steps: Seq<EmitStep>) -> Seq<StepView> {
    steps.map_values(|s: EmitStep| s@)
}

proof fn lemma_views_push(steps: Seq<EmitStep>, s: EmitStep)
    ensures
        views(steps.push(s)) == views(steps).push(s@),
{
    assert(views(steps.push(s)) =~= views(steps).push(s@));
}

fn push_step(out: &mut Vec<EmitStep>, s: EmitStep)
    ensures
        views(final(out)@) == views(old(out)@).push(s@),
{
    let ghost before = out@;
    out.push(s);
    proof {
        lemma_views_push(before, s);
    }
}

fn flush_into(out: &mut Vec<EmitStep>, batch: &mut Vec<CoreAction>, dry_run: bool)
    ensures
        views(final(out)@) == views(old(out)@) + flush_steps(old(batch)@, dry_run),
        final(batch)@.len() == 0,
{
    let ghost b = batch@;
    match flush_batch(batch, dry_run) {
        Some(taken) => {
            push_step(out, EmitStep::ApplyBatch(taken));
            assert(views(out@) =~= views(old(out)@) + flush_steps(b, dry_run));
        },
        None => {
            assert(views(out@) =~= views(old(out)@) + flush_steps(b, dry_run));
        },
    }
}

/// The work on the virtual mouse and the indicator for a list of engine
/// actions.
pub fn plan_emission(actions: &Vec<CoreAction>, dry_run: bool) -> (steps: Vec<EmitStep>)
    ensures
        views(steps@) == emission(actions@, dry_run, Seq::empty()),
{
    let mut out: Vec<EmitStep> = Vec::new();
    let mut batch: Vec<CoreAction> = Vec::new();
    let mut i: usize = 0;
    proof {
        assert(actions@.subrange(0, actions@.len() as int) =~= actions@);
        assert(views(out@) =~= Seq::<StepView>::empty());
    }
    while i < actions.len()
        invariant
            i <= actions@.len(),
            views(out@) + emission(
                actions@.subrange(i as int, actions@.len() as int),
                dry_run,
                batch@,
            ) == emission(actions@, dry_run, Seq::empty()),
        decreases actions@.len() - i,
    {
        let ghost rest = actions@.subrange(i as int, actions@.len() as int);
        let ghost tail = actions@.subrange(i + 1, actions@.len() as int);
        let ghost prev = views(out@);
        let ghost b = batch@;
        proof {
            assert(rest[0] == actions@[i as int]);
            assert(rest.subrange(1, rest.len() as int) =~= tail);
        }
        let a = actions[i];
        match a {
            CoreAction::EnterScrollMode => {
                push_step(&mut out, EmitStep::EnterScroll);
                assert(views(out@) + emission(tail, dry_run, batch@) =~= prev + emission(
                    rest,
                    dry_run,
                    b,
                ));
            },
            CoreAction::ExitScrollMode => {
                push_step(&mut out, EmitStep::ExitScroll);
                assert(views(out@) + emission(tail, dry_run, batch@) =~= prev + emission(
                    rest,
                    dry_run,
                    b,
                ));
            },
            CoreAction::EmitMiddleClick => {
                flush_into(&mut out, &mut batch, dry_run);
                if dry_run {
                    push_step(&mut out, EmitStep::DryRunLog(String::from_str("EmitMiddleClick")));
                } else {
                    push_step(&mut out, EmitStep::EmitMiddleClick);
                }
                assert(batch@ =~= Seq::<CoreAction>::empty());
                assert(views(out@) + emission(tail, dry_run, batch@) =~= prev + emission(
                    rest,
                    dry_run,
                    b,
                ));
            },
            CoreAction::Suppress => {
            },
            _ => {
                if dry_run {
                    match dry_run_describe(&a) {
                        Some(t) => {
                            push_step(&mut out, EmitStep::DryRunLog(t));
                        },
                        None => {
                        },
                    }
                    assert(views(out@) + emission(tail, dry_run, batch@) =~= prev + emission(
                        rest,
                        dry_run,
                        b,
                    ));
                } else {
                    batch.push(a);
                }
            },
        }
        i += 1;
    }
    proof {
        assert(actions@.subrange(i as int, actions@.len() as int) =~= Seq::<CoreAction>::empty());
    }
    flush_into(&mut out, &mut batch, dry_run);
    out
}

/// How the mouse to use is chosen when none is configured.
#[derive(Debug, Clone, Copy, PartialEq, Eq, Structural)]
pub enum DeviceChoice {
    /// The mouse at this index of the candidate list.
    Candidate(usize),
    /// Ask the user to pick among the candidates.
    Prompt,
}

/// Why no mouse could be chosen.
#[derive(Debug, Clone, Copy, PartialEq, Eq, Structural)]
pub enum SelectionError {
    /// Prompts are disabled and no device is configured.
    NoDevice,
    /// No mouse-like device was found.
    NoMiceFound,
    /// Several mice were found but standard input is not a terminal.
    NonInteractiveDeviceChoice,
}

/// The choice among `candidates` mice: refuse when prompts are disabled or
/// no mouse exists, take the only one, otherwise prompt on a terminal.
pub fn select_device(no_interactive: bool, candidates: usize, stdin_is_terminal: bool) -> (r: Result<
    DeviceChoice,
    SelectionError,
>)
    ensures
        r == (if no_interactive {
            Err(SelectionError::NoDevice)
        } else if candidates == 0 {
            Err(SelectionError::NoMiceFound)
        } else if candidates == 1 {
            Ok(DeviceChoice::Candidate(0))
        } else if !stdin_is_terminal {
            Err(SelectionError::NonInteractiveDeviceChoice)
        } else {
            Ok(DeviceChoice::Prompt)
        }),
{
    if no_interactive {
        return Err(SelectionError::NoDevice);
    }
    match candidates {
        0 => Err(SelectionError::NoMiceFound),
        1 => Ok(DeviceChoice::Candidate(0)),
        _ => if !stdin_is_terminal {
            Err(SelectionError::NonInteractiveDeviceChoice)
        } else {
            Ok(DeviceChoice::Prompt)
        },
    }
}

/// The index chosen by a typed answer: a number from 1 to `candidates`
/// (surrounding whitespace allowed), counted from one.
pub open spec fn selection_of(line: Seq<char>, candidates: int) -> Option<int> {
    match parsed_unsigned(trim(line), usize::MAX as int) {
        Some(n) => if 1 <= n <= candidates {
            Some(n - 1)
        } else {
            None
        },
        None => None,
    }
}

pub fn parse_selection(line: &str, candidates: usize) -> (r: Option<usize>)
    ensures
        match r {
            Some(i) => selection_of(line@, candidates as int) == Some(i as int),
            None => selection_of(line@, candidates as int) is None,
        },
{
    match parse_unsigned(trim_str(line), usize::MAX as u64) {
        Some(n) => {
            if 1 <= n && n <= candidates as u64 {
                Some((n - 1) as usize)
            } else {
                None
            }
        },
        None => None,
    }
}


/// Every listed mouse can be chosen: typing the number shown beside the
/// `n`-th of `candidates` mice (alone, or followed by the newline a terminal
/// sends) picks index `n - 1`, for each `n` from 1 to `candidates`; the
/// number 0 and numbers past the last mouse are refused.
pub proof fn lemma_every_listed_number_selects(n: nat, candidates: nat)
    requires
        candidates <= usize::MAX,
    ensures
        1 <= n <= candidates ==> selection_of(decimal_text(n), candidates as int) == Some(n - 1),
        1 <= n <= candidates ==> selection_of(decimal_text(n) + seq!['\n'], candidates as int)
            == Some(n - 1),
        n == 0 || n > candidates ==> selection_of(decimal_text(n), candidates as int) is None,
{
    lemma_decimal_text_parses(n, usize::MAX as int);
    lemma_digits_trim(decimal_text(n));
}


/// What the daemon does at startup once the configuration is resolved.
#[derive(Debug, Clone, Copy, PartialEq, Eq, Structural)]
pub enum DevicePlan {
    /// Choose a mouse, save it to the config file, and exit (`--setup`).
    SelectSaveAndExit,
    /// No device is configured: choose one, save it, then run with it.
    SelectSaveAndRun,
    /// Run with the configured device.
    UseConfigured,
}

pub fn device_plan(setup: bool, device_configured: bool) -> (p: DevicePlan)
    ensures
        p == (if setup {
            DevicePlan::SelectSaveAndExit
        } else if !device_configured {
            DevicePlan::SelectSaveAndRun
        } else {
            DevicePlan::UseConfigured
        }),
{
    if setup {
        DevicePlan::SelectSaveAndExit
    } else if !device_configured {
        DevicePlan::SelectSaveAndRun
    } else {
        DevicePlan::UseConfigured
    }
}

/// Whether the physical mouse is grabbed exclusively.
#[derive(Debug, Clone, Copy, PartialEq, Eq, Structural)]
pub enum GrabPlan {
    Grab,
    /// A dry run never grabs, so the mouse is not silently captured.
    SkipForDryRun,
    /// Grabbing is disabled: the compositor sees both devices.
    NoGrab,
}

pub fn grab_plan(grab: bool, dry_run: bool) -> (p: GrabPlan)
    ensures
        p == (if grab && !dry_run {
            GrabPlan::Grab
        } else if grab {
            GrabPlan::SkipForDryRun
        } else {
            GrabPlan::NoGrab
        }),
{
    if grab && !dry_run {
        GrabPlan::Grab
    } else if grab {
        GrabPlan::SkipForDryRun
    } else {
        GrabPlan::NoGrab
    }
}

/// The owner to give a saved config file: the `sudo` invoker's, but only
/// when the file is the default one (no `--config`).
pub fn save_owner(explicit_config: bool, sudo_owner: Option<(u32, u32)>) -> (r: Option<(u32, u32)>)
    ensures
        r == (if explicit_config {
            None
        } else {
            sudo_owner
        }),
{
    if explicit_config {
        None
    } else {
        sudo_owner
    }
}

/// The config directory is handed to the owner only when this save
/// created it.
pub fn chown_parent(owner: Option<(u32, u32)>, parent_existed: bool) -> (b: bool)
    ensures
        b == (owner is Some && !parent_existed),
{
    owner.is_some() && !parent_existed
}

/// The temporary file a config is first written to, next to it:
/// `.{file_name}.{nonce}.tmp`.
pub open spec fn temp_name(file_name: Seq<char>, nonce: nat) -> Seq<char> {
    "."@ + file_name + "."@ + decimal_text(nonce) + ".tmp"@
}

pub fn temp_file_name(file_name: &str, nonce: u128) -> (r: String)
    ensures
        r@ == temp_name(file_name@, nonce as nat),
{
    let mut s = String::from_str(".");
    s.append(file_name);
    s.append(".");
    push_decimal(&mut s, nonce);
    s.append(".tmp");
    s
}

/// The step writes to the virtual mouse.
pub open spec fn touches_device(s: StepView) -> bool {
    s is ApplyBatch || s is EmitMiddleClick
}

/// A dry run never touches the virtual mouse: its work is only indicator
/// changes and log lines.
pub proof fn lemma_dry_run_only_logs(actions: Seq<CoreAction>)
    ensures
        forall|i: int|
            0 <= i < emission(actions, true, Seq::empty()).len() ==> !touches_device(
                #[trigger] emission(actions, true, Seq::empty())[i],
            ),
    decreases actions.len(),
{
    if actions.len() > 0 {
        let rest = actions.subrange(1, actions.len() as int);
        lemma_dry_run_only_logs(rest);
        let e = emission(actions, true, Seq::empty());
        let r = emission(rest, true, Seq::empty());
        assert forall|i: int| 0 <= i < e.len() implies !touches_device(#[trigger] e[i]) by {
            let a = actions[0];
            match a {
                CoreAction::EnterScrollMode | CoreAction::ExitScrollMode => {
                    if i > 0 {
                        assert(e[i] == r[i - 1]);
                    }
                },
                CoreAction::EmitMiddleClick => {
                    assert(flush_steps(Seq::empty(), true) =~= Seq::<StepView>::empty());
                    if i > 0 {
                        assert(e[i] == r[i - 1]);
                    }
                },
                CoreAction::Suppress => {
                },
                _ => {
                    let head = match description(a) {
                        Some(t) => seq![StepView::DryRunLog(t)],
                        None => Seq::empty(),
                    };
                    if i >= head.len() {
                        assert(e[i] == r[i - head.len()]);
                    }
                },
            }
        }
    }
}
} // verus!
