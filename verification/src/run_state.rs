//! The bookkeeping of a simulation run: whether it is configured, running or
//! finished, how many time steps it takes and has taken, how long it has run,
//! and how the adaptive time step reacts to the Courant number.
use vstd::prelude::*;

verus! {

/// Where a run stands.
#[derive(Debug, Clone, Copy, PartialEq, Eq, Structural)]
pub enum Phase {
    Unconfigured,
    InProgress,
    Done,
}

/// The counters of a run. `steps` is the number of time steps the run takes,
/// `iterations` the number taken, `runtime_ns` the wall-clock time spent
/// stepping (unknown after an import of a run that had started).
#[derive(Debug, Clone, Copy, PartialEq, Eq)]
pub struct RunState {
    pub phase: Phase,
    pub steps: u128,
    pub iterations: u128,
    pub runtime_ns: Option<u128>,
    pub stable_steps: u32,
}

/// How the Courant number of a step compares with the bounds of the adaptive
/// time step.
#[derive(Debug, Clone, Copy, PartialEq, Eq, Structural)]
pub enum CourantBand {
    /// Above 0.5: the step is too long.
    Above,
    /// Below 0.1: the step could be longer.
    Below,
    /// In between.
    Within,
}

/// What to do with the time step.
#[derive(Debug, Clone, Copy, PartialEq, Eq, Structural)]
pub enum TimeStepChange {
    Halve,
    Grow,
    Keep,
}

/// The result of importing saved run data.
#[derive(Debug, Clone, Copy, PartialEq, Eq)]
pub enum ImportPhase {
    Unconfigured,
    InProgress,
    Done,
    TooManyIterations,
}

/// The number of steps a run of `duration_ns` takes with steps of
/// `time_delta_ns`.
pub open spec fn steps_for(duration_ns: u128, time_delta_ns: u128) -> u128
    recommends
        time_delta_ns > 0,
{
    (duration_ns / time_delta_ns) as u128
}

/// The state right after a configuration: running, no step taken.
pub open spec fn configured(duration_ns: u128, time_delta_ns: u128) -> RunState {
    RunState {
        phase: Phase::InProgress,
        steps: steps_for(duration_ns, time_delta_ns),
        iterations: 0,
        runtime_ns: Some(0),
        stable_steps: 0,
    }
}

/// The state after one more step from `s`, which took `elapsed_ns`, and with
/// `new_steps` as the new length of the run if the time step changed.
pub open spec fn advanced(s: RunState, elapsed_ns: u128, new_steps: Option<u128>) -> RunState {
    let steps = match new_steps {
        Some(n) => n,
        None => s.steps,
    };
    let iterations = (s.iterations + 1) as u128;
    RunState {
        phase: if iterations >= steps {
            Phase::Done
        } else {
            Phase::InProgress
        },
        steps,
        iterations,
        runtime_ns: match s.runtime_ns {
            Some(r) => Some((r + elapsed_ns) as u128),
            None => None,
        },
        stable_steps: s.stable_steps,
    }
}

/// What importing saved data gives: no configuration means an unconfigured
/// run; else the run is in progress, done, or refused, as the saved count of
/// steps taken is below, at or above the number the configuration asks for.
pub open spec fn import_phase_of(config: Option<(u128, u128)>, iterations: u128) -> ImportPhase {
    match config {
        None => ImportPhase::Unconfigured,
        Some((d, dt)) => {
            let steps = steps_for(d, dt);
            if iterations < steps {
                ImportPhase::InProgress
            } else if iterations == steps {
                ImportPhase::Done
            } else {
                ImportPhase::TooManyIterations
            }
        },
    }
}

/// The counter of stable steps and the change of time step after a step
/// whose Courant number fell in `band`: halve above, grow on the tenth step in
/// a row below, keep otherwise; the counter restarts unless the step was
/// below and not the tenth.
pub open spec fn cfl_step_of(stable_steps: u32, band: CourantBand) -> (u32, TimeStepChange) {
    match band {
        CourantBand::Above => (0, TimeStepChange::Halve),
        CourantBand::Below => if stable_steps + 1 >= 10 {
            (0, TimeStepChange::Grow)
        } else {
            ((stable_steps + 1) as u32, TimeStepChange::Keep)
        },
        CourantBand::Within => (0, TimeStepChange::Keep),
    }
}

impl RunState {
    /// A run that has no configuration yet.
    pub fn unconfigured() -> (s: Self)
        ensures
            s.phase == Phase::Unconfigured,
            s.iterations == 0,
            s.steps == 0,
            s.runtime_ns == Some(0u128),
            s.stable_steps == 0,
    {
        RunState {
            phase: Phase::Unconfigured,
            steps: 0,
            iterations: 0,
            runtime_ns: Some(0),
            stable_steps: 0,
        }
    }

    /// The number of steps taken (none before a configuration).
    pub fn iterations(&self) -> (n: u128)
        ensures
            n == if self.phase == Phase::Unconfigured {
                0
            } else {
                self.iterations
            },
    {
        match self.phase {
            Phase::Unconfigured => 0,
            _ => self.iterations,
        }
    }

    /// The number of steps the run takes.
    pub fn total_iterations(&self) -> (n: u128)
        ensures
            n == self.steps,
    {
        self.steps
    }

    /// Configures (or reconfigures) the run with a duration and a time step:
    /// the run restarts, in progress, at step 0. Also tells whether the nodes
    /// go back to their initial state, which a reconfiguration does once steps
    /// were taken, or once the run was done.
    pub fn configure(&self, duration_ns: u128, time_delta_ns: u128) -> (r: (Self, bool))
        requires
            time_delta_ns > 0,
        ensures
            r.0 == configured(duration_ns, time_delta_ns),
            r.1 == match self.phase {
                Phase::Unconfigured => false,
                Phase::InProgress => self.iterations > 0,
                Phase::Done => true,
            },
    {
        let reset_nodes = match self.phase {
            Phase::Unconfigured => false,
            Phase::InProgress => self.iterations > 0,
            Phase::Done => true,
        };
        (
            RunState {
                phase: Phase::InProgress,
                steps: duration_ns / time_delta_ns,
                iterations: 0,
                runtime_ns: Some(0),
                stable_steps: 0,
            },
            reset_nodes,
        )
    }

    /// Counts one more step, which took `elapsed_ns` of wall-clock time; with
    /// `new_steps` the run's length changes (after an adaptive change of the
    /// time step). The run is done once the steps taken reach its length.
    pub fn advance(&mut self, elapsed_ns: u128, new_steps: Option<u128>)
        requires
            old(self).phase == Phase::InProgress,
            old(self).iterations < u128::MAX,
            old(self).runtime_ns matches Some(r) ==> r + elapsed_ns <= u128::MAX,
        ensures
            *final(self) == advanced(*old(self), elapsed_ns, new_steps),
    {
        match new_steps {
            Some(n) => {
                self.steps = n;
            },
            None => {},
        }
        self.iterations = self.iterations + 1;
        match self.runtime_ns {
            Some(r) => {
                self.runtime_ns = Some(r + elapsed_ns);
            },
            None => {},
        }
        if self.iterations >= self.steps {
            self.phase = Phase::Done;
        } else {
            self.phase = Phase::InProgress;
        }
    }

    /// Starts the run over: in progress at step 0 with no time spent, the same
    /// length. A finished run also forgets its count of stable steps.
    pub fn reset(&mut self)
        requires
            old(self).phase != Phase::Unconfigured,
        ensures
            final(self).phase == Phase::InProgress,
            final(self).iterations == 0,
            final(self).runtime_ns == Some(0u128),
            final(self).steps == old(self).steps,
            final(self).stable_steps == if old(self).phase == Phase::Done {
                0
            } else {
                old(self).stable_steps
            },
    {
        if self.phase == Phase::Done {
            self.stable_steps = 0;
        }
        self.phase = Phase::InProgress;
        self.iterations = 0;
        self.runtime_ns = Some(0);
    }

    /// Changes the duration of a configured run. Refused when the new
    /// duration is shorter than the time already simulated (`completed_ns`);
    /// otherwise the run's length follows the new duration, and a finished
    /// run is running again.
    pub fn set_duration(&mut self, duration_ns: u128, time_delta_ns: u128, completed_ns: u128) -> (r:
        Result<(), String>)
        requires
            old(self).phase != Phase::Unconfigured,
            time_delta_ns > 0,
        ensures
            duration_ns < completed_ns <==> r is Err,
            r is Err ==> *final(self) == *old(self) && r->Err_0@
                == "Cannot reduce duration to a value which is less than duration elapsed"@,
            r is Ok ==> *final(self) == (RunState {
                phase: Phase::InProgress,
                steps: steps_for(duration_ns, time_delta_ns),
                ..*old(self)
            }),
    {
        if duration_ns < completed_ns {
            Err(String::from_str("Cannot reduce duration to a value which is less than duration elapsed"))
        } else {
            self.steps = duration_ns / time_delta_ns;
            self.phase = Phase::InProgress;
            Ok(())
        }
    }

    /// The run restored from saved data: the saved configuration (duration
    /// and time step) and count of steps taken. Refused when more steps were
    /// taken than the configuration allows.
    pub fn import(config: Option<(u128, u128)>, iterations: u128) -> (r: Result<Self, String>)
        requires
            config matches Some(c) ==> c.1 > 0,
        ensures
            import_phase_of(config, iterations) == ImportPhase::TooManyIterations <==> r is Err,
            r is Err ==> r->Err_0@ == "Exported data has more iterations than allowed"@,
            r matches Ok(s) ==> {
                &&& config is None ==> s == RunState::spec_unconfigured()
                &&& config matches Some(c) ==> {
                    &&& s.steps == steps_for(c.0, c.1)
                    &&& s.iterations == iterations
                    &&& s.stable_steps == 0
                    &&& (import_phase_of(config, iterations) == ImportPhase::InProgress ==> s.phase
                        == Phase::InProgress && s.runtime_ns == if iterations == 0 {
                        Some(0u128)
                    } else {
                        None
                    })
                    &&& (import_phase_of(config, iterations) == ImportPhase::Done ==> s.phase
                        == Phase::Done && s.runtime_ns is None)
                }
            },
    {
        match config {
            None => Ok(RunState::unconfigured()),
            Some((d, dt)) => {
                let steps = d / dt;
                if iterations < steps {
                    Ok(
                        RunState {
                            phase: Phase::InProgress,
                            steps,
                            iterations,
                            runtime_ns: if iterations == 0 {
                                Some(0)
                            } else {
                                None
                            },
                            stable_steps: 0,
                        },
                    )
                } else if iterations == steps {
                    Ok(
                        RunState {
                            phase: Phase::Done,
                            steps,
                            iterations: steps,
                            runtime_ns: None,
                            stable_steps: 0,
                        },
                    )
                } else {
                    Err(String::from_str("Exported data has more iterations than allowed"))
                }
            },
        }
    }

    pub open spec fn spec_unconfigured() -> RunState {
        RunState {
            phase: Phase::Unconfigured,
            steps: 0,
            iterations: 0,
            runtime_ns: Some(0),
            stable_steps: 0,
        }
    }

    /// Updates the count of stable steps after a step whose Courant number fell
    /// in `band`, and says how the time step changes.
    pub fn cfl_step(&mut self, band: CourantBand) -> (change: TimeStepChange)
        ensures
            (final(self).stable_steps, change) == cfl_step_of(old(self).stable_steps, band),
            final(self).phase == old(self).phase,
            final(self).steps == old(self).steps,
            final(self).iterations == old(self).iterations,
            final(self).runtime_ns == old(self).runtime_ns,
    {
        match band {
            CourantBand::Above => {
                self.stable_steps = 0;
                TimeStepChange::Halve
            },
            CourantBand::Below => {
                if self.stable_steps >= 9 {
                    self.stable_steps = 0;
                    TimeStepChange::Grow
                } else {
                    self.stable_steps = self.stable_steps + 1;
                    TimeStepChange::Keep
                }
            },
            CourantBand::Within => {
                self.stable_steps = 0;
                TimeStepChange::Keep
            },
        }
    }
}

/// Each step adds exactly one to the count of steps taken, and the run is
/// done exactly when that count reaches its length.
pub proof fn law_advance_counts_one(s: RunState, elapsed_ns: u128, new_steps: Option<u128>)
    requires
        s.iterations < u128::MAX,
    ensures
        advanced(s, elapsed_ns, new_steps).iterations == s.iterations + 1,
        advanced(s, elapsed_ns, new_steps).phase == Phase::Done <==> advanced(
            s,
            elapsed_ns,
            new_steps,
        ).iterations >= advanced(s, elapsed_ns, new_steps).steps,
{
}

/// A run configured for `k` steps (`k` below `u128::MAX`) is done after
/// exactly `k` steps when its length does not change: not before.
pub proof fn law_done_after_configured_steps(duration_ns: u128, time_delta_ns: u128, k: nat)
    requires
        time_delta_ns > 0,
        k <= steps_for(duration_ns, time_delta_ns),
        k > 0,
    ensures
        advanced_n(configured(duration_ns, time_delta_ns), k).iterations == k,
        advanced_n(configured(duration_ns, time_delta_ns), k).phase == if k == steps_for(
            duration_ns,
            time_delta_ns,
        ) {
            Phase::Done
        } else {
            Phase::InProgress
        },
    decreases k,
{
    let c = configured(duration_ns, time_delta_ns);
    let prev = advanced_n(c, (k - 1) as nat);
    if k > 1 {
        law_done_after_configured_steps(duration_ns, time_delta_ns, (k - 1) as nat);
    } else {
        assert(prev == c);
    }
    assert(prev.iterations == k - 1);
    assert(prev.steps == steps_for(duration_ns, time_delta_ns)) by {
        lemma_advanced_n_keeps_steps(c, (k - 1) as nat);
    }
    assert(advanced_n(c, k) == advanced(prev, 0, None));
}

proof fn lemma_advanced_n_keeps_steps(s: RunState, k: nat)
    ensures
        advanced_n(s, k).steps == s.steps,
    decreases k,
{
    if k > 0 {
        lemma_advanced_n_keeps_steps(s, (k - 1) as nat);
    }
}

/// `k` steps of no wall-clock time with an unchanged length.
pub open spec fn advanced_n(s: RunState, k: nat) -> RunState
    decreases k,
{
    if k == 0 {
        s
    } else {
        advanced(advanced_n(s, (k - 1) as nat), 0, None)
    }
}

/// What a run saves is what an import gives back: a run with no more steps
/// taken than its length comes back with the same length and count, in
/// progress while steps remain and done once none do.
pub proof fn law_import_restores_saved_run(duration_ns: u128, time_delta_ns: u128, iterations: u128)
    requires
        time_delta_ns > 0,
        iterations <= steps_for(duration_ns, time_delta_ns),
    ensures
        import_phase_of(Some((duration_ns, time_delta_ns)), iterations) == if iterations
            == steps_for(duration_ns, time_delta_ns) {
            ImportPhase::Done
        } else {
            ImportPhase::InProgress
        },
{
}

/// The time step grows only after ten steps in a row below the lower
/// Courant bound, and the count of stable steps stays below ten.
pub proof fn law_growth_needs_ten_stable_steps(stable_steps: u32, band: CourantBand)
    requires
        stable_steps < 10,
    ensures
        cfl_step_of(stable_steps, band).0 < 10,
        cfl_step_of(stable_steps, band).1 == TimeStepChange::Grow <==> (band == CourantBand::Below
            && stable_steps == 9),
{
}

/// A step that comes with a new length of the run takes that length,
/// longer or shorter than the old one; a step without one keeps the length.
/// The run is done after the step exactly when the steps taken reach the
/// length it then has.
pub proof fn law_step_takes_new_length(s: RunState, elapsed_ns: u128, n: u128)
    requires
        s.iterations < u128::MAX,
    ensures
        advanced(s, elapsed_ns, Some(n)).steps == n,
        advanced(s, elapsed_ns, None).steps == s.steps,
        advanced(s, elapsed_ns, Some(n)).iterations == s.iterations + 1,
        (advanced(s, elapsed_ns, Some(n)).phase == Phase::Done) == (s.iterations + 1 >= n),
        (advanced(s, elapsed_ns, None).phase == Phase::Done) == (s.iterations + 1 >= s.steps),
{
}

/// A run configured for a duration takes as many whole time steps as fit
/// in it: those steps do not go past the duration, and one more would.
pub proof fn law_length_covers_duration(duration_ns: u128, time_delta_ns: u128)
    requires
        time_delta_ns > 0,
    ensures
        configured(duration_ns, time_delta_ns).steps * time_delta_ns <= duration_ns,
        duration_ns < (configured(duration_ns, time_delta_ns).steps + 1) * time_delta_ns,
        configured(duration_ns, time_delta_ns).iterations == 0,
        configured(duration_ns, time_delta_ns).phase == Phase::InProgress,
{
    let q = duration_ns / time_delta_ns;
    assert(q * time_delta_ns <= duration_ns && duration_ns < (q + 1) * time_delta_ns) by (nonlinear_arith)
        requires
            time_delta_ns > 0,
            q == duration_ns / time_delta_ns,
    ;
}

} // verus!
