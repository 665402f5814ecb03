//! Sequencing of one solver step.
//!
//! A step runs eight stages in a fixed order. Two of them are correction
//! loops that repeat a pass until the measured residual is within its
//! threshold; each runs a minimum number of passes whatever the residual, and
//! gives up at a bound. `Fluid` keeps the stage, counts the passes, owns the
//! neighbourhood index and only lets a step go on past the rebuild stage with
//! a new index. The arithmetic of a stage is done by the caller, who reports
//! each stage, or pass, as it is completed.

use vstd::prelude::*;
use crate::fluids::lattice::{LatticePoint, within_radius, lemma_within_radius_reflexive};
use crate::fluids::neighborhoods::{Neighborhoods, in_reading_order, is_neighbor_list};

verus! {

/// Fewest passes of the density correction in a step.
pub const DENSITY_MIN_PASSES: u32 = 2;

/// Fewest passes of the divergence correction in a step.
pub const DIVERGENCE_MIN_PASSES: u32 = 1;

/// Where a solver stands within a step.
#[derive(Clone, Copy, Debug, PartialEq, Eq, Structural)]
pub enum Stage {
    /// No step is in progress.
    Idle,
    /// The stiffness factor of every particle is computed from its neighbours.
    FactorUpdate,
    /// The timestep is chosen from the largest velocity.
    TimestepAdaptation,
    /// Non-pressure accelerations give the predicted velocities.
    Advection,
    /// The constant-density loop.
    DensityCorrection,
    /// Positions move by the predicted velocities.
    PositionIntegration,
    /// The neighbourhood index is built anew from the moved positions.
    NeighborhoodRebuild,
    /// The divergence-free loop.
    DivergenceCorrection,
    /// Predicted velocities become the velocities.
    Commit,
}

impl Stage {
    /// The stage that comes after this one; a step ends after `Commit`, and
    /// begins with `FactorUpdate`.
    pub open spec fn following(self) -> Stage {
        match self {
            Stage::Idle => Stage::FactorUpdate,
            Stage::FactorUpdate => Stage::TimestepAdaptation,
            Stage::TimestepAdaptation => Stage::Advection,
            Stage::Advection => Stage::DensityCorrection,
            Stage::DensityCorrection => Stage::PositionIntegration,
            Stage::PositionIntegration => Stage::NeighborhoodRebuild,
            Stage::NeighborhoodRebuild => Stage::DivergenceCorrection,
            Stage::DivergenceCorrection => Stage::Commit,
            Stage::Commit => Stage::Idle,
        }
    }

    /// Number of the stage within a step, from 1 to 8; 0 for `Idle`.
    pub open spec fn ordinal(self) -> nat {
        match self {
            Stage::Idle => 0,
            Stage::FactorUpdate => 1,
            Stage::TimestepAdaptation => 2,
            Stage::Advection => 3,
            Stage::DensityCorrection => 4,
            Stage::PositionIntegration => 5,
            Stage::NeighborhoodRebuild => 6,
            Stage::DivergenceCorrection => 7,
            Stage::Commit => 8,
        }
    }

    /// Number of stages from this one to the end of the step, this one
    /// counted; none for `Idle`.
    pub open spec fn remaining(self) -> nat {
        if self == Stage::Idle {
            0
        } else {
            (9 - self.ordinal()) as nat
        }
    }

    /// Whether a step that is in this stage, or idle again, has `earlier`
    /// behind it.
    pub open spec fn is_after(self, earlier: Stage) -> bool {
        self == Stage::Idle || self.ordinal() > earlier.ordinal()
    }

    /// Whether the stage is one of the two correction loops.
    pub open spec fn is_correction(self) -> bool {
        self == Stage::DensityCorrection || self == Stage::DivergenceCorrection
    }

    /// Whether the stage is done in one go and reported with
    /// `Fluid::complete_stage`.
    pub open spec fn is_single(self) -> bool {
        self == Stage::FactorUpdate || self == Stage::TimestepAdaptation || self
            == Stage::Advection || self == Stage::PositionIntegration || self == Stage::Commit
    }

    /// The stage that comes after this one.
    pub fn next(self) -> (stage: Stage)
        ensures
            stage == self.following(),
    {
        match self {
            Stage::Idle => Stage::FactorUpdate,
            Stage::FactorUpdate => Stage::TimestepAdaptation,
            Stage::TimestepAdaptation => Stage::Advection,
            Stage::Advection => Stage::DensityCorrection,
            Stage::DensityCorrection => Stage::PositionIntegration,
            Stage::PositionIntegration => Stage::NeighborhoodRebuild,
            Stage::NeighborhoodRebuild => Stage::DivergenceCorrection,
            Stage::DivergenceCorrection => Stage::Commit,
            Stage::Commit => Stage::Idle,
        }
    }
}

/// Within a step the stages follow one another by number, from the first to
/// the eighth, after which the fluid is idle; and every stage of a step is
/// reported in exactly one way: as a single stage, as a pass of a correction
/// loop, or as the rebuild.
pub proof fn lemma_stages_run_in_order(stage: Stage)
    ensures
        stage != Stage::Commit ==> stage.following().ordinal() == stage.ordinal() + 1,
        stage == Stage::Commit ==> stage.following() == Stage::Idle,
        stage.ordinal() <= 8,
        stage != Stage::Idle ==> (stage.is_single() && !stage.is_correction() && stage
            != Stage::NeighborhoodRebuild) || (!stage.is_single() && stage.is_correction() && stage
            != Stage::NeighborhoodRebuild) || (!stage.is_single() && !stage.is_correction() && stage
            == Stage::NeighborhoodRebuild),
        stage == Stage::Idle ==> !stage.is_single() && !stage.is_correction(),
{
}

/// How a correction loop stands after a pass.
#[derive(Clone, Copy, Debug, PartialEq, Eq, Structural)]
pub enum Verdict {
    /// Another pass is to be run.
    Continue,
    /// The residual is within the threshold: the loop ends.
    Converged,
    /// The residual is still above the threshold, and the loop ends for having
    /// run as many passes as it may.
    Exhausted,
}

/// Most passes a loop runs: the bound asked for, but never fewer than the
/// minimum.
pub open spec fn pass_bound(minimum: u32, max_iterations: u32) -> u32 {
    if max_iterations < minimum {
        minimum
    } else {
        max_iterations
    }
}

/// The verdict after `passes` passes have been run, the last of which left
/// the residual above the threshold or not: below the minimum the loop goes
/// on whatever the residual; from there on it ends as soon as the residual is
/// within the threshold, and at the bound at the latest.
pub open spec fn verdict_after(
    passes: nat,
    minimum: u32,
    max_iterations: u32,
    residual_exceeds_threshold: bool,
) -> Verdict {
    if passes < minimum {
        Verdict::Continue
    } else if !residual_exceeds_threshold {
        Verdict::Converged
    } else if passes >= pass_bound(minimum, max_iterations) {
        Verdict::Exhausted
    } else {
        Verdict::Continue
    }
}

/// Judges a correction loop after its `passes`-th pass.
pub fn judge_pass(
    passes: u32,
    minimum: u32,
    max_iterations: u32,
    residual_exceeds_threshold: bool,
) -> (verdict: Verdict)
    ensures
        verdict == verdict_after(passes as nat, minimum, max_iterations, residual_exceeds_threshold),
{
    let bound: u32 = if max_iterations < minimum {
        minimum
    } else {
        max_iterations
    };
    if passes < minimum {
        Verdict::Continue
    } else if !residual_exceeds_threshold {
        Verdict::Converged
    } else if passes >= bound {
        Verdict::Exhausted
    } else {
        Verdict::Continue
    }
}

/// A loop never ends before its minimum of passes and never goes on at its
/// bound; it ends as converged only on a residual within the threshold, and
/// as exhausted only at the bound.
pub proof fn lemma_loop_is_bounded(
    passes: nat,
    minimum: u32,
    max_iterations: u32,
    residual_exceeds_threshold: bool,
)
    ensures
        passes < minimum ==> verdict_after(
            passes,
            minimum,
            max_iterations,
            residual_exceeds_threshold,
        ) == Verdict::Continue,
        passes >= pass_bound(minimum, max_iterations) ==> verdict_after(
            passes,
            minimum,
            max_iterations,
            residual_exceeds_threshold,
        ) != Verdict::Continue,
        verdict_after(passes, minimum, max_iterations, residual_exceeds_threshold)
            == Verdict::Converged ==> !residual_exceeds_threshold,
        verdict_after(passes, minimum, max_iterations, residual_exceeds_threshold)
            == Verdict::Exhausted ==> residual_exceeds_threshold && passes >= pass_bound(
            minimum,
            max_iterations,
        ),
{
}

/// Number of passes a loop runs when the residual after its `n`-th pass is
/// above the threshold exactly where `residuals[n - 1]` says so; past the end
/// of `residuals` the residual counts as within the threshold.
pub open spec fn passes_run(minimum: u32, max_iterations: u32, residuals: Seq<bool>) -> nat {
    passes_run_from(0, minimum, max_iterations, residuals)
}

/// As `passes_run`, for a loop that has run `done` passes already.
pub open spec fn passes_run_from(
    done: nat,
    minimum: u32,
    max_iterations: u32,
    residuals: Seq<bool>,
) -> nat
    decreases pass_bound(minimum, max_iterations) - done,
{
    let exceeds = done < residuals.len() && residuals[done as int];
    if verdict_after(done + 1, minimum, max_iterations, exceeds) == Verdict::Continue {
        passes_run_from(done + 1, minimum, max_iterations, residuals)
    } else {
        done + 1
    }
}

/// Whatever the residuals, a loop runs at least its minimum of passes and at
/// most its bound, so it ends.
pub proof fn lemma_passes_run_within_bounds(
    minimum: u32,
    max_iterations: u32,
    residuals: Seq<bool>,
)
    requires
        minimum >= 1,
    ensures
        minimum <= passes_run(minimum, max_iterations, residuals) <= pass_bound(
            minimum,
            max_iterations,
        ),
{
    lemma_passes_run_from_within_bounds(0, minimum, max_iterations, residuals);
}

proof fn lemma_passes_run_from_within_bounds(
    done: nat,
    minimum: u32,
    max_iterations: u32,
    residuals: Seq<bool>,
)
    requires
        minimum >= 1,
        done < pass_bound(minimum, max_iterations),
    ensures
        done < passes_run_from(done, minimum, max_iterations, residuals) <= pass_bound(
            minimum,
            max_iterations,
        ),
        minimum <= passes_run_from(done, minimum, max_iterations, residuals),
    decreases pass_bound(minimum, max_iterations) - done,
{
    let exceeds = done < residuals.len() && residuals[done as int];
    if verdict_after(done + 1, minimum, max_iterations, exceeds) == Verdict::Continue {
        lemma_passes_run_from_within_bounds(done + 1, minimum, max_iterations, residuals);
    }
}

/// The passes of a loop are as many as there are answers exactly where every
/// answer but the last lets the loop go on and the last one ends it.
pub proof fn lemma_loop_stops_at_last_answer(
    minimum: u32,
    max_iterations: u32,
    answers: Seq<bool>,
    done: nat,
)
    requires
        done < answers.len(),
        forall|k: int|
            done <= k < answers.len() - 1 ==> verdict_after(
                (k + 1) as nat,
                minimum,
                max_iterations,
                #[trigger] answers[k],
            ) == Verdict::Continue,
        verdict_after(answers.len(), minimum, max_iterations, answers.last())
            != Verdict::Continue,
    ensures
        passes_run_from(done, minimum, max_iterations, answers) == answers.len(),
    decreases answers.len() - done,
{
    if done < answers.len() - 1 {
        assert(verdict_after(done + 1, minimum, max_iterations, answers[done as int])
            == Verdict::Continue);
        lemma_loop_stops_at_last_answer(minimum, max_iterations, answers, done + 1);
    }
}

/// Whether `work` can have done the single stage `stage` when handed an
/// index of `points` for the radius `radius`.
pub open spec fn stage_was_done<S: Fn(Stage, &Neighborhoods)>(
    work: S,
    stage: Stage,
    points: Seq<LatticePoint>,
    radius: u32,
) -> bool {
    exists|index: &Neighborhoods| #[trigger]
        call_ensures(work, (stage, index), ()) && index.points() == points
            && index.support_radius() == radius
}

/// Whether `work` can have given `answer` for a pass of the loop `stage`
/// when handed an index of `points` for the radius `radius`.
pub open spec fn pass_was_answered<P: Fn(Stage, &Neighborhoods) -> bool>(
    work: P,
    stage: Stage,
    points: Seq<LatticePoint>,
    radius: u32,
    answer: bool,
) -> bool {
    exists|index: &Neighborhoods| #[trigger]
        call_ensures(work, (stage, index), answer) && index.points() == points
            && index.support_radius() == radius
}

/// Whether `answers` can be the answers of `work` to the passes that a loop
/// has run so far, none of which has ended it.
pub open spec fn loop_goes_on<P: Fn(Stage, &Neighborhoods) -> bool>(
    work: P,
    stage: Stage,
    points: Seq<LatticePoint>,
    radius: u32,
    minimum: u32,
    max_iterations: u32,
    answers: Seq<bool>,
) -> bool {
    forall|k: int|
        0 <= k < answers.len() ==> pass_was_answered(work, stage, points, radius, #[trigger] answers[k])
            && verdict_after((k + 1) as nat, minimum, max_iterations, answers[k])
            == Verdict::Continue
}

/// Whether `answers` can be the answers of `work` to all the passes of a
/// loop, one answer for each pass: the loop ran as many passes as there are
/// answers, the last of which ended it.
pub open spec fn loop_ran<P: Fn(Stage, &Neighborhoods) -> bool>(
    work: P,
    stage: Stage,
    points: Seq<LatticePoint>,
    radius: u32,
    minimum: u32,
    max_iterations: u32,
    answers: Seq<bool>,
) -> bool {
    &&& answers.len() >= 1
    &&& forall|k: int|
        0 <= k < answers.len() ==> pass_was_answered(work, stage, points, radius, #[trigger] answers[k])
    &&& passes_run(minimum, max_iterations, answers) == answers.len()
}

/// Whether a step has been run up to the integration of positions on an
/// index of `points`, with `report` telling of its density correction:
/// `stage_work` did the four single stages, and `pass_work` answered the
/// passes of the density correction, which were as many as the report says
/// and converged exactly where the last answer was a residual within the
/// threshold.
pub open spec fn ran_up_to_integration<
    S: Fn(Stage, &Neighborhoods),
    P: Fn(Stage, &Neighborhoods) -> bool,
>(
    stage_work: S,
    pass_work: P,
    points: Seq<LatticePoint>,
    radius: u32,
    max_iterations: u32,
    report: StepReport,
) -> bool {
    &&& stage_was_done(stage_work, Stage::FactorUpdate, points, radius)
    &&& stage_was_done(stage_work, Stage::TimestepAdaptation, points, radius)
    &&& stage_was_done(stage_work, Stage::Advection, points, radius)
    &&& stage_was_done(stage_work, Stage::PositionIntegration, points, radius)
    &&& exists|answers: Seq<bool>| #[trigger]
        loop_ran(
            pass_work,
            Stage::DensityCorrection,
            points,
            radius,
            DENSITY_MIN_PASSES,
            max_iterations,
            answers,
        ) && report.density_passes == answers.len() && report.density_converged
            == !answers.last()
}

/// Whether a step has been run from the rebuild on, on an index of
/// `points`, with `report` telling of its divergence correction: `pass_work`
/// answered the passes of the divergence correction, which were as many as
/// the report says and converged exactly where the last answer was a
/// residual within the threshold, and `stage_work` did the commit.
pub open spec fn ran_from_rebuild<
    S: Fn(Stage, &Neighborhoods),
    P: Fn(Stage, &Neighborhoods) -> bool,
>(
    stage_work: S,
    pass_work: P,
    points: Seq<LatticePoint>,
    radius: u32,
    max_iterations: u32,
    report: StepReport,
) -> bool {
    &&& stage_was_done(stage_work, Stage::Commit, points, radius)
    &&& exists|answers: Seq<bool>| #[trigger]
        loop_ran(
            pass_work,
            Stage::DivergenceCorrection,
            points,
            radius,
            DIVERGENCE_MIN_PASSES,
            max_iterations,
            answers,
        ) && report.divergence_passes == answers.len() && report.divergence_converged
            == !answers.last()
}

/// What a finished step reports of its two correction loops.
#[derive(Clone, Copy, Debug, PartialEq, Eq, Structural)]
pub struct StepReport {
    /// Passes the density correction ran.
    pub density_passes: u32,
    /// Whether the density correction ended with its residual within the
    /// threshold.
    pub density_converged: bool,
    /// Passes the divergence correction ran.
    pub divergence_passes: u32,
    /// Whether the divergence correction ended with its residual within the
    /// threshold.
    pub divergence_converged: bool,
}

impl StepReport {
    /// Whether both loops ended with their residuals within the thresholds.
    pub open spec fn is_converged(&self) -> bool {
        self.density_converged && self.divergence_converged
    }

    /// Whether the report can come from a step under the given bound: each
    /// loop ran between its minimum and its bound, and one that did not
    /// converge ran to its bound.
    pub open spec fn is_sound(&self, max_iterations: u32) -> bool {
        &&& DENSITY_MIN_PASSES <= self.density_passes <= pass_bound(
            DENSITY_MIN_PASSES,
            max_iterations,
        )
        &&& DIVERGENCE_MIN_PASSES <= self.divergence_passes <= pass_bound(
            DIVERGENCE_MIN_PASSES,
            max_iterations,
        )
        &&& !self.density_converged ==> self.density_passes == pass_bound(
            DENSITY_MIN_PASSES,
            max_iterations,
        )
        &&& !self.divergence_converged ==> self.divergence_passes == pass_bound(
            DIVERGENCE_MIN_PASSES,
            max_iterations,
        )
    }

    /// Tells whether the step converged in both loops.
    pub fn converged(&self) -> (converged: bool)
        ensures
            converged == self.is_converged(),
    {
        self.density_converged && self.divergence_converged
    }
}

/// Why a fluid cannot be set up.
#[derive(Clone, Copy, Debug, PartialEq, Eq, Structural)]
pub enum ConfigError {
    /// There is no particle.
    EmptyParticleSet,
    /// The support radius is zero.
    ZeroSupportRadius,
    /// The particle at this place has no other particle within the support
    /// radius.
    IsolatedParticle(usize),
}

/// Why a report of progress was not accepted.
#[derive(Clone, Copy, Debug, PartialEq, Eq, Structural)]
pub enum StepError {
    /// A step is in progress, so none can begin.
    StepInProgress,
    /// The report does not belong to the stage the step is in.
    WrongStage,
    /// The rebuilt index holds another number of particles than the fluid.
    ParticleCountChanged,
}

/// Whether the particle at place `i` has no other particle within `radius`.
pub open spec fn is_isolated(points: Seq<LatticePoint>, radius: u32, i: int) -> bool {
    forall|j: int| 0 <= j < points.len() && j != i ==> !within_radius(#[trigger] points[j], points[i], radius)
}

/// The error, if any, that keeps `points` and `radius` from being set up: the
/// first that applies of an empty set, a zero radius, and an isolated
/// particle, of which the one at the lowest place is named.
pub open spec fn config_error(points: Seq<LatticePoint>, radius: u32) -> Option<ConfigError> {
    if points.len() == 0 {
        Some(ConfigError::EmptyParticleSet)
    } else if radius == 0 {
        Some(ConfigError::ZeroSupportRadius)
    } else if exists|i: int| 0 <= i < points.len() && is_isolated(points, radius, i) {
        Some(ConfigError::IsolatedParticle(first_isolated(points, radius, 0) as usize))
    } else {
        None
    }
}

/// Lowest place from `from` on of an isolated particle, or the number of
/// points where there is none.
pub open spec fn first_isolated(points: Seq<LatticePoint>, radius: u32, from: int) -> int
    decreases points.len() - from,
{
    if from < 0 || from >= points.len() {
        points.len() as int
    } else if is_isolated(points, radius, from) {
        from
    } else {
        first_isolated(points, radius, from + 1)
    }
}

/// `first_isolated` names an isolated particle before which, from `from` on,
/// none is isolated; or it is the number of points, and none is.
pub proof fn lemma_first_isolated(points: Seq<LatticePoint>, radius: u32, from: int)
    requires
        0 <= from <= points.len(),
    ensures
        from <= first_isolated(points, radius, from) <= points.len(),
        first_isolated(points, radius, from) < points.len() ==> is_isolated(
            points,
            radius,
            first_isolated(points, radius, from),
        ),
        forall|i: int|
            from <= i < first_isolated(points, radius, from) ==> !is_isolated(points, radius, i),
    decreases points.len() - from,
{
    if from < points.len() && !is_isolated(points, radius, from) {
        lemma_first_isolated(points, radius, from + 1);
    }
}

/// The sequencing state of a fluid: its neighbourhood index, the bound on
/// correction passes, the stage of the step in progress and the passes
/// counted in it, and the report of the last step finished.
pub struct Fluid {
    neighborhoods: Neighborhoods,
    max_iterations: u32,
    stage: Stage,
    passes: u32,
    progress: StepReport,
    last: Option<StepReport>,
}

impl Fluid {
    #[verifier::type_invariant]
    spec fn well_formed(&self) -> bool {
        &&& self.neighborhoods.points().len() >= 1
        &&& self.neighborhoods.support_radius() >= 1
        &&& self.stage == Stage::DensityCorrection ==> self.passes < pass_bound(
            DENSITY_MIN_PASSES,
            self.max_iterations,
        )
        &&& self.stage == Stage::DivergenceCorrection ==> self.passes < pass_bound(
            DIVERGENCE_MIN_PASSES,
            self.max_iterations,
        )
        &&& self.stage.ordinal() > Stage::DensityCorrection.ordinal() ==> {
            &&& DENSITY_MIN_PASSES <= self.progress.density_passes <= pass_bound(
                DENSITY_MIN_PASSES,
                self.max_iterations,
            )
            &&& !self.progress.density_converged ==> self.progress.density_passes == pass_bound(
                DENSITY_MIN_PASSES,
                self.max_iterations,
            )
        }
        &&& self.stage.ordinal() > Stage::DivergenceCorrection.ordinal() ==> {
            &&& DIVERGENCE_MIN_PASSES <= self.progress.divergence_passes <= pass_bound(
                DIVERGENCE_MIN_PASSES,
                self.max_iterations,
            )
            &&& !self.progress.divergence_converged ==> self.progress.divergence_passes
                == pass_bound(DIVERGENCE_MIN_PASSES, self.max_iterations)
        }
        &&& self.last matches Some(report) ==> report.is_sound(self.max_iterations)
    }

    /// The positions the current index was built from.
    pub closed spec fn points(&self) -> Seq<LatticePoint> {
        self.neighborhoods.points()
    }

    /// The support radius.
    pub closed spec fn support_radius(&self) -> u32 {
        self.neighborhoods.support_radius()
    }

    /// The bound on correction passes that was asked for.
    pub closed spec fn iteration_bound(&self) -> u32 {
        self.max_iterations
    }

    /// The stage the step is in, or `Idle`.
    pub closed spec fn current_stage(&self) -> Stage {
        self.stage
    }

    /// Passes completed in the correction loop the step is in.
    pub closed spec fn passes_done(&self) -> u32 {
        self.passes
    }

    /// The report of the last step that finished, if one has.
    pub closed spec fn last_report(&self) -> Option<StepReport> {
        self.last
    }

    /// What the step in progress has recorded of its loops so far.
    pub closed spec fn progress(&self) -> StepReport {
        self.progress
    }

    /// Sets up a fluid of the particles at `points` with the support radius
    /// `radius`, whose correction loops run at most `max_iterations` passes
    /// (but never fewer than their minimum). An empty set of particles, a
    /// zero radius and a particle without any other within the radius are
    /// refused. The fluid starts idle, with no report.
    pub fn new(points: Vec<LatticePoint>, radius: u32, max_iterations: u32) -> (fluid: Result<
        Fluid,
        ConfigError,
    >)
        ensures
            match fluid {
                Ok(f) => {
                    &&& config_error(points@, radius).is_none()
                    &&& f.points() == points@
                    &&& f.support_radius() == radius
                    &&& f.iteration_bound() == max_iterations
                    &&& f.current_stage() == Stage::Idle
                    &&& f.last_report().is_none()
                },
                Err(e) => config_error(points@, radius) == Some(e),
            },
    {
        if points.len() == 0 {
            return Err(ConfigError::EmptyParticleSet);
        }
        if radius == 0 {
            return Err(ConfigError::ZeroSupportRadius);
        }
        let ghost given = points@;
        let neighborhoods = Neighborhoods::new(points, radius);
        let count: usize = neighborhoods.len();
        let mut i: usize = 0;
        while i < count
            invariant
                i <= count,
                count == given.len(),
                radius >= 1,
                given == points@,
                neighborhoods.points() == given,
                neighborhoods.support_radius() == radius,
                first_isolated(given, radius, 0) == first_isolated(given, radius, i as int),
                forall|e: int| 0 <= e < i ==> !is_isolated(given, radius, e),
            decreases count - i,
        {
            if particle_is_isolated(&neighborhoods, i) {
                proof {
                    assert(is_isolated(given, radius, i as int));
                    assert(first_isolated(given, radius, i as int) == i);
                }
                return Err(ConfigError::IsolatedParticle(i));
            }
            proof {
                assert(first_isolated(given, radius, i as int) == first_isolated(
                    given,
                    radius,
                    i + 1,
                ));
            }
            i += 1;
        }
        assert(config_error(given, radius).is_none());
        let progress = StepReport {
            density_passes: 0,
            density_converged: false,
            divergence_passes: 0,
            divergence_converged: false,
        };
        Ok(
            Fluid {
                neighborhoods,
                max_iterations,
                stage: Stage::Idle,
                passes: 0,
                progress,
                last: None,
            },
        )
    }

    /// The stage the step is in, or `Idle` between steps.
    pub fn stage(&self) -> (stage: Stage)
        ensures
            stage == self.current_stage(),
    {
        self.stage
    }

    /// Number of particles.
    pub fn particle_count(&self) -> (count: usize)
        ensures
            count == self.points().len(),
            count >= 1,
    {
        proof {
            use_type_invariant(self);
        }
        self.neighborhoods.len()
    }

    /// The bound on correction passes that was asked for.
    pub fn max_iterations(&self) -> (bound: u32)
        ensures
            bound == self.iteration_bound(),
    {
        self.max_iterations
    }

    /// The report of the last step that finished, if one has. It is sound for
    /// the fluid's bound.
    pub fn report(&self) -> (report: Option<StepReport>)
        ensures
            report == self.last_report(),
            report matches Some(r) ==> r.is_sound(self.iteration_bound()),
    {
        proof {
            use_type_invariant(self);
        }
        self.last
    }

    /// The current index.
    pub fn neighborhoods(&self) -> (index: &Neighborhoods)
        ensures
            index.points() == self.points(),
            index.support_radius() == self.support_radius(),
    {
        &self.neighborhoods
    }

    /// Places of the particles within the support radius of `position`, by
    /// the current index.
    pub fn get_neighbors(&self, position: LatticePoint) -> (neighbors: Vec<usize>)
        ensures
            is_neighbor_list(self.points(), self.support_radius(), position, neighbors@),
            in_reading_order(self.points(), self.support_radius(), position, neighbors@),
    {
        self.neighborhoods.get_neighbors(position)
    }

    /// Begins a step: an idle fluid enters `FactorUpdate` with nothing
    /// recorded of the loops. While a step is in progress the call is refused
    /// and changes nothing.
    pub fn begin_step(&mut self) -> (begun: Result<(), StepError>)
        ensures
            final(self).points() == old(self).points(),
            final(self).support_radius() == old(self).support_radius(),
            final(self).iteration_bound() == old(self).iteration_bound(),
            final(self).last_report() == old(self).last_report(),
            old(self).current_stage() == Stage::Idle ==> begun.is_ok() && final(self).current_stage() == Stage::FactorUpdate && final(self).passes_done() == 0,
            old(self).current_stage() != Stage::Idle ==> begun == Err::<(), StepError>(
                StepError::StepInProgress,
            ) && *final(self) == *old(self),
    {
        proof {
            use_type_invariant(&*self);
        }
        if self.stage != Stage::Idle {
            return Err(StepError::StepInProgress);
        }
        self.stage = Stage::FactorUpdate;
        self.passes = 0;
        self.progress = StepReport {
            density_passes: 0,
            density_converged: false,
            divergence_passes: 0,
            divergence_converged: false,
        };
        Ok(())
    }

    /// Reports the stage in progress as done, for a stage that is done in one
    /// go. The step moves on to the following stage, which is returned; after
    /// `Commit` the step is finished, the fluid is idle and its report is
    /// that of this step. In any other stage the call is refused and changes
    /// nothing.
    pub fn complete_stage(&mut self) -> (next: Result<Stage, StepError>)
        ensures
            final(self).points() == old(self).points(),
            final(self).support_radius() == old(self).support_radius(),
            final(self).iteration_bound() == old(self).iteration_bound(),
            old(self).current_stage().is_single() ==> {
                &&& next == Ok::<Stage, StepError>(old(self).current_stage().following())
                &&& final(self).current_stage() == old(self).current_stage().following()
                &&& final(self).passes_done() == 0
                &&& final(self).progress() == old(self).progress()
                &&& final(self).last_report() == if old(self).current_stage() == Stage::Commit {
                    Some(old(self).progress())
                } else {
                    old(self).last_report()
                }
            },
            !old(self).current_stage().is_single() ==> next == Err::<Stage, StepError>(
                StepError::WrongStage,
            ) && *final(self) == *old(self),
    {
        proof {
            use_type_invariant(&*self);
        }
        match self.stage {
            Stage::FactorUpdate | Stage::TimestepAdaptation | Stage::Advection | Stage::PositionIntegration => {
                let next: Stage = self.stage.next();
                self.passes = 0;
                self.stage = next;
                Ok(next)
            },
            Stage::Commit => {
                self.last = Some(self.progress);
                self.passes = 0;
                self.stage = Stage::Idle;
                Ok(Stage::Idle)
            },
            _ => Err(StepError::WrongStage),
        }
    }

    /// Reports a pass of the correction loop in progress as done, together
    /// with whether the residual measured after it is above the loop's
    /// threshold. The pass is counted and judged: on `Continue` the step
    /// stays in the loop; otherwise the loop's passes and whether it
    /// converged are recorded and the step moves on to the following stage.
    /// Outside the two loops the call is refused and changes nothing.
    pub fn complete_pass(&mut self, residual_exceeds_threshold: bool) -> (verdict: Result<
        Verdict,
        StepError,
    >)
        ensures
            final(self).points() == old(self).points(),
            final(self).support_radius() == old(self).support_radius(),
            final(self).iteration_bound() == old(self).iteration_bound(),
            final(self).last_report() == old(self).last_report(),
            !old(self).current_stage().is_correction() ==> verdict == Err::<Verdict, StepError>(
                StepError::WrongStage,
            ) && *final(self) == *old(self),
            old(self).current_stage().is_correction() ==> {
                let minimum = if old(self).current_stage() == Stage::DensityCorrection {
                    DENSITY_MIN_PASSES
                } else {
                    DIVERGENCE_MIN_PASSES
                };
                let judged = verdict_after(
                    (old(self).passes_done() + 1) as nat,
                    minimum,
                    old(self).iteration_bound(),
                    residual_exceeds_threshold,
                );
                &&& verdict == Ok::<Verdict, StepError>(judged)
                &&& judged == Verdict::Continue ==> {
                    &&& final(self).current_stage() == old(self).current_stage()
                    &&& final(self).passes_done() == old(self).passes_done() + 1
                    &&& final(self).progress() == old(self).progress()
                }
                &&& judged != Verdict::Continue ==> {
                    &&& final(self).current_stage() == old(self).current_stage().following()
                    &&& final(self).passes_done() == 0
                    &&& final(self).progress() == if old(self).current_stage()
                        == Stage::DensityCorrection {
                        (StepReport {
                            density_passes: (old(self).passes_done() + 1) as u32,
                            density_converged: judged == Verdict::Converged,
                            ..old(self).progress()
                        })
                    } else {
                        (StepReport {
                            divergence_passes: (old(self).passes_done() + 1) as u32,
                            divergence_converged: judged == Verdict::Converged,
                            ..old(self).progress()
                        })
                    }
                }
            },
    {
        proof {
            use_type_invariant(&*self);
        }
        let density: bool = match self.stage {
            Stage::DensityCorrection => true,
            Stage::DivergenceCorrection => false,
            _ => {
                return Err(StepError::WrongStage);
            },
        };
        let minimum: u32 = if density {
            DENSITY_MIN_PASSES
        } else {
            DIVERGENCE_MIN_PASSES
        };
        let passes: u32 = self.passes + 1;
        let verdict: Verdict = judge_pass(
            passes,
            minimum,
            self.max_iterations,
            residual_exceeds_threshold,
        );
        match verdict {
            Verdict::Continue => {
                self.passes = passes;
            },
            _ => {
                let converged: bool = match verdict {
                    Verdict::Converged => true,
                    _ => false,
                };
                if density {
                    self.progress.density_passes = passes;
                    self.progress.density_converged = converged;
                } else {
                    self.progress.divergence_passes = passes;
                    self.progress.divergence_converged = converged;
                }
                let next: Stage = self.stage.next();
                self.passes = 0;
                self.stage = next;
            },
        }
        Ok(verdict)
    }

    /// Reports the index as rebuilt: `points` are the positions after
    /// integration, one for each particle in the order of the particles. A
    /// new index of them replaces the old one, and the step moves on to
    /// `DivergenceCorrection`. In any other stage, and for another number of
    /// positions than there are particles, the call is refused and changes
    /// nothing.
    pub fn rebuild_neighborhoods(&mut self, points: Vec<LatticePoint>) -> (next: Result<
        Stage,
        StepError,
    >)
        ensures
            final(self).support_radius() == old(self).support_radius(),
            final(self).iteration_bound() == old(self).iteration_bound(),
            final(self).last_report() == old(self).last_report(),
            final(self).progress() == old(self).progress(),
            old(self).current_stage() != Stage::NeighborhoodRebuild ==> next == Err::<
                Stage,
                StepError,
            >(StepError::WrongStage) && *final(self) == *old(self),
            old(self).current_stage() == Stage::NeighborhoodRebuild && points@.len() != old(self).points().len() ==> next == Err::<Stage, StepError>(
                StepError::ParticleCountChanged,
            ) && *final(self) == *old(self),
            old(self).current_stage() == Stage::NeighborhoodRebuild && points@.len() == old(self).points().len() ==> {
                &&& next == Ok::<Stage, StepError>(Stage::DivergenceCorrection)
                &&& final(self).points() == points@
                &&& final(self).current_stage() == Stage::DivergenceCorrection
                &&& final(self).passes_done() == 0
            },
    {
        proof {
            use_type_invariant(&*self);
        }
        if self.stage != Stage::NeighborhoodRebuild {
            return Err(StepError::WrongStage);
        }
        if points.len() != self.neighborhoods.len() {
            return Err(StepError::ParticleCountChanged);
        }
        let radius: u32 = self.neighborhoods.radius();
        self.neighborhoods = Neighborhoods::new(points, radius);
        self.passes = 0;
        self.stage = Stage::DivergenceCorrection;
        Ok(Stage::DivergenceCorrection)
    }

    /// Takes one whole step. The stages are run in their order; the work of
    /// each is done by the caller's functions, which are handed the stage and
    /// the index as it stands:
    /// `stage_work` does a single stage, `pass_work` does one pass of a
    /// correction loop and tells whether the residual after it is above the
    /// loop's threshold, and `moved_positions` gives the positions after
    /// integration, from which the index is built anew. Each correction loop
    /// runs its minimum of passes, goes on while the residual is above the
    /// threshold, and stops at its bound, so the step always ends.
    ///
    /// The report of the step is returned and kept: it counts the passes that
    /// were run and says of each loop whether the last answer of `pass_work`
    /// was a residual within the threshold. While a step is in progress the
    /// call is refused and changes nothing. Where `moved_positions` gives
    /// another number of positions than there are particles, the step stops
    /// short of the rebuild and stays there.
    pub fn dfsph<S, P, M>(&mut self, stage_work: S, pass_work: P, moved_positions: M) -> (report:
        Result<StepReport, StepError>) where
        S: Fn(Stage, &Neighborhoods),
        P: Fn(Stage, &Neighborhoods) -> bool,
        M: Fn() -> Vec<LatticePoint>,

        requires
            forall|stage: Stage, index: &Neighborhoods|
                stage.is_single() && index.support_radius() == old(self).support_radius()
                    && index.points().len() == old(self).points().len() ==> #[trigger] call_requires(
                    stage_work,
                    (stage, index),
                ),
            forall|stage: Stage, index: &Neighborhoods|
                stage.is_correction() && index.support_radius() == old(self).support_radius()
                    && index.points().len() == old(self).points().len() ==> #[trigger] call_requires(
                    pass_work,
                    (stage, index),
                ),
            call_requires(moved_positions, ()),
        ensures
            final(self).points().len() == old(self).points().len(),
            final(self).support_radius() == old(self).support_radius(),
            final(self).iteration_bound() == old(self).iteration_bound(),
            old(self).current_stage() != Stage::Idle ==> report == Err::<StepReport, StepError>(
                StepError::StepInProgress,
            ) && *final(self) == *old(self),
            old(self).current_stage() == Stage::Idle ==> match report {
                Ok(r) => {
                    &&& final(self).current_stage() == Stage::Idle
                    &&& final(self).last_report() == Some(r)
                    &&& r.is_sound(old(self).iteration_bound())
                    &&& exists|moved: Vec<LatticePoint>|
                        call_ensures(moved_positions, (), moved) && final(self).points()
                            == moved@
                    &&& ran_up_to_integration(
                        stage_work,
                        pass_work,
                        old(self).points(),
                        old(self).support_radius(),
                        old(self).iteration_bound(),
                        r,
                    )
                    &&& ran_from_rebuild(
                        stage_work,
                        pass_work,
                        final(self).points(),
                        old(self).support_radius(),
                        old(self).iteration_bound(),
                        r,
                    )
                },
                Err(e) => {
                    &&& e == StepError::ParticleCountChanged
                    &&& final(self).current_stage() == Stage::NeighborhoodRebuild
                    &&& final(self).points() == old(self).points()
                    &&& final(self).last_report() == old(self).last_report()
                    &&& exists|moved: Vec<LatticePoint>|
                        call_ensures(moved_positions, (), moved) && moved@.len() != old(
                            self,
                        ).points().len()
                    &&& ran_up_to_integration(
                        stage_work,
                        pass_work,
                        old(self).points(),
                        old(self).support_radius(),
                        old(self).iteration_bound(),
                        final(self).progress(),
                    )
                },
            },
            old(self).current_stage() == Stage::Idle && (forall|moved: Vec<LatticePoint>|
                call_ensures(moved_positions, (), moved) ==> moved@.len() == old(
                    self,
                ).points().len()) ==> report.is_ok(),
    {
        match self.begin_step() {
            Ok(_) => {},
            Err(e) => {
                return Err(e);
            },
        }
        let ghost given = old(self).neighborhoods.points();
        let ghost radius = old(self).neighborhoods.support_radius();
        let ghost bound = old(self).max_iterations;
        let ghost mut rebuilt: Option<Vec<LatticePoint>> = None;
        let ghost mut density: Seq<bool> = Seq::empty();
        let ghost mut divergence: Seq<bool> = Seq::empty();
        proof {
            use_type_invariant(&*self);
        }
        while self.stage != Stage::Idle
            invariant
                forall|stage: Stage, index: &Neighborhoods|
                    stage.is_single() && index.support_radius() == radius && index.points().len()
                        == given.len() ==> #[trigger] call_requires(stage_work, (stage, index)),
                forall|stage: Stage, index: &Neighborhoods|
                    stage.is_correction() && index.support_radius() == radius
                        && index.points().len() == given.len() ==> #[trigger] call_requires(
                        pass_work,
                        (stage, index),
                    ),
                call_requires(moved_positions, ()),
                old(self).stage == Stage::Idle,
                given == old(self).neighborhoods.points(),
                radius == old(self).neighborhoods.support_radius(),
                bound == old(self).max_iterations,
                self.max_iterations == bound,
                self.neighborhoods.support_radius() == radius,
                self.neighborhoods.points().len() == given.len(),
                self.stage != Stage::Idle ==> self.last == old(self).last,
                self.stage == Stage::Idle ==> self.last == Some(self.progress),
                self.stage.ordinal() <= Stage::NeighborhoodRebuild.ordinal() && self.stage
                    != Stage::Idle ==> self.neighborhoods.points() == given,
                self.stage.ordinal() > Stage::NeighborhoodRebuild.ordinal() || self.stage
                    == Stage::Idle ==> (rebuilt matches Some(moved) && call_ensures(
                    moved_positions,
                    (),
                    moved,
                ) && self.neighborhoods.points() == moved@),
                self.stage.is_after(Stage::FactorUpdate) ==> stage_was_done(
                    stage_work,
                    Stage::FactorUpdate,
                    given,
                    radius,
                ),
                self.stage.is_after(Stage::TimestepAdaptation) ==> stage_was_done(
                    stage_work,
                    Stage::TimestepAdaptation,
                    given,
                    radius,
                ),
                self.stage.is_after(Stage::Advection) ==> stage_was_done(
                    stage_work,
                    Stage::Advection,
                    given,
                    radius,
                ),
                self.stage.is_after(Stage::PositionIntegration) ==> stage_was_done(
                    stage_work,
                    Stage::PositionIntegration,
                    given,
                    radius,
                ),
                self.stage.is_after(Stage::Commit) ==> stage_was_done(
                    stage_work,
                    Stage::Commit,
                    self.neighborhoods.points(),
                    radius,
                ),
                !self.stage.is_after(Stage::DensityCorrection) ==> density.len() == (if self.stage
                    == Stage::DensityCorrection {
                    self.passes as int
                } else {
                    0
                }) && loop_goes_on(
                    pass_work,
                    Stage::DensityCorrection,
                    given,
                    radius,
                    DENSITY_MIN_PASSES,
                    bound,
                    density,
                ),
                self.stage.is_after(Stage::DensityCorrection) ==> loop_ran(
                    pass_work,
                    Stage::DensityCorrection,
                    given,
                    radius,
                    DENSITY_MIN_PASSES,
                    bound,
                    density,
                ) && self.progress.density_passes == density.len()
                    && self.progress.density_converged == !density.last(),
                !self.stage.is_after(Stage::DivergenceCorrection) ==> divergence.len() == (
                if self.stage == Stage::DivergenceCorrection {
                    self.passes as int
                } else {
                    0
                }) && loop_goes_on(
                    pass_work,
                    Stage::DivergenceCorrection,
                    self.neighborhoods.points(),
                    radius,
                    DIVERGENCE_MIN_PASSES,
                    bound,
                    divergence,
                ),
                self.stage.is_after(Stage::DivergenceCorrection) ==> loop_ran(
                    pass_work,
                    Stage::DivergenceCorrection,
                    self.neighborhoods.points(),
                    radius,
                    DIVERGENCE_MIN_PASSES,
                    bound,
                    divergence,
                ) && self.progress.divergence_passes == divergence.len()
                    && self.progress.divergence_converged == !divergence.last(),
                self.well_formed(),
            decreases self.stage.remaining(), self.passes_left(),
        {
            proof {
                use_type_invariant(&*self);
            }
            let ghost stage = self.stage;
            let ghost points = self.neighborhoods.points();
            match self.stage {
                Stage::DensityCorrection | Stage::DivergenceCorrection => {
                    let exceeds: bool = pass_work(self.stage, &self.neighborhoods);
                    proof {
                        let index = &self.neighborhoods;
                        assert(call_ensures(pass_work, (stage, index), exceeds));
                        assert(pass_was_answered(pass_work, stage, points, radius, exceeds));
                    }
                    let ghost before = if stage == Stage::DensityCorrection {
                        density
                    } else {
                        divergence
                    };
                    let ghost minimum = if stage == Stage::DensityCorrection {
                        DENSITY_MIN_PASSES
                    } else {
                        DIVERGENCE_MIN_PASSES
                    };
                    let verdict = self.complete_pass(exceeds);
                    proof {
                        let after = before.push(exceeds);
                        assert forall|k: int| 0 <= k < after.len() implies pass_was_answered(
                            pass_work,
                            stage,
                            points,
                            radius,
                            #[trigger] after[k],
                        ) by {
                            if k < before.len() {
                                assert(after[k] == before[k]);
                            }
                        }
                        assert forall|k: int| 0 <= k < after.len() - 1 implies verdict_after(
                            (k + 1) as nat,
                            minimum,
                            bound,
                            #[trigger] after[k],
                        ) == Verdict::Continue by {
                            assert(after[k] == before[k]);
                        }
                        assert(after.last() == exceeds);
                        if self.stage != stage {
                            lemma_loop_stops_at_last_answer(minimum, bound, after, 0);
                        }
                        if stage == Stage::DensityCorrection {
                            density = after;
                        } else {
                            divergence = after;
                        }
                    }
                },
                Stage::NeighborhoodRebuild => {
                    let moved: Vec<LatticePoint> = moved_positions();
                    proof {
                        rebuilt = Some(moved);
                    }
                    match self.rebuild_neighborhoods(moved) {
                        Ok(_) => {},
                        Err(e) => {
                            return Err(e);
                        },
                    }
                },
                _ => {
                    stage_work(self.stage, &self.neighborhoods);
                    proof {
                        let index = &self.neighborhoods;
                        assert(call_ensures(stage_work, (stage, index), ()));
                        assert(stage_was_done(stage_work, stage, points, radius));
                    }
                    let _ = self.complete_stage();
                },
            }
            proof {
                use_type_invariant(&*self);
            }
        }
        Ok(self.progress)
    }

    /// Passes that the correction loop in progress may still run.
    spec fn passes_left(&self) -> int {
        if self.stage == Stage::DensityCorrection {
            pass_bound(DENSITY_MIN_PASSES, self.max_iterations) - self.passes
        } else if self.stage == Stage::DivergenceCorrection {
            pass_bound(DIVERGENCE_MIN_PASSES, self.max_iterations) - self.passes
        } else {
            0
        }
    }
}

/// Tells whether there is a particle at place `i` of the index that has no
/// other particle within the support radius.
pub fn particle_is_isolated(index: &Neighborhoods, i: usize) -> (isolated: bool)
    ensures
        isolated == (i < index.points().len() && is_isolated(
            index.points(),
            index.support_radius(),
            i as int,
        )),
{
    let ghost points = index.points();
    let ghost radius = index.support_radius();
    let position: LatticePoint = match index.position(i) {
        Some(p) => p,
        None => {
            return false;
        },
    };
    let neighbors: Vec<usize> = index.get_neighbors(position);
    let count: usize = index.len();
    proof {
        lemma_within_radius_reflexive(position, radius);
        assert(within_radius(points[i as int], position, radius));
        assert(neighbors@.contains(i));
        let own = choose|k: int| 0 <= k < neighbors@.len() && neighbors@[k] == i;
        if neighbors@.len() == 1 {
            assert forall|j: int| 0 <= j < points.len() && j != i implies !within_radius(
                #[trigger] points[j],
                points[i as int],
                radius,
            ) by {
                if within_radius(points[j], points[i as int], radius) {
                    assert(neighbors@.contains(j as usize));
                    let k = choose|k: int| 0 <= k < neighbors@.len() && neighbors@[k] == j as usize;
                    assert(k == own);
                }
            }
        } else {
            let other = if own == 0 {
                1int
            } else {
                0int
            };
            let j = neighbors@[other];
            assert(j != i);
            assert(within_radius(points[j as int], points[i as int], radius));
        }
    }
    neighbors.len() == 1
}

} // verus!
