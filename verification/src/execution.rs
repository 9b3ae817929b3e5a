//! Carrying out a plan of the snapshot manager: its commands in order, then
//! the snapshot record when the plan changes it, then its log line. The
//! first step that fails ends the plan; nothing after it is done.
use vstd::prelude::*;

verus! {

/// Where carrying out a plan stands: the step that comes next, or the end.
#[derive(Debug, Clone, Copy, PartialEq, Eq, Structural)]
pub enum Stage {
    /// The command at this position of the plan's list runs next.
    Command(usize),
    /// The snapshot record is written next.
    Record,
    /// The log line is written next.
    Log,
    /// Every step succeeded.
    Finished,
    /// A step failed; nothing more is done.
    Stopped,
}

/// The first step of a plan with `n_commands` commands, which writes the
/// snapshot record when `writes_record`.
pub open spec fn start(n_commands: nat, writes_record: bool) -> Stage {
    if n_commands > 0 {
        Stage::Command(0)
    } else if writes_record {
        Stage::Record
    } else {
        Stage::Log
    }
}

/// The stage after the step of `stage` succeeded (`ok`) or failed.
pub open spec fn next_stage(stage: Stage, n_commands: nat, writes_record: bool, ok: bool) -> Stage {
    match stage {
        Stage::Command(i) => if !ok {
            Stage::Stopped
        } else if i + 1 < n_commands {
            Stage::Command((i + 1) as usize)
        } else if writes_record {
            Stage::Record
        } else {
            Stage::Log
        },
        Stage::Record => if ok {
            Stage::Log
        } else {
            Stage::Stopped
        },
        Stage::Log => if ok {
            Stage::Finished
        } else {
            Stage::Stopped
        },
        Stage::Finished => Stage::Finished,
        Stage::Stopped => Stage::Stopped,
    }
}

/// The stage reached from the start after steps with these outcomes.
pub open spec fn stage_after(n_commands: nat, writes_record: bool, outcomes: Seq<bool>) -> Stage
    decreases outcomes.len(),
{
    if outcomes.len() == 0 {
        start(n_commands, writes_record)
    } else {
        next_stage(
            stage_after(n_commands, writes_record, outcomes.drop_last()),
            n_commands,
            writes_record,
            outcomes.last(),
        )
    }
}

/// How many steps a plan has: its commands, the record when it writes
/// one, and the log line.
pub open spec fn step_count(n_commands: nat, writes_record: bool) -> nat {
    n_commands + (if writes_record { 1nat } else { 0nat }) + 1
}

/// The stage after `k` steps that all succeeded: the commands in order,
/// then the record, then the log line, then the end.
pub open spec fn stage_after_successes(n_commands: nat, writes_record: bool, k: nat) -> Stage {
    if k < n_commands {
        Stage::Command(k as usize)
    } else if k == n_commands && writes_record {
        Stage::Record
    } else if k + 1 == step_count(n_commands, writes_record) {
        Stage::Log
    } else {
        Stage::Finished
    }
}

/// The first step of a plan.
pub fn first_stage(n_commands: usize, writes_record: bool) -> (s: Stage)
    ensures
        s == start(n_commands as nat, writes_record),
{
    if n_commands > 0 {
        Stage::Command(0)
    } else if writes_record {
        Stage::Record
    } else {
        Stage::Log
    }
}

/// The stage after the step of `stage` succeeded (`ok`) or failed.
pub fn advance(stage: Stage, n_commands: usize, writes_record: bool, ok: bool) -> (s: Stage)
    ensures
        s == next_stage(stage, n_commands as nat, writes_record, ok),
{
    match stage {
        Stage::Command(i) => {
            if !ok {
                Stage::Stopped
            } else if n_commands > 0 && i < n_commands - 1 {
                Stage::Command(i + 1)
            } else if writes_record {
                Stage::Record
            } else {
                Stage::Log
            }
        },
        Stage::Record => if ok {
            Stage::Log
        } else {
            Stage::Stopped
        },
        Stage::Log => if ok {
            Stage::Finished
        } else {
            Stage::Stopped
        },
        Stage::Finished => Stage::Finished,
        Stage::Stopped => Stage::Stopped,
    }
}

proof fn lemma_prefix_of_successes(n: nat, wr: bool, outcomes: Seq<bool>, k: nat)
    requires
        n <= usize::MAX,
        k <= outcomes.len(),
        forall|j: int| 0 <= j < k ==> #[trigger] outcomes[j],
    ensures
        stage_after(n, wr, outcomes.take(k as int)) == stage_after_successes(n, wr, k),
    decreases k,
{
    if k > 0 {
        lemma_prefix_of_successes(n, wr, outcomes, (k - 1) as nat);
        assert(outcomes.take(k as int).drop_last() =~= outcomes.take(k - 1));
        assert(outcomes.take(k as int).last() == outcomes[k - 1]);
    }
}

/// Steps that all succeed go through the commands in order, then the
/// record when the plan writes one, then the log line, and finish.
pub proof fn lemma_successes_finish(n: nat, wr: bool, outcomes: Seq<bool>)
    requires
        n <= usize::MAX,
        forall|j: int| 0 <= j < outcomes.len() ==> #[trigger] outcomes[j],
    ensures
        forall|k: nat| k <= outcomes.len() ==> #[trigger] stage_after(n, wr, outcomes.take(k as int))
            == stage_after_successes(n, wr, k),
        outcomes.len() >= step_count(n, wr) ==> stage_after(n, wr, outcomes) == Stage::Finished,
{
    assert forall|k: nat| k <= outcomes.len() implies #[trigger] stage_after(
        n,
        wr,
        outcomes.take(k as int),
    ) == stage_after_successes(n, wr, k) by {
        lemma_prefix_of_successes(n, wr, outcomes, k);
    }
    assert(outcomes.take(outcomes.len() as int) =~= outcomes);
}

proof fn lemma_stopped_stays(n: nat, wr: bool, outcomes: Seq<bool>, f: nat, k: nat)
    requires
        f < k <= outcomes.len(),
        stage_after(n, wr, outcomes.take(f + 1int)) == Stage::Stopped,
    ensures
        stage_after(n, wr, outcomes.take(k as int)) == Stage::Stopped,
    decreases k,
{
    if k > f + 1 {
        lemma_stopped_stays(n, wr, outcomes, f, (k - 1) as nat);
        assert(outcomes.take(k as int).drop_last() =~= outcomes.take(k - 1));
    }
}

/// A plan stops at its first failed step. When step `f` fails and every
/// step before it succeeded, the steps done are the first `f + 1` of the
/// order above and the plan ends stopped: after a failed command no other
/// command runs and neither the record nor the log line is written.
pub proof fn lemma_stops_at_first_failure(n: nat, wr: bool, outcomes: Seq<bool>, f: nat)
    requires
        n <= usize::MAX,
        f < outcomes.len(),
        f < step_count(n, wr),
        !outcomes[f as int],
        forall|j: int| 0 <= j < f ==> #[trigger] outcomes[j],
    ensures
        forall|k: nat| k <= f ==> #[trigger] stage_after(n, wr, outcomes.take(k as int))
            == stage_after_successes(n, wr, k),
        forall|k: nat| f < k <= outcomes.len() ==> #[trigger] stage_after(
            n,
            wr,
            outcomes.take(k as int),
        ) == Stage::Stopped,
        stage_after(n, wr, outcomes) == Stage::Stopped,
        f < n ==> forall|k: nat| k <= outcomes.len() ==> {
            let s = #[trigger] stage_after(n, wr, outcomes.take(k as int));
            s != Stage::Record && s != Stage::Log && (s matches Stage::Command(i) ==> i <= f)
        },
{
    assert forall|k: nat| k <= f implies #[trigger] stage_after(n, wr, outcomes.take(k as int))
        == stage_after_successes(n, wr, k) by {
        lemma_prefix_of_successes(n, wr, outcomes, k);
    }
    lemma_prefix_of_successes(n, wr, outcomes, f);
    assert(outcomes.take(f + 1int).drop_last() =~= outcomes.take(f as int));
    assert(outcomes.take(f + 1int).last() == outcomes[f as int]);
    assert(stage_after(n, wr, outcomes.take(f + 1int)) == Stage::Stopped);
    assert forall|k: nat| f < k <= outcomes.len() implies #[trigger] stage_after(
        n,
        wr,
        outcomes.take(k as int),
    ) == Stage::Stopped by {
        lemma_stopped_stays(n, wr, outcomes, f, k);
    }
    assert(outcomes.take(outcomes.len() as int) =~= outcomes);
    assert(stage_after(n, wr, outcomes.take(outcomes.len() as int)) == Stage::Stopped);
}

} // verus!
