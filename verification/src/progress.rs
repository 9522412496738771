use vstd::prelude::*;

use crate::primitives::Status;

verus! {

/// What the progress updater decides for a user who just passed a test:
/// the new status and step counter to write, and whether the leaderboard
/// score moves.
pub struct ProgressUpdate {
    pub new_status: Status,
    pub new_step: i64,
    pub bump_leaderboard: bool,
}

/// Advances a user's challenge progress by one step, as a side effect of a
/// successful test result.
///
/// A challenge already completed stays exactly as it is. Otherwise the step
/// counter grows by one; reaching the challenge's module count completes the
/// challenge. The leaderboard score is raised only while the challenge is
/// still in progress, not on the completing step.
pub fn update_progress(status: Status, current_step: i64, module_count: i64) -> (r: ProgressUpdate)
    requires
        current_step < i64::MAX,
    ensures
        status == Status::Completed ==> r == (ProgressUpdate {
            new_status: Status::Completed,
            new_step: current_step,
            bump_leaderboard: false,
        }),
        status != Status::Completed && current_step + 1 == module_count ==> r == (ProgressUpdate {
            new_status: Status::Completed,
            new_step: (current_step + 1) as i64,
            bump_leaderboard: false,
        }),
        status != Status::Completed && current_step + 1 != module_count ==> r == (ProgressUpdate {
            new_status: Status::InProgress,
            new_step: (current_step + 1) as i64,
            bump_leaderboard: true,
        }),
{
    match status {
        Status::Completed => ProgressUpdate {
            new_status: Status::Completed,
            new_step: current_step,
            bump_leaderboard: false,
        },
        _ => {
            let new_step = current_step + 1;
            if new_step == module_count {
                ProgressUpdate {
                    new_status: Status::Completed,
                    new_step,
                    bump_leaderboard: false,
                }
            } else {
                ProgressUpdate { new_status: Status::InProgress, new_step, bump_leaderboard: true }
            }
        },
    }
}

/// The new leaderboard score after one completed step: one more point,
/// saturating at the top of the range rather than wrapping.
pub fn next_score(score: i64) -> (r: i64)
    ensures
        score < i64::MAX ==> r == score + 1,
        score == i64::MAX ==> r == score,
{
    if score < i64::MAX {
        score + 1
    } else {
        score
    }
}

} // verus!
