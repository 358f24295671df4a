//! The stages of a match and the span of elapsed seconds each of them owns.

use crate::game_stage_interval::GameStageInterval;
use vstd::prelude::*;

verus! {

/// A named stretch of a match.
#[derive(Clone, Copy, Debug, PartialEq, Eq, Structural)]
pub enum GameStage {
    Start,
    Early,
    MidAndLate,
}

impl GameStage {
    /// The stage a match is in after `seconds` seconds. Every moment has one
    /// stage; whatever lies past the early stage belongs to the last one,
    /// however late it is.
    pub open spec fn at(seconds: int) -> GameStage {
        if seconds <= 90 {
            GameStage::Start
        } else if seconds <= 840 {
            GameStage::Early
        } else {
            GameStage::MidAndLate
        }
    }

    /// The span of elapsed seconds that the stage owns.
    pub open spec fn interval(self) -> GameStageInterval {
        match self {
            GameStage::Start => GameStageInterval { start_timestamp: 0, end_timestamp: 90 },
            GameStage::Early => GameStageInterval { start_timestamp: 91, end_timestamp: 840 },
            GameStage::MidAndLate => GameStageInterval {
                start_timestamp: 841,
                end_timestamp: 3600,
            },
        }
    }

    /// Classifies a number of elapsed seconds.
    pub fn from(seconds: u64) -> (stage: Self)
        ensures
            stage == Self::at(seconds as int),
    {
        if seconds <= 90 {
            Self::Start
        } else if seconds <= 840 {
            Self::Early
        } else {
            Self::MidAndLate
        }
    }

    /// The interval of the stage.
    pub fn to_interval(&self) -> (interval: GameStageInterval)
        ensures
            interval == self.interval(),
            interval.wf(),
    {
        match self {
            GameStage::Start => GameStageInterval { start_timestamp: 0, end_timestamp: 90 },
            GameStage::Early => GameStageInterval { start_timestamp: 91, end_timestamp: 840 },
            GameStage::MidAndLate => GameStageInterval {
                start_timestamp: 841,
                end_timestamp: 3600,
            },
        }
    }
}

/// The intervals of the stages split the time up to the end of the last one
/// without gap or overlap: a moment of that span lies in the interval of the
/// stage it is classified to, and in no other.
pub proof fn lemma_stage_intervals_partition(seconds: int, stage: GameStage)
    requires
        0 <= seconds <= GameStage::MidAndLate.interval().end_timestamp,
    ensures
        stage.interval().contains(seconds) <==> stage == GameStage::at(seconds),
{
}

/// Each interval begins one second after the one before it ends, the first
/// begins at zero, and none is empty.
pub proof fn lemma_stage_intervals_contiguous()
    ensures
        GameStage::Start.interval().start_timestamp == 0,
        GameStage::Early.interval().start_timestamp == GameStage::Start.interval().end_timestamp
            + 1,
        GameStage::MidAndLate.interval().start_timestamp
            == GameStage::Early.interval().end_timestamp + 1,
        GameStage::Start.interval().wf(),
        GameStage::Early.interval().wf(),
        GameStage::MidAndLate.interval().wf(),
{
}

/// Time never runs out of stages: whatever follows the early stage, also past
/// the end of the last interval, is classified to the last stage.
pub proof fn lemma_late_moments_belong_to_last_stage(seconds: int)
    requires
        seconds > GameStage::Early.interval().end_timestamp,
    ensures
        GameStage::at(seconds) == GameStage::MidAndLate,
{
}

} // verus!
