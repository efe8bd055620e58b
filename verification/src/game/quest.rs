use vstd::prelude::*;
use crate::game::player::PlayerID;

verus! {

#[derive(Debug, Clone, Copy, PartialEq, Eq, Hash, Structural)]
pub struct QuestID(u128);

#[derive(Debug, Clone, Copy, PartialEq, Eq, Structural)]
pub enum QuestKind {
    FleetCreation,
    Conquest,
}

#[derive(Debug, Clone, Copy, PartialEq, Eq, Structural)]
pub enum QuestRewardKind {
    Money,
}

#[derive(Debug, Clone, Copy, PartialEq, Eq, Structural)]
pub struct QuestReward {
    pub kind: QuestRewardKind,
    pub amount: i32,
}

#[derive(Debug, Clone, Copy, PartialEq, Eq, Structural)]
pub struct Quest {
    pub id: QuestID,
    pub player: PlayerID,
    pub giver: Option<PlayerID>,
    pub kind: QuestKind,
    pub reward: QuestReward,
}

} // verus!
