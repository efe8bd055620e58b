use vstd::prelude::*;

verus! {

/// Tokens representing the type of WS message sent to notify a player.
#[derive(Debug, Clone, Copy, PartialEq, Eq, Structural)]
#[non_exhaustive]
pub enum Action {
    BuildingConstructed,
    BattleStarted,
    BattleEnded,
    ConquestCancelled,
    ConquestStarted,
    ConquestUpdated,
    FactionPointsUpdated,
    FleetCreated,
    FleetArrived,
    FleetSailed,
    FleetTransfer,
    FleetJoinedBattle,
    GameStarted,
    LobbyCreated,
    LobbyOptionsUpdated,
    LobbyOwnerUpdated,
    LobbyNameUpdated,
    LobbyRemoved,
    LobbyLaunched,
    NewChatMessage,
    PlayerConnected,
    PlayerJoined,
    PlayerUpdate,
    PlayerMoneyTransfer,
    PlayerLeft,
    PlayerDisconnected,
    PlayerIncome,
    ShipQueueFinished,
    SystemConquerred,
    SystemsCreated,
    Victory,
}

} // verus!
