use vstd::prelude::*;

verus! {

/// A kind of stored data, named in "not found" errors.
pub trait Entity {
    const ETYPE: &'static str;
}

/// The errors that the game rules themselves can raise.
#[derive(Debug, Clone, Copy)]
pub enum InternalError {
    /// A player tried to perform a restricted operation
    AccessDenied,
    /// A required data does not exist
    NotFound(&'static str),
    /// The requested operation conflicts with data
    Conflict,
    /// A player already in a lobby tries to create a lobby
    AlreadyInLobby,
    /// A player wants to modify a lobby its not in
    NotInLobby,
    /// A player wants to move a fleet to an invalid location
    FleetInvalidDestination,
    /// A player wants to move a fleet which is already on a journey
    FleetAlreadyTravelling,
    /// A player tried to move an empty fleet
    FleetEmpty,
    /// A player tried to take a username already taken by another in the same lobby
    PlayerUsernameAlreadyTaken,
    /// A Claims was requested by the route but none were given
    NoAuthorizationGiven,
    /// A player tried to spend an unauthorized amount of money
    NotEnoughMoney,
    /// A player without a faction did what takes one
    FactionUnknown,
    /// A game has no server running it
    GameUnknown,
    /// A lobby has no server running it
    LobbyUnknown,
    /// No system is left where one was needed
    SystemUnknown,
    /// A player is not connected to the server
    PlayerUnknown,
    /// An identifier kept in the data cannot be read
    MalformedIdentifier,
}

/// The HTTP status that answers a request refused with `e`.
pub open spec fn spec_status_code(e: InternalError) -> u16 {
    match e {
        InternalError::NoAuthorizationGiven => 401,
        InternalError::AccessDenied => 403,
        InternalError::NotFound(_) => 404,
        InternalError::FactionUnknown
        | InternalError::GameUnknown
        | InternalError::LobbyUnknown
        | InternalError::SystemUnknown
        | InternalError::PlayerUnknown
        | InternalError::MalformedIdentifier => 500,
        _ => 409,
    }
}

impl InternalError {
    /// The HTTP status that answers a request refused with this error:
    /// unauthorized, forbidden, not found, a conflict with the data, or,
    /// for the errors that a request cannot cause, an internal error.
    pub fn status_code(&self) -> (code: u16)
        ensures
            code == spec_status_code(*self),
    {
        match self {
            InternalError::NoAuthorizationGiven => 401,
            InternalError::AccessDenied => 403,
            InternalError::NotFound(_) => 404,
            InternalError::Conflict
            | InternalError::AlreadyInLobby
            | InternalError::NotInLobby
            | InternalError::NotEnoughMoney
            | InternalError::FleetInvalidDestination
            | InternalError::FleetAlreadyTravelling
            | InternalError::FleetEmpty
            | InternalError::PlayerUsernameAlreadyTaken => 409,
            InternalError::FactionUnknown
            | InternalError::GameUnknown
            | InternalError::LobbyUnknown
            | InternalError::SystemUnknown
            | InternalError::PlayerUnknown
            | InternalError::MalformedIdentifier => 500,
        }
    }

    pub fn not_found<T: Entity>(_entity: &T) -> (e: Self)
        ensures
            e == InternalError::NotFound(T::ETYPE),
    {
        Self::NotFound(T::ETYPE)
    }
}

} // verus!
