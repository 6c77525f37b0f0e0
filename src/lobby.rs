use vstd::prelude::*;

verus! {

/// Where a lobby stands on its way to a game.
#[derive(Debug, Clone, Copy, PartialEq, Eq, Structural)]
pub enum LobbyStatus {
    Waiting,
    Starting,
    Ongoing,
}

impl LobbyStatus {
    /// A new lobby waits for an opponent.
    pub fn new() -> (r: LobbyStatus)
        ensures
            r == LobbyStatus::Waiting,
    {
        LobbyStatus::Waiting
    }

    /// Another player may still join.
    pub fn is_open(&self) -> (r: bool)
        ensures
            r == (*self == LobbyStatus::Waiting),
    {
        match self {
            LobbyStatus::Waiting => true,
            _ => false,
        }
    }

    pub fn is_closed(&self) -> (r: bool)
        ensures
            r == (*self != LobbyStatus::Waiting),
    {
        !self.is_open()
    }
}

/// The side a player would like to play.
#[derive(Debug, Clone, Copy, PartialEq, Eq, Structural)]
pub enum TeamPreference {
    Blue,
    Either,
    Red,
}

impl Default for TeamPreference {
    fn default() -> (r: TeamPreference)
        ensures
            r == TeamPreference::Either,
    {
        TeamPreference::Either
    }
}

/// The two wishes leave the seats to chance: both open, or both the same side.
pub open spec fn wishes_clash(host: TeamPreference, guest: TeamPreference) -> bool {
    host == guest
}

/// Whether the guest plays Blue, given the two wishes and, where they clash, a coin.
/// A player who names a side gets it unless the other names the same one.
pub open spec fn guest_plays_blue(host: TeamPreference, guest: TeamPreference, coin: bool) -> bool {
    if wishes_clash(host, guest) {
        coin
    } else {
        host == TeamPreference::Red || guest == TeamPreference::Blue
    }
}

/// Whether the guest plays Blue, given the two wishes and a coin for a clash.
pub fn seats_swapped(teams: [TeamPreference; 2], coin: bool) -> (r: bool)
    ensures
        r == guest_plays_blue(teams@[0], teams@[1], coin),
{
    let host = teams[0];
    let guest = teams[1];
    match (host, guest) {
        (TeamPreference::Either, TeamPreference::Either)
        | (TeamPreference::Blue, TeamPreference::Blue)
        | (TeamPreference::Red, TeamPreference::Red) => coin,
        (TeamPreference::Red, _) | (_, TeamPreference::Blue) => true,
        _ => false,
    }
}

/// Relies on `rand::random::<bool>`: a coin from the thread's generator. Nothing is
/// known of the value.
#[verifier::external_body]
fn coin_toss() -> bool {
    rand::random::<bool>()
}

/// Decides the seats for the host (`teams[0]`) and the guest (`teams[1]`): `true` when
/// the guest plays Blue. The coin is tossed only when the wishes clash.
pub fn assign_seats(teams: [TeamPreference; 2]) -> (r: bool)
    ensures
        !wishes_clash(teams@[0], teams@[1]) ==> r == guest_plays_blue(teams@[0], teams@[1], false),
{
    let coin = if teams[0] == teams[1] {
        coin_toss()
    } else {
        false
    };
    seats_swapped(teams, coin)
}

} // verus!
