use vstd::prelude::*;
use crate::util::error::InternalError;
use crate::util::time::Time;
use crate::game::player::{Player, same_but_wallet};
use crate::game::ship::model::{ShipModelCategory, spec_ship_model};
use crate::game::system::system::SystemID;
use crate::game::fleet::fleet::FleetID;
use crate::game::fleet::formation::{FleetFormation, lemma_formation_names, spec_formation_name, spec_formation_named};
use crate::util::uuid::{spec_hyphenated, spec_hex_digit, spec_nibble, parsed_uuid, uuid_to_string, parse_uuid};
use vstd::string::{StrSliceExecFns, StringExecFns};

verus! {

#[derive(Debug, Clone, Copy, PartialEq, Eq, Hash, Structural)]
pub struct ShipQueueID(pub u128);

/// Ships of one category under construction in a system. When the ships are
/// meant for a fleet, `assigned_fleet` names it and the formation they join.
#[derive(Debug, Clone)]
pub struct ShipQueue {
    pub id: ShipQueueID,
    pub system: SystemID,
    pub category: ShipModelCategory,
    pub quantity: u16,
    pub assigned_fleet: Option<String>,
    pub created_at: Time,
    pub started_at: Time,
    pub finished_at: Time,
}

/// A request for ships of a category.
#[derive(Debug, Clone, Copy, PartialEq, Eq, Structural)]
pub struct ShipQuantityData {
    pub category: ShipModelCategory,
    pub quantity: usize,
}

/// How many of the `quantity` requested ships of a model costing `cost` are
/// put in production for a player holding `wallet`: all of them, or, when
/// only affordable ships are wanted, as many as the wallet pays for (counted
/// as a `u16`), and none at all when it pays for none.
pub open spec fn spec_scheduled_quantity(wallet: usize, cost: u16, quantity: u16, only_affordable: bool) -> Option<u16> {
    if only_affordable {
        let affordable = (wallet / (cost as usize)) as u16;
        if affordable < 1 {
            None
        } else if affordable < quantity {
            Some(affordable)
        } else {
            Some(quantity)
        }
    } else {
        Some(quantity)
    }
}

/// Never more ships are scheduled than were requested: all of them when the
/// wallet pays for all (and, when only affordable ships are wanted, holds
/// the price of at most 65535 ships, as the count is kept in a `u16`), and
/// otherwise, when only affordable ships are wanted, no more than the wallet
/// pays for, and none when it cannot pay for one.
pub proof fn lemma_scheduled_quantity(wallet: usize, cost: u16, quantity: u16, only_affordable: bool)
    requires
        cost > 0,
    ensures
        spec_scheduled_quantity(wallet, cost, quantity, only_affordable) matches Some(q) ==> q <= quantity,
        !only_affordable ==> spec_scheduled_quantity(wallet, cost, quantity, only_affordable) == Some(quantity),
        only_affordable ==> (spec_scheduled_quantity(wallet, cost, quantity, only_affordable) matches Some(q) ==> cost
            * q <= wallet),
        only_affordable && wallet < cost ==> spec_scheduled_quantity(wallet, cost, quantity, only_affordable) is None,
        1 <= quantity && cost * quantity <= wallet && wallet / (cost as usize) <= u16::MAX ==> spec_scheduled_quantity(
            wallet,
            cost,
            quantity,
            only_affordable,
        ) == Some(quantity),
{
    let a: usize = wallet / (cost as usize);
    let t: u16 = a as u16;
    assert(t <= a && (a <= u16::MAX ==> t == a)) by (bit_vector)
        requires
            t == a as u16,
    ;
    assert(cost * a <= wallet) by (nonlinear_arith)
        requires
            a == wallet / (cost as usize),
            cost > 0,
    ;
    if 1 <= quantity && cost * quantity <= wallet {
        assert(quantity <= a) by (nonlinear_arith)
            requires
                a == wallet / (cost as usize),
                cost > 0,
                cost * quantity <= wallet,
        ;
    }
    if wallet < cost {
        assert(a == 0) by (nonlinear_arith)
            requires
                a == wallet / (cost as usize),
                wallet < cost,
        ;
    }
    if only_affordable {
        if let Some(q) = spec_scheduled_quantity(wallet, cost, quantity, only_affordable) {
            assert(cost * q <= cost * a) by (nonlinear_arith)
                requires
                    q <= a,
                    cost > 0,
            ;
        }
    }
}

impl ShipQueue {
    /// Decides how many ships of `category` a player puts in production and
    /// makes the player pay for them. Production needs a shipyard in the
    /// system (a conflict otherwise); the player pays `cost * quantity` and
    /// production fails, with nothing paid, when the wallet is short.
    pub fn plan_schedule(
        player: &mut Player,
        has_shipyard: bool,
        category: ShipModelCategory,
        quantity: u16,
        only_affordable: bool,
    ) -> (r: Result<Option<u16>, InternalError>)
        ensures
            same_but_wallet(*final(player), *old(player)),
            !has_shipyard ==> (r matches Err(e) && e is Conflict && final(player).wallet == old(player).wallet),
            has_shipyard ==> {
                let cost = spec_ship_model(category).cost;
                match spec_scheduled_quantity(old(player).wallet, cost, quantity, only_affordable) {
                    None => r == Ok::<Option<u16>, InternalError>(None) && final(player).wallet == old(player).wallet,
                    Some(q) => if cost * q <= old(player).wallet {
                        r == Ok::<Option<u16>, InternalError>(Some(q)) && final(player).wallet == old(player).wallet - cost * q
                    } else {
                        r matches Err(e) && e is NotEnoughMoney && final(player).wallet == old(player).wallet
                    },
                }
            },
            r matches Ok(Some(q)) ==> q <= quantity && final(player).wallet == old(player).wallet - spec_ship_model(
                category,
            ).cost * q,
            has_shipyard && 1 <= quantity && spec_ship_model(category).cost * quantity <= old(player).wallet
                && old(player).wallet / (spec_ship_model(category).cost as usize) <= u16::MAX ==> r == Ok::<
                Option<u16>,
                InternalError,
            >(Some(quantity)),
    {
        proof {
            lemma_scheduled_quantity(player.wallet, spec_ship_model(category).cost, quantity, only_affordable);
        }
        if !has_shipyard {
            return Err(InternalError::Conflict);
        }
        let ship_model = category.to_data();
        let mut quantity = quantity;
        if only_affordable {
            let affordable = #[verifier::truncate] ((player.wallet / ship_model.cost as usize) as u16);
            if affordable < 1 {
                return Ok(None);
            } else if affordable < quantity {
                quantity = affordable;
            }
        }
        assert(ship_model.cost as usize * quantity as usize <= 600 * 65535) by (nonlinear_arith)
            requires
                ship_model.cost <= 600,
                quantity <= 65535,
        ;
        let price = ship_model.cost as usize * quantity as usize;
        match player.spend(price) {
            Ok(()) => Ok(Some(quantity)),
            Err(e) => Err(e),
        }
    }
}

/// The text of `s` up to its first colon, or all of it when it has none.
pub open spec fn spec_first_field(s: Seq<char>) -> Seq<char>
    decreases s.len(),
{
    if s.len() == 0 {
        s
    } else if s[0] == ':' {
        Seq::empty()
    } else {
        seq![s[0]] + spec_first_field(s.drop_first())
    }
}

/// The key naming the fleet and formation that ships in production are
/// meant for: the fleet's hyphenated identifier, a colon, the formation's
/// name.
pub open spec fn spec_fleet_key(fleet: FleetID, formation: FleetFormation) -> Seq<char> {
    spec_hyphenated(fleet.0) + ":"@ + spec_formation_name(formation)
}

/// What a fleet key names: its first field read as an identifier, its
/// second as a formation. A first field that is no identifier is a fault of
/// the stored data; a second that names no formation is a conflict.
pub open spec fn spec_parse_fleet_key(s: Seq<char>) -> Result<(FleetID, FleetFormation), InternalError> {
    let head = spec_first_field(s);
    let tail = spec_first_field(s.skip(head.len() + 1int));
    match parsed_uuid(head) {
        None => Err(InternalError::MalformedIdentifier),
        Some(v) => match spec_formation_named(tail) {
            Some(f) => Ok((FleetID(v), f)),
            None => Err(InternalError::Conflict),
        },
    }
}

proof fn lemma_first_field(s: Seq<char>, p: int)
    requires
        0 <= p <= s.len(),
        forall|q: int| 0 <= q < p ==> s[q] != ':',
        p < s.len() ==> s[p] == ':',
    ensures
        spec_first_field(s) == s.take(p),
    decreases s.len(),
{
    if s.len() > 0 && p > 0 {
        lemma_first_field(s.drop_first(), p - 1);
        assert(seq![s[0]] + s.drop_first().take(p - 1) =~= s.take(p));
    } else if s.len() > 0 {
        assert(s.take(p) =~= Seq::<char>::empty());
    }
}

proof fn lemma_hyphenated_no_colon(v: u128)
    ensures
        spec_hyphenated(v).len() == 36,
        forall|i: int| 0 <= i < 36 ==> #[trigger] spec_hyphenated(v)[i] != ':',
{
    assert forall|i: int| 0 <= i < 36 implies #[trigger] spec_hyphenated(v)[i] != ':' by {
        if !(i == 8 || i == 13 || i == 18 || i == 23) {
            let n = i - if i < 8 {
                0int
            } else if i < 13 {
                1int
            } else if i < 18 {
                2int
            } else if i < 23 {
                3int
            } else {
                4int
            };
            let x = v >> ((124 - 4 * n) as u128);
            assert(x & 0xfu128 < 16u128) by (bit_vector);
            assert(spec_nibble(v, n) == (x & 0xfu128) as int);
            let d = spec_nibble(v, n);
            assert(0 <= d < 16);
            assert(spec_hex_digit(d) != ':');
        }
    }
}

/// The key of the fleet and formation that ships in production are meant
/// for, which reads back as that fleet and formation.
pub fn assigned_fleet_key(fleet: FleetID, formation: FleetFormation) -> (k: String)
    ensures
        k@ == spec_fleet_key(fleet, formation),
        spec_parse_fleet_key(k@) == Ok::<(FleetID, FleetFormation), InternalError>((fleet, formation)),
{
    let mut k = uuid_to_string(fleet.0);
    let ghost head = k@;
    k.append(":");
    k.append(formation.name());
    proof {
        reveal_strlit(":");
        lemma_hyphenated_no_colon(fleet.0);
        lemma_formation_names(formation, formation);
        let name = spec_formation_name(formation);
        assert(k@ =~= spec_fleet_key(fleet, formation));
        lemma_first_field(k@, 36);
        assert(k@.take(36) =~= head);
        assert(k@.skip(37) =~= name);
        lemma_first_field(name, name.len() as int);
        assert(name.take(name.len() as int) =~= name);
    }
    k
}

/// Reads the fleet and formation from a key (see `spec_parse_fleet_key`).
pub fn parse_fleet_key(key: &str) -> (r: Result<(FleetID, FleetFormation), InternalError>)
    requires
        key@.contains(':'),
    ensures
        r == spec_parse_fleet_key(key@),
{
    let n = key.unicode_len();
    let mut p: usize = 0;
    while p < n && key.get_char(p) != ':'
        invariant
            n == key@.len(),
            p <= n,
            forall|q: int| 0 <= q < p ==> key@[q] != ':',
        decreases n - p,
    {
        p = p + 1;
    }
    proof {
        lemma_first_field(key@, p as int);
        if p == n {
            let w = choose|w: int| 0 <= w < key@.len() && key@[w] == ':';
            assert(false);
        }
    }
    let head = key.substring_char(0, p);
    let mut q: usize = p + 1;
    while q < n && key.get_char(q) != ':'
        invariant
            n == key@.len(),
            p < n,
            p + 1 <= q <= n,
            forall|m: int| p + 1 <= m < q ==> key@[m] != ':',
        decreases n - q,
    {
        q = q + 1;
    }
    let tail = key.substring_char(p + 1, q);
    proof {
        assert(head@ =~= key@.take(p as int));
        let rest = key@.skip(p + 1);
        lemma_first_field(rest, q - p - 1);
        assert(rest.take(q - p - 1) =~= tail@);
    }
    match parse_uuid(head) {
        None => Err(InternalError::MalformedIdentifier),
        Some(v) => {
            match FleetFormation::parse(tail) {
                Ok(f) => {
                    proof {
                        lemma_formation_names(f, f);
                    }
                    Ok((FleetID(v), f))
                },
                Err(e) => {
                    proof {
                        lemma_formation_names(FleetFormation::Left, FleetFormation::Left);
                        assert(spec_formation_named(tail@) is None);
                    }
                    Err(e)
                },
            }
        },
    }
}

impl ShipQueue {
    /// Where the ships go once built: to the squadrons of their system when
    /// the queue names no fleet, else to the fleet and formation its key
    /// names, refused as `spec_parse_fleet_key` says when it cannot be read.
    pub fn destination(&self) -> (r: Result<Option<(FleetID, FleetFormation)>, InternalError>)
        requires
            self.assigned_fleet matches Some(k) ==> k@.contains(':'),
        ensures
            match self.assigned_fleet {
                None => r == Ok::<Option<(FleetID, FleetFormation)>, InternalError>(None),
                Some(k) => match spec_parse_fleet_key(k@) {
                    Ok(d) => r == Ok::<Option<(FleetID, FleetFormation)>, InternalError>(Some(d)),
                    Err(e) => r == Err::<Option<(FleetID, FleetFormation)>, InternalError>(e),
                },
            },
    {
        match &self.assigned_fleet {
            None => Ok(None),
            Some(k) => match parse_fleet_key(k.as_str()) {
                Ok(d) => Ok(Some(d)),
                Err(e) => Err(e),
            },
        }
    }
}

} // verus!
