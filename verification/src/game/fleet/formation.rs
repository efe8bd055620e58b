use vstd::prelude::*;
use crate::util::error::InternalError;
use crate::util::text::str_eq;

verus! {

/// The position a squadron holds inside its fleet.
#[derive(Debug, Clone, Copy, PartialEq, Eq, Hash, Structural)]
pub enum FleetFormation {
    Left,
    Center,
    Right,
    Rear,
}

/// The order in which a squadron at `f` looks for targets among the
/// opposing formations. Every formation appears once, so that a battle can
/// never get stuck with opponents facing each other while none can attack.
pub open spec fn spec_attack_order(f: FleetFormation) -> Seq<FleetFormation> {
    match f {
        FleetFormation::Left => seq![FleetFormation::Left, FleetFormation::Center, FleetFormation::Rear, FleetFormation::Right],
        FleetFormation::Center => seq![FleetFormation::Center, FleetFormation::Rear, FleetFormation::Left, FleetFormation::Right],
        FleetFormation::Right => seq![FleetFormation::Right, FleetFormation::Center, FleetFormation::Rear, FleetFormation::Left],
        FleetFormation::Rear => seq![FleetFormation::Left, FleetFormation::Right, FleetFormation::Center, FleetFormation::Rear],
    }
}

/// Formation `g` stands somewhere in `order`.
pub open spec fn spec_holds_formation(order: Seq<FleetFormation>, g: FleetFormation) -> bool {
    exists|m: int| 0 <= m < order.len() && order[m] == g
}

/// Every attack order holds each of the four formations exactly once: a
/// squadron finds an opponent whatever formation the opponent stands at.
pub proof fn lemma_attack_order_covers(f: FleetFormation, g: FleetFormation)
    ensures
        spec_attack_order(f).len() == 4,
        spec_holds_formation(spec_attack_order(f), g),
        forall|a: int, b: int|
            0 <= a < b < 4 ==> #[trigger] spec_attack_order(f)[a] != #[trigger] spec_attack_order(f)[b],
{
    let o = spec_attack_order(f);
    assert(o.len() == 4);
    if o[0] == g {
    } else if o[1] == g {
    } else if o[2] == g {
    } else {
        assert(o[3] == g);
    }
}

/// The "position factor" matrix, in hundredths: how much more (or less)
/// damage a squadron at `attacker` deals to a squadron at `target`.
pub open spec fn spec_attack_coeff_percent(attacker: FleetFormation, target: FleetFormation) -> u16 {
    match attacker {
        FleetFormation::Left => match target {
            FleetFormation::Left => 115,
            FleetFormation::Center => 125,
            FleetFormation::Right => 100,
            FleetFormation::Rear => 110,
        },
        FleetFormation::Center => match target {
            FleetFormation::Left => 100,
            FleetFormation::Center => 85,
            FleetFormation::Right => 100,
            FleetFormation::Rear => 110,
        },
        FleetFormation::Right => match target {
            FleetFormation::Left => 100,
            FleetFormation::Center => 125,
            FleetFormation::Right => 115,
            FleetFormation::Rear => 110,
        },
        FleetFormation::Rear => match target {
            FleetFormation::Left => 100,
            FleetFormation::Center => 125,
            FleetFormation::Right => 100,
            FleetFormation::Rear => 110,
        },
    }
}

/// The lower-case name of a formation, as it is stored and exchanged.
pub open spec fn spec_formation_name(f: FleetFormation) -> Seq<char> {
    match f {
        FleetFormation::Left => "left"@,
        FleetFormation::Center => "center"@,
        FleetFormation::Right => "right"@,
        FleetFormation::Rear => "rear"@,
    }
}

/// The formation that bears the name `n`, if any.
pub open spec fn spec_formation_named(n: Seq<char>) -> Option<FleetFormation> {
    if n == spec_formation_name(FleetFormation::Left) {
        Some(FleetFormation::Left)
    } else if n == spec_formation_name(FleetFormation::Center) {
        Some(FleetFormation::Center)
    } else if n == spec_formation_name(FleetFormation::Right) {
        Some(FleetFormation::Right)
    } else if n == spec_formation_name(FleetFormation::Rear) {
        Some(FleetFormation::Rear)
    } else {
        None
    }
}

/// No two formations bear the same name, so that reading the name of a
/// formation (see `FleetFormation::parse`) gives that formation back; and no
/// name holds a colon, so that a name can stand as a field of a key.
pub proof fn lemma_formation_names(f: FleetFormation, g: FleetFormation)
    ensures
        spec_formation_name(f) == spec_formation_name(g) ==> f == g,
        spec_formation_named(spec_formation_name(f)) == Some(f),
        forall|i: int| 0 <= i < spec_formation_name(f).len() ==> #[trigger] spec_formation_name(f)[i] != ':',
{
    reveal_strlit("left");
    reveal_strlit("center");
    reveal_strlit("right");
    reveal_strlit("rear");
    assert("left"@.len() == 4 && "center"@.len() == 6 && "right"@.len() == 5 && "rear"@.len() == 4);
    assert("left"@[2] == 'f' && "rear"@[2] == 'a');
}

impl FleetFormation {
    /// When attacking, a squadron tries to find opponents in its attack order:
    /// if no opponent stands at the first position, it searches the next one,
    /// and so on.
    pub fn attack_order(self) -> (order: &'static [FleetFormation])
        ensures
            order@ == spec_attack_order(self),
            order@.len() == 4,
            forall|g: FleetFormation| #[trigger] spec_holds_formation(order@, g),
            forall|a: int, b: int| 0 <= a < b < 4 ==> #[trigger] order@[a] != #[trigger] order@[b],
    {
        proof {
            lemma_attack_order_covers(self, self);
            assert forall|g: FleetFormation| #[trigger] spec_holds_formation(spec_attack_order(self), g) by {
                lemma_attack_order_covers(self, g);
            }
        }
        match self {
            FleetFormation::Left => &[FleetFormation::Left, FleetFormation::Center, FleetFormation::Rear, FleetFormation::Right],
            FleetFormation::Center => &[FleetFormation::Center, FleetFormation::Rear, FleetFormation::Left, FleetFormation::Right],
            FleetFormation::Right => &[FleetFormation::Right, FleetFormation::Center, FleetFormation::Rear, FleetFormation::Left],
            FleetFormation::Rear => &[FleetFormation::Left, FleetFormation::Right, FleetFormation::Center, FleetFormation::Rear],
        }
    }

    /// The position factor applied when a squadron at `self` attacks one at
    /// `target`, in hundredths (115 stands for a factor of 1.15).
    pub fn attack_coeff_percent(self, target: FleetFormation) -> (c: u16)
        ensures
            c == spec_attack_coeff_percent(self, target),
            c > 0,
    {
        match self {
            FleetFormation::Left => match target {
                FleetFormation::Left => 115,
                FleetFormation::Center => 125,
                FleetFormation::Right => 100,
                FleetFormation::Rear => 110,
            },
            FleetFormation::Center => match target {
                FleetFormation::Left => 100,
                FleetFormation::Center => 85,
                FleetFormation::Right => 100,
                FleetFormation::Rear => 110,
            },
            FleetFormation::Right => match target {
                FleetFormation::Left => 100,
                FleetFormation::Center => 125,
                FleetFormation::Right => 115,
                FleetFormation::Rear => 110,
            },
            FleetFormation::Rear => match target {
                FleetFormation::Left => 100,
                FleetFormation::Center => 125,
                FleetFormation::Right => 100,
                FleetFormation::Rear => 110,
            },
        }
    }

    /// The lower-case name of the formation ("left", "center", "right", "rear").
    pub fn name(self) -> (n: &'static str)
        ensures
            n@ == spec_formation_name(self),
    {
        match self {
            FleetFormation::Left => "left",
            FleetFormation::Center => "center",
            FleetFormation::Right => "right",
            FleetFormation::Rear => "rear",
        }
    }

    /// Reads a formation from its lower-case name; any other text is a
    /// conflict.
    pub fn parse(s: &str) -> (r: Result<FleetFormation, InternalError>)
        ensures
            match r {
                Ok(f) => s@ == spec_formation_name(f),
                Err(e) => e is Conflict && forall|f: FleetFormation| s@ != spec_formation_name(f),
            },
    {
        if str_eq(s, "center") {
            Ok(FleetFormation::Center)
        } else if str_eq(s, "left") {
            Ok(FleetFormation::Left)
        } else if str_eq(s, "right") {
            Ok(FleetFormation::Right)
        } else if str_eq(s, "rear") {
            Ok(FleetFormation::Rear)
        } else {
            assert forall|f: FleetFormation| s@ != spec_formation_name(f) by {
                match f {
                    FleetFormation::Left => {},
                    FleetFormation::Center => {},
                    FleetFormation::Right => {},
                    FleetFormation::Rear => {},
                }
            }
            Err(InternalError::Conflict)
        }
    }
}

impl std::str::FromStr for FleetFormation {
    type Err = InternalError;

    fn from_str(s: &str) -> (r: Result<FleetFormation, InternalError>)
        ensures
            match r {
                Ok(f) => s@ == spec_formation_name(f),
                Err(e) => e is Conflict && forall|f: FleetFormation| s@ != spec_formation_name(f),
            },
    {
        FleetFormation::parse(s)
    }
}

} // verus!
