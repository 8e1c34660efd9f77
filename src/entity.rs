use vstd::prelude::*;
use vstd::string::StrSliceExecFns;
use vstd::string::StringSliceAdditionalSpecFns;
use rand::rngs::StdRng;
use crate::constants::DIFFICULTY;
use crate::display::DisplayBytes;
use crate::random::{random_below, random_in};

verus! {

/// Status of a spaceship: all four stats are saturating byte magnitudes
#[derive(Clone, Copy, PartialEq, Eq, Structural, Debug)]
pub struct Ship {
    pub energy: u8,
    pub shields: u8,
    pub torpedoes: u8,
    pub range: u8,
}

impl Ship {
    /// The stats a freshly generated enemy may have
    pub open spec fn is_fresh_enemy(self) -> bool {
        &&& 20 <= self.energy < DIFFICULTY
        &&& 20 <= self.shields < DIFFICULTY
        &&& 1 <= self.torpedoes < DIFFICULTY / 20
        &&& 2 <= self.range < DIFFICULTY / 20
    }

    /// Randomly generate an enemy ship
    pub fn enemy(rng: &mut StdRng) -> (r: Ship)
        ensures
            r.is_fresh_enemy(),
    {
        let energy = random_in(rng, 20, DIFFICULTY);
        let shields = random_in(rng, 20, DIFFICULTY);
        let torpedoes = random_in(rng, 1, DIFFICULTY / 20);
        let range = random_in(rng, 2, DIFFICULTY / 20);
        Ship { energy, shields, torpedoes, range }
    }
}

/// Possible entities that might be encountered in the depths of space
#[derive(Clone, Copy, PartialEq, Eq, Structural, Debug)]
pub enum Entity {
    BlackHole,
    Star,
    Planet,
    Base,
    Klargons(Ship),
    Remulins(Ship),
    Faringa(Ship),
    Berg(Ship),
}

impl Entity {
    /// The ship of an adversary, `None` for an environmental entity
    pub open spec fn ship_spec(self) -> Option<Ship> {
        match self {
            Entity::Klargons(s) => Some(s),
            Entity::Remulins(s) => Some(s),
            Entity::Faringa(s) => Some(s),
            Entity::Berg(s) => Some(s),
            _ => None,
        }
    }

    pub open spec fn is_adversary(self) -> bool {
        self.ship_spec() is Some
    }

    /// The same faction carrying another ship
    pub open spec fn with_ship(self, ship: Ship) -> Entity {
        match self {
            Entity::Klargons(_) => Entity::Klargons(ship),
            Entity::Remulins(_) => Entity::Remulins(ship),
            Entity::Faringa(_) => Entity::Faringa(ship),
            Entity::Berg(_) => Entity::Berg(ship),
            _ => self,
        }
    }

    /// Update the ship status of an enemy entity
    pub fn update(&self, ship: Ship) -> (r: Option<Entity>)
        ensures
            self.is_adversary() ==> r == Some(self.with_ship(ship)),
            !self.is_adversary() ==> r is None,
    {
        match self {
            Entity::Klargons(_) => Some(Entity::Klargons(ship)),
            Entity::Remulins(_) => Some(Entity::Remulins(ship)),
            Entity::Faringa(_) => Some(Entity::Faringa(ship)),
            Entity::Berg(_) => Some(Entity::Berg(ship)),
            _ => None,
        }
    }

    /// The ship of an adversary
    pub fn ship(&self) -> (r: Option<Ship>)
        ensures
            r == self.ship_spec(),
    {
        match self {
            Entity::Klargons(s) => Some(*s),
            Entity::Remulins(s) => Some(*s),
            Entity::Faringa(s) => Some(*s),
            Entity::Berg(s) => Some(*s),
            _ => None,
        }
    }

    /// A uniformly chosen kind of entity; adversaries get fresh enemy stats
    pub fn random(rng: &mut StdRng) -> (r: Entity)
        ensures
            r.is_adversary() ==> r.ship_spec().unwrap().is_fresh_enemy(),
    {
        let k = random_below(rng, 8);
        if k == 0 {
            Entity::BlackHole
        } else if k == 1 {
            Entity::Star
        } else if k == 2 {
            Entity::Planet
        } else if k == 3 {
            Entity::Base
        } else if k == 4 {
            Entity::Klargons(Ship::enemy(rng))
        } else if k == 5 {
            Entity::Remulins(Ship::enemy(rng))
        } else if k == 6 {
            Entity::Faringa(Ship::enemy(rng))
        } else {
            Entity::Berg(Ship::enemy(rng))
        }
    }

    /// Single-byte display code of the entity on a star chart
    pub open spec fn code_spec(self) -> u8 {
        match self {
            Entity::BlackHole => 0x07,
            Entity::Star => 0x08,
            Entity::Planet => 0x09,
            Entity::Base => 0x0B,
            Entity::Klargons(_) => 0x03,
            Entity::Remulins(_) => 0x04,
            Entity::Faringa(_) => 0x05,
            Entity::Berg(_) => 0x06,
        }
    }

    /// Single-byte display code of the entity on a star chart
    pub fn code(&self) -> (r: u8)
        ensures
            r == self.code_spec(),
    {
        match self {
            Entity::BlackHole => 0x07,
            Entity::Star => 0x08,
            Entity::Planet => 0x09,
            Entity::Base => 0x0B,
            Entity::Klargons(_) => 0x03,
            Entity::Remulins(_) => 0x04,
            Entity::Faringa(_) => 0x05,
            Entity::Berg(_) => 0x06,
        }
    }
}

impl DisplayBytes for Entity {
    open spec fn display_view(&self) -> Seq<u8> {
        match *self {
            Entity::BlackHole => "Black hole".spec_bytes(),
            Entity::Star => "Star".spec_bytes(),
            Entity::Planet => "Planet".spec_bytes(),
            Entity::Base => "Base".spec_bytes(),
            Entity::Klargons(_) => "Klargons".spec_bytes(),
            Entity::Remulins(_) => "Remulins".spec_bytes(),
            Entity::Faringa(_) => "Faringa".spec_bytes(),
            Entity::Berg(_) => "Berg".spec_bytes(),
        }
    }

    fn display_bytes(&self) -> (r: Vec<u8>) {
        match self {
            Entity::BlackHole => "Black hole".as_bytes_vec(),
            Entity::Star => "Star".as_bytes_vec(),
            Entity::Planet => "Planet".as_bytes_vec(),
            Entity::Base => "Base".as_bytes_vec(),
            Entity::Klargons(_) => "Klargons".as_bytes_vec(),
            Entity::Remulins(_) => "Remulins".as_bytes_vec(),
            Entity::Faringa(_) => "Faringa".as_bytes_vec(),
            Entity::Berg(_) => "Berg".as_bytes_vec(),
        }
    }
}

} // verus!
