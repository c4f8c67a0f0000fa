use vstd::prelude::*;
use crate::planet::{Planet, distance_between, planet_dist2};

verus! {

/// The errors of map construction, map queries and action dispatch.
#[derive(Clone, Copy, Debug, PartialEq, Eq, Structural)]
pub enum MapError {
    /// No layout satisfying the validator was found within the retry budget.
    ConstructionFailure,
    /// A body id outside the constructed range.
    NotFound,
    /// The body has too few resources to spawn a unit.
    InsufficientResources,
    /// The source body has no units, or none of the acting player's.
    NoUnitsAvailable,
    /// The map was already destroyed.
    AlreadyDestroyed,
}

/// Every body sits at the index given by its id.
pub open spec fn ids_match(ps: Seq<Planet>) -> bool {
    forall|i: int| 0 <= i < ps.len() ==> (#[trigger] ps[i]).id == i
}

/// A collection of bodies indexed by their stable ids, with an explicit teardown.
pub struct Starmap2D {
    planets: Vec<Planet>,
    destroyed: bool,
}

impl Starmap2D {
    /// The bodies of the map, in id order.
    pub closed spec fn planets(&self) -> Seq<Planet> {
        self.planets@
    }

    /// Whether the map has been torn down.
    pub closed spec fn is_destroyed(&self) -> bool {
        self.destroyed
    }

    pub open spec fn wf(&self) -> bool {
        ids_match(self.planets())
    }

    /// A map with no bodies.
    pub fn empty() -> (r: Starmap2D)
        ensures
            r.planets() == Seq::<Planet>::empty(),
            !r.is_destroyed(),
            r.wf(),
    {
        Starmap2D { planets: Vec::new(), destroyed: false }
    }

    /// A map holding `planets`, whose ids must equal their positions.
    pub fn from_planets(planets: Vec<Planet>) -> (r: Starmap2D)
        requires
            ids_match(planets@),
        ensures
            r.planets() == planets@,
            !r.is_destroyed(),
            r.wf(),
    {
        Starmap2D { planets, destroyed: false }
    }

    /// The bodies of the map; empty once it has been destroyed.
    pub fn get_planets(&self) -> (r: &Vec<Planet>)
        ensures
            r@ == self.planets(),
    {
        &self.planets
    }

    /// Replaces the bodies of the map.
    pub fn set_planets(&mut self, planets: Vec<Planet>)
        requires
            ids_match(planets@),
        ensures
            final(self).planets() == planets@,
            final(self).is_destroyed() == old(self).is_destroyed(),
            final(self).wf(),
    {
        self.planets = planets;
    }

    /// The number of bodies.
    pub fn len(&self) -> (r: usize)
        ensures
            r == self.planets().len(),
    {
        self.planets.len()
    }

    /// Whether the map has been torn down.
    pub fn destroyed(&self) -> (r: bool)
        ensures
            r == self.is_destroyed(),
    {
        self.destroyed
    }

    /// The body with the given id.
    pub fn get_body(&self, id: usize) -> (r: Result<&Planet, MapError>)
        ensures
            self.is_destroyed() ==> r == Err::<&Planet, MapError>(MapError::AlreadyDestroyed),
            !self.is_destroyed() && id >= self.planets().len() ==> r == Err::<&Planet, MapError>(
                MapError::NotFound,
            ),
            !self.is_destroyed() && id < self.planets().len() ==> r == Ok::<&Planet, MapError>(
                &self.planets()[id as int],
            ),
    {
        if self.destroyed {
            Err(MapError::AlreadyDestroyed)
        } else if id >= self.planets.len() {
            Err(MapError::NotFound)
        } else {
            Ok(&self.planets[id])
        }
    }

    /// A snapshot of the properties of the body with the given id.
    pub fn get_planet_properties(&self, id: usize) -> (r: Result<Planet, MapError>)
        ensures
            self.is_destroyed() ==> r == Err::<Planet, MapError>(MapError::AlreadyDestroyed),
            !self.is_destroyed() && id >= self.planets().len() ==> r == Err::<Planet, MapError>(
                MapError::NotFound,
            ),
            !self.is_destroyed() && id < self.planets().len() ==> r == Ok::<Planet, MapError>(
                self.planets()[id as int],
            ),
    {
        match self.get_body(id) {
            Ok(p) => Ok(p.properties()),
            Err(e) => Err(e),
        }
    }

    /// Replaces the body at `id`, keeping its id.
    pub(crate) fn put_body(&mut self, id: usize, p: Planet)
        requires
            id < old(self).planets().len(),
            p.id == id,
            old(self).wf(),
        ensures
            final(self).planets() == old(self).planets().update(id as int, p),
            final(self).is_destroyed() == old(self).is_destroyed(),
            final(self).wf(),
    {
        self.planets.set(id, p);
    }

    /// Tears the map down: hands back every body it owned, so that the caller can
    /// release each one, and refuses every later query.
    pub fn destroy(&mut self) -> (r: Result<Vec<Planet>, MapError>)
        ensures
            old(self).is_destroyed() ==> r == Err::<Vec<Planet>, MapError>(
                MapError::AlreadyDestroyed,
            ) && *final(self) == *old(self),
            !old(self).is_destroyed() ==> r is Ok && r->Ok_0@ == old(self).planets(),
            final(self).is_destroyed(),
            final(self).planets() == Seq::<Planet>::empty() || old(self).is_destroyed(),
            final(self).wf() || old(self).is_destroyed(),
    {
        if self.destroyed {
            return Err(MapError::AlreadyDestroyed);
        }
        let mut owned: Vec<Planet> = Vec::new();
        std::mem::swap(&mut owned, &mut self.planets);
        self.destroyed = true;
        Ok(owned)
    }

    /// The Euclidean distance between two bodies, rounded down.
    pub fn get_distance_between(planet1: &Planet, planet2: &Planet) -> (r: u64)
        ensures
            r as int * r as int <= planet_dist2(*planet1, *planet2),
            planet_dist2(*planet1, *planet2) < (r as int + 1) * (r as int + 1),
    {
        distance_between(planet1, planet2)
    }
}

} // verus!
