//! A solar system: one star, its planets and their satellites.
use vstd::prelude::*;

verus! {

/// A star with the planets and satellites that belong to it, each list in
/// the order in which its bodies were added.
pub struct SolarSystem<B> {
    pub star: B,
    pub planets: Vec<B>,
    pub satellites: Vec<B>,
}

impl<B> SolarSystem<B> {
    /// A system that holds only its star.
    pub fn new(star: B) -> (system: Self)
        ensures
            system.star == star,
            system.planets@ == Seq::<B>::empty(),
            system.satellites@ == Seq::<B>::empty(),
    {
        SolarSystem { star, planets: Vec::new(), satellites: Vec::new() }
    }

    /// Adds a planet after the planets already there.
    pub fn add_planet(&mut self, planet: B)
        ensures
            final(self).star == old(self).star,
            final(self).planets@ == old(self).planets@.push(planet),
            final(self).satellites@ == old(self).satellites@,
    {
        self.planets.push(planet);
    }

    /// Adds a satellite after the satellites already there.
    pub fn add_satellite(&mut self, satellite: B)
        ensures
            final(self).star == old(self).star,
            final(self).planets@ == old(self).planets@,
            final(self).satellites@ == old(self).satellites@.push(satellite),
    {
        self.satellites.push(satellite);
    }

    /// All bodies of the system in one list: the star, then the planets,
    /// then the satellites.
    pub fn into_bodies(self) -> (bodies: Vec<B>)
        ensures
            bodies@ == seq![self.star] + self.planets@ + self.satellites@,
    {
        let SolarSystem { star, planets, satellites } = self;
        let mut planets = planets;
        let mut satellites = satellites;
        let mut bodies: Vec<B> = Vec::new();
        bodies.push(star);
        bodies.append(&mut planets);
        bodies.append(&mut satellites);
        bodies
    }
}

} // verus!
