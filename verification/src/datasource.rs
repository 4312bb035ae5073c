//! The places that players are asked to find.

use vstd::prelude::*;

verus! {

/// A place with its position. Latitude and longitude are carried as the bit
/// patterns of double-precision numbers of degrees; the engine hands them on
/// and never computes with them.
#[derive(Debug, PartialEq, Eq)]
pub struct City {
    pub name: String,
    pub country: String,
    pub latitude: u64,
    pub longitude: u64,
}

/// What a city is, as mathematics.
pub struct CityView {
    pub name: Seq<char>,
    pub country: Seq<char>,
    pub latitude: u64,
    pub longitude: u64,
}

impl View for City {
    type V = CityView;

    open spec fn view(&self) -> CityView {
        CityView {
            name: self.name@,
            country: self.country@,
            latitude: self.latitude,
            longitude: self.longitude,
        }
    }
}

impl Clone for City {
    fn clone(&self) -> (copy: Self)
        ensures
            copy == *self,
    {
        City {
            name: self.name.clone(),
            country: self.country.clone(),
            latitude: self.latitude,
            longitude: self.longitude,
        }
    }
}

/// A city as shown to players while they guess: its name and country, and
/// nothing that gives its position away.
#[derive(Debug, PartialEq, Eq)]
pub struct AnonymizedCity {
    pub country: String,
    pub name: String,
}

/// What an anonymized city is, as mathematics.
pub struct AnonymizedCityView {
    pub country: Seq<char>,
    pub name: Seq<char>,
}

impl View for AnonymizedCity {
    type V = AnonymizedCityView;

    open spec fn view(&self) -> AnonymizedCityView {
        AnonymizedCityView { country: self.country@, name: self.name@ }
    }
}

impl CityView {
    /// The part of a city that may be shown before the round is scored.
    pub open spec fn anonymize(self) -> AnonymizedCityView {
        AnonymizedCityView { country: self.country, name: self.name }
    }
}

impl City {
    /// Strips the position from a city.
    pub fn anonymize(self) -> (shown: AnonymizedCity)
        ensures
            shown@ == self@.anonymize(),
    {
        AnonymizedCity { country: self.country, name: self.name }
    }
}

/// The cities of a game, in the order in which they will be played.
#[derive(Debug)]
pub struct Datasource {
    pub cities: Vec<City>,
}

/// Puts the cities into a random order with `rand::seq::SliceRandom::shuffle`,
/// drawing from `rand::thread_rng()`.
///
/// The order that comes out is not stated. What is claimed is what a shuffle
/// in place does by swapping elements: every city is still there, as often as
/// before.
#[verifier::external_body]
fn shuffle(cities: &mut Vec<City>)
    ensures
        final(cities)@.to_multiset() == old(cities)@.to_multiset(),
{
    rand::seq::SliceRandom::shuffle(cities.as_mut_slice(), &mut rand::thread_rng());
}

impl Datasource {
    /// A datasource that plays the given cities in a random order.
    pub fn new(cities: Vec<City>) -> (datasource: Datasource)
        ensures
            datasource.cities@.to_multiset() == cities@.to_multiset(),
            datasource.cities@.len() == cities@.len(),
    {
        let mut cities = cities;
        let ghost given = cities@;
        shuffle(&mut cities);
        proof {
            given.to_multiset_ensures();
            cities@.to_multiset_ensures();
        }
        Datasource { cities }
    }
}

} // verus!
