use sveio::datasource::{City, Datasource};

fn city(n: usize) -> City {
    City {
        name: format!("City {n}"),
        country: format!("Country {}", n % 7),
        latitude: (n as f64).to_bits(),
        longitude: (-(n as f64)).to_bits(),
    }
}

fn cities(count: usize) -> Vec<City> {
    (0..count).map(city).collect()
}

fn sorted_names(cities: &[City]) -> Vec<String> {
    let mut names: Vec<String> = cities.iter().map(|c| c.name.clone()).collect();
    names.sort();
    names
}

#[test]
fn can_load_cities() {
    assert_ne!(Datasource::new(cities(10)).cities.len(), 0);
}

#[test]
fn cities_are_randomized() {
    let datasource1 = Datasource::new(cities(200));
    let datasource2 = Datasource::new(cities(200));
    assert_ne!(datasource1.cities, cities(200));
    assert_ne!(datasource1.cities, datasource2.cities);
}

#[test]
fn can_anonymize_city() {
    let datasource = Datasource::new(cities(10));
    let city = datasource.cities.get(0).unwrap();
    let anonymized = city.clone().anonymize();

    assert_eq!(city.name, anonymized.name);
    assert_eq!(city.country, anonymized.country);
}

#[test]
fn shuffling_keeps_every_city() {
    let given = cities(100);
    let datasource = Datasource::new(cities(100));
    assert_eq!(datasource.cities.len(), 100);
    assert_eq!(sorted_names(&datasource.cities), sorted_names(&given));
    for city in &datasource.cities {
        assert!(given.contains(city));
    }
}

#[test]
fn shuffling_keeps_duplicates() {
    let mut given = cities(3);
    given.push(city(1));
    given.push(city(1));
    let datasource = Datasource::new(given);
    assert_eq!(datasource.cities.iter().filter(|c| **c == city(1)).count(), 3);
    assert_eq!(datasource.cities.len(), 5);
}

#[test]
fn an_empty_list_stays_empty() {
    assert!(Datasource::new(Vec::new()).cities.is_empty());
}

#[test]
fn cloned_city_is_equal() {
    assert_eq!(city(3).clone(), city(3));
}
