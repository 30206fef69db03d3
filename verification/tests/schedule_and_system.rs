use rust_gravity_3d::galaxy::SolarSystem;
use rust_gravity_3d::physics::GravityCalculator;

#[test]
fn pairs_of_three_bodies() {
    assert_eq!(
        GravityCalculator::interaction_pairs(3),
        vec![(0, 1), (0, 2), (1, 0), (1, 2), (2, 0), (2, 1)]
    );
}

#[test]
fn pairs_of_tiny_scenes() {
    assert!(GravityCalculator::interaction_pairs(0).is_empty());
    assert!(GravityCalculator::interaction_pairs(1).is_empty());
    assert_eq!(GravityCalculator::interaction_pairs(2), vec![(0, 1), (1, 0)]);
}

#[test]
fn every_ordered_pair_once() {
    let n = 7;
    let pairs = GravityCalculator::interaction_pairs(n);
    assert_eq!(pairs.len(), n * (n - 1));
    for i in 0..n {
        for j in 0..n {
            let count = pairs.iter().filter(|&&p| p == (i, j)).count();
            assert_eq!(count, if i == j { 0 } else { 1 });
        }
    }
    assert!(pairs.windows(2).all(|w| w[0].0 <= w[1].0));
}

#[test]
fn solar_system_lists_star_planets_satellites() {
    let mut system = SolarSystem::new("Sun");
    assert!(system.planets.is_empty());
    assert!(system.satellites.is_empty());
    system.add_planet("Mercury");
    system.add_planet("Venus");
    system.add_satellite("Moon");
    system.add_planet("Earth");
    assert_eq!(system.star, "Sun");
    assert_eq!(system.planets, vec!["Mercury", "Venus", "Earth"]);
    assert_eq!(system.satellites, vec!["Moon"]);
    assert_eq!(system.into_bodies(), vec!["Sun", "Mercury", "Venus", "Earth", "Moon"]);
}
