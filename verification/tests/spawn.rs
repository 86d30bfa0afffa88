use gekkemieren::ant::{Ant, AntType, FORAGER_CODE, SCOUT_CODE};
use gekkemieren::spawn::{adjust_ant_scouts, adjust_scout_count, convert_types, count_type, indices_of_type};

fn count(types: &[u32], code: u32) -> usize {
    types.iter().filter(|&&t| t == code).count()
}

fn bits(v: [f32; 2]) -> [u32; 2] {
    v.map(f32::to_bits)
}

#[test]
fn ant_type_encodes_correctly() {
    let forager = Ant::new(bits([0.0, 0.0]), bits([0.0, 0.0]), AntType::Forager);
    let scout = Ant::new(bits([0.0, 0.0]), bits([0.0, 0.0]), AntType::Scout);
    assert_eq!(forager.ant_type, 0);
    assert_eq!(scout.ant_type, 1);
}

#[test]
fn new_ant_initializes_carries_food_to_zero() {
    let ant = Ant::new(bits([0.5, 0.5]), bits([1.0, 0.0]), AntType::Forager);
    assert_eq!(ant.carries_food, 0);
    assert_eq!(ant.position.map(f32::from_bits), [0.5, 0.5]);
    assert_eq!(ant.direction.map(f32::from_bits), [1.0, 0.0]);
}

#[test]
fn adjust_scout_ratio_converts_ants_preserving_position_and_direction() {
    // Create 10 ants: 8 Foragers + 2 Scouts with known positions and directions
    let careful_ants = (0..8)
        .map(|i| Ant::new(bits([i as f32 * 0.01, 0.0]), bits([1.0, 0.0]), AntType::Forager))
        .chain((0..2).map(|i| Ant::new(bits([0.0, (i + 1) as f32 * 0.01]), bits([0.0, 1.0]), AntType::Scout)))
        .collect::<Vec<_>>();

    let mut ants = careful_ants.clone();

    // Store original positions and directions of all ants
    let original_ants: Vec<_> = ants.iter().map(|a| (a.position, a.direction)).collect();

    // Adjust ratio from 0.2 to 0.5 (need 5 Scouts, have 2, so convert 3 Foragers)
    adjust_ant_scouts(&mut ants, 5);

    // Verify new ratio is approximately 0.5
    let scout_count = ants.iter().filter(|a| a.ant_type == 1).count();
    let forager_count = ants.len() - scout_count;
    assert_eq!(scout_count, 5, "Expected 5 Scouts after adjustment");
    assert_eq!(forager_count, 5, "Expected 5 Foragers after adjustment");

    // Verify positions and directions are preserved
    for (i, ant) in ants.iter().enumerate() {
        let (expected_pos, expected_dir) = original_ants[i];
        assert_eq!(ant.position, expected_pos, "Position changed for ant {} during conversion", i);
        assert_eq!(ant.direction, expected_dir, "Direction changed for ant {} during conversion", i);
    }
}

#[test]
fn adjust_lowers_scout_count() {
    let mut types = vec![1, 0, 1, 1, 0, 1];
    adjust_scout_count(&mut types, 1);
    assert_eq!(count(&types, SCOUT_CODE), 1);
    assert_eq!(count(&types, FORAGER_CODE), 5);
    // foragers stay foragers
    assert_eq!(types[1], FORAGER_CODE);
    assert_eq!(types[4], FORAGER_CODE);
}

#[test]
fn adjust_to_current_count_changes_nothing() {
    let mut types = vec![0, 1, 0, 1];
    adjust_scout_count(&mut types, 2);
    assert_eq!(types, vec![0, 1, 0, 1]);
}

#[test]
fn adjust_empty_population_changes_nothing() {
    let mut types: Vec<u32> = Vec::new();
    adjust_scout_count(&mut types, 3);
    assert!(types.is_empty());
}

#[test]
fn adjust_beyond_population_converts_every_forager() {
    let mut types = vec![0, 7, 1, 0];
    adjust_scout_count(&mut types, 10);
    assert_eq!(types, vec![1, 7, 1, 1]);
}

#[test]
fn adjust_keeps_unknown_types() {
    let mut types = vec![3, 1, 1, 9, 1];
    adjust_scout_count(&mut types, 0);
    assert_eq!(types, vec![3, 0, 0, 9, 0]);
}

#[test]
fn adjust_twice_is_adjust_once() {
    let mut types = vec![0u32; 20];
    adjust_scout_count(&mut types, 7);
    let once = types.clone();
    adjust_scout_count(&mut types, 7);
    assert_eq!(types, once);
    assert_eq!(count(&types, SCOUT_CODE), 7);
}

#[test]
fn adjust_picks_ants_at_random() {
    let mut picked = std::collections::BTreeSet::new();
    for _ in 0..50 {
        let mut types = vec![0u32; 100];
        adjust_scout_count(&mut types, 1);
        let idx = types.iter().position(|&t| t == SCOUT_CODE).unwrap();
        picked.insert(idx);
    }
    assert!(picked.len() > 1);
}

#[test]
fn count_and_indices_agree() {
    let types = vec![1, 0, 0, 1, 2, 1];
    assert_eq!(count_type(&types, 1), 3);
    assert_eq!(count_type(&types, 0), 2);
    assert_eq!(count_type(&types, 5), 0);
    assert_eq!(indices_of_type(&types, 1), vec![0, 3, 5]);
    assert_eq!(indices_of_type(&types, 0), vec![1, 2]);
}

#[test]
fn convert_follows_the_given_order() {
    let mut types = vec![0, 0, 1, 0, 0];
    convert_types(&mut types, &vec![4, 1, 0], 0, 1, 2);
    assert_eq!(types, vec![0, 1, 1, 0, 1]);
    let mut types = vec![0, 0, 1];
    convert_types(&mut types, &vec![1, 0], 0, 1, 5);
    assert_eq!(types, vec![1, 1, 1]);
}
