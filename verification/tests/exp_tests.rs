use tower_defense::exp_level::{
    process_experience_gain, process_level_ups, update_exp_bus, EventExpGain, ExpLevel,
    ExperienceBus,
};

#[test]
fn test_add_experience() {
    let mut explevel = ExpLevel { experience: 0, level: 0 };
    explevel.add_experience(10);
    assert_eq!(explevel.experience(), 10);
    explevel.add_experience(10);
    assert_eq!(explevel.experience(), 20);
}

#[test]
fn test_needs_level_up() {
    let explevel = ExpLevel { experience: 100000, level: 0 };
    assert!(explevel.need_level_up());
}

#[test]
fn test_apply_level_up() {
    let mut explevel = ExpLevel { experience: 1000, level: 0 };
    assert!(explevel.level_from_exp() > 0);
    explevel.apply_level_up();
    assert_eq!(explevel.level(), explevel.level_from_exp());
}

#[test]
fn test_level_formula() {
    // level = ceil(log2(experience)), with 0 and 1 both at level 0.
    let cases: [(u64, u64); 9] =
        [(0, 0), (1, 0), (2, 1), (3, 2), (4, 2), (5, 3), (8, 3), (9, 4), (1024, 10)];
    for (exp, want) in cases {
        let e = ExpLevel { experience: exp, level: 0 };
        assert_eq!(e.level_from_exp(), want);
    }
}

#[test]
fn test_leveling_thresholds() {
    // Accumulating from 0 to 1 leaves the level at 0; reaching 5 gives
    // ceil(log2(5)) = 3.
    let mut e = ExpLevel::new();
    e.add_experience(1);
    assert!(!e.need_level_up());
    e.apply_level_up();
    assert_eq!(e.level(), 0);
    e.add_experience(4);
    assert!(e.need_level_up());
    e.apply_level_up();
    assert_eq!(e.level(), 3);
}

#[test]
fn test_event_visible_in_tick_then_cleared() {
    // An event enqueued in a tick is visible to that tick's readers, and
    // the end-of-tick swap clears it so it is never processed twice.
    let mut bus = ExperienceBus::new();
    let mut objs: Vec<(u64, ExpLevel)> = vec![(7, ExpLevel::new())];
    bus.send_experience_gain(EventExpGain { entity: 7, experience: 3 });
    process_experience_gain(&bus, &mut objs);
    assert_eq!(objs[0].1.experience(), 3);
    update_exp_bus(&mut bus);
    process_experience_gain(&bus, &mut objs);
    assert_eq!(objs[0].1.experience(), 3);
}

#[test]
fn test_experience_gain_unknown_entity_is_dropped() {
    let mut bus = ExperienceBus::new();
    let mut objs: Vec<(u64, ExpLevel)> = vec![(1, ExpLevel::new())];
    bus.send_experience_gain(EventExpGain { entity: 99, experience: 5 });
    process_experience_gain(&bus, &mut objs);
    assert_eq!(objs[0].1.experience(), 0);
}

#[test]
fn test_process_level_ups_emits_events() {
    let mut bus = ExperienceBus::new();
    let mut objs: Vec<(u64, ExpLevel)> = vec![
        (1, ExpLevel { experience: 5, level: 0 }),
        (2, ExpLevel { experience: 1, level: 0 }),
    ];
    process_level_ups(&mut bus, &mut objs);
    assert_eq!(objs[0].1.level(), 3);
    assert_eq!(objs[1].1.level(), 0);
    assert_eq!(bus.level_up.len(), 1);
    assert_eq!(bus.level_up[0].entity, 1);
}
