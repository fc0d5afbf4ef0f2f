use jev_game_engine::survival::{is_hostile, is_ranged, normalize};

#[test]
fn hostile_names_match_both_recorded_spellings() {
    for name in [
        "Zombie",
        "ZombifiedPiglin",
        "zombified_piglin",
        "CaveSpider",
        "cave_spider",
        "WitherSkeleton",
        "Bogged",
        "EnderDragon",
    ] {
        assert!(is_hostile(name), "{name} should be hostile");
    }
    for name in [
        "Cow",
        "Sheep",
        "Villager",
        "IronGolem",
        "Player",
        "Arrow",
        "Trident",
        "Fireball",
        "Item",
        "",
        "ZombieHorse",
    ] {
        assert!(!is_hostile(name), "{name} should not be hostile");
    }
}

#[test]
fn shooters_are_recognised_by_name() {
    for name in ["Skeleton", "Stray", "Bogged", "Pillager", "skeleton"] {
        assert!(is_ranged(name), "{name}");
    }
    for name in ["Zombie", "Creeper", "Spider", "Cow", ""] {
        assert!(!is_ranged(name), "{name}");
    }
}

#[test]
fn normalisation_drops_separators_and_lowers_case() {
    assert_eq!(
        normalize("Zombified_Piglin-2").into_iter().collect::<String>(),
        "zombifiedpiglin2"
    );
    assert!(normalize("__").is_empty());
    assert!(!is_hostile("__"));
}
