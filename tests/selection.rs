use osrs_random::catalog::{boss_catalog, skills, Catalog, Category};
use osrs_random::exclusions::parse_exclusions;
use osrs_random::select::{
    candidate_indices, choose_boss, choose_skill, pick_from, skill_at, BossPick, SelectError,
};
use rand::rngs::StdRng;
use rand::SeedableRng;

fn small_catalog() -> Catalog {
    Catalog::from_categories(vec![
        Category::new("A", &["x"]),
        Category::new("B", &["y", "z"]),
    ])
    .unwrap()
}

#[test]
fn excluding_a_leaves_only_b() {
    let catalog = small_catalog();
    for seed in 0..200u64 {
        let mut rng = StdRng::seed_from_u64(seed);
        let pick = choose_boss(&catalog, &vec![1], &mut rng).unwrap();
        assert_eq!(pick.category, "B");
        assert!(pick.boss == "y" || pick.boss == "z");
    }
}

#[test]
fn excluding_both_gives_all_excluded() {
    let catalog = small_catalog();
    let mut rng = StdRng::seed_from_u64(1);
    assert_eq!(choose_boss(&catalog, &vec![1, 2], &mut rng), Err(SelectError::AllExcluded));
}

#[test]
fn excluding_every_builtin_category_fails() {
    let catalog = boss_catalog();
    let mut rng = StdRng::seed_from_u64(5);
    let all: Vec<usize> = (1..=catalog.categories.len()).collect();
    assert_eq!(choose_boss(&catalog, &all, &mut rng), Err(SelectError::AllExcluded));
    let mut twice = all.clone();
    twice.extend(all.iter().copied());
    twice.push(0);
    assert_eq!(choose_boss(&catalog, &twice, &mut rng), Err(SelectError::AllExcluded));
}

#[test]
fn picks_avoid_exclusions_and_belong_to_their_category() {
    let catalog = boss_catalog();
    let exclusion_sets: Vec<Vec<usize>> = vec![
        vec![],
        vec![1],
        vec![2, 4, 6],
        vec![1, 2, 3, 4, 5, 6],
        vec![7, 7, 3],
    ];
    for exclusions in &exclusion_sets {
        for seed in 0..100u64 {
            let mut rng = StdRng::seed_from_u64(seed);
            let pick = choose_boss(&catalog, exclusions, &mut rng).unwrap();
            let pos = catalog
                .categories
                .iter()
                .position(|c| c.name == pick.category)
                .unwrap();
            assert!(!exclusions.contains(&(pos + 1)));
            assert!(catalog.categories[pos].items.contains(&pick.boss));
        }
    }
}

#[test]
fn same_seed_gives_same_picks() {
    let catalog = boss_catalog();
    let mut a = StdRng::seed_from_u64(42);
    let mut b = StdRng::seed_from_u64(42);
    for _ in 0..50 {
        assert_eq!(
            choose_boss(&catalog, &vec![3], &mut a),
            choose_boss(&catalog, &vec![3], &mut b)
        );
        assert_eq!(choose_skill(&mut a), choose_skill(&mut b));
    }
}

#[test]
fn categories_are_drawn_evenly() {
    let catalog = boss_catalog();
    let n = catalog.categories.len();
    let trials: usize = 70_000;
    let mut counts = vec![0usize; n];
    let mut rng = StdRng::seed_from_u64(2024);
    for _ in 0..trials {
        let pick = choose_boss(&catalog, &vec![], &mut rng).unwrap();
        let pos = catalog
            .categories
            .iter()
            .position(|c| c.name == pick.category)
            .unwrap();
        counts[pos] += 1;
    }
    let expected = (trials / n) as f64;
    let chi_square: f64 = counts
        .iter()
        .map(|&c| {
            let d = c as f64 - expected;
            d * d / expected
        })
        .sum();
    // six degrees of freedom: 22.46 is the 0.001 critical value
    assert!(chi_square < 22.46, "chi-square {} with counts {:?}", chi_square, counts);
}

#[test]
fn unusable_exclusion_tokens_change_nothing() {
    let catalog = boss_catalog();
    let parsed = parse_exclusions("0 99 abc -1 + 1x", catalog.categories.len());
    assert!(parsed.is_empty());
    for seed in 0..20u64 {
        let mut a = StdRng::seed_from_u64(seed);
        let mut b = StdRng::seed_from_u64(seed);
        assert_eq!(
            choose_boss(&catalog, &parsed, &mut a),
            choose_boss(&catalog, &vec![], &mut b)
        );
    }
    assert_eq!(candidate_indices(3, &vec![0, 4, 99]), vec![0, 1, 2]);
}

#[test]
fn skill_is_always_from_the_list() {
    let list = skills();
    assert_eq!(list.len(), 23);
    for seed in 0..200u64 {
        let mut rng = StdRng::seed_from_u64(seed);
        let skill = choose_skill(&mut rng);
        assert!(list.contains(&skill));
    }
}

#[test]
fn skill_at_reads_the_fixed_list() {
    assert_eq!(skill_at(0), "Attack");
    assert_eq!(skill_at(6), "Hitpoints");
    assert_eq!(skill_at(22), "Hunter");
}

#[test]
fn candidates_skip_excluded_positions() {
    assert_eq!(candidate_indices(4, &vec![2, 9]), vec![0, 2, 3]);
    assert_eq!(candidate_indices(3, &vec![]), vec![0, 1, 2]);
    assert_eq!(candidate_indices(2, &vec![1, 2]), Vec::<usize>::new());
    assert_eq!(candidate_indices(0, &vec![1]), Vec::<usize>::new());
}

#[test]
fn pick_from_uses_both_draws() {
    let catalog = small_catalog();
    let cands = candidate_indices(2, &vec![]);
    assert_eq!(
        pick_from(&catalog, &cands, 1, 1),
        BossPick { category: "B".to_string(), boss: "z".to_string() }
    );
    assert_eq!(
        pick_from(&catalog, &cands, 0, 0),
        BossPick { category: "A".to_string(), boss: "x".to_string() }
    );
}

#[test]
fn catalog_rejects_empty_and_duplicate_categories() {
    assert!(Catalog::from_categories(vec![Category::new("A", &[])]).is_none());
    assert!(Catalog::from_categories(vec![
        Category::new("A", &["x"]),
        Category::new("A", &["y"]),
    ])
    .is_none());
    assert!(Catalog::from_categories(vec![]).is_some());
}

#[test]
fn builtin_catalog_content() {
    let catalog = boss_catalog();
    let names: Vec<&str> = catalog.categories.iter().map(|c| c.name.as_str()).collect();
    assert_eq!(
        names,
        vec![
            "World Bosses",
            "God Wars",
            "Wilderness Bosses",
            "Slayer Only Bosses",
            "Minigame Bosses",
            "Skilling Bosses",
            "Raids"
        ]
    );
    let sizes: Vec<usize> = catalog.categories.iter().map(|c| c.items.len()).collect();
    assert_eq!(sizes, vec![25, 5, 8, 7, 4, 3, 3]);
    assert_eq!(catalog.categories[1].items[0], "Kree'arra");
    assert_eq!(catalog.categories[6].items[2], "Theatre of Blood");
}
