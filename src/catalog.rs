//! The fixed tables: boss categories with their bosses, and the trainable skills.

use vstd::prelude::*;
use vstd::string::*;

verus! {

/// A named group of bosses, listed in display order.
#[derive(Debug, Clone)]
pub struct Category {
    pub name: String,
    pub items: Vec<String>,
}

/// A catalog model entry: a category name with its item names.
pub type CategoryModel = (Seq<char>, Seq<Seq<char>>);

impl View for Category {
    type V = CategoryModel;

    open spec fn view(&self) -> CategoryModel {
        (self.name@, self.items@.map_values(|s: String| s@))
    }
}

/// Categories in display order; a category's display index is its position plus one.
#[derive(Debug, Clone)]
pub struct Catalog {
    pub categories: Vec<Category>,
}

impl View for Catalog {
    type V = Seq<CategoryModel>;

    open spec fn view(&self) -> Seq<CategoryModel> {
        self.categories@.map_values(|c: Category| c@)
    }
}

/// Every category holds an item, and no two categories share a name.
pub open spec fn catalog_wf(m: Seq<CategoryModel>) -> bool {
    &&& forall|i: int| 0 <= i < m.len() ==> #[trigger] m[i].1.len() > 0
    &&& forall|i: int, j: int|
        0 <= i < j < m.len() ==> #[trigger] m[i].0 != #[trigger] m[j].0
}

impl Catalog {
    /// Every category holds an item, and names are unique.
    pub open spec fn wf(&self) -> bool {
        catalog_wf(self@)
    }

    /// Builds a catalog from categories, or `None` where one of them is empty
    /// or two of them share a name.
    pub fn from_categories(categories: Vec<Category>) -> (r: Option<Catalog>)
        ensures
            match r {
                Some(c) => c@ == categories@.map_values(|c: Category| c@),
                None => true,
            },
            r.is_some() <==> catalog_wf(categories@.map_values(|c: Category| c@)),
    {
        let ghost m = categories@.map_values(|c: Category| c@);
        let n = categories.len();
        let mut i: usize = 0;
        while i < n
            invariant
                n == categories@.len() == m.len(),
                m == categories@.map_values(|c: Category| c@),
                i <= n,
                forall|k: int| 0 <= k < i ==> #[trigger] m[k].1.len() > 0,
                forall|k: int, l: int| 0 <= k < l < i ==> #[trigger] m[k].0 != #[trigger] m[l].0,
            decreases n - i,
        {
            if categories[i].items.len() == 0 {
                assert(m[i as int].1.len() == 0);
                return None;
            }
            let mut j: usize = 0;
            while j < i
                invariant
                    n == categories@.len() == m.len(),
                    m == categories@.map_values(|c: Category| c@),
                    j <= i < n,
                    forall|l: int| 0 <= l < j ==> #[trigger] m[l].0 != m[i as int].0,
                decreases i - j,
            {
                if categories[j].name == categories[i].name {
                    assert(m[j as int].0 == m[i as int].0);
                    return None;
                }
                j = j + 1;
            }
            i = i + 1;
        }
        Some(Catalog { categories })
    }
}

/// Copies each name into an owned string, keeping the order.
fn owned_names(list: &[&str]) -> (r: Vec<String>)
    ensures
        r@.map_values(|s: String| s@) == list@.map_values(|s: &str| s@),
{
    let mut r: Vec<String> = Vec::new();
    let mut i: usize = 0;
    while i < list.len()
        invariant
            i <= list@.len(),
            r@.len() == i,
            forall|j: int| 0 <= j < i ==> #[trigger] r@[j]@ == list@[j]@,
        decreases list@.len() - i,
    {
        r.push(String::from_str(list[i]));
        i = i + 1;
    }
    assert(r@.map_values(|s: String| s@) =~= list@.map_values(|s: &str| s@));
    r
}

impl Category {
    /// A category with the given name and items, in the given order.
    pub fn new(name: &str, items: &[&str]) -> (r: Category)
        ensures
            r@ == (name@, items@.map_values(|s: &str| s@)),
    {
        Category { name: String::from_str(name), items: owned_names(items) }
    }
}

/// The boss categories, in display order.
pub open spec fn boss_table() -> Seq<CategoryModel> {
    seq![
        ("World Bosses"@, seq![
            "Barrows"@,
            "Scurrius"@,
            "Giant Mole"@,
            "Deranged Archaeologist"@,
            "DKs"@,
            "Sarachnis"@,
            "Perilous Moons"@,
            "Kalphite Queen"@,
            "Corporeal Beast"@,
            "Zulrah"@,
            "Vorkath"@,
            "Phantom Muspah"@,
            "Nightmare / Phosani's Nightmare"@,
            "Duke Sucellus"@,
            "The Leviathan"@,
            "The Whisperer"@,
            "Vardorvis"@,
            "Obor"@,
            "Bryophyta"@,
            "The Mimic"@,
            "Hespori"@,
            "Skotizo"@,
            "Amoxliatl"@,
            "The Hueycoatl"@,
            "Royal Titans"@,
        ]),
        ("God Wars"@, seq![
            "Kree'arra"@,
            "Zilyana"@,
            "Graardor"@,
            "K'ril"@,
            "Nex"@,
        ]),
        ("Wilderness Bosses"@, seq![
            "Chaos Fanatic"@,
            "Crazy Archaeologist"@,
            "Scorpia"@,
            "King Black Dragon"@,
            "Vet'ion / Calvar'ion"@,
            "Venenatis / Spindel"@,
            "Callisto / Artio"@,
            "Chaos Elemental"@,
        ]),
        ("Slayer Only Bosses"@, seq![
            "Grotesque Guardians"@,
            "Abyssal Sire"@,
            "Kraken"@,
            "Cerberus"@,
            "Thermonuclear Smoke Devil"@,
            "Alchemical Hydra"@,
            "Araxxor"@,
        ]),
        ("Minigame Bosses"@, seq![
            "Gauntlet"@,
            "TzTok-Jad"@,
            "TzKal-Zuk"@,
            "Sol Heredit"@,
        ]),
        ("Skilling Bosses"@, seq![
            "Tempoross"@,
            "Wintertodt"@,
            "Zalcano"@,
        ]),
        ("Raids"@, seq![
            "Chambers of Xeric"@,
            "Tombs of Amascut"@,
            "Theatre of Blood"@,
        ]),
    ]
}

/// The trainable skills, in display order.
pub open spec fn skill_table() -> Seq<Seq<char>> {
    seq![
        "Attack"@,
        "Strength"@,
        "Defence"@,
        "Ranged"@,
        "Prayer"@,
        "Magic"@,
        "Hitpoints"@,
        "Runecraft"@,
        "Crafting"@,
        "Mining"@,
        "Smithing"@,
        "Fishing"@,
        "Cooking"@,
        "Firemaking"@,
        "Woodcutting"@,
        "Agility"@,
        "Herblore"@,
        "Thieving"@,
        "Fletching"@,
        "Slayer"@,
        "Farming"@,
        "Construction"@,
        "Hunter"@,
    ]
}

/// The built-in boss catalog.
pub fn boss_catalog() -> (r: Catalog)
    ensures
        r@ == boss_table(),
        r.wf(),
{
    let mut categories: Vec<Category> = Vec::new();
    let items: [&str; 25] = [
        "Barrows",
        "Scurrius",
        "Giant Mole",
        "Deranged Archaeologist",
        "DKs",
        "Sarachnis",
        "Perilous Moons",
        "Kalphite Queen",
        "Corporeal Beast",
        "Zulrah",
        "Vorkath",
        "Phantom Muspah",
        "Nightmare / Phosani's Nightmare",
        "Duke Sucellus",
        "The Leviathan",
        "The Whisperer",
        "Vardorvis",
        "Obor",
        "Bryophyta",
        "The Mimic",
        "Hespori",
        "Skotizo",
        "Amoxliatl",
        "The Hueycoatl",
        "Royal Titans",
    ];
    categories.push(Category::new("World Bosses", &items));
    assert(categories@[0]@.1 =~= boss_table()[0].1);
    let items: [&str; 5] = [
        "Kree'arra",
        "Zilyana",
        "Graardor",
        "K'ril",
        "Nex",
    ];
    categories.push(Category::new("God Wars", &items));
    assert(categories@[1]@.1 =~= boss_table()[1].1);
    let items: [&str; 8] = [
        "Chaos Fanatic",
        "Crazy Archaeologist",
        "Scorpia",
        "King Black Dragon",
        "Vet'ion / Calvar'ion",
        "Venenatis / Spindel",
        "Callisto / Artio",
        "Chaos Elemental",
    ];
    categories.push(Category::new("Wilderness Bosses", &items));
    assert(categories@[2]@.1 =~= boss_table()[2].1);
    let items: [&str; 7] = [
        "Grotesque Guardians",
        "Abyssal Sire",
        "Kraken",
        "Cerberus",
        "Thermonuclear Smoke Devil",
        "Alchemical Hydra",
        "Araxxor",
    ];
    categories.push(Category::new("Slayer Only Bosses", &items));
    assert(categories@[3]@.1 =~= boss_table()[3].1);
    let items: [&str; 4] = [
        "Gauntlet",
        "TzTok-Jad",
        "TzKal-Zuk",
        "Sol Heredit",
    ];
    categories.push(Category::new("Minigame Bosses", &items));
    assert(categories@[4]@.1 =~= boss_table()[4].1);
    let items: [&str; 3] = [
        "Tempoross",
        "Wintertodt",
        "Zalcano",
    ];
    categories.push(Category::new("Skilling Bosses", &items));
    assert(categories@[5]@.1 =~= boss_table()[5].1);
    let items: [&str; 3] = [
        "Chambers of Xeric",
        "Tombs of Amascut",
        "Theatre of Blood",
    ];
    categories.push(Category::new("Raids", &items));
    assert(categories@[6]@.1 =~= boss_table()[6].1);
    let r = Catalog { categories };
    proof {
        reveal_strlit("World Bosses");
        reveal_strlit("God Wars");
        reveal_strlit("Wilderness Bosses");
        reveal_strlit("Slayer Only Bosses");
        reveal_strlit("Minigame Bosses");
        reveal_strlit("Skilling Bosses");
        reveal_strlit("Raids");
        let t = boss_table();
        assert(t[0].0.len() != t[1].0.len() || t[0].0[0] != t[1].0[0]);
        assert(t[0].0.len() != t[2].0.len() || t[0].0[0] != t[2].0[0]);
        assert(t[0].0.len() != t[3].0.len() || t[0].0[0] != t[3].0[0]);
        assert(t[0].0.len() != t[4].0.len() || t[0].0[0] != t[4].0[0]);
        assert(t[0].0.len() != t[5].0.len() || t[0].0[0] != t[5].0[0]);
        assert(t[0].0.len() != t[6].0.len() || t[0].0[0] != t[6].0[0]);
        assert(t[1].0.len() != t[2].0.len() || t[1].0[0] != t[2].0[0]);
        assert(t[1].0.len() != t[3].0.len() || t[1].0[0] != t[3].0[0]);
        assert(t[1].0.len() != t[4].0.len() || t[1].0[0] != t[4].0[0]);
        assert(t[1].0.len() != t[5].0.len() || t[1].0[0] != t[5].0[0]);
        assert(t[1].0.len() != t[6].0.len() || t[1].0[0] != t[6].0[0]);
        assert(t[2].0.len() != t[3].0.len() || t[2].0[0] != t[3].0[0]);
        assert(t[2].0.len() != t[4].0.len() || t[2].0[0] != t[4].0[0]);
        assert(t[2].0.len() != t[5].0.len() || t[2].0[0] != t[5].0[0]);
        assert(t[2].0.len() != t[6].0.len() || t[2].0[0] != t[6].0[0]);
        assert(t[3].0.len() != t[4].0.len() || t[3].0[0] != t[4].0[0]);
        assert(t[3].0.len() != t[5].0.len() || t[3].0[0] != t[5].0[0]);
        assert(t[3].0.len() != t[6].0.len() || t[3].0[0] != t[6].0[0]);
        assert(t[4].0.len() != t[5].0.len() || t[4].0[0] != t[5].0[0]);
        assert(t[4].0.len() != t[6].0.len() || t[4].0[0] != t[6].0[0]);
        assert(t[5].0.len() != t[6].0.len() || t[5].0[0] != t[6].0[0]);
        assert forall|i: int, j: int| 0 <= i < j < t.len() implies #[trigger] t[i].0 != #[trigger] t[j].0 by {
            if i == 0 {} else if i == 1 {} else if i == 2 {} else if i == 3 {} else if i == 4 {} else {}
        }
    }
    assert(r@ =~= boss_table());
    r
}

/// The built-in list of trainable skills.
pub fn skills() -> (r: Vec<String>)
    ensures
        r@.map_values(|s: String| s@) == skill_table(),
{
    let list: [&str; 23] = [
        "Attack",
        "Strength",
        "Defence",
        "Ranged",
        "Prayer",
        "Magic",
        "Hitpoints",
        "Runecraft",
        "Crafting",
        "Mining",
        "Smithing",
        "Fishing",
        "Cooking",
        "Firemaking",
        "Woodcutting",
        "Agility",
        "Herblore",
        "Thieving",
        "Fletching",
        "Slayer",
        "Farming",
        "Construction",
        "Hunter",
    ];
    let r = owned_names(&list);
    assert(r@.map_values(|s: String| s@) =~= skill_table());
    r
}

} // verus!
