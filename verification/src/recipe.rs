use vstd::prelude::*;

use crate::gem::{GemGrade, GemKind, spec_gem_name, spec_grade_name};
use crate::special::SpecialGem;
use crate::text::push_str;

verus! {

/// A recipe: the tower being upgraded (`source`) becomes `result` by
/// sacrificing one placed tower of each `components` gem and grade.
#[derive(Debug)]
pub struct SpecialRecipe {
    pub result: SpecialGem,
    pub source: (GemKind, GemGrade),
    pub components: Vec<(GemKind, GemGrade)>,
}

/// The recipe table: result, source, components.
pub open spec fn recipe_table() -> Seq<(SpecialGem, (GemKind, GemGrade), Seq<(GemKind, GemGrade)>)> {
    seq![
        (SpecialGem::BlackOpal, (GemKind::Opal, GemGrade::Perfect), seq![(GemKind::Diamond, GemGrade::Cut), (GemKind::Aquamarine, GemGrade::Regular)]),
        (SpecialGem::BloodStone, (GemKind::Ruby, GemGrade::Perfect), seq![(GemKind::Aquamarine, GemGrade::Cut), (GemKind::Amethyst, GemGrade::Regular)]),
        (SpecialGem::Gold, (GemKind::Amethyst, GemGrade::Perfect), seq![(GemKind::Amethyst, GemGrade::Cut), (GemKind::Diamond, GemGrade::Flawed)]),
        (SpecialGem::Jade, (GemKind::Emerald, GemGrade::Regular), seq![(GemKind::Opal, GemGrade::Regular), (GemKind::Sapphire, GemGrade::Flawed)]),
        (SpecialGem::Malachite, (GemKind::Opal, GemGrade::Chipped), seq![(GemKind::Emerald, GemGrade::Chipped), (GemKind::Aquamarine, GemGrade::Chipped)]),
        (SpecialGem::PinkDiamond, (GemKind::Diamond, GemGrade::Perfect), seq![(GemKind::Diamond, GemGrade::Regular), (GemKind::Topaz, GemGrade::Regular)]),
        (SpecialGem::RedCrystal, (GemKind::Emerald, GemGrade::Cut), seq![(GemKind::Ruby, GemGrade::Regular), (GemKind::Amethyst, GemGrade::Flawed)]),
        (SpecialGem::Silver, (GemKind::Sapphire, GemGrade::Chipped), seq![(GemKind::Diamond, GemGrade::Chipped), (GemKind::Topaz, GemGrade::Chipped)]),
        (SpecialGem::StarRuby, (GemKind::Amethyst, GemGrade::Chipped), seq![(GemKind::Ruby, GemGrade::Chipped), (GemKind::Ruby, GemGrade::Flawed)]),
        (SpecialGem::Tourmaline, (GemKind::Aquamarine, GemGrade::Perfect), seq![(GemKind::Opal, GemGrade::Cut), (GemKind::Aquamarine, GemGrade::Flawed), (GemKind::Emerald, GemGrade::Flawed)]),
        (SpecialGem::Uranium238, (GemKind::Topaz, GemGrade::Perfect), seq![(GemKind::Opal, GemGrade::Flawed), (GemKind::Sapphire, GemGrade::Regular)]),
        (SpecialGem::YellowSapphire, (GemKind::Sapphire, GemGrade::Perfect), seq![(GemKind::Ruby, GemGrade::Cut), (GemKind::Topaz, GemGrade::Cut)]),
    ]
}

/// The special a recipe with this source makes, if there is one.
pub open spec fn spec_recipe_result(gem: GemKind, grade: GemGrade) -> Option<SpecialGem> {
    match (gem, grade) {
        (GemKind::Opal, GemGrade::Perfect) => Some(SpecialGem::BlackOpal),
        (GemKind::Ruby, GemGrade::Perfect) => Some(SpecialGem::BloodStone),
        (GemKind::Amethyst, GemGrade::Perfect) => Some(SpecialGem::Gold),
        (GemKind::Emerald, GemGrade::Regular) => Some(SpecialGem::Jade),
        (GemKind::Opal, GemGrade::Chipped) => Some(SpecialGem::Malachite),
        (GemKind::Diamond, GemGrade::Perfect) => Some(SpecialGem::PinkDiamond),
        (GemKind::Emerald, GemGrade::Cut) => Some(SpecialGem::RedCrystal),
        (GemKind::Sapphire, GemGrade::Chipped) => Some(SpecialGem::Silver),
        (GemKind::Amethyst, GemGrade::Chipped) => Some(SpecialGem::StarRuby),
        (GemKind::Aquamarine, GemGrade::Perfect) => Some(SpecialGem::Tourmaline),
        (GemKind::Topaz, GemGrade::Perfect) => Some(SpecialGem::Uranium238),
        (GemKind::Sapphire, GemGrade::Perfect) => Some(SpecialGem::YellowSapphire),
        _ => None,
    }
}

/// `recipe` is entry `i` of the table.
pub open spec fn is_table_recipe(recipe: SpecialRecipe, i: int) -> bool {
    &&& 0 <= i < recipe_table().len()
    &&& recipe.result == recipe_table()[i].0
    &&& recipe.source == recipe_table()[i].1
    &&& recipe.components@ == recipe_table()[i].2
}

/// No two recipes share a source.
pub proof fn law_recipe_sources_distinct()
    ensures
        forall|i: int, j: int| 0 <= i < j < recipe_table().len() ==> recipe_table()[i].1 != recipe_table()[j].1,
{
}

fn pieces(items: &[(GemKind, GemGrade)]) -> (v: Vec<(GemKind, GemGrade)>)
    ensures
        v@ == items@,
{
    let mut v: Vec<(GemKind, GemGrade)> = Vec::new();
    let mut i: usize = 0;
    while i < items.len()
        invariant
            i <= items@.len(),
            v@ == items@.subrange(0, i as int),
        decreases items@.len() - i,
    {
        v.push(items[i]);
        i = i + 1;
    }
    assert(v@ =~= items@);
    v
}

/// The recipe table.
pub fn special_recipes() -> (recipes: Vec<SpecialRecipe>)
    ensures
        recipes@.len() == recipe_table().len(),
        forall|i: int| 0 <= i < recipes@.len() ==> is_table_recipe(#[trigger] recipes@[i], i),
{
    let mut v: Vec<SpecialRecipe> = Vec::new();
    v.push(SpecialRecipe { result: SpecialGem::BlackOpal, source: (GemKind::Opal, GemGrade::Perfect), components: pieces(&[(GemKind::Diamond, GemGrade::Cut), (GemKind::Aquamarine, GemGrade::Regular)]) });
    v.push(SpecialRecipe { result: SpecialGem::BloodStone, source: (GemKind::Ruby, GemGrade::Perfect), components: pieces(&[(GemKind::Aquamarine, GemGrade::Cut), (GemKind::Amethyst, GemGrade::Regular)]) });
    v.push(SpecialRecipe { result: SpecialGem::Gold, source: (GemKind::Amethyst, GemGrade::Perfect), components: pieces(&[(GemKind::Amethyst, GemGrade::Cut), (GemKind::Diamond, GemGrade::Flawed)]) });
    v.push(SpecialRecipe { result: SpecialGem::Jade, source: (GemKind::Emerald, GemGrade::Regular), components: pieces(&[(GemKind::Opal, GemGrade::Regular), (GemKind::Sapphire, GemGrade::Flawed)]) });
    v.push(SpecialRecipe { result: SpecialGem::Malachite, source: (GemKind::Opal, GemGrade::Chipped), components: pieces(&[(GemKind::Emerald, GemGrade::Chipped), (GemKind::Aquamarine, GemGrade::Chipped)]) });
    v.push(SpecialRecipe { result: SpecialGem::PinkDiamond, source: (GemKind::Diamond, GemGrade::Perfect), components: pieces(&[(GemKind::Diamond, GemGrade::Regular), (GemKind::Topaz, GemGrade::Regular)]) });
    v.push(SpecialRecipe { result: SpecialGem::RedCrystal, source: (GemKind::Emerald, GemGrade::Cut), components: pieces(&[(GemKind::Ruby, GemGrade::Regular), (GemKind::Amethyst, GemGrade::Flawed)]) });
    v.push(SpecialRecipe { result: SpecialGem::Silver, source: (GemKind::Sapphire, GemGrade::Chipped), components: pieces(&[(GemKind::Diamond, GemGrade::Chipped), (GemKind::Topaz, GemGrade::Chipped)]) });
    v.push(SpecialRecipe { result: SpecialGem::StarRuby, source: (GemKind::Amethyst, GemGrade::Chipped), components: pieces(&[(GemKind::Ruby, GemGrade::Chipped), (GemKind::Ruby, GemGrade::Flawed)]) });
    v.push(SpecialRecipe { result: SpecialGem::Tourmaline, source: (GemKind::Aquamarine, GemGrade::Perfect), components: pieces(&[(GemKind::Opal, GemGrade::Cut), (GemKind::Aquamarine, GemGrade::Flawed), (GemKind::Emerald, GemGrade::Flawed)]) });
    v.push(SpecialRecipe { result: SpecialGem::Uranium238, source: (GemKind::Topaz, GemGrade::Perfect), components: pieces(&[(GemKind::Opal, GemGrade::Flawed), (GemKind::Sapphire, GemGrade::Regular)]) });
    v.push(SpecialRecipe { result: SpecialGem::YellowSapphire, source: (GemKind::Sapphire, GemGrade::Perfect), components: pieces(&[(GemKind::Ruby, GemGrade::Cut), (GemKind::Topaz, GemGrade::Cut)]) });
    assert forall|i: int| 0 <= i < v@.len() implies is_table_recipe(#[trigger] v@[i], i) by {
        assert(v@[i].components@ == recipe_table()[i].2);
    }
    v
}

/// The recipe whose source is this gem and grade, if any.
pub fn special_recipe_for_source(gem: GemKind, grade: GemGrade) -> (recipe: Option<SpecialRecipe>)
    ensures
        recipe is None <==> forall|i: int| 0 <= i < recipe_table().len() ==> (#[trigger] recipe_table()[i]).1 != (gem, grade),
        recipe matches Some(r) ==> r.source == (gem, grade) && exists|i: int| is_table_recipe(r, i),
        recipe matches Some(r) ==> spec_recipe_result(gem, grade) == Some(r.result),
        recipe is None <==> spec_recipe_result(gem, grade) is None,
{
    let mut recipes = special_recipes();
    let mut i: usize = 0;
    while i < recipes.len()
        invariant
            i <= recipes@.len(),
            recipes@.len() == recipe_table().len(),
            forall|t: int| 0 <= t < recipes@.len() ==> is_table_recipe(#[trigger] recipes@[t], t),
            forall|t: int| 0 <= t < i ==> (#[trigger] recipe_table()[t]).1 != (gem, grade),
        decreases recipes@.len() - i,
    {
        let src = recipes[i].source;
        if src.0 == gem && src.1 == grade {
            let r = recipes.swap_remove(i);
            assert(is_table_recipe(r, i as int));
            return Some(r);
        }
        i = i + 1;
    }
    None
}

/// "grade gem", e.g. "Cut Diamond".
pub open spec fn piece_name(piece: (GemKind, GemGrade)) -> Seq<char> {
    spec_grade_name(piece.1) + " "@ + spec_gem_name(piece.0)
}

/// Names of `pieces` joined with ", ".
pub open spec fn join_piece_names(pieces: Seq<(GemKind, GemGrade)>) -> Seq<char>
    decreases pieces.len(),
{
    if pieces.len() == 0 {
        Seq::empty()
    } else if pieces.len() == 1 {
        piece_name(pieces[0])
    } else {
        join_piece_names(pieces.drop_last()) + ", "@ + piece_name(pieces.last())
    }
}

/// "grade gem" for one recipe piece.
pub fn recipe_piece_name(piece: (GemKind, GemGrade)) -> (name: String)
    ensures
        name@ == piece_name(piece),
{
    let mut s = String::new();
    push_str(&mut s, piece.1.name());
    push_str(&mut s, " ");
    push_str(&mut s, piece.0.name());
    s
}

impl SpecialRecipe {
    /// The source and every component, each as "grade gem", joined by ", ".
    pub fn ingredient_summary(&self) -> (summary: String)
        ensures
            summary@ == join_piece_names(seq![self.source] + self.components@),
    {
        let ghost all = seq![self.source] + self.components@;
        let mut s = recipe_piece_name(self.source);
        let mut i: usize = 0;
        proof {
            assert(all.subrange(0, 1) =~= seq![self.source]);
        }
        while i < self.components.len()
            invariant
                i <= self.components@.len(),
                all == seq![self.source] + self.components@,
                s@ == join_piece_names(all.subrange(0, i + 1)),
            decreases self.components@.len() - i,
        {
            push_str(&mut s, ", ");
            let piece = recipe_piece_name(self.components[i]);
            push_str(&mut s, piece.as_str());
            proof {
                let next = all.subrange(0, i + 2);
                assert(next.drop_last() =~= all.subrange(0, i + 1));
                assert(next.last() == self.components@[i as int]);
            }
            i = i + 1;
        }
        proof {
            assert(all.subrange(0, self.components@.len() as int + 1) =~= all);
        }
        s
    }
}

} // verus!
