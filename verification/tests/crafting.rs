use mili_rust::crafting::{
    process_crafting, register_vanilla_recipes, CraftingInput, CraftingOutput, CraftingRecipe, CraftingRegistry,
    RecipeCategory,
};
use mili_rust::items::{Inventory, ItemKind, ItemStack};

fn grid(slots: [Option<(ItemKind, i8)>; 9]) -> CraftingInput {
    CraftingInput { slots }
}

const P: Option<(ItemKind, i8)> = Some((ItemKind::OakPlanks, 1));

#[test]
fn normalization_moves_shape_to_corner() {
    let g = grid([None, None, None, None, P, P, None, P, P]);
    let n = g.normalized();
    assert_eq!(n.slots, [P, P, None, P, P, None, None, None, None]);
    assert_eq!(n.normalized(), n);
    assert_eq!(g.width(), 3);
    assert_eq!(g.height(), 3);
    assert_eq!(n.width(), 2);
    assert_eq!(n.height(), 2);
}

#[test]
fn empty_grid_stays_empty() {
    let g = grid([None; 9]);
    assert_eq!(g.normalized().slots, [None; 9]);
    assert_eq!(g.width(), 0);
    assert_eq!(g.height(), 0);
}

#[test]
fn vanilla_recipes_are_registered_in_order() {
    let mut reg = CraftingRegistry::new();
    register_vanilla_recipes(&mut reg);
    assert_eq!(reg.recipes().len(), 24);
    assert_eq!(reg.recipes()[0].result, ItemStack::new(ItemKind::Stick, 4));
    assert_eq!(reg.recipes()[23].result, ItemStack::new(ItemKind::GoldIngot, 1));
    assert_eq!(reg.recipes()[23].pattern, [Some(ItemKind::GoldNugget); 9]);
}

#[test]
fn plank_anywhere_makes_sticks() {
    let mut reg = CraftingRegistry::new();
    register_vanilla_recipes(&mut reg);
    let g = grid([None, None, None, None, None, None, None, None, P]);
    let r = reg.find_match(&g).expect("a recipe matches");
    assert_eq!(r.result, ItemStack::new(ItemKind::Stick, 4));
    let table = grid([None, P, P, None, P, P, None, None, None]);
    assert_eq!(reg.find_match(&table).unwrap().result.item, ItemKind::CraftingTable);
    let nothing = grid([P, None, P, None, None, None, None, None, None]);
    assert!(reg.find_match(&nothing).is_none());
}

#[test]
fn shapeless_recipe_keeps_first_nine_in_order() {
    let r = CraftingRecipe::shapeless(
        vec![ItemKind::Wheat; 11],
        ItemStack::new(ItemKind::Bread, 1),
        RecipeCategory::Misc,
    );
    assert_eq!(r.pattern, [Some(ItemKind::Wheat); 9]);
    let one = CraftingRecipe::shapeless(vec![ItemKind::Wheat], ItemStack::new(ItemKind::Bread, 1), RecipeCategory::Misc);
    assert_eq!(one.pattern[0], Some(ItemKind::Wheat));
    assert_eq!(one.pattern[1], None);
    let g = grid([None, None, None, None, Some((ItemKind::Wheat, 3)), None, None, None, None]);
    assert!(one.matches(&g));
}

#[test]
fn crafting_output_follows_inventory_grid() {
    let mut reg = CraftingRegistry::new();
    register_vanilla_recipes(&mut reg);
    let mut inv = Inventory::new(10);
    inv.set_slot(5, ItemStack::new(ItemKind::Wheat, 2));
    let mut out = CraftingOutput::default();
    process_crafting(&reg, &inv, &mut out);
    assert_eq!(out.result, Some(ItemStack::new(ItemKind::Bread, 1)));
    inv.set_slot(5, ItemStack::empty());
    let g = CraftingInput::from_inventory(&inv, 1);
    assert_eq!(g.slots, [None; 9]);
    process_crafting(&reg, &inv, &mut out);
    assert_eq!(out.result, None);
}
