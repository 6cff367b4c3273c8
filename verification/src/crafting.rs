//! The crafting grid, crafting recipes and the recipe registry.
//!
//! A grid is nine slots, row by row. Before a recipe is matched the grid is
//! normalized: its occupied bounding box is moved to the top-left corner.
use vstd::prelude::*;
use crate::items::{ItemKind, ItemStack, Inventory, stack_empty};

verus! {

/// The nine slots of a 3x3 crafting grid, row by row.
#[derive(Clone, Copy, Debug, PartialEq, Eq, Hash)]
pub struct CraftingInput {
    pub slots: [Option<(ItemKind, i8)>; 9],
}

/// Whether row `r` of grid `s` holds anything.
pub open spec fn row_occupied(s: Seq<Option<(ItemKind, i8)>>, r: int) -> bool {
    s[3 * r] is Some || s[3 * r + 1] is Some || s[3 * r + 2] is Some
}

/// Whether column `c` of grid `s` holds anything.
pub open spec fn col_occupied(s: Seq<Option<(ItemKind, i8)>>, c: int) -> bool {
    s[c] is Some || s[c + 3] is Some || s[c + 6] is Some
}

/// Whether the grid holds nothing at all.
pub open spec fn grid_empty(s: Seq<Option<(ItemKind, i8)>>) -> bool {
    !row_occupied(s, 0) && !row_occupied(s, 1) && !row_occupied(s, 2)
}

/// The first occupied row (3 when there is none).
pub open spec fn min_row(s: Seq<Option<(ItemKind, i8)>>) -> int {
    if row_occupied(s, 0) {
        0
    } else if row_occupied(s, 1) {
        1
    } else if row_occupied(s, 2) {
        2
    } else {
        3
    }
}

/// The last occupied row (0 when there is none).
pub open spec fn max_row(s: Seq<Option<(ItemKind, i8)>>) -> int {
    if row_occupied(s, 2) {
        2
    } else if row_occupied(s, 1) {
        1
    } else {
        0
    }
}

/// The first occupied column (3 when there is none).
pub open spec fn min_col(s: Seq<Option<(ItemKind, i8)>>) -> int {
    if col_occupied(s, 0) {
        0
    } else if col_occupied(s, 1) {
        1
    } else if col_occupied(s, 2) {
        2
    } else {
        3
    }
}

/// The last occupied column (0 when there is none).
pub open spec fn max_col(s: Seq<Option<(ItemKind, i8)>>) -> int {
    if col_occupied(s, 2) {
        2
    } else if col_occupied(s, 1) {
        1
    } else {
        0
    }
}

/// Slot `k` of the normalized grid: the slot of `s` at the same offset from
/// the bounding box's top-left corner, empty outside the box.
pub open spec fn normalized_slot(s: Seq<Option<(ItemKind, i8)>>, k: int) -> Option<(ItemKind, i8)> {
    let r = k / 3;
    let c = k % 3;
    if !grid_empty(s) && r <= max_row(s) - min_row(s) && c <= max_col(s) - min_col(s) {
        s[(r + min_row(s)) * 3 + c + min_col(s)]
    } else {
        None
    }
}

/// The grid with its occupied bounding box moved to the top-left corner.
pub open spec fn spec_normalized(s: Seq<Option<(ItemKind, i8)>>) -> Seq<Option<(ItemKind, i8)>> {
    Seq::new(9, |k: int| normalized_slot(s, k))
}

/// One past the last occupied column, 0 for an empty grid.
pub open spec fn spec_width(s: Seq<Option<(ItemKind, i8)>>) -> int {
    if grid_empty(s) {
        0
    } else {
        max_col(s) + 1
    }
}

/// One past the last occupied row, 0 for an empty grid.
pub open spec fn spec_height(s: Seq<Option<(ItemKind, i8)>>) -> int {
    if grid_empty(s) {
        0
    } else {
        max_row(s) + 1
    }
}

fn slot_used(slots: &[Option<(ItemKind, i8)>; 9], k: usize) -> (b: bool)
    requires
        k < 9,
    ensures
        b == (slots@[k as int] is Some),
{
    slots[k].is_some()
}

fn row_used(slots: &[Option<(ItemKind, i8)>; 9], r: usize) -> (b: bool)
    requires
        r < 3,
    ensures
        b == row_occupied(slots@, r as int),
{
    slot_used(slots, 3 * r) || slot_used(slots, 3 * r + 1) || slot_used(slots, 3 * r + 2)
}

fn col_used(slots: &[Option<(ItemKind, i8)>; 9], c: usize) -> (b: bool)
    requires
        c < 3,
    ensures
        b == col_occupied(slots@, c as int),
{
    slot_used(slots, c) || slot_used(slots, c + 3) || slot_used(slots, c + 6)
}

/// What an inventory slot puts into the grid: its kind and count, or
/// nothing when it is empty.
pub open spec fn grid_slot_of(s: ItemStack) -> Option<(ItemKind, i8)> {
    if stack_empty(s) {
        None
    } else {
        Some((s.item, s.count))
    }
}

impl CraftingInput {
    /// The grid held by nine consecutive inventory slots from `start_slot`.
    pub fn from_inventory(inv: &Inventory, start_slot: u16) -> (g: CraftingInput)
        requires
            start_slot + 9 <= inv@.len(),
        ensures
            forall|k: int| 0 <= k < 9 ==> #[trigger] g.slots@[k] == grid_slot_of(inv@[start_slot + k]),
    {
        let n = inv.slot_count();
        let mut slots: [Option<(ItemKind, i8)>; 9] = [None; 9];
        let mut i: u16 = 0;
        while i < 9
            invariant
                i <= 9,
                n == inv@.len(),
                start_slot + 9 <= inv@.len(),
                forall|k: int| 0 <= k < i ==> #[trigger] slots@[k] == grid_slot_of(inv@[start_slot + k]),
                forall|k: int| i <= k < 9 ==> slots@[k] is None,
            decreases 9 - i,
        {
            let item = inv.slot(start_slot + i);
            if !item.is_empty() {
                slots.set(i as usize, Some((item.item, item.count)));
            }
            i = i + 1;
        }
        CraftingInput { slots }
    }

    /// The grid with its occupied bounding box moved to the top-left
    /// corner; an empty grid stays empty.
    pub fn normalized(&self) -> (n: CraftingInput)
        ensures
            n.slots@ == spec_normalized(self.slots@),
    {
        let s = &self.slots;
        let r0 = row_used(s, 0);
        let r1 = row_used(s, 1);
        let r2 = row_used(s, 2);
        let c0 = col_used(s, 0);
        let c1 = col_used(s, 1);
        let c2 = col_used(s, 2);
        let mut out: [Option<(ItemKind, i8)>; 9] = [None; 9];
        if !r0 && !r1 && !r2 {
            proof {
                assert(out@ =~= spec_normalized(self.slots@));
            }
            return CraftingInput { slots: out };
        }
        let min_r: usize = if r0 { 0 } else if r1 { 1 } else { 2 };
        let max_r: usize = if r2 { 2 } else if r1 { 1 } else { 0 };
        let min_c: usize = if c0 { 0 } else if c1 { 1 } else { 2 };
        let max_c: usize = if c2 { 2 } else if c1 { 1 } else { 0 };
        assert(min_r == min_row(self.slots@) && max_r == max_row(self.slots@));
        assert(min_c == min_col(self.slots@) && max_c == max_col(self.slots@));
        let mut k: usize = 0;
        while k < 9
            invariant
                k <= 9,
                !grid_empty(self.slots@),
                min_r == min_row(self.slots@),
                max_r == max_row(self.slots@),
                min_c == min_col(self.slots@),
                max_c == max_col(self.slots@),
                min_r <= max_r,
                min_c <= max_c,
                forall|j: int| 0 <= j < k ==> out@[j] == normalized_slot(self.slots@, j),
                forall|j: int| k <= j < 9 ==> out@[j] is None,
            decreases 9 - k,
        {
            let r = k / 3;
            let c = k % 3;
            if r <= max_r - min_r && c <= max_c - min_c {
                let v = self.slots[(r + min_r) * 3 + c + min_c];
                out.set(k, v);
            }
            k = k + 1;
        }
        proof {
            assert(out@ =~= spec_normalized(self.slots@));
        }
        CraftingInput { slots: out }
    }

    /// One past the last occupied column, 0 for an empty grid.
    pub fn width(&self) -> (w: usize)
        ensures
            w == spec_width(self.slots@),
    {
        let s = &self.slots;
        if col_used(s, 2) {
            3
        } else if col_used(s, 1) {
            2
        } else if col_used(s, 0) {
            1
        } else {
            proof {
                assert(!row_occupied(self.slots@, 0));
                assert(!row_occupied(self.slots@, 1));
                assert(!row_occupied(self.slots@, 2));
            }
            0
        }
    }

    /// One past the last occupied row, 0 for an empty grid.
    pub fn height(&self) -> (h: usize)
        ensures
            h == spec_height(self.slots@),
    {
        let s = &self.slots;
        if row_used(s, 2) {
            3
        } else if row_used(s, 1) {
            2
        } else if row_used(s, 0) {
            1
        } else {
            0
        }
    }
}

/// Normalizing a normalized grid changes nothing.
pub proof fn lemma_normalized_idempotent(s: Seq<Option<(ItemKind, i8)>>)
    requires
        s.len() == 9,
    ensures
        spec_normalized(spec_normalized(s)) == spec_normalized(s),
{
    let n = spec_normalized(s);
    assert(n[0] == normalized_slot(s, 0));
    assert(n[1] == normalized_slot(s, 1));
    assert(n[2] == normalized_slot(s, 2));
    assert(n[3] == normalized_slot(s, 3));
    assert(n[4] == normalized_slot(s, 4));
    assert(n[5] == normalized_slot(s, 5));
    assert(n[6] == normalized_slot(s, 6));
    assert(n[7] == normalized_slot(s, 7));
    assert(n[8] == normalized_slot(s, 8));
    if !grid_empty(s) {
        assert(!grid_empty(n));
        assert(min_row(n) == 0);
        assert(min_col(n) == 0);
        assert(max_row(n) == max_row(s) - min_row(s));
        assert(max_col(n) == max_col(s) - min_col(s));
    }
    assert(spec_normalized(n) =~= n);
}

/// Normalizing keeps a grid's shape: it is empty exactly when the grid is,
/// and otherwise its width and height are those of the grid's bounding box.
pub proof fn lemma_normalized_shape(s: Seq<Option<(ItemKind, i8)>>)
    requires
        s.len() == 9,
    ensures
        grid_empty(spec_normalized(s)) == grid_empty(s),
        !grid_empty(s) ==> spec_width(spec_normalized(s)) == max_col(s) - min_col(s) + 1,
        !grid_empty(s) ==> spec_height(spec_normalized(s)) == max_row(s) - min_row(s) + 1,
{
    let n = spec_normalized(s);
    assert(n[0] == normalized_slot(s, 0));
    assert(n[1] == normalized_slot(s, 1));
    assert(n[2] == normalized_slot(s, 2));
    assert(n[3] == normalized_slot(s, 3));
    assert(n[4] == normalized_slot(s, 4));
    assert(n[5] == normalized_slot(s, 5));
    assert(n[6] == normalized_slot(s, 6));
    assert(n[7] == normalized_slot(s, 7));
    assert(n[8] == normalized_slot(s, 8));
}

/// A shaped recipe: the item (or nothing) each slot of the normalized grid
/// must hold, and the stack it makes.
#[derive(Clone, Copy, Debug)]
pub struct CraftingRecipe {
    pub pattern: [Option<ItemKind>; 9],
    pub result: ItemStack,
    pub category: RecipeCategory,
}

/// The recipe book tab a recipe is listed under.
#[derive(Clone, Copy, Debug, PartialEq, Eq, Structural)]
pub enum RecipeCategory {
    Building,
    Redstone,
    Equipment,
    Misc,
}

impl View for CraftingRecipe {
    type V = (Seq<Option<ItemKind>>, ItemStack, RecipeCategory);

    open spec fn view(&self) -> (Seq<Option<ItemKind>>, ItemStack, RecipeCategory) {
        (self.pattern@, self.result, self.category)
    }
}

/// A pattern slot accepts a grid slot when both are empty or both hold the
/// same item kind, whatever the count.
pub open spec fn slot_accepts(p: Option<ItemKind>, g: Option<(ItemKind, i8)>) -> bool {
    match (p, g) {
        (Some(a), Some((b, _))) => a == b,
        (None, None) => true,
        _ => false,
    }
}

/// A pattern matches a grid when every slot of the normalized grid is
/// accepted by the pattern slot in the same place.
pub open spec fn pattern_matches(p: Seq<Option<ItemKind>>, grid: Seq<Option<(ItemKind, i8)>>) -> bool {
    forall|k: int| 0 <= k < 9 ==> #[trigger] slot_accepts(p[k], spec_normalized(grid)[k])
}

/// The pattern of a shapeless recipe: its first nine ingredients in order,
/// then empty slots.
pub open spec fn shapeless_pattern(ingredients: Seq<ItemKind>) -> Seq<Option<ItemKind>> {
    Seq::new(9, |k: int| if k < ingredients.len() { Some(ingredients[k]) } else { None })
}

/// Where the ingredients sit in the grid does not matter, only their shape:
/// a pattern matches a grid exactly when it matches the grid normalized.
pub proof fn lemma_matches_normalized(p: Seq<Option<ItemKind>>, grid: Seq<Option<(ItemKind, i8)>>)
    requires
        grid.len() == 9,
    ensures
        pattern_matches(p, grid) == pattern_matches(p, spec_normalized(grid)),
{
    lemma_normalized_idempotent(grid);
}

impl CraftingRecipe {
    /// A recipe with the given pattern.
    pub fn shaped(pattern: [Option<ItemKind>; 9], result: ItemStack, category: RecipeCategory) -> (r: CraftingRecipe)
        ensures
            r.pattern == pattern,
            r.result == result,
            r.category == category,
    {
        CraftingRecipe { pattern, result, category }
    }

    /// A recipe whose pattern is the ingredients laid into the grid in
    /// order; ingredients past the ninth are dropped.
    pub fn shapeless(ingredients: Vec<ItemKind>, result: ItemStack, category: RecipeCategory) -> (r: CraftingRecipe)
        ensures
            r.pattern@ == shapeless_pattern(ingredients@),
            r.result == result,
            r.category == category,
    {
        let mut pattern: [Option<ItemKind>; 9] = [None; 9];
        let mut i: usize = 0;
        while i < ingredients.len() && i < 9
            invariant
                i <= 9,
                i <= ingredients.len(),
                forall|j: int| 0 <= j < i ==> pattern@[j] == Some(ingredients@[j]),
                forall|j: int| i <= j < 9 ==> pattern@[j] is None,
            decreases 9 - i,
        {
            pattern.set(i, Some(ingredients[i]));
            i = i + 1;
        }
        proof {
            assert(pattern@ =~= shapeless_pattern(ingredients@));
        }
        CraftingRecipe { pattern, result, category }
    }

    /// Whether the grid, normalized, fits this recipe's pattern.
    pub fn matches(&self, input: &CraftingInput) -> (b: bool)
        ensures
            b == pattern_matches(self.pattern@, input.slots@),
    {
        let normalized = input.normalized();
        let mut i: usize = 0;
        while i < 9
            invariant
                i <= 9,
                normalized.slots@ == spec_normalized(input.slots@),
                forall|j: int| 0 <= j < i ==> slot_accepts(self.pattern@[j], normalized.slots@[j]),
            decreases 9 - i,
        {
            let ok = match (self.pattern[i], normalized.slots[i]) {
                (Some(a), Some((b, _))) => a == b,
                (None, None) => true,
                _ => false,
            };
            if !ok {
                assert(!slot_accepts(self.pattern@[i as int], spec_normalized(input.slots@)[i as int]));
                return false;
            }
            i = i + 1;
        }
        true
    }
}

/// Whether the recipe at index `i` of `rs` matches `grid` and none before
/// it does.
pub open spec fn first_match_at(rs: Seq<CraftingRecipe>, grid: Seq<Option<(ItemKind, i8)>>, i: int) -> bool {
    &&& 0 <= i < rs.len()
    &&& pattern_matches(rs[i].pattern@, grid)
    &&& forall|j: int| 0 <= j < i ==> !pattern_matches(#[trigger] rs[j].pattern@, grid)
}

/// The recipes known to the server, in the order they were registered.
pub struct CraftingRegistry {
    recipes: Vec<CraftingRecipe>,
}

impl View for CraftingRegistry {
    type V = Seq<CraftingRecipe>;

    closed spec fn view(&self) -> Seq<CraftingRecipe> {
        self.recipes@
    }
}

impl Default for CraftingRegistry {
    fn default() -> (r: CraftingRegistry)
        ensures
            r@ == Seq::<CraftingRecipe>::empty(),
    {
        CraftingRegistry { recipes: Vec::new() }
    }
}

impl CraftingRegistry {
    /// An empty registry.
    pub fn new() -> (r: CraftingRegistry)
        ensures
            r@ == Seq::<CraftingRecipe>::empty(),
    {
        CraftingRegistry { recipes: Vec::new() }
    }

    /// Adds a recipe after the ones already registered.
    pub fn register(&mut self, recipe: CraftingRecipe)
        ensures
            final(self)@ == old(self)@.push(recipe),
    {
        self.recipes.push(recipe);
    }

    /// The first registered recipe that matches the grid.
    pub fn find_match(&self, input: &CraftingInput) -> (r: Option<&CraftingRecipe>)
        ensures
            r is None <==> forall|i: int| 0 <= i < self@.len() ==> !pattern_matches(#[trigger] self@[i].pattern@, input.slots@),
            r matches Some(rec) ==> exists|i: int| first_match_at(self@, input.slots@, i) && self@[i] == *rec,
    {
        let mut i: usize = 0;
        while i < self.recipes.len()
            invariant
                i <= self.recipes@.len(),
                forall|j: int| 0 <= j < i ==> !pattern_matches(#[trigger] self.recipes@[j].pattern@, input.slots@),
            decreases self.recipes@.len() - i,
        {
            if self.recipes[i].matches(input) {
                assert(first_match_at(self@, input.slots@, i as int));
                return Some(&self.recipes[i]);
            }
            i = i + 1;
        }
        None
    }

    /// Every registered recipe, in order.
    pub fn recipes(&self) -> (s: &[CraftingRecipe])
        ensures
            s@ == self@,
    {
        self.recipes.as_slice()
    }
}

/// The result slot of a crafting grid.
#[derive(Clone, Copy, Debug)]
pub struct CraftingOutput {
    pub result: Option<ItemStack>,
}

impl Default for CraftingOutput {
    fn default() -> (o: CraftingOutput)
        ensures
            o.result is None,
    {
        CraftingOutput { result: None }
    }
}

/// Refreshes a crafting output from the grid in slots 1 to 9 of the
/// inventory: the result of the first registered recipe that matches, or
/// nothing.
pub fn process_crafting(registry: &CraftingRegistry, inventory: &Inventory, output: &mut CraftingOutput)
    requires
        10 <= inventory@.len(),
    ensures
        ({
            let grid = Seq::new(9, |k: int| grid_slot_of(inventory@[1 + k]));
            &&& final(output).result is None <==> forall|i: int| 0 <= i < registry@.len() ==> !pattern_matches(#[trigger] registry@[i].pattern@, grid)
            &&& final(output).result matches Some(res) ==> exists|i: int| first_match_at(registry@, grid, i) && registry@[i].result == res
        }),
{
    let input = CraftingInput::from_inventory(inventory, 1);
    proof {
        assert(input.slots@ =~= Seq::new(9, |k: int| grid_slot_of(inventory@[1 + k])));
    }
    match registry.find_match(&input) {
        Some(recipe) => {
            output.result = Some(recipe.result);
        },
        None => {
            output.result = None;
        },
    }
}

/// The built-in recipes, in registration order.
pub open spec fn vanilla_recipes() -> Seq<(Seq<Option<ItemKind>>, ItemStack, RecipeCategory)> {
    seq![
        (seq![Some(ItemKind::OakPlanks), None, None, None, None, None, None, None, None], ItemStack { item: ItemKind::Stick, count: 4 }, RecipeCategory::Misc),
        (seq![Some(ItemKind::OakPlanks), Some(ItemKind::OakPlanks), None, Some(ItemKind::OakPlanks), Some(ItemKind::OakPlanks), None, None, None, None], ItemStack { item: ItemKind::CraftingTable, count: 1 }, RecipeCategory::Building),
        (seq![Some(ItemKind::Cobblestone), Some(ItemKind::Cobblestone), Some(ItemKind::Cobblestone), None, Some(ItemKind::Stick), None, None, Some(ItemKind::Stick), None], ItemStack { item: ItemKind::StoneAxe, count: 1 }, RecipeCategory::Equipment),
        (seq![None, Some(ItemKind::Cobblestone), None, None, Some(ItemKind::Stick), None, None, Some(ItemKind::Stick), None], ItemStack { item: ItemKind::StoneShovel, count: 1 }, RecipeCategory::Equipment),
        (seq![Some(ItemKind::Cobblestone), Some(ItemKind::Cobblestone), Some(ItemKind::Cobblestone), None, None, None, None, None, None], ItemStack { item: ItemKind::StoneSlab, count: 6 }, RecipeCategory::Building),
        (seq![Some(ItemKind::IronIngot), Some(ItemKind::IronIngot), Some(ItemKind::IronIngot), None, Some(ItemKind::Stick), None, None, Some(ItemKind::Stick), None], ItemStack { item: ItemKind::IronPickaxe, count: 1 }, RecipeCategory::Equipment),
        (seq![Some(ItemKind::IronIngot), None, None, Some(ItemKind::IronIngot), None, None, Some(ItemKind::Stick), Some(ItemKind::Stick), None], ItemStack { item: ItemKind::IronSword, count: 1 }, RecipeCategory::Equipment),
        (seq![Some(ItemKind::IronIngot), Some(ItemKind::IronIngot), Some(ItemKind::IronIngot), Some(ItemKind::IronIngot), None, Some(ItemKind::IronIngot), Some(ItemKind::IronIngot), None, Some(ItemKind::IronIngot)], ItemStack { item: ItemKind::IronChestplate, count: 1 }, RecipeCategory::Equipment),
        (seq![Some(ItemKind::IronIngot), Some(ItemKind::IronIngot), Some(ItemKind::IronIngot), Some(ItemKind::IronIngot), None, Some(ItemKind::IronIngot), None, None, None], ItemStack { item: ItemKind::IronHelmet, count: 1 }, RecipeCategory::Equipment),
        (seq![Some(ItemKind::IronIngot), None, Some(ItemKind::IronIngot), Some(ItemKind::IronIngot), Some(ItemKind::IronIngot), Some(ItemKind::IronIngot), Some(ItemKind::IronIngot), Some(ItemKind::IronIngot), Some(ItemKind::IronIngot)], ItemStack { item: ItemKind::IronLeggings, count: 1 }, RecipeCategory::Equipment),
        (seq![Some(ItemKind::IronIngot), Some(ItemKind::IronIngot), None, Some(ItemKind::IronIngot), Some(ItemKind::IronIngot), None, None, None, None], ItemStack { item: ItemKind::IronBoots, count: 1 }, RecipeCategory::Equipment),
        (seq![Some(ItemKind::OakPlanks), Some(ItemKind::OakPlanks), Some(ItemKind::OakPlanks), Some(ItemKind::OakPlanks), None, Some(ItemKind::OakPlanks), Some(ItemKind::OakPlanks), Some(ItemKind::OakPlanks), Some(ItemKind::OakPlanks)], ItemStack { item: ItemKind::Chest, count: 1 }, RecipeCategory::Building),
        (seq![Some(ItemKind::IronIngot), None, Some(ItemKind::IronIngot), Some(ItemKind::IronIngot), Some(ItemKind::IronIngot), Some(ItemKind::IronIngot), None, Some(ItemKind::IronIngot), None], ItemStack { item: ItemKind::Bucket, count: 1 }, RecipeCategory::Misc),
        (seq![Some(ItemKind::Cobblestone), Some(ItemKind::Cobblestone), Some(ItemKind::Cobblestone), Some(ItemKind::Cobblestone), None, Some(ItemKind::Cobblestone), Some(ItemKind::Cobblestone), Some(ItemKind::Cobblestone), Some(ItemKind::Cobblestone)], ItemStack { item: ItemKind::Furnace, count: 1 }, RecipeCategory::Building),
        (seq![Some(ItemKind::Redstone), Some(ItemKind::Redstone), Some(ItemKind::Redstone), Some(ItemKind::Redstone), Some(ItemKind::Redstone), Some(ItemKind::Redstone), Some(ItemKind::Redstone), Some(ItemKind::Redstone), Some(ItemKind::Redstone)], ItemStack { item: ItemKind::RedstoneLamp, count: 1 }, RecipeCategory::Redstone),
        (seq![None, Some(ItemKind::Redstone), None, Some(ItemKind::Redstone), Some(ItemKind::Stick), Some(ItemKind::Redstone), Some(ItemKind::OakPlanks), Some(ItemKind::OakPlanks), Some(ItemKind::OakPlanks)], ItemStack { item: ItemKind::Repeater, count: 1 }, RecipeCategory::Redstone),
        (seq![None, Some(ItemKind::RedstoneTorch), None, Some(ItemKind::RedstoneTorch), Some(ItemKind::Quartz), Some(ItemKind::RedstoneTorch), Some(ItemKind::Stone), Some(ItemKind::Stone), Some(ItemKind::Stone)], ItemStack { item: ItemKind::Comparator, count: 1 }, RecipeCategory::Redstone),
        (seq![Some(ItemKind::OakPlanks), None, Some(ItemKind::OakPlanks), Some(ItemKind::OakPlanks), Some(ItemKind::OakPlanks), Some(ItemKind::OakPlanks), Some(ItemKind::OakPlanks), None, Some(ItemKind::OakPlanks)], ItemStack { item: ItemKind::OakBoat, count: 1 }, RecipeCategory::Misc),
        (seq![Some(ItemKind::OakPlanks), Some(ItemKind::OakPlanks), Some(ItemKind::OakPlanks), Some(ItemKind::OakPlanks), Some(ItemKind::OakPlanks), Some(ItemKind::OakPlanks), None, None, None], ItemStack { item: ItemKind::OakDoor, count: 3 }, RecipeCategory::Building),
        (seq![Some(ItemKind::OakPlanks), Some(ItemKind::OakPlanks), None, Some(ItemKind::OakPlanks), Some(ItemKind::OakPlanks), None, None, None, None], ItemStack { item: ItemKind::OakTrapdoor, count: 2 }, RecipeCategory::Building),
        (seq![Some(ItemKind::OakPlanks), Some(ItemKind::OakPlanks), Some(ItemKind::OakPlanks), None, None, None, None, None, None], ItemStack { item: ItemKind::OakSlab, count: 6 }, RecipeCategory::Building),
        (shapeless_pattern(seq![ItemKind::Wheat]), ItemStack { item: ItemKind::Bread, count: 1 }, RecipeCategory::Misc),
        (shapeless_pattern(seq![ItemKind::Cobblestone, ItemKind::Cobblestone, ItemKind::Cobblestone, ItemKind::Cobblestone, ItemKind::Cobblestone, ItemKind::Cobblestone, ItemKind::Cobblestone, ItemKind::Cobblestone]), ItemStack { item: ItemKind::Furnace, count: 1 }, RecipeCategory::Building),
        (shapeless_pattern(seq![ItemKind::GoldNugget, ItemKind::GoldNugget, ItemKind::GoldNugget, ItemKind::GoldNugget, ItemKind::GoldNugget, ItemKind::GoldNugget, ItemKind::GoldNugget, ItemKind::GoldNugget, ItemKind::GoldNugget]), ItemStack { item: ItemKind::GoldIngot, count: 1 }, RecipeCategory::Misc),
    ]
}

/// The view of each recipe of a sequence.
pub open spec fn recipe_views(rs: Seq<CraftingRecipe>) -> Seq<(Seq<Option<ItemKind>>, ItemStack, RecipeCategory)> {
    rs.map_values(|r: CraftingRecipe| r@)
}

/// Registers the built-in recipes after those already in the registry.
pub fn register_vanilla_recipes(registry: &mut CraftingRegistry)
    ensures
        recipe_views(final(registry)@) == recipe_views(old(registry)@) + vanilla_recipes(),
{
    let r = CraftingRecipe::shaped(
        [Some(ItemKind::OakPlanks), None, None, None, None, None, None, None, None],
        ItemStack::new(ItemKind::Stick, 4),
        RecipeCategory::Misc,
    );
    proof {
        assert(r@ == vanilla_recipes()[0]);
    }
    registry.register(r);
    proof {
        assert(recipe_views(registry@) =~= recipe_views(old(registry)@) + vanilla_recipes().take(1));
    }
    let r = CraftingRecipe::shaped(
        [Some(ItemKind::OakPlanks), Some(ItemKind::OakPlanks), None, Some(ItemKind::OakPlanks), Some(ItemKind::OakPlanks), None, None, None, None],
        ItemStack::new(ItemKind::CraftingTable, 1),
        RecipeCategory::Building,
    );
    proof {
        assert(r@ == vanilla_recipes()[1]);
    }
    registry.register(r);
    proof {
        assert(recipe_views(registry@) =~= recipe_views(old(registry)@) + vanilla_recipes().take(2));
    }
    let r = CraftingRecipe::shaped(
        [Some(ItemKind::Cobblestone), Some(ItemKind::Cobblestone), Some(ItemKind::Cobblestone), None, Some(ItemKind::Stick), None, None, Some(ItemKind::Stick), None],
        ItemStack::new(ItemKind::StoneAxe, 1),
        RecipeCategory::Equipment,
    );
    proof {
        assert(r@ == vanilla_recipes()[2]);
    }
    registry.register(r);
    proof {
        assert(recipe_views(registry@) =~= recipe_views(old(registry)@) + vanilla_recipes().take(3));
    }
    let r = CraftingRecipe::shaped(
        [None, Some(ItemKind::Cobblestone), None, None, Some(ItemKind::Stick), None, None, Some(ItemKind::Stick), None],
        ItemStack::new(ItemKind::StoneShovel, 1),
        RecipeCategory::Equipment,
    );
    proof {
        assert(r@ == vanilla_recipes()[3]);
    }
    registry.register(r);
    proof {
        assert(recipe_views(registry@) =~= recipe_views(old(registry)@) + vanilla_recipes().take(4));
    }
    let r = CraftingRecipe::shaped(
        [Some(ItemKind::Cobblestone), Some(ItemKind::Cobblestone), Some(ItemKind::Cobblestone), None, None, None, None, None, None],
        ItemStack::new(ItemKind::StoneSlab, 6),
        RecipeCategory::Building,
    );
    proof {
        assert(r@ == vanilla_recipes()[4]);
    }
    registry.register(r);
    proof {
        assert(recipe_views(registry@) =~= recipe_views(old(registry)@) + vanilla_recipes().take(5));
    }
    let r = CraftingRecipe::shaped(
        [Some(ItemKind::IronIngot), Some(ItemKind::IronIngot), Some(ItemKind::IronIngot), None, Some(ItemKind::Stick), None, None, Some(ItemKind::Stick), None],
        ItemStack::new(ItemKind::IronPickaxe, 1),
        RecipeCategory::Equipment,
    );
    proof {
        assert(r@ == vanilla_recipes()[5]);
    }
    registry.register(r);
    proof {
        assert(recipe_views(registry@) =~= recipe_views(old(registry)@) + vanilla_recipes().take(6));
    }
    let r = CraftingRecipe::shaped(
        [Some(ItemKind::IronIngot), None, None, Some(ItemKind::IronIngot), None, None, Some(ItemKind::Stick), Some(ItemKind::Stick), None],
        ItemStack::new(ItemKind::IronSword, 1),
        RecipeCategory::Equipment,
    );
    proof {
        assert(r@ == vanilla_recipes()[6]);
    }
    registry.register(r);
    proof {
        assert(recipe_views(registry@) =~= recipe_views(old(registry)@) + vanilla_recipes().take(7));
    }
    let r = CraftingRecipe::shaped(
        [Some(ItemKind::IronIngot), Some(ItemKind::IronIngot), Some(ItemKind::IronIngot), Some(ItemKind::IronIngot), None, Some(ItemKind::IronIngot), Some(ItemKind::IronIngot), None, Some(ItemKind::IronIngot)],
        ItemStack::new(ItemKind::IronChestplate, 1),
        RecipeCategory::Equipment,
    );
    proof {
        assert(r@ == vanilla_recipes()[7]);
    }
    registry.register(r);
    proof {
        assert(recipe_views(registry@) =~= recipe_views(old(registry)@) + vanilla_recipes().take(8));
    }
    let r = CraftingRecipe::shaped(
        [Some(ItemKind::IronIngot), Some(ItemKind::IronIngot), Some(ItemKind::IronIngot), Some(ItemKind::IronIngot), None, Some(ItemKind::IronIngot), None, None, None],
        ItemStack::new(ItemKind::IronHelmet, 1),
        RecipeCategory::Equipment,
    );
    proof {
        assert(r@ == vanilla_recipes()[8]);
    }
    registry.register(r);
    proof {
        assert(recipe_views(registry@) =~= recipe_views(old(registry)@) + vanilla_recipes().take(9));
    }
    let r = CraftingRecipe::shaped(
        [Some(ItemKind::IronIngot), None, Some(ItemKind::IronIngot), Some(ItemKind::IronIngot), Some(ItemKind::IronIngot), Some(ItemKind::IronIngot), Some(ItemKind::IronIngot), Some(ItemKind::IronIngot), Some(ItemKind::IronIngot)],
        ItemStack::new(ItemKind::IronLeggings, 1),
        RecipeCategory::Equipment,
    );
    proof {
        assert(r@ == vanilla_recipes()[9]);
    }
    registry.register(r);
    proof {
        assert(recipe_views(registry@) =~= recipe_views(old(registry)@) + vanilla_recipes().take(10));
    }
    let r = CraftingRecipe::shaped(
        [Some(ItemKind::IronIngot), Some(ItemKind::IronIngot), None, Some(ItemKind::IronIngot), Some(ItemKind::IronIngot), None, None, None, None],
        ItemStack::new(ItemKind::IronBoots, 1),
        RecipeCategory::Equipment,
    );
    proof {
        assert(r@ == vanilla_recipes()[10]);
    }
    registry.register(r);
    proof {
        assert(recipe_views(registry@) =~= recipe_views(old(registry)@) + vanilla_recipes().take(11));
    }
    let r = CraftingRecipe::shaped(
        [Some(ItemKind::OakPlanks), Some(ItemKind::OakPlanks), Some(ItemKind::OakPlanks), Some(ItemKind::OakPlanks), None, Some(ItemKind::OakPlanks), Some(ItemKind::OakPlanks), Some(ItemKind::OakPlanks), Some(ItemKind::OakPlanks)],
        ItemStack::new(ItemKind::Chest, 1),
        RecipeCategory::Building,
    );
    proof {
        assert(r@ == vanilla_recipes()[11]);
    }
    registry.register(r);
    proof {
        assert(recipe_views(registry@) =~= recipe_views(old(registry)@) + vanilla_recipes().take(12));
    }
    let r = CraftingRecipe::shaped(
        [Some(ItemKind::IronIngot), None, Some(ItemKind::IronIngot), Some(ItemKind::IronIngot), Some(ItemKind::IronIngot), Some(ItemKind::IronIngot), None, Some(ItemKind::IronIngot), None],
        ItemStack::new(ItemKind::Bucket, 1),
        RecipeCategory::Misc,
    );
    proof {
        assert(r@ == vanilla_recipes()[12]);
    }
    registry.register(r);
    proof {
        assert(recipe_views(registry@) =~= recipe_views(old(registry)@) + vanilla_recipes().take(13));
    }
    let r = CraftingRecipe::shaped(
        [Some(ItemKind::Cobblestone), Some(ItemKind::Cobblestone), Some(ItemKind::Cobblestone), Some(ItemKind::Cobblestone), None, Some(ItemKind::Cobblestone), Some(ItemKind::Cobblestone), Some(ItemKind::Cobblestone), Some(ItemKind::Cobblestone)],
        ItemStack::new(ItemKind::Furnace, 1),
        RecipeCategory::Building,
    );
    proof {
        assert(r@ == vanilla_recipes()[13]);
    }
    registry.register(r);
    proof {
        assert(recipe_views(registry@) =~= recipe_views(old(registry)@) + vanilla_recipes().take(14));
    }
    let r = CraftingRecipe::shaped(
        [Some(ItemKind::Redstone), Some(ItemKind::Redstone), Some(ItemKind::Redstone), Some(ItemKind::Redstone), Some(ItemKind::Redstone), Some(ItemKind::Redstone), Some(ItemKind::Redstone), Some(ItemKind::Redstone), Some(ItemKind::Redstone)],
        ItemStack::new(ItemKind::RedstoneLamp, 1),
        RecipeCategory::Redstone,
    );
    proof {
        assert(r@ == vanilla_recipes()[14]);
    }
    registry.register(r);
    proof {
        assert(recipe_views(registry@) =~= recipe_views(old(registry)@) + vanilla_recipes().take(15));
    }
    let r = CraftingRecipe::shaped(
        [None, Some(ItemKind::Redstone), None, Some(ItemKind::Redstone), Some(ItemKind::Stick), Some(ItemKind::Redstone), Some(ItemKind::OakPlanks), Some(ItemKind::OakPlanks), Some(ItemKind::OakPlanks)],
        ItemStack::new(ItemKind::Repeater, 1),
        RecipeCategory::Redstone,
    );
    proof {
        assert(r@ == vanilla_recipes()[15]);
    }
    registry.register(r);
    proof {
        assert(recipe_views(registry@) =~= recipe_views(old(registry)@) + vanilla_recipes().take(16));
    }
    let r = CraftingRecipe::shaped(
        [None, Some(ItemKind::RedstoneTorch), None, Some(ItemKind::RedstoneTorch), Some(ItemKind::Quartz), Some(ItemKind::RedstoneTorch), Some(ItemKind::Stone), Some(ItemKind::Stone), Some(ItemKind::Stone)],
        ItemStack::new(ItemKind::Comparator, 1),
        RecipeCategory::Redstone,
    );
    proof {
        assert(r@ == vanilla_recipes()[16]);
    }
    registry.register(r);
    proof {
        assert(recipe_views(registry@) =~= recipe_views(old(registry)@) + vanilla_recipes().take(17));
    }
    let r = CraftingRecipe::shaped(
        [Some(ItemKind::OakPlanks), None, Some(ItemKind::OakPlanks), Some(ItemKind::OakPlanks), Some(ItemKind::OakPlanks), Some(ItemKind::OakPlanks), Some(ItemKind::OakPlanks), None, Some(ItemKind::OakPlanks)],
        ItemStack::new(ItemKind::OakBoat, 1),
        RecipeCategory::Misc,
    );
    proof {
        assert(r@ == vanilla_recipes()[17]);
    }
    registry.register(r);
    proof {
        assert(recipe_views(registry@) =~= recipe_views(old(registry)@) + vanilla_recipes().take(18));
    }
    let r = CraftingRecipe::shaped(
        [Some(ItemKind::OakPlanks), Some(ItemKind::OakPlanks), Some(ItemKind::OakPlanks), Some(ItemKind::OakPlanks), Some(ItemKind::OakPlanks), Some(ItemKind::OakPlanks), None, None, None],
        ItemStack::new(ItemKind::OakDoor, 3),
        RecipeCategory::Building,
    );
    proof {
        assert(r@ == vanilla_recipes()[18]);
    }
    registry.register(r);
    proof {
        assert(recipe_views(registry@) =~= recipe_views(old(registry)@) + vanilla_recipes().take(19));
    }
    let r = CraftingRecipe::shaped(
        [Some(ItemKind::OakPlanks), Some(ItemKind::OakPlanks), None, Some(ItemKind::OakPlanks), Some(ItemKind::OakPlanks), None, None, None, None],
        ItemStack::new(ItemKind::OakTrapdoor, 2),
        RecipeCategory::Building,
    );
    proof {
        assert(r@ == vanilla_recipes()[19]);
    }
    registry.register(r);
    proof {
        assert(recipe_views(registry@) =~= recipe_views(old(registry)@) + vanilla_recipes().take(20));
    }
    let r = CraftingRecipe::shaped(
        [Some(ItemKind::OakPlanks), Some(ItemKind::OakPlanks), Some(ItemKind::OakPlanks), None, None, None, None, None, None],
        ItemStack::new(ItemKind::OakSlab, 6),
        RecipeCategory::Building,
    );
    proof {
        assert(r@ == vanilla_recipes()[20]);
    }
    registry.register(r);
    proof {
        assert(recipe_views(registry@) =~= recipe_views(old(registry)@) + vanilla_recipes().take(21));
    }
    let r = CraftingRecipe::shapeless(
        vec![ItemKind::Wheat],
        ItemStack::new(ItemKind::Bread, 1),
        RecipeCategory::Misc,
    );
    proof {
        assert(r@ == vanilla_recipes()[21]);
    }
    registry.register(r);
    proof {
        assert(recipe_views(registry@) =~= recipe_views(old(registry)@) + vanilla_recipes().take(22));
    }
    let r = CraftingRecipe::shapeless(
        vec![ItemKind::Cobblestone, ItemKind::Cobblestone, ItemKind::Cobblestone, ItemKind::Cobblestone, ItemKind::Cobblestone, ItemKind::Cobblestone, ItemKind::Cobblestone, ItemKind::Cobblestone],
        ItemStack::new(ItemKind::Furnace, 1),
        RecipeCategory::Building,
    );
    proof {
        assert(r@ == vanilla_recipes()[22]);
    }
    registry.register(r);
    proof {
        assert(recipe_views(registry@) =~= recipe_views(old(registry)@) + vanilla_recipes().take(23));
    }
    let r = CraftingRecipe::shapeless(
        vec![ItemKind::GoldNugget, ItemKind::GoldNugget, ItemKind::GoldNugget, ItemKind::GoldNugget, ItemKind::GoldNugget, ItemKind::GoldNugget, ItemKind::GoldNugget, ItemKind::GoldNugget, ItemKind::GoldNugget],
        ItemStack::new(ItemKind::GoldIngot, 1),
        RecipeCategory::Misc,
    );
    proof {
        assert(r@ == vanilla_recipes()[23]);
    }
    registry.register(r);
    proof {
        assert(recipe_views(registry@) =~= recipe_views(old(registry)@) + vanilla_recipes().take(24));
    }
    proof {
        assert(vanilla_recipes().take(24) =~= vanilla_recipes());
    }
}

} // verus!
