//! Whether components and stacks are the same.
use vstd::prelude::*;
use crate::codec::{vals, AsText, Both, DataComponentCodec};
use crate::coded::CodedComponent;
use crate::components::{value_kind, value_val, ComponentValue};
use crate::data_component::DataComponent;
use crate::elements::equal_tags;
use crate::format::{pair, Val};
use crate::item_stack::{component_val, entry_val, group_stack_vals, patch_val, slot_vals, stack_val, stack_vals, ItemStack};
use crate::nbt_tag::Tag;
use crate::nested_stored::find_last;
use crate::same::{component_same, first_slot, items_same, key_of, keyed_same, keys_covered, last_key, last_place, match_compounds, patch_same, same_f32, same_f64, same_groups, slot_of, slots_same, stack_same, tags_match, val_same, vals_same, values_of};
use crate::stored::{container_loot_val, decoration_val, decoration_vals, text_pairs, text_vals, ContainerLootImpl, MapDecorationEntry};
use crate::text::same_text;

verus! {

broadcast use group_stack_vals;

/// Whether a value is the same as one of any component.
fn equal_as<C: CodedComponent>(a: &C, b: &ComponentValue) -> (r: bool)
    ensures
        r == (value_kind(*b) == C::component() && val_same(value_val((*a).wrap()), value_val(*b))),
{
    match C::of(b) {
        Some(y) => {
            proof {
                C::lemma_value(*a);
                C::lemma_value(*y);
            }
            C::equal(a, y)
        },
        None => false,
    }
}

/// Whether a component has a rule of its own for when two values are the same, or its values hold
/// others.
pub open spec fn compares_apart(k: DataComponent) -> bool {
    match k {
        DataComponent::CustomData => true,
        DataComponent::BlockState => true,
        DataComponent::IntangibleProjectile => true,
        DataComponent::MapDecorations => true,
        DataComponent::DebugStickState => true,
        DataComponent::Recipes => true,
        DataComponent::ContainerLoot => true,
        DataComponent::UseRemainder => true,
        DataComponent::Container => true,
        DataComponent::BundleContents => true,
        DataComponent::ChargedProjectiles => true,
        DataComponent::SulfurCubeContent => true,
        DataComponent::CanPlaceOn => true,
        DataComponent::CanBreak => true,
        _ => false,
    }
}

proof fn lemma_apart(a: ComponentValue)
    ensures
        match a {
            ComponentValue::CustomData(x) => value_val(a) == Val::Nbt(Tag::Compound(x.data@)),
            ComponentValue::BlockState(x) => value_val(a) == Val::List(vals::<Both<AsText, AsText>>(x.properties@)),
            ComponentValue::IntangibleProjectile(x) => value_val(a) == Val::Unit,
            ComponentValue::MapDecorations(x) => value_val(a) == Val::List(decoration_vals(x.decorations@)),
            ComponentValue::DebugStickState(x) => value_val(a) == Val::List(text_pairs(x.properties@)),
            ComponentValue::Recipes(x) => value_val(a) == Val::List(text_vals(x.recipes@)),
            ComponentValue::ContainerLoot(x) => value_val(a) == pair(Val::Text(x.loot_table@), Val::Int(x.seed as int)),
            ComponentValue::UseRemainder(x) => value_val(a) == Val::Stack(stack_val(x.convert_into)),
            ComponentValue::SulfurCubeContent(x) => value_val(a) == Val::Stack(stack_val(x.absorbed_block_item_stack)),
            ComponentValue::BundleContents(x) => value_val(a) == Val::List(stack_vals(x.items@, x.items@.len())),
            ComponentValue::ChargedProjectiles(x) => value_val(a) == Val::List(stack_vals(x.projectiles@, x.projectiles@.len())),
            ComponentValue::Container(x) => value_val(a) == Val::List(slot_vals(x.items@, x.items@.len())),
            ComponentValue::CanPlaceOn(x) => value_val(a) == Val::Nbt(x.predicate@),
            ComponentValue::CanBreak(x) => value_val(a) == Val::Nbt(x.predicate@),
            _ => true,
        },
{
    reveal(value_val);
}

/// Whether a value is the same as one of any component, where its parts are compared one by one.
fn equal_plain(a: &ComponentValue, b: &ComponentValue) -> (r: bool)
    requires
        !compares_apart(value_kind(*a)),
    ensures
        r == component_same(component_val(*a), component_val(*b)),
{
    match a {
        ComponentValue::MaxStackSize(x) => equal_as(x, b),
        ComponentValue::MaxDamage(x) => equal_as(x, b),
        ComponentValue::Damage(x) => equal_as(x, b),
        ComponentValue::Unbreakable(x) => equal_as(x, b),
        ComponentValue::UseEffects(x) => equal_as(x, b),
        ComponentValue::CustomName(x) => equal_as(x, b),
        ComponentValue::MinimumAttackCharge(x) => equal_as(x, b),
        ComponentValue::DamageType(x) => equal_as(x, b),
        ComponentValue::ItemName(x) => equal_as(x, b),
        ComponentValue::ItemModel(x) => equal_as(x, b),
        ComponentValue::Lore(x) => equal_as(x, b),
        ComponentValue::Rarity(x) => equal_as(x, b),
        ComponentValue::Enchantments(x) => equal_as(x, b),
        ComponentValue::AttributeModifiers(x) => equal_as(x, b),
        ComponentValue::CustomModelData(x) => equal_as(x, b),
        ComponentValue::TooltipDisplay(x) => equal_as(x, b),
        ComponentValue::RepairCost(x) => equal_as(x, b),
        ComponentValue::CreativeSlotLock(x) => equal_as(x, b),
        ComponentValue::EnchantmentGlintOverride(x) => equal_as(x, b),
        ComponentValue::Food(x) => equal_as(x, b),
        ComponentValue::Consumable(x) => equal_as(x, b),
        ComponentValue::UseCooldown(x) => equal_as(x, b),
        ComponentValue::DamageResistant(x) => equal_as(x, b),
        ComponentValue::Tool(x) => equal_as(x, b),
        ComponentValue::Weapon(x) => equal_as(x, b),
        ComponentValue::AttackRange(x) => equal_as(x, b),
        ComponentValue::Enchantable(x) => equal_as(x, b),
        ComponentValue::Equippable(x) => equal_as(x, b),
        ComponentValue::Repairable(x) => equal_as(x, b),
        ComponentValue::Glider(x) => equal_as(x, b),
        ComponentValue::TooltipStyle(x) => equal_as(x, b),
        ComponentValue::DeathProtection(x) => equal_as(x, b),
        ComponentValue::BlocksAttacks(x) => equal_as(x, b),
        ComponentValue::PiercingWeapon(x) => equal_as(x, b),
        ComponentValue::KineticWeapon(x) => equal_as(x, b),
        ComponentValue::SwingAnimation(x) => equal_as(x, b),
        ComponentValue::AdditionalTradeCost(x) => equal_as(x, b),
        ComponentValue::StoredEnchantments(x) => equal_as(x, b),
        ComponentValue::Dye(x) => equal_as(x, b),
        ComponentValue::DyedColor(x) => equal_as(x, b),
        ComponentValue::MapColor(x) => equal_as(x, b),
        ComponentValue::MapId(x) => equal_as(x, b),
        ComponentValue::MapPostProcessing(x) => equal_as(x, b),
        ComponentValue::PotionContents(x) => equal_as(x, b),
        ComponentValue::PotionDurationScale(x) => equal_as(x, b),
        ComponentValue::SuspiciousStewEffects(x) => equal_as(x, b),
        ComponentValue::WritableBookContent(x) => equal_as(x, b),
        ComponentValue::WrittenBookContent(x) => equal_as(x, b),
        ComponentValue::Trim(x) => equal_as(x, b),
        ComponentValue::EntityData(x) => equal_as(x, b),
        ComponentValue::BucketEntityData(x) => equal_as(x, b),
        ComponentValue::BlockEntityData(x) => equal_as(x, b),
        ComponentValue::Instrument(x) => equal_as(x, b),
        ComponentValue::ProvidesTrimMaterial(x) => equal_as(x, b),
        ComponentValue::OminousBottleAmplifier(x) => equal_as(x, b),
        ComponentValue::JukeboxPlayable(x) => equal_as(x, b),
        ComponentValue::ProvidesBannerPatterns(x) => equal_as(x, b),
        ComponentValue::LodestoneTracker(x) => equal_as(x, b),
        ComponentValue::FireworkExplosion(x) => equal_as(x, b),
        ComponentValue::Fireworks(x) => equal_as(x, b),
        ComponentValue::Profile(x) => equal_as(x, b),
        ComponentValue::NoteBlockSound(x) => equal_as(x, b),
        ComponentValue::BannerPatterns(x) => equal_as(x, b),
        ComponentValue::BaseColor(x) => equal_as(x, b),
        ComponentValue::PotDecorations(x) => equal_as(x, b),
        ComponentValue::Bees(x) => equal_as(x, b),
        ComponentValue::Lock(x) => equal_as(x, b),
        ComponentValue::BreakSound(x) => equal_as(x, b),
        ComponentValue::VillagerVariant(x) => equal_as(x, b),
        ComponentValue::WolfVariant(x) => equal_as(x, b),
        ComponentValue::WolfSoundVariant(x) => equal_as(x, b),
        ComponentValue::WolfCollar(x) => equal_as(x, b),
        ComponentValue::FoxVariant(x) => equal_as(x, b),
        ComponentValue::SalmonSize(x) => equal_as(x, b),
        ComponentValue::ParrotVariant(x) => equal_as(x, b),
        ComponentValue::TropicalFishPattern(x) => equal_as(x, b),
        ComponentValue::TropicalFishBaseColor(x) => equal_as(x, b),
        ComponentValue::TropicalFishPatternColor(x) => equal_as(x, b),
        ComponentValue::MooshroomVariant(x) => equal_as(x, b),
        ComponentValue::RabbitVariant(x) => equal_as(x, b),
        ComponentValue::PigVariant(x) => equal_as(x, b),
        ComponentValue::PigSoundVariant(x) => equal_as(x, b),
        ComponentValue::CowVariant(x) => equal_as(x, b),
        ComponentValue::CowSoundVariant(x) => equal_as(x, b),
        ComponentValue::ChickenVariant(x) => equal_as(x, b),
        ComponentValue::ChickenSoundVariant(x) => equal_as(x, b),
        ComponentValue::ZombieNautilusVariant(x) => equal_as(x, b),
        ComponentValue::FrogVariant(x) => equal_as(x, b),
        ComponentValue::HorseVariant(x) => equal_as(x, b),
        ComponentValue::PaintingVariant(x) => equal_as(x, b),
        ComponentValue::LlamaVariant(x) => equal_as(x, b),
        ComponentValue::AxolotlVariant(x) => equal_as(x, b),
        ComponentValue::CatVariant(x) => equal_as(x, b),
        ComponentValue::CatSoundVariant(x) => equal_as(x, b),
        ComponentValue::CatCollar(x) => equal_as(x, b),
        ComponentValue::SheepColor(x) => equal_as(x, b),
        ComponentValue::ShulkerColor(x) => equal_as(x, b),
        _ => false,
    }
}

/// Whether a value that holds no stack is the same as one of any component.
fn equal_flat(a: &ComponentValue, b: &ComponentValue) -> (r: bool)
    requires
        !holds_stacks(value_kind(*a)),
    ensures
        r == component_same(component_val(*a), component_val(*b)),
{
    let ghost same = component_same(component_val(*a), component_val(*b));
    proof {
        lemma_apart(*a);
        lemma_apart(*b);
    }
    match a {
        ComponentValue::CustomData(x) => match b {
            ComponentValue::CustomData(y) => {
                assert(same == tags_match(Tag::Compound(x.data@), Tag::Compound(y.data@), true));
                {
                assert(value_val(*a) == Val::Nbt(Tag::Compound(x.data@)));
                assert(value_val(*b) == Val::Nbt(Tag::Compound(y.data@)));
                match_compounds(&x.data, &y.data, true)
            }
            },
            _ => false,
        },
        ComponentValue::BlockState(x) => match b {
            ComponentValue::BlockState(y) => {
                assert(same == same_groups(vals::<Both<AsText, AsText>>(x.properties@), vals::<Both<AsText, AsText>>(y.properties@)));
                equal_groups(&x.properties, &y.properties)
            },
            _ => false,
        },
        ComponentValue::IntangibleProjectile(_) => match b {
            ComponentValue::IntangibleProjectile(_) => {
                assert(same == true);
                true
            },
            _ => false,
        },
        ComponentValue::MapDecorations(x) => match b {
            ComponentValue::MapDecorations(y) => {
                assert(same == (keyed_same(decoration_vals(x.decorations@), decoration_vals(y.decorations@), x.decorations@.len()) && keys_covered(decoration_vals(y.decorations@), decoration_vals(x.decorations@))));
                equal_decorations(&x.decorations, &y.decorations)
            },
            _ => false,
        },
        ComponentValue::DebugStickState(x) => match b {
            ComponentValue::DebugStickState(y) => {
                assert(same == val_same(value_val(*a), value_val(*b)));
                equal_pairs(&x.properties, &y.properties)
            },
            _ => false,
        },
        ComponentValue::Recipes(x) => match b {
            ComponentValue::Recipes(y) => {
                assert(same == val_same(value_val(*a), value_val(*b)));
                equal_texts(&x.recipes, &y.recipes)
            },
            _ => false,
        },
        ComponentValue::ContainerLoot(x) => match b {
            ComponentValue::ContainerLoot(y) => {
                assert(same == val_same(value_val(*a), value_val(*b)));
                equal_loot(x, y)
            },
            _ => false,
        },
        ComponentValue::CanPlaceOn(x) => match b {
            ComponentValue::CanPlaceOn(y) => {
                assert(same == val_same(value_val(*a), value_val(*b)));
                equal_tags(&x.predicate, &y.predicate)
            },
            _ => false,
        },
        ComponentValue::CanBreak(x) => match b {
            ComponentValue::CanBreak(y) => {
                assert(same == val_same(value_val(*a), value_val(*b)));
                equal_tags(&x.predicate, &y.predicate)
            },
            _ => false,
        },
        _ => equal_plain(a, b),
    }
}

/// Whether the values of a component hold stacks.
pub open spec fn holds_stacks(k: DataComponent) -> bool {
    k == DataComponent::UseRemainder || k == DataComponent::SulfurCubeContent || k == DataComponent::BundleContents || k
        == DataComponent::ChargedProjectiles || k == DataComponent::Container
}

/// Whether two values of components are the same.
#[verifier::rlimit(60)]
pub fn equal_components(a: &ComponentValue, b: &ComponentValue) -> (r: bool)
    ensures
        r == component_same(component_val(*a), component_val(*b)),
    decreases *a, 3nat,
{
    let ghost same = component_same(component_val(*a), component_val(*b));
    proof {
        lemma_apart(*a);
        lemma_apart(*b);
    }
    match a {
        ComponentValue::UseRemainder(x) => match b {
            ComponentValue::UseRemainder(y) => {
                assert(same == val_same(value_val(*a), value_val(*b)));
                equal_stacks(&x.convert_into, &y.convert_into)
            },
            _ => false,
        },
        ComponentValue::Container(x) => match b {
            ComponentValue::Container(y) => {
                assert(same == (x.items@.len() == y.items@.len() && slots_same(slot_vals(x.items@, x.items@.len()), slot_vals(y.items@, y.items@.len()), x.items@.len())));
                equal_slots(&x.items, &y.items)
            },
            _ => false,
        },
        ComponentValue::BundleContents(x) => match b {
            ComponentValue::BundleContents(y) => {
                assert(same == val_same(value_val(*a), value_val(*b)));
                equal_lists_of_stacks(&x.items, &y.items)
            },
            _ => false,
        },
        ComponentValue::ChargedProjectiles(x) => match b {
            ComponentValue::ChargedProjectiles(y) => {
                assert(same == val_same(value_val(*a), value_val(*b)));
                equal_lists_of_stacks(&x.projectiles, &y.projectiles)
            },
            _ => false,
        },
        ComponentValue::SulfurCubeContent(x) => match b {
            ComponentValue::SulfurCubeContent(y) => {
                assert(same == val_same(value_val(*a), value_val(*b)));
                equal_stacks(&x.absorbed_block_item_stack, &y.absorbed_block_item_stack)
            },
            _ => false,
        },
        _ => equal_flat(a, b),
    }
}

proof fn lemma_next_value(l: Seq<Val>, k: Seq<char>, i: int)
    requires
        0 <= i < l.len(),
    ensures
        values_of(l.take(i + 1), k) == if key_of(l[i]) == k {
            values_of(l.take(i), k).push(l[i])
        } else {
            values_of(l.take(i), k)
        },
{
    reveal(Seq::filter);
    assert(l.take(i + 1).drop_last() =~= l.take(i));
    assert(l.take(i + 1).last() == l[i]);
}

proof fn lemma_no_such_key(l: Seq<Val>, k: Seq<char>)
    requires
        forall|i: int| 0 <= i < l.len() ==> key_of(#[trigger] l[i]) != k,
    ensures
        values_of(l, k) == Seq::<Val>::empty(),
    decreases l.len(),
{
    reveal(Seq::filter);
    if l.len() > 0 {
        let head = l.drop_last();
        assert forall|i: int| 0 <= i < head.len() implies key_of(#[trigger] head[i]) != k by {
            assert(head[i] == l[i]);
        }
        lemma_no_such_key(head, k);
        assert(key_of(l[l.len() - 1]) != k);
    }
    assert(values_of(l, k) =~= Seq::<Val>::empty());
}

/// The places of the pairs with this key.
fn places_of(v: &Vec<(String, String)>, key: &str) -> (r: Vec<usize>)
    ensures
        values_of(text_pairs(v@), key@) == Seq::new(r@.len(), |k: int| text_pairs(v@)[r@[k] as int]),
        forall|k: int| 0 <= k < r@.len() ==> (#[trigger] r@[k]) < v@.len() && v@[r@[k] as int].0@ == key@,
{
    let ghost l = text_pairs(v@);
    let mut out: Vec<usize> = Vec::new();
    proof {
        reveal(Seq::filter);
        assert(values_of(l.take(0), key@) =~= Seq::new(0, |k: int| l[out@[k] as int]));
    }
    let mut i: usize = 0;
    while i < v.len()
        invariant
            i <= v.len(),
            l == text_pairs(v@),
            values_of(l.take(i as int), key@) == Seq::new(out@.len(), |k: int| l[out@[k] as int]),
            forall|k: int| 0 <= k < out@.len() ==> (#[trigger] out@[k]) < v@.len() && v@[out@[k] as int].0@ == key@,
        decreases v.len() - i,
    {
        proof {
            lemma_next_value(l, key@, i as int);
        }
        if same_text(v[i].0.as_str(), key) {
            let ghost before = Seq::new(out@.len(), |k: int| l[out@[k] as int]);
            out.push(i);
            assert(Seq::new(out@.len(), |k: int| l[out@[k] as int]) =~= before.push(l[i as int]));
        }
        i += 1;
    }
    assert(l.take(l.len() as int) =~= l);
    out
}

/// Whether two lists have the same values for a key, in the same order.
fn agree_on(a: &Vec<(String, String)>, b: &Vec<(String, String)>, key: &str) -> (r: bool)
    ensures
        r == (values_of(text_pairs(a@), key@) == values_of(text_pairs(b@), key@)),
{
    let p = places_of(a, key);
    let q = places_of(b, key);
    let ghost x = values_of(text_pairs(a@), key@);
    let ghost y = values_of(text_pairs(b@), key@);
    if p.len() != q.len() {
        assert(x.len() != y.len());
        return false;
    }
    let mut i: usize = 0;
    while i < p.len()
        invariant
            i <= p.len(),
            p@.len() == q@.len(),
            x == values_of(text_pairs(a@), key@),
            y == values_of(text_pairs(b@), key@),
            x == Seq::new(p@.len(), |k: int| text_pairs(a@)[p@[k] as int]),
            y == Seq::new(q@.len(), |k: int| text_pairs(b@)[q@[k] as int]),
            forall|k: int| 0 <= k < p@.len() ==> (#[trigger] p@[k]) < a@.len() && a@[p@[k] as int].0@ == key@,
            forall|k: int| 0 <= k < q@.len() ==> (#[trigger] q@[k]) < b@.len() && b@[q@[k] as int].0@ == key@,
            forall|k: int| 0 <= k < i ==> (#[trigger] x[k]) == y[k],
        decreases p.len() - i,
    {
        let u: usize = p[i];
        let w: usize = q[i];
        assert(x[i as int] == pair(Val::Text(a@[u as int].0@), Val::Text(a@[u as int].1@)));
        assert(y[i as int] == pair(Val::Text(b@[w as int].0@), Val::Text(b@[w as int].1@)));
        if !same_text(a[u].1.as_str(), b[w].1.as_str()) {
            return false;
        }
        i += 1;
    }
    assert(x =~= y);
    true
}

/// Whether two lists have the same values for every key, in the same order.
fn equal_groups(a: &Vec<(String, String)>, b: &Vec<(String, String)>) -> (r: bool)
    ensures
        r == same_groups(vals::<Both<AsText, AsText>>(a@), vals::<Both<AsText, AsText>>(b@)),
{
    let ghost x = text_pairs(a@);
    let ghost y = text_pairs(b@);
    assert(vals::<Both<AsText, AsText>>(a@) =~= x);
    assert(vals::<Both<AsText, AsText>>(b@) =~= y);
    let mut i: usize = 0;
    while i < a.len()
        invariant
            i <= a.len(),
            x == vals::<Both<AsText, AsText>>(a@),
            y == vals::<Both<AsText, AsText>>(b@),
            x == text_pairs(a@),
            y == text_pairs(b@),
            forall|k: int| 0 <= k < i ==> values_of(x, key_of(#[trigger] x[k])) == values_of(y, key_of(x[k])),
        decreases a.len() - i,
    {
        assert(key_of(x[i as int]) == a@[i as int].0@);
        if !agree_on(a, b, a[i].0.as_str()) {
            return false;
        }
        i += 1;
    }
    let mut j: usize = 0;
    while j < b.len()
        invariant
            j <= b.len(),
            x == vals::<Both<AsText, AsText>>(a@),
            y == vals::<Both<AsText, AsText>>(b@),
            x == text_pairs(a@),
            y == text_pairs(b@),
            forall|k: int| 0 <= k < j ==> values_of(x, key_of(#[trigger] y[k])) == values_of(y, key_of(y[k])),
        decreases b.len() - j,
    {
        assert(key_of(y[j as int]) == b@[j as int].0@);
        if !agree_on(a, b, b[j].0.as_str()) {
            return false;
        }
        j += 1;
    }
    assert forall|k: Seq<char>| #[trigger] values_of(x, k) == values_of(y, k) by {
        if exists|n: int| 0 <= n < x.len() && key_of(#[trigger] x[n]) == k {
        } else if exists|n: int| 0 <= n < y.len() && key_of(#[trigger] y[n]) == k {
        } else {
            lemma_no_such_key(x, k);
            lemma_no_such_key(y, k);
        }
    }
    true
}

/// Whether two lists of pairs of texts are the same.
fn equal_pairs(a: &Vec<(String, String)>, b: &Vec<(String, String)>) -> (r: bool)
    ensures
        r == val_same(Val::List(text_pairs(a@)), Val::List(text_pairs(b@))),
{
    let ghost x = text_pairs(a@);
    let ghost y = text_pairs(b@);
    if a.len() != b.len() {
        return false;
    }
    let mut ok: bool = true;
    let mut i: usize = 0;
    while i < a.len()
        invariant
            i <= a.len(),
            a@.len() == b@.len(),
            x == text_pairs(a@),
            y == text_pairs(b@),
            ok == vals_same(x, y, i as nat),
        decreases a.len() - i,
    {
        proof {
            reveal_with_fuel(val_same, 3);
            assert(x[i as int] == pair(Val::Text(a@[i as int].0@), Val::Text(a@[i as int].1@)));
            assert(y[i as int] == pair(Val::Text(b@[i as int].0@), Val::Text(b@[i as int].1@)));
            assert(val_same(x[i as int], y[i as int]) == (a@[i as int].0@ == b@[i as int].0@ && a@[i as int].1@ == b@[i as int].1@));
        }
        ok = ok && same_text(a[i].0.as_str(), b[i].0.as_str()) && same_text(a[i].1.as_str(), b[i].1.as_str());
        i += 1;
    }
    ok
}

/// Whether two containers are filled with the same loot.
fn equal_loot(a: &ContainerLootImpl, b: &ContainerLootImpl) -> (r: bool)
    ensures
        r == val_same(container_loot_val(*a), container_loot_val(*b)),
{
    proof {
        reveal_with_fuel(val_same, 2);
    }
    same_text(a.loot_table.as_str(), b.loot_table.as_str()) && a.seed == b.seed
}

/// Whether two lists of texts are the same.
fn equal_texts(a: &Vec<String>, b: &Vec<String>) -> (r: bool)
    ensures
        r == val_same(Val::List(text_vals(a@)), Val::List(text_vals(b@))),
{
    let ghost x = text_vals(a@);
    let ghost y = text_vals(b@);
    if a.len() != b.len() {
        return false;
    }
    let mut ok: bool = true;
    let mut i: usize = 0;
    while i < a.len()
        invariant
            i <= a.len(),
            a@.len() == b@.len(),
            x == text_vals(a@),
            y == text_vals(b@),
            ok == vals_same(x, y, i as nat),
        decreases a.len() - i,
    {
        assert(x[i as int] == Val::Text(a@[i as int]@));
        assert(y[i as int] == Val::Text(b@[i as int]@));
        assert(val_same(x[i as int], y[i as int]) == (a@[i as int]@ == b@[i as int]@));
        ok = ok && same_text(a[i].as_str(), b[i].as_str());
        i += 1;
    }
    ok
}

/// The place of the last marker with a key.
pub fn last_decoration(v: &Vec<(String, MapDecorationEntry)>, key: &str) -> (r: Option<usize>)
    ensures
        match r {
            Some(i) => i < v@.len() && last_key(decoration_vals(v@), key@, v@.len()) == Some(i as int),
            None => last_key(decoration_vals(v@), key@, v@.len()) is None,
        },
{
    let ghost l = decoration_vals(v@);
    let mut i: usize = v.len();
    while i > 0
        invariant
            i <= v.len(),
            l == decoration_vals(v@),
            last_key(l, key@, v@.len()) == last_key(l, key@, i as nat),
        decreases i,
    {
        assert(key_of(l[i - 1]) == v@[i - 1].0@);
        if same_text(v[i - 1].0.as_str(), key) {
            return Some(i - 1);
        }
        i -= 1;
    }
    None
}

/// Whether two markers with the same key are the same.
fn equal_decoration(a: &MapDecorationEntry, b: &MapDecorationEntry, Ghost(key): Ghost<Seq<char>>) -> (r: bool)
    ensures
        r == val_same(decoration_val(key, *a), decoration_val(key, *b)),
{
    proof {
        reveal_with_fuel(val_same, 6);
    }
    same_text(a.decoration_type.as_str(), b.decoration_type.as_str()) && same_f64(a.x, b.x) && same_f64(a.z, b.z)
        && same_f32(a.rotation, b.rotation)
}

/// Whether two lists of markers are the same, whatever their order; of several for one key the
/// last counts.
fn equal_decorations(a: &Vec<(String, MapDecorationEntry)>, b: &Vec<(String, MapDecorationEntry)>) -> (r: bool)
    ensures
        r == (keyed_same(decoration_vals(a@), decoration_vals(b@), a@.len()) && keys_covered(
            decoration_vals(b@),
            decoration_vals(a@),
        )),
{
    let ghost x = decoration_vals(a@);
    let ghost y = decoration_vals(b@);
    let mut ok: bool = true;
    let mut i: usize = 0;
    while i < a.len()
        invariant
            i <= a.len(),
            x == decoration_vals(a@),
            y == decoration_vals(b@),
            ok == keyed_same(x, y, i as nat),
        decreases a.len() - i,
    {
        assert(x[i as int] == decoration_val(a@[i as int].0@, a@[i as int].1));
        assert(key_of(x[i as int]) == a@[i as int].0@);
        let key = a[i].0.as_str();
        match last_decoration(a, key) {
            Some(last) => {
                if last == i {
                    match last_decoration(b, key) {
                        None => {
                            ok = false;
                        },
                        Some(j) => {
                            proof {
                                lemma_last_key(y, key@, y.len());
                            }
                            assert(y[j as int] == decoration_val(b@[j as int].0@, b@[j as int].1));
                            ok = ok && equal_decoration(&a[i].1, &b[j].1, Ghost(key@));
                        },
                    }
                }
            },
            None => {},
        }
        i += 1;
    }
    if !ok {
        return false;
    }
    let mut j: usize = 0;
    while j < b.len()
        invariant
            j <= b.len(),
            x == decoration_vals(a@),
            y == decoration_vals(b@),
            forall|k: int| 0 <= k < j ==> last_key(x, key_of(#[trigger] y[k]), x.len()) is Some,
        decreases b.len() - j,
    {
        assert(key_of(y[j as int]) == b@[j as int].0@);
        if last_decoration(a, b[j].0.as_str()).is_none() {
            return false;
        }
        j += 1;
    }
    true
}

proof fn lemma_last_key(l: Seq<Val>, k: Seq<char>, n: nat)
    requires
        n <= l.len(),
    ensures
        last_key(l, k, n) matches Some(i) ==> 0 <= i < n && key_of(l[i]) == k,
    decreases n,
{
    if n > 0 {
        lemma_last_key(l, k, (n - 1) as nat);
    }
}

/// The place of the first stack for a slot.
fn find_slot(v: &Vec<(u8, ItemStack)>, slot: u8) -> (r: Option<usize>)
    ensures
        match r {
            Some(i) => i < v@.len() && first_slot(slot_vals(v@, v@.len()), slot as int, 0) == Some(i as int) && v@[i as int].0 == slot,
            None => first_slot(slot_vals(v@, v@.len()), slot as int, 0) is None,
        },
{
    let ghost l = slot_vals(v@, v@.len());
    let mut i: usize = 0;
    while i < v.len()
        invariant
            i <= v.len(),
            l == slot_vals(v@, v@.len()),
            first_slot(l, slot as int, 0) == first_slot(l, slot as int, i as int),
        decreases v.len() - i,
    {
        assert(slot_of(l[i as int]) == v@[i as int].0);
        if v[i].0 == slot {
            return Some(i);
        }
        i += 1;
    }
    None
}

/// Whether two containers hold the same in every slot.
fn equal_slots(a: &Vec<(u8, ItemStack)>, b: &Vec<(u8, ItemStack)>) -> (r: bool)
    ensures
        r == (a@.len() == b@.len() && slots_same(slot_vals(a@, a@.len()), slot_vals(b@, b@.len()), a@.len())),
    decreases *a, 2nat,
{
    let ghost x = slot_vals(a@, a@.len());
    let ghost y = slot_vals(b@, b@.len());
    if a.len() != b.len() {
        return false;
    }
    let mut ok: bool = true;
    let mut i: usize = 0;
    while i < a.len()
        invariant
            i <= a.len(),
            x == slot_vals(a@, a@.len()),
            y == slot_vals(b@, b@.len()),
            ok == slots_same(x, y, i as nat),
        decreases a.len() - i,
    {
        proof {
            reveal_with_fuel(val_same, 2);
            assert(x[i as int] == pair(Val::Int(a@[i as int].0 as int), Val::Stack(stack_val(a@[i as int].1))));
        }
        match find_slot(b, a[i].0) {
            None => {
                ok = false;
            },
            Some(j) => {
                assert(y[j as int] == pair(Val::Int(b@[j as int].0 as int), Val::Stack(stack_val(b@[j as int].1))));
                assert(decreases_to!(*a => a@[i as int].1));
                assert(val_same(x[i as int], y[j as int]) == val_same(
                    Val::Stack(stack_val(a@[i as int].1)),
                    Val::Stack(stack_val(b@[j as int].1)),
                ));
                ok = ok && equal_stacks(&a[i].1, &b[j].1);
            },
        }
        i += 1;
    }
    ok
}

/// Whether two lists of stacks are the same.
fn equal_lists_of_stacks(a: &Vec<ItemStack>, b: &Vec<ItemStack>) -> (r: bool)
    ensures
        r == val_same(Val::List(stack_vals(a@, a@.len())), Val::List(stack_vals(b@, b@.len()))),
    decreases *a, 2nat,
{
    let ghost x = stack_vals(a@, a@.len());
    let ghost y = stack_vals(b@, b@.len());
    if a.len() != b.len() {
        return false;
    }
    let mut ok: bool = true;
    let mut i: usize = 0;
    while i < a.len()
        invariant
            i <= a.len(),
            a@.len() == b@.len(),
            x == stack_vals(a@, a@.len()),
            y == stack_vals(b@, b@.len()),
            ok == vals_same(x, y, i as nat),
        decreases a.len() - i,
    {
        assert(x[i as int] == Val::Stack(stack_val(a@[i as int])));
        assert(y[i as int] == Val::Stack(stack_val(b@[i as int])));
        assert(decreases_to!(*a => a@[i as int]));
        ok = ok && equal_stacks(&a[i], &b[i]);
        i += 1;
    }
    ok
}

/// Whether two stacks are the same.
fn equal_stacks(a: &ItemStack, b: &ItemStack) -> (r: bool)
    ensures
        r == val_same(Val::Stack(stack_val(*a)), Val::Stack(stack_val(*b))),
        r == stack_same(stack_val(*a), stack_val(*b)),
    decreases *a, 1nat,
{
    assert(val_same(Val::Stack(stack_val(*a)), Val::Stack(stack_val(*b))) == stack_same(stack_val(*a), stack_val(*b)));
    a.item_count == b.item_count && a.are_items_and_components_equal(b)
}

impl ItemStack {
    /// Whether two stacks have the same item and the same effective patch.
    pub fn are_items_and_components_equal(&self, other: &Self) -> (r: bool)
        ensures
            r == items_same(self@, other@),
        decreases *self, 0nat,
    {
        let ghost p = patch_val(self.patch@);
        let ghost q = patch_val(other.patch@);
        if self.item.id != other.item.id {
            return false;
        }
        let n: usize = self.patch.len();
        let m: usize = other.patch.len();
        let mut ok: bool = true;
        let mut i: usize = 0;
        while i < n
            invariant
                i <= n,
                n == self.patch@.len(),
                m == other.patch@.len(),
                p == patch_val(self.patch@),
                q == patch_val(other.patch@),
                ok == patch_same(p, q, i as nat),
            decreases n - i,
        {
            assert(p[i as int] == entry_val(self.patch@[i as int]));
            let id = self.patch[i].0;
            let last: bool = match find_last(&self.patch, id, n) {
                Some(l) => l == i,
                None => false,
            };
            if last {
                match find_last(&other.patch, id, m) {
                    None => {
                        ok = false;
                    },
                    Some(j) => {
                        assert(q[j as int] == entry_val(other.patch@[j as int]));
                        match (&self.patch[i].1, &other.patch[j].1) {
                            (None, None) => {},
                            (Some(a), Some(b)) => {
                                assert(decreases_to!(*self => self.patch@[i as int].1));
                                ok = ok && equal_components(a, b);
                            },
                            _ => {
                                ok = false;
                            },
                        }
                    },
                }
            }
            i += 1;
        }
        if !ok {
            return false;
        }
        let mut j: usize = 0;
        while j < m
            invariant
                j <= m,
                n == self.patch@.len(),
                m == other.patch@.len(),
                p == patch_val(self.patch@),
                q == patch_val(other.patch@),
                forall|k: int| 0 <= k < j ==> last_place(p, (#[trigger] q[k]).0, p.len()) is Some,
            decreases m - j,
        {
            assert(q[j as int] == entry_val(other.patch@[j as int]));
            if find_last(&self.patch, other.patch[j].0, n).is_none() {
                return false;
            }
            j += 1;
        }
        true
    }

    /// Whether two stacks have the same item, the same count and the same effective patch.
    pub fn are_equal(&self, other: &Self) -> (r: bool)
        ensures
            r == stack_same(self@, other@),
    {
        equal_stacks(self, other)
    }
}

} // verus!
