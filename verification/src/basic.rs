//! Components that most items can have.
use vstd::prelude::*;
use crate::codec::{count_as_i32, decodes, equal_lists, put_list, vals, AsBool, AsF32, AsI32, AsText, AsVarInt, Coded, Context, DataComponentCodec, ListOf, ListRule, Numbered, RawCount};
use crate::elements::{empty_text, low_byte, AsCompound, AsItemName, AsLine, AsName, ItemName, SkippedSet, TextComponent};
use crate::errors::{cannot_write, message, message_value, ReadingError, WritingError};
use crate::format::{distinct, dye_id, dye_name, keep_distinct, pair, read_items, read_val, write_val, Blame, Check, CountRule, Format, Limit, Sink, Val};
use crate::data_component::{component_id, lemma_component_id_of, lemma_component_of_own_id, DataComponent};
use crate::nbt_tag::{NbtCompound, Tag};
use crate::registry::Registries;
use crate::same::val_same;
use crate::text::same_text;
use crate::wire::{done, get_var_int, write_var_int};

verus! {

/// Data that plugins and commands attach to an item.
#[derive(Debug, PartialEq)]
pub struct CustomDataImpl {
    pub data: NbtCompound,
}

impl DataComponentCodec for CustomDataImpl {
    type Value = CustomDataImpl;

    open spec fn format() -> Format {
        AsCompound::format()
    }

    open spec fn val(v: CustomDataImpl) -> Val {
        AsCompound::val(v.data)
    }

    fn deserialize(seq: &mut &[u8], ctx: &Context) -> (r: Result<CustomDataImpl, ReadingError>) {
        let data = AsCompound::deserialize(seq, ctx)?;
        Ok(CustomDataImpl { data })
    }

    fn serialize(value: &CustomDataImpl, out: &mut Vec<u8>, ctx: &Context) -> (r: Result<(), WritingError>) {
        AsCompound::serialize(&value.data, out, ctx)
    }

    fn equal(a: &CustomDataImpl, b: &CustomDataImpl) -> (r: bool) {
        AsCompound::equal(&a.data, &b.data)
    }
}

/// A number of items from zero to 255.
pub struct StackSize;

impl Numbered for StackSize {
    type Value = u8;

    open spec fn check() -> Check {
        Check::UpTo { max: 255, out: Blame { text: "No MaxStackSize VarInt!", number: false } }
    }

    open spec fn val(v: u8) -> Val {
        Val::Int(v as int)
    }

    fn decode(regs: &Registries, v: i32) -> (r: Result<u8, ReadingError>) {
        if v < 0 || v > 255 {
            Err(message("No MaxStackSize VarInt!"))
        } else {
            Ok(v as u8)
        }
    }

    fn encode(regs: &Registries, value: &u8) -> (r: Result<i32, WritingError>) {
        Ok(*value as i32)
    }

    fn alike(a: &u8, b: &u8) -> (r: bool) {
        *a == *b
    }
}

/// How many items make a full stack.
#[derive(Debug, PartialEq)]
pub struct MaxStackSizeImpl {
    pub size: u8,
}

impl DataComponentCodec for MaxStackSizeImpl {
    type Value = MaxStackSizeImpl;

    open spec fn format() -> Format {
        <Coded<StackSize> as DataComponentCodec>::format()
    }

    open spec fn val(v: MaxStackSizeImpl) -> Val {
        <Coded<StackSize> as DataComponentCodec>::val(v.size)
    }

    fn deserialize(seq: &mut &[u8], ctx: &Context) -> (r: Result<MaxStackSizeImpl, ReadingError>) {
        let size = <Coded<StackSize> as DataComponentCodec>::deserialize(seq, ctx)?;
        Ok(MaxStackSizeImpl { size })
    }

    fn serialize(value: &MaxStackSizeImpl, out: &mut Vec<u8>, ctx: &Context) -> (r: Result<(), WritingError>) {
        <Coded<StackSize> as DataComponentCodec>::serialize(&value.size, out, ctx)
    }

    fn equal(a: &MaxStackSizeImpl, b: &MaxStackSizeImpl) -> (r: bool) {
        <Coded<StackSize> as DataComponentCodec>::equal(&a.size, &b.size)
    }
}

/// How much damage an item takes before it breaks.
#[derive(Debug, PartialEq)]
pub struct MaxDamageImpl {
    pub max_damage: i32,
}

impl DataComponentCodec for MaxDamageImpl {
    type Value = MaxDamageImpl;

    open spec fn format() -> Format {
        AsVarInt::format()
    }

    open spec fn val(v: MaxDamageImpl) -> Val {
        AsVarInt::val(v.max_damage)
    }

    fn deserialize(seq: &mut &[u8], ctx: &Context) -> (r: Result<MaxDamageImpl, ReadingError>) {
        let max_damage = AsVarInt::deserialize(seq, ctx)?;
        Ok(MaxDamageImpl { max_damage })
    }

    fn serialize(value: &MaxDamageImpl, out: &mut Vec<u8>, ctx: &Context) -> (r: Result<(), WritingError>) {
        AsVarInt::serialize(&value.max_damage, out, ctx)
    }

    fn equal(a: &MaxDamageImpl, b: &MaxDamageImpl) -> (r: bool) {
        AsVarInt::equal(&a.max_damage, &b.max_damage)
    }
}

/// How much damage an item has taken.
#[derive(Debug, PartialEq)]
pub struct DamageImpl {
    pub damage: i32,
}

impl DataComponentCodec for DamageImpl {
    type Value = DamageImpl;

    open spec fn format() -> Format {
        AsVarInt::format()
    }

    open spec fn val(v: DamageImpl) -> Val {
        AsVarInt::val(v.damage)
    }

    fn deserialize(seq: &mut &[u8], ctx: &Context) -> (r: Result<DamageImpl, ReadingError>) {
        let damage = AsVarInt::deserialize(seq, ctx)?;
        Ok(DamageImpl { damage })
    }

    fn serialize(value: &DamageImpl, out: &mut Vec<u8>, ctx: &Context) -> (r: Result<(), WritingError>) {
        AsVarInt::serialize(&value.damage, out, ctx)
    }

    fn equal(a: &DamageImpl, b: &DamageImpl) -> (r: bool) {
        AsVarInt::equal(&a.damage, &b.damage)
    }
}

/// Marks an item that takes no damage.
#[derive(Clone, Copy, Debug, PartialEq, Eq)]
pub struct UnbreakableImpl;

impl DataComponentCodec for UnbreakableImpl {
    type Value = UnbreakableImpl;

    open spec fn format() -> Format {
        Format::Unit
    }

    open spec fn val(v: UnbreakableImpl) -> Val {
        Val::Unit
    }

    fn deserialize(seq: &mut &[u8], ctx: &Context) -> (r: Result<UnbreakableImpl, ReadingError>) {
        proof {
            reveal(read_val);
        }
        Ok(UnbreakableImpl)
    }

    fn serialize(value: &UnbreakableImpl, out: &mut Vec<u8>, ctx: &Context) -> (r: Result<(), WritingError>) {
        proof {
            reveal(write_val);
        }
        Ok(())
    }

    fn equal(a: &UnbreakableImpl, b: &UnbreakableImpl) -> (r: bool) {
        true
    }
}

/// The name that a player gave an item.
#[derive(Debug, PartialEq)]
pub struct CustomNameImpl {
    pub name: TextComponent,
}

impl DataComponentCodec for CustomNameImpl {
    type Value = CustomNameImpl;

    open spec fn format() -> Format {
        AsName::format()
    }

    open spec fn val(v: CustomNameImpl) -> Val {
        AsName::val(v.name)
    }

    fn deserialize(seq: &mut &[u8], ctx: &Context) -> (r: Result<CustomNameImpl, ReadingError>) {
        let name = AsName::deserialize(seq, ctx)?;
        Ok(CustomNameImpl { name })
    }

    fn serialize(value: &CustomNameImpl, out: &mut Vec<u8>, ctx: &Context) -> (r: Result<(), WritingError>) {
        AsName::serialize(&value.name, out, ctx)
    }

    fn equal(a: &CustomNameImpl, b: &CustomNameImpl) -> (r: bool) {
        AsName::equal(&a.name, &b.name)
    }
}

/// The name of an item.
#[derive(Debug, PartialEq)]
pub struct ItemNameImpl {
    pub name: ItemName,
}

impl DataComponentCodec for ItemNameImpl {
    type Value = ItemNameImpl;

    open spec fn format() -> Format {
        AsItemName::format()
    }

    open spec fn val(v: ItemNameImpl) -> Val {
        AsItemName::val(v.name)
    }

    fn deserialize(seq: &mut &[u8], ctx: &Context) -> (r: Result<ItemNameImpl, ReadingError>) {
        let name = AsItemName::deserialize(seq, ctx)?;
        Ok(ItemNameImpl { name })
    }

    fn serialize(value: &ItemNameImpl, out: &mut Vec<u8>, ctx: &Context) -> (r: Result<(), WritingError>) {
        AsItemName::serialize(&value.name, out, ctx)
    }

    fn equal(a: &ItemNameImpl, b: &ItemNameImpl) -> (r: bool) {
        AsItemName::equal(&a.name, &b.name)
    }
}

/// The model that an item is shown with.
#[derive(Debug, PartialEq)]
pub struct ItemModelImpl {
    pub id: String,
}

impl DataComponentCodec for ItemModelImpl {
    type Value = ItemModelImpl;

    open spec fn format() -> Format {
        AsText::format()
    }

    open spec fn val(v: ItemModelImpl) -> Val {
        AsText::val(v.id)
    }

    fn deserialize(seq: &mut &[u8], ctx: &Context) -> (r: Result<ItemModelImpl, ReadingError>) {
        let id = AsText::deserialize(seq, ctx)?;
        Ok(ItemModelImpl { id })
    }

    fn serialize(value: &ItemModelImpl, out: &mut Vec<u8>, ctx: &Context) -> (r: Result<(), WritingError>) {
        AsText::serialize(&value.id, out, ctx)
    }

    fn equal(a: &ItemModelImpl, b: &ItemModelImpl) -> (r: bool) {
        AsText::equal(&a.id, &b.id)
    }
}

/// How the lines of a description are counted.
pub struct LoreCount;

impl ListRule for LoreCount {
    open spec fn rule() -> CountRule {
        CountRule::Range { max: 256, out: Blame { text: "LoreImpl line count {} is out of bounds (0-256)", number: true } }
    }

    open spec fn limit() -> Limit {
        Limit::Unlimited
    }

    fn count(seq: &mut &[u8]) -> (r: Result<u64, ReadingError>) {
        let v: i32 = get_var_int(seq)?;
        if v < 0 || v > 256 {
            return Err(message_value("LoreImpl line count {} is out of bounds (0-256)", v as i128));
        }
        Ok(v as u64)
    }

    fn allowed(n: usize) -> (r: Result<(), WritingError>) {
        Ok(())
    }
}

/// The description of an item.
#[derive(Debug, PartialEq)]
pub struct LoreImpl {
    pub lines: Vec<TextComponent>,
}

impl DataComponentCodec for LoreImpl {
    type Value = LoreImpl;

    open spec fn format() -> Format {
        <ListOf<LoreCount, AsLine> as DataComponentCodec>::format()
    }

    open spec fn val(v: LoreImpl) -> Val {
        <ListOf<LoreCount, AsLine> as DataComponentCodec>::val(v.lines)
    }

    fn deserialize(seq: &mut &[u8], ctx: &Context) -> (r: Result<LoreImpl, ReadingError>) {
        let lines = <ListOf<LoreCount, AsLine> as DataComponentCodec>::deserialize(seq, ctx)?;
        Ok(LoreImpl { lines })
    }

    fn serialize(value: &LoreImpl, out: &mut Vec<u8>, ctx: &Context) -> (r: Result<(), WritingError>) {
        <ListOf<LoreCount, AsLine> as DataComponentCodec>::serialize(&value.lines, out, ctx)
    }

    fn equal(a: &LoreImpl, b: &LoreImpl) -> (r: bool) {
        <ListOf<LoreCount, AsLine> as DataComponentCodec>::equal(&a.lines, &b.lines)
    }
}

/// How rare an item is.
#[derive(Clone, Copy, Debug, PartialEq, Eq, Structural)]
pub enum Rarity {
    Common,
    Uncommon,
    Rare,
    Epic,
}

/// The number of a value.
pub open spec fn rarity_id(v: Rarity) -> int {
    match v {
        Rarity::Common => 0,
        Rarity::Uncommon => 1,
        Rarity::Rare => 2,
        Rarity::Epic => 3,
    }
}

/// The name of a value.
pub open spec fn rarity_name(v: Rarity) -> Seq<char> {
    match v {
        Rarity::Common => "common"@,
        Rarity::Uncommon => "uncommon"@,
        Rarity::Rare => "rare"@,
        Rarity::Epic => "epic"@,
    }
}

impl Rarity {
    /// The value with a number.
    pub fn from_id(id: i32) -> (r: Option<Self>)
        ensures
            match r {
                Some(v) => rarity_id(v) == id,
                None => !(0 <= id < 4),
            },
    {
        match id {
            0 => Some(Rarity::Common),
            1 => Some(Rarity::Uncommon),
            2 => Some(Rarity::Rare),
            3 => Some(Rarity::Epic),
            _ => None,
        }
    }

    /// The number of the value.
    pub fn to_id(self) -> (r: i32)
        ensures
            r == rarity_id(self),
    {
        match self {
            Rarity::Common => 0,
            Rarity::Uncommon => 1,
            Rarity::Rare => 2,
            Rarity::Epic => 3,
        }
    }

    /// The value with a name.
    pub fn from_name(name: &str) -> (r: Option<Self>)
        ensures
            match r {
                Some(v) => rarity_name(v) == name@,
                None => forall|v: Rarity| #[trigger] rarity_name(v) != name@,
            },
    {
        if same_text(name, "common") {
            return Some(Rarity::Common);
        }
        if same_text(name, "uncommon") {
            return Some(Rarity::Uncommon);
        }
        if same_text(name, "rare") {
            return Some(Rarity::Rare);
        }
        if same_text(name, "epic") {
            return Some(Rarity::Epic);
        }
        None
    }

    /// The name of the value.
    pub fn to_name(self) -> (r: &'static str)
        ensures
            r@ == rarity_name(self),
    {
        match self {
            Rarity::Common => "common",
            Rarity::Uncommon => "uncommon",
            Rarity::Rare => "rare",
            Rarity::Epic => "epic",
        }
    }
}

/// A value by its number.
pub struct AsRarity;

impl Numbered for AsRarity {
    type Value = Rarity;

    open spec fn check() -> Check {
        Check::UpTo { max: 3, out: Blame { text: "Invalid Rarity id {}", number: true } }
    }

    open spec fn val(v: Rarity) -> Val {
        Val::Int(rarity_id(v))
    }

    fn decode(regs: &Registries, v: i32) -> (r: Result<Rarity, ReadingError>) {
        match Rarity::from_id(v) {
            Some(x) => Ok(x),
            None => Err(message_value("Invalid Rarity id {}", v as i128)),
        }
    }

    fn encode(regs: &Registries, value: &Rarity) -> (r: Result<i32, WritingError>) {
        Ok(value.to_id())
    }

    fn alike(a: &Rarity, b: &Rarity) -> (r: bool) {
        a.to_id() == b.to_id()
    }
}

/// How rare an item is.
#[derive(Debug, PartialEq)]
pub struct RarityImpl {
    pub rarity: Rarity,
}

impl DataComponentCodec for RarityImpl {
    type Value = RarityImpl;

    open spec fn format() -> Format {
        <Coded<AsRarity> as DataComponentCodec>::format()
    }

    open spec fn val(v: RarityImpl) -> Val {
        <Coded<AsRarity> as DataComponentCodec>::val(v.rarity)
    }

    fn deserialize(seq: &mut &[u8], ctx: &Context) -> (r: Result<RarityImpl, ReadingError>) {
        let rarity = <Coded<AsRarity> as DataComponentCodec>::deserialize(seq, ctx)?;
        Ok(RarityImpl { rarity })
    }

    fn serialize(value: &RarityImpl, out: &mut Vec<u8>, ctx: &Context) -> (r: Result<(), WritingError>) {
        <Coded<AsRarity> as DataComponentCodec>::serialize(&value.rarity, out, ctx)
    }

    fn equal(a: &RarityImpl, b: &RarityImpl) -> (r: bool) {
        <Coded<AsRarity> as DataComponentCodec>::equal(&a.rarity, &b.rarity)
    }
}

/// What a resource pack selects a model by.
#[derive(Debug, PartialEq)]
pub struct CustomModelDataImpl {
    /// Floating-point numbers, as their bit patterns.
    pub floats: Vec<u32>,
    pub flags: Vec<bool>,
    pub strings: Vec<String>,
    pub colors: Vec<i32>,
}

impl DataComponentCodec for CustomModelDataImpl {
    type Value = CustomModelDataImpl;

    open spec fn format() -> Format {
        Format::Pair(Box::new(<ListOf<RawCount, AsF32> as DataComponentCodec>::format()), Box::new(Format::Pair(Box::new(<ListOf<RawCount, AsBool> as DataComponentCodec>::format()), Box::new(Format::Pair(Box::new(<ListOf<RawCount, AsText> as DataComponentCodec>::format()), Box::new(<ListOf<RawCount, AsI32> as DataComponentCodec>::format()))))))
    }

    open spec fn val(v: CustomModelDataImpl) -> Val {
        pair(<ListOf<RawCount, AsF32> as DataComponentCodec>::val(v.floats), pair(<ListOf<RawCount, AsBool> as DataComponentCodec>::val(v.flags), pair(<ListOf<RawCount, AsText> as DataComponentCodec>::val(v.strings), <ListOf<RawCount, AsI32> as DataComponentCodec>::val(v.colors))))
    }

    fn deserialize(seq: &mut &[u8], ctx: &Context) -> (r: Result<CustomModelDataImpl, ReadingError>) {
        proof {
            reveal_with_fuel(read_val, 4);
        }
        let floats = <ListOf<RawCount, AsF32> as DataComponentCodec>::deserialize(seq, ctx)?;
        let flags = <ListOf<RawCount, AsBool> as DataComponentCodec>::deserialize(seq, ctx)?;
        let strings = <ListOf<RawCount, AsText> as DataComponentCodec>::deserialize(seq, ctx)?;
        let colors = <ListOf<RawCount, AsI32> as DataComponentCodec>::deserialize(seq, ctx)?;
        Ok(CustomModelDataImpl { floats, flags, strings, colors })
    }

    fn serialize(value: &CustomModelDataImpl, out: &mut Vec<u8>, ctx: &Context) -> (r: Result<(), WritingError>) {
        proof {
            reveal_with_fuel(write_val, 4);
        }
        <ListOf<RawCount, AsF32> as DataComponentCodec>::serialize(&value.floats, out, ctx)?;
        <ListOf<RawCount, AsBool> as DataComponentCodec>::serialize(&value.flags, out, ctx)?;
        <ListOf<RawCount, AsText> as DataComponentCodec>::serialize(&value.strings, out, ctx)?;
        <ListOf<RawCount, AsI32> as DataComponentCodec>::serialize(&value.colors, out, ctx)
    }

    fn equal(a: &CustomModelDataImpl, b: &CustomModelDataImpl) -> (r: bool) {
        proof {
            reveal_with_fuel(val_same, 4);
        }
        <ListOf<RawCount, AsF32> as DataComponentCodec>::equal(&a.floats, &b.floats) && <ListOf<RawCount, AsBool> as DataComponentCodec>::equal(&a.flags, &b.flags) && <ListOf<RawCount, AsText> as DataComponentCodec>::equal(&a.strings, &b.strings) && <ListOf<RawCount, AsI32> as DataComponentCodec>::equal(&a.colors, &b.colors)
    }
}

/// The number of a component type.
pub struct HiddenComponent;

impl Numbered for HiddenComponent {
    type Value = DataComponent;

    open spec fn check() -> Check {
        Check::Component {
            range: Blame { text: "Invalid hidden tooltip component ID", number: false },
            unknown: Blame { text: "Unknown hidden tooltip component ID", number: false },
        }
    }

    open spec fn val(v: DataComponent) -> Val {
        Val::Int(component_id(v) as int)
    }

    fn decode(regs: &Registries, v: i32) -> (r: Result<DataComponent, ReadingError>) {
        if v < 0 || v > 255 {
            return Err(message("Invalid hidden tooltip component ID"));
        }
        proof {
            lemma_component_id_of(v as int);
        }
        match DataComponent::try_from_id(v as u8) {
            Some(k) => Ok(k),
            None => Err(message("Unknown hidden tooltip component ID")),
        }
    }

    fn encode(regs: &Registries, value: &DataComponent) -> (r: Result<i32, WritingError>) {
        Ok(value.to_id() as i32)
    }

    fn alike(a: &DataComponent, b: &DataComponent) -> (r: bool) {
        a.to_id() == b.to_id()
    }
}

/// How hidden components are counted.
pub struct HiddenCount;

impl ListRule for HiddenCount {
    open spec fn rule() -> CountRule {
        CountRule::Signed {
            negative: Blame { text: "Negative hidden tooltip component count", number: false },
            max: 256,
            over: "Too many hidden tooltip components",
        }
    }

    open spec fn limit() -> Limit {
        Limit::AtMost { max: 256, over: "Too many hidden tooltip components" }
    }

    fn count(seq: &mut &[u8]) -> (r: Result<u64, ReadingError>) {
        let v: i32 = get_var_int(seq)?;
        if v < 0 {
            return Err(message("Negative hidden tooltip component count"));
        }
        if v > 256 {
            return Err(message("Too many hidden tooltip components"));
        }
        Ok(v as u64)
    }

    fn allowed(n: usize) -> (r: Result<(), WritingError>) {
        if n > 256 {
            return Err(cannot_write("Too many hidden tooltip components"));
        }
        Ok(())
    }
}

/// Component types, each once.
pub struct DistinctComponents;

/// Whether a list of component types holds one.
pub fn has_component(v: &Vec<DataComponent>, k: DataComponent) -> (r: bool)
    ensures
        r == v@.contains(k),
{
    let mut i: usize = 0;
    while i < v.len()
        invariant
            i <= v.len(),
            forall|j: int| 0 <= j < i ==> #[trigger] v@[j] != k,
        decreases v.len() - i,
    {
        if v[i] == k {
            return true;
        }
        i += 1;
    }
    false
}

impl DataComponentCodec for DistinctComponents {
    type Value = Vec<DataComponent>;

    open spec fn format() -> Format {
        Format::Distinct(HiddenCount::rule(), HiddenCount::limit(), Box::new(<Coded<HiddenComponent> as DataComponentCodec>::format()))
    }

    open spec fn val(v: Vec<DataComponent>) -> Val {
        Val::List(vals::<Coded<HiddenComponent>>(v@))
    }

    fn deserialize(seq: &mut &[u8], ctx: &Context) -> (r: Result<Vec<DataComponent>, ReadingError>) {
        proof {
            reveal(read_val);
        }
        let n: u64 = HiddenCount::count(seq)?;
        get_distinct(seq, n, ctx)
    }

    fn serialize(value: &Vec<DataComponent>, out: &mut Vec<u8>, ctx: &Context) -> (r: Result<(), WritingError>) {
        proof {
            reveal(write_val);
        }
        HiddenCount::allowed(value.len())?;
        write_var_int(out, count_as_i32(value.len()));
        put_list::<Coded<HiddenComponent>>(value, out, ctx)
    }

    fn equal(a: &Vec<DataComponent>, b: &Vec<DataComponent>) -> (r: bool) {
        equal_lists::<Coded<HiddenComponent>>(a, b)
    }
}

/// Reads `n` component types and keeps each where it first comes.
fn get_distinct(seq: &mut &[u8], n: u64, ctx: &Context) -> (r: Result<Vec<DataComponent>, ReadingError>)
    ensures
        decodes(
            keep_distinct(read_items(<Coded<HiddenComponent> as DataComponentCodec>::format(), n as nat, ctx@, old(seq)@, Seq::empty())),
            r,
            final(seq)@,
            |v: Vec<DataComponent>| Val::List(vals::<Coded<HiddenComponent>>(v@)),
        ),
{
    let ghost f = <Coded<HiddenComponent> as DataComponentCodec>::format();
    let ghost o = read_items(f, n as nat, ctx@, seq@, Seq::empty());
    let ghost mut seen: Seq<Val> = Seq::empty();
    let mut out: Vec<DataComponent> = Vec::new();
    assert(vals::<Coded<HiddenComponent>>(out@) =~= distinct(seen));
    let mut i: u64 = 0;
    while i < n
        invariant
            i <= n,
            f == <Coded<HiddenComponent> as DataComponentCodec>::format(),
            o == read_items(f, n as nat, ctx@, old(seq)@, Seq::empty()),
            o == read_items(f, (n - i) as nat, ctx@, seq@, seen),
            vals::<Coded<HiddenComponent>>(out@) == distinct(seen),
        decreases n - i,
    {
        proof {
            reveal(read_val);
        }
        let k = <Coded<HiddenComponent> as DataComponentCodec>::deserialize(seq, ctx)?;
        let ghost x = <Coded<HiddenComponent> as DataComponentCodec>::val(k);
        let ghost before = vals::<Coded<HiddenComponent>>(out@);
        proof {
            let head = seen;
            seen = seen.push(x);
            assert(seen.drop_last() =~= head);
            lemma_holds(out@, k);
        }
        if !has_component(&out, k) {
            out.push(k);
            assert(vals::<Coded<HiddenComponent>>(out@) =~= before.push(x));
        }
        i += 1;
    }
    Ok(out)
}

/// A list holds a component type where its numbers hold the number of the type.
pub proof fn lemma_holds(v: Seq<DataComponent>, k: DataComponent)
    ensures
        v.contains(k) == vals::<Coded<HiddenComponent>>(v).contains(<Coded<HiddenComponent> as DataComponentCodec>::val(k)),
{
    let l = vals::<Coded<HiddenComponent>>(v);
    let x = <Coded<HiddenComponent> as DataComponentCodec>::val(k);
    if v.contains(k) {
        let i = choose|i: int| 0 <= i < v.len() && v[i] == k;
        assert(l[i] == x);
    }
    if l.contains(x) {
        let i = choose|i: int| 0 <= i < l.len() && l[i] == x;
        lemma_component_of_own_id(v[i]);
        lemma_component_of_own_id(k);
        assert(v[i] == k);
    }
}

/// Which parts of a tooltip are hidden.
#[derive(Debug, PartialEq)]
pub struct TooltipDisplayImpl {
    pub hide_tooltip: bool,
    pub hidden_components: Vec<DataComponent>,
}

impl DataComponentCodec for TooltipDisplayImpl {
    type Value = TooltipDisplayImpl;

    open spec fn format() -> Format {
        Format::Pair(Box::new(AsBool::format()), Box::new(DistinctComponents::format()))
    }

    open spec fn val(v: TooltipDisplayImpl) -> Val {
        pair(AsBool::val(v.hide_tooltip), DistinctComponents::val(v.hidden_components))
    }

    fn deserialize(seq: &mut &[u8], ctx: &Context) -> (r: Result<TooltipDisplayImpl, ReadingError>) {
        proof {
            reveal_with_fuel(read_val, 2);
        }
        let hide_tooltip = AsBool::deserialize(seq, ctx)?;
        let hidden_components = DistinctComponents::deserialize(seq, ctx)?;
        Ok(TooltipDisplayImpl { hide_tooltip, hidden_components })
    }

    fn serialize(value: &TooltipDisplayImpl, out: &mut Vec<u8>, ctx: &Context) -> (r: Result<(), WritingError>) {
        proof {
            reveal_with_fuel(write_val, 2);
        }
        AsBool::serialize(&value.hide_tooltip, out, ctx)?;
        DistinctComponents::serialize(&value.hidden_components, out, ctx)
    }

    fn equal(a: &TooltipDisplayImpl, b: &TooltipDisplayImpl) -> (r: bool) {
        proof {
            reveal_with_fuel(val_same, 2);
        }
        AsBool::equal(&a.hide_tooltip, &b.hide_tooltip) && DistinctComponents::equal(&a.hidden_components, &b.hidden_components)
    }
}

/// Marks an item that cannot be taken out of its creative slot.
#[derive(Clone, Copy, Debug, PartialEq, Eq)]
pub struct CreativeSlotLockImpl;

impl DataComponentCodec for CreativeSlotLockImpl {
    type Value = CreativeSlotLockImpl;

    open spec fn format() -> Format {
        Format::Unit
    }

    open spec fn val(v: CreativeSlotLockImpl) -> Val {
        Val::Unit
    }

    fn deserialize(seq: &mut &[u8], ctx: &Context) -> (r: Result<CreativeSlotLockImpl, ReadingError>) {
        proof {
            reveal(read_val);
        }
        Ok(CreativeSlotLockImpl)
    }

    fn serialize(value: &CreativeSlotLockImpl, out: &mut Vec<u8>, ctx: &Context) -> (r: Result<(), WritingError>) {
        proof {
            reveal(write_val);
        }
        Ok(())
    }

    fn equal(a: &CreativeSlotLockImpl, b: &CreativeSlotLockImpl) -> (r: bool) {
        true
    }
}

/// Marks an item that glints.
#[derive(Clone, Copy, Debug, PartialEq, Eq)]
pub struct EnchantmentGlintOverrideImpl;

impl DataComponentCodec for EnchantmentGlintOverrideImpl {
    type Value = EnchantmentGlintOverrideImpl;

    open spec fn format() -> Format {
        Format::Fixed(Box::new(<AsBool as DataComponentCodec>::format()), Box::new(Val::Bool(true)), Box::new(Val::Unit))
    }

    open spec fn val(v: EnchantmentGlintOverrideImpl) -> Val {
        Val::Unit
    }

    fn deserialize(seq: &mut &[u8], ctx: &Context) -> (r: Result<EnchantmentGlintOverrideImpl, ReadingError>) {
        proof {
            reveal(read_val);
        }
        <AsBool as DataComponentCodec>::deserialize(seq, ctx)?;
        Ok(EnchantmentGlintOverrideImpl)
    }

    fn serialize(value: &EnchantmentGlintOverrideImpl, out: &mut Vec<u8>, ctx: &Context) -> (r: Result<(), WritingError>) {
        proof {
            reveal(write_val);
        }
        let written = true;
        <AsBool as DataComponentCodec>::serialize(&written, out, ctx)
    }

    fn equal(a: &EnchantmentGlintOverrideImpl, b: &EnchantmentGlintOverrideImpl) -> (r: bool) {
        true
    }
}

/// The style of a tooltip.
#[derive(Debug, PartialEq)]
pub struct TooltipStyleImpl {
    pub id: String,
}

impl DataComponentCodec for TooltipStyleImpl {
    type Value = TooltipStyleImpl;

    open spec fn format() -> Format {
        AsText::format()
    }

    open spec fn val(v: TooltipStyleImpl) -> Val {
        AsText::val(v.id)
    }

    fn deserialize(seq: &mut &[u8], ctx: &Context) -> (r: Result<TooltipStyleImpl, ReadingError>) {
        let id = AsText::deserialize(seq, ctx)?;
        Ok(TooltipStyleImpl { id })
    }

    fn serialize(value: &TooltipStyleImpl, out: &mut Vec<u8>, ctx: &Context) -> (r: Result<(), WritingError>) {
        AsText::serialize(&value.id, out, ctx)
    }

    fn equal(a: &TooltipStyleImpl, b: &TooltipStyleImpl) -> (r: bool) {
        AsText::equal(&a.id, &b.id)
    }
}

/// The sound that a note block under the item plays.
#[derive(Debug, PartialEq)]
pub struct NoteBlockSoundImpl {
    pub sound: String,
}

impl DataComponentCodec for NoteBlockSoundImpl {
    type Value = NoteBlockSoundImpl;

    open spec fn format() -> Format {
        AsText::format()
    }

    open spec fn val(v: NoteBlockSoundImpl) -> Val {
        AsText::val(v.sound)
    }

    fn deserialize(seq: &mut &[u8], ctx: &Context) -> (r: Result<NoteBlockSoundImpl, ReadingError>) {
        let sound = AsText::deserialize(seq, ctx)?;
        Ok(NoteBlockSoundImpl { sound })
    }

    fn serialize(value: &NoteBlockSoundImpl, out: &mut Vec<u8>, ctx: &Context) -> (r: Result<(), WritingError>) {
        AsText::serialize(&value.sound, out, ctx)
    }

    fn equal(a: &NoteBlockSoundImpl, b: &NoteBlockSoundImpl) -> (r: bool) {
        AsText::equal(&a.sound, &b.sound)
    }
}

/// The name of a dye colour by its number.
pub struct AsDyeName;

/// The name of the dye colour with a number.
pub fn dye_color_name(id: u8) -> (r: &'static str)
    ensures
        r@ == dye_name(id as int),
{
    match id {
        1 => "orange",
        2 => "magenta",
        3 => "light_blue",
        4 => "yellow",
        5 => "lime",
        6 => "pink",
        7 => "gray",
        8 => "light_gray",
        9 => "cyan",
        10 => "purple",
        11 => "blue",
        12 => "brown",
        13 => "green",
        14 => "red",
        15 => "black",
        _ => "white",
    }
}

/// The number of the dye colour with a name.
pub fn dye_color_id(name: &str) -> (r: Option<u8>)
    ensures
        match r {
            Some(i) => dye_id(name@, 0) == Some(i as int) && i < 16,
            None => dye_id(name@, 0) is None,
        },
{
    let mut i: u8 = 0;
    while i < 16
        invariant
            i <= 16,
            dye_id(name@, 0) == dye_id(name@, i as int),
        decreases 16 - i,
    {
        if same_text(dye_color_name(i), name) {
            return Some(i);
        }
        i += 1;
    }
    None
}

impl Numbered for AsDyeName {
    type Value = String;

    open spec fn check() -> Check {
        Check::DyeName
    }

    open spec fn val(v: String) -> Val {
        Val::Text(v@)
    }

    fn decode(regs: &Registries, v: i32) -> (r: Result<String, ReadingError>) {
        Ok(dye_color_name(low_byte(v)).to_owned())
    }

    fn encode(regs: &Registries, value: &String) -> (r: Result<i32, WritingError>) {
        match dye_color_id(value.as_str()) {
            Some(i) => Ok(i as i32),
            None => Ok(0),
        }
    }

    fn alike(a: &String, b: &String) -> (r: bool) {
        same_text(a.as_str(), b.as_str())
    }
}

/// The base colour of a shield.
#[derive(Debug, PartialEq)]
pub struct BaseColorImpl {
    pub color: String,
}

impl DataComponentCodec for BaseColorImpl {
    type Value = BaseColorImpl;

    open spec fn format() -> Format {
        <Coded<AsDyeName> as DataComponentCodec>::format()
    }

    open spec fn val(v: BaseColorImpl) -> Val {
        <Coded<AsDyeName> as DataComponentCodec>::val(v.color)
    }

    fn deserialize(seq: &mut &[u8], ctx: &Context) -> (r: Result<BaseColorImpl, ReadingError>) {
        let color = <Coded<AsDyeName> as DataComponentCodec>::deserialize(seq, ctx)?;
        Ok(BaseColorImpl { color })
    }

    fn serialize(value: &BaseColorImpl, out: &mut Vec<u8>, ctx: &Context) -> (r: Result<(), WritingError>) {
        <Coded<AsDyeName> as DataComponentCodec>::serialize(&value.color, out, ctx)
    }

    fn equal(a: &BaseColorImpl, b: &BaseColorImpl) -> (r: bool) {
        <Coded<AsDyeName> as DataComponentCodec>::equal(&a.color, &b.color)
    }
}

/// Marks an item that is an instrument.
#[derive(Clone, Copy, Debug, PartialEq, Eq)]
pub struct InstrumentImpl;

impl DataComponentCodec for InstrumentImpl {
    type Value = InstrumentImpl;

    open spec fn format() -> Format {
        Format::Fixed(Box::new(<AsVarInt as DataComponentCodec>::format()), Box::new(Val::Int(0)), Box::new(Val::Unit))
    }

    open spec fn val(v: InstrumentImpl) -> Val {
        Val::Unit
    }

    fn deserialize(seq: &mut &[u8], ctx: &Context) -> (r: Result<InstrumentImpl, ReadingError>) {
        proof {
            reveal(read_val);
        }
        <AsVarInt as DataComponentCodec>::deserialize(seq, ctx)?;
        Ok(InstrumentImpl)
    }

    fn serialize(value: &InstrumentImpl, out: &mut Vec<u8>, ctx: &Context) -> (r: Result<(), WritingError>) {
        proof {
            reveal(write_val);
        }
        let written: i32 = 0;
        <AsVarInt as DataComponentCodec>::serialize(&written, out, ctx)
    }

    fn equal(a: &InstrumentImpl, b: &InstrumentImpl) -> (r: bool) {
        true
    }
}

/// Marks an item that is a trim material.
#[derive(Clone, Copy, Debug, PartialEq, Eq)]
pub struct ProvidesTrimMaterialImpl;

impl DataComponentCodec for ProvidesTrimMaterialImpl {
    type Value = ProvidesTrimMaterialImpl;

    open spec fn format() -> Format {
        Format::Fixed(Box::new(<AsVarInt as DataComponentCodec>::format()), Box::new(Val::Int(0)), Box::new(Val::Unit))
    }

    open spec fn val(v: ProvidesTrimMaterialImpl) -> Val {
        Val::Unit
    }

    fn deserialize(seq: &mut &[u8], ctx: &Context) -> (r: Result<ProvidesTrimMaterialImpl, ReadingError>) {
        proof {
            reveal(read_val);
        }
        <AsVarInt as DataComponentCodec>::deserialize(seq, ctx)?;
        Ok(ProvidesTrimMaterialImpl)
    }

    fn serialize(value: &ProvidesTrimMaterialImpl, out: &mut Vec<u8>, ctx: &Context) -> (r: Result<(), WritingError>) {
        proof {
            reveal(write_val);
        }
        let written: i32 = 0;
        <AsVarInt as DataComponentCodec>::serialize(&written, out, ctx)
    }

    fn equal(a: &ProvidesTrimMaterialImpl, b: &ProvidesTrimMaterialImpl) -> (r: bool) {
        true
    }
}

/// Marks an item that banner patterns come from.
#[derive(Clone, Copy, Debug, PartialEq, Eq)]
pub struct ProvidesBannerPatternsImpl;

impl DataComponentCodec for ProvidesBannerPatternsImpl {
    type Value = ProvidesBannerPatternsImpl;

    open spec fn format() -> Format {
        Format::SkippedSet
    }

    open spec fn val(v: ProvidesBannerPatternsImpl) -> Val {
        Val::Unit
    }

    fn deserialize(seq: &mut &[u8], ctx: &Context) -> (r: Result<ProvidesBannerPatternsImpl, ReadingError>) {
        proof {
            reveal(read_val);
        }
        SkippedSet::deserialize(seq, ctx)?;
        Ok(ProvidesBannerPatternsImpl)
    }

    fn serialize(value: &ProvidesBannerPatternsImpl, out: &mut Vec<u8>, ctx: &Context) -> (r: Result<(), WritingError>) {
        proof {
            reveal(write_val);
        }
        SkippedSet::serialize(&(), out, ctx)
    }

    fn equal(a: &ProvidesBannerPatternsImpl, b: &ProvidesBannerPatternsImpl) -> (r: bool) {
        true
    }
}

/// A dye colour, by its number.
#[derive(Clone, Copy, Debug, PartialEq, Eq)]
pub struct DyeColor {
    pub id: u8,
}

impl DyeColor {
    /// The colour with a number, white where there is none.
    pub fn by_id(id: u8) -> (r: Self)
        ensures
            r.id == (if id < 16 { id } else { 0u8 }),
    {
        DyeColor { id: if id < 16 { id } else { 0 } }
    }

    /// The colour with a name.
    pub fn by_name(name: &str) -> (r: Option<Self>)
        ensures
            match r {
                Some(c) => dye_id(name@, 0) == Some(c.id as int),
                None => dye_id(name@, 0) is None,
            },
    {
        match dye_color_id(name) {
            Some(id) => Some(DyeColor { id }),
            None => None,
        }
    }

    /// The name of the colour.
    pub fn name(self) -> (r: &'static str)
        ensures
            r@ == dye_name(self.id as int),
    {
        dye_color_name(self.id)
    }
}

/// A dye colour by its number.
pub struct AsDye;

impl Numbered for AsDye {
    type Value = DyeColor;

    open spec fn check() -> Check {
        Check::Dye
    }

    open spec fn val(v: DyeColor) -> Val {
        Val::Int(v.id as int)
    }

    fn decode(regs: &Registries, v: i32) -> (r: Result<DyeColor, ReadingError>) {
        Ok(DyeColor::by_id(low_byte(v)))
    }

    fn encode(regs: &Registries, value: &DyeColor) -> (r: Result<i32, WritingError>) {
        Ok(value.id as i32)
    }

    fn alike(a: &DyeColor, b: &DyeColor) -> (r: bool) {
        a.id == b.id
    }
}

/// A pattern, of which only the place is sent.
pub struct SkippedPattern;

impl DataComponentCodec for SkippedPattern {
    type Value = String;

    open spec fn format() -> Format {
        Format::Fixed(Box::new(Format::VarInt), Box::new(Val::Int(0)), Box::new(Val::Text(Seq::empty())))
    }

    open spec fn val(v: String) -> Val {
        Val::Text(v@)
    }

    fn deserialize(seq: &mut &[u8], ctx: &Context) -> (r: Result<String, ReadingError>) {
        proof {
            reveal(read_val);
        }
        AsVarInt::deserialize(seq, ctx)?;
        Ok(empty_text())
    }

    fn serialize(value: &String, out: &mut Vec<u8>, ctx: &Context) -> (r: Result<(), WritingError>) {
        proof {
            reveal(write_val);
        }
        AsVarInt::serialize(&0, out, ctx)
    }

    fn equal(a: &String, b: &String) -> (r: bool) {
        same_text(a.as_str(), b.as_str())
    }
}

/// A layer of a banner.
#[derive(Debug, PartialEq)]
pub struct BannerPatternLayer {
    pub pattern: String,
    pub color: DyeColor,
}

impl DataComponentCodec for BannerPatternLayer {
    type Value = BannerPatternLayer;

    open spec fn format() -> Format {
        Format::Pair(Box::new(SkippedPattern::format()), Box::new(<Coded<AsDye> as DataComponentCodec>::format()))
    }

    open spec fn val(v: BannerPatternLayer) -> Val {
        pair(SkippedPattern::val(v.pattern), <Coded<AsDye> as DataComponentCodec>::val(v.color))
    }

    fn deserialize(seq: &mut &[u8], ctx: &Context) -> (r: Result<BannerPatternLayer, ReadingError>) {
        proof {
            reveal_with_fuel(read_val, 2);
        }
        let pattern = SkippedPattern::deserialize(seq, ctx)?;
        let color = <Coded<AsDye> as DataComponentCodec>::deserialize(seq, ctx)?;
        Ok(BannerPatternLayer { pattern, color })
    }

    fn serialize(value: &BannerPatternLayer, out: &mut Vec<u8>, ctx: &Context) -> (r: Result<(), WritingError>) {
        proof {
            reveal_with_fuel(write_val, 2);
        }
        SkippedPattern::serialize(&value.pattern, out, ctx)?;
        <Coded<AsDye> as DataComponentCodec>::serialize(&value.color, out, ctx)
    }

    fn equal(a: &BannerPatternLayer, b: &BannerPatternLayer) -> (r: bool) {
        proof {
            reveal_with_fuel(val_same, 2);
        }
        SkippedPattern::equal(&a.pattern, &b.pattern) && <Coded<AsDye> as DataComponentCodec>::equal(&a.color, &b.color)
    }
}

/// The layers of a banner.
#[derive(Debug, PartialEq)]
pub struct BannerPatternsImpl {
    pub layers: Vec<BannerPatternLayer>,
}

impl DataComponentCodec for BannerPatternsImpl {
    type Value = BannerPatternsImpl;

    open spec fn format() -> Format {
        <ListOf<RawCount, BannerPatternLayer> as DataComponentCodec>::format()
    }

    open spec fn val(v: BannerPatternsImpl) -> Val {
        <ListOf<RawCount, BannerPatternLayer> as DataComponentCodec>::val(v.layers)
    }

    fn deserialize(seq: &mut &[u8], ctx: &Context) -> (r: Result<BannerPatternsImpl, ReadingError>) {
        let layers = <ListOf<RawCount, BannerPatternLayer> as DataComponentCodec>::deserialize(seq, ctx)?;
        Ok(BannerPatternsImpl { layers })
    }

    fn serialize(value: &BannerPatternsImpl, out: &mut Vec<u8>, ctx: &Context) -> (r: Result<(), WritingError>) {
        <ListOf<RawCount, BannerPatternLayer> as DataComponentCodec>::serialize(&value.layers, out, ctx)
    }

    fn equal(a: &BannerPatternsImpl, b: &BannerPatternsImpl) -> (r: bool) {
        <ListOf<RawCount, BannerPatternLayer> as DataComponentCodec>::equal(&a.layers, &b.layers)
    }
}

/// Marks a pot with decorations.
#[derive(Clone, Copy, Debug, PartialEq, Eq)]
pub struct PotDecorationsImpl;

impl DataComponentCodec for PotDecorationsImpl {
    type Value = PotDecorationsImpl;

    open spec fn format() -> Format {
        Format::Fixed(Box::new(<ListOf<RawCount, AsVarInt> as DataComponentCodec>::format()), Box::new(Val::List(Seq::empty())), Box::new(Val::Unit))
    }

    open spec fn val(v: PotDecorationsImpl) -> Val {
        Val::Unit
    }

    fn deserialize(seq: &mut &[u8], ctx: &Context) -> (r: Result<PotDecorationsImpl, ReadingError>) {
        proof {
            reveal(read_val);
        }
        <ListOf<RawCount, AsVarInt> as DataComponentCodec>::deserialize(seq, ctx)?;
        Ok(PotDecorationsImpl)
    }

    fn serialize(value: &PotDecorationsImpl, out: &mut Vec<u8>, ctx: &Context) -> (r: Result<(), WritingError>) {
        proof {
            reveal(write_val);
        }
        let written: Vec<i32> = Vec::new();
        assert(vals::<AsVarInt>(written@) =~= Seq::<Val>::empty());
        <ListOf<RawCount, AsVarInt> as DataComponentCodec>::serialize(&written, out, ctx)
    }

    fn equal(a: &PotDecorationsImpl, b: &PotDecorationsImpl) -> (r: bool) {
        true
    }
}

/// The predicate that an item has to meet to open a container.
#[derive(Debug, PartialEq)]
pub struct LockImpl {
    pub predicate: NbtCompound,
}

impl DataComponentCodec for LockImpl {
    type Value = LockImpl;

    open spec fn format() -> Format {
        Format::Fixed(Box::new(Format::Unit), Box::new(Val::Unit), Box::new(Val::Nbt(Tag::Compound(Seq::empty()))))
    }

    open spec fn val(v: LockImpl) -> Val {
        Val::Nbt(Tag::Compound(v.predicate@))
    }

    fn deserialize(seq: &mut &[u8], ctx: &Context) -> (r: Result<LockImpl, ReadingError>) {
        proof {
            reveal(read_val);
        }
        assert(read_val(Format::Unit, ctx@, seq@) == done(Val::Unit, seq@));
        Ok(LockImpl { predicate: NbtCompound::new() })
    }

    fn serialize(value: &LockImpl, out: &mut Vec<u8>, ctx: &Context) -> (r: Result<(), WritingError>) {
        proof {
            reveal(write_val);
        }
        assert(write_val(Format::Unit, ctx@, out@, Val::Unit) == (Sink { result: Ok(()), out: out@ }));
        Ok(())
    }

    fn equal(a: &LockImpl, b: &LockImpl) -> (r: bool) {
        AsCompound::equal(&a.predicate, &b.predicate)
    }
}

/// Marks an item with a sound of its own when it breaks.
#[derive(Clone, Copy, Debug, PartialEq, Eq)]
pub struct BreakSoundImpl;

impl DataComponentCodec for BreakSoundImpl {
    type Value = BreakSoundImpl;

    open spec fn format() -> Format {
        Format::Fixed(Box::new(<AsVarInt as DataComponentCodec>::format()), Box::new(Val::Int(0)), Box::new(Val::Unit))
    }

    open spec fn val(v: BreakSoundImpl) -> Val {
        Val::Unit
    }

    fn deserialize(seq: &mut &[u8], ctx: &Context) -> (r: Result<BreakSoundImpl, ReadingError>) {
        proof {
            reveal(read_val);
        }
        <AsVarInt as DataComponentCodec>::deserialize(seq, ctx)?;
        Ok(BreakSoundImpl)
    }

    fn serialize(value: &BreakSoundImpl, out: &mut Vec<u8>, ctx: &Context) -> (r: Result<(), WritingError>) {
        proof {
            reveal(write_val);
        }
        let written: i32 = 0;
        <AsVarInt as DataComponentCodec>::serialize(&written, out, ctx)
    }

    fn equal(a: &BreakSoundImpl, b: &BreakSoundImpl) -> (r: bool) {
        true
    }
}

} // verus!
