//! Components of tools, weapons and armour.
use vstd::prelude::*;
use crate::codec::{vals, AsBool, AsF32, AsF64, AsText, AsVarInt, AsVarU32, Both, Coded, Context, DataComponentCodec, ListOf, ListRule, Numbered, Opt, RawCount};
use crate::elements::{low_byte, AnyTag, AsLeveled, IDSet, IdOr, KnownSound, OfKind, OptionalSound, RequiredTag, SetOf, SkippedDamage, SkippedSet, SoundEvent, Wording};
use crate::errors::{cannot_write, message, message_value, ReadingError, WritingError};
use crate::format::{pair, read_val, write_val, Blame, Check, CountRule, Format, Limit, Sink, Val};
use crate::identifier::parse_identifier;
use crate::nbt_tag::{NbtTag, Tag};
use crate::registry::RegistryKind;
use crate::registry::Registries;
use crate::same::val_same;
use crate::text::same_text;
use crate::wire::{count_of, done, get_str, get_var_int, write_string, write_var_int};

verus! {

/// What using an item does to the player who uses it.
#[derive(Clone, Copy, Debug, PartialEq, Eq)]
pub struct UseEffectsImpl;

impl DataComponentCodec for UseEffectsImpl {
    type Value = UseEffectsImpl;

    open spec fn format() -> Format {
        Format::Fixed(Box::new(<Both<AsBool, Both<AsBool, AsF32>> as DataComponentCodec>::format()), Box::new(pair(Val::Bool(false), pair(Val::Bool(true), Val::Float(4, 0x3e4c_cccd)))), Box::new(Val::Unit))
    }

    open spec fn val(v: UseEffectsImpl) -> Val {
        Val::Unit
    }

    fn deserialize(seq: &mut &[u8], ctx: &Context) -> (r: Result<UseEffectsImpl, ReadingError>) {
        proof {
            reveal(read_val);
        }
        <Both<AsBool, Both<AsBool, AsF32>> as DataComponentCodec>::deserialize(seq, ctx)?;
        Ok(UseEffectsImpl)
    }

    fn serialize(value: &UseEffectsImpl, out: &mut Vec<u8>, ctx: &Context) -> (r: Result<(), WritingError>) {
        let written: (bool, (bool, u32)) = (false, (true, 0x3e4c_cccdu32));
        proof {
            reveal_with_fuel(write_val, 3);
        }
        <Both<AsBool, Both<AsBool, AsF32>> as DataComponentCodec>::serialize(&written, out, ctx)
    }

    fn equal(a: &UseEffectsImpl, b: &UseEffectsImpl) -> (r: bool) {
        true
    }
}

/// How far an attack has to be charged.
#[derive(Debug, PartialEq)]
pub struct MinimumAttackChargeImpl {
    /// The charge, as the bit pattern of a 32-bit floating-point number.
    pub charge: u32,
}

impl DataComponentCodec for MinimumAttackChargeImpl {
    type Value = MinimumAttackChargeImpl;

    open spec fn format() -> Format {
        AsF32::format()
    }

    open spec fn val(v: MinimumAttackChargeImpl) -> Val {
        AsF32::val(v.charge)
    }

    fn deserialize(seq: &mut &[u8], ctx: &Context) -> (r: Result<MinimumAttackChargeImpl, ReadingError>) {
        let charge = AsF32::deserialize(seq, ctx)?;
        Ok(MinimumAttackChargeImpl { charge })
    }

    fn serialize(value: &MinimumAttackChargeImpl, out: &mut Vec<u8>, ctx: &Context) -> (r: Result<(), WritingError>) {
        AsF32::serialize(&value.charge, out, ctx)
    }

    fn equal(a: &MinimumAttackChargeImpl, b: &MinimumAttackChargeImpl) -> (r: bool) {
        AsF32::equal(&a.charge, &b.charge)
    }
}

/// A damage type by its number.
pub struct AsDamageType;

impl Numbered for AsDamageType {
    type Value = u8;

    open spec fn check() -> Check {
        Check::DamageType { unknown: Blame { text: "Invalid DamageType id {}", number: true } }
    }

    open spec fn val(v: u8) -> Val {
        Val::Int(v as int)
    }

    fn decode(regs: &Registries, v: i32) -> (r: Result<u8, ReadingError>) {
        let id: u8 = low_byte(v);
        if (id as usize) < regs.damage_types.len() {
            Ok(id)
        } else {
            Err(message_value("Invalid DamageType id {}", id as i128))
        }
    }

    fn encode(regs: &Registries, value: &u8) -> (r: Result<i32, WritingError>) {
        Ok(*value as i32)
    }

    fn alike(a: &u8, b: &u8) -> (r: bool) {
        *a == *b
    }
}

/// The type of the damage that an item deals, by its registry number.
#[derive(Debug, PartialEq)]
pub struct DamageTypeImpl {
    pub damage_type: u8,
}

impl DataComponentCodec for DamageTypeImpl {
    type Value = DamageTypeImpl;

    open spec fn format() -> Format {
        <Coded<AsDamageType> as DataComponentCodec>::format()
    }

    open spec fn val(v: DamageTypeImpl) -> Val {
        <Coded<AsDamageType> as DataComponentCodec>::val(v.damage_type)
    }

    fn deserialize(seq: &mut &[u8], ctx: &Context) -> (r: Result<DamageTypeImpl, ReadingError>) {
        let damage_type = <Coded<AsDamageType> as DataComponentCodec>::deserialize(seq, ctx)?;
        Ok(DamageTypeImpl { damage_type })
    }

    fn serialize(value: &DamageTypeImpl, out: &mut Vec<u8>, ctx: &Context) -> (r: Result<(), WritingError>) {
        <Coded<AsDamageType> as DataComponentCodec>::serialize(&value.damage_type, out, ctx)
    }

    fn equal(a: &DamageTypeImpl, b: &DamageTypeImpl) -> (r: bool) {
        <Coded<AsDamageType> as DataComponentCodec>::equal(&a.damage_type, &b.damage_type)
    }
}

/// How enchantments are counted.
pub struct EnchantmentCount;

impl ListRule for EnchantmentCount {
    open spec fn rule() -> CountRule {
        CountRule::Capped { max: 256, exceeds: Blame { text: "Too many enchantments", number: false } }
    }

    open spec fn limit() -> Limit {
        Limit::Unlimited
    }

    fn count(seq: &mut &[u8]) -> (r: Result<u64, ReadingError>) {
        let v: i32 = get_var_int(seq)?;
        let n: u64 = count_of(v);
        if n > 256 {
            return Err(message("Too many enchantments"));
        }
        Ok(n)
    }

    fn allowed(n: usize) -> (r: Result<(), WritingError>) {
        Ok(())
    }
}

/// An enchantment that is not known.
pub struct UnknownEnchantment;

impl Wording for UnknownEnchantment {
    open spec fn spec_text() -> &'static str {
        "EnchantmentsImpl Enchantment VarInt Incorrect!"
    }

    fn text() -> (r: &'static str) {
        "EnchantmentsImpl Enchantment VarInt Incorrect!"
    }
}

/// A stored enchantment that is not known.
pub struct UnknownStoredEnchantment;

impl Wording for UnknownStoredEnchantment {
    open spec fn spec_text() -> &'static str {
        "StoredEnchantmentsImpl Enchantment VarInt Incorrect!"
    }

    fn text() -> (r: &'static str) {
        "StoredEnchantmentsImpl Enchantment VarInt Incorrect!"
    }
}

/// The enchantments of an item, by their registry numbers, with their levels.
#[derive(Debug, PartialEq)]
pub struct EnchantmentsImpl {
    pub enchantment: Vec<(u8, i32)>,
}

impl DataComponentCodec for EnchantmentsImpl {
    type Value = EnchantmentsImpl;

    open spec fn format() -> Format {
        <ListOf<EnchantmentCount, AsLeveled<UnknownEnchantment>> as DataComponentCodec>::format()
    }

    open spec fn val(v: EnchantmentsImpl) -> Val {
        <ListOf<EnchantmentCount, AsLeveled<UnknownEnchantment>> as DataComponentCodec>::val(v.enchantment)
    }

    fn deserialize(seq: &mut &[u8], ctx: &Context) -> (r: Result<EnchantmentsImpl, ReadingError>) {
        let enchantment = <ListOf<EnchantmentCount, AsLeveled<UnknownEnchantment>> as DataComponentCodec>::deserialize(seq, ctx)?;
        Ok(EnchantmentsImpl { enchantment })
    }

    fn serialize(value: &EnchantmentsImpl, out: &mut Vec<u8>, ctx: &Context) -> (r: Result<(), WritingError>) {
        <ListOf<EnchantmentCount, AsLeveled<UnknownEnchantment>> as DataComponentCodec>::serialize(&value.enchantment, out, ctx)
    }

    fn equal(a: &EnchantmentsImpl, b: &EnchantmentsImpl) -> (r: bool) {
        <ListOf<EnchantmentCount, AsLeveled<UnknownEnchantment>> as DataComponentCodec>::equal(&a.enchantment, &b.enchantment)
    }
}

/// The enchantments that a book holds, by their registry numbers, with their levels.
#[derive(Debug, PartialEq)]
pub struct StoredEnchantmentsImpl {
    pub enchantment: Vec<(u8, i32)>,
}

impl DataComponentCodec for StoredEnchantmentsImpl {
    type Value = StoredEnchantmentsImpl;

    open spec fn format() -> Format {
        <ListOf<EnchantmentCount, AsLeveled<UnknownStoredEnchantment>> as DataComponentCodec>::format()
    }

    open spec fn val(v: StoredEnchantmentsImpl) -> Val {
        <ListOf<EnchantmentCount, AsLeveled<UnknownStoredEnchantment>> as DataComponentCodec>::val(v.enchantment)
    }

    fn deserialize(seq: &mut &[u8], ctx: &Context) -> (r: Result<StoredEnchantmentsImpl, ReadingError>) {
        let enchantment = <ListOf<EnchantmentCount, AsLeveled<UnknownStoredEnchantment>> as DataComponentCodec>::deserialize(seq, ctx)?;
        Ok(StoredEnchantmentsImpl { enchantment })
    }

    fn serialize(value: &StoredEnchantmentsImpl, out: &mut Vec<u8>, ctx: &Context) -> (r: Result<(), WritingError>) {
        <ListOf<EnchantmentCount, AsLeveled<UnknownStoredEnchantment>> as DataComponentCodec>::serialize(&value.enchantment, out, ctx)
    }

    fn equal(a: &StoredEnchantmentsImpl, b: &StoredEnchantmentsImpl) -> (r: bool) {
        <ListOf<EnchantmentCount, AsLeveled<UnknownStoredEnchantment>> as DataComponentCodec>::equal(&a.enchantment, &b.enchantment)
    }
}

/// An attribute by its number.
pub struct AsAttribute;

impl Numbered for AsAttribute {
    type Value = i32;

    open spec fn check() -> Check {
        Check::Attribute {
            negative: Blame { text: "Invalid attribute registry id: {}", number: true },
            unknown: Blame { text: "Unknown attribute registry id: {}", number: true },
        }
    }

    open spec fn val(v: i32) -> Val {
        Val::Int(v as int)
    }

    fn decode(regs: &Registries, v: i32) -> (r: Result<i32, ReadingError>) {
        if v < 0 {
            return Err(message_value("Invalid attribute registry id: {}", v as i128));
        }
        if (v as usize) < regs.attributes.len() {
            Ok(v)
        } else {
            Err(message_value("Unknown attribute registry id: {}", v as i128))
        }
    }

    fn encode(regs: &Registries, value: &i32) -> (r: Result<i32, WritingError>) {
        Ok(*value)
    }

    fn alike(a: &i32, b: &i32) -> (r: bool) {
        *a == *b
    }
}

/// A text that is an identifier.
pub struct AsIdentifier;

impl DataComponentCodec for AsIdentifier {
    type Value = String;

    open spec fn format() -> Format {
        Format::Identifier
    }

    open spec fn val(v: String) -> Val {
        Val::Text(v@)
    }

    fn deserialize(seq: &mut &[u8], ctx: &Context) -> (r: Result<String, ReadingError>) {
        proof {
            reveal(read_val);
        }
        let t = get_str(seq)?;
        match parse_identifier(t.as_str()) {
            Some(_) => Ok(t),
            None => Err(message("Invalid attribute modifier resource id")),
        }
    }

    fn serialize(value: &String, out: &mut Vec<u8>, ctx: &Context) -> (r: Result<(), WritingError>) {
        proof {
            reveal(write_val);
        }
        match parse_identifier(value.as_str()) {
            Some(_) => write_string(out, value.as_str()),
            None => Err(cannot_write("Invalid attribute modifier resource id")),
        }
    }

    fn equal(a: &String, b: &String) -> (r: bool) {
        same_text(a.as_str(), b.as_str())
    }
}

/// How a modifier changes an attribute.
#[derive(Clone, Copy, Debug, PartialEq, Eq, Structural)]
pub enum Operation {
    AddValue,
    AddMultipliedBase,
    AddMultipliedTotal,
}

/// The number of a value.
pub open spec fn operation_id(v: Operation) -> int {
    match v {
        Operation::AddValue => 0,
        Operation::AddMultipliedBase => 1,
        Operation::AddMultipliedTotal => 2,
    }
}

impl Operation {
    /// The value with a number.
    pub fn from_id(id: i32) -> (r: Option<Self>)
        ensures
            match r {
                Some(v) => operation_id(v) == id,
                None => !(0 <= id < 3),
            },
    {
        match id {
            0 => Some(Operation::AddValue),
            1 => Some(Operation::AddMultipliedBase),
            2 => Some(Operation::AddMultipliedTotal),
            _ => None,
        }
    }

    /// The number of the value.
    pub fn to_id(self) -> (r: i32)
        ensures
            r == operation_id(self),
    {
        match self {
            Operation::AddValue => 0,
            Operation::AddMultipliedBase => 1,
            Operation::AddMultipliedTotal => 2,
        }
    }
}

/// A value by its number.
pub struct AsOperation;

impl Numbered for AsOperation {
    type Value = Operation;

    open spec fn check() -> Check {
        Check::UpTo { max: 2, out: Blame { text: "Invalid attribute modifier operation id: {}", number: true } }
    }

    open spec fn val(v: Operation) -> Val {
        Val::Int(operation_id(v))
    }

    fn decode(regs: &Registries, v: i32) -> (r: Result<Operation, ReadingError>) {
        match Operation::from_id(v) {
            Some(x) => Ok(x),
            None => Err(message_value("Invalid attribute modifier operation id: {}", v as i128)),
        }
    }

    fn encode(regs: &Registries, value: &Operation) -> (r: Result<i32, WritingError>) {
        Ok(value.to_id())
    }

    fn alike(a: &Operation, b: &Operation) -> (r: bool) {
        a.to_id() == b.to_id()
    }
}

/// Where an item has to be for a modifier to apply.
#[derive(Clone, Copy, Debug, PartialEq, Eq, Structural)]
pub enum AttributeModifierSlot {
    Any,
    MainHand,
    OffHand,
    Hand,
    Feet,
    Legs,
    Chest,
    Head,
    Armor,
    Body,
    Saddle,
}

/// The number of a value.
pub open spec fn attribute_modifier_slot_id(v: AttributeModifierSlot) -> int {
    match v {
        AttributeModifierSlot::Any => 0,
        AttributeModifierSlot::MainHand => 1,
        AttributeModifierSlot::OffHand => 2,
        AttributeModifierSlot::Hand => 3,
        AttributeModifierSlot::Feet => 4,
        AttributeModifierSlot::Legs => 5,
        AttributeModifierSlot::Chest => 6,
        AttributeModifierSlot::Head => 7,
        AttributeModifierSlot::Armor => 8,
        AttributeModifierSlot::Body => 9,
        AttributeModifierSlot::Saddle => 10,
    }
}

impl AttributeModifierSlot {
    /// The value with a number.
    pub fn from_id(id: i32) -> (r: Option<Self>)
        ensures
            match r {
                Some(v) => attribute_modifier_slot_id(v) == id,
                None => !(0 <= id < 11),
            },
    {
        match id {
            0 => Some(AttributeModifierSlot::Any),
            1 => Some(AttributeModifierSlot::MainHand),
            2 => Some(AttributeModifierSlot::OffHand),
            3 => Some(AttributeModifierSlot::Hand),
            4 => Some(AttributeModifierSlot::Feet),
            5 => Some(AttributeModifierSlot::Legs),
            6 => Some(AttributeModifierSlot::Chest),
            7 => Some(AttributeModifierSlot::Head),
            8 => Some(AttributeModifierSlot::Armor),
            9 => Some(AttributeModifierSlot::Body),
            10 => Some(AttributeModifierSlot::Saddle),
            _ => None,
        }
    }

    /// The number of the value.
    pub fn to_id(self) -> (r: i32)
        ensures
            r == attribute_modifier_slot_id(self),
    {
        match self {
            AttributeModifierSlot::Any => 0,
            AttributeModifierSlot::MainHand => 1,
            AttributeModifierSlot::OffHand => 2,
            AttributeModifierSlot::Hand => 3,
            AttributeModifierSlot::Feet => 4,
            AttributeModifierSlot::Legs => 5,
            AttributeModifierSlot::Chest => 6,
            AttributeModifierSlot::Head => 7,
            AttributeModifierSlot::Armor => 8,
            AttributeModifierSlot::Body => 9,
            AttributeModifierSlot::Saddle => 10,
        }
    }
}

/// A value by its number.
pub struct AsModifierSlot;

impl Numbered for AsModifierSlot {
    type Value = AttributeModifierSlot;

    open spec fn check() -> Check {
        Check::UpTo { max: 10, out: Blame { text: "Invalid attribute modifier slot id: {}", number: true } }
    }

    open spec fn val(v: AttributeModifierSlot) -> Val {
        Val::Int(attribute_modifier_slot_id(v))
    }

    fn decode(regs: &Registries, v: i32) -> (r: Result<AttributeModifierSlot, ReadingError>) {
        match AttributeModifierSlot::from_id(v) {
            Some(x) => Ok(x),
            None => Err(message_value("Invalid attribute modifier slot id: {}", v as i128)),
        }
    }

    fn encode(regs: &Registries, value: &AttributeModifierSlot) -> (r: Result<i32, WritingError>) {
        Ok(value.to_id())
    }

    fn alike(a: &AttributeModifierSlot, b: &AttributeModifierSlot) -> (r: bool) {
        a.to_id() == b.to_id()
    }
}

/// A display that is missing.
pub struct MissingDisplay;

impl Wording for MissingDisplay {
    open spec fn spec_text() -> &'static str {
        "Attribute modifier display component is missing"
    }

    fn text() -> (r: &'static str) {
        "Attribute modifier display component is missing"
    }
}

/// How a modifier is shown.
#[derive(Debug, PartialEq)]
pub enum ModifierDisplay {
    Default,
    Hidden,
    Override(NbtTag),
}

impl DataComponentCodec for ModifierDisplay {
    type Value = ModifierDisplay;

    open spec fn format() -> Format {
        Format::Choice(
            seq![Format::Unit, Format::Unit, <RequiredTag<MissingDisplay> as DataComponentCodec>::format()],
            Blame { text: "Invalid attribute modifier display type id: {}", number: true },
        )
    }

    open spec fn val(v: ModifierDisplay) -> Val {
        match v {
            ModifierDisplay::Default => pair(Val::Int(0), Val::Unit),
            ModifierDisplay::Hidden => pair(Val::Int(1), Val::Unit),
            ModifierDisplay::Override(t) => pair(Val::Int(2), Val::Nbt(t@)),
        }
    }

    fn deserialize(seq: &mut &[u8], ctx: &Context) -> (r: Result<ModifierDisplay, ReadingError>) {
        proof {
            reveal(read_val);
        }
        let v: i32 = get_var_int(seq)?;
        assert(read_val(Format::Unit, ctx@, seq@) == done(Val::Unit, seq@));
        match v {
            0 => Ok(ModifierDisplay::Default),
            1 => Ok(ModifierDisplay::Hidden),
            2 => Ok(ModifierDisplay::Override(<RequiredTag<MissingDisplay> as DataComponentCodec>::deserialize(seq, ctx)?)),
            _ => Err(message_value("Invalid attribute modifier display type id: {}", v as i128)),
        }
    }

    fn serialize(value: &ModifierDisplay, out: &mut Vec<u8>, ctx: &Context) -> (r: Result<(), WritingError>) {
        proof {
            reveal(write_val);
        }
        match value {
            ModifierDisplay::Default => {
                write_var_int(out, 0);
                assert(write_val(Format::Unit, ctx@, out@, Val::Unit) == (Sink { result: Ok(()), out: out@ }));
                Ok(())
            },
            ModifierDisplay::Hidden => {
                write_var_int(out, 1);
                assert(write_val(Format::Unit, ctx@, out@, Val::Unit) == (Sink { result: Ok(()), out: out@ }));
                Ok(())
            },
            ModifierDisplay::Override(t) => {
                write_var_int(out, 2);
                <RequiredTag<MissingDisplay> as DataComponentCodec>::serialize(t, out, ctx)
            },
        }
    }

    fn equal(a: &ModifierDisplay, b: &ModifierDisplay) -> (r: bool) {
        proof {
            reveal_with_fuel(val_same, 2);
        }
        match (a, b) {
            (ModifierDisplay::Default, ModifierDisplay::Default) => true,
            (ModifierDisplay::Hidden, ModifierDisplay::Hidden) => true,
            (ModifierDisplay::Override(x), ModifierDisplay::Override(y)) => AnyTag::equal(x, y),
            _ => false,
        }
    }
}

/// A change of an attribute.
#[derive(Debug, PartialEq)]
pub struct Modifier {
    /// The registry number of the attribute.
    pub attribute: i32,
    pub id: String,
    /// The amount, as the bit pattern of a 64-bit floating-point number.
    pub amount: u64,
    pub operation: Operation,
    pub slot: AttributeModifierSlot,
    pub display: ModifierDisplay,
}

impl DataComponentCodec for Modifier {
    type Value = Modifier;

    open spec fn format() -> Format {
        Format::Pair(Box::new(<Coded<AsAttribute> as DataComponentCodec>::format()), Box::new(Format::Pair(Box::new(AsIdentifier::format()), Box::new(Format::Pair(Box::new(AsF64::format()), Box::new(Format::Pair(Box::new(<Coded<AsOperation> as DataComponentCodec>::format()), Box::new(Format::Pair(Box::new(<Coded<AsModifierSlot> as DataComponentCodec>::format()), Box::new(ModifierDisplay::format()))))))))))
    }

    open spec fn val(v: Modifier) -> Val {
        pair(<Coded<AsAttribute> as DataComponentCodec>::val(v.attribute), pair(AsIdentifier::val(v.id), pair(AsF64::val(v.amount), pair(<Coded<AsOperation> as DataComponentCodec>::val(v.operation), pair(<Coded<AsModifierSlot> as DataComponentCodec>::val(v.slot), ModifierDisplay::val(v.display))))))
    }

    fn deserialize(seq: &mut &[u8], ctx: &Context) -> (r: Result<Modifier, ReadingError>) {
        proof {
            reveal_with_fuel(read_val, 6);
        }
        let attribute = <Coded<AsAttribute> as DataComponentCodec>::deserialize(seq, ctx)?;
        let id = AsIdentifier::deserialize(seq, ctx)?;
        let amount = AsF64::deserialize(seq, ctx)?;
        let operation = <Coded<AsOperation> as DataComponentCodec>::deserialize(seq, ctx)?;
        let slot = <Coded<AsModifierSlot> as DataComponentCodec>::deserialize(seq, ctx)?;
        let display = ModifierDisplay::deserialize(seq, ctx)?;
        Ok(Modifier { attribute, id, amount, operation, slot, display })
    }

    fn serialize(value: &Modifier, out: &mut Vec<u8>, ctx: &Context) -> (r: Result<(), WritingError>) {
        proof {
            reveal_with_fuel(write_val, 6);
        }
        <Coded<AsAttribute> as DataComponentCodec>::serialize(&value.attribute, out, ctx)?;
        AsIdentifier::serialize(&value.id, out, ctx)?;
        AsF64::serialize(&value.amount, out, ctx)?;
        <Coded<AsOperation> as DataComponentCodec>::serialize(&value.operation, out, ctx)?;
        <Coded<AsModifierSlot> as DataComponentCodec>::serialize(&value.slot, out, ctx)?;
        ModifierDisplay::serialize(&value.display, out, ctx)
    }

    fn equal(a: &Modifier, b: &Modifier) -> (r: bool) {
        proof {
            reveal_with_fuel(val_same, 6);
        }
        <Coded<AsAttribute> as DataComponentCodec>::equal(&a.attribute, &b.attribute) && AsIdentifier::equal(&a.id, &b.id) && AsF64::equal(&a.amount, &b.amount) && <Coded<AsOperation> as DataComponentCodec>::equal(&a.operation, &b.operation) && <Coded<AsModifierSlot> as DataComponentCodec>::equal(&a.slot, &b.slot) && ModifierDisplay::equal(&a.display, &b.display)
    }
}

/// How modifiers are counted.
pub struct ModifierCount;

impl ListRule for ModifierCount {
    open spec fn rule() -> CountRule {
        CountRule::NonNegative { negative: Blame { text: "Negative attribute modifier count: {}", number: true } }
    }

    open spec fn limit() -> Limit {
        Limit::AtMost { max: 0x7fff_ffff, over: "Too many attribute modifiers" }
    }

    fn count(seq: &mut &[u8]) -> (r: Result<u64, ReadingError>) {
        let v: i32 = get_var_int(seq)?;
        if v < 0 {
            return Err(message_value("Negative attribute modifier count: {}", v as i128));
        }
        Ok(v as u64)
    }

    fn allowed(n: usize) -> (r: Result<(), WritingError>) {
        if n > 0x7fff_ffff {
            return Err(cannot_write("Too many attribute modifiers"));
        }
        Ok(())
    }
}

/// What an item changes of the attributes of its holder.
#[derive(Debug, PartialEq)]
pub struct AttributeModifiersImpl {
    pub attribute_modifiers: Vec<Modifier>,
}

impl DataComponentCodec for AttributeModifiersImpl {
    type Value = AttributeModifiersImpl;

    open spec fn format() -> Format {
        <ListOf<ModifierCount, Modifier> as DataComponentCodec>::format()
    }

    open spec fn val(v: AttributeModifiersImpl) -> Val {
        <ListOf<ModifierCount, Modifier> as DataComponentCodec>::val(v.attribute_modifiers)
    }

    fn deserialize(seq: &mut &[u8], ctx: &Context) -> (r: Result<AttributeModifiersImpl, ReadingError>) {
        let attribute_modifiers = <ListOf<ModifierCount, Modifier> as DataComponentCodec>::deserialize(seq, ctx)?;
        Ok(AttributeModifiersImpl { attribute_modifiers })
    }

    fn serialize(value: &AttributeModifiersImpl, out: &mut Vec<u8>, ctx: &Context) -> (r: Result<(), WritingError>) {
        <ListOf<ModifierCount, Modifier> as DataComponentCodec>::serialize(&value.attribute_modifiers, out, ctx)
    }

    fn equal(a: &AttributeModifiersImpl, b: &AttributeModifiersImpl) -> (r: bool) {
        <ListOf<ModifierCount, Modifier> as DataComponentCodec>::equal(&a.attribute_modifiers, &b.attribute_modifiers)
    }
}

/// What repairing an item costs in addition.
#[derive(Debug, PartialEq)]
pub struct RepairCostImpl {
    pub cost: i32,
}

impl DataComponentCodec for RepairCostImpl {
    type Value = RepairCostImpl;

    open spec fn format() -> Format {
        AsVarInt::format()
    }

    open spec fn val(v: RepairCostImpl) -> Val {
        AsVarInt::val(v.cost)
    }

    fn deserialize(seq: &mut &[u8], ctx: &Context) -> (r: Result<RepairCostImpl, ReadingError>) {
        let cost = AsVarInt::deserialize(seq, ctx)?;
        Ok(RepairCostImpl { cost })
    }

    fn serialize(value: &RepairCostImpl, out: &mut Vec<u8>, ctx: &Context) -> (r: Result<(), WritingError>) {
        AsVarInt::serialize(&value.cost, out, ctx)
    }

    fn equal(a: &RepairCostImpl, b: &RepairCostImpl) -> (r: bool) {
        AsVarInt::equal(&a.cost, &b.cost)
    }
}

/// What eating an item does.
#[derive(Debug, PartialEq)]
pub struct FoodImpl {
    pub nutrition: i32,
    /// The saturation, as the bit pattern of a 32-bit floating-point number.
    pub saturation: u32,
    pub can_always_eat: bool,
}

impl DataComponentCodec for FoodImpl {
    type Value = FoodImpl;

    open spec fn format() -> Format {
        Format::Pair(Box::new(AsVarInt::format()), Box::new(Format::Pair(Box::new(AsF32::format()), Box::new(AsBool::format()))))
    }

    open spec fn val(v: FoodImpl) -> Val {
        pair(AsVarInt::val(v.nutrition), pair(AsF32::val(v.saturation), AsBool::val(v.can_always_eat)))
    }

    fn deserialize(seq: &mut &[u8], ctx: &Context) -> (r: Result<FoodImpl, ReadingError>) {
        proof {
            reveal_with_fuel(read_val, 3);
        }
        let nutrition = AsVarInt::deserialize(seq, ctx)?;
        let saturation = AsF32::deserialize(seq, ctx)?;
        let can_always_eat = AsBool::deserialize(seq, ctx)?;
        Ok(FoodImpl { nutrition, saturation, can_always_eat })
    }

    fn serialize(value: &FoodImpl, out: &mut Vec<u8>, ctx: &Context) -> (r: Result<(), WritingError>) {
        proof {
            reveal_with_fuel(write_val, 3);
        }
        AsVarInt::serialize(&value.nutrition, out, ctx)?;
        AsF32::serialize(&value.saturation, out, ctx)?;
        AsBool::serialize(&value.can_always_eat, out, ctx)
    }

    fn equal(a: &FoodImpl, b: &FoodImpl) -> (r: bool) {
        proof {
            reveal_with_fuel(val_same, 3);
        }
        AsVarInt::equal(&a.nutrition, &b.nutrition) && AsF32::equal(&a.saturation, &b.saturation) && AsBool::equal(&a.can_always_eat, &b.can_always_eat)
    }
}

/// How long an item cannot be used again.
#[derive(Debug, PartialEq)]
pub struct UseCooldownImpl {
    /// The seconds, as the bit pattern of a 32-bit floating-point number.
    pub seconds: u32,
    pub cooldown_group: Option<String>,
}

impl DataComponentCodec for UseCooldownImpl {
    type Value = UseCooldownImpl;

    open spec fn format() -> Format {
        Format::Pair(Box::new(AsF32::format()), Box::new(<Opt<AsText> as DataComponentCodec>::format()))
    }

    open spec fn val(v: UseCooldownImpl) -> Val {
        pair(AsF32::val(v.seconds), <Opt<AsText> as DataComponentCodec>::val(v.cooldown_group))
    }

    fn deserialize(seq: &mut &[u8], ctx: &Context) -> (r: Result<UseCooldownImpl, ReadingError>) {
        proof {
            reveal_with_fuel(read_val, 2);
        }
        let seconds = AsF32::deserialize(seq, ctx)?;
        let cooldown_group = <Opt<AsText> as DataComponentCodec>::deserialize(seq, ctx)?;
        Ok(UseCooldownImpl { seconds, cooldown_group })
    }

    fn serialize(value: &UseCooldownImpl, out: &mut Vec<u8>, ctx: &Context) -> (r: Result<(), WritingError>) {
        proof {
            reveal_with_fuel(write_val, 2);
        }
        AsF32::serialize(&value.seconds, out, ctx)?;
        <Opt<AsText> as DataComponentCodec>::serialize(&value.cooldown_group, out, ctx)
    }

    fn equal(a: &UseCooldownImpl, b: &UseCooldownImpl) -> (r: bool) {
        proof {
            reveal_with_fuel(val_same, 2);
        }
        AsF32::equal(&a.seconds, &b.seconds) && <Opt<AsText> as DataComponentCodec>::equal(&a.cooldown_group, &b.cooldown_group)
    }
}

/// The damage that an item resists, as a tag.
#[derive(Debug, PartialEq)]
pub struct DamageResistantImpl {
    pub res_type: String,
}

impl DataComponentCodec for DamageResistantImpl {
    type Value = DamageResistantImpl;

    open spec fn format() -> Format {
        AsText::format()
    }

    open spec fn val(v: DamageResistantImpl) -> Val {
        AsText::val(v.res_type)
    }

    fn deserialize(seq: &mut &[u8], ctx: &Context) -> (r: Result<DamageResistantImpl, ReadingError>) {
        let res_type = AsText::deserialize(seq, ctx)?;
        Ok(DamageResistantImpl { res_type })
    }

    fn serialize(value: &DamageResistantImpl, out: &mut Vec<u8>, ctx: &Context) -> (r: Result<(), WritingError>) {
        AsText::serialize(&value.res_type, out, ctx)
    }

    fn equal(a: &DamageResistantImpl, b: &DamageResistantImpl) -> (r: bool) {
        AsText::equal(&a.res_type, &b.res_type)
    }
}

/// The registry of blocks.
pub struct OfBlock;

impl OfKind for OfBlock {
    open spec fn spec_kind() -> RegistryKind {
        RegistryKind::Block
    }

    fn kind() -> (r: RegistryKind) {
        RegistryKind::Block
    }
}

/// The registry of entity types.
pub struct OfEntityType;

impl OfKind for OfEntityType {
    open spec fn spec_kind() -> RegistryKind {
        RegistryKind::EntityType
    }

    fn kind() -> (r: RegistryKind) {
        RegistryKind::EntityType
    }
}

/// The registry of items.
pub struct OfItem;

impl OfKind for OfItem {
    open spec fn spec_kind() -> RegistryKind {
        RegistryKind::Item
    }

    fn kind() -> (r: RegistryKind) {
        RegistryKind::Item
    }
}

/// The registry of status effects.
pub struct OfEffect;

impl OfKind for OfEffect {
    open spec fn spec_kind() -> RegistryKind {
        RegistryKind::Effect
    }

    fn kind() -> (r: RegistryKind) {
        RegistryKind::Effect
    }
}

/// How a tool treats some blocks.
#[derive(Debug, PartialEq)]
pub struct ToolRule {
    pub blocks: IDSet,
    /// The mining speed, as the bit pattern of a 32-bit floating-point number.
    pub speed: Option<u32>,
    pub correct_for_drops: Option<bool>,
}

impl DataComponentCodec for ToolRule {
    type Value = ToolRule;

    open spec fn format() -> Format {
        Format::Pair(Box::new(<SetOf<OfBlock> as DataComponentCodec>::format()), Box::new(Format::Pair(Box::new(<Opt<AsF32> as DataComponentCodec>::format()), Box::new(<Opt<AsBool> as DataComponentCodec>::format()))))
    }

    open spec fn val(v: ToolRule) -> Val {
        pair(<SetOf<OfBlock> as DataComponentCodec>::val(v.blocks), pair(<Opt<AsF32> as DataComponentCodec>::val(v.speed), <Opt<AsBool> as DataComponentCodec>::val(v.correct_for_drops)))
    }

    fn deserialize(seq: &mut &[u8], ctx: &Context) -> (r: Result<ToolRule, ReadingError>) {
        proof {
            reveal_with_fuel(read_val, 3);
        }
        let blocks = <SetOf<OfBlock> as DataComponentCodec>::deserialize(seq, ctx)?;
        let speed = <Opt<AsF32> as DataComponentCodec>::deserialize(seq, ctx)?;
        let correct_for_drops = <Opt<AsBool> as DataComponentCodec>::deserialize(seq, ctx)?;
        Ok(ToolRule { blocks, speed, correct_for_drops })
    }

    fn serialize(value: &ToolRule, out: &mut Vec<u8>, ctx: &Context) -> (r: Result<(), WritingError>) {
        proof {
            reveal_with_fuel(write_val, 3);
        }
        <SetOf<OfBlock> as DataComponentCodec>::serialize(&value.blocks, out, ctx)?;
        <Opt<AsF32> as DataComponentCodec>::serialize(&value.speed, out, ctx)?;
        <Opt<AsBool> as DataComponentCodec>::serialize(&value.correct_for_drops, out, ctx)
    }

    fn equal(a: &ToolRule, b: &ToolRule) -> (r: bool) {
        proof {
            reveal_with_fuel(val_same, 3);
        }
        <SetOf<OfBlock> as DataComponentCodec>::equal(&a.blocks, &b.blocks) && <Opt<AsF32> as DataComponentCodec>::equal(&a.speed, &b.speed) && <Opt<AsBool> as DataComponentCodec>::equal(&a.correct_for_drops, &b.correct_for_drops)
    }
}

/// How an item mines.
#[derive(Debug, PartialEq)]
pub struct ToolImpl {
    pub rules: Vec<ToolRule>,
    /// The mining speed where no rule applies, as the bit pattern of a 32-bit floating-point number.
    pub default_mining_speed: u32,
    pub damage_per_block: u32,
    pub can_destroy_blocks_in_creative: bool,
}

impl DataComponentCodec for ToolImpl {
    type Value = ToolImpl;

    open spec fn format() -> Format {
        Format::Pair(Box::new(<ListOf<RawCount, ToolRule> as DataComponentCodec>::format()), Box::new(Format::Pair(Box::new(AsF32::format()), Box::new(Format::Pair(Box::new(AsVarU32::format()), Box::new(AsBool::format()))))))
    }

    open spec fn val(v: ToolImpl) -> Val {
        pair(<ListOf<RawCount, ToolRule> as DataComponentCodec>::val(v.rules), pair(AsF32::val(v.default_mining_speed), pair(AsVarU32::val(v.damage_per_block), AsBool::val(v.can_destroy_blocks_in_creative))))
    }

    fn deserialize(seq: &mut &[u8], ctx: &Context) -> (r: Result<ToolImpl, ReadingError>) {
        proof {
            reveal_with_fuel(read_val, 4);
        }
        let rules = <ListOf<RawCount, ToolRule> as DataComponentCodec>::deserialize(seq, ctx)?;
        let default_mining_speed = AsF32::deserialize(seq, ctx)?;
        let damage_per_block = AsVarU32::deserialize(seq, ctx)?;
        let can_destroy_blocks_in_creative = AsBool::deserialize(seq, ctx)?;
        Ok(ToolImpl { rules, default_mining_speed, damage_per_block, can_destroy_blocks_in_creative })
    }

    fn serialize(value: &ToolImpl, out: &mut Vec<u8>, ctx: &Context) -> (r: Result<(), WritingError>) {
        proof {
            reveal_with_fuel(write_val, 4);
        }
        <ListOf<RawCount, ToolRule> as DataComponentCodec>::serialize(&value.rules, out, ctx)?;
        AsF32::serialize(&value.default_mining_speed, out, ctx)?;
        AsVarU32::serialize(&value.damage_per_block, out, ctx)?;
        AsBool::serialize(&value.can_destroy_blocks_in_creative, out, ctx)
    }

    fn equal(a: &ToolImpl, b: &ToolImpl) -> (r: bool) {
        proof {
            reveal_with_fuel(val_same, 4);
        }
        <ListOf<RawCount, ToolRule> as DataComponentCodec>::equal(&a.rules, &b.rules) && AsF32::equal(&a.default_mining_speed, &b.default_mining_speed) && AsVarU32::equal(&a.damage_per_block, &b.damage_per_block) && AsBool::equal(&a.can_destroy_blocks_in_creative, &b.can_destroy_blocks_in_creative)
    }
}

/// The seconds for which a weapon keeps its target from blocking, which are read over.
pub struct SkippedSeconds;

impl DataComponentCodec for SkippedSeconds {
    type Value = ();

    open spec fn format() -> Format {
        Format::Fixed(Box::new(AsF32::format()), Box::new(Val::Float(4, 0)), Box::new(Val::Unit))
    }

    open spec fn val(v: ()) -> Val {
        Val::Unit
    }

    fn deserialize(seq: &mut &[u8], ctx: &Context) -> (r: Result<(), ReadingError>) {
        proof {
            reveal(read_val);
        }
        AsF32::deserialize(seq, ctx)?;
        Ok(())
    }

    fn serialize(value: &(), out: &mut Vec<u8>, ctx: &Context) -> (r: Result<(), WritingError>) {
        proof {
            reveal(write_val);
        }
        AsF32::serialize(&0, out, ctx)
    }

    fn equal(a: &(), b: &()) -> (r: bool) {
        true
    }
}

/// How much damage an item takes when it hits.
#[derive(Debug, PartialEq)]
pub struct WeaponImpl {
    pub item_damage_per_attack: u32,
}

impl DataComponentCodec for WeaponImpl {
    type Value = WeaponImpl;

    open spec fn format() -> Format {
        Format::Pair(Box::new(AsVarU32::format()), Box::new(SkippedSeconds::format()))
    }

    open spec fn val(v: WeaponImpl) -> Val {
        pair(AsVarU32::val(v.item_damage_per_attack), Val::Unit)
    }

    fn deserialize(seq: &mut &[u8], ctx: &Context) -> (r: Result<WeaponImpl, ReadingError>) {
        proof {
            reveal(read_val);
        }
        let item_damage_per_attack: u32 = AsVarU32::deserialize(seq, ctx)?;
        SkippedSeconds::deserialize(seq, ctx)?;
        Ok(WeaponImpl { item_damage_per_attack })
    }

    fn serialize(value: &WeaponImpl, out: &mut Vec<u8>, ctx: &Context) -> (r: Result<(), WritingError>) {
        proof {
            reveal(write_val);
        }
        AsVarU32::serialize(&value.item_damage_per_attack, out, ctx)?;
        SkippedSeconds::serialize(&(), out, ctx)
    }

    fn equal(a: &WeaponImpl, b: &WeaponImpl) -> (r: bool) {
        proof {
            reveal_with_fuel(val_same, 2);
        }
        a.item_damage_per_attack == b.item_damage_per_attack
    }
}

/// How far an item reaches; every field is the bit pattern of a 32-bit floating-point number.
#[derive(Debug, PartialEq)]
pub struct AttackRangeImpl {
    pub min_reach: u32,
    pub max_reach: u32,
    pub min_creative_reach: u32,
    pub max_creative_reach: u32,
    pub hitbox_margin: u32,
    pub mob_factor: u32,
}

impl DataComponentCodec for AttackRangeImpl {
    type Value = AttackRangeImpl;

    open spec fn format() -> Format {
        Format::Pair(Box::new(AsF32::format()), Box::new(Format::Pair(Box::new(AsF32::format()), Box::new(Format::Pair(Box::new(AsF32::format()), Box::new(Format::Pair(Box::new(AsF32::format()), Box::new(Format::Pair(Box::new(AsF32::format()), Box::new(AsF32::format()))))))))))
    }

    open spec fn val(v: AttackRangeImpl) -> Val {
        pair(AsF32::val(v.min_reach), pair(AsF32::val(v.max_reach), pair(AsF32::val(v.min_creative_reach), pair(AsF32::val(v.max_creative_reach), pair(AsF32::val(v.hitbox_margin), AsF32::val(v.mob_factor))))))
    }

    fn deserialize(seq: &mut &[u8], ctx: &Context) -> (r: Result<AttackRangeImpl, ReadingError>) {
        proof {
            reveal_with_fuel(read_val, 6);
        }
        let min_reach = AsF32::deserialize(seq, ctx)?;
        let max_reach = AsF32::deserialize(seq, ctx)?;
        let min_creative_reach = AsF32::deserialize(seq, ctx)?;
        let max_creative_reach = AsF32::deserialize(seq, ctx)?;
        let hitbox_margin = AsF32::deserialize(seq, ctx)?;
        let mob_factor = AsF32::deserialize(seq, ctx)?;
        Ok(AttackRangeImpl { min_reach, max_reach, min_creative_reach, max_creative_reach, hitbox_margin, mob_factor })
    }

    fn serialize(value: &AttackRangeImpl, out: &mut Vec<u8>, ctx: &Context) -> (r: Result<(), WritingError>) {
        proof {
            reveal_with_fuel(write_val, 6);
        }
        AsF32::serialize(&value.min_reach, out, ctx)?;
        AsF32::serialize(&value.max_reach, out, ctx)?;
        AsF32::serialize(&value.min_creative_reach, out, ctx)?;
        AsF32::serialize(&value.max_creative_reach, out, ctx)?;
        AsF32::serialize(&value.hitbox_margin, out, ctx)?;
        AsF32::serialize(&value.mob_factor, out, ctx)
    }

    fn equal(a: &AttackRangeImpl, b: &AttackRangeImpl) -> (r: bool) {
        proof {
            reveal_with_fuel(val_same, 6);
        }
        AsF32::equal(&a.min_reach, &b.min_reach) && AsF32::equal(&a.max_reach, &b.max_reach) && AsF32::equal(&a.min_creative_reach, &b.min_creative_reach) && AsF32::equal(&a.max_creative_reach, &b.max_creative_reach) && AsF32::equal(&a.hitbox_margin, &b.hitbox_margin) && AsF32::equal(&a.mob_factor, &b.mob_factor)
    }
}

/// How well an item takes enchantments.
#[derive(Debug, PartialEq)]
pub struct EnchantableImpl {
    pub value: i32,
}

impl DataComponentCodec for EnchantableImpl {
    type Value = EnchantableImpl;

    open spec fn format() -> Format {
        AsVarInt::format()
    }

    open spec fn val(v: EnchantableImpl) -> Val {
        AsVarInt::val(v.value)
    }

    fn deserialize(seq: &mut &[u8], ctx: &Context) -> (r: Result<EnchantableImpl, ReadingError>) {
        let value = AsVarInt::deserialize(seq, ctx)?;
        Ok(EnchantableImpl { value })
    }

    fn serialize(value: &EnchantableImpl, out: &mut Vec<u8>, ctx: &Context) -> (r: Result<(), WritingError>) {
        AsVarInt::serialize(&value.value, out, ctx)
    }

    fn equal(a: &EnchantableImpl, b: &EnchantableImpl) -> (r: bool) {
        AsVarInt::equal(&a.value, &b.value)
    }
}

/// A slot for equipment.
#[derive(Clone, Copy, Debug, PartialEq, Eq, Structural)]
pub enum EquipmentSlot {
    MainHand,
    Feet,
    Legs,
    Chest,
    Head,
    OffHand,
    Body,
    Saddle,
}

/// The number of a value.
pub open spec fn equipment_slot_id(v: EquipmentSlot) -> int {
    match v {
        EquipmentSlot::MainHand => 0,
        EquipmentSlot::Feet => 1,
        EquipmentSlot::Legs => 2,
        EquipmentSlot::Chest => 3,
        EquipmentSlot::Head => 4,
        EquipmentSlot::OffHand => 5,
        EquipmentSlot::Body => 6,
        EquipmentSlot::Saddle => 7,
    }
}

impl EquipmentSlot {
    /// The value with a number.
    pub fn from_id(id: i32) -> (r: Option<Self>)
        ensures
            match r {
                Some(v) => equipment_slot_id(v) == id,
                None => !(0 <= id < 8),
            },
    {
        match id {
            0 => Some(EquipmentSlot::MainHand),
            1 => Some(EquipmentSlot::Feet),
            2 => Some(EquipmentSlot::Legs),
            3 => Some(EquipmentSlot::Chest),
            4 => Some(EquipmentSlot::Head),
            5 => Some(EquipmentSlot::OffHand),
            6 => Some(EquipmentSlot::Body),
            7 => Some(EquipmentSlot::Saddle),
            _ => None,
        }
    }

    /// The number of the value.
    pub fn to_id(self) -> (r: i32)
        ensures
            r == equipment_slot_id(self),
    {
        match self {
            EquipmentSlot::MainHand => 0,
            EquipmentSlot::Feet => 1,
            EquipmentSlot::Legs => 2,
            EquipmentSlot::Chest => 3,
            EquipmentSlot::Head => 4,
            EquipmentSlot::OffHand => 5,
            EquipmentSlot::Body => 6,
            EquipmentSlot::Saddle => 7,
        }
    }
}

/// A value by its number.
pub struct AsEquipmentSlot;

impl Numbered for AsEquipmentSlot {
    type Value = EquipmentSlot;

    open spec fn check() -> Check {
        Check::UpTo { max: 7, out: Blame { text: "Invalid equipment slot index {}", number: true } }
    }

    open spec fn val(v: EquipmentSlot) -> Val {
        Val::Int(equipment_slot_id(v))
    }

    fn decode(regs: &Registries, v: i32) -> (r: Result<EquipmentSlot, ReadingError>) {
        match EquipmentSlot::from_id(v) {
            Some(x) => Ok(x),
            None => Err(message_value("Invalid equipment slot index {}", v as i128)),
        }
    }

    fn encode(regs: &Registries, value: &EquipmentSlot) -> (r: Result<i32, WritingError>) {
        Ok(value.to_id())
    }

    fn alike(a: &EquipmentSlot, b: &EquipmentSlot) -> (r: bool) {
        a.to_id() == b.to_id()
    }
}

/// An unknown sound of putting an item on.
pub struct InvalidEquipSound;

impl Wording for InvalidEquipSound {
    open spec fn spec_text() -> &'static str {
        "Invalid sound in EquippableImpl"
    }

    fn text() -> (r: &'static str) {
        "Invalid sound in EquippableImpl"
    }
}

/// An unknown sound of shearing an item off.
pub struct InvalidShearingSound;

impl Wording for InvalidShearingSound {
    open spec fn spec_text() -> &'static str {
        "Invalid shearing sound in EquippableImpl"
    }

    fn text() -> (r: &'static str) {
        "Invalid shearing sound in EquippableImpl"
    }
}

/// How an item is worn.
#[derive(Debug, PartialEq)]
pub struct EquippableImpl {
    pub slot: EquipmentSlot,
    pub equip_sound: IdOr<SoundEvent>,
    pub asset_id: Option<String>,
    pub camera_overlay: Option<String>,
    pub allowed_entities: Option<IDSet>,
    pub dispensable: bool,
    pub swappable: bool,
    pub damage_on_hurt: bool,
    pub equip_on_interact: bool,
    pub can_be_sheared: bool,
    pub shearing_sound: IdOr<SoundEvent>,
}

impl DataComponentCodec for EquippableImpl {
    type Value = EquippableImpl;

    open spec fn format() -> Format {
        Format::Pair(Box::new(<Coded<AsEquipmentSlot> as DataComponentCodec>::format()), Box::new(Format::Pair(Box::new(<KnownSound<InvalidEquipSound> as DataComponentCodec>::format()), Box::new(Format::Pair(Box::new(<Opt<AsText> as DataComponentCodec>::format()), Box::new(Format::Pair(Box::new(<Opt<AsText> as DataComponentCodec>::format()), Box::new(Format::Pair(Box::new(<Opt<SetOf<OfEntityType>> as DataComponentCodec>::format()), Box::new(Format::Pair(Box::new(AsBool::format()), Box::new(Format::Pair(Box::new(AsBool::format()), Box::new(Format::Pair(Box::new(AsBool::format()), Box::new(Format::Pair(Box::new(AsBool::format()), Box::new(Format::Pair(Box::new(AsBool::format()), Box::new(<KnownSound<InvalidShearingSound> as DataComponentCodec>::format()))))))))))))))))))))
    }

    open spec fn val(v: EquippableImpl) -> Val {
        pair(<Coded<AsEquipmentSlot> as DataComponentCodec>::val(v.slot), pair(<KnownSound<InvalidEquipSound> as DataComponentCodec>::val(v.equip_sound), pair(<Opt<AsText> as DataComponentCodec>::val(v.asset_id), pair(<Opt<AsText> as DataComponentCodec>::val(v.camera_overlay), pair(<Opt<SetOf<OfEntityType>> as DataComponentCodec>::val(v.allowed_entities), pair(AsBool::val(v.dispensable), pair(AsBool::val(v.swappable), pair(AsBool::val(v.damage_on_hurt), pair(AsBool::val(v.equip_on_interact), pair(AsBool::val(v.can_be_sheared), <KnownSound<InvalidShearingSound> as DataComponentCodec>::val(v.shearing_sound)))))))))))
    }

    fn deserialize(seq: &mut &[u8], ctx: &Context) -> (r: Result<EquippableImpl, ReadingError>) {
        proof {
            reveal_with_fuel(read_val, 11);
        }
        let slot = <Coded<AsEquipmentSlot> as DataComponentCodec>::deserialize(seq, ctx)?;
        let equip_sound = <KnownSound<InvalidEquipSound> as DataComponentCodec>::deserialize(seq, ctx)?;
        let asset_id = <Opt<AsText> as DataComponentCodec>::deserialize(seq, ctx)?;
        let camera_overlay = <Opt<AsText> as DataComponentCodec>::deserialize(seq, ctx)?;
        let allowed_entities = <Opt<SetOf<OfEntityType>> as DataComponentCodec>::deserialize(seq, ctx)?;
        let dispensable = AsBool::deserialize(seq, ctx)?;
        let swappable = AsBool::deserialize(seq, ctx)?;
        let damage_on_hurt = AsBool::deserialize(seq, ctx)?;
        let equip_on_interact = AsBool::deserialize(seq, ctx)?;
        let can_be_sheared = AsBool::deserialize(seq, ctx)?;
        let shearing_sound = <KnownSound<InvalidShearingSound> as DataComponentCodec>::deserialize(seq, ctx)?;
        Ok(EquippableImpl { slot, equip_sound, asset_id, camera_overlay, allowed_entities, dispensable, swappable, damage_on_hurt, equip_on_interact, can_be_sheared, shearing_sound })
    }

    fn serialize(value: &EquippableImpl, out: &mut Vec<u8>, ctx: &Context) -> (r: Result<(), WritingError>) {
        proof {
            reveal_with_fuel(write_val, 11);
        }
        <Coded<AsEquipmentSlot> as DataComponentCodec>::serialize(&value.slot, out, ctx)?;
        <KnownSound<InvalidEquipSound> as DataComponentCodec>::serialize(&value.equip_sound, out, ctx)?;
        <Opt<AsText> as DataComponentCodec>::serialize(&value.asset_id, out, ctx)?;
        <Opt<AsText> as DataComponentCodec>::serialize(&value.camera_overlay, out, ctx)?;
        <Opt<SetOf<OfEntityType>> as DataComponentCodec>::serialize(&value.allowed_entities, out, ctx)?;
        AsBool::serialize(&value.dispensable, out, ctx)?;
        AsBool::serialize(&value.swappable, out, ctx)?;
        AsBool::serialize(&value.damage_on_hurt, out, ctx)?;
        AsBool::serialize(&value.equip_on_interact, out, ctx)?;
        AsBool::serialize(&value.can_be_sheared, out, ctx)?;
        <KnownSound<InvalidShearingSound> as DataComponentCodec>::serialize(&value.shearing_sound, out, ctx)
    }

    #[verifier::rlimit(60)]
    fn equal(a: &EquippableImpl, b: &EquippableImpl) -> (r: bool) {
        proof {
            reveal_with_fuel(val_same, 11);
        }
        <Coded<AsEquipmentSlot> as DataComponentCodec>::equal(&a.slot, &b.slot) && <KnownSound<InvalidEquipSound> as DataComponentCodec>::equal(&a.equip_sound, &b.equip_sound) && <Opt<AsText> as DataComponentCodec>::equal(&a.asset_id, &b.asset_id) && <Opt<AsText> as DataComponentCodec>::equal(&a.camera_overlay, &b.camera_overlay) && <Opt<SetOf<OfEntityType>> as DataComponentCodec>::equal(&a.allowed_entities, &b.allowed_entities) && AsBool::equal(&a.dispensable, &b.dispensable) && AsBool::equal(&a.swappable, &b.swappable) && AsBool::equal(&a.damage_on_hurt, &b.damage_on_hurt) && AsBool::equal(&a.equip_on_interact, &b.equip_on_interact) && AsBool::equal(&a.can_be_sheared, &b.can_be_sheared) && <KnownSound<InvalidShearingSound> as DataComponentCodec>::equal(&a.shearing_sound, &b.shearing_sound)
    }
}

/// The items that an item can be repaired with.
#[derive(Debug, PartialEq)]
pub struct RepairableImpl {
    pub items: IDSet,
}

impl DataComponentCodec for RepairableImpl {
    type Value = RepairableImpl;

    open spec fn format() -> Format {
        <SetOf<OfItem> as DataComponentCodec>::format()
    }

    open spec fn val(v: RepairableImpl) -> Val {
        <SetOf<OfItem> as DataComponentCodec>::val(v.items)
    }

    fn deserialize(seq: &mut &[u8], ctx: &Context) -> (r: Result<RepairableImpl, ReadingError>) {
        let items = <SetOf<OfItem> as DataComponentCodec>::deserialize(seq, ctx)?;
        Ok(RepairableImpl { items })
    }

    fn serialize(value: &RepairableImpl, out: &mut Vec<u8>, ctx: &Context) -> (r: Result<(), WritingError>) {
        <SetOf<OfItem> as DataComponentCodec>::serialize(&value.items, out, ctx)
    }

    fn equal(a: &RepairableImpl, b: &RepairableImpl) -> (r: bool) {
        <SetOf<OfItem> as DataComponentCodec>::equal(&a.items, &b.items)
    }
}

/// Marks an item that its holder can glide with.
#[derive(Clone, Copy, Debug, PartialEq, Eq)]
pub struct GliderImpl;

impl DataComponentCodec for GliderImpl {
    type Value = GliderImpl;

    open spec fn format() -> Format {
        Format::Unit
    }

    open spec fn val(v: GliderImpl) -> Val {
        Val::Unit
    }

    fn deserialize(seq: &mut &[u8], ctx: &Context) -> (r: Result<GliderImpl, ReadingError>) {
        proof {
            reveal(read_val);
        }
        Ok(GliderImpl)
    }

    fn serialize(value: &GliderImpl, out: &mut Vec<u8>, ctx: &Context) -> (r: Result<(), WritingError>) {
        proof {
            reveal(write_val);
        }
        Ok(())
    }

    fn equal(a: &GliderImpl, b: &GliderImpl) -> (r: bool) {
        true
    }
}

/// A sound that cannot be read.
pub struct NoSound;

impl Wording for NoSound {
    open spec fn spec_text() -> &'static str {
        "No sound"
    }

    fn text() -> (r: &'static str) {
        "No sound"
    }
}

/// How a piercing weapon hits.
#[derive(Debug, PartialEq)]
pub struct PiercingWeaponImpl {
    pub deals_knockback: bool,
    pub dismounts: bool,
    pub sound: Option<IdOr<SoundEvent>>,
    pub hit_sound: Option<IdOr<SoundEvent>>,
}

impl DataComponentCodec for PiercingWeaponImpl {
    type Value = PiercingWeaponImpl;

    open spec fn format() -> Format {
        Format::Pair(Box::new(AsBool::format()), Box::new(Format::Pair(Box::new(AsBool::format()), Box::new(Format::Pair(Box::new(<OptionalSound<NoSound> as DataComponentCodec>::format()), Box::new(<OptionalSound<NoSound> as DataComponentCodec>::format()))))))
    }

    open spec fn val(v: PiercingWeaponImpl) -> Val {
        pair(AsBool::val(v.deals_knockback), pair(AsBool::val(v.dismounts), pair(<OptionalSound<NoSound> as DataComponentCodec>::val(v.sound), <OptionalSound<NoSound> as DataComponentCodec>::val(v.hit_sound))))
    }

    fn deserialize(seq: &mut &[u8], ctx: &Context) -> (r: Result<PiercingWeaponImpl, ReadingError>) {
        proof {
            reveal_with_fuel(read_val, 4);
        }
        let deals_knockback = AsBool::deserialize(seq, ctx)?;
        let dismounts = AsBool::deserialize(seq, ctx)?;
        let sound = <OptionalSound<NoSound> as DataComponentCodec>::deserialize(seq, ctx)?;
        let hit_sound = <OptionalSound<NoSound> as DataComponentCodec>::deserialize(seq, ctx)?;
        Ok(PiercingWeaponImpl { deals_knockback, dismounts, sound, hit_sound })
    }

    fn serialize(value: &PiercingWeaponImpl, out: &mut Vec<u8>, ctx: &Context) -> (r: Result<(), WritingError>) {
        proof {
            reveal_with_fuel(write_val, 4);
        }
        AsBool::serialize(&value.deals_knockback, out, ctx)?;
        AsBool::serialize(&value.dismounts, out, ctx)?;
        <OptionalSound<NoSound> as DataComponentCodec>::serialize(&value.sound, out, ctx)?;
        <OptionalSound<NoSound> as DataComponentCodec>::serialize(&value.hit_sound, out, ctx)
    }

    fn equal(a: &PiercingWeaponImpl, b: &PiercingWeaponImpl) -> (r: bool) {
        proof {
            reveal_with_fuel(val_same, 4);
        }
        AsBool::equal(&a.deals_knockback, &b.deals_knockback) && AsBool::equal(&a.dismounts, &b.dismounts) && <OptionalSound<NoSound> as DataComponentCodec>::equal(&a.sound, &b.sound) && <OptionalSound<NoSound> as DataComponentCodec>::equal(&a.hit_sound, &b.hit_sound)
    }
}

/// When a kinetic weapon takes effect.
#[derive(Debug, PartialEq)]
pub struct KineticConditionImpl {
    pub max_duration_ticks: i32,
    /// The speed, as the bit pattern of a 32-bit floating-point number.
    pub min_speed: u32,
    /// The speed relative to the target, as the bit pattern of a 32-bit floating-point number.
    pub min_relative_speed: u32,
}

impl DataComponentCodec for KineticConditionImpl {
    type Value = KineticConditionImpl;

    open spec fn format() -> Format {
        Format::Pair(Box::new(AsVarInt::format()), Box::new(Format::Pair(Box::new(AsF32::format()), Box::new(AsF32::format()))))
    }

    open spec fn val(v: KineticConditionImpl) -> Val {
        pair(AsVarInt::val(v.max_duration_ticks), pair(AsF32::val(v.min_speed), AsF32::val(v.min_relative_speed)))
    }

    fn deserialize(seq: &mut &[u8], ctx: &Context) -> (r: Result<KineticConditionImpl, ReadingError>) {
        proof {
            reveal_with_fuel(read_val, 3);
        }
        let max_duration_ticks = AsVarInt::deserialize(seq, ctx)?;
        let min_speed = AsF32::deserialize(seq, ctx)?;
        let min_relative_speed = AsF32::deserialize(seq, ctx)?;
        Ok(KineticConditionImpl { max_duration_ticks, min_speed, min_relative_speed })
    }

    fn serialize(value: &KineticConditionImpl, out: &mut Vec<u8>, ctx: &Context) -> (r: Result<(), WritingError>) {
        proof {
            reveal_with_fuel(write_val, 3);
        }
        AsVarInt::serialize(&value.max_duration_ticks, out, ctx)?;
        AsF32::serialize(&value.min_speed, out, ctx)?;
        AsF32::serialize(&value.min_relative_speed, out, ctx)
    }

    fn equal(a: &KineticConditionImpl, b: &KineticConditionImpl) -> (r: bool) {
        proof {
            reveal_with_fuel(val_same, 3);
        }
        AsVarInt::equal(&a.max_duration_ticks, &b.max_duration_ticks) && AsF32::equal(&a.min_speed, &b.min_speed) && AsF32::equal(&a.min_relative_speed, &b.min_relative_speed)
    }
}

/// How a kinetic weapon hits.
#[derive(Debug, PartialEq)]
pub struct KineticWeaponImpl {
    pub contact_cooldown_ticks: i32,
    pub delay_ticks: i32,
    pub dismount_conditions: Option<KineticConditionImpl>,
    pub knockback_conditions: Option<KineticConditionImpl>,
    pub damage_conditions: Option<KineticConditionImpl>,
    /// The movement, as the bit pattern of a 32-bit floating-point number.
    pub forward_movement: u32,
    /// The factor, as the bit pattern of a 32-bit floating-point number.
    pub damage_multiplier: u32,
    pub sound: Option<IdOr<SoundEvent>>,
    pub hit_sound: Option<IdOr<SoundEvent>>,
}

impl DataComponentCodec for KineticWeaponImpl {
    type Value = KineticWeaponImpl;

    open spec fn format() -> Format {
        Format::Pair(Box::new(AsVarInt::format()), Box::new(Format::Pair(Box::new(AsVarInt::format()), Box::new(Format::Pair(Box::new(<Opt<KineticConditionImpl> as DataComponentCodec>::format()), Box::new(Format::Pair(Box::new(<Opt<KineticConditionImpl> as DataComponentCodec>::format()), Box::new(Format::Pair(Box::new(<Opt<KineticConditionImpl> as DataComponentCodec>::format()), Box::new(Format::Pair(Box::new(AsF32::format()), Box::new(Format::Pair(Box::new(AsF32::format()), Box::new(Format::Pair(Box::new(<OptionalSound<NoSound> as DataComponentCodec>::format()), Box::new(<OptionalSound<NoSound> as DataComponentCodec>::format()))))))))))))))))
    }

    open spec fn val(v: KineticWeaponImpl) -> Val {
        pair(AsVarInt::val(v.contact_cooldown_ticks), pair(AsVarInt::val(v.delay_ticks), pair(<Opt<KineticConditionImpl> as DataComponentCodec>::val(v.dismount_conditions), pair(<Opt<KineticConditionImpl> as DataComponentCodec>::val(v.knockback_conditions), pair(<Opt<KineticConditionImpl> as DataComponentCodec>::val(v.damage_conditions), pair(AsF32::val(v.forward_movement), pair(AsF32::val(v.damage_multiplier), pair(<OptionalSound<NoSound> as DataComponentCodec>::val(v.sound), <OptionalSound<NoSound> as DataComponentCodec>::val(v.hit_sound)))))))))
    }

    fn deserialize(seq: &mut &[u8], ctx: &Context) -> (r: Result<KineticWeaponImpl, ReadingError>) {
        proof {
            reveal_with_fuel(read_val, 9);
        }
        let contact_cooldown_ticks = AsVarInt::deserialize(seq, ctx)?;
        let delay_ticks = AsVarInt::deserialize(seq, ctx)?;
        let dismount_conditions = <Opt<KineticConditionImpl> as DataComponentCodec>::deserialize(seq, ctx)?;
        let knockback_conditions = <Opt<KineticConditionImpl> as DataComponentCodec>::deserialize(seq, ctx)?;
        let damage_conditions = <Opt<KineticConditionImpl> as DataComponentCodec>::deserialize(seq, ctx)?;
        let forward_movement = AsF32::deserialize(seq, ctx)?;
        let damage_multiplier = AsF32::deserialize(seq, ctx)?;
        let sound = <OptionalSound<NoSound> as DataComponentCodec>::deserialize(seq, ctx)?;
        let hit_sound = <OptionalSound<NoSound> as DataComponentCodec>::deserialize(seq, ctx)?;
        Ok(KineticWeaponImpl { contact_cooldown_ticks, delay_ticks, dismount_conditions, knockback_conditions, damage_conditions, forward_movement, damage_multiplier, sound, hit_sound })
    }

    fn serialize(value: &KineticWeaponImpl, out: &mut Vec<u8>, ctx: &Context) -> (r: Result<(), WritingError>) {
        proof {
            reveal_with_fuel(write_val, 9);
        }
        AsVarInt::serialize(&value.contact_cooldown_ticks, out, ctx)?;
        AsVarInt::serialize(&value.delay_ticks, out, ctx)?;
        <Opt<KineticConditionImpl> as DataComponentCodec>::serialize(&value.dismount_conditions, out, ctx)?;
        <Opt<KineticConditionImpl> as DataComponentCodec>::serialize(&value.knockback_conditions, out, ctx)?;
        <Opt<KineticConditionImpl> as DataComponentCodec>::serialize(&value.damage_conditions, out, ctx)?;
        AsF32::serialize(&value.forward_movement, out, ctx)?;
        AsF32::serialize(&value.damage_multiplier, out, ctx)?;
        <OptionalSound<NoSound> as DataComponentCodec>::serialize(&value.sound, out, ctx)?;
        <OptionalSound<NoSound> as DataComponentCodec>::serialize(&value.hit_sound, out, ctx)
    }

    fn equal(a: &KineticWeaponImpl, b: &KineticWeaponImpl) -> (r: bool) {
        proof {
            reveal_with_fuel(val_same, 9);
        }
        AsVarInt::equal(&a.contact_cooldown_ticks, &b.contact_cooldown_ticks) && AsVarInt::equal(&a.delay_ticks, &b.delay_ticks) && <Opt<KineticConditionImpl> as DataComponentCodec>::equal(&a.dismount_conditions, &b.dismount_conditions) && <Opt<KineticConditionImpl> as DataComponentCodec>::equal(&a.knockback_conditions, &b.knockback_conditions) && <Opt<KineticConditionImpl> as DataComponentCodec>::equal(&a.damage_conditions, &b.damage_conditions) && AsF32::equal(&a.forward_movement, &b.forward_movement) && AsF32::equal(&a.damage_multiplier, &b.damage_multiplier) && <OptionalSound<NoSound> as DataComponentCodec>::equal(&a.sound, &b.sound) && <OptionalSound<NoSound> as DataComponentCodec>::equal(&a.hit_sound, &b.hit_sound)
    }
}

/// How an arm swings.
#[derive(Clone, Copy, Debug, PartialEq, Eq, Structural)]
pub enum SwingAnimationType {
    NoSwing,
    Whack,
    Stab,
}

/// The number of a value.
pub open spec fn swing_animation_type_id(v: SwingAnimationType) -> int {
    match v {
        SwingAnimationType::NoSwing => 0,
        SwingAnimationType::Whack => 1,
        SwingAnimationType::Stab => 2,
    }
}

impl SwingAnimationType {
    /// The value with a number.
    pub fn from_id(id: i32) -> (r: Option<Self>)
        ensures
            match r {
                Some(v) => swing_animation_type_id(v) == id,
                None => !(0 <= id < 3),
            },
    {
        match id {
            0 => Some(SwingAnimationType::NoSwing),
            1 => Some(SwingAnimationType::Whack),
            2 => Some(SwingAnimationType::Stab),
            _ => None,
        }
    }

    /// The number of the value.
    pub fn to_id(self) -> (r: i32)
        ensures
            r == swing_animation_type_id(self),
    {
        match self {
            SwingAnimationType::NoSwing => 0,
            SwingAnimationType::Whack => 1,
            SwingAnimationType::Stab => 2,
        }
    }
}

/// A value by its number.
pub struct AsSwing;

impl Numbered for AsSwing {
    type Value = SwingAnimationType;

    open spec fn check() -> Check {
        Check::UpTo { max: 2, out: Blame { text: "Invalid SwingAnimationType id {}", number: true } }
    }

    open spec fn val(v: SwingAnimationType) -> Val {
        Val::Int(swing_animation_type_id(v))
    }

    fn decode(regs: &Registries, v: i32) -> (r: Result<SwingAnimationType, ReadingError>) {
        match SwingAnimationType::from_id(v) {
            Some(x) => Ok(x),
            None => Err(message_value("Invalid SwingAnimationType id {}", v as i128)),
        }
    }

    fn encode(regs: &Registries, value: &SwingAnimationType) -> (r: Result<i32, WritingError>) {
        Ok(value.to_id())
    }

    fn alike(a: &SwingAnimationType, b: &SwingAnimationType) -> (r: bool) {
        a.to_id() == b.to_id()
    }
}

/// How an arm swings, and for how long.
#[derive(Clone, Copy, Debug, PartialEq, Eq)]
pub struct SwingAnimationImpl {
    pub animation_type: SwingAnimationType,
    pub duration: i32,
}

impl DataComponentCodec for SwingAnimationImpl {
    type Value = SwingAnimationImpl;

    open spec fn format() -> Format {
        Format::Pair(Box::new(<Coded<AsSwing> as DataComponentCodec>::format()), Box::new(AsVarInt::format()))
    }

    open spec fn val(v: SwingAnimationImpl) -> Val {
        pair(<Coded<AsSwing> as DataComponentCodec>::val(v.animation_type), AsVarInt::val(v.duration))
    }

    fn deserialize(seq: &mut &[u8], ctx: &Context) -> (r: Result<SwingAnimationImpl, ReadingError>) {
        proof {
            reveal_with_fuel(read_val, 2);
        }
        let animation_type = <Coded<AsSwing> as DataComponentCodec>::deserialize(seq, ctx)?;
        let duration = AsVarInt::deserialize(seq, ctx)?;
        Ok(SwingAnimationImpl { animation_type, duration })
    }

    fn serialize(value: &SwingAnimationImpl, out: &mut Vec<u8>, ctx: &Context) -> (r: Result<(), WritingError>) {
        proof {
            reveal_with_fuel(write_val, 2);
        }
        <Coded<AsSwing> as DataComponentCodec>::serialize(&value.animation_type, out, ctx)?;
        AsVarInt::serialize(&value.duration, out, ctx)
    }

    fn equal(a: &SwingAnimationImpl, b: &SwingAnimationImpl) -> (r: bool) {
        proof {
            reveal_with_fuel(val_same, 2);
        }
        <Coded<AsSwing> as DataComponentCodec>::equal(&a.animation_type, &b.animation_type) && AsVarInt::equal(&a.duration, &b.duration)
    }
}

/// Marks an item with an additional trade cost.
#[derive(Clone, Copy, Debug, PartialEq, Eq)]
pub struct AdditionalTradeCostImpl;

impl DataComponentCodec for AdditionalTradeCostImpl {
    type Value = AdditionalTradeCostImpl;

    open spec fn format() -> Format {
        Format::Fixed(Box::new(<AsVarInt as DataComponentCodec>::format()), Box::new(Val::Int(0)), Box::new(Val::Unit))
    }

    open spec fn val(v: AdditionalTradeCostImpl) -> Val {
        Val::Unit
    }

    fn deserialize(seq: &mut &[u8], ctx: &Context) -> (r: Result<AdditionalTradeCostImpl, ReadingError>) {
        proof {
            reveal(read_val);
        }
        <AsVarInt as DataComponentCodec>::deserialize(seq, ctx)?;
        Ok(AdditionalTradeCostImpl)
    }

    fn serialize(value: &AdditionalTradeCostImpl, out: &mut Vec<u8>, ctx: &Context) -> (r: Result<(), WritingError>) {
        proof {
            reveal(write_val);
        }
        let written: i32 = 0;
        <AsVarInt as DataComponentCodec>::serialize(&written, out, ctx)
    }

    fn equal(a: &AdditionalTradeCostImpl, b: &AdditionalTradeCostImpl) -> (r: bool) {
        true
    }
}

/// The trim of an armour.
#[derive(Debug, PartialEq)]
pub struct TrimImpl {
    pub material: NbtTag,
    pub pattern: NbtTag,
}

impl DataComponentCodec for TrimImpl {
    type Value = TrimImpl;

    open spec fn format() -> Format {
        Format::Fixed(
            Box::new(<Both<AsVarInt, AsVarInt> as DataComponentCodec>::format()),
            Box::new(pair(Val::Int(0), Val::Int(0))),
            Box::new(pair(Val::Nbt(Tag::String("minecraft:quartz"@)), Val::Nbt(Tag::String("minecraft:coast"@)))),
        )
    }

    open spec fn val(v: TrimImpl) -> Val {
        pair(Val::Nbt(v.material@), Val::Nbt(v.pattern@))
    }

    fn deserialize(seq: &mut &[u8], ctx: &Context) -> (r: Result<TrimImpl, ReadingError>) {
        proof {
            reveal(read_val);
        }
        <Both<AsVarInt, AsVarInt> as DataComponentCodec>::deserialize(seq, ctx)?;
        Ok(
            TrimImpl {
                material: NbtTag::String("minecraft:quartz".to_owned()),
                pattern: NbtTag::String("minecraft:coast".to_owned()),
            },
        )
    }

    fn serialize(value: &TrimImpl, out: &mut Vec<u8>, ctx: &Context) -> (r: Result<(), WritingError>) {
        proof {
            reveal(write_val);
        }
        let written: (i32, i32) = (0, 0);
        <Both<AsVarInt, AsVarInt> as DataComponentCodec>::serialize(&written, out, ctx)
    }

    fn equal(a: &TrimImpl, b: &TrimImpl) -> (r: bool) {
        proof {
            reveal_with_fuel(val_same, 2);
        }
        AnyTag::equal(&a.material, &b.material) && AnyTag::equal(&a.pattern, &b.pattern)
    }
}

/// Marks an item that can block attacks.
#[derive(Clone, Copy, Debug, PartialEq, Eq)]
pub struct BlocksAttacksImpl;

impl DataComponentCodec for BlocksAttacksImpl {
    type Value = BlocksAttacksImpl;

    open spec fn format() -> Format {
        Format::Fixed(Box::new(<Both<AsF32, Both<AsF32, Both<ListOf<RawCount, Both<AsF32, Both<Opt<SkippedSet>, Both<AsF32, AsF32>>>>, Both<SkippedDamage, Both<Opt<SkippedSet>, Both<Opt<AsVarInt>, Opt<AsVarInt>>>>>>> as DataComponentCodec>::format()), Box::new(pair(Val::Float(4, 0), pair(Val::Float(4, 0x3f80_0000), pair(Val::List(Seq::empty()), pair(Val::Unit, pair(Val::Absent, pair(Val::Absent, Val::Absent))))))), Box::new(Val::Unit))
    }

    open spec fn val(v: BlocksAttacksImpl) -> Val {
        Val::Unit
    }

    fn deserialize(seq: &mut &[u8], ctx: &Context) -> (r: Result<BlocksAttacksImpl, ReadingError>) {
        proof {
            reveal(read_val);
        }
        <Both<AsF32, Both<AsF32, Both<ListOf<RawCount, Both<AsF32, Both<Opt<SkippedSet>, Both<AsF32, AsF32>>>>, Both<SkippedDamage, Both<Opt<SkippedSet>, Both<Opt<AsVarInt>, Opt<AsVarInt>>>>>>> as DataComponentCodec>::deserialize(seq, ctx)?;
        Ok(BlocksAttacksImpl)
    }

    fn serialize(value: &BlocksAttacksImpl, out: &mut Vec<u8>, ctx: &Context) -> (r: Result<(), WritingError>) {
        proof {
            reveal(write_val);
        }
        let reductions: Vec<(u32, (Option<()>, (u32, u32)))> = Vec::new();
        assert(vals::<Both<AsF32, Both<Opt<SkippedSet>, Both<AsF32, AsF32>>>>(reductions@) =~= Seq::<Val>::empty());
        let written: (u32, (u32, (Vec<(u32, (Option<()>, (u32, u32)))>, ((), (Option<()>, (Option<i32>, Option<i32>)))))) = (0u32, (0x3f80_0000u32, (reductions, ((), (None, (None, None))))));
        <Both<AsF32, Both<AsF32, Both<ListOf<RawCount, Both<AsF32, Both<Opt<SkippedSet>, Both<AsF32, AsF32>>>>, Both<SkippedDamage, Both<Opt<SkippedSet>, Both<Opt<AsVarInt>, Opt<AsVarInt>>>>>>> as DataComponentCodec>::serialize(&written, out, ctx)
    }

    fn equal(a: &BlocksAttacksImpl, b: &BlocksAttacksImpl) -> (r: bool) {
        true
    }
}

} // verus!
