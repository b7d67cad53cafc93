//! The registries that components refer to.
use std::sync::Arc;
use vstd::prelude::*;
use crate::data_component::DataComponent;
use crate::identifier::{bare_name, strip_namespace};
use crate::item_stack::Item;
use crate::nbt_tag::NbtTag;
use crate::text::same_text;
use crate::version::JavaMinecraftVersion;

verus! {

/// A block: its name, the names of its properties and the tags it has.
#[derive(Debug)]
pub struct Block {
    pub name: String,
    pub properties: Vec<String>,
    pub tags: Vec<String>,
}

/// The numbers of items and component types in one version: what each number of the current
/// version is there, and what each number there is in the current version. Zero stands for
/// none.
#[derive(Debug)]
pub struct VersionMap {
    pub version: JavaMinecraftVersion,
    pub items_out: Vec<u16>,
    pub items_in: Vec<u16>,
    pub components_out: Vec<u32>,
    pub components_in: Vec<u32>,
}

/// The stored form of a component: its type, its bytes on the wire, and the tag that describes it.
#[derive(Debug)]
pub struct StoredForm {
    pub id: DataComponent,
    pub data: Vec<u8>,
    pub tag: NbtTag,
}

/// The registries. An entry's number is its position, but for items, which carry their own.
#[derive(Debug)]
pub struct Registries {
    pub items: Vec<Arc<Item>>,
    pub enchantments: Vec<String>,
    pub effects: Vec<String>,
    pub sounds: Vec<String>,
    pub entity_types: Vec<String>,
    pub blocks: Vec<Block>,
    pub attributes: Vec<String>,
    pub damage_types: Vec<String>,
    pub songs: Vec<String>,
    pub versions: Vec<VersionMap>,
    /// The stored forms of components that the library has no form of its own for.
    pub stored_forms: Vec<StoredForm>,
}

/// A registry whose entries a set can hold.
#[derive(Clone, Copy, Debug, PartialEq, Eq, Structural)]
pub enum RegistryKind {
    Effect,
    EntityType,
    Item,
    Block,
}

/// The position of the first of the names that is `t`.
pub open spec fn find_name_from(names: Seq<String>, t: Seq<char>, i: int) -> Option<int>
    decreases names.len() - i,
{
    if i < 0 || i >= names.len() {
        None
    } else if names[i]@ == t {
        Some(i)
    } else {
        find_name_from(names, t, i + 1)
    }
}

/// The position of the first of the names that is `t`.
pub open spec fn find_name(names: Seq<String>, t: Seq<char>) -> Option<int> {
    find_name_from(names, t, 0)
}

/// The first item from the `i`th on with this number.
pub open spec fn find_item_from(items: Seq<Arc<Item>>, id: int, i: int) -> Option<int>
    decreases items.len() - i,
{
    if i < 0 || i >= items.len() {
        None
    } else if items[i].id == id {
        Some(i)
    } else {
        find_item_from(items, id, i + 1)
    }
}

/// The item with this number.
pub open spec fn find_item(regs: Registries, id: int) -> Option<Item> {
    match find_item_from(regs.items@, id, 0) {
        Some(i) => Some(*regs.items@[i]),
        None => None,
    }
}

/// The first item from the `i`th on with this key.
pub open spec fn find_key_from(items: Seq<Arc<Item>>, key: Seq<char>, i: int) -> Option<int>
    decreases items.len() - i,
{
    if i < 0 || i >= items.len() {
        None
    } else if items[i].registry_key@ == key {
        Some(i)
    } else {
        find_key_from(items, key, i + 1)
    }
}

/// The item with this key.
pub open spec fn find_key(regs: Registries, key: Seq<char>) -> Option<Item> {
    match find_key_from(regs.items@, key, 0) {
        Some(i) => Some(*regs.items@[i]),
        None => None,
    }
}

/// The first block from the `i`th on with this name.
pub open spec fn find_block_from(blocks: Seq<Block>, name: Seq<char>, i: int) -> Option<int>
    decreases blocks.len() - i,
{
    if i < 0 || i >= blocks.len() {
        None
    } else if blocks[i].name@ == name {
        Some(i)
    } else {
        find_block_from(blocks, name, i + 1)
    }
}

/// The number of the block with this name, whose `minecraft:` may be left out.
pub open spec fn find_block(regs: Registries, name: Seq<char>) -> Option<int> {
    find_block_from(regs.blocks@, bare_name(name), 0)
}

/// Whether an enchantment has this number.
pub open spec fn enchantment_known(regs: Registries, id: int) -> bool {
    0 <= id < regs.enchantments@.len()
}

/// Whether an entry of a registry has this number.
pub open spec fn kind_known(regs: Registries, kind: RegistryKind, id: int) -> bool {
    match kind {
        RegistryKind::Effect => 0 <= id < regs.effects@.len(),
        RegistryKind::EntityType => 0 <= id < regs.entity_types@.len(),
        RegistryKind::Item => find_item(regs, id) is Some,
        RegistryKind::Block => 0 <= id < regs.blocks@.len(),
    }
}

/// The position of the first of the names that is `t`.
pub fn position_of(names: &Vec<String>, t: &str) -> (r: Option<usize>)
    ensures
        match r {
            Some(i) => find_name(names@, t@) == Some(i as int) && i < names@.len(),
            None => find_name(names@, t@) is None,
        },
{
    let mut i: usize = 0;
    while i < names.len()
        invariant
            i <= names@.len(),
            find_name(names@, t@) == find_name_from(names@, t@, i as int),
        decreases names.len() - i,
    {
        if same_text(names[i].as_str(), t) {
            return Some(i);
        }
        i += 1;
    }
    None
}

/// Calls `Arc::clone` of std, which gives another handle on the same value.
#[verifier::external_body]
pub(crate) fn share<T>(a: &Arc<T>) -> (r: Arc<T>)
    ensures
        r == *a,
{
    a.clone()
}

impl Registries {
    /// The item with this number.
    pub fn item_by_id(&self, id: u16) -> (r: Option<Arc<Item>>)
        ensures
            match r {
                Some(item) => find_item(*self, id as int) == Some(*item) && item.id == id,
                None => find_item(*self, id as int) is None,
            },
    {
        let mut i: usize = 0;
        while i < self.items.len()
            invariant
                i <= self.items@.len(),
                find_item_from(self.items@, id as int, 0) == find_item_from(self.items@, id as int, i as int),
            decreases self.items.len() - i,
        {
            if self.items[i].id == id {
                return Some(share(&self.items[i]));
            }
            i += 1;
        }
        None
    }

    /// The item with this key.
    pub fn item_by_key(&self, key: &str) -> (r: Option<Arc<Item>>)
        ensures
            match r {
                Some(item) => find_key(*self, key@) == Some(*item),
                None => find_key(*self, key@) is None,
            },
    {
        let mut i: usize = 0;
        while i < self.items.len()
            invariant
                i <= self.items@.len(),
                find_key_from(self.items@, key@, 0) == find_key_from(self.items@, key@, i as int),
            decreases self.items.len() - i,
        {
            if same_text(self.items[i].registry_key.as_str(), key) {
                return Some(share(&self.items[i]));
            }
            i += 1;
        }
        None
    }

    /// The position of the block with this very name.
    pub fn block_position(&self, name: &str) -> (r: Option<usize>)
        ensures
            match r {
                Some(i) => find_block_from(self.blocks@, name@, 0) == Some(i as int) && i < self.blocks@.len(),
                None => find_block_from(self.blocks@, name@, 0) is None,
            },
    {
        let mut i: usize = 0;
        while i < self.blocks.len()
            invariant
                i <= self.blocks@.len(),
                find_block_from(self.blocks@, name@, 0) == find_block_from(self.blocks@, name@, i as int),
            decreases self.blocks.len() - i,
        {
            if same_text(self.blocks[i].name.as_str(), name) {
                return Some(i);
            }
            i += 1;
        }
        None
    }

    /// The number of the block with this name.
    pub fn block_by_name(&self, name: &str) -> (r: Option<usize>)
        ensures
            match r {
                Some(i) => find_block(*self, name@) == Some(i as int) && i < self.blocks@.len(),
                None => find_block(*self, name@) is None,
            },
    {
        self.block_position(strip_namespace(name).as_str())
    }

    /// Whether an entry of a registry has this number.
    pub fn is_known(&self, kind: RegistryKind, id: u16) -> (r: bool)
        ensures
            r == kind_known(*self, kind, id as int),
    {
        match kind {
            RegistryKind::Effect => (id as usize) < self.effects.len(),
            RegistryKind::EntityType => (id as usize) < self.entity_types.len(),
            RegistryKind::Item => self.item_by_id(id).is_some(),
            RegistryKind::Block => (id as usize) < self.blocks.len(),
        }
    }
}

/// The map for a version, from the `i`th on.
pub open spec fn find_version(maps: Seq<VersionMap>, version: JavaMinecraftVersion, i: int) -> Option<int>
    decreases maps.len() - i,
{
    if i < 0 || i >= maps.len() {
        None
    } else if maps[i].version == version {
        Some(i)
    } else {
        find_version(maps, version, i + 1)
    }
}

/// The number of an item in another version.
pub open spec fn item_id_out(regs: Registries, id: int, version: JavaMinecraftVersion) -> int {
    match find_version(regs.versions@, version, 0) {
        None => id,
        Some(i) => if id < regs.versions@[i].items_out@.len() {
            regs.versions@[i].items_out@[id] as int
        } else {
            0
        },
    }
}

/// The number in the current version of an item of another version.
pub open spec fn item_id_in(regs: Registries, id: int, version: JavaMinecraftVersion) -> int {
    match find_version(regs.versions@, version, 0) {
        None => id,
        Some(i) => if id < regs.versions@[i].items_in@.len() {
            regs.versions@[i].items_in@[id] as int
        } else {
            0
        },
    }
}

/// The number of a component type in another version.
pub open spec fn component_id_out(regs: Registries, id: int, version: JavaMinecraftVersion) -> int {
    match find_version(regs.versions@, version, 0) {
        None => id,
        Some(i) => if id < regs.versions@[i].components_out@.len() {
            regs.versions@[i].components_out@[id] as int
        } else {
            0
        },
    }
}

/// The number in the current version of a component type of another version.
pub open spec fn component_id_in(regs: Registries, id: int, version: JavaMinecraftVersion) -> int {
    match find_version(regs.versions@, version, 0) {
        None => id,
        Some(i) => if id < regs.versions@[i].components_in@.len() {
            regs.versions@[i].components_in@[id] as int
        } else {
            0
        },
    }
}

impl Registries {
    /// The position of the map for a version.
    fn version_position(&self, version: JavaMinecraftVersion) -> (r: Option<usize>)
        ensures
            match r {
                Some(i) => find_version(self.versions@, version, 0) == Some(i as int) && i < self.versions@.len(),
                None => find_version(self.versions@, version, 0) is None,
            },
    {
        let mut i: usize = 0;
        while i < self.versions.len()
            invariant
                i <= self.versions@.len(),
                find_version(self.versions@, version, 0) == find_version(self.versions@, version, i as int),
            decreases self.versions.len() - i,
        {
            if self.versions[i].version == version {
                return Some(i);
            }
            i += 1;
        }
        None
    }

    /// The number of an item in another version.
    pub fn remap_item_id_for_version(&self, id: u16, version: JavaMinecraftVersion) -> (r: u16)
        ensures
            r == item_id_out(*self, id as int, version),
    {
        match self.version_position(version) {
            None => id,
            Some(i) => if (id as usize) < self.versions[i].items_out.len() {
                self.versions[i].items_out[id as usize]
            } else {
                0
            },
        }
    }

    /// The number in the current version of an item of another version.
    pub fn remap_item_id_from_version(&self, id: u16, version: JavaMinecraftVersion) -> (r: u16)
        ensures
            r == item_id_in(*self, id as int, version),
    {
        match self.version_position(version) {
            None => id,
            Some(i) => if (id as usize) < self.versions[i].items_in.len() {
                self.versions[i].items_in[id as usize]
            } else {
                0
            },
        }
    }

    /// The number of a component type in another version.
    pub fn remap_data_component_type_id_for_version(&self, id: u32, version: JavaMinecraftVersion) -> (r: u32)
        ensures
            r == component_id_out(*self, id as int, version),
    {
        match self.version_position(version) {
            None => id,
            Some(i) => if (id as usize) < self.versions[i].components_out.len() {
                self.versions[i].components_out[id as usize]
            } else {
                0
            },
        }
    }

    /// The number in the current version of a component type of another version.
    pub fn remap_data_component_type_id_from_version(&self, id: u32, version: JavaMinecraftVersion) -> (r: u32)
        ensures
            r == component_id_in(*self, id as int, version),
    {
        match self.version_position(version) {
            None => id,
            Some(i) => if (id as usize) < self.versions[i].components_in.len() {
                self.versions[i].components_in[id as usize]
            } else {
                0
            },
        }
    }
}

} // verus!
