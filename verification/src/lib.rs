//! The items of a game server: stacks and their data components, how they are stored as tags, sent in
//! packets, compared and hashed, and how screens and commands work on them.
use vstd::prelude::*;

pub mod apart_laws;
pub mod basic;
pub mod basic_stored;
pub mod block_entity;
pub mod block_stored;
pub mod book;
pub mod bound_laws;
pub mod bundle;
pub mod byte_laws;
pub mod bytes;
pub mod client_packets;
pub mod codec;
pub mod coded;
pub mod command;
pub mod command_laws;
pub mod component_hash;
pub mod component_names;
pub mod component_return;
pub mod components;
pub mod consumable;
pub mod consume_stored;
pub mod data_component;
pub mod digest_laws;
pub mod elements;
pub mod equal;
pub mod equal_chain;
pub mod equal_laws;
pub mod equipment;
pub mod errors;
pub mod fixed_laws;
pub mod flat;
pub mod float;
pub mod float_laws;
pub mod format;
pub mod hash;
pub mod hash_laws;
pub mod identifier;
pub mod item_stack;
pub mod json;
pub mod leaf_return;
pub mod login;
pub mod lookup_laws;
pub mod name_laws;
pub mod nbt_codec;
pub mod nbt_read;
pub mod nbt_source;
pub mod nbt_tag;
pub mod nested;
pub mod nested_predicate;
pub mod nested_stored;
pub mod nesting_laws;
pub mod packet_laws;
pub mod packet_return;
pub mod patch_laws;
pub mod persist;
pub mod predicate;
pub mod predicate_laws;
pub mod predicate_return;
pub mod recipe_laws;
pub mod recipes;
pub mod registry;
pub mod same;
pub mod same_hash;
pub mod screen;
pub mod screen_laws;
pub mod sent;
pub mod serializer;
pub mod serializer_write;
pub mod server_packets;
pub mod shrink;
pub mod sorted;
pub mod stack;
pub mod stack_data;
pub mod stack_hash;
pub mod stack_laws;
pub mod stack_return;
pub mod stack_use;
pub mod stack_wire_laws;
pub mod stored;
pub mod stored_laws;
pub mod stored_return;
pub mod stored_stack_return;
pub mod tag_lists;
pub mod tag_numbers;
pub mod text;
pub mod tool_laws;
pub mod use_laws;
pub mod utility;
pub mod utility_stored;
pub mod variant;
pub mod version;
pub mod view_laws;
pub mod wire;
pub mod wire_laws;
pub mod wire_return;

verus! {

} // verus!
