//! Which bytes packets are made of, field by field.
use vstd::prelude::*;
use vstd::utf8::encode_utf8;
use crate::bytes::{be_bytes, be_signed, lemma_regroup};
use crate::client_packets::{
    chunk_bytes, base64_bytes, opt_color_bytes, points_at, points_nowhere, position_bytes, raw_icon, recipe_display_bytes, slots_bytes,
    target_bytes, write_ghost_recipe, write_pack, write_server_data, write_waypoint, CConfigAddResourcePack, CPlaceGhostRecipe, CServerData,
    CWaypoint,
    ChunkBiomeEntry, RecipeDisplay, SlotDisplay, TrackedWaypoint, WaypointIcon, WaypointIdentifier, WaypointOperation, WaypointTarget,
};
use crate::elements::BlockPos;
use crate::format::{put, put_nbt, put_text};
use crate::json::{escaped, escaped_text, literal_json, put_component, quoted, SentText};
use crate::leaf_return::lemma_small_count;
use crate::login::{read_login, md5_of, offline_uuid, uuid_or_offline, write_login};
use crate::registry::{item_id_out, Registries};
use crate::sent::in_turn;
use crate::server_packets::{
    read_chat, read_game_rules, read_particles, read_signature_count, read_signed_command, rule_views, write_chat, write_information, write_rules, write_signatures, write_signed_command,
    GameRuleEntry, SChatCommandSigned, SChatMessage, SClientInformationPlay,
};
use crate::stack_hash::{numbers_bytes, pairs_bytes, read_bounded, stack_hash_bytes, HashView};
use crate::version::{version_rank, JavaMinecraftVersion};
use crate::wire::{text, text_fits, var_int, MAX_TEXT_BYTES};

verus! {

/// Bytes that are there since a version.
pub open spec fn since_then(version: JavaMinecraftVersion, first: JavaMinecraftVersion, b: Seq<u8>) -> Seq<u8> {
    if version_rank(version) >= version_rank(first) {
        b
    } else {
        Seq::empty()
    }
}

pub(crate) proof fn lemma_one_more(n: nat, piece: spec_fn(int) -> Seq<u8>, i: nat)
    requires
        i <= n,
    ensures
        in_turn(n + 1, piece, i) =~= in_turn(n, piece, i) + piece(n as int),
    decreases n - i,
{
    if i < n {
        lemma_one_more(n, piece, i + 1);
    } else {
        reveal_with_fuel(in_turn, 2);
    }
}

/// The byte of a flag.
pub open spec fn one_or_zero(b: bool) -> Seq<u8> {
    seq![if b { 1u8 } else { 0u8 }]
}

proof fn lemma_one_byte(b: u8)
    ensures
        be_bytes(b as nat, 1) == seq![b],
{
    reveal_with_fuel(be_bytes, 2);
    assert(be_bytes(b as nat, 1) =~= seq![b]);
}

/// What a client tells about itself is sent field by field; the main hand came with 1.9, filtering with 1.17,
/// listing with 1.18 and particles with 26.2.
pub proof fn lemma_information_layout(version: JavaMinecraftVersion, out: Seq<u8>, p: SClientInformationPlay)
    requires
        text_fits(p.locale@, MAX_TEXT_BYTES as nat),
        p.particle_status <= 2,
    ensures
        write_information(version, out, p@) == put(
            out,
            text(p.locale@) + be_signed(p.view_distance as int, 1) + var_int(p.chat_mode as int) + one_or_zero(p.chat_colors) + seq![p.skin_parts]
                + since_then(version, JavaMinecraftVersion::V_1_9, var_int(p.main_hand as int)) + since_then(
                version,
                JavaMinecraftVersion::V_1_17,
                one_or_zero(p.text_filtering),
            ) + since_then(version, JavaMinecraftVersion::V_1_18, one_or_zero(p.server_listing)) + since_then(
                version,
                JavaMinecraftVersion::V_26_2,
                seq![p.particle_status],
            ),
        ),
{
    lemma_one_byte(p.skin_parts);
    lemma_one_byte(p.particle_status);
    let x1 = text(p.locale@);
    let x2 = be_signed(p.view_distance as int, 1);
    let x3 = var_int(p.chat_mode as int);
    let x4 = one_or_zero(p.chat_colors);
    let x5 = seq![p.skin_parts];
    let x6 = since_then(version, JavaMinecraftVersion::V_1_9, var_int(p.main_hand as int));
    let x7 = since_then(version, JavaMinecraftVersion::V_1_17, one_or_zero(p.text_filtering));
    let x8 = since_then(version, JavaMinecraftVersion::V_1_18, one_or_zero(p.server_listing));
    let x9 = since_then(version, JavaMinecraftVersion::V_26_2, seq![p.particle_status]);
    lemma_regroup(out, x1, x2);
    lemma_regroup(out, x1 + x2, x3);
    lemma_regroup(out, x1 + x2 + x3, x4);
    lemma_regroup(out, x1 + x2 + x3 + x4, x5);
    lemma_regroup(out, x1 + x2 + x3 + x4 + x5, x6);
    lemma_regroup(out, x1 + x2 + x3 + x4 + x5 + x6, x7);
    lemma_regroup(out, x1 + x2 + x3 + x4 + x5 + x6 + x7, x8);
    let most = x1 + x2 + x3 + x4 + x5 + x6 + x7 + x8;
    lemma_regroup(out, most, x9);
    if !(version is V_26_2) {
        assert(most + x9 =~= most);
    }
}

/// A chat message is sent with its text; since 1.19 with its time, its salt and its signature, since 1.19.3
/// with what was seen, and since 1.21.5 with its checksum.
pub proof fn lemma_chat_layout(version: JavaMinecraftVersion, out: Seq<u8>, p: SChatMessage)
    requires
        text_fits(p.message@, MAX_TEXT_BYTES as nat),
    ensures
        write_chat(version, out, p@) == put(
            out,
            text(p.message@) + since_then(
                version,
                JavaMinecraftVersion::V_1_19,
                be_signed(p.timestamp as int, 8) + be_signed(p.salt as int, 8) + (match p.signature {
                    Some(b) => seq![1u8] + b@,
                    None => seq![0u8],
                }) + (if version_rank(version) >= version_rank(JavaMinecraftVersion::V_1_19_3) {
                    var_int(p.message_count as int) + p.acknowledged@
                } else {
                    seq![0u8]
                }),
            ) + since_then(version, JavaMinecraftVersion::V_1_21_5, seq![p.checksum]),
        ),
{
    reveal_with_fuel(be_bytes, 2);
    assert(be_bytes(p.checksum as nat, 1) =~= seq![p.checksum]);
    assert(be_bytes(0, 1) =~= seq![0u8]);
    let b = text(p.message@) + since_then(
        version,
        JavaMinecraftVersion::V_1_19,
        be_signed(p.timestamp as int, 8) + be_signed(p.salt as int, 8) + (match p.signature {
            Some(b) => seq![1u8] + b@,
            None => seq![0u8],
        }) + (if version_rank(version) >= version_rank(JavaMinecraftVersion::V_1_19_3) {
            var_int(p.message_count as int) + p.acknowledged@
        } else {
            seq![0u8]
        }),
    ) + since_then(version, JavaMinecraftVersion::V_1_21_5, seq![p.checksum]);
    assert(write_chat(version, out, p@).out =~= out + b);
}

proof fn lemma_signatures_in_turn(out: Seq<u8>, l: Seq<(Seq<char>, Seq<u8>)>, i: nat)
    requires
        i <= l.len(),
        forall|k: int| 0 <= k < l.len() ==> text_fits((#[trigger] l[k]).0, MAX_TEXT_BYTES as nat),
    ensures
        write_signatures(out, l, i as int) == put(out, in_turn(l.len(), |k: int| text(l[k].0) + l[k].1, i)),
    decreases l.len() - i,
{
    let f = |k: int| text(l[k].0) + l[k].1;
    if i < l.len() {
        let e = l[i as int];
        lemma_signatures_in_turn(out + text(e.0) + e.1, l, i + 1);
        assert(out + text(e.0) + e.1 + in_turn(l.len(), f, i + 1) =~= out + (text(e.0) + e.1 + in_turn(l.len(), f, i + 1)));
    } else {
        assert(out + in_turn(l.len(), f, i) =~= out);
    }
}

/// A command with signed arguments is sent with its text, its time, its salt, its signatures each behind the
/// name of its argument, what was seen, and since 1.21.5 its checksum.
pub proof fn lemma_signed_command_layout(version: JavaMinecraftVersion, out: Seq<u8>, p: SChatCommandSigned)
    requires
        text_fits(p.command@, MAX_TEXT_BYTES as nat),
        p.argument_signatures@.len() <= 8,
        forall|k: int| 0 <= k < p.argument_signatures@.len() ==> text_fits((#[trigger] p.argument_signatures@[k]).name@, MAX_TEXT_BYTES as nat),
    ensures
        write_signed_command(version, out, p@) == put(
            out,
            text(p.command@) + be_signed(p.timestamp as int, 8) + be_signed(p.salt as int, 8) + var_int(p.argument_signatures@.len() as int) + in_turn(
                p.argument_signatures@.len(),
                |k: int| text(p.argument_signatures@[k].name@) + p.argument_signatures@[k].signature@,
                0,
            ) + var_int(p.message_count as int) + p.acknowledged@ + since_then(version, JavaMinecraftVersion::V_1_21_5, seq![p.checksum]),
        ),
{
    reveal_with_fuel(be_bytes, 2);
    assert(be_bytes(p.checksum as nat, 1) =~= seq![p.checksum]);
    let l = p@.signatures;
    let head = text(p.command@) + be_signed(p.timestamp as int, 8) + be_signed(p.salt as int, 8) + var_int(l.len() as int);
    let o = out + text(p.command@) + be_signed(p.timestamp as int, 8) + be_signed(p.salt as int, 8) + var_int(l.len() as int);
    assert(o =~= out + head);
    assert forall|k: int| 0 <= k < l.len() implies text_fits((#[trigger] l[k]).0, MAX_TEXT_BYTES as nat) by {
        assert(l[k].0 == p.argument_signatures@[k].name@);
    }
    lemma_signatures_in_turn(o, l, 0);
    let f = |k: int| text(l[k].0) + l[k].1;
    let g = |k: int| text(p.argument_signatures@[k].name@) + p.argument_signatures@[k].signature@;
    lemma_same_pieces(l.len(), f, g, 0);
    let b = head + in_turn(l.len(), g, 0) + var_int(p.message_count as int) + p.acknowledged@ + since_then(
        version,
        JavaMinecraftVersion::V_1_21_5,
        seq![p.checksum],
    );
    assert(write_signed_command(version, out, p@).out =~= out + b);
}

proof fn lemma_same_pieces(n: nat, f: spec_fn(int) -> Seq<u8>, g: spec_fn(int) -> Seq<u8>, i: nat)
    requires
        forall|k: int| 0 <= k < n ==> #[trigger] f(k) == g(k),
    ensures
        in_turn(n, f, i) == in_turn(n, g, i),
    decreases n - i,
{
    if i < n {
        assert(f(i as int) == g(i as int));
        lemma_same_pieces(n, f, g, i + 1);
    }
}

proof fn lemma_rules_in_turn(out: Seq<u8>, l: Seq<(Seq<char>, Seq<char>)>, i: nat)
    requires
        i <= l.len(),
        forall|k: int| 0 <= k < l.len() ==> text_fits((#[trigger] l[k]).0, MAX_TEXT_BYTES as nat) && text_fits(l[k].1, MAX_TEXT_BYTES as nat),
    ensures
        write_rules(out, l, i as int) == put(out, in_turn(l.len(), |k: int| text(l[k].0) + text(l[k].1), i)),
    decreases l.len() - i,
{
    let f = |k: int| text(l[k].0) + text(l[k].1);
    if i < l.len() {
        let e = l[i as int];
        lemma_rules_in_turn(out + text(e.0) + text(e.1), l, i + 1);
        assert(out + text(e.0) + text(e.1) + in_turn(l.len(), f, i + 1) =~= out + (text(e.0) + text(e.1) + in_turn(l.len(), f, i + 1)));
    } else {
        assert(out + in_turn(l.len(), f, i) =~= out);
    }
}

/// Game rules are sent one behind the other, the name of each before its value.
pub proof fn lemma_game_rules_layout(out: Seq<u8>, v: Seq<GameRuleEntry>)
    requires
        forall|k: int|
            0 <= k < v.len() ==> text_fits((#[trigger] v[k]).game_rule_key@, MAX_TEXT_BYTES as nat) && text_fits(
                v[k].value@,
                MAX_TEXT_BYTES as nat,
            ),
    ensures
        write_rules(out, rule_views(v), 0) == put(out, in_turn(v.len(), |k: int| text(v[k].game_rule_key@) + text(v[k].value@), 0)),
{
    let l = rule_views(v);
    assert forall|k: int| 0 <= k < l.len() implies text_fits((#[trigger] l[k]).0, MAX_TEXT_BYTES as nat) && text_fits(
        l[k].1,
        MAX_TEXT_BYTES as nat,
    ) by {
        assert(l[k] == (v[k].game_rule_key@, v[k].value@));
    }
    lemma_rules_in_turn(out, l, 0);
    lemma_same_pieces(
        v.len(),
        |k: int| text(l[k].0) + text(l[k].1),
        |k: int| text(v[k].game_rule_key@) + text(v[k].value@),
        0,
    );
}

/// More signatures than eight, or than what is left can hold, are refused, and so are more game rules than
/// what is left can hold.
pub proof fn lemma_counts_are_bounded(n: int, s: Seq<u8>)
    requires
        i32::MIN <= n <= i32::MAX,
    ensures
        read_signature_count(var_int(n) + s).value is Ok <==> 0 <= n <= 8 && n * 257 <= s.len(),
        n < 0 || n * 2 > s.len() ==> read_game_rules(var_int(n) + s).value is Err,
{
    crate::wire::lemma_read_var_int(n, s);
    let m = s.len() as int;
    assert(n <= m / 257 <==> n * 257 <= m) by (nonlinear_arith)
        requires
            m >= 0,
    ;
}

/// Each chunk is sent with its second coordinate, its first, and its counted data.
pub proof fn lemma_chunks_layout(v: Seq<ChunkBiomeEntry>, n: nat)
    requires
        n <= v.len(),
        forall|k: int| 0 <= k < v.len() ==> (#[trigger] v[k]).data@.len() <= i32::MAX,
    ensures
        chunk_bytes(v, n) == in_turn(
            n,
            |k: int| be_signed(v[k].chunk_z as int, 4) + be_signed(v[k].chunk_x as int, 4) + var_int(v[k].data@.len() as int) + v[k].data@,
            0,
        ),
    decreases n,
{
    let f = |k: int| be_signed(v[k].chunk_z as int, 4) + be_signed(v[k].chunk_x as int, 4) + var_int(v[k].data@.len() as int) + v[k].data@;
    if n > 0 {
        lemma_chunks_layout(v, (n - 1) as nat);
        lemma_one_more((n - 1) as nat, f, 0);
        lemma_small_count(v[n - 1].data@.len());
        assert(chunk_bytes(v, n) =~= in_turn((n - 1) as nat, f, 0) + f(n - 1));
    }
}

/// A position is sent as its three coordinates in their order.
pub proof fn lemma_position_layout(p: BlockPos)
    ensures
        position_bytes(p) == var_int(p.x as int) + var_int(p.y as int) + var_int(p.z as int),
{
}

/// A text component is sent as a tag since 1.20.3, and as JSON before.
pub proof fn lemma_text_component_layout(out: Seq<u8>, t: SentText, version: JavaMinecraftVersion)
    ensures
        put_component(out, t, version) == if version_rank(version) >= version_rank(JavaMinecraftVersion::V_1_20_3) {
            put_nbt(out, t.component@)
        } else {
            put_text(out, t.json@, 32767)
        },
{
}

/// The number of what is done with a waypoint.
pub open spec fn waypoint_number(op: WaypointOperation) -> int {
    match op {
        WaypointOperation::Track => 0,
        WaypointOperation::Untrack => 1,
        WaypointOperation::Update => 2,
    }
}

/// The bytes of a colour: a flag, and its three parts, or all four bytes in 1.21.2.
pub open spec fn sent_color(version: JavaMinecraftVersion, color: Option<u32>) -> Seq<u8> {
    match color {
        Some(c) => if version is V_1_21_2 {
            seq![1u8] + be_bytes(c as nat, 4)
        } else {
            seq![1u8, ((c / 0x1_0000) % 256) as u8, ((c / 0x100) % 256) as u8, (c % 256) as u8]
        },
        None => seq![0u8],
    }
}

proof fn lemma_color(version: JavaMinecraftVersion, color: Option<u32>)
    ensures
        opt_color_bytes(version, color) == sent_color(version, color),
{
    match color {
        Some(c) => {
            if !(version is V_1_21_2) {
                reveal_with_fuel(be_bytes, 4);
                let v = (c % 0x100_0000) as nat;
                assert(v % 256 == c % 256);
                assert((v / 256) % 256 == (c / 0x100) % 256);
                assert((v / 256 / 256) % 256 == (c / 0x1_0000) % 256);
                assert(opt_color_bytes(version, color) =~= sent_color(version, color));
            }
        },
        None => {},
    }
}

/// A waypoint is sent with what is done with it, what names it, how it looks, its colour as three bytes and
/// where it is; in 1.21.2 its colour has four.
pub proof fn lemma_waypoint_layout(version: JavaMinecraftVersion, out: Seq<u8>, p: CWaypoint)
    requires
        text_fits(p.waypoint.icon.style@, MAX_TEXT_BYTES as nat),
        p.waypoint.identifier matches WaypointIdentifier::String(t) ==> text_fits(t@, MAX_TEXT_BYTES as nat),
    ensures
        write_waypoint(version, out, p) == put(
            out,
            var_int(waypoint_number(p.operation)) + (match p.waypoint.identifier {
                WaypointIdentifier::Uuid(b) => seq![1u8] + b@,
                WaypointIdentifier::String(t) => seq![0u8] + text(t@),
            }) + text(p.waypoint.icon.style@) + sent_color(version, p.waypoint.icon.color) + (match p.waypoint.target {
                WaypointTarget::Empty => var_int(0),
                WaypointTarget::Position(b) => var_int(1) + (var_int(b.x as int) + var_int(b.y as int) + var_int(b.z as int)),
                WaypointTarget::Chunk { x, z } => var_int(2) + var_int(x as int) + var_int(z as int),
                WaypointTarget::Azimuth(a) => var_int(3) + be_bytes(a as nat, 4),
            }),
        ),
{
    lemma_color(version, p.waypoint.icon.color);
    let op = var_int(waypoint_number(p.operation));
    let id = match p.waypoint.identifier {
        WaypointIdentifier::Uuid(b) => seq![1u8] + b@,
        WaypointIdentifier::String(t) => seq![0u8] + text(t@),
    };
    let style = text(p.waypoint.icon.style@);
    let color = opt_color_bytes(version, p.waypoint.icon.color);
    let target = target_bytes(p.waypoint.target);
    lemma_regroup(out, op, id);
    match p.waypoint.identifier {
        WaypointIdentifier::Uuid(b) => {
            lemma_regroup(out + op, seq![1u8], b@);
        },
        WaypointIdentifier::String(t) => {
            lemma_regroup(out + op, seq![0u8], text(t@));
        },
    }
    lemma_regroup(out, op + id, style);
    lemma_regroup(out, op + id + style, color + target);
    lemma_regroup(op + id + style, color, target);
}

/// The offer of a resource pack is sent with its address, its hash, whether it is forced and its message,
/// since 1.20.3 behind its number; a hash of more than forty bytes is refused.
pub proof fn lemma_pack_layout(version: JavaMinecraftVersion, out: Seq<u8>, p: CConfigAddResourcePack)
    ensures
        encode_utf8(p.url@).len() <= 32767 && encode_utf8(p.hash@).len() <= 40 && p.prompt_message is None ==> write_pack(version, out, p) == put(
            out,
            since_then(version, JavaMinecraftVersion::V_1_20_3, p.uuid@) + text(p.url@) + text(p.hash@) + one_or_zero(p.forced) + seq![0u8],
        ),
        encode_utf8(p.url@).len() <= 32767 && encode_utf8(p.hash@).len() <= 40 ==> (p.prompt_message matches Some(t) ==> write_pack(version, out, p)
            == put_component(
            out + (since_then(version, JavaMinecraftVersion::V_1_20_3, p.uuid@) + text(p.url@) + text(p.hash@) + one_or_zero(p.forced) + seq![1u8]),
            t,
            version,
        )),
        encode_utf8(p.url@).len() > 32767 || encode_utf8(p.hash@).len() > 40 ==> write_pack(version, out, p).result is Err,
{
    let head = since_then(version, JavaMinecraftVersion::V_1_20_3, p.uuid@) + text(p.url@) + text(p.hash@) + one_or_zero(p.forced);
    let o = out + since_then(version, JavaMinecraftVersion::V_1_20_3, p.uuid@) + text(p.url@) + text(p.hash@) + one_or_zero(p.forced);
    assert(o + seq![0u8] =~= out + (head + seq![0u8]));
    assert(o + seq![1u8] =~= out + (head + seq![1u8]));
}

proof fn lemma_slots_in_turn(regs: Registries, version: JavaMinecraftVersion, l: Seq<SlotDisplay>, n: nat)
    requires
        n <= l.len(),
    ensures
        slots_bytes(regs, version, l, n) == in_turn(n, |k: int| shown_slot(regs, version, l[k]), 0),
    decreases n,
{
    let f = |k: int| shown_slot(regs, version, l[k]);
    if n > 0 {
        lemma_slots_in_turn(regs, version, l, (n - 1) as nat);
        lemma_one_more((n - 1) as nat, f, 0);
    }
}

/// The bytes of what is shown in a slot.
pub open spec fn shown_slot(regs: Registries, version: JavaMinecraftVersion, d: SlotDisplay) -> Seq<u8> {
    match d {
        SlotDisplay::Empty => var_int(0),
        SlotDisplay::Item(item) => var_int(4) + var_int(item_id_out(regs, item.id as int, version)),
    }
}

/// The bytes of what is shown in slots, behind their number.
pub open spec fn shown_slots(regs: Registries, version: JavaMinecraftVersion, l: Seq<SlotDisplay>) -> Seq<u8> {
    var_int(l.len() as int) + in_turn(l.len(), |k: int| shown_slot(regs, version, l[k]), 0)
}

/// A recipe is shown with its shape, what it takes, what it gives and where it is crafted; since 26.2 this
/// comes in place of its name, and each is refused where the other is known.
pub proof fn lemma_ghost_recipe_layout(regs: Registries, version: JavaMinecraftVersion, out: Seq<u8>, p: CPlaceGhostRecipe)
    requires
        p.display matches Some(RecipeDisplay::Shapeless { ingredients, .. }) ==> ingredients@.len() <= i32::MAX,
        p.display matches Some(RecipeDisplay::Shaped { ingredients, .. }) ==> ingredients@.len() <= i32::MAX,
    ensures
        ({
            let w = write_ghost_recipe(regs, version, out, p);
            let id = if version_rank(version) >= version_rank(JavaMinecraftVersion::V_1_21_2) {
                var_int(p.window_id as int)
            } else {
                seq![p.window_id]
            };
            match p.display {
                None => if version is V_26_2 {
                    w.result is Err
                } else {
                    text_fits(p.recipe_id@, MAX_TEXT_BYTES as nat) ==> w == put(out, id + text(p.recipe_id@))
                },
                Some(RecipeDisplay::Shapeless { ingredients, result, crafting_station }) => if version is V_26_2 {
                    w == put(
                        out,
                        id + (var_int(0) + shown_slots(regs, version, ingredients@) + shown_slot(regs, version, result) + shown_slot(
                            regs,
                            version,
                            crafting_station,
                        )),
                    )
                } else {
                    w.result is Err
                },
                Some(RecipeDisplay::Shaped { width, height, ingredients, result, crafting_station }) => if version is V_26_2 {
                    w == put(
                        out,
                        id + (var_int(1) + var_int(width as int) + var_int(height as int) + shown_slots(regs, version, ingredients@) + shown_slot(
                            regs,
                            version,
                            result,
                        ) + shown_slot(regs, version, crafting_station)),
                    )
                } else {
                    w.result is Err
                },
            }
        }),
{
    reveal_with_fuel(be_bytes, 2);
    assert(be_bytes(p.window_id as nat, 1) =~= seq![p.window_id]);
    let id = crate::client_packets::window_bytes(version, p.window_id);
    match p.display {
        Some(d) => {
            match d {
                RecipeDisplay::Shapeless { ingredients, .. } => {
                    lemma_slots_in_turn(regs, version, ingredients@, ingredients@.len());
                    lemma_small_count(ingredients@.len());
                },
                RecipeDisplay::Shaped { ingredients, .. } => {
                    lemma_slots_in_turn(regs, version, ingredients@, ingredients@.len());
                    lemma_small_count(ingredients@.len());
                },
            }
            let b = recipe_display_bytes(regs, version, d);
            assert(out + id + b =~= out + (id + b));
        },
        None => {
            assert(out + id + text(p.recipe_id@) =~= out + (id + text(p.recipe_id@)));
        },
    }
}

/// A login begins with the name; from 1.19 up to 1.19.3 comes that there is no key, since 1.19.1 the number
/// of the player, up to 1.20 behind a flag.
pub proof fn lemma_login_layout(version: JavaMinecraftVersion, out: Seq<u8>, name: Seq<char>, id: Seq<u8>)
    ensures
        encode_utf8(name).len() <= 16 ==> write_login(version, out, name, id) == put(
            out,
            text(name) + (if version is V_1_19 || version is V_1_19_1 || version is V_1_19_3 {
                seq![0u8]
            } else {
                Seq::empty()
            }) + (if version_rank(version) >= version_rank(JavaMinecraftVersion::V_1_20_2) {
                id
            } else if version_rank(version) >= version_rank(JavaMinecraftVersion::V_1_19_1) {
                seq![1u8] + id
            } else {
                Seq::empty()
            }),
        ),
        encode_utf8(name).len() > 16 ==> write_login(version, out, name, id).result is Err,
{
    let w = write_login(version, out, name, id);
    let b = text(name) + (if version is V_1_19 || version is V_1_19_1 || version is V_1_19_3 {
        seq![0u8]
    } else {
        Seq::empty()
    }) + (if version_rank(version) >= version_rank(JavaMinecraftVersion::V_1_20_2) {
        id
    } else if version_rank(version) >= version_rank(JavaMinecraftVersion::V_1_19_1) {
        seq![1u8] + id
    } else {
        Seq::empty()
    });
    if encode_utf8(name).len() <= 16 {
        assert(w.out =~= out + b);
    }
}

/// The number of a player who is not signed in is the digest of the name behind `OfflinePlayer:`, marked as
/// such: the upper half of one byte is three and the two upper bits of another are one and zero.
pub proof fn lemma_offline_number(name: Seq<char>, i: int)
    requires
        md5_of(encode_utf8("OfflinePlayer:"@ + name)).len() == 16,
        0 <= i < 16,
    ensures
        ({
            let d = md5_of(encode_utf8("OfflinePlayer:"@ + name));
            let u = offline_uuid(name);
            &&& u.len() == 16
            &&& (i != 6 && i != 8 ==> u[i] == d[i])
            &&& u[6] / 16 == 3 && u[6] % 16 == d[6] % 16
            &&& u[8] / 64 == 2 && u[8] % 64 == d[8] % 64
            &&& uuid_or_offline(name, None) == u
            &&& uuid_or_offline(name, Some(d)) == d
        }),
{
}

/// A description of a stack is sent as whether there is one, its item, its count, the components that were
/// added with their checksums, and those that were removed.
pub proof fn lemma_stack_hash_layout(h: HashView)
    requires
        h.components.added.len() <= i32::MAX,
        h.components.removed.len() <= i32::MAX,
    ensures
        stack_hash_bytes(None) == seq![0u8],
        stack_hash_bytes(Some(h)) == seq![1u8] + var_int(h.item_id) + var_int(h.count) + (var_int(h.components.added.len() as int) + in_turn(
            h.components.added.len(),
            |k: int| var_int(h.components.added[k].0) + be_signed(h.components.added[k].1, 4),
            0,
        ) + var_int(h.components.removed.len() as int) + in_turn(h.components.removed.len(), |k: int| var_int(h.components.removed[k]), 0)),
{
    lemma_small_count(h.components.added.len());
    lemma_small_count(h.components.removed.len());
    lemma_pairs_in_turn(h.components.added, h.components.added.len());
    lemma_numbers_in_turn(h.components.removed, h.components.removed.len());
}

proof fn lemma_pairs_in_turn(l: Seq<(int, int)>, n: nat)
    requires
        n <= l.len(),
    ensures
        pairs_bytes(l, n) == in_turn(n, |k: int| var_int(l[k].0) + be_signed(l[k].1, 4), 0),
    decreases n,
{
    let f = |k: int| var_int(l[k].0) + be_signed(l[k].1, 4);
    if n > 0 {
        lemma_pairs_in_turn(l, (n - 1) as nat);
        lemma_one_more((n - 1) as nat, f, 0);
        assert(pairs_bytes(l, n) =~= in_turn((n - 1) as nat, f, 0) + f(n - 1));
    }
}

proof fn lemma_numbers_in_turn(l: Seq<int>, n: nat)
    requires
        n <= l.len(),
    ensures
        numbers_bytes(l, n) == in_turn(n, |k: int| var_int(l[k]), 0),
    decreases n,
{
    let f = |k: int| var_int(l[k]);
    if n > 0 {
        lemma_numbers_in_turn(l, (n - 1) as nat);
        lemma_one_more((n - 1) as nat, f, 0);
        assert(numbers_bytes(l, n) =~= in_turn((n - 1) as nat, f, 0) + f(n - 1));
    }
}

proof fn lemma_escaped_upto(t: Seq<char>, n: nat)
    requires
        n <= t.len(),
        forall|i: int| 0 <= i < t.len() ==> (#[trigger] t[i]) != '"' && t[i] != '\\' && t[i] as int >= 32,
    ensures
        escaped_text(t, n) =~= t.take(n as int),
    decreases n,
{
    if n > 0 {
        lemma_escaped_upto(t, (n - 1) as nat);
        assert(t[n - 1] != '"');
        assert(escaped(t[n - 1]) == seq![t[n - 1]]);
        assert(t.take(n as int) =~= t.take(n - 1).push(t[n - 1]));
    }
}

/// A text without quotation marks, backslashes and control characters stands as it is between quotation
/// marks; those characters stand behind a backslash.
pub proof fn lemma_quoted(t: Seq<char>)
    ensures
        (forall|i: int| 0 <= i < t.len() ==> (#[trigger] t[i]) != '"' && t[i] != '\\' && t[i] as int >= 32) ==> quoted(t) == seq!['"'] + t + seq!['"'],
        escaped('"') == seq!['\\', '"'],
        escaped('\\') == seq!['\\', '\\'],
        escaped('\n') == seq!['\\', 'n'],
        escaped('\t') == seq!['\\', 't'],
        escaped('\r') == seq!['\\', 'r'],
        literal_json(t) == seq!['{', '"', 't', 'e', 'x', 't', '"', ':'] + quoted(t) + seq!['}'],
{
    if forall|i: int| 0 <= i < t.len() ==> (#[trigger] t[i]) != '"' && t[i] != '\\' && t[i] as int >= 32 {
        lemma_escaped_upto(t, t.len());
        assert(t.take(t.len() as int) =~= t);
    }
    reveal_strlit("text");
    let w = "text"@;
    lemma_escaped_upto(w, w.len());
    assert(w.take(w.len() as int) =~= seq!['t', 'e', 'x', 't']);
    assert(seq!['{'] + quoted(w) + seq![':'] =~= seq!['{', '"', 't', 'e', 'x', 't', '"', ':']);
}

/// The text of an icon counts without the head of a data address.
pub proof fn lemma_raw_icon(t: Seq<char>)
    ensures
        raw_icon("data:image/png;base64,"@ + t) == t,
        !"data:image/png;base64,"@.is_prefix_of(t) ==> raw_icon(t) == t,
{
    let h = "data:image/png;base64,"@;
    assert((h + t).subrange(0, h.len() as int) =~= h);
    assert((h + t).skip(h.len() as int) =~= t);
}

/// A server is described by its message and its icon; since 1.19.4 the icon is sent as its bytes, and before
/// as its text, behind the message, with what was switched off.
pub proof fn lemma_server_layout(version: JavaMinecraftVersion, out: Seq<u8>, p: CServerData, o: Seq<u8>, icon: Seq<u8>)
    ensures
        version_rank(version) >= version_rank(JavaMinecraftVersion::V_1_19_4) && put_component(out, p.motd, version) == put(out, o) ==> {
            let w = write_server_data(version, out, p);
            match p.icon_base64 {
                None => w == put(out + o, seq![0u8]),
                Some(t) => match base64_bytes(raw_icon(t@)) {
                    Some(b) => b.len() <= i32::MAX ==> w == put(out + o + seq![1u8] + var_int(b.len() as int), b),
                    None => w == put(out + o + seq![1u8], var_int(0)),
                },
            }
        },
        version_rank(version) < version_rank(JavaMinecraftVersion::V_1_19_4) && put_component(out + seq![1u8], p.motd, version) == put(
            out + seq![1u8],
            o,
        ) && p.icon_base64 is None ==> write_server_data(version, out, p) == put(
            out + seq![1u8] + o + seq![0u8],
            (if version_rank(version) < version_rank(JavaMinecraftVersion::V_1_19_3) {
                seq![0u8]
            } else {
                Seq::empty()
            }) + since_then(version, JavaMinecraftVersion::V_1_19_1, seq![0u8]),
        ),
{
}

/// A waypoint that is set points at its position under its number; one that is taken away points nowhere.
pub proof fn lemma_waypoint_fields(w: TrackedWaypoint, identifier: [u8; 16], icon: WaypointIcon, position: BlockPos)
    ensures
        points_at(w, identifier, icon, position) <==> w.identifier == WaypointIdentifier::Uuid(identifier) && w.icon == icon && w.target
            == WaypointTarget::Position(position),
        points_nowhere(w, identifier) <==> w.identifier == WaypointIdentifier::Uuid(identifier) && w.icon.style@ == "minecraft:default"@
            && w.icon.color is None && w.target is Empty,
{
}

/// Texts that are too long are refused: a chat message of more than 256 bytes, or 100 before 1.11, a command
/// of more than 256, and a name of more than 16.
pub proof fn lemma_long_texts_are_refused(version: JavaMinecraftVersion, t: Seq<char>, r: Seq<u8>)
    requires
        encode_utf8(t).len() <= i32::MAX,
    ensures
        encode_utf8(t).len() > 256 ==> read_chat(version, text(t) + r).value is Err && read_signed_command(version, text(t) + r).value is Err,
        encode_utf8(t).len() > 100 && version_rank(version) < version_rank(JavaMinecraftVersion::V_1_11) ==> read_chat(
            version,
            text(t) + r,
        ).value is Err,
        encode_utf8(t).len() > 16 ==> read_login(version, text(t) + r).value is Err,
{
    let n = encode_utf8(t).len();
    if n > 256 {
        crate::byte_laws::lemma_text_layout(t, 256, r);
        crate::byte_laws::lemma_text_layout(t, 100, r);
    }
    if n > 100 {
        crate::byte_laws::lemma_text_layout(t, 100, r);
    }
    if n > 16 {
        crate::byte_laws::lemma_text_layout(t, 16, r);
    }
}

/// A count of checksums above 256 is refused, and so are particles above two.
pub proof fn lemma_small_numbers(n: int, s: Seq<u8>, b: u8, out_of_bounds: &'static str)
    requires
        i32::MIN <= n <= i32::MAX,
    ensures
        read_bounded(var_int(n) + s, out_of_bounds).value is Ok <==> 0 <= n <= 256,
        read_particles(seq![b] + s).value is Ok <==> b <= 2,
{
    crate::wire::lemma_read_var_int(n, s);
    crate::byte_laws::lemma_flag_is_read(seq![b] + s);
}

/// The digits of hexadecimal numbers.
pub open spec fn digits() -> Seq<char> {
    seq!['0', '1', '2', '3', '4', '5', '6', '7', '8', '9', 'a', 'b', 'c', 'd', 'e', 'f']
}

/// Control characters stand as four hexadecimal digits, but for five of them that have a letter; any other
/// character stands as it is.
pub proof fn lemma_escaped_controls(c: char)
    ensures
        (c as int) < 32 && c as int != 8 && c as int != 9 && c as int != 10 && c as int != 12 && c as int != 13 ==> escaped(c) == seq![
            '\\',
            'u',
            '0',
            '0',
            digits()[c as int / 16],
            digits()[c as int % 16],
        ],
        c as int == 8 ==> escaped(c) == seq!['\\', 'b'],
        c as int == 12 ==> escaped(c) == seq!['\\', 'f'],
        c as int >= 32 && c != '"' && c != '\\' ==> escaped(c) == seq![c],
{
}

} // verus!
