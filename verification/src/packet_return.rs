//! Packets come back: reading what was written gives the packet again.
use vstd::prelude::*;
use crate::bytes::{be_bytes, be_signed, lemma_pow256, lemma_regroup};
use crate::format::{put, written_count};
use crate::json::{form_for, put_component, read_component, FormView, SentText};
use crate::nbt_codec::tag_bytes;
use crate::nbt_tag::Tag;
use crate::client_packets::{position_bytes, position_view, read_position, read_status};
use crate::elements::BlockPos;
use crate::leaf_return::{is_i32, lemma_nbt, lemma_small_count, tag_returns};
use crate::login::{read_login, sends_key, write_login};
use crate::server_packets::{bytes_when, chat_bound, read_chat, read_checksum, read_game_rules, read_information, read_rules, read_seen, read_signature, read_signature_count, read_signatures, read_signed_command, since, write_chat, write_information, write_rules, write_signatures, write_signed_command, ChatMessage, ClientInformation, Seen, SignedCommand, MAX_ARGUMENT_SIGNATURES};
use crate::stack_hash::{hashes_bytes, numbers_bytes, pairs_bytes, read_hashes, read_numbers, read_pairs, read_stack_hash, stack_hash_bytes, ComponentsView, HashView};
use crate::version::JavaMinecraftVersion;
use crate::wire::{done, flag, groups, lemma_read_bool, lemma_read_bytes, lemma_read_signed, lemma_read_text, lemma_read_unsigned, lemma_read_var_int, text, text_fits, var_int, MAX_TEXT_BYTES};

verus! {

/// Whether a number fits 64 bits.
pub open spec fn is_i64(v: int) -> bool {
    i64::MIN <= v <= i64::MAX
}

proof fn lemma_text_len(t: Seq<char>)
    ensures
        text(t).len() >= 1,
{
    reveal_with_fuel(groups, 2);
}

/// Whether the texts of game rules are not too long.
pub open spec fn rules_fit(l: Seq<(Seq<char>, Seq<char>)>) -> bool {
    l.len() <= i32::MAX && forall|i: int|
        0 <= i < l.len() ==> text_fits((#[trigger] l[i]).0, MAX_TEXT_BYTES as nat) && text_fits(l[i].1, MAX_TEXT_BYTES as nat)
}

/// The bytes of the game rules from the `i`th on.
pub open spec fn rules_bytes(l: Seq<(Seq<char>, Seq<char>)>, i: int) -> Seq<u8> {
    write_rules(Seq::empty(), l, i).out
}

#[verifier::rlimit(60)]
proof fn lemma_rules(out: Seq<u8>, l: Seq<(Seq<char>, Seq<char>)>, i: int, r: Seq<u8>)
    requires
        rules_fit(l),
        0 <= i <= l.len(),
    ensures
        write_rules(out, l, i) == put(out, rules_bytes(l, i)),
        read_rules((l.len() - i) as nat, rules_bytes(l, i) + r, l.take(i)) == done(l, r),
        rules_bytes(l, i).len() >= 2 * (l.len() - i),
    decreases l.len() - i,
{
    let e = Seq::<u8>::empty();
    lemma_regroup(out, out, out);
    lemma_regroup(r, r, r);
    if i < l.len() {
        let a = text(l[i].0);
        let b = text(l[i].1);
        let tail = rules_bytes(l, i + 1);
        lemma_rules(out + a + b, l, i + 1, r);
        lemma_rules(e + a + b, l, i + 1, r);
        lemma_regroup(a, b, tail);
        lemma_regroup(out, a, b);
        lemma_regroup(out, a + b, tail);
        lemma_regroup(a + b, tail, r);
        lemma_regroup(a, b, tail + r);
        assert(rules_bytes(l, i) == a + b + tail);
        lemma_text_len(l[i].0);
        lemma_text_len(l[i].1);
        lemma_read_text(l[i].0, MAX_TEXT_BYTES as nat, b + (tail + r));
        lemma_read_text(l[i].1, MAX_TEXT_BYTES as nat, tail + r);
        assert(l.take(i).push(l[i]) =~= l.take(i + 1));
    } else {
        assert(l.take(i) =~= l);
    }
}

/// Game rules come back.
pub proof fn lemma_game_rules_return(out: Seq<u8>, l: Seq<(Seq<char>, Seq<char>)>, r: Seq<u8>)
    requires
        rules_fit(l),
    ensures
        ({
            let b = var_int(l.len() as int) + rules_bytes(l, 0);
            write_rules(out + var_int(written_count(l.len())), l, 0) == put(out, b) && read_game_rules(b + r) == done(l, r)
        }),
{
    let n = var_int(l.len() as int);
    let b = rules_bytes(l, 0);
    lemma_small_count(l.len());
    lemma_rules(out + n, l, 0, r);
    lemma_regroup(out, n, b);
    lemma_regroup(n, b, r);
    lemma_read_var_int(l.len() as int, b + r);
    assert(l.take(0) =~= Seq::empty());
}

/// Whether signatures have their usual sizes.
pub open spec fn signatures_fit(l: Seq<(Seq<char>, Seq<u8>)>) -> bool {
    l.len() <= MAX_ARGUMENT_SIGNATURES && forall|i: int|
        0 <= i < l.len() ==> text_fits((#[trigger] l[i]).0, 16) && l[i].1.len() == 256
}

/// The bytes of the signatures from the `i`th on.
pub open spec fn signatures_bytes(l: Seq<(Seq<char>, Seq<u8>)>, i: int) -> Seq<u8> {
    write_signatures(Seq::empty(), l, i).out
}

proof fn lemma_signatures(out: Seq<u8>, l: Seq<(Seq<char>, Seq<u8>)>, i: int, r: Seq<u8>)
    requires
        signatures_fit(l),
        0 <= i <= l.len(),
    ensures
        write_signatures(out, l, i) == put(out, signatures_bytes(l, i)),
        read_signatures((l.len() - i) as nat, signatures_bytes(l, i) + r, l.take(i)) == done(l, r),
        signatures_bytes(l, i).len() >= 257 * (l.len() - i),
    decreases l.len() - i,
{
    let e = Seq::<u8>::empty();
    lemma_regroup(out, out, out);
    lemma_regroup(r, r, r);
    if i < l.len() {
        let a = text(l[i].0);
        let b = l[i].1;
        let tail = signatures_bytes(l, i + 1);
        lemma_signatures(out + a + b, l, i + 1, r);
        lemma_signatures(e + a + b, l, i + 1, r);
        lemma_regroup(a, b, tail);
        lemma_regroup(out, a, b);
        lemma_regroup(out, a + b, tail);
        lemma_regroup(a + b, tail, r);
        lemma_regroup(a, b, tail + r);
        assert(signatures_bytes(l, i) == a + b + tail);
        lemma_text_len(l[i].0);
        lemma_read_text(l[i].0, 16, b + (tail + r));
        lemma_read_bytes(b, tail + r);
        assert(l.take(i).push(l[i]) =~= l.take(i + 1));
    } else {
        assert(l.take(i) =~= l);
    }
}

/// Whether a command with signed arguments has the sizes that a version reads; what the version does
/// not send has its usual value.
pub open spec fn command_fits(version: JavaMinecraftVersion, v: SignedCommand) -> bool {
    text_fits(v.command, 256) && is_i64(v.timestamp) && is_i64(v.salt) && signatures_fit(v.signatures) && is_i32(v.message_count)
        && v.acknowledged.len() == 3 && 0 <= v.checksum <= 255 && (!since(version, JavaMinecraftVersion::V_1_21_5) ==> v.checksum == 0)
}

/// The bytes of a command with signed arguments.
pub open spec fn command_bytes(version: JavaMinecraftVersion, v: SignedCommand) -> Seq<u8> {
    text(v.command) + (be_signed(v.timestamp, 8) + (be_signed(v.salt, 8) + (var_int(v.signatures.len() as int) + (signatures_bytes(
        v.signatures,
        0,
    ) + (var_int(v.message_count) + (v.acknowledged + bytes_when(
        since(version, JavaMinecraftVersion::V_1_21_5),
        be_bytes(v.checksum as nat, 1),
    )))))))
}

proof fn lemma_command_written(version: JavaMinecraftVersion, out: Seq<u8>, v: SignedCommand)
    requires
        command_fits(version, v),
    ensures
        write_signed_command(version, out, v) == put(out, command_bytes(version, v)),
{
    let c = text(v.command);
    let t = be_signed(v.timestamp, 8);
    let s = be_signed(v.salt, 8);
    let n = var_int(v.signatures.len() as int);
    let b = signatures_bytes(v.signatures, 0);
    let m = var_int(v.message_count);
    let a = v.acknowledged;
    let z = bytes_when(since(version, JavaMinecraftVersion::V_1_21_5), be_bytes(v.checksum as nat, 1));
    lemma_signatures(out + c + t + s + n, v.signatures, 0, Seq::empty());
    lemma_regroup(out + c + t + s + n + b + m, a, z);
    lemma_regroup(out + c + t + s + n + b, m, a + z);
    lemma_regroup(out + c + t + s + n, b, m + (a + z));
    lemma_regroup(out + c + t + s, n, b + (m + (a + z)));
    lemma_regroup(out + c + t, s, n + (b + (m + (a + z))));
    lemma_regroup(out + c, t, s + (n + (b + (m + (a + z)))));
    lemma_regroup(out, c, t + (s + (n + (b + (m + (a + z))))));
}

proof fn lemma_command_read(version: JavaMinecraftVersion, v: SignedCommand, r: Seq<u8>)
    requires
        command_fits(version, v),
    ensures
        read_signed_command(version, command_bytes(version, v) + r) == done(v, r),
{
    lemma_pow256();
    let c = text(v.command);
    let t = be_signed(v.timestamp, 8);
    let s = be_signed(v.salt, 8);
    let n = var_int(v.signatures.len() as int);
    let b = signatures_bytes(v.signatures, 0);
    let m = var_int(v.message_count);
    let a = v.acknowledged;
    let z = bytes_when(since(version, JavaMinecraftVersion::V_1_21_5), be_bytes(v.checksum as nat, 1));
    let r7 = z + r;
    let r6 = a + r7;
    let r5 = m + r6;
    let r4 = b + r5;
    let r3 = n + r4;
    let r2 = s + r3;
    let r1 = t + r2;
    lemma_regroup(a, z, r);
    lemma_regroup(m, a + z, r);
    lemma_regroup(b, m + (a + z), r);
    lemma_regroup(n, b + (m + (a + z)), r);
    lemma_regroup(s, n + (b + (m + (a + z))), r);
    lemma_regroup(t, s + (n + (b + (m + (a + z)))), r);
    lemma_regroup(c, t + (s + (n + (b + (m + (a + z))))), r);
    lemma_regroup(r, r, r);
    lemma_read_text(v.command, 256, r1);
    lemma_read_signed(v.timestamp, 8, r2);
    lemma_read_signed(v.salt, 8, r3);
    lemma_read_var_int(v.signatures.len() as int, r4);
    lemma_signatures(Seq::empty(), v.signatures, 0, r5);
    assert(v.signatures.take(0) =~= Seq::empty());
    assert(read_signature_count(r3) == done(v.signatures.len(), r4)) by {
        assert(257 * v.signatures.len() <= r4.len());
        assert(v.signatures.len() <= r4.len() as int / 257);
    }
    lemma_read_var_int(v.message_count, r6);
    lemma_read_bytes(a, r7);
    lemma_read_unsigned(v.checksum as nat, 1, r);
}

/// A command with signed arguments comes back.
pub proof fn lemma_commands_return(version: JavaMinecraftVersion, out: Seq<u8>, v: SignedCommand, r: Seq<u8>)
    requires
        command_fits(version, v),
    ensures
        write_signed_command(version, out, v) == put(out, command_bytes(version, v)),
        read_signed_command(version, command_bytes(version, v) + r) == done(v, r),
{
    lemma_command_written(version, out, v);
    lemma_command_read(version, v, r);
}

/// Whether what a client tells about itself has the sizes that a version reads; what the version does
/// not send has its usual value.
pub open spec fn information_fits(version: JavaMinecraftVersion, v: ClientInformation) -> bool {
    text_fits(v.locale, MAX_TEXT_BYTES as nat) && -128 <= v.view_distance <= 127 && is_i32(v.chat_mode) && 0 <= v.skin_parts <= 255 && is_i32(
        v.main_hand,
    ) && 0 <= v.particle_status <= 2 && (!since(version, JavaMinecraftVersion::V_1_9) ==> v.main_hand == 1) && (!since(
        version,
        JavaMinecraftVersion::V_1_17,
    ) ==> !v.text_filtering) && (!since(version, JavaMinecraftVersion::V_1_18) ==> v.server_listing) && (!since(
        version,
        JavaMinecraftVersion::V_26_2,
    ) ==> v.particle_status == 0)
}

/// The bytes of what a client tells about itself.
pub open spec fn information_bytes(version: JavaMinecraftVersion, v: ClientInformation) -> Seq<u8> {
    text(v.locale) + (be_signed(v.view_distance, 1) + (var_int(v.chat_mode) + (flag(v.chat_colors) + (be_bytes(v.skin_parts as nat, 1) + (
    bytes_when(since(version, JavaMinecraftVersion::V_1_9), var_int(v.main_hand)) + (bytes_when(
        since(version, JavaMinecraftVersion::V_1_17),
        flag(v.text_filtering),
    ) + (bytes_when(since(version, JavaMinecraftVersion::V_1_18), flag(v.server_listing)) + bytes_when(
        since(version, JavaMinecraftVersion::V_26_2),
        be_bytes(v.particle_status as nat, 1),
    ))))))))
}

proof fn lemma_information_written(version: JavaMinecraftVersion, out: Seq<u8>, v: ClientInformation)
    requires
        information_fits(version, v),
    ensures
        write_information(version, out, v) == put(out, information_bytes(version, v)),
{
    let a = text(v.locale);
    let b = be_signed(v.view_distance, 1);
    let c = var_int(v.chat_mode);
    let d = flag(v.chat_colors);
    let e = be_bytes(v.skin_parts as nat, 1);
    let f = bytes_when(since(version, JavaMinecraftVersion::V_1_9), var_int(v.main_hand));
    let g = bytes_when(since(version, JavaMinecraftVersion::V_1_17), flag(v.text_filtering));
    let h = bytes_when(since(version, JavaMinecraftVersion::V_1_18), flag(v.server_listing));
    let i = bytes_when(since(version, JavaMinecraftVersion::V_26_2), be_bytes(v.particle_status as nat, 1));
    let p2 = out + a + b;
    let p3 = p2 + c;
    let p4 = p3 + d;
    let p5 = p4 + e;
    let p6 = p5 + f;
    let p7 = p6 + g;
    lemma_regroup(p7, h, i);
    lemma_regroup(p6, g, h + i);
    lemma_regroup(p5, f, g + (h + i));
    lemma_regroup(p4, e, f + (g + (h + i)));
    lemma_regroup(p3, d, e + (f + (g + (h + i))));
    lemma_regroup(p2, c, d + (e + (f + (g + (h + i)))));
    lemma_regroup(out + a, b, c + (d + (e + (f + (g + (h + i))))));
    lemma_regroup(out, a, b + (c + (d + (e + (f + (g + (h + i)))))));
    lemma_regroup(p7 + h, i, i);
}

proof fn lemma_information_parts(version: JavaMinecraftVersion, v: ClientInformation, r: Seq<u8>)
    ensures
        ({
            let f = bytes_when(since(version, JavaMinecraftVersion::V_1_9), var_int(v.main_hand));
            let g = bytes_when(since(version, JavaMinecraftVersion::V_1_17), flag(v.text_filtering));
            let h = bytes_when(since(version, JavaMinecraftVersion::V_1_18), flag(v.server_listing));
            let i = bytes_when(since(version, JavaMinecraftVersion::V_26_2), be_bytes(v.particle_status as nat, 1));
            information_bytes(version, v) + r == text(v.locale) + (be_signed(v.view_distance, 1) + (var_int(v.chat_mode) + (flag(
                v.chat_colors,
            ) + (be_bytes(v.skin_parts as nat, 1) + (f + (g + (h + (i + r))))))))
        }),
{
    let a = text(v.locale);
    let b = be_signed(v.view_distance, 1);
    let c = var_int(v.chat_mode);
    let d = flag(v.chat_colors);
    let e = be_bytes(v.skin_parts as nat, 1);
    let f = bytes_when(since(version, JavaMinecraftVersion::V_1_9), var_int(v.main_hand));
    let g = bytes_when(since(version, JavaMinecraftVersion::V_1_17), flag(v.text_filtering));
    let h = bytes_when(since(version, JavaMinecraftVersion::V_1_18), flag(v.server_listing));
    let i = bytes_when(since(version, JavaMinecraftVersion::V_26_2), be_bytes(v.particle_status as nat, 1));
    lemma_regroup(h, i, r);
    lemma_regroup(g, h + i, r);
    lemma_regroup(f, g + (h + i), r);
    lemma_regroup(e, f + (g + (h + i)), r);
    lemma_regroup(d, e + (f + (g + (h + i))), r);
    lemma_regroup(c, d + (e + (f + (g + (h + i)))), r);
    lemma_regroup(b, c + (d + (e + (f + (g + (h + i))))), r);
    lemma_regroup(a, b + (c + (d + (e + (f + (g + (h + i)))))), r);
}

#[verifier::rlimit(60)]
proof fn lemma_information_read(version: JavaMinecraftVersion, v: ClientInformation, r: Seq<u8>)
    requires
        information_fits(version, v),
    ensures
        read_information(version, information_bytes(version, v) + r) == done(v, r),
{
    lemma_pow256();
    let f = bytes_when(since(version, JavaMinecraftVersion::V_1_9), var_int(v.main_hand));
    let g = bytes_when(since(version, JavaMinecraftVersion::V_1_17), flag(v.text_filtering));
    let h = bytes_when(since(version, JavaMinecraftVersion::V_1_18), flag(v.server_listing));
    let i = bytes_when(since(version, JavaMinecraftVersion::V_26_2), be_bytes(v.particle_status as nat, 1));
    let r8 = i + r;
    let r7 = h + r8;
    let r6 = g + r7;
    let r5 = f + r6;
    let r4 = be_bytes(v.skin_parts as nat, 1) + r5;
    let r3 = flag(v.chat_colors) + r4;
    let r2 = var_int(v.chat_mode) + r3;
    let r1 = be_signed(v.view_distance, 1) + r2;
    lemma_information_parts(version, v, r);
    lemma_regroup(r, r, r);
    lemma_regroup(r8, r, r);
    lemma_regroup(r7, r, r);
    lemma_regroup(r6, r, r);
    lemma_read_text(v.locale, MAX_TEXT_BYTES as nat, r1);
    lemma_read_signed(v.view_distance, 1, r2);
    lemma_read_var_int(v.chat_mode, r3);
    lemma_read_bool(v.chat_colors, r4);
    lemma_read_unsigned(v.skin_parts as nat, 1, r5);
    lemma_read_var_int(v.main_hand, r6);
    lemma_read_bool(v.text_filtering, r7);
    lemma_read_bool(v.server_listing, r8);
    lemma_read_unsigned(v.particle_status as nat, 1, r);
}

/// What a client tells about itself comes back.
pub proof fn lemma_information_returns(version: JavaMinecraftVersion, out: Seq<u8>, v: ClientInformation, r: Seq<u8>)
    requires
        information_fits(version, v),
    ensures
        write_information(version, out, v) == put(out, information_bytes(version, v)),
        read_information(version, information_bytes(version, v) + r) == done(v, r),
{
    lemma_information_written(version, out, v);
    lemma_information_read(version, v, r);
}

/// Whether a chat message has the sizes that a version reads; what the version does not send has its
/// usual value. Versions from 1.19.1 up to 1.19.3 read more than is written.
pub open spec fn chat_fits(version: JavaMinecraftVersion, v: ChatMessage) -> bool {
    text_fits(v.message, chat_bound(version)) && 0 <= v.checksum <= 255 && (!since(version, JavaMinecraftVersion::V_1_21_5) ==> v.checksum == 0)
        && if since(version, JavaMinecraftVersion::V_1_19) {
        is_i64(v.timestamp) && is_i64(v.salt) && (v.signature matches Some(b) ==> b.len() == 256) && if since(
            version,
            JavaMinecraftVersion::V_1_19_3,
        ) {
            is_i32(v.message_count) && v.acknowledged.len() == 3
        } else {
            !since(version, JavaMinecraftVersion::V_1_19_1) && v.message_count == 0 && v.acknowledged.len() == 0
        }
    } else {
        v.timestamp == 0 && v.salt == 0 && v.signature is None && v.message_count == 0 && v.acknowledged.len() == 0
    }
}

proof fn lemma_chat_tail(version: JavaMinecraftVersion, v: ChatMessage, r: Seq<u8>)
    requires
        0 <= v.checksum <= 255,
        !since(version, JavaMinecraftVersion::V_1_21_5) ==> v.checksum == 0,
    ensures
        read_checksum(
            version,
            ChatMessage { checksum: 0, ..v },
            bytes_when(since(version, JavaMinecraftVersion::V_1_21_5), be_bytes(v.checksum as nat, 1)) + r,
        ) == done(v, r),
{
    lemma_pow256();
    lemma_regroup(r, r, r);
    lemma_read_unsigned(v.checksum as nat, 1, r);
}

/// The bytes of what stands behind the signature of a message.
pub open spec fn seen_bytes(version: JavaMinecraftVersion, v: ChatMessage) -> Seq<u8> {
    if since(version, JavaMinecraftVersion::V_1_19_3) {
        var_int(v.message_count) + v.acknowledged
    } else {
        be_bytes(0, 1)
    }
}

proof fn lemma_seen(version: JavaMinecraftVersion, v: ChatMessage, r: Seq<u8>)
    requires
        chat_fits(version, v),
        since(version, JavaMinecraftVersion::V_1_19),
    ensures
        read_seen(version, seen_bytes(version, v) + r) == done(
            Seen { message_count: v.message_count, acknowledged: v.acknowledged },
            r,
        ),
{
    lemma_pow256();
    if since(version, JavaMinecraftVersion::V_1_19_3) {
        lemma_regroup(var_int(v.message_count), v.acknowledged, r);
        lemma_read_var_int(v.message_count, v.acknowledged + r);
        lemma_read_bytes(v.acknowledged, r);
    } else {
        lemma_read_unsigned(0, 1, r);
        assert(v.acknowledged =~= Seq::empty());
    }
}

/// The bytes of a signature that may be absent.
pub open spec fn signature_bytes(b: Option<Seq<u8>>) -> Seq<u8> {
    match b {
        Some(b) => flag(true) + b,
        None => flag(false),
    }
}

proof fn lemma_signature(b: Option<Seq<u8>>, r: Seq<u8>)
    requires
        b matches Some(b) ==> b.len() == 256,
    ensures
        read_signature(signature_bytes(b) + r) == done(b, r),
{
    match b {
        Some(b) => {
            lemma_regroup(flag(true), b, r);
            lemma_read_bool(true, b + r);
            lemma_read_bytes(b, r);
        },
        None => {
            lemma_read_bool(false, r);
        },
    }
}

/// A chat message comes back.
pub proof fn lemma_chat_returns(version: JavaMinecraftVersion, out: Seq<u8>, v: ChatMessage, r: Seq<u8>)
    requires
        chat_fits(version, v),
    ensures
        ({
            let b = write_chat(version, Seq::empty(), v).out;
            write_chat(version, out, v) == put(out, b) && read_chat(version, b + r) == done(v, r)
        }),
{
    lemma_pow256();
    let e = Seq::<u8>::empty();
    let m = text(v.message);
    let z = bytes_when(since(version, JavaMinecraftVersion::V_1_21_5), be_bytes(v.checksum as nat, 1));
    let b = write_chat(version, e, v).out;
    lemma_chat_tail(version, v, r);
    lemma_regroup(r, r, r);
    lemma_regroup(m, r, r);
    if since(version, JavaMinecraftVersion::V_1_19) {
        let t = be_signed(v.timestamp, 8);
        let s = be_signed(v.salt, 8);
        let g = signature_bytes(v.signature);
        let q = seen_bytes(version, v);
        let body = t + s + g + q;
        assert(bytes_when(true, body) == body);
        lemma_regroup(out, m, body + z);
        assert(b == m + (body + z));
        let r4 = z + r;
        let r3 = q + r4;
        let r2 = g + r3;
        let r1 = s + r2;
        lemma_regroup(m, body + z, r);
        lemma_regroup(body, z, r);
        lemma_regroup(t + s + g, q, r4);
        lemma_regroup(t + s, g, r3);
        lemma_regroup(t, s, r2);
        lemma_read_text(v.message, chat_bound(version), t + r1);
        lemma_read_signed(v.timestamp, 8, r1);
        lemma_read_signed(v.salt, 8, r2);
        lemma_signature(v.signature, r3);
        lemma_seen(version, v, r4);
    } else {
        lemma_regroup(z, r, r);
        lemma_regroup(out, m, z);
        lemma_regroup(m, z, r);
        assert(b == m + z);
        lemma_read_text(v.message, chat_bound(version), z + r);
        assert(v.acknowledged =~= Seq::empty());
    }
}

/// The first packet of a login comes back; versions before 1.19.1 do not send the identifier.
pub proof fn lemma_login_returns(version: JavaMinecraftVersion, out: Seq<u8>, name: Seq<char>, id: Seq<u8>, r: Seq<u8>)
    requires
        text_fits(name, 16),
        id.len() == 16,
    ensures
        ({
            let b = write_login(version, Seq::empty(), name, id).out;
            write_login(version, out, name, id) == put(out, b) && read_login(version, b + r) == done(
                (
                    name,
                    if since(version, JavaMinecraftVersion::V_1_19_1) {
                        Some(id)
                    } else {
                        None
                    },
                ),
                r,
            )
        }),
{
    let e = Seq::<u8>::empty();
    let n = text(name);
    let k = bytes_when(sends_key(version), flag(false));
    let i = if since(version, JavaMinecraftVersion::V_1_20_2) {
        id
    } else if since(version, JavaMinecraftVersion::V_1_19_1) {
        flag(true) + id
    } else {
        e
    };
    let b = write_login(version, e, name, id).out;
    lemma_regroup(n, k, i);
    lemma_regroup(out, n, k + i);
    assert(b == n + (k + i));
    lemma_regroup(n, k + i, r);
    lemma_regroup(k, i, r);
    lemma_regroup(i + r, r, r);
    lemma_regroup(r, r, r);
    lemma_regroup(flag(true), id, r);
    lemma_read_text(name, 16, k + (i + r));
    lemma_read_bool(false, i + r);
    lemma_read_bool(true, id + r);
    lemma_read_bytes(id, r);
}

/// A position of three numbers comes back.
pub proof fn lemma_positions_return(p: BlockPos, r: Seq<u8>)
    ensures
        read_position(position_bytes(p) + r) == done(position_view(p), r),
{
    let x = var_int(p.x as int);
    let y = var_int(p.y as int);
    let z = var_int(p.z as int);
    lemma_regroup(x + y, z, r);
    lemma_regroup(x, y, z + r);
    lemma_read_var_int(p.x as int, y + (z + r));
    lemma_read_var_int(p.y as int, z + r);
    lemma_read_var_int(p.z as int, r);
}

/// The bytes of a position that may be absent.
pub open spec fn size_bytes(p: Option<BlockPos>) -> Seq<u8> {
    match p {
        Some(p) => flag(true) + position_bytes(p),
        None => flag(false),
    }
}

/// Whether the form of a text component comes back.
pub open spec fn form_returns(f: FormView) -> bool {
    match f {
        FormView::Tag(t) => tag_returns(t) && t != Tag::End,
        FormView::Json(j) => text_fits(j, MAX_TEXT_BYTES as nat),
    }
}

/// The bytes of a form of a text component.
pub open spec fn form_bytes(f: FormView) -> Seq<u8> {
    match f {
        FormView::Tag(t) => tag_bytes(t),
        FormView::Json(j) => text(j),
    }
}

/// A text component comes back in the form that its version has.
pub proof fn lemma_text_returns(version: JavaMinecraftVersion, out: Seq<u8>, t: SentText, r: Seq<u8>)
    requires
        form_returns(form_for(t, version)),
    ensures
        put_component(out, t, version) == put(out, form_bytes(form_for(t, version))),
        read_component(version, form_bytes(form_for(t, version)) + r) == done(form_for(t, version), r),
{
    match form_for(t, version) {
        FormView::Tag(t) => {
            lemma_nbt(out, t, r);
        },
        FormView::Json(j) => {
            lemma_read_text(j, MAX_TEXT_BYTES as nat, r);
        },
    }
}

/// The state of the block of a game test comes back in every version: its text, in the form that the
/// version has, and its size.
pub proof fn lemma_status_returns(version: JavaMinecraftVersion, out: Seq<u8>, t: SentText, size: Option<BlockPos>, r: Seq<u8>)
    requires
        form_returns(form_for(t, version)),
    ensures
        put_component(out, t, version) == put(out, form_bytes(form_for(t, version))),
        read_status(version, (form_bytes(form_for(t, version)) + size_bytes(size)) + r) == done(
            (
                form_for(t, version),
                match size {
                    Some(p) => Some(position_view(p)),
                    None => None,
                },
            ),
            r,
        ),
{
    let b = size_bytes(size);
    lemma_text_returns(version, out, t, b + r);
    lemma_regroup(form_bytes(form_for(t, version)), b, r);
    match size {
        Some(p) => {
            lemma_regroup(flag(true), position_bytes(p), r);
            lemma_read_bool(true, position_bytes(p) + r);
            lemma_positions_return(p, r);
        },
        None => {
            lemma_read_bool(false, r);
        },
    }
}

/// The bytes of the pairs from the `i`th on.
pub open spec fn pairs_from(l: Seq<(int, int)>, i: int) -> Seq<u8>
    decreases l.len() - i,
{
    if i < 0 || i >= l.len() {
        Seq::empty()
    } else {
        var_int(l[i].0) + be_signed(l[i].1, 4) + pairs_from(l, i + 1)
    }
}

/// The bytes of the numbers from the `i`th on.
pub open spec fn numbers_from(l: Seq<int>, i: int) -> Seq<u8>
    decreases l.len() - i,
{
    if i < 0 || i >= l.len() {
        Seq::empty()
    } else {
        var_int(l[i]) + numbers_from(l, i + 1)
    }
}

proof fn lemma_pairs_split(l: Seq<(int, int)>, i: nat)
    requires
        i <= l.len(),
    ensures
        pairs_bytes(l, i) + pairs_from(l, i as int) == pairs_bytes(l, l.len()),
    decreases l.len() - i,
{
    if i < l.len() {
        let a = pairs_bytes(l, i);
        let x = var_int(l[i as int].0);
        let y = be_signed(l[i as int].1, 4);
        let tail = pairs_from(l, i as int + 1);
        lemma_pairs_split(l, i + 1);
        lemma_regroup(a + x, y, tail);
        lemma_regroup(a, x, y + tail);
        lemma_regroup(x, y, tail);
    } else {
        lemma_regroup(pairs_bytes(l, i), pairs_bytes(l, i), pairs_bytes(l, i));
    }
}

proof fn lemma_numbers_split(l: Seq<int>, i: nat)
    requires
        i <= l.len(),
    ensures
        numbers_bytes(l, i) + numbers_from(l, i as int) == numbers_bytes(l, l.len()),
    decreases l.len() - i,
{
    if i < l.len() {
        lemma_numbers_split(l, i + 1);
        lemma_regroup(numbers_bytes(l, i), var_int(l[i as int]), numbers_from(l, i as int + 1));
    } else {
        lemma_regroup(numbers_bytes(l, i), numbers_bytes(l, i), numbers_bytes(l, i));
    }
}

proof fn lemma_pairs(l: Seq<(int, int)>, i: int, r: Seq<u8>)
    requires
        0 <= i <= l.len(),
        forall|k: int| 0 <= k < l.len() ==> is_i32((#[trigger] l[k]).0) && is_i32(l[k].1),
    ensures
        read_pairs((l.len() - i) as nat, pairs_from(l, i) + r, l.take(i)) == done(l, r),
    decreases l.len() - i,
{
    lemma_regroup(r, r, r);
    if i < l.len() {
        lemma_pow256();
        let x = var_int(l[i].0);
        let y = be_signed(l[i].1, 4);
        let tail = pairs_from(l, i + 1);
        lemma_pairs(l, i + 1, r);
        lemma_regroup(x + y, tail, r);
        lemma_regroup(x, y, tail + r);
        lemma_read_var_int(l[i].0, y + (tail + r));
        lemma_read_signed(l[i].1, 4, tail + r);
        assert(l.take(i).push(l[i]) =~= l.take(i + 1));
        assert(l[i] == (l[i].0, l[i].1));
    } else {
        assert(l.take(i) =~= l);
    }
}

proof fn lemma_numbers(l: Seq<int>, i: int, r: Seq<u8>)
    requires
        0 <= i <= l.len(),
        forall|k: int| 0 <= k < l.len() ==> is_i32(#[trigger] l[k]),
    ensures
        read_numbers((l.len() - i) as nat, numbers_from(l, i) + r, l.take(i)) == done(l, r),
    decreases l.len() - i,
{
    lemma_regroup(r, r, r);
    if i < l.len() {
        let tail = numbers_from(l, i + 1);
        lemma_numbers(l, i + 1, r);
        lemma_regroup(var_int(l[i]), tail, r);
        lemma_read_var_int(l[i], tail + r);
        assert(l.take(i).push(l[i]) =~= l.take(i + 1));
    } else {
        assert(l.take(i) =~= l);
    }
}

/// Whether a description of components has at most 256 that are added and as many that are removed, and
/// its numbers fit 32 bits.
pub open spec fn hashes_fit(v: ComponentsView) -> bool {
    v.added.len() <= 256 && v.removed.len() <= 256 && (forall|k: int|
        0 <= k < v.added.len() ==> is_i32((#[trigger] v.added[k]).0) && is_i32(v.added[k].1)) && forall|k: int|
        0 <= k < v.removed.len() ==> is_i32(#[trigger] v.removed[k])
}

/// A description of components comes back.
pub proof fn lemma_hashes_return(v: ComponentsView, r: Seq<u8>)
    requires
        hashes_fit(v),
    ensures
        read_hashes(hashes_bytes(v) + r) == done(v, r),
{
    let n = var_int(v.added.len() as int);
    let m = var_int(v.removed.len() as int);
    let a = pairs_from(v.added, 0);
    let b = numbers_from(v.removed, 0);
    lemma_small_count(v.added.len());
    lemma_small_count(v.removed.len());
    lemma_pairs_split(v.added, 0);
    lemma_numbers_split(v.removed, 0);
    lemma_regroup(a, a, a);
    lemma_regroup(b, b, b);
    lemma_regroup(n + a + m, b, r);
    lemma_regroup(n + a, m, b + r);
    lemma_regroup(n, a, m + (b + r));
    lemma_read_var_int(v.added.len() as int, a + (m + (b + r)));
    lemma_pairs(v.added, 0, m + (b + r));
    lemma_read_var_int(v.removed.len() as int, b + r);
    lemma_numbers(v.removed, 0, r);
    assert(v.added.take(0) =~= Seq::empty());
    assert(v.removed.take(0) =~= Seq::empty());
}

/// A description of a stack comes back.
pub proof fn lemma_stack_hashes_return(v: Option<HashView>, r: Seq<u8>)
    requires
        v matches Some(h) ==> is_i32(h.item_id) && is_i32(h.count) && hashes_fit(h.components),
    ensures
        read_stack_hash(stack_hash_bytes(v) + r) == done(v, r),
{
    match v {
        Some(h) => {
            let f = flag(true);
            let i = var_int(h.item_id);
            let c = var_int(h.count);
            let b = hashes_bytes(h.components);
            lemma_regroup(f + i + c, b, r);
            lemma_regroup(f + i, c, b + r);
            lemma_regroup(f, i, c + (b + r));
            lemma_read_bool(true, i + (c + (b + r)));
            lemma_read_var_int(h.item_id, c + (b + r));
            lemma_read_var_int(h.count, b + r);
            lemma_hashes_return(h.components, r);
        },
        None => {
            lemma_read_bool(false, r);
        },
    }
}

} // verus!
