//! The packets that the server sends.
use std::sync::Arc;
use vstd::prelude::*;
use crate::bytes::{be_bytes, be_signed, put_be, put_slice};
use crate::codec::{count_as_i32, encodes};
use crate::elements::BlockPos;
use crate::errors::{cannot_write, cannot_write_value, wmsg, wmsg_value, ReadingError, WritingError};
use crate::format::{put, put_text, refuse, written_count, Sink};
use crate::identifier::strip_prefix;
use crate::item_stack::Item;
use crate::json::{put_component, read_component, FormView, SentText, TextForm};
use crate::registry::{item_id_out, Registries};
use crate::server_packets::{after, bytes_when, follow, reads, since};
use crate::version::{version_rank, JavaMinecraftVersion};
use crate::wire::{done, flag, get_bool, get_var_int, read_bool, read_var_int, var_int, write_bool, write_i32, write_i64_be, write_string, write_string_bounded, write_u32, write_u8, write_var_int, Outcome, MAX_TEXT_BYTES};

verus! {

/// Keeps the connection up during configuration.
#[derive(Clone, Copy, Debug)]
pub struct CKeepAlive {
    pub keep_alive_id: i64,
}

impl CKeepAlive {
    /// The packet.
    pub fn new(keep_alive_id: i64) -> (r: Self)
        ensures
            r.keep_alive_id == keep_alive_id,
    {
        CKeepAlive { keep_alive_id }
    }

    /// Appends the packet.
    pub fn write_packet_data(&self, out: &mut Vec<u8>, version: &JavaMinecraftVersion) -> (r: Result<(), WritingError>)
        ensures
            r == Ok::<(), WritingError>(()),
            final(out)@ == old(out)@ + be_signed(self.keep_alive_id as int, 8),
    {
        write_i64_be(out, self.keep_alive_id);
        Ok(())
    }
}

/// The biomes of a chunk.
#[derive(Debug)]
pub struct ChunkBiomeEntry {
    pub chunk_x: i32,
    pub chunk_z: i32,
    pub data: Vec<u8>,
}

/// The biomes of chunks.
#[derive(Debug)]
pub struct CChunksBiomes {
    pub chunks: Vec<ChunkBiomeEntry>,
}

/// The bytes of the first `n` chunks.
pub open spec fn chunk_bytes(v: Seq<ChunkBiomeEntry>, n: nat) -> Seq<u8>
    decreases n,
{
    if n == 0 || n > v.len() {
        Seq::empty()
    } else {
        chunk_bytes(v, (n - 1) as nat) + be_signed(v[n - 1].chunk_z as int, 4) + be_signed(v[n - 1].chunk_x as int, 4) + var_int(
            written_count(v[n - 1].data@.len()),
        ) + v[n - 1].data@
    }
}

impl CChunksBiomes {
    /// The packet.
    pub fn new(chunks: Vec<ChunkBiomeEntry>) -> (r: Self)
        ensures
            r.chunks == chunks,
    {
        CChunksBiomes { chunks }
    }

    /// Appends the packet.
    pub fn write_packet_data(&self, out: &mut Vec<u8>, version: &JavaMinecraftVersion) -> (r: Result<(), WritingError>)
        ensures
            r == Ok::<(), WritingError>(()),
            final(out)@ == old(out)@ + var_int(written_count(self.chunks@.len())) + chunk_bytes(self.chunks@, self.chunks@.len()),
    {
        write_var_int(out, count_as_i32(self.chunks.len()));
        let ghost head = out@;
        assert(out@ =~= head + chunk_bytes(self.chunks@, 0));
        let mut i: usize = 0;
        while i < self.chunks.len()
            invariant
                i <= self.chunks.len(),
                out@ == head + chunk_bytes(self.chunks@, i as nat),
            decreases self.chunks.len() - i,
        {
            write_i32(out, self.chunks[i].chunk_z);
            write_i32(out, self.chunks[i].chunk_x);
            write_var_int(out, count_as_i32(self.chunks[i].data.len()));
            put_slice(out, self.chunks[i].data.as_slice());
            assert(out@ =~= head + chunk_bytes(self.chunks@, (i + 1) as nat));
            i += 1;
        }
        Ok(())
    }
}

/// The bytes of a position of three numbers.
pub open spec fn position_bytes(p: BlockPos) -> Seq<u8> {
    var_int(p.x as int) + var_int(p.y as int) + var_int(p.z as int)
}

/// What a position of three numbers is.
pub open spec fn position_view(p: BlockPos) -> (int, int, int) {
    (p.x as int, p.y as int, p.z as int)
}

/// Reading a position of three numbers.
pub open spec fn read_position(s: Seq<u8>) -> Outcome<(int, int, int)> {
    follow(
        read_var_int(s),
        |x: int, s: Seq<u8>|
            follow(
                read_var_int(s),
                |y: int, s: Seq<u8>| follow(read_var_int(s), |z: int, s: Seq<u8>| done((x, y, z), s)),
            ),
    )
}

/// Appends a position of three numbers.
fn put_position(out: &mut Vec<u8>, p: &BlockPos)
    ensures
        final(out)@ == old(out)@ + position_bytes(*p),
{
    let ghost before = out@;
    write_var_int(out, p.x);
    write_var_int(out, p.y);
    write_var_int(out, p.z);
    assert(out@ =~= before + position_bytes(*p));
}

/// Reads a position of three numbers.
fn get_position(seq: &mut &[u8]) -> (r: Result<BlockPos, ReadingError>)
    ensures
        reads(read_position(old(seq)@), r, final(seq)@, |p: BlockPos| position_view(p)),
{
    let x: i32 = get_var_int(seq)?;
    let y: i32 = get_var_int(seq)?;
    let z: i32 = get_var_int(seq)?;
    Ok(BlockPos { x, y, z })
}

/// Highlights a place of a game test.
#[derive(Clone, Copy, Debug)]
pub struct CGameTestHighlightPos {
    pub absolute_pos: BlockPos,
    pub relative_pos: BlockPos,
}

impl CGameTestHighlightPos {
    /// The packet.
    pub fn new(absolute_pos: BlockPos, relative_pos: BlockPos) -> (r: Self)
        ensures
            r.absolute_pos == absolute_pos && r.relative_pos == relative_pos,
    {
        CGameTestHighlightPos { absolute_pos, relative_pos }
    }

    /// Appends the packet.
    pub fn write_packet_data(&self, out: &mut Vec<u8>, version: &JavaMinecraftVersion) -> (r: Result<(), WritingError>)
        ensures
            r == Ok::<(), WritingError>(()),
            final(out)@ == old(out)@ + position_bytes(self.absolute_pos) + position_bytes(self.relative_pos),
    {
        put_position(out, &self.absolute_pos);
        put_position(out, &self.relative_pos);
        Ok(())
    }

    /// Reads the packet.
    pub fn read(seq: &mut &[u8], version: &JavaMinecraftVersion) -> (r: Result<Self, ReadingError>)
        ensures
            reads(
                follow(
                    read_position(old(seq)@),
                    |a: (int, int, int), s: Seq<u8>| follow(read_position(s), |b: (int, int, int), s: Seq<u8>| done((a, b), s)),
                ),
                r,
                final(seq)@,
                |p: Self| (position_view(p.absolute_pos), position_view(p.relative_pos)),
            ),
    {
        let absolute_pos = get_position(seq)?;
        let relative_pos = get_position(seq)?;
        Ok(CGameTestHighlightPos { absolute_pos, relative_pos })
    }
}

/// Ends the connection during configuration.
#[derive(Debug)]
pub struct CConfigDisconnect {
    pub reason: SentText,
}

impl CConfigDisconnect {
    /// The packet.
    pub fn new(reason: SentText) -> (r: Self)
        ensures
            r.reason == reason,
    {
        CConfigDisconnect { reason }
    }

    /// Appends the packet.
    pub fn write_packet_data(&self, out: &mut Vec<u8>, version: &JavaMinecraftVersion) -> (r: Result<(), WritingError>)
        ensures
            encodes(put_component(old(out)@, self.reason, *version), r, final(out)@),
    {
        self.reason.write_for_version(out, version)
    }
}

/// Offers a resource pack during configuration.
#[derive(Debug)]
pub struct CConfigAddResourcePack {
    pub uuid: [u8; 16],
    pub url: String,
    pub hash: String,
    pub forced: bool,
    pub prompt_message: Option<SentText>,
}

/// How many bytes the hash of a resource pack may have.
pub const MAX_HASH_BYTES: usize = 40;

/// Appending a text component that may be absent.
pub open spec fn put_opt_component(out: Seq<u8>, t: Option<SentText>, version: JavaMinecraftVersion) -> Sink {
    match t {
        Some(t) => put_component(out + flag(true), t, version),
        None => put(out, flag(false)),
    }
}

/// Appending the offer of a resource pack.
pub open spec fn write_pack(version: JavaMinecraftVersion, out: Seq<u8>, p: CConfigAddResourcePack) -> Sink {
    after(
        put_text(
            out + bytes_when(since(version, JavaMinecraftVersion::V_1_20_3), p.uuid@),
            p.url@,
            MAX_TEXT_BYTES as nat,
        ),
        |out: Seq<u8>|
            after(
                put_text(out, p.hash@, MAX_HASH_BYTES as nat),
                |out: Seq<u8>| put_opt_component(out + flag(p.forced), p.prompt_message, version),
            ),
    )
}

impl CConfigAddResourcePack {
    /// The packet.
    pub fn new(uuid: [u8; 16], url: String, hash: String, forced: bool, prompt_message: Option<SentText>) -> (r: Self)
        ensures
            r.uuid == uuid && r.url == url && r.hash == hash && r.forced == forced && r.prompt_message == prompt_message,
    {
        CConfigAddResourcePack { uuid, url, hash, forced, prompt_message }
    }

    /// Appends the packet; a hash of more than forty bytes is refused.
    pub fn write_packet_data(&self, out: &mut Vec<u8>, version: &JavaMinecraftVersion) -> (r: Result<(), WritingError>)
        ensures
            encodes(write_pack(*version, old(out)@, *self), r, final(out)@),
    {
        if version.at_least(JavaMinecraftVersion::V_1_20_3) {
            put_slice(out, self.uuid.as_slice());
        } else {
            assert(out@ =~= out@ + Seq::<u8>::empty());
        }
        write_string(out, self.url.as_str())?;
        write_string_bounded(out, self.hash.as_str(), MAX_HASH_BYTES)?;
        write_bool(out, self.forced);
        match &self.prompt_message {
            Some(prompt) => {
                write_bool(out, true);
                prompt.write_for_version(out, version)
            },
            None => {
                write_bool(out, false);
                Ok(())
            },
        }
    }
}

/// The state of the block of a game test.
#[derive(Debug)]
pub struct CTestInstanceBlockStatus {
    pub status: SentText,
    pub size: Option<BlockPos>,
}

/// The state of the block of a game test as it came.
#[derive(Debug)]
pub struct ReadBlockStatus {
    pub status: TextForm,
    pub size: Option<BlockPos>,
}

/// Reading the state of the block of a game test.
pub open spec fn read_status(version: JavaMinecraftVersion, s: Seq<u8>) -> Outcome<(FormView, Option<(int, int, int)>)> {
    follow(
        read_component(version, s),
        |t: FormView, s: Seq<u8>|
            follow(
                read_bool(s),
                |present: bool, s: Seq<u8>|
                    if present {
                        follow(read_position(s), |p: (int, int, int), s: Seq<u8>| done((t, Some(p)), s))
                    } else {
                        done((t, None), s)
                    },
            ),
    )
}

impl CTestInstanceBlockStatus {
    /// The packet.
    pub fn new(status: SentText, size: Option<BlockPos>) -> (r: Self)
        ensures
            r.status == status && r.size == size,
    {
        CTestInstanceBlockStatus { status, size }
    }

    /// Appends the packet.
    pub fn write_packet_data(&self, out: &mut Vec<u8>, version: &JavaMinecraftVersion) -> (r: Result<(), WritingError>)
        ensures
            encodes(
                after(
                    put_component(old(out)@, self.status, *version),
                    |out: Seq<u8>|
                        put(
                            out,
                            match self.size {
                                Some(p) => flag(true) + position_bytes(p),
                                None => flag(false),
                            },
                        ),
                ),
                r,
                final(out)@,
            ),
    {
        self.status.write_for_version(out, version)?;
        let ghost before = out@;
        match &self.size {
            Some(p) => {
                write_bool(out, true);
                put_position(out, p);
                assert(out@ =~= before + (flag(true) + position_bytes(*p)));
            },
            None => {
                write_bool(out, false);
            },
        }
        Ok(())
    }

    /// Reads the packet.
    pub fn read(seq: &mut &[u8], version: &JavaMinecraftVersion) -> (r: Result<ReadBlockStatus, ReadingError>)
        ensures
            reads(
                read_status(*version, old(seq)@),
                r,
                final(seq)@,
                |p: ReadBlockStatus|
                    (
                        p.status@,
                        match p.size {
                            Some(b) => Some(position_view(b)),
                            None => None,
                        },
                    ),
            ),
    {
        let status = TextForm::read(seq, version)?;
        let mut size: Option<BlockPos> = None;
        if get_bool(seq)? {
            size = Some(get_position(seq)?);
        }
        Ok(ReadBlockStatus { status, size })
    }
}

/// The bytes that [`decode_base64`] gets from a text in base 64.
pub uninterp spec fn base64_bytes(t: Seq<char>) -> Option<Seq<u8>>;

/// Calls `decode` of `base64`'s standard engine, whose result depends on the text alone; it is named
/// and not described.
#[verifier::external_body]
fn decode_base64(t: &str) -> (r: Option<Vec<u8>>)
    ensures
        match r {
            Some(b) => base64_bytes(t@) == Some(b@),
            None => base64_bytes(t@) is None,
        },
{
    base64::Engine::decode(&base64::engine::general_purpose::STANDARD, t).ok()
}

/// What the server tells about itself.
#[derive(Debug)]
pub struct CServerData {
    pub motd: SentText,
    pub icon_base64: Option<String>,
}

/// The text of an icon without the head of a data address.
pub open spec fn raw_icon(t: Seq<char>) -> Seq<char> {
    if "data:image/png;base64,"@.is_prefix_of(t) {
        t.skip("data:image/png;base64,"@.len() as int)
    } else {
        t
    }
}

/// Appending the bytes of an icon; none where the text could not be decoded.
pub open spec fn put_icon_bytes(out: Seq<u8>, b: Option<Seq<u8>>) -> Sink {
    match b {
        Some(b) => if b.len() > i32::MAX {
            refuse(wmsg_value("{} isn't representable as a VarInt", b.len() as int), out)
        } else {
            put(out + var_int(b.len() as int), b)
        },
        None => put(out, var_int(0)),
    }
}

/// Appends the bytes of an icon; none where the text could not be decoded.
pub fn write_icon_bytes(out: &mut Vec<u8>, bytes: &Option<Vec<u8>>) -> (r: Result<(), WritingError>)
    ensures
        encodes(
            put_icon_bytes(
                old(out)@,
                match *bytes {
                    Some(b) => Some(b@),
                    None => None,
                },
            ),
            r,
            final(out)@,
        ),
{
    match bytes {
        Some(b) => {
            if b.len() > 0x7fff_ffff {
                return Err(cannot_write_value("{} isn't representable as a VarInt", b.len() as i128));
            }
            write_var_int(out, b.len() as i32);
            put_slice(out, b.as_slice());
        },
        None => {
            write_var_int(out, 0);
        },
    }
    Ok(())
}

/// Appending what the server tells about itself.
pub open spec fn write_server_data(version: JavaMinecraftVersion, out: Seq<u8>, p: CServerData) -> Sink {
    if since(version, JavaMinecraftVersion::V_1_19_4) {
        after(
            put_component(out, p.motd, version),
            |out: Seq<u8>|
                match p.icon_base64 {
                    Some(icon) => put_icon_bytes(out + flag(true), base64_bytes(raw_icon(icon@))),
                    None => put(out, flag(false)),
                },
        )
    } else {
        after(
            put_component(out + flag(true), p.motd, version),
            |out: Seq<u8>|
                after(
                    match p.icon_base64 {
                        Some(icon) => put_text(out + flag(true), icon@, MAX_TEXT_BYTES as nat),
                        None => put(out, flag(false)),
                    },
                    |out: Seq<u8>|
                        put(
                            out,
                            bytes_when(!since(version, JavaMinecraftVersion::V_1_19_3), flag(false)) + bytes_when(
                                since(version, JavaMinecraftVersion::V_1_19_1),
                                flag(false),
                            ),
                        ),
                ),
        )
    }
}

impl CServerData {
    /// The packet.
    pub fn new(motd: SentText, icon_base64: Option<String>) -> (r: Self)
        ensures
            r.motd == motd && r.icon_base64 == icon_base64,
    {
        CServerData { motd, icon_base64 }
    }

    /// Appends the packet.
    pub fn write_packet_data(&self, out: &mut Vec<u8>, version: &JavaMinecraftVersion) -> (r: Result<(), WritingError>)
        ensures
            encodes(write_server_data(*version, old(out)@, *self), r, final(out)@),
    {
        if version.at_least(JavaMinecraftVersion::V_1_19_4) {
            self.motd.write_for_version(out, version)?;
            match &self.icon_base64 {
                Some(icon) => {
                    write_bool(out, true);
                    let raw: String = match strip_prefix(icon.as_str(), "data:image/png;base64,") {
                        Some(rest) => rest,
                        None => icon.clone(),
                    };
                    write_icon_bytes(out, &decode_base64(raw.as_str()))
                },
                None => {
                    write_bool(out, false);
                    Ok(())
                },
            }
        } else {
            write_bool(out, true);
            self.motd.write_for_version(out, version)?;
            match &self.icon_base64 {
                Some(icon) => {
                    write_bool(out, true);
                    write_string(out, icon.as_str())?;
                },
                None => {
                    write_bool(out, false);
                },
            }
            if !version.at_least(JavaMinecraftVersion::V_1_19_3) {
                write_bool(out, false);
            }
            if version.at_least(JavaMinecraftVersion::V_1_19_1) {
                write_bool(out, false);
            }
            assert(out@ =~= write_server_data(*version, old(out)@, *self).out);
            Ok(())
        }
    }
}

/// What happens to a waypoint.
#[derive(Clone, Copy, Debug, PartialEq, Eq, Structural)]
pub enum WaypointOperation {
    Track,
    Untrack,
    Update,
}

/// Where a waypoint points.
#[derive(Clone, Copy, Debug)]
pub enum WaypointTarget {
    Position(BlockPos),
    Chunk { x: i32, z: i32 },
    /// An angle, as the bit pattern of a 32-bit floating-point number.
    Azimuth(u32),
    Empty,
}

/// How a waypoint looks.
#[derive(Debug)]
pub struct WaypointIcon {
    pub style: String,
    /// The colour, as `0xRRGGBB`.
    pub color: Option<u32>,
}

/// What names a waypoint.
#[derive(Debug)]
pub enum WaypointIdentifier {
    Uuid([u8; 16]),
    String(String),
}

/// A waypoint.
#[derive(Debug)]
pub struct TrackedWaypoint {
    pub identifier: WaypointIdentifier,
    pub icon: WaypointIcon,
    pub target: WaypointTarget,
}

/// Tells the client about a waypoint.
#[derive(Debug)]
pub struct CWaypoint {
    pub operation: WaypointOperation,
    pub waypoint: TrackedWaypoint,
}

/// The number of an operation.
pub open spec fn operation_id(op: WaypointOperation) -> int {
    match op {
        WaypointOperation::Track => 0,
        WaypointOperation::Untrack => 1,
        WaypointOperation::Update => 2,
    }
}

/// Whether a waypoint points at a position under an identifier.
pub open spec fn points_at(w: TrackedWaypoint, identifier: [u8; 16], icon: WaypointIcon, position: BlockPos) -> bool {
    w.identifier == WaypointIdentifier::Uuid(identifier) && w.icon == icon && w.target == WaypointTarget::Position(position)
}

/// Whether a waypoint points nowhere under an identifier.
pub open spec fn points_nowhere(w: TrackedWaypoint, identifier: [u8; 16]) -> bool {
    w.identifier == WaypointIdentifier::Uuid(identifier) && w.icon.style@ == "minecraft:default"@ && w.icon.color is None
        && w.target == WaypointTarget::Empty
}

impl TrackedWaypoint {
    /// A waypoint that points nowhere.
    pub fn empty(identifier: [u8; 16]) -> (r: Self)
        ensures
            points_nowhere(r, identifier),
    {
        TrackedWaypoint {
            identifier: WaypointIdentifier::Uuid(identifier),
            icon: WaypointIcon { style: "minecraft:default".to_owned(), color: None },
            target: WaypointTarget::Empty,
        }
    }

    /// A waypoint that points at a position.
    pub fn set_position(identifier: [u8; 16], icon: WaypointIcon, position: BlockPos) -> (r: Self)
        ensures
            points_at(r, identifier, icon, position),
    {
        TrackedWaypoint {
            identifier: WaypointIdentifier::Uuid(identifier),
            icon,
            target: WaypointTarget::Position(position),
        }
    }
}

/// The bytes of a colour: red, green and blue, and in version 1.21.2 one more in front of them.
pub open spec fn color_bytes(version: JavaMinecraftVersion, color: u32) -> Seq<u8> {
    if version_rank(version) == version_rank(JavaMinecraftVersion::V_1_21_2) {
        be_bytes(color as nat, 4)
    } else {
        be_bytes((color % 0x100_0000) as nat, 3)
    }
}

/// The bytes of a colour that may be absent.
pub open spec fn opt_color_bytes(version: JavaMinecraftVersion, color: Option<u32>) -> Seq<u8> {
    match color {
        Some(c) => flag(true) + color_bytes(version, c),
        None => flag(false),
    }
}

/// Appends a colour that may be absent.
fn put_color(out: &mut Vec<u8>, color: Option<u32>, version: &JavaMinecraftVersion)
    ensures
        final(out)@ == old(out)@ + opt_color_bytes(*version, color),
{
    let ghost before = out@;
    match color {
        Some(c) => {
            write_bool(out, true);
            if version.at_least(JavaMinecraftVersion::V_1_21_2) && JavaMinecraftVersion::V_1_21_2.at_least(*version) {
                write_u32(out, c);
            } else {
                put_be(out, (c % 0x100_0000) as u128, 3);
            }
            assert(out@ =~= before + (flag(true) + color_bytes(*version, c)));
        },
        None => {
            write_bool(out, false);
        },
    }
}

/// Appends where a waypoint points.
fn put_target(out: &mut Vec<u8>, target: &WaypointTarget)
    ensures
        final(out)@ == old(out)@ + target_bytes(*target),
{
    let ghost before = out@;
    match target {
        WaypointTarget::Empty => {
            write_var_int(out, 0);
        },
        WaypointTarget::Position(p) => {
            write_var_int(out, 1);
            put_position(out, p);
        },
        WaypointTarget::Chunk { x, z } => {
            write_var_int(out, 2);
            write_var_int(out, *x);
            write_var_int(out, *z);
        },
        WaypointTarget::Azimuth(bits) => {
            write_var_int(out, 3);
            write_u32(out, *bits);
        },
    }
    assert(out@ =~= before + target_bytes(*target));
}

/// The bytes of where a waypoint points.
pub open spec fn target_bytes(t: WaypointTarget) -> Seq<u8> {
    match t {
        WaypointTarget::Empty => var_int(0),
        WaypointTarget::Position(p) => var_int(1) + position_bytes(p),
        WaypointTarget::Chunk { x, z } => var_int(2) + var_int(x as int) + var_int(z as int),
        WaypointTarget::Azimuth(bits) => var_int(3) + be_bytes(bits as nat, 4),
    }
}

/// Appending what names a waypoint.
pub open spec fn put_identifier(out: Seq<u8>, id: WaypointIdentifier) -> Sink {
    match id {
        WaypointIdentifier::Uuid(b) => put(out + flag(true), b@),
        WaypointIdentifier::String(t) => put_text(out + flag(false), t@, MAX_TEXT_BYTES as nat),
    }
}

/// Appending the news of a waypoint.
pub open spec fn write_waypoint(version: JavaMinecraftVersion, out: Seq<u8>, p: CWaypoint) -> Sink {
    after(
        put_identifier(out + var_int(operation_id(p.operation)), p.waypoint.identifier),
        |out: Seq<u8>|
            after(
                put_text(out, p.waypoint.icon.style@, MAX_TEXT_BYTES as nat),
                |out: Seq<u8>|
                    put(
                        out,
                        opt_color_bytes(version, p.waypoint.icon.color) + target_bytes(p.waypoint.target),
                    ),
            ),
    )
}

impl CWaypoint {
    /// The packet.
    pub fn new(operation: WaypointOperation, waypoint: TrackedWaypoint) -> (r: Self)
        ensures
            r.operation == operation && r.waypoint == waypoint,
    {
        CWaypoint { operation, waypoint }
    }

    /// Takes a waypoint away.
    pub fn remove(identifier: [u8; 16]) -> (r: Self)
        ensures
            r.operation == WaypointOperation::Untrack && points_nowhere(r.waypoint, identifier),
    {
        CWaypoint { operation: WaypointOperation::Untrack, waypoint: TrackedWaypoint::empty(identifier) }
    }

    /// Adds a waypoint that points at a position.
    pub fn add_position(identifier: [u8; 16], icon: WaypointIcon, position: BlockPos) -> (r: Self)
        ensures
            r.operation == WaypointOperation::Track && points_at(r.waypoint, identifier, icon, position),
    {
        CWaypoint { operation: WaypointOperation::Track, waypoint: TrackedWaypoint::set_position(identifier, icon, position) }
    }

    /// Moves a waypoint to a position.
    pub fn update_position(identifier: [u8; 16], icon: WaypointIcon, position: BlockPos) -> (r: Self)
        ensures
            r.operation == WaypointOperation::Update && points_at(r.waypoint, identifier, icon, position),
    {
        CWaypoint { operation: WaypointOperation::Update, waypoint: TrackedWaypoint::set_position(identifier, icon, position) }
    }

    /// Appends the packet.
    pub fn write_packet_data(&self, out: &mut Vec<u8>, version: &JavaMinecraftVersion) -> (r: Result<(), WritingError>)
        ensures
            encodes(write_waypoint(*version, old(out)@, *self), r, final(out)@),
    {
        let operation: i32 = match self.operation {
            WaypointOperation::Track => 0,
            WaypointOperation::Untrack => 1,
            WaypointOperation::Update => 2,
        };
        write_var_int(out, operation);
        match &self.waypoint.identifier {
            WaypointIdentifier::Uuid(b) => {
                write_bool(out, true);
                put_slice(out, b.as_slice());
            },
            WaypointIdentifier::String(t) => {
                write_bool(out, false);
                write_string(out, t.as_str())?;
            },
        }
        write_string(out, self.waypoint.icon.style.as_str())?;
        let ghost before = out@;
        put_color(out, self.waypoint.icon.color, version);
        put_target(out, &self.waypoint.target);
        assert(out@ =~= before + (opt_color_bytes(*version, self.waypoint.icon.color) + target_bytes(self.waypoint.target)));
        Ok(())
    }
}

/// What is shown in a slot.
#[derive(Debug)]
pub enum SlotDisplay {
    Empty,
    Item(Arc<Item>),
}

/// What is shown of a recipe.
#[derive(Debug)]
pub enum RecipeDisplay {
    Shapeless { ingredients: Vec<SlotDisplay>, result: SlotDisplay, crafting_station: SlotDisplay },
    Shaped { width: i32, height: i32, ingredients: Vec<SlotDisplay>, result: SlotDisplay, crafting_station: SlotDisplay },
}

/// The bytes of what is shown in a slot.
pub open spec fn slot_display_bytes(regs: Registries, version: JavaMinecraftVersion, d: SlotDisplay) -> Seq<u8> {
    match d {
        SlotDisplay::Empty => var_int(0),
        SlotDisplay::Item(item) => var_int(4) + var_int(item_id_out(regs, item.id as int, version)),
    }
}

/// The bytes of what is shown in the first `n` slots.
pub open spec fn slots_bytes(regs: Registries, version: JavaMinecraftVersion, l: Seq<SlotDisplay>, n: nat) -> Seq<u8>
    decreases n,
{
    if n == 0 || n > l.len() {
        Seq::empty()
    } else {
        slots_bytes(regs, version, l, (n - 1) as nat) + slot_display_bytes(regs, version, l[n - 1])
    }
}

/// The bytes of a counted list of slots.
pub open spec fn counted_slots(regs: Registries, version: JavaMinecraftVersion, l: Seq<SlotDisplay>) -> Seq<u8> {
    var_int(written_count(l.len())) + slots_bytes(regs, version, l, l.len())
}

/// The bytes of what is shown of a recipe.
pub open spec fn recipe_display_bytes(regs: Registries, version: JavaMinecraftVersion, d: RecipeDisplay) -> Seq<u8> {
    match d {
        RecipeDisplay::Shapeless { ingredients, result, crafting_station } => var_int(0) + counted_slots(
            regs,
            version,
            ingredients@,
        ) + slot_display_bytes(regs, version, result) + slot_display_bytes(regs, version, crafting_station),
        RecipeDisplay::Shaped { width, height, ingredients, result, crafting_station } => var_int(1) + var_int(width as int)
            + var_int(height as int) + counted_slots(regs, version, ingredients@) + slot_display_bytes(regs, version, result)
            + slot_display_bytes(regs, version, crafting_station),
    }
}

/// Appends what is shown in a slot.
fn put_slot_display(out: &mut Vec<u8>, d: &SlotDisplay, version: JavaMinecraftVersion, regs: &Registries)
    ensures
        final(out)@ == old(out)@ + slot_display_bytes(*regs, version, *d),
{
    let ghost before = out@;
    match d {
        SlotDisplay::Empty => {
            write_var_int(out, 0);
        },
        SlotDisplay::Item(item) => {
            write_var_int(out, 4);
            write_var_int(out, regs.remap_item_id_for_version(item.id, version) as i32);
            assert(out@ =~= before + slot_display_bytes(*regs, version, *d));
        },
    }
}

/// Appends a counted list of slots.
fn put_slots(out: &mut Vec<u8>, l: &Vec<SlotDisplay>, version: JavaMinecraftVersion, regs: &Registries)
    ensures
        final(out)@ == old(out)@ + counted_slots(*regs, version, l@),
{
    let ghost before = out@;
    write_var_int(out, count_as_i32(l.len()));
    let ghost head = out@;
    assert(out@ =~= head + slots_bytes(*regs, version, l@, 0));
    let mut i: usize = 0;
    while i < l.len()
        invariant
            i <= l.len(),
            out@ == head + slots_bytes(*regs, version, l@, i as nat),
        decreases l.len() - i,
    {
        put_slot_display(out, &l[i], version, regs);
        assert(out@ =~= head + slots_bytes(*regs, version, l@, (i + 1) as nat));
        i += 1;
    }
    assert(out@ =~= before + counted_slots(*regs, version, l@));
}

/// Appends what is shown of a recipe.
pub fn write_recipe_display(out: &mut Vec<u8>, d: &RecipeDisplay, version: JavaMinecraftVersion, regs: &Registries)
    ensures
        final(out)@ == old(out)@ + recipe_display_bytes(*regs, version, *d),
{
    let ghost before = out@;
    match d {
        RecipeDisplay::Shapeless { ingredients, result, crafting_station } => {
            write_var_int(out, 0);
            put_slots(out, ingredients, version, regs);
            put_slot_display(out, result, version, regs);
            put_slot_display(out, crafting_station, version, regs);
        },
        RecipeDisplay::Shaped { width, height, ingredients, result, crafting_station } => {
            write_var_int(out, 1);
            write_var_int(out, *width);
            write_var_int(out, *height);
            put_slots(out, ingredients, version, regs);
            put_slot_display(out, result, version, regs);
            put_slot_display(out, crafting_station, version, regs);
        },
    }
    assert(out@ =~= before + recipe_display_bytes(*regs, version, *d));
}

/// Shows a recipe in the slots of a window without its items.
#[derive(Debug)]
pub struct CPlaceGhostRecipe {
    pub window_id: u8,
    pub recipe_id: String,
    pub display: Option<RecipeDisplay>,
}

/// The bytes of the number of a window.
pub open spec fn window_bytes(version: JavaMinecraftVersion, id: u8) -> Seq<u8> {
    if since(version, JavaMinecraftVersion::V_1_21_2) {
        var_int(id as int)
    } else {
        be_bytes(id as nat, 1)
    }
}

/// Appending a recipe that is shown without its items.
pub open spec fn write_ghost_recipe(regs: Registries, version: JavaMinecraftVersion, out: Seq<u8>, p: CPlaceGhostRecipe) -> Sink {
    let typed = since(version, JavaMinecraftVersion::V_26_2);
    if p.display is Some && !typed {
        refuse(wmsg("Typed PlaceGhostRecipe requires 26.2 or newer"), out)
    } else if !typed {
        put_text(out + window_bytes(version, p.window_id), p.recipe_id@, MAX_TEXT_BYTES as nat)
    } else {
        match p.display {
            Some(d) => put(out + window_bytes(version, p.window_id), recipe_display_bytes(regs, version, d)),
            None => refuse(
                wmsg("26.2 PlaceGhostRecipe requires a typed RecipeDisplay; string adapter is unsupported"),
                out + window_bytes(version, p.window_id),
            ),
        }
    }
}

impl CPlaceGhostRecipe {
    /// The packet with the name of a recipe, which older versions know.
    pub fn new(window_id: u8, recipe_id: String) -> (r: Self)
        ensures
            r.window_id == window_id && r.recipe_id == recipe_id && r.display is None,
    {
        CPlaceGhostRecipe { window_id, recipe_id, display: None }
    }

    /// The packet with what is shown of a recipe.
    pub fn with_display(window_id: u8, display: RecipeDisplay) -> (r: Self)
        ensures
            r.window_id == window_id && r.recipe_id@ == Seq::<char>::empty() && r.display == Some(display),
    {
        CPlaceGhostRecipe { window_id, recipe_id: crate::elements::empty_text(), display: Some(display) }
    }

    /// Appends the packet.
    pub fn write_packet_data(&self, out: &mut Vec<u8>, version: &JavaMinecraftVersion, regs: &Registries) -> (r: Result<
        (),
        WritingError,
    >)
        ensures
            encodes(write_ghost_recipe(*regs, *version, old(out)@, *self), r, final(out)@),
    {
        let typed: bool = version.at_least(JavaMinecraftVersion::V_26_2);
        if self.display.is_some() && !typed {
            return Err(cannot_write("Typed PlaceGhostRecipe requires 26.2 or newer"));
        }
        if version.at_least(JavaMinecraftVersion::V_1_21_2) {
            write_var_int(out, self.window_id as i32);
        } else {
            write_u8(out, self.window_id);
        }
        if typed {
            match &self.display {
                Some(d) => {
                    write_recipe_display(out, d, *version, regs);
                    Ok(())
                },
                None => Err(
                    cannot_write("26.2 PlaceGhostRecipe requires a typed RecipeDisplay; string adapter is unsupported"),
                ),
            }
        } else {
            write_string(out, self.recipe_id.as_str())
        }
    }
}

} // verus!
