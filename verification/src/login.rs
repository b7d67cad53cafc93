//! The first packet of a login, and the identifiers of players that are not signed in.
use vstd::prelude::*;
use vstd::utf8::encode_utf8;
use crate::codec::encodes;
use crate::errors::{message, msg, told, ReadingError, WritingError};
use crate::bytes::put_slice;
use crate::format::{put, put_text, Sink};
use crate::server_packets::{after, bytes_when, follow, only_if, since};
use crate::text::concat;
use crate::version::JavaMinecraftVersion;
use crate::wire::{done, fail, flag, get_bool, get_bytes, get_i64_be, get_str_bounded, get_var_int, read_bool, read_bytes, read_signed, read_text, read_var_int, write_bool, write_string_bounded, Outcome};

verus! {

/// The MD5 digest that [`md5`] gets for some bytes.
pub uninterp spec fn md5_of(bytes: Seq<u8>) -> Seq<u8>;

/// Calls `md5::compute`, whose result depends on the bytes alone; it is named and not described.
#[verifier::external_body]
fn md5(bytes: &[u8]) -> (r: [u8; 16])
    ensures
        r@ == md5_of(bytes@),
{
    md5::compute(bytes).0
}

/// Sixteen bytes with the marks of an identifier that was made from a digest: version 3 in the high
/// half of the seventh byte, and `10` in the two highest bits of the ninth.
pub open spec fn digest_uuid(b: Seq<u8>) -> Seq<u8> {
    b.update(6, (b[6] % 16 + 0x30) as u8).update(8, (b[8] % 64 + 0x80) as u8)
}

/// Calls `uuid::Builder::from_md5_bytes`, which keeps the bytes but for the marks of the version
/// and the variant.
#[verifier::external_body]
fn from_md5_bytes(b: [u8; 16]) -> (r: [u8; 16])
    ensures
        r@ == digest_uuid(b@),
{
    uuid::Builder::from_md5_bytes(b).into_uuid().into_bytes()
}

/// The identifier that a digest makes.
pub fn uuid_of_digest(digest: [u8; 16]) -> (r: [u8; 16])
    ensures
        r@ == digest_uuid(digest@),
{
    from_md5_bytes(digest)
}

/// The identifier of a player with a name that is not signed in.
pub open spec fn offline_uuid(name: Seq<char>) -> Seq<u8> {
    digest_uuid(md5_of(encode_utf8("OfflinePlayer:"@ + name)))
}

/// The identifier of a player with a name that is not signed in.
pub fn offline_player_uuid(name: &str) -> (r: [u8; 16])
    ensures
        r@ == offline_uuid(name@),
{
    let full = concat("OfflinePlayer:", name);
    uuid_of_digest(md5(full.as_str().as_bytes()))
}

/// The first packet of a login.
#[derive(Debug)]
pub struct SLoginStart {
    pub name: String,
    pub uuid: [u8; 16],
}

/// Reading a counted run of bytes, to skip it.
pub open spec fn skip_counted(s: Seq<u8>, negative: &'static str) -> Outcome<()> {
    follow(
        read_var_int(s),
        |n: int, s: Seq<u8>|
            if n < 0 {
                fail(msg(negative), s)
            } else {
                follow(read_bytes(s, n as nat), |b: Seq<u8>, s: Seq<u8>| done((), s))
            },
    )
}

/// Reading the key that some versions send behind the name, to skip it.
pub open spec fn skip_key(s: Seq<u8>) -> Outcome<()> {
    follow(
        read_bool(s),
        |present: bool, s: Seq<u8>|
            if !present {
                done((), s)
            } else {
                follow(
                    read_signed(s, 8),
                    |expires: int, s: Seq<u8>|
                        follow(
                            skip_counted(s, "Negative public key length"),
                            |u: (), s: Seq<u8>| skip_counted(s, "Negative signature length"),
                        ),
                )
            },
    )
}

/// Whether a version sends a key behind the name.
pub open spec fn sends_key(version: JavaMinecraftVersion) -> bool {
    since(version, JavaMinecraftVersion::V_1_19) && since(JavaMinecraftVersion::V_1_19_3, version)
}

/// Reading the identifier of a player.
pub open spec fn read_uuid(version: JavaMinecraftVersion, s: Seq<u8>) -> Outcome<Option<Seq<u8>>> {
    if since(version, JavaMinecraftVersion::V_1_20_2) {
        follow(read_bytes(s, 16), |b: Seq<u8>, s: Seq<u8>| done(Some(b), s))
    } else if since(version, JavaMinecraftVersion::V_1_19_1) {
        follow(
            read_bool(s),
            |present: bool, s: Seq<u8>|
                if present {
                    follow(read_bytes(s, 16), |b: Seq<u8>, s: Seq<u8>| done(Some(b), s))
                } else {
                    done(None, s)
                },
        )
    } else {
        done(None, s)
    }
}

/// Reading the first packet of a login: the name and the identifier, which may be missing.
pub open spec fn read_login(version: JavaMinecraftVersion, s: Seq<u8>) -> Outcome<(Seq<char>, Option<Seq<u8>>)> {
    follow(
        read_text(s, 16),
        |name: Seq<char>, s: Seq<u8>|
            follow(
                only_if(sends_key(version), skip_key(s), (), s),
                |u: (), s: Seq<u8>| follow(read_uuid(version, s), |id: Option<Seq<u8>>, s: Seq<u8>| done((name, id), s)),
            ),
    )
}

/// The identifier of a player; one that is missing is made from the name.
pub open spec fn uuid_or_offline(name: Seq<char>, id: Option<Seq<u8>>) -> Seq<u8> {
    match id {
        Some(b) => b,
        None => offline_uuid(name),
    }
}

/// Appending the first packet of a login.
pub open spec fn write_login(version: JavaMinecraftVersion, out: Seq<u8>, name: Seq<char>, id: Seq<u8>) -> Sink {
    after(
        put_text(out, name, 16),
        |out: Seq<u8>|
            put(
                out,
                bytes_when(sends_key(version), flag(false)) + if since(version, JavaMinecraftVersion::V_1_20_2) {
                    id
                } else if since(version, JavaMinecraftVersion::V_1_19_1) {
                    flag(true) + id
                } else {
                    Seq::<u8>::empty()
                },
            ),
    )
}

/// Skips a counted run of bytes.
fn pass_counted(seq: &mut &[u8], negative: &'static str) -> (r: Result<(), ReadingError>)
    ensures
        (Outcome { value: told(r), rest: final(seq)@ }) == skip_counted(old(seq)@, negative),
{
    let n: i32 = get_var_int(seq)?;
    if n < 0 {
        return Err(message(negative));
    }
    let _run = get_bytes(seq, n as usize)?;
    Ok(())
}

/// Sixteen bytes as an array.
fn sixteen(b: &[u8]) -> (r: [u8; 16])
    requires
        b@.len() == 16,
    ensures
        r@ == b@,
{
    let r: [u8; 16] = [
        b[0],
        b[1],
        b[2],
        b[3],
        b[4],
        b[5],
        b[6],
        b[7],
        b[8],
        b[9],
        b[10],
        b[11],
        b[12],
        b[13],
        b[14],
        b[15],
    ];
    assert(r@ =~= b@);
    r
}

/// Reads an identifier.
pub fn get_uuid_bytes(seq: &mut &[u8]) -> (r: Result<[u8; 16], ReadingError>)
    ensures
        match r {
            Ok(b) => read_bytes(old(seq)@, 16) == done(b@, final(seq)@),
            Err(e) => read_bytes(old(seq)@, 16) == fail::<Seq<u8>>(e@, final(seq)@),
        },
{
    let b = get_bytes(seq, 16)?;
    assert(b@.len() == 16);
    Ok(sixteen(b))
}

impl SLoginStart {
    /// Reads the packet; an identifier that is missing is made from the name.
    pub fn read(seq: &mut &[u8], version: &JavaMinecraftVersion) -> (r: Result<Self, ReadingError>)
        ensures
            match read_login(*version, old(seq)@) {
                Outcome { value: Ok((name, id)), rest } => rest == final(seq)@ && r is Ok && r->Ok_0.name@ == name && r->Ok_0.uuid@
                    == uuid_or_offline(name, id),
                Outcome { value: Err(e), rest } => rest == final(seq)@ && r is Err && r->Err_0@ == e,
            },
    {
        let name = get_str_bounded(seq, 16)?;
        if version.at_least(JavaMinecraftVersion::V_1_19) && JavaMinecraftVersion::V_1_19_3.at_least(*version) {
            if get_bool(seq)? {
                let _expires: i64 = get_i64_be(seq)?;
                pass_counted(seq, "Negative public key length")?;
                pass_counted(seq, "Negative signature length")?;
            }
        }
        let mut uuid: Option<[u8; 16]> = None;
        if version.at_least(JavaMinecraftVersion::V_1_20_2) {
            uuid = Some(get_uuid_bytes(seq)?);
        } else if version.at_least(JavaMinecraftVersion::V_1_19_1) {
            if get_bool(seq)? {
                uuid = Some(get_uuid_bytes(seq)?);
            }
        }
        let uuid: [u8; 16] = match uuid {
            Some(b) => b,
            None => offline_player_uuid(name.as_str()),
        };
        Ok(SLoginStart { name, uuid })
    }

    /// Appends the packet.
    pub fn write_packet_data(&self, out: &mut Vec<u8>, version: &JavaMinecraftVersion) -> (r: Result<(), WritingError>)
        ensures
            encodes(write_login(*version, old(out)@, self.name@, self.uuid@), r, final(out)@),
    {
        write_string_bounded(out, self.name.as_str(), 16)?;
        if version.at_least(JavaMinecraftVersion::V_1_19) && JavaMinecraftVersion::V_1_19_3.at_least(*version) {
            write_bool(out, false);
        }
        if version.at_least(JavaMinecraftVersion::V_1_20_2) {
            put_slice(out, self.uuid.as_slice());
        } else if version.at_least(JavaMinecraftVersion::V_1_19_1) {
            write_bool(out, true);
            put_slice(out, self.uuid.as_slice());
        }
        assert(out@ =~= write_login(*version, old(out)@, self.name@, self.uuid@).out);
        Ok(())
    }
}

} // verus!
