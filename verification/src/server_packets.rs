//! The packets that clients send.
use vstd::prelude::*;
use crate::bytes::{be_bytes, be_signed, put_slice};
use crate::codec::{count_as_i32, encodes};
use crate::errors::{cannot_write_beside, cannot_write_value, limit_exceeded_beside, message, message_value, msg, msg_value, told, too_large_beside, wmsg_beside, wmsg_value, ReadingError, WritingError};
use crate::format::{put, put_text, refuse, written_count, Sink};
use crate::version::{version_rank, JavaMinecraftVersion};
use crate::wire::{done, fail, flag, get_bool, get_bytes, get_i64_be, get_i8, get_str, get_str_bounded, get_u8, get_var_int, read_bool, read_bytes, read_signed, read_text, read_unsigned, read_var_int, to_vec, var_int, write_bool, write_i64_be, write_i8, write_string, write_u8, write_var_int, Outcome, MAX_TEXT_BYTES};

verus! {

/// What follows a read: nothing where it failed.
pub open spec fn follow<A, B>(o: Outcome<A>, f: spec_fn(A, Seq<u8>) -> Outcome<B>) -> Outcome<B> {
    match o {
        Outcome { value: Ok(v), rest } => f(v, rest),
        Outcome { value: Err(e), rest } => fail(e, rest),
    }
}

/// What follows a write: nothing where it failed.
pub open spec fn after(w: Sink, f: spec_fn(Seq<u8>) -> Sink) -> Sink {
    match w {
        Sink { result: Ok(_), out } => f(out),
        Sink { result: Err(e), out } => refuse(e, out),
    }
}

/// Whether a version is another one or came after it.
pub open spec fn since(version: JavaMinecraftVersion, other: JavaMinecraftVersion) -> bool {
    version_rank(version) >= version_rank(other)
}

/// A read that depends on a condition.
pub open spec fn only_if<A>(condition: bool, o: Outcome<A>, otherwise: A, s: Seq<u8>) -> Outcome<A> {
    if condition {
        o
    } else {
        done(otherwise, s)
    }
}

/// Whether the packet and the rest of a read are those of `o`.
pub open spec fn reads<A, B>(o: Outcome<A>, r: Result<B, ReadingError>, rest: Seq<u8>, view: spec_fn(B) -> A) -> bool {
    match r {
        Ok(p) => o == done(view(p), rest),
        Err(e) => o == fail::<A>(e@, rest),
    }
}

/// How many signed arguments a command may have.
pub const MAX_ARGUMENT_SIGNATURES: usize = 8;

/// How many bytes a signed argument takes at the least.
pub const MIN_ARGUMENT_SIGNATURE_WIRE_BYTES: usize = 257;

/// The signature of an argument of a command.
#[derive(Debug)]
pub struct ArgumentSignature {
    pub name: String,
    pub signature: Vec<u8>,
}

/// A command with signed arguments.
#[derive(Debug)]
pub struct SChatCommandSigned {
    pub command: String,
    pub timestamp: i64,
    pub salt: i64,
    pub argument_signatures: Vec<ArgumentSignature>,
    pub message_count: i32,
    pub acknowledged: Vec<u8>,
    pub checksum: u8,
}

/// What a command with signed arguments is.
pub struct SignedCommand {
    pub command: Seq<char>,
    pub timestamp: int,
    pub salt: int,
    pub signatures: Seq<(Seq<char>, Seq<u8>)>,
    pub message_count: int,
    pub acknowledged: Seq<u8>,
    pub checksum: int,
}

/// What signatures are.
pub open spec fn signature_views(v: Seq<ArgumentSignature>) -> Seq<(Seq<char>, Seq<u8>)> {
    Seq::new(v.len(), |i: int| (v[i].name@, v[i].signature@))
}

impl SChatCommandSigned {
    pub open spec fn view(&self) -> SignedCommand {
        SignedCommand {
            command: self.command@,
            timestamp: self.timestamp as int,
            salt: self.salt as int,
            signatures: signature_views(self.argument_signatures@),
            message_count: self.message_count as int,
            acknowledged: self.acknowledged@,
            checksum: self.checksum as int,
        }
    }
}

/// Reading `n` more signatures behind those in `head`.
pub open spec fn read_signatures(n: nat, s: Seq<u8>, head: Seq<(Seq<char>, Seq<u8>)>) -> Outcome<Seq<(Seq<char>, Seq<u8>)>>
    decreases n,
{
    if n == 0 {
        done(head, s)
    } else {
        match read_text(s, 16) {
            Outcome { value: Err(e), rest } => fail(e, rest),
            Outcome { value: Ok(name), rest } => match read_bytes(rest, 256) {
                Outcome { value: Err(e), rest } => fail(e, rest),
                Outcome { value: Ok(b), rest } => read_signatures((n - 1) as nat, rest, head.push((name, b))),
            },
        }
    }
}

/// Reading the number of signatures, which must fit in what is left.
pub open spec fn read_signature_count(s: Seq<u8>) -> Outcome<nat> {
    follow(
        read_var_int(s),
        |n: int, s: Seq<u8>|
            if n < 0 {
                fail(msg("Negative argument signature count"), s)
            } else if n > MAX_ARGUMENT_SIGNATURES {
                fail(too_large_beside("argument signature count {} exceeds official maximum {}", n, MAX_ARGUMENT_SIGNATURES as int), s)
            } else if n > s.len() as int / MIN_ARGUMENT_SIGNATURE_WIRE_BYTES as int {
                fail(too_large_beside("argument signature count {} cannot fit in {} remaining bytes", n, s.len() as int), s)
            } else {
                done(n as nat, s)
            },
    )
}

/// Reading a command with signed arguments.
pub open spec fn read_signed_command(version: JavaMinecraftVersion, s: Seq<u8>) -> Outcome<SignedCommand> {
    follow(
        read_text(s, 256),
        |command: Seq<char>, s: Seq<u8>|
            follow(
                read_signed(s, 8),
                |timestamp: int, s: Seq<u8>|
                    follow(
                        read_signed(s, 8),
                        |salt: int, s: Seq<u8>|
                            follow(
                                read_signature_count(s),
                                |n: nat, s: Seq<u8>|
                                    follow(
                                        read_signatures(n, s, Seq::empty()),
                                        |signatures: Seq<(Seq<char>, Seq<u8>)>, s: Seq<u8>|
                                            follow(
                                                read_var_int(s),
                                                |message_count: int, s: Seq<u8>|
                                                    follow(
                                                        read_bytes(s, 3),
                                                        |acknowledged: Seq<u8>, s: Seq<u8>|
                                                            follow(
                                                                only_if(
                                                                    since(version, JavaMinecraftVersion::V_1_21_5),
                                                                    read_unsigned(s, 1),
                                                                    0,
                                                                    s,
                                                                ),
                                                                |checksum: nat, s: Seq<u8>|
                                                                    done(
                                                                        SignedCommand {
                                                                            command,
                                                                            timestamp,
                                                                            salt,
                                                                            signatures,
                                                                            message_count,
                                                                            acknowledged,
                                                                            checksum: checksum as int,
                                                                        },
                                                                        s,
                                                                    ),
                                                            ),
                                                    ),
                                            ),
                                    ),
                            ),
                    ),
            ),
    )
}

/// Appending the signatures from the `i`th on.
pub open spec fn write_signatures(out: Seq<u8>, l: Seq<(Seq<char>, Seq<u8>)>, i: int) -> Sink
    decreases l.len() - i,
{
    if i < 0 || i >= l.len() {
        Sink { result: Ok(()), out }
    } else {
        match put_text(out, l[i].0, MAX_TEXT_BYTES as nat) {
            Sink { result: Err(e), out } => refuse(e, out),
            Sink { result: Ok(_), out } => write_signatures(out + l[i].1, l, i + 1),
        }
    }
}

/// Appending a command with signed arguments.
pub open spec fn write_signed_command(version: JavaMinecraftVersion, out: Seq<u8>, v: SignedCommand) -> Sink {
    after(
        put_text(out, v.command, MAX_TEXT_BYTES as nat),
        |out: Seq<u8>|
            {
                let out = out + be_signed(v.timestamp, 8) + be_signed(v.salt, 8);
                if v.signatures.len() > MAX_ARGUMENT_SIGNATURES {
                    refuse(wmsg_beside(
                            "argument signature count {} exceeds official maximum {}",
                            v.signatures.len() as int,
                            MAX_ARGUMENT_SIGNATURES as int,
                        ), out)
                } else {
                    after(
                        write_signatures(out + var_int(v.signatures.len() as int), v.signatures, 0),
                        |out: Seq<u8>|
                            put(
                                out + var_int(v.message_count) + v.acknowledged,
                                if since(version, JavaMinecraftVersion::V_1_21_5) {
                                    be_bytes(v.checksum as nat, 1)
                                } else {
                                    Seq::<u8>::empty()
                                },
                            ),
                    )
                }
            },
    )
}

/// Reads signatures.
fn get_signatures(seq: &mut &[u8], n: usize) -> (r: Result<Vec<ArgumentSignature>, ReadingError>)
    ensures
        reads(
            read_signatures(n as nat, old(seq)@, Seq::empty()),
            r,
            final(seq)@,
            |v: Vec<ArgumentSignature>| signature_views(v@),
        ),
{
    let ghost o = read_signatures(n as nat, old(seq)@, Seq::empty());
    let mut out: Vec<ArgumentSignature> = Vec::new();
    assert(signature_views(out@) =~= Seq::empty());
    let mut i: usize = 0;
    while i < n
        invariant
            i <= n,
            o == read_signatures(n as nat, old(seq)@, Seq::empty()),
            o == read_signatures((n - i) as nat, seq@, signature_views(out@)),
        decreases n - i,
    {
        let name = get_str_bounded(seq, 16)?;
        let signature = to_vec(get_bytes(seq, 256)?);
        let ghost before = signature_views(out@);
        let ghost x = (name@, signature@);
        out.push(ArgumentSignature { name, signature });
        assert(signature_views(out@) =~= before.push(x));
        i += 1;
    }
    Ok(out)
}

impl SChatCommandSigned {
    /// Reads the packet.
    pub fn read(seq: &mut &[u8], version: &JavaMinecraftVersion) -> (r: Result<Self, ReadingError>)
        ensures
            reads(read_signed_command(*version, old(seq)@), r, final(seq)@, |p: Self| p@),
    {
        let command = get_str_bounded(seq, 256)?;
        let timestamp: i64 = get_i64_be(seq)?;
        let salt: i64 = get_i64_be(seq)?;
        let n: i32 = get_var_int(seq)?;
        if n < 0 {
            return Err(message("Negative argument signature count"));
        }
        if n as usize > MAX_ARGUMENT_SIGNATURES {
            return Err(limit_exceeded_beside(
                "argument signature count {} exceeds official maximum {}",
                n as i128,
                MAX_ARGUMENT_SIGNATURES as i128,
            ));
        }
        if n as usize > seq.len() / MIN_ARGUMENT_SIGNATURE_WIRE_BYTES {
            return Err(limit_exceeded_beside(
                "argument signature count {} cannot fit in {} remaining bytes",
                n as i128,
                seq.len() as i128,
            ));
        }
        let argument_signatures = get_signatures(seq, n as usize)?;
        let message_count: i32 = get_var_int(seq)?;
        let acknowledged = to_vec(get_bytes(seq, 3)?);
        let checksum: u8 = if version.at_least(JavaMinecraftVersion::V_1_21_5) {
            get_u8(seq)?
        } else {
            0
        };
        Ok(
            SChatCommandSigned {
                command,
                timestamp,
                salt,
                argument_signatures,
                message_count,
                acknowledged,
                checksum,
            },
        )
    }

    /// Appends the packet.
    pub fn write_packet_data(&self, out: &mut Vec<u8>, version: &JavaMinecraftVersion) -> (r: Result<(), WritingError>)
        ensures
            encodes(write_signed_command(*version, old(out)@, self@), r, final(out)@),
    {
        write_string(out, self.command.as_str())?;
        write_i64_be(out, self.timestamp);
        write_i64_be(out, self.salt);
        if self.argument_signatures.len() > MAX_ARGUMENT_SIGNATURES {
            return Err(cannot_write_beside(
                "argument signature count {} exceeds official maximum {}",
                self.argument_signatures.len() as i128,
                MAX_ARGUMENT_SIGNATURES as i128,
            ));
        }
        write_var_int(out, self.argument_signatures.len() as i32);
        put_signatures(&self.argument_signatures, out)?;
        write_var_int(out, self.message_count);
        put_slice(out, self.acknowledged.as_slice());
        if version.at_least(JavaMinecraftVersion::V_1_21_5) {
            write_u8(out, self.checksum);
        } else {
            assert(out@ =~= out@ + Seq::<u8>::empty());
        }
        Ok(())
    }
}

/// Appends signatures.
fn put_signatures(v: &Vec<ArgumentSignature>, out: &mut Vec<u8>) -> (r: Result<(), WritingError>)
    ensures
        encodes(write_signatures(old(out)@, signature_views(v@), 0), r, final(out)@),
{
    let ghost l = signature_views(v@);
    let ghost w = write_signatures(out@, l, 0);
    let mut i: usize = 0;
    while i < v.len()
        invariant
            i <= v.len(),
            l == signature_views(v@),
            w == write_signatures(old(out)@, l, 0),
            w == write_signatures(out@, l, i as int),
        decreases v.len() - i,
    {
        write_string(out, v[i].name.as_str())?;
        put_slice(out, v[i].signature.as_slice());
        i += 1;
    }
    Ok(())
}

/// What a client tells about itself while playing.
#[derive(Debug)]
pub struct SClientInformationPlay {
    pub locale: String,
    pub view_distance: i8,
    pub chat_mode: i32,
    pub chat_colors: bool,
    pub skin_parts: u8,
    pub main_hand: i32,
    pub text_filtering: bool,
    pub server_listing: bool,
    /// Which particles are shown: all, fewer or the fewest.
    pub particle_status: u8,
}

/// What a client tells about itself.
pub struct ClientInformation {
    pub locale: Seq<char>,
    pub view_distance: int,
    pub chat_mode: int,
    pub chat_colors: bool,
    pub skin_parts: int,
    pub main_hand: int,
    pub text_filtering: bool,
    pub server_listing: bool,
    pub particle_status: int,
}

impl SClientInformationPlay {
    pub open spec fn view(&self) -> ClientInformation {
        ClientInformation {
            locale: self.locale@,
            view_distance: self.view_distance as int,
            chat_mode: self.chat_mode as int,
            chat_colors: self.chat_colors,
            skin_parts: self.skin_parts as int,
            main_hand: self.main_hand as int,
            text_filtering: self.text_filtering,
            server_listing: self.server_listing,
            particle_status: self.particle_status as int,
        }
    }
}

/// Reading which particles are shown.
pub open spec fn read_particles(s: Seq<u8>) -> Outcome<nat> {
    follow(
        read_unsigned(s, 1),
        |v: nat, s: Seq<u8>|
            if v > 2 {
                fail(msg_value("Invalid particle status: {}", v as int), s)
            } else {
                done(v, s)
            },
    )
}

/// Reading what a client tells about itself.
pub open spec fn read_information(version: JavaMinecraftVersion, s: Seq<u8>) -> Outcome<ClientInformation> {
    follow(
        read_text(s, MAX_TEXT_BYTES as nat),
        |locale: Seq<char>, s: Seq<u8>|
            follow(
                read_signed(s, 1),
                |view_distance: int, s: Seq<u8>|
                    follow(
                        read_var_int(s),
                        |chat_mode: int, s: Seq<u8>|
                            follow(
                                read_bool(s),
                                |chat_colors: bool, s: Seq<u8>|
                                    follow(
                                        read_unsigned(s, 1),
                                        |skin_parts: nat, s: Seq<u8>|
                                            follow(
                                                only_if(since(version, JavaMinecraftVersion::V_1_9), read_var_int(s), 1, s),
                                                |main_hand: int, s: Seq<u8>|
                                                    follow(
                                                        only_if(since(version, JavaMinecraftVersion::V_1_17), read_bool(s), false, s),
                                                        |text_filtering: bool, s: Seq<u8>|
                                                            follow(
                                                                only_if(
                                                                    since(version, JavaMinecraftVersion::V_1_18),
                                                                    read_bool(s),
                                                                    true,
                                                                    s,
                                                                ),
                                                                |server_listing: bool, s: Seq<u8>|
                                                                    follow(
                                                                        only_if(
                                                                            since(version, JavaMinecraftVersion::V_26_2),
                                                                            read_particles(s),
                                                                            0,
                                                                            s,
                                                                        ),
                                                                        |particle_status: nat, s: Seq<u8>|
                                                                            done(
                                                                                ClientInformation {
                                                                                    locale,
                                                                                    view_distance,
                                                                                    chat_mode,
                                                                                    chat_colors,
                                                                                    skin_parts: skin_parts as int,
                                                                                    main_hand,
                                                                                    text_filtering,
                                                                                    server_listing,
                                                                                    particle_status: particle_status as int,
                                                                                },
                                                                                s,
                                                                            ),
                                                                    ),
                                                            ),
                                                    ),
                                            ),
                                    ),
                            ),
                    ),
            ),
    )
}

/// Bytes that depend on a condition.
pub open spec fn bytes_when(condition: bool, b: Seq<u8>) -> Seq<u8> {
    if condition {
        b
    } else {
        Seq::empty()
    }
}

/// Appending what a client tells about itself.
pub open spec fn write_information(version: JavaMinecraftVersion, out: Seq<u8>, v: ClientInformation) -> Sink {
    after(
        put_text(out, v.locale, MAX_TEXT_BYTES as nat),
        |out: Seq<u8>|
            {
                let out = out + be_signed(v.view_distance, 1) + var_int(v.chat_mode) + flag(v.chat_colors) + be_bytes(
                    v.skin_parts as nat,
                    1,
                ) + bytes_when(since(version, JavaMinecraftVersion::V_1_9), var_int(v.main_hand)) + bytes_when(
                    since(version, JavaMinecraftVersion::V_1_17),
                    flag(v.text_filtering),
                ) + bytes_when(since(version, JavaMinecraftVersion::V_1_18), flag(v.server_listing));
                if !since(version, JavaMinecraftVersion::V_26_2) {
                    Sink { result: Ok(()), out }
                } else if v.particle_status > 2 {
                    refuse(wmsg_value("Invalid particle status: {}", v.particle_status as int), out)
                } else {
                    put(out, be_bytes(v.particle_status as nat, 1))
                }
            },
    )
}

impl SClientInformationPlay {
    /// Reads the packet.
    pub fn read(seq: &mut &[u8], version: &JavaMinecraftVersion) -> (r: Result<Self, ReadingError>)
        ensures
            reads(read_information(*version, old(seq)@), r, final(seq)@, |p: Self| p@),
    {
        let locale = get_str(seq)?;
        let view_distance: i8 = get_i8(seq)?;
        let chat_mode: i32 = get_var_int(seq)?;
        let chat_colors: bool = get_bool(seq)?;
        let skin_parts: u8 = get_u8(seq)?;
        let main_hand: i32 = if version.at_least(JavaMinecraftVersion::V_1_9) {
            get_var_int(seq)?
        } else {
            1
        };
        let text_filtering: bool = if version.at_least(JavaMinecraftVersion::V_1_17) {
            get_bool(seq)?
        } else {
            false
        };
        let server_listing: bool = if version.at_least(JavaMinecraftVersion::V_1_18) {
            get_bool(seq)?
        } else {
            true
        };
        let particle_status: u8 = if version.at_least(JavaMinecraftVersion::V_26_2) {
            let status: u8 = get_u8(seq)?;
            if status > 2 {
                return Err(message_value("Invalid particle status: {}", status as i128));
            }
            status
        } else {
            0
        };
        Ok(
            SClientInformationPlay {
                locale,
                view_distance,
                chat_mode,
                chat_colors,
                skin_parts,
                main_hand,
                text_filtering,
                server_listing,
                particle_status,
            },
        )
    }

    /// Appends the packet.
    pub fn write_packet_data(&self, out: &mut Vec<u8>, version: &JavaMinecraftVersion) -> (r: Result<(), WritingError>)
        ensures
            encodes(write_information(*version, old(out)@, self@), r, final(out)@),
    {
        write_string(out, self.locale.as_str())?;
        write_i8(out, self.view_distance);
        write_var_int(out, self.chat_mode);
        write_bool(out, self.chat_colors);
        write_u8(out, self.skin_parts);
        if version.at_least(JavaMinecraftVersion::V_1_9) {
            write_var_int(out, self.main_hand);
        } else {
            assert(out@ =~= out@ + Seq::<u8>::empty());
        }
        if version.at_least(JavaMinecraftVersion::V_1_17) {
            write_bool(out, self.text_filtering);
        } else {
            assert(out@ =~= out@ + Seq::<u8>::empty());
        }
        if version.at_least(JavaMinecraftVersion::V_1_18) {
            write_bool(out, self.server_listing);
        } else {
            assert(out@ =~= out@ + Seq::<u8>::empty());
        }
        if version.at_least(JavaMinecraftVersion::V_26_2) {
            if self.particle_status > 2 {
                return Err(cannot_write_value("Invalid particle status: {}", self.particle_status as i128));
            }
            write_u8(out, self.particle_status);
        }
        Ok(())
    }
}

/// A chat message.
#[derive(Debug)]
pub struct SChatMessage {
    pub message: String,
    pub timestamp: i64,
    pub salt: i64,
    pub signature: Option<Vec<u8>>,
    pub message_count: i32,
    pub acknowledged: Vec<u8>,
    pub checksum: u8,
}

/// What a chat message is.
pub struct ChatMessage {
    pub message: Seq<char>,
    pub timestamp: int,
    pub salt: int,
    pub signature: Option<Seq<u8>>,
    pub message_count: int,
    pub acknowledged: Seq<u8>,
    pub checksum: int,
}

impl SChatMessage {
    pub open spec fn view(&self) -> ChatMessage {
        ChatMessage {
            message: self.message@,
            timestamp: self.timestamp as int,
            salt: self.salt as int,
            signature: match self.signature {
                Some(b) => Some(b@),
                None => None,
            },
            message_count: self.message_count as int,
            acknowledged: self.acknowledged@,
            checksum: self.checksum as int,
        }
    }
}

/// Reading a sender and a counted signature of at most 256 bytes, to skip them.
pub open spec fn skip_signature(s: Seq<u8>, wrong: &'static str) -> Outcome<()> {
    follow(
        read_bytes(s, 16),
        |sender: Seq<u8>, s: Seq<u8>|
            follow(
                read_var_int(s),
                |n: int, s: Seq<u8>|
                    if n < 0 || n > 256 {
                        fail(msg_value(wrong, n), s)
                    } else {
                        follow(read_bytes(s, n as nat), |b: Seq<u8>, s: Seq<u8>| done((), s))
                    },
            ),
    )
}

/// Reading `n` signatures, to skip them.
pub open spec fn skip_signatures(n: nat, s: Seq<u8>) -> Outcome<()>
    decreases n,
{
    if n == 0 {
        done((), s)
    } else {
        match skip_signature(s, "Invalid previous chat signature length: {}") {
            Outcome { value: Err(e), rest } => fail(e, rest),
            Outcome { value: Ok(_), rest } => skip_signatures((n - 1) as nat, rest),
        }
    }
}

/// Reading what older versions send behind the signature, to skip it.
pub open spec fn skip_last_seen(version: JavaMinecraftVersion, s: Seq<u8>) -> Outcome<()> {
    follow(
        read_unsigned(s, 1),
        |preview: nat, s: Seq<u8>|
            if !since(version, JavaMinecraftVersion::V_1_19_1) {
                done((), s)
            } else {
                follow(
                    read_var_int(s),
                    |n: int, s: Seq<u8>|
                        if n < 0 || n > 20 {
                            fail(msg_value("Invalid previous chat message count: {}", n), s)
                        } else {
                            follow(
                                skip_signatures(n as nat, s),
                                |u: (), s: Seq<u8>|
                                    follow(
                                        read_bool(s),
                                        |rejected: bool, s: Seq<u8>|
                                            if rejected {
                                                skip_signature(s, "Invalid rejected chat signature length: {}")
                                            } else {
                                                done((), s)
                                            },
                                    ),
                            )
                        },
                )
            },
    )
}

/// What stands behind the signature: how many messages were seen, and which.
pub struct Seen {
    pub message_count: int,
    pub acknowledged: Seq<u8>,
}

/// Reading what stands behind the signature.
pub open spec fn read_seen(version: JavaMinecraftVersion, s: Seq<u8>) -> Outcome<Seen> {
    if since(version, JavaMinecraftVersion::V_1_19_3) {
        follow(
            read_var_int(s),
            |message_count: int, s: Seq<u8>|
                follow(read_bytes(s, 3), |acknowledged: Seq<u8>, s: Seq<u8>| done(Seen { message_count, acknowledged }, s)),
        )
    } else {
        follow(
            skip_last_seen(version, s),
            |u: (), s: Seq<u8>| done(Seen { message_count: 0, acknowledged: Seq::empty() }, s),
        )
    }
}

/// Reading a signature that may be absent.
pub open spec fn read_signature(s: Seq<u8>) -> Outcome<Option<Seq<u8>>> {
    follow(
        read_bool(s),
        |present: bool, s: Seq<u8>|
            if present {
                follow(read_bytes(s, 256), |b: Seq<u8>, s: Seq<u8>| done(Some(b), s))
            } else {
                done(None, s)
            },
    )
}

/// Reading the checksum of a message.
pub open spec fn read_checksum(version: JavaMinecraftVersion, m: ChatMessage, s: Seq<u8>) -> Outcome<ChatMessage> {
    follow(
        only_if(since(version, JavaMinecraftVersion::V_1_21_5), read_unsigned(s, 1), 0, s),
        |checksum: nat, s: Seq<u8>| done(ChatMessage { checksum: checksum as int, ..m }, s),
    )
}

/// How many bytes a chat message may have.
pub open spec fn chat_bound(version: JavaMinecraftVersion) -> nat {
    if since(version, JavaMinecraftVersion::V_1_11) {
        256
    } else {
        100
    }
}

/// Reading a chat message.
pub open spec fn read_chat(version: JavaMinecraftVersion, s: Seq<u8>) -> Outcome<ChatMessage> {
    follow(
        read_text(s, chat_bound(version)),
        |message: Seq<char>, s: Seq<u8>|
            if !since(version, JavaMinecraftVersion::V_1_19) {
                read_checksum(
                    version,
                    ChatMessage {
                        message,
                        timestamp: 0,
                        salt: 0,
                        signature: None,
                        message_count: 0,
                        acknowledged: Seq::empty(),
                        checksum: 0,
                    },
                    s,
                )
            } else {
                follow(
                    read_signed(s, 8),
                    |timestamp: int, s: Seq<u8>|
                        follow(
                            read_signed(s, 8),
                            |salt: int, s: Seq<u8>|
                                follow(
                                    read_signature(s),
                                    |signature: Option<Seq<u8>>, s: Seq<u8>|
                                        follow(
                                            read_seen(version, s),
                                            |seen: Seen, s: Seq<u8>|
                                                read_checksum(
                                                    version,
                                                    ChatMessage {
                                                        message,
                                                        timestamp,
                                                        salt,
                                                        signature,
                                                        message_count: seen.message_count,
                                                        acknowledged: seen.acknowledged,
                                                        checksum: 0,
                                                    },
                                                    s,
                                                ),
                                        ),
                                ),
                        ),
                )
            },
    )
}

/// Appending a chat message.
pub open spec fn write_chat(version: JavaMinecraftVersion, out: Seq<u8>, v: ChatMessage) -> Sink {
    after(
        put_text(out, v.message, MAX_TEXT_BYTES as nat),
        |out: Seq<u8>|
            put(
                out,
                bytes_when(
                    since(version, JavaMinecraftVersion::V_1_19),
                    be_signed(v.timestamp, 8) + be_signed(v.salt, 8) + match v.signature {
                        Some(b) => flag(true) + b,
                        None => flag(false),
                    } + if since(version, JavaMinecraftVersion::V_1_19_3) {
                        var_int(v.message_count) + v.acknowledged
                    } else {
                        be_bytes(0, 1)
                    },
                ) + bytes_when(since(version, JavaMinecraftVersion::V_1_21_5), be_bytes(v.checksum as nat, 1)),
            ),
    )
}

/// Skips a sender and a counted signature.
fn pass_signature(seq: &mut &[u8], wrong: &'static str) -> (r: Result<(), ReadingError>)
    ensures
        (Outcome { value: told(r), rest: final(seq)@ }) == skip_signature(old(seq)@, wrong),
{
    let _sender = get_bytes(seq, 16)?;
    let n: i32 = get_var_int(seq)?;
    if n < 0 || n > 256 {
        return Err(message_value(wrong, n as i128));
    }
    let _signature = get_bytes(seq, n as usize)?;
    Ok(())
}

/// Skips what older versions send behind the signature.
fn pass_last_seen(seq: &mut &[u8], version: &JavaMinecraftVersion) -> (r: Result<(), ReadingError>)
    ensures
        (Outcome { value: told(r), rest: final(seq)@ }) == skip_last_seen(*version, old(seq)@),
{
    let _preview: u8 = get_u8(seq)?;
    if !version.at_least(JavaMinecraftVersion::V_1_19_1) {
        return Ok(());
    }
    let n: i32 = get_var_int(seq)?;
    if n < 0 || n > 20 {
        return Err(message_value("Invalid previous chat message count: {}", n as i128));
    }
    pass_signatures(seq, n as usize)?;
    if get_bool(seq)? {
        pass_signature(seq, "Invalid rejected chat signature length: {}")?;
    }
    Ok(())
}

/// Skips signatures.
fn pass_signatures(seq: &mut &[u8], n: usize) -> (r: Result<(), ReadingError>)
    ensures
        (Outcome { value: told(r), rest: final(seq)@ }) == skip_signatures(n as nat, old(seq)@),
{
    let ghost o = skip_signatures(n as nat, old(seq)@);
    let mut i: usize = 0;
    while i < n
        invariant
            i <= n,
            o == skip_signatures(n as nat, old(seq)@),
            o == skip_signatures((n - i) as nat, seq@),
        decreases n - i,
    {
        pass_signature(seq, "Invalid previous chat signature length: {}")?;
        i += 1;
    }
    Ok(())
}

impl SChatMessage {
    /// Reads the packet.
    pub fn read(seq: &mut &[u8], version: &JavaMinecraftVersion) -> (r: Result<Self, ReadingError>)
        ensures
            reads(read_chat(*version, old(seq)@), r, final(seq)@, |p: Self| p@),
    {
        let bound: usize = if version.at_least(JavaMinecraftVersion::V_1_11) {
            256
        } else {
            100
        };
        let message = get_str_bounded(seq, bound)?;
        let mut timestamp: i64 = 0;
        let mut salt: i64 = 0;
        let mut signature: Option<Vec<u8>> = None;
        let mut message_count: i32 = 0;
        let mut acknowledged: Vec<u8> = Vec::new();
        assert(acknowledged@ =~= Seq::<u8>::empty());
        if version.at_least(JavaMinecraftVersion::V_1_19) {
            timestamp = get_i64_be(seq)?;
            salt = get_i64_be(seq)?;
            if get_bool(seq)? {
                signature = Some(to_vec(get_bytes(seq, 256)?));
            }
            if version.at_least(JavaMinecraftVersion::V_1_19_3) {
                message_count = get_var_int(seq)?;
                acknowledged = to_vec(get_bytes(seq, 3)?);
            } else {
                pass_last_seen(seq, version)?;
            }
        }
        let checksum: u8 = if version.at_least(JavaMinecraftVersion::V_1_21_5) {
            get_u8(seq)?
        } else {
            0
        };
        Ok(SChatMessage { message, timestamp, salt, signature, message_count, acknowledged, checksum })
    }

    /// Appends the packet.
    pub fn write_packet_data(&self, out: &mut Vec<u8>, version: &JavaMinecraftVersion) -> (r: Result<(), WritingError>)
        ensures
            encodes(write_chat(*version, old(out)@, self@), r, final(out)@),
    {
        write_string(out, self.message.as_str())?;
        if version.at_least(JavaMinecraftVersion::V_1_19) {
            write_i64_be(out, self.timestamp);
            write_i64_be(out, self.salt);
            match &self.signature {
                Some(b) => {
                    write_bool(out, true);
                    put_slice(out, b.as_slice());
                },
                None => {
                    write_bool(out, false);
                },
            }
            if version.at_least(JavaMinecraftVersion::V_1_19_3) {
                write_var_int(out, self.message_count);
                put_slice(out, self.acknowledged.as_slice());
            } else {
                write_u8(out, 0);
            }
        }
        if version.at_least(JavaMinecraftVersion::V_1_21_5) {
            write_u8(out, self.checksum);
        }
        assert(out@ =~= write_chat(*version, old(out)@, self@).out);
        Ok(())
    }
}

/// Whether the player stands on the ground.
#[derive(Clone, Copy, Debug)]
pub struct SSetPlayerGround {
    pub on_ground: bool,
}

impl SSetPlayerGround {
    /// Reads the packet; only the lowest bit of its byte counts.
    pub fn read(seq: &mut &[u8], version: &JavaMinecraftVersion) -> (r: Result<Self, ReadingError>)
        ensures
            match read_unsigned(old(seq)@, 1) {
                Outcome { value: Ok(v), rest } => r == Ok::<Self, ReadingError>(SSetPlayerGround { on_ground: v % 2 == 1 }) && rest
                    == final(seq)@,
                Outcome { value: Err(e), rest } => r is Err && r->Err_0@ == e && rest == final(seq)@,
            },
    {
        let v: u8 = get_u8(seq)?;
        Ok(SSetPlayerGround { on_ground: v % 2 == 1 })
    }

    /// Appends the packet.
    pub fn write_packet_data(&self, out: &mut Vec<u8>, version: &JavaMinecraftVersion) -> (r: Result<(), WritingError>)
        ensures
            r == Ok::<(), WritingError>(()),
            final(out)@ == old(out)@ + flag(self.on_ground),
    {
        write_bool(out, self.on_ground);
        Ok(())
    }
}

/// How many bytes a game rule takes at the least.
pub const MIN_GAME_RULE_ENTRY_WIRE_BYTES: usize = 2;

/// A game rule and its value.
#[derive(Debug)]
pub struct GameRuleEntry {
    pub game_rule_key: String,
    pub value: String,
}

/// Game rules to be set.
#[derive(Debug)]
pub struct SSetGameRule {
    pub entries: Vec<GameRuleEntry>,
}

/// What game rules are.
pub open spec fn rule_views(v: Seq<GameRuleEntry>) -> Seq<(Seq<char>, Seq<char>)> {
    Seq::new(v.len(), |i: int| (v[i].game_rule_key@, v[i].value@))
}

/// Reading `n` more game rules behind those in `head`.
pub open spec fn read_rules(n: nat, s: Seq<u8>, head: Seq<(Seq<char>, Seq<char>)>) -> Outcome<Seq<(Seq<char>, Seq<char>)>>
    decreases n,
{
    if n == 0 {
        done(head, s)
    } else {
        match read_text(s, MAX_TEXT_BYTES as nat) {
            Outcome { value: Err(e), rest } => fail(e, rest),
            Outcome { value: Ok(key), rest } => match read_text(rest, MAX_TEXT_BYTES as nat) {
                Outcome { value: Err(e), rest } => fail(e, rest),
                Outcome { value: Ok(value), rest } => read_rules((n - 1) as nat, rest, head.push((key, value))),
            },
        }
    }
}

/// Reading game rules, whose number must fit in what is left.
pub open spec fn read_game_rules(s: Seq<u8>) -> Outcome<Seq<(Seq<char>, Seq<char>)>> {
    follow(
        read_var_int(s),
        |n: int, s: Seq<u8>|
            if n < 0 {
                fail(msg("Negative game rule entry count"), s)
            } else if n > s.len() as int / MIN_GAME_RULE_ENTRY_WIRE_BYTES as int {
                fail(too_large_beside("game rule entry count {} cannot fit in {} remaining bytes", n, s.len() as int), s)
            } else {
                read_rules(n as nat, s, Seq::empty())
            },
    )
}

/// Appending the game rules from the `i`th on.
pub open spec fn write_rules(out: Seq<u8>, l: Seq<(Seq<char>, Seq<char>)>, i: int) -> Sink
    decreases l.len() - i,
{
    if i < 0 || i >= l.len() {
        Sink { result: Ok(()), out }
    } else {
        match put_text(out, l[i].0, MAX_TEXT_BYTES as nat) {
            Sink { result: Err(e), out } => refuse(e, out),
            Sink { result: Ok(_), out } => match put_text(out, l[i].1, MAX_TEXT_BYTES as nat) {
                Sink { result: Err(e), out } => refuse(e, out),
                Sink { result: Ok(_), out } => write_rules(out, l, i + 1),
            },
        }
    }
}

impl SSetGameRule {
    /// Reads the packet.
    pub fn read(seq: &mut &[u8], version: &JavaMinecraftVersion) -> (r: Result<Self, ReadingError>)
        ensures
            reads(read_game_rules(old(seq)@), r, final(seq)@, |p: Self| rule_views(p.entries@)),
    {
        let n: i32 = get_var_int(seq)?;
        if n < 0 {
            return Err(message("Negative game rule entry count"));
        }
        if n as usize > seq.len() / MIN_GAME_RULE_ENTRY_WIRE_BYTES {
            return Err(limit_exceeded_beside("game rule entry count {} cannot fit in {} remaining bytes", n as i128, seq.len() as i128));
        }
        let ghost o = read_rules(n as nat, seq@, Seq::empty());
        let mut entries: Vec<GameRuleEntry> = Vec::new();
        assert(rule_views(entries@) =~= Seq::empty());
        let mut i: i32 = 0;
        while i < n
            invariant
                0 <= i <= n,
                o == read_game_rules(old(seq)@),
                o == read_rules((n - i) as nat, seq@, rule_views(entries@)),
            decreases n - i,
        {
            let game_rule_key = get_str(seq)?;
            let value = get_str(seq)?;
            let ghost before = rule_views(entries@);
            let ghost x = (game_rule_key@, value@);
            entries.push(GameRuleEntry { game_rule_key, value });
            assert(rule_views(entries@) =~= before.push(x));
            i += 1;
        }
        Ok(SSetGameRule { entries })
    }

    /// Appends the packet.
    pub fn write_packet_data(&self, out: &mut Vec<u8>, version: &JavaMinecraftVersion) -> (r: Result<(), WritingError>)
        ensures
            encodes(
                write_rules(old(out)@ + var_int(written_count(self.entries@.len())), rule_views(self.entries@), 0),
                r,
                final(out)@,
            ),
    {
        let ghost l = rule_views(self.entries@);
        write_var_int(out, count_as_i32(self.entries.len()));
        let ghost w = write_rules(out@, l, 0);
        let mut i: usize = 0;
        while i < self.entries.len()
            invariant
                i <= self.entries.len(),
                l == rule_views(self.entries@),
                w == write_rules(old(out)@ + var_int(written_count(self.entries@.len())), l, 0),
                w == write_rules(out@, l, i as int),
            decreases self.entries.len() - i,
        {
            write_string(out, self.entries[i].game_rule_key.as_str())?;
            write_string(out, self.entries[i].value.as_str())?;
            i += 1;
        }
        Ok(())
    }
}

} // verus!
