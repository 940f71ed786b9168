//! Session-invitation control packets.
//!
//! A control packet opens, answers or closes a session between two
//! endpoints: two `0xff` marker bytes, a two-byte command, a four-byte
//! protocol version that must be 2, an initiator token, a synchronization
//! source, and, for the commands that carry one, a zero-terminated endpoint
//! name.  All multi-byte numbers are big-endian.

use vstd::prelude::*;

verus! {

/// The number a big-endian byte string denotes.
pub open spec fn spec_u32_be(s: Seq<u8>) -> nat
    decreases s.len(),
{
    if s.len() == 0 {
        0
    } else {
        spec_u32_be(s.drop_last()) * 256 + s.last() as nat
    }
}

/// Index of the first zero byte, if any.
pub open spec fn first_zero(s: Seq<u8>) -> Option<int>
    decreases s.len(),
{
    if s.len() == 0 {
        None
    } else if s[0] == 0 {
        Some(0)
    } else {
        match first_zero(s.drop_first()) {
            Some(i) => Some(i + 1),
            None => None,
        }
    }
}

/// What `first_zero` finds really is the first zero byte.
pub proof fn lemma_first_zero_spec(s: Seq<u8>)
    ensures
        match first_zero(s) {
            Some(i) => 0 <= i < s.len() && s[i] == 0 && forall|j: int| 0 <= j < i ==> s[j] != 0,
            None => forall|j: int| 0 <= j < s.len() ==> s[j] != 0,
        },
    decreases s.len(),
{
    if s.len() > 0 && s[0] != 0 {
        lemma_first_zero_spec(s.drop_first());
        match first_zero(s.drop_first()) {
            Some(i) => {
                assert forall|j: int| 0 <= j < i + 1 implies s[j] != 0 by {
                    if j > 0 {
                        assert(s.drop_first()[j - 1] != 0);
                    }
                }
            },
            None => {
                assert forall|j: int| 0 <= j < s.len() implies s[j] != 0 by {
                    if j > 0 {
                        assert(s.drop_first()[j - 1] != 0);
                    }
                }
            },
        }
    }
}

/// An index that holds a zero byte after a zero-free prefix is what
/// `first_zero` returns.
pub proof fn lemma_first_zero_at(s: Seq<u8>, i: int)
    requires
        0 <= i < s.len(),
        s[i] == 0,
        forall|j: int| 0 <= j < i ==> s[j] != 0,
    ensures
        first_zero(s) == Some(i),
    decreases i,
{
    if i > 0 {
        assert(s[0] != 0);
        assert(s.drop_first()[i - 1] == s[i]);
        assert forall|j: int| 0 <= j < i - 1 implies s.drop_first()[j] != 0 by {
            assert(s.drop_first()[j] == s[j + 1]);
        }
        lemma_first_zero_at(s.drop_first(), i - 1);
    }
}

/// What `String::from_utf8_lossy` makes of a byte string.  The result is a
/// function of the bytes alone.
pub uninterp spec fn lossy_of(bytes: Seq<u8>) -> Seq<char>;

/// Relies on `String::from_utf8_lossy`: decodes bytes as UTF-8, replacing
/// invalid sequences; the result depends on the bytes alone.
#[verifier::external_body]
fn utf8_lossy(bytes: &[u8]) -> (r: String)
    ensures
        r@ == lossy_of(bytes@),
{
    String::from_utf8_lossy(bytes).into_owned()
}

/// Why a byte string is not (yet) a control packet.
#[derive(Clone, Copy, Debug, PartialEq, Eq, Structural)]
pub enum Error {
    /// More bytes may still turn it into one.
    Incomplete,
    /// No further bytes can: marker, version or command is wrong.
    Invalid,
}

/// The fields common to every control packet, and the endpoint name for the
/// commands that carry one.
#[derive(Debug)]
pub struct ControlPacket {
    pub initiator_token: u32,
    pub ssrc: u32,
    pub name: Option<String>,
}

/// A control packet, tagged by its command: invitation, acceptance,
/// rejection, or end of session.
#[derive(Debug)]
pub enum Frame {
    IN(ControlPacket),
    OK(ControlPacket),
    NO(ControlPacket),
    BY(ControlPacket),
}

/// The marker bytes and protocol version a packet must carry.
pub open spec fn header_ok(s: Seq<u8>) -> bool {
    &&& s[0] == 0xff
    &&& s[1] == 0xff
    &&& spec_u32_be(s.subrange(4, 8)) == 2
}

/// The two command bytes name a command that carries an endpoint name.
pub open spec fn is_named_cmd(s: Seq<u8>) -> bool {
    ||| s[2] == 0x49 && s[3] == 0x4e
    ||| s[2] == 0x4f && s[3] == 0x4b
}

/// The two command bytes name a command without an endpoint name.
pub open spec fn is_plain_cmd(s: Seq<u8>) -> bool {
    ||| s[2] == 0x4e && s[3] == 0x4f
    ||| s[2] == 0x42 && s[3] == 0x59
}

/// The packet fields read from a byte string, without the name.
pub open spec fn packet_fields_ok(s: Seq<u8>, p: ControlPacket) -> bool {
    &&& p.initiator_token as nat == spec_u32_be(s.subrange(8, 12))
    &&& p.ssrc as nat == spec_u32_be(s.subrange(12, 16))
}

/// The name field read from a byte string: the bytes after the fixed header
/// up to the first zero, decoded as UTF-8 with replacement.
pub open spec fn packet_name_ok(s: Seq<u8>, p: ControlPacket) -> bool {
    match first_zero(s.skip(16)) {
        Some(i) => match p.name {
            Some(nm) => nm@ == lossy_of(s.subrange(16, 16 + i)),
            None => false,
        },
        None => false,
    }
}

/// Big-endian 32-bit read.
pub fn get_u32(src: &[u8]) -> (r: u32)
    requires
        src@.len() == 4,
    ensures
        r as nat == spec_u32_be(src@),
{
    let mut acc: u32 = 0;
    let mut i: usize = 0;
    while i < 4
        invariant
            i <= 4,
            src@.len() == 4,
            acc as nat == spec_u32_be(src@.take(i as int)),
        decreases 4 - i,
    {
        proof {
            assert(src@.take(i as int + 1).drop_last() =~= src@.take(i as int));
            assert(src@.take(i as int + 1).last() == src@[i as int]);
            lemma_u32_be_bound(src@.take(i as int));
        }
        acc = acc * 256 + (src[i] as u32);
        i = i + 1;
    }
    proof {
        assert(src@.take(4) =~= src@);
    }
    acc
}

/// A big-endian read stays under 256 to the power of its byte count.
proof fn lemma_u32_be_bound(s: Seq<u8>)
    ensures
        s.len() == 0 ==> spec_u32_be(s) == 0,
        s.len() == 1 ==> spec_u32_be(s) < 0x1_00,
        s.len() == 2 ==> spec_u32_be(s) < 0x1_00_00,
        s.len() == 3 ==> spec_u32_be(s) < 0x1_00_00_00,
        s.len() == 4 ==> spec_u32_be(s) < 0x1_00_00_00_00,
    decreases s.len(),
{
    if 0 < s.len() <= 4 {
        lemma_u32_be_bound(s.drop_last());
    }
}

/// Index of the first zero byte, if any: the end of a zero-terminated
/// field.
pub fn get_eof(src: &[u8]) -> (r: Option<usize>)
    ensures
        match r {
            Some(i) => first_zero(src@) == Some(i as int),
            None => first_zero(src@) is None,
        },
{
    let n: usize = src.len();
    let mut i: usize = 0;
    while i < n
        invariant
            i <= n,
            n == src@.len(),
            forall|j: int| 0 <= j < i ==> src@[j] != 0,
        decreases n - i,
    {
        if src[i] == 0 {
            proof {
                lemma_first_zero_at(src@, i as int);
            }
            return Some(i);
        }
        i = i + 1;
    }
    proof {
        lemma_first_zero_spec(src@);
        if first_zero(src@) is Some {
            assert(false);
        }
    }
    None
}

/// The zero-terminated endpoint name that starts at byte 16, decoded with
/// replacement; `Incomplete` while no terminator has arrived yet.
pub fn get_name(src: &[u8]) -> (r: Result<String, Error>)
    requires
        src@.len() >= 16,
    ensures
        match r {
            Ok(nm) => match first_zero(src@.skip(16)) {
                Some(i) => nm@ == lossy_of(src@.subrange(16, 16 + i)),
                None => false,
            },
            Err(e) => e == Error::Incomplete && first_zero(src@.skip(16)) is None,
        },
{
    let tail: &[u8] = &src[16..src.len()];
    proof {
        assert(tail@ =~= src@.skip(16));
    }
    match get_eof(tail) {
        None => Err(Error::Incomplete),
        Some(len) => {
            proof {
                lemma_first_zero_spec(tail@);
                assert(len < tail@.len());
            }
            let part: &[u8] = &src[16..len + 16];
            proof {
                assert(part@ =~= src@.subrange(16, 16 + len as int));
            }
            Ok(utf8_lossy(part))
        },
    }
}

impl ControlPacket {
    /// The numeric fields of a packet, read without a name.  The caller has
    /// already checked the length.
    pub fn parse(src: &[u8]) -> (r: Result<ControlPacket, Error>)
        requires
            src@.len() >= 16,
        ensures
            match r {
                Ok(p) => packet_fields_ok(src@, p) && p.name is None,
                Err(_) => false,
            },
    {
        let tok_bytes: &[u8] = &src[8..12];
        let ssrc_bytes: &[u8] = &src[12..16];
        let p = ControlPacket {
            initiator_token: get_u32(tok_bytes),
            ssrc: get_u32(ssrc_bytes),
            name: None,
        };
        proof {
            assert(tok_bytes@ =~= src@.subrange(8, 12));
            assert(ssrc_bytes@ =~= src@.subrange(12, 16));
        }
        Ok(p)
    }

    /// The numeric fields plus the endpoint name; `Incomplete` while the
    /// name's terminator has not arrived.
    pub fn parse_with_name(src: &[u8]) -> (r: Result<ControlPacket, Error>)
        requires
            src@.len() >= 16,
        ensures
            match r {
                Ok(p) => packet_fields_ok(src@, p) && packet_name_ok(src@, p),
                Err(e) => e == Error::Incomplete && first_zero(src@.skip(16)) is None,
            },
    {
        let fields = match ControlPacket::parse(src) {
            Ok(p) => p,
            Err(e) => {
                return Err(e);
            },
        };
        match get_name(src) {
            Ok(nm) => Ok(
                ControlPacket {
                    initiator_token: fields.initiator_token,
                    ssrc: fields.ssrc,
                    name: Some(nm),
                },
            ),
            Err(e) => Err(e),
        }
    }
}

impl Frame {
    /// Read one control packet from the bytes gathered so far.
    ///
    /// `Incomplete` asks the caller to gather more bytes: the fixed part has
    /// not fully arrived, or a named command still lacks its terminator.
    /// `Invalid` asks the caller to drop what it gathered: the marker or
    /// version is wrong (checked once more than the two marker bytes are
    /// in), or the command is unknown.
    pub fn parse(src: &Vec<u8>) -> (r: Result<Frame, Error>)
        ensures
            match r {
                Ok(f) => src@.len() >= 16 && header_ok(src@) && {
                    let s = src@;
                    match f {
                        Frame::IN(p) => s[2] == 0x49 && s[3] == 0x4e && packet_fields_ok(s, p)
                            && packet_name_ok(s, p),
                        Frame::OK(p) => s[2] == 0x4f && s[3] == 0x4b && packet_fields_ok(s, p)
                            && packet_name_ok(s, p),
                        Frame::NO(p) => s[2] == 0x4e && s[3] == 0x4f && packet_fields_ok(s, p)
                            && p.name is None,
                        Frame::BY(p) => s[2] == 0x42 && s[3] == 0x59 && packet_fields_ok(s, p)
                            && p.name is None,
                    }
                },
                Err(Error::Incomplete) => {
                    ||| src@.len() < 8
                    ||| src@.len() == 8
                    ||| (src@.len() < 16 && header_ok(src@))
                    ||| (src@.len() >= 16 && header_ok(src@) && is_named_cmd(src@) && first_zero(
                        src@.skip(16),
                    ) is None)
                },
                Err(Error::Invalid) => {
                    ||| (src@.len() > 8 && !header_ok(src@))
                    ||| (src@.len() >= 16 && header_ok(src@) && !is_named_cmd(src@)
                        && !is_plain_cmd(src@))
                },
            },
    {
        if src.len() < 8 {
            return Err(Error::Incomplete);
        }
        let version_bytes: &[u8] = &src.as_slice()[4..8];
        proof {
            assert(version_bytes@ =~= src@.subrange(4, 8));
        }
        if src.len() > 8 && (src[0] != 0xff || src[1] != 0xff || get_u32(version_bytes) != 2) {
            return Err(Error::Invalid);
        }
        if src.len() < 16 {
            return Err(Error::Incomplete);
        }
        let body: &[u8] = src.as_slice();
        proof {
            assert(body@ =~= src@);
        }
        if src[2] == 0x49 && src[3] == 0x4e {
            match ControlPacket::parse_with_name(body) {
                Ok(p) => Ok(Frame::IN(p)),
                Err(e) => Err(e),
            }
        } else if src[2] == 0x4f && src[3] == 0x4b {
            match ControlPacket::parse_with_name(body) {
                Ok(p) => Ok(Frame::OK(p)),
                Err(e) => Err(e),
            }
        } else if src[2] == 0x4e && src[3] == 0x4f {
            match ControlPacket::parse(body) {
                Ok(p) => Ok(Frame::NO(p)),
                Err(e) => Err(e),
            }
        } else if src[2] == 0x42 && src[3] == 0x59 {
            match ControlPacket::parse(body) {
                Ok(p) => Ok(Frame::BY(p)),
                Err(e) => Err(e),
            }
        } else {
            Err(Error::Invalid)
        }
    }
}

} // verus!
