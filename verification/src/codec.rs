//! Byte-level framing and the startup-phase decoders and encoders.
//!
//! Every PostgreSQL protocol message travels in a length-prefixed envelope:
//! a 4-byte big-endian length that counts itself, followed by the payload.
//! On top of that envelope sit the startup message (version dispatch into
//! SSL negotiation, plaintext startup with a parameter map, or rejection)
//! and the clear-text password message. All functions here are pure over
//! byte buffers; reading bytes off a socket happens outside the library,
//! which makes the decoders insensitive to how the peer chunks its writes.

use crate::errors::{DecodeError, FramingError, ProtocolError};
use crate::message::{ParameterMap, SpecStartupMessage, StartupMessage};
use vstd::prelude::*;
use vstd::slice::{slice_subrange, slice_to_vec};
use vstd::string::StrSliceExecFns;
use vstd::utf8::*;

verus! {

/// Version tag of protocol 3.0: major 3 in the high 16 bits, minor 0 in the
/// low 16 bits.
pub const VERSION_3: u32 = 0x0003_0000;

/// Sentinel version tag of an SSL negotiation request: 1234 in the high 16
/// bits and 5679 in the low 16 bits.
pub const VERSION_SSL: u32 = 0x04D2_162F;

/// The tag byte that opens a password message: ASCII `'p'`.
pub const PASSWORD_TAG: u8 = 112;

/// Hard ceiling on the payload bytes of one startup-phase frame. A frame
/// that declares more is rejected before any payload is touched, so a
/// hostile peer cannot make the proxy allocate without bound.
pub const MAX_FRAME_PAYLOAD: usize = 65536;

/// The number a 4-byte big-endian length field holds: most significant
/// byte first.
pub open spec fn be32_val(b: Seq<u8>) -> int
    recommends
        b.len() >= 4,
{
    (b[0] as int) * 0x100_0000 + (b[1] as int) * 0x1_0000 + (b[2] as int) * 0x100 + (b[3] as int)
}

/// The 4-byte big-endian encoding of `v`.
pub open spec fn be32_bytes(v: int) -> Seq<u8>
    recommends
        0 <= v < 0x1_0000_0000,
{
    seq![
        ((v / 0x100_0000) % 0x100) as u8,
        ((v / 0x1_0000) % 0x100) as u8,
        ((v / 0x100) % 0x100) as u8,
        (v % 0x100) as u8,
    ]
}

/// Reading back the 4-byte big-endian encoding of `v` yields `v`.
pub proof fn lemma_be32_round_trip(v: int)
    requires
        0 <= v < 0x1_0000_0000,
    ensures
        be32_val(be32_bytes(v)) == v,
{
    let b = be32_bytes(v);
    assert(b[0] == ((v / 0x100_0000) % 0x100) as u8);
    assert((v / 0x100_0000) % 0x100 * 0x100_0000 + (v / 0x1_0000) % 0x100 * 0x1_0000 + (v / 0x100)
        % 0x100 * 0x100 + v % 0x100 == v) by (nonlinear_arith)
        requires
            0 <= v < 0x1_0000_0000,
    ;
}

/// What the frame codec makes of the first 4 bytes of `input`: the payload
/// length still to be read, or the framing error. The declared length
/// counts its own 4 bytes, so anything below 4 is invalid and the payload
/// length is the declared length less 4.
pub open spec fn spec_frame_len(input: Seq<u8>) -> Result<int, FramingError> {
    if input.len() < 4 {
        Err(FramingError::Truncated)
    } else if be32_val(input) < 4 {
        Err(FramingError::InvalidLength)
    } else {
        Ok(be32_val(input) - 4)
    }
}

/// Reads the 4-byte big-endian frame length off the front of `input` and
/// returns how many payload bytes follow it.
///
/// Fails with `Truncated` when fewer than 4 bytes are available, and with
/// `InvalidLength` when the declared length cannot even cover the length
/// field itself, before any payload byte is looked at.
pub fn read_frame_length(input: &[u8]) -> (r: Result<usize, FramingError>)
    ensures
        match spec_frame_len(input@) {
            Ok(n) => r matches Ok(m) && m == n,
            Err(e) => r matches Err(a) && a == e,
        },
{
    if input.len() < 4 {
        return Err(FramingError::Truncated);
    }
    let v: u32 = (input[0] as u32) * 0x100_0000 + (input[1] as u32) * 0x1_0000 + (input[2] as u32)
        * 0x100 + (input[3] as u32);
    if v < 4 {
        return Err(FramingError::InvalidLength);
    }
    Ok((v - 4) as usize)
}

/// Takes exactly `n` bytes off the front of `input`, or fails with
/// `Truncated` when the source holds fewer. No upper bound is imposed at
/// this layer; the decoders built on it cap the frame size themselves.
pub fn read_exact_payload(input: &[u8], n: usize) -> (r: Result<Vec<u8>, FramingError>)
    ensures
        match r {
            Ok(v) => n <= input@.len() && v@ == input@.subrange(0, n as int),
            Err(e) => e == FramingError::Truncated && input@.len() < n,
        },
{
    if input.len() < n {
        return Err(FramingError::Truncated);
    }
    Ok(slice_to_vec(slice_subrange(input, 0, n)))
}

/// Index of the first zero byte of `b`, or `b.len()` when there is none.
pub open spec fn first_zero(b: Seq<u8>) -> int
    decreases b.len(),
{
    if b.len() == 0 {
        0
    } else if b[0] == 0 {
        0
    } else {
        1 + first_zero(b.drop_first())
    }
}

/// What `first_zero` finds: a position within the buffer that holds the
/// first zero byte, or the buffer length when no byte is zero.
pub proof fn lemma_first_zero(b: Seq<u8>)
    ensures
        0 <= first_zero(b) <= b.len(),
        first_zero(b) < b.len() ==> b[first_zero(b)] == 0,
        forall|j: int| 0 <= j < first_zero(b) ==> b[j] != 0,
    decreases b.len(),
{
    if b.len() > 0 && b[0] != 0 {
        lemma_first_zero(b.drop_first());
        assert forall|j: int| 0 <= j < first_zero(b) implies b[j] != 0 by {
            if j > 0 {
                assert(b.drop_first()[j - 1] == b[j]);
                assert(j - 1 < first_zero(b.drop_first()));
            }
        }
    }
}

/// `first_zero` is pinned by its defining properties: if everything before
/// `k` is nonzero and `k` is a zero byte (or the end), then `k` is it.
pub proof fn lemma_first_zero_at(b: Seq<u8>, k: int)
    requires
        0 <= k <= b.len(),
        forall|j: int| 0 <= j < k ==> b[j] != 0,
        k < b.len() ==> b[k] == 0,
    ensures
        first_zero(b) == k,
{
    lemma_first_zero(b);
}

/// What the frame codec makes of a C-string at the front of `b`: the
/// decoded characters and the count of bytes consumed (terminator
/// included), or the framing error. The scan fails with
/// `UnterminatedString` when no zero byte is found, and with `InvalidUtf8`
/// when the bytes before the terminator are not a UTF-8 encoding.
pub open spec fn spec_read_cstring(b: Seq<u8>) -> Result<(Seq<char>, int), FramingError> {
    let k = first_zero(b);
    if k == b.len() {
        Err(FramingError::UnterminatedString)
    } else if !valid_utf8(b.subrange(0, k)) {
        Err(FramingError::InvalidUtf8)
    } else {
        Ok((decode_utf8(b.subrange(0, k)), k + 1))
    }
}

/// Relies on `String::from_utf8`: it returns a string exactly when the
/// bytes are a valid UTF-8 encoding, and that string's characters are the
/// ones the bytes encode, as vstd's `valid_utf8` and `decode_utf8` state
/// them.
#[verifier::external_body]
fn string_from_utf8(bytes: Vec<u8>) -> (r: Option<String>)
    ensures
        r is Some <==> valid_utf8(bytes@),
        r matches Some(s) ==> s@ == decode_utf8(bytes@),
{
    String::from_utf8(bytes).ok()
}

/// Scans `b` for the zero terminator and decodes the bytes before it as a
/// UTF-8 string. On success the returned count covers the terminator, so
/// the caller's cursor moves past it.
pub fn read_cstring(b: &[u8]) -> (r: Result<(String, usize), FramingError>)
    ensures
        match spec_read_cstring(b@) {
            Ok((s, n)) => r matches Ok(p) && p.0@ == s && p.1 == n,
            Err(e) => r matches Err(a) && a == e,
        },
{
    let mut i: usize = 0;
    while i < b.len() && b[i] != 0
        invariant
            0 <= i <= b@.len(),
            forall|j: int| 0 <= j < i ==> b@[j] != 0,
        decreases b@.len() - i,
    {
        i = i + 1;
    }
    proof {
        lemma_first_zero_at(b@, i as int);
    }
    if i == b.len() {
        return Err(FramingError::UnterminatedString);
    }
    let raw = slice_to_vec(slice_subrange(b, 0, i));
    match string_from_utf8(raw) {
        None => Err(FramingError::InvalidUtf8),
        Some(s) => Ok((s, i + 1)),
    }
}

/// What the startup decoder makes of the parameter section of a plaintext
/// startup payload: key/value C-string pairs read in order until the group
/// terminator (a zero byte where the next key would start).
///
/// A value may be empty: a zero byte where a value starts is that value's
/// own terminator, as long as a byte follows it for the group terminator.
/// A section that ends without a terminator fails as truncated. When the
/// section's last byte is the terminator standing right where a value
/// should start, the key before it dangles — an odd number of strings
/// stood before the terminator, a malformed-but-complete frame surfaced
/// distinctly as `MalformedParameters`.
pub open spec fn spec_parse_params(b: Seq<u8>) -> Result<
    Seq<(Seq<char>, Seq<char>)>,
    DecodeError,
>
    decreases b.len(),
    via spec_parse_params_decreases
{
    if b.len() == 0 {
        Err(DecodeError::Framing(FramingError::Truncated))
    } else if b[0] == 0 {
        Ok(Seq::empty())
    } else {
        match spec_read_cstring(b) {
            Err(e) => Err(DecodeError::Framing(e)),
            Ok((key, n1)) => {
                let rest1 = b.subrange(n1, b.len() as int);
                if rest1.len() == 1 && rest1[0] == 0 {
                    Err(DecodeError::Protocol(ProtocolError::MalformedParameters))
                } else {
                    match spec_read_cstring(rest1) {
                        Err(e) => Err(DecodeError::Framing(e)),
                        Ok((value, n2)) => {
                            let rest2 = rest1.subrange(n2, rest1.len() as int);
                            match spec_parse_params(rest2) {
                                Err(e) => Err(e),
                                Ok(tail) => Ok(seq![(key, value)] + tail),
                            }
                        },
                    }
                }
            },
        }
    }
}

#[via_fn]
proof fn spec_parse_params_decreases(b: Seq<u8>) {
    if b.len() > 0 && b[0] != 0 {
        lemma_first_zero(b);
        if first_zero(b) < b.len() {
            let rest1 = b.subrange(first_zero(b) + 1, b.len() as int);
            lemma_first_zero(rest1);
        }
    }
}

/// What the startup decoder makes of a whole startup payload (the frame
/// with its length field already stripped): dispatch on the first 4 bytes
/// as a version tag.
///
/// The SSL sentinel is answered from those 4 bytes alone; protocol 3.0
/// hands the rest to the parameter grammar; any other tag is unsupported.
pub open spec fn spec_decode_startup_payload(p: Seq<u8>) -> Result<
    SpecStartupMessage,
    DecodeError,
> {
    if p.len() < 4 {
        Err(DecodeError::Framing(FramingError::Truncated))
    } else if be32_val(p) == VERSION_SSL {
        Ok(SpecStartupMessage::SslRequest)
    } else if be32_val(p) == VERSION_3 {
        match spec_parse_params(p.subrange(4, p.len() as int)) {
            Err(e) => Err(e),
            Ok(params) => Ok(SpecStartupMessage::Startup { params, version: VERSION_3 }),
        }
    } else {
        Err(DecodeError::Protocol(ProtocolError::UnsupportedVersion))
    }
}

/// What the startup decoder makes of a raw buffer that begins with a
/// startup frame: the decoded message and the count of bytes the frame
/// occupies, or the first error met. A frame whose declared payload
/// exceeds `MAX_FRAME_PAYLOAD` is rejected as `InvalidLength` before the
/// payload is looked at.
pub open spec fn spec_decode_startup(input: Seq<u8>) -> Result<
    (SpecStartupMessage, int),
    DecodeError,
> {
    match spec_frame_len(input) {
        Err(e) => Err(DecodeError::Framing(e)),
        Ok(n) => {
            if n > MAX_FRAME_PAYLOAD {
                Err(DecodeError::Framing(FramingError::InvalidLength))
            } else if input.len() < 4 + n {
                Err(DecodeError::Framing(FramingError::Truncated))
            } else {
                match spec_decode_startup_payload(input.subrange(4, 4 + n)) {
                    Err(e) => Err(e),
                    Ok(m) => Ok((m, 4 + n)),
                }
            }
        },
    }
}

/// Decodes the payload of a startup frame: the 4-byte version tag, then,
/// for protocol 3.0, the parameter section.
pub fn decode_startup_payload(payload: &[u8]) -> (r: Result<StartupMessage, DecodeError>)
    ensures
        match spec_decode_startup_payload(payload@) {
            Ok(m) => r matches Ok(msg) && msg@ == m,
            Err(e) => r matches Err(a) && a == e,
        },
{
    if payload.len() < 4 {
        return Err(DecodeError::Framing(FramingError::Truncated));
    }
    let version: u32 = (payload[0] as u32) * 0x100_0000 + (payload[1] as u32) * 0x1_0000 + (
    payload[2] as u32) * 0x100 + (payload[3] as u32);
    if version == VERSION_SSL {
        return Ok(StartupMessage::SslRequest);
    }
    if version != VERSION_3 {
        return Err(DecodeError::Protocol(ProtocolError::UnsupportedVersion));
    }
    let ghost body = payload@.subrange(4, payload@.len() as int);
    let mut pos: usize = 4;
    let mut params = ParameterMap::new();
    proof {
        assert(params@ + Seq::<(Seq<char>, Seq<char>)>::empty() =~= params@);
    }
    loop
        invariant
            4 <= pos <= payload@.len(),
            version == VERSION_3,
            body == payload@.subrange(4, payload@.len() as int),
            spec_decode_startup_payload(payload@) == (match spec_parse_params(body) {
                Err(e) => Err::<SpecStartupMessage, DecodeError>(e),
                Ok(ps) => Ok(
                    SpecStartupMessage::Startup { params: ps, version: VERSION_3 },
                ),
            }),
            (match spec_parse_params(payload@.subrange(pos as int, payload@.len() as int)) {
                Ok(tail) => spec_parse_params(body) == Ok::<_, DecodeError>(params@ + tail),
                Err(e) => spec_parse_params(body) == Err::<Seq<(Seq<char>, Seq<char>)>, _>(e),
            }),
        decreases payload@.len() - pos,
    {
        let ghost suffix = payload@.subrange(pos as int, payload@.len() as int);
        if pos == payload.len() {
            return Err(DecodeError::Framing(FramingError::Truncated));
        }
        if payload[pos] == 0 {
            proof {
                assert(suffix[0] == 0);
                assert(spec_parse_params(suffix) == Ok::<_, DecodeError>(
                    Seq::<(Seq<char>, Seq<char>)>::empty(),
                ));
                assert(params@ + Seq::<(Seq<char>, Seq<char>)>::empty() =~= params@);
            }
            return Ok(StartupMessage::Startup { params, version });
        }
        let rest = slice_subrange(payload, pos, payload.len());
        match read_cstring(rest) {
            Err(e) => {
                return Err(DecodeError::Framing(e));
            },
            Ok((key, n1)) => {
                proof {
                    lemma_first_zero(suffix);
                }
                let pos1 = pos + n1;
                let ghost rest1 = suffix.subrange(n1 as int, suffix.len() as int);
                proof {
                    assert(rest1 =~= payload@.subrange(pos1 as int, payload@.len() as int));
                }
                if pos1 < payload.len() && payload[pos1] == 0 && pos1 == payload.len() - 1 {
                    proof {
                        assert(rest1.len() == 1 && rest1[0] == 0);
                    }
                    return Err(DecodeError::Protocol(ProtocolError::MalformedParameters));
                }
                let rest1_slice = slice_subrange(payload, pos1, payload.len());
                match read_cstring(rest1_slice) {
                    Err(e) => {
                        return Err(DecodeError::Framing(e));
                    },
                    Ok((value, n2)) => {
                        proof {
                            lemma_first_zero(rest1);
                        }
                        let pos2 = pos1 + n2;
                        let ghost rest2 = rest1.subrange(n2 as int, rest1.len() as int);
                        proof {
                            assert(rest2 =~= payload@.subrange(
                                pos2 as int,
                                payload@.len() as int,
                            ));
                            assert(spec_parse_params(suffix) == (match spec_parse_params(rest2) {
                                Err(e) => Err::<Seq<(Seq<char>, Seq<char>)>, DecodeError>(e),
                                Ok(tail) => Ok(seq![(key@, value@)] + tail),
                            }));
                            if spec_parse_params(rest2) is Ok {
                                let tail = spec_parse_params(rest2)->Ok_0;
                                assert(params@ + (seq![(key@, value@)] + tail) =~= params@.push(
                                    (key@, value@),
                                ) + tail);
                            }
                        }
                        params.insert(key, value);
                        pos = pos2;
                    },
                }
            },
        }
    }
}

/// Decodes the first frame of a connection from the front of `input`:
/// 4-byte length, then the startup payload. On success the returned count
/// says how many bytes of `input` the frame occupied; a `Truncated` error
/// says the buffer does not yet hold the whole frame.
pub fn decode_startup(input: &[u8]) -> (r: Result<(StartupMessage, usize), DecodeError>)
    ensures
        match spec_decode_startup(input@) {
            Ok((m, n)) => r matches Ok(p) && p.0@ == m && p.1 == n,
            Err(e) => r matches Err(a) && a == e,
        },
{
    let n = match read_frame_length(input) {
        Err(e) => {
            return Err(DecodeError::Framing(e));
        },
        Ok(n) => n,
    };
    if n > MAX_FRAME_PAYLOAD {
        return Err(DecodeError::Framing(FramingError::InvalidLength));
    }
    if input.len() < 4 + n {
        return Err(DecodeError::Framing(FramingError::Truncated));
    }
    let payload = slice_subrange(input, 4, 4 + n);
    match decode_startup_payload(payload) {
        Err(e) => Err(e),
        Ok(msg) => Ok((msg, 4 + n)),
    }
}

/// What the password decoder makes of a buffer that begins with a
/// password message: the tag byte `'p'`, a frame, and the frame's payload
/// read as one C-string, the clear-text password.
pub open spec fn spec_decode_password(input: Seq<u8>) -> Result<(Seq<char>, int), DecodeError> {
    if input.len() < 1 {
        Err(DecodeError::Framing(FramingError::Truncated))
    } else if input[0] != PASSWORD_TAG {
        Err(DecodeError::Protocol(ProtocolError::UnexpectedMessageType))
    } else {
        match spec_frame_len(input.subrange(1, input.len() as int)) {
            Err(e) => Err(DecodeError::Framing(e)),
            Ok(n) => {
                if n > MAX_FRAME_PAYLOAD {
                    Err(DecodeError::Framing(FramingError::InvalidLength))
                } else if input.len() < 5 + n {
                    Err(DecodeError::Framing(FramingError::Truncated))
                } else {
                    match spec_read_cstring(input.subrange(5, 5 + n)) {
                        Err(e) => Err(DecodeError::Framing(e)),
                        Ok((password, _)) => Ok((password, 5 + n)),
                    }
                }
            },
        }
    }
}

/// Decodes a clear-text password message from the front of `input`.
///
/// A leading tag byte other than `'p'` (112) is rejected as
/// `UnexpectedMessageType` from that single byte, before any frame is
/// read. On success the returned count covers the tag and the frame.
pub fn decode_password(input: &[u8]) -> (r: Result<(StartupMessage, usize), DecodeError>)
    ensures
        match spec_decode_password(input@) {
            Ok((pw, n)) => r matches Ok(p) && p.0@ == (SpecStartupMessage::PasswordMessage {
                password: pw,
            }) && p.1 == n,
            Err(e) => r matches Err(a) && a == e,
        },
{
    if input.len() < 1 {
        return Err(DecodeError::Framing(FramingError::Truncated));
    }
    if input[0] != PASSWORD_TAG {
        return Err(DecodeError::Protocol(ProtocolError::UnexpectedMessageType));
    }
    let after_tag = slice_subrange(input, 1, input.len());
    let n = match read_frame_length(after_tag) {
        Err(e) => {
            return Err(DecodeError::Framing(e));
        },
        Ok(n) => n,
    };
    if n > MAX_FRAME_PAYLOAD {
        return Err(DecodeError::Framing(FramingError::InvalidLength));
    }
    if input.len() < 5 + n {
        return Err(DecodeError::Framing(FramingError::Truncated));
    }
    let payload = slice_subrange(input, 5, 5 + n);
    match read_cstring(payload) {
        Err(e) => Err(DecodeError::Framing(e)),
        Ok((password, _consumed)) => Ok((StartupMessage::PasswordMessage { password }, 5 + n)),
    }
}

/// True when `s` holds no NUL character. Only such strings can travel as
/// C-strings, whose zero byte is the terminator.
pub open spec fn no_nul(s: Seq<char>) -> bool {
    forall|i: int| 0 <= i < s.len() ==> s[i] != '\0'
}

/// True when `s` can stand as a key of a startup parameter section:
/// non-empty (an empty key's first byte is where the group terminator is
/// read) and NUL-free. A value needs only `no_nul`: empty values travel
/// fine.
pub open spec fn param_key_ok(s: Seq<char>) -> bool {
    s.len() > 0 && no_nul(s)
}

/// The wire bytes of one C-string: the UTF-8 encoding of `s`, then the
/// zero terminator.
pub open spec fn spec_cstring_bytes(s: Seq<char>) -> Seq<u8> {
    encode_utf8(s) + seq![0u8]
}

/// The wire bytes of the parameter section, without the group terminator:
/// each pair as two C-strings, in order.
pub open spec fn spec_params_bytes(params: Seq<(Seq<char>, Seq<char>)>) -> Seq<u8>
    decreases params.len(),
{
    if params.len() == 0 {
        Seq::empty()
    } else {
        spec_cstring_bytes(params[0].0) + spec_cstring_bytes(params[0].1) + spec_params_bytes(
            params.drop_first(),
        )
    }
}

/// The payload of a plaintext startup frame: the protocol 3.0 version tag,
/// the parameter section, the group terminator.
pub open spec fn spec_startup_payload(params: Seq<(Seq<char>, Seq<char>)>) -> Seq<u8> {
    be32_bytes(VERSION_3 as int) + spec_params_bytes(params) + seq![0u8]
}

/// A whole startup frame: the self-counting length field, then the
/// payload.
pub open spec fn spec_startup_frame(params: Seq<(Seq<char>, Seq<char>)>) -> Seq<u8> {
    be32_bytes(spec_startup_payload(params).len() as int + 4) + spec_startup_payload(params)
}

/// The 8 bytes of an SSL negotiation request: length 8, then the sentinel
/// version tag.
pub open spec fn spec_ssl_request_frame() -> Seq<u8> {
    be32_bytes(8) + be32_bytes(VERSION_SSL as int)
}

/// A whole password message: the tag byte `'p'`, the length field, and the
/// password as one C-string.
pub open spec fn spec_password_frame(password: Seq<char>) -> Seq<u8> {
    seq![PASSWORD_TAG] + be32_bytes(encode_utf8(password).len() as int + 5) + spec_cstring_bytes(password)
}

/// True when `params` can be encoded as a startup frame that this module's
/// own decoder accepts: every key non-empty and NUL-free, every value
/// NUL-free (values may be empty), and the payload within the frame-size
/// ceiling.
pub open spec fn params_encodable(params: Seq<(Seq<char>, Seq<char>)>) -> bool {
    &&& forall|i: int|
        0 <= i < params.len() ==> param_key_ok(#[trigger] params[i].0) && no_nul(params[i].1)
    &&& spec_params_bytes(params).len() + 5 <= MAX_FRAME_PAYLOAD
}

/// True when `password` can be encoded as a password message that this
/// module's own decoder accepts: NUL-free and within the frame-size
/// ceiling. An empty password is allowed; it travels as a lone terminator.
pub open spec fn password_encodable(password: Seq<char>) -> bool {
    no_nul(password) && encode_utf8(password).len() + 1 <= MAX_FRAME_PAYLOAD
}

proof fn lemma_encode_scalar_nul(u: u32)
    requires
        is_scalar(u),
    ensures
        u != 0 ==> forall|j: int| 0 <= j < encode_scalar(u).len() ==> encode_scalar(u)[j] != 0,
        u == 0 ==> encode_scalar(u)[0] == 0,
{
    if has_width_1_encoding(u) {
        let b1 = leading_byte_width_1(u);
        assert((u == 0 ==> b1 == 0) && (u != 0 ==> b1 != 0)) by (bit_vector)
            requires
                u <= 0x7F && b1 == (u & 0x7F) as u8,
        ;
    } else if has_width_2_encoding(u) {
        let b1 = leading_byte_width_2(u);
        let b2 = last_continuation_byte(u);
        assert(b1 != 0 && b2 != 0) by (bit_vector)
            requires
                b1 == 0xC0u8 | ((u >> 6) & 0x1F) as u8 && b2 == 0x80u8 | (u & 0x3F) as u8,
        ;
    } else if has_width_3_encoding(u) {
        let b1 = leading_byte_width_3(u);
        let b2 = second_last_continuation_byte(u);
        let b3 = last_continuation_byte(u);
        assert(b1 != 0 && b2 != 0 && b3 != 0) by (bit_vector)
            requires
                b1 == 0xE0u8 | ((u >> 12) & 0x0F) as u8 && b2 == 0x80u8 | ((u >> 6) & 0x3F) as u8
                    && b3 == 0x80u8 | (u & 0x3F) as u8,
        ;
    } else {
        let b1 = leading_byte_width_4(u);
        let b2 = third_last_continuation_byte(u);
        let b3 = second_last_continuation_byte(u);
        let b4 = last_continuation_byte(u);
        assert(b1 != 0 && b2 != 0 && b3 != 0 && b4 != 0) by (bit_vector)
            requires
                b1 == 0xF0u8 | ((u >> 18) & 0x7) as u8 && b2 == 0x80u8 | ((u >> 12) & 0x3F) as u8
                    && b3 == 0x80u8 | ((u >> 6) & 0x3F) as u8 && b4 == 0x80u8 | (u & 0x3F) as u8,
        ;
    }
}

/// A character sequence is NUL-free exactly when its UTF-8 encoding holds
/// no zero byte.
pub proof fn lemma_encode_nul(s: Seq<char>)
    ensures
        no_nul(s) <==> (forall|j: int|
            0 <= j < encode_utf8(s).len() ==> #[trigger] encode_utf8(s)[j] != 0),
    decreases s.len(),
{
    if s.len() > 0 {
        let c = s[0];
        let u = c as u32;
        let e = encode_scalar(u);
        let rest = encode_utf8(s.drop_first());
        assert(encode_utf8(s) == e + rest);
        lemma_encode_nul(s.drop_first());
        char_is_scalar(c);
        char_u32_cast(c, u);
        lemma_encode_scalar_nul(u);
        if no_nul(s) {
            assert(no_nul(s.drop_first()));
            assert(c != '\0');
            assert(u != 0) by {
                if u == 0 {
                    assert(c == 0u32 as char);
                    assert('\0' as u32 == 0);
                    char_u32_cast('\0', 0);
                }
            }
            assert forall|j: int| 0 <= j < encode_utf8(s).len() implies #[trigger] encode_utf8(
                s,
            )[j] != 0 by {
                if j < e.len() {
                    assert(encode_utf8(s)[j] == e[j]);
                } else {
                    assert(encode_utf8(s)[j] == rest[j - e.len()]);
                }
            }
        } else {
            if c == '\0' {
                assert(u == 0) by {
                    assert('\0' as u32 == 0);
                }
                assert(encode_utf8(s)[0] == e[0]);
                assert(encode_utf8(s)[0] == 0);
            } else {
                assert(!no_nul(s.drop_first())) by {
                    let i = choose|i: int| 0 <= i < s.len() && s[i] == '\0';
                    assert(s.drop_first()[i - 1] == '\0');
                }
                let j = choose|j: int| 0 <= j < rest.len() && #[trigger] rest[j] == 0;
                assert(encode_utf8(s)[e.len() + j] == 0);
            }
        }
    }
}

/// The UTF-8 encoding of `s` is empty exactly when `s` is.
pub proof fn lemma_encode_len(s: Seq<char>)
    ensures
        (encode_utf8(s).len() == 0) <==> (s.len() == 0),
{
    if s.len() > 0 {
        char_is_scalar(s[0]);
        assert(encode_scalar(s[0] as u32).len() >= 1);
        assert(encode_utf8(s).len() >= 1);
    }
}

/// Appends the 4-byte big-endian encoding of `v` to `out`.
pub fn push_u32_be(out: &mut Vec<u8>, v: u32)
    ensures
        final(out)@ == old(out)@ + be32_bytes(v as int),
{
    out.push((v / 0x100_0000 % 0x100) as u8);
    out.push((v / 0x1_0000 % 0x100) as u8);
    out.push((v / 0x100 % 0x100) as u8);
    out.push((v % 0x100) as u8);
    proof {
        assert(out@ =~= old(out)@ + be32_bytes(v as int));
    }
}

/// Appends the C-string encoding of `s` to `out`, or leaves `out` as it
/// was and returns false when `s` holds a NUL character and so cannot be
/// framed as a C-string.
fn push_cstring(out: &mut Vec<u8>, s: &String) -> (ok: bool)
    ensures
        ok <==> no_nul(s@),
        ok ==> final(out)@ == old(out)@ + spec_cstring_bytes(s@),
        !ok ==> final(out)@ == old(out)@,
{
    let bytes = s.as_str().as_bytes_vec();
    let mut j: usize = 0;
    while j < bytes.len()
        invariant
            0 <= j <= bytes@.len(),
            bytes@ == encode_utf8(s@),
            forall|i: int| 0 <= i < j ==> bytes@[i] != 0,
        decreases bytes@.len() - j,
    {
        if bytes[j] == 0 {
            proof {
                lemma_encode_nul(s@);
            }
            return false;
        }
        j = j + 1;
    }
    proof {
        lemma_encode_nul(s@);
    }
    let mut bytes = bytes;
    out.append(&mut bytes);
    out.push(0);
    proof {
        assert(out@ =~= old(out)@ + spec_cstring_bytes(s@));
    }
    true
}

/// `spec_params_bytes` grows at the back pair by pair.
pub proof fn lemma_params_bytes_snoc(params: Seq<(Seq<char>, Seq<char>)>, p: (Seq<char>, Seq<char>))
    ensures
        spec_params_bytes(params.push(p)) == spec_params_bytes(params) + spec_cstring_bytes(p.0)
            + spec_cstring_bytes(p.1),
    decreases params.len(),
{
    if params.len() == 0 {
        assert(params.push(p).drop_first() =~= params);
        assert(spec_params_bytes(params.push(p)) =~= spec_params_bytes(params)
            + spec_cstring_bytes(p.0) + spec_cstring_bytes(p.1));
    } else {
        assert(params.push(p).drop_first() =~= params.drop_first().push(p));
        lemma_params_bytes_snoc(params.drop_first(), p);
        assert(spec_params_bytes(params.push(p)) =~= spec_params_bytes(params)
            + spec_cstring_bytes(p.0) + spec_cstring_bytes(p.1));
    }
}

/// Builds the startup frame that carries `params`: length field, protocol
/// 3.0 version tag, each pair as two C-strings, group terminator.
///
/// Returns `None`, and only then, when the pairs cannot travel in a
/// startup frame: a key that is empty or holds a NUL character, a value
/// that holds a NUL character, or a payload over the frame-size ceiling.
/// An empty value encodes fine, as a lone terminator byte.
#[verifier::rlimit(50)]
pub fn encode_startup(params: &ParameterMap) -> (r: Option<Vec<u8>>)
    ensures
        r is Some <==> params_encodable(params@),
        r matches Some(v) ==> v@ == spec_startup_frame(params@),
{
    let mut payload: Vec<u8> = Vec::new();
    push_u32_be(&mut payload, VERSION_3);
    proof {
        assert(params@.take(0) =~= Seq::<(Seq<char>, Seq<char>)>::empty());
        assert(payload@ =~= be32_bytes(VERSION_3 as int) + spec_params_bytes(params@.take(0)));
    }
    let n = params.len();
    let mut i: usize = 0;
    while i < n
        invariant
            0 <= i <= n,
            n == params@.len(),
            payload@ == be32_bytes(VERSION_3 as int) + spec_params_bytes(params@.take(i as int)),
            forall|j: int|
                0 <= j < i ==> param_key_ok(#[trigger] params@[j].0) && no_nul(params@[j].1),
        decreases n - i,
    {
        let ghost done = params@.take(i as int);
        let key = params.key_at(i);
        if key.as_str().is_empty() {
            proof {
                lemma_encode_len(key@);
                assert(!param_key_ok(params@[i as int].0));
            }
            return None;
        }
        proof {
            lemma_encode_len(key@);
        }
        if !push_cstring(&mut payload, key) {
            proof {
                assert(!param_key_ok(params@[i as int].0));
            }
            return None;
        }
        let value = params.value_at(i);
        if !push_cstring(&mut payload, value) {
            proof {
                assert(!no_nul(params@[i as int].1));
            }
            return None;
        }
        proof {
            assert forall|j: int|
                0 <= j < i + 1 implies param_key_ok(#[trigger] params@[j].0) && no_nul(
                params@[j].1,
            ) by {
                if j == i as int {
                    assert(params@[j].0 == key@);
                    assert(params@[j].1 == value@);
                }
            }
            lemma_params_bytes_snoc(done, params@[i as int]);
            assert(params@.take(i as int + 1) =~= done.push(params@[i as int]));
            assert(payload@ =~= be32_bytes(VERSION_3 as int) + spec_params_bytes(
                params@.take(i as int + 1),
            ));
        }
        i = i + 1;
    }
    proof {
        assert(params@.take(n as int) =~= params@);
    }
    payload.push(0);
    proof {
        assert(payload@ =~= spec_startup_payload(params@));
    }
    if payload.len() > MAX_FRAME_PAYLOAD {
        return None;
    }
    let frame_len = (payload.len() + 4) as u32;
    let mut frame: Vec<u8> = Vec::new();
    push_u32_be(&mut frame, frame_len);
    frame.append(&mut payload);
    proof {
        assert(frame@ =~= spec_startup_frame(params@));
    }
    Some(frame)
}

/// Builds the 8-byte SSL negotiation request: length 8, then the sentinel
/// version tag and nothing else.
pub fn encode_ssl_request() -> (v: Vec<u8>)
    ensures
        v@ == spec_ssl_request_frame(),
{
    let mut frame: Vec<u8> = Vec::new();
    push_u32_be(&mut frame, 8);
    push_u32_be(&mut frame, VERSION_SSL);
    proof {
        assert(frame@ =~= spec_ssl_request_frame());
    }
    frame
}

/// Builds the password message that carries `password`: the tag byte
/// `'p'`, the length field, and the password as one C-string.
///
/// Returns `None`, and only then, when the password holds a NUL character
/// or overruns the frame-size ceiling. An empty password encodes fine.
pub fn encode_password(password: &String) -> (r: Option<Vec<u8>>)
    ensures
        r is Some <==> password_encodable(password@),
        r matches Some(v) ==> v@ == spec_password_frame(password@),
{
    let mut payload: Vec<u8> = Vec::new();
    if !push_cstring(&mut payload, password) {
        return None;
    }
    if payload.len() > MAX_FRAME_PAYLOAD {
        return None;
    }
    let frame_len = (payload.len() + 4) as u32;
    let mut frame: Vec<u8> = Vec::new();
    frame.push(PASSWORD_TAG);
    push_u32_be(&mut frame, frame_len);
    frame.append(&mut payload);
    proof {
        assert(frame@ =~= spec_password_frame(password@));
    }
    Some(frame)
}

/// A frame whose declared length cannot cover the length field itself is
/// rejected as `InvalidLength` from those 4 bytes alone: whatever else the
/// buffer holds, no payload is ever looked at.
pub proof fn lemma_short_declared_length_rejected(input: Seq<u8>)
    requires
        input.len() >= 4,
        be32_val(input) < 4,
    ensures
        spec_decode_startup(input) == Err::<(SpecStartupMessage, int), _>(
            DecodeError::Framing(FramingError::InvalidLength),
        ),
{
}

/// A startup payload that opens with the SSL sentinel decodes to
/// `SslRequest` from those 4 bytes alone: whatever the rest of the
/// payload holds, no parameter map is ever read.
pub proof fn lemma_ssl_sentinel_payload(p: Seq<u8>)
    requires
        p.len() >= 4,
        be32_val(p) == VERSION_SSL,
    ensures
        spec_decode_startup_payload(p) == Ok::<_, DecodeError>(SpecStartupMessage::SslRequest),
{
}

/// A startup payload that opens with a version tag that is neither the
/// SSL sentinel nor protocol 3.0 fails as `UnsupportedVersion`, whatever
/// bytes follow the tag.
pub proof fn lemma_unsupported_version_rejected(p: Seq<u8>)
    requires
        p.len() >= 4,
        be32_val(p) != VERSION_SSL,
        be32_val(p) != VERSION_3,
    ensures
        spec_decode_startup_payload(p) == Err::<SpecStartupMessage, _>(
            DecodeError::Protocol(ProtocolError::UnsupportedVersion),
        ),
{
}

/// A buffer that opens with any tag byte other than `'p'` is rejected as
/// `UnexpectedMessageType` from that single byte: the frame that would
/// follow is never consumed, whatever it holds.
pub proof fn lemma_password_bad_tag_rejected(input: Seq<u8>)
    requires
        input.len() >= 1,
        input[0] != PASSWORD_TAG,
    ensures
        spec_decode_password(input) == Err::<(Seq<char>, int), _>(
            DecodeError::Protocol(ProtocolError::UnexpectedMessageType),
        ),
{
}

/// Reading a C-string off a buffer that starts with the encoding of a
/// NUL-free string gives exactly that string back and consumes exactly its
/// encoding and the terminator, whatever follows.
pub proof fn lemma_read_cstring_of_encoding(s: Seq<char>, rest: Seq<u8>)
    requires
        no_nul(s),
    ensures
        spec_read_cstring(spec_cstring_bytes(s) + rest) == Ok::<(Seq<char>, int), FramingError>(
            (s, encode_utf8(s).len() as int + 1),
        ),
{
    let e = encode_utf8(s);
    let b = spec_cstring_bytes(s) + rest;
    lemma_encode_nul(s);
    assert forall|j: int| 0 <= j < e.len() implies b[j] != 0 by {
        assert(b[j] == e[j]);
    }
    assert(b[e.len() as int] == 0);
    lemma_first_zero_at(b, e.len() as int);
    assert(b.subrange(0, e.len() as int) =~= e);
    encode_utf8_valid_utf8(s);
    encode_utf8_decode_utf8(s);
}

/// Parsing the encoded parameter section of encodable pairs, up to and
/// including the group terminator, yields exactly those pairs: the
/// heart of the startup round trip.
pub proof fn lemma_parse_params_of_encoding(params: Seq<(Seq<char>, Seq<char>)>)
    requires
        forall|i: int|
            0 <= i < params.len() ==> param_key_ok(#[trigger] params[i].0) && no_nul(
                params[i].1,
            ),
    ensures
        spec_parse_params(spec_params_bytes(params) + seq![0u8]) == Ok::<_, DecodeError>(params),
    decreases params.len(),
{
    let b = spec_params_bytes(params) + seq![0u8];
    if params.len() == 0 {
        assert(b =~= seq![0u8]);
        assert(spec_parse_params(b) == Ok::<_, DecodeError>(Seq::<(Seq<char>, Seq<char>)>::empty()));
        assert(Seq::<(Seq<char>, Seq<char>)>::empty() =~= params);
    } else {
        let k = params[0].0;
        let v = params[0].1;
        let tail_bytes = spec_params_bytes(params.drop_first()) + seq![0u8];
        let after_key = spec_cstring_bytes(v) + tail_bytes;
        assert(b =~= spec_cstring_bytes(k) + after_key);
        lemma_read_cstring_of_encoding(k, after_key);
        lemma_encode_nul(k);
        lemma_encode_len(k);
        assert(b[0] == encode_utf8(k)[0]);
        assert(b[0] != 0);
        let n1 = encode_utf8(k).len() as int + 1;
        assert(b.subrange(n1, b.len() as int) =~= after_key);
        lemma_read_cstring_of_encoding(v, tail_bytes);
        lemma_encode_nul(v);
        lemma_encode_len(v);
        // The dangling-key guard is not hit: behind the value's encoding
        // there always stands at least the group terminator, so when the
        // value is empty more than that one zero byte remains.
        assert(after_key.len() >= 2);
        if encode_utf8(v).len() > 0 {
            assert(after_key[0] == encode_utf8(v)[0]);
            assert(after_key[0] != 0);
        }
        let n2 = encode_utf8(v).len() as int + 1;
        assert(after_key.subrange(n2, after_key.len() as int) =~= tail_bytes);
        assert forall|i: int|
            0 <= i < params.drop_first().len() implies param_key_ok(
            #[trigger] params.drop_first()[i].0,
        ) && no_nul(params.drop_first()[i].1) by {
            assert(params.drop_first()[i] == params[i + 1]);
        }
        lemma_parse_params_of_encoding(params.drop_first());
        assert(seq![(k, v)] + params.drop_first() =~= params);
    }
}

/// Round trip of the plaintext startup path: the frame built from any
/// encodable parameter list decodes back to exactly those pairs, in
/// order, and consumes the whole frame.
pub proof fn lemma_startup_round_trip(params: Seq<(Seq<char>, Seq<char>)>)
    requires
        params_encodable(params),
    ensures
        spec_decode_startup(spec_startup_frame(params)) == Ok::<_, DecodeError>(
            (
                SpecStartupMessage::Startup { params, version: VERSION_3 },
                spec_startup_frame(params).len() as int,
            ),
        ),
{
    let payload = spec_startup_payload(params);
    let frame = spec_startup_frame(params);
    let n = payload.len() as int;
    lemma_be32_round_trip(n + 4);
    let lenfield = be32_bytes(n + 4);
    assert(frame[0] == lenfield[0] && frame[1] == lenfield[1] && frame[2] == lenfield[2] && frame[3]
        == lenfield[3]);
    assert(be32_val(frame) == n + 4);
    assert(spec_frame_len(frame) == Ok::<int, FramingError>(n));
    assert(frame.subrange(4, 4 + n) =~= payload);
    lemma_be32_round_trip(VERSION_3 as int);
    let vfield = be32_bytes(VERSION_3 as int);
    assert(payload[0] == vfield[0] && payload[1] == vfield[1] && payload[2] == vfield[2]
        && payload[3] == vfield[3]);
    assert(be32_val(payload) == VERSION_3);
    assert(payload.subrange(4, payload.len() as int) =~= spec_params_bytes(params) + seq![0u8]);
    lemma_parse_params_of_encoding(params);
}

/// Round trip of the SSL negotiation request: the 8-byte sentinel frame
/// decodes to `SslRequest` from its 4 payload bytes alone, with no
/// parameter section ever entered.
pub proof fn lemma_ssl_request_round_trip()
    ensures
        spec_decode_startup(spec_ssl_request_frame()) == Ok::<_, DecodeError>(
            (SpecStartupMessage::SslRequest, 8int),
        ),
{
    let frame = spec_ssl_request_frame();
    assert(be32_bytes(8) =~= seq![0u8, 0u8, 0u8, 8u8]);
    assert(be32_bytes(VERSION_SSL as int) =~= seq![0x04u8, 0xD2u8, 0x16u8, 0x2Fu8]);
    assert(frame =~= seq![0u8, 0u8, 0u8, 8u8, 0x04u8, 0xD2u8, 0x16u8, 0x2Fu8]);
    assert(be32_val(frame) == 8);
    assert(spec_frame_len(frame) == Ok::<int, FramingError>(4));
    let payload = frame.subrange(4, 8);
    assert(payload =~= seq![0x04u8, 0xD2u8, 0x16u8, 0x2Fu8]);
    assert(be32_val(payload) == VERSION_SSL);
}

/// Round trip of the password path: the message built from any encodable
/// password decodes back to exactly that password and consumes the whole
/// message.
pub proof fn lemma_password_round_trip(password: Seq<char>)
    requires
        password_encodable(password),
    ensures
        spec_decode_password(spec_password_frame(password)) == Ok::<_, DecodeError>(
            (password, spec_password_frame(password).len() as int),
        ),
{
    let frame = spec_password_frame(password);
    let e = encode_utf8(password);
    let n = e.len() as int + 1;
    assert(frame[0] == PASSWORD_TAG);
    lemma_be32_round_trip(n + 4);
    let lenfield = be32_bytes(n + 4);
    let after_tag = frame.subrange(1, frame.len() as int);
    assert(after_tag[0] == lenfield[0] && after_tag[1] == lenfield[1] && after_tag[2] == lenfield[2]
        && after_tag[3] == lenfield[3]);
    assert(be32_val(after_tag) == n + 4);
    assert(spec_frame_len(after_tag) == Ok::<int, FramingError>(n));
    assert(frame.len() == 5 + n);
    assert(frame.subrange(5, 5 + n) =~= spec_cstring_bytes(password));
    assert(spec_cstring_bytes(password) =~= spec_cstring_bytes(password) + Seq::<u8>::empty());
    lemma_read_cstring_of_encoding(password, Seq::<u8>::empty());
}

/// The complement of the round trip for a peer that sends byte by byte:
/// any proper prefix of a well-formed startup frame decodes to
/// `Truncated`, so an accumulating reader neither misreads a part of the
/// frame nor stops early.
pub proof fn lemma_startup_frame_prefix_truncated(params: Seq<(Seq<char>, Seq<char>)>, m: int)
    requires
        params_encodable(params),
        0 <= m < spec_startup_frame(params).len(),
    ensures
        spec_decode_startup(spec_startup_frame(params).subrange(0, m)) == Err::<
            (SpecStartupMessage, int),
            DecodeError,
        >(DecodeError::Framing(FramingError::Truncated)),
{
    let frame = spec_startup_frame(params);
    let p = frame.subrange(0, m);
    let n = spec_startup_payload(params).len() as int;
    if m >= 4 {
        lemma_be32_round_trip(n + 4);
        let lenfield = be32_bytes(n + 4);
        assert(p[0] == lenfield[0] && p[1] == lenfield[1] && p[2] == lenfield[2] && p[3]
            == lenfield[3]);
        assert(be32_val(p) == n + 4);
        assert(spec_frame_len(p) == Ok::<int, FramingError>(n));
        assert(p.len() < 4 + n);
    }
}

/// Chunking independence of the startup decoder: once a buffer holds
/// enough bytes for a successful decode, feeding in more bytes (however
/// the peer chunked them) cannot change the result.
pub proof fn lemma_decode_startup_prefix_stable(b1: Seq<u8>, b2: Seq<u8>)
    requires
        b1.len() <= b2.len(),
        b1 == b2.subrange(0, b1.len() as int),
        spec_decode_startup(b1) is Ok,
    ensures
        spec_decode_startup(b2) == spec_decode_startup(b1),
{
    assert forall|i: int| 0 <= i < b1.len() implies b1[i] == b2[i] by {
        assert(b1[i] == b2.subrange(0, b1.len() as int)[i]);
    }
    assert(be32_val(b2) == be32_val(b1));
    let n = spec_frame_len(b1)->Ok_0;
    assert(b2.subrange(4, 4 + n) =~= b1.subrange(4, 4 + n));
}

} // verus!
