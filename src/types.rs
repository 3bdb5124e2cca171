//! Identifiers, tokens and queued messages, each with its binary encoding.

use vstd::prelude::*;
use crate::wire::{
    lemma_u64_round_trip, parse_u64, read_u64, u64_bytes, write_u64, MAX_VL_LEN,
    lemma_vl_bytes_round_trip, parse_vl_bytes, vl_bytes_error, read_vl_bytes, rest_from, vl_bytes, write_bytes,
    write_vl_bytes, CodecError,
};

verus! {

/// Length in bytes of a group identifier.
pub const UUID_LENGTH: usize = 16;

/// Length in bytes of an authentication token.
pub const AUTH_TOKEN_LENGTH: usize = 32;

/// Largest length in bytes of a client identifier.
pub const MAX_CLIENT_ID_LEN: usize = 999;

#[verifier::external_type_specification]
#[verifier::external_body]
pub struct ExUuidError(uuid::Error);

/// Relies on `uuid::Uuid::new_v4`: sixteen random bytes, with the version
/// nibble set to 4 and the variant bits to `10`.
#[verifier::external_body]
fn random_uuid_bytes() -> (r: [u8; 16])
    ensures
        r@.len() == UUID_LENGTH,
        r@[6] >> 4u8 == 4,
        r@[8] >> 6u8 == 2,
{
    *uuid::Uuid::new_v4().as_bytes()
}

/// Relies on `uuid::Uuid::from_slice`: it accepts exactly sixteen bytes and
/// keeps them as they are.
#[verifier::external_body]
fn uuid_bytes_from_slice(b: &[u8]) -> (r: Result<[u8; 16], uuid::Error>)
    ensures
        r is Ok <==> b@.len() == UUID_LENGTH,
        r matches Ok(a) ==> a@ == b@,
{
    match uuid::Uuid::from_slice(b) {
        Ok(id) => Ok(*id.as_bytes()),
        Err(e) => Err(e),
    }
}

/// Reads sixteen raw bytes at `pos` into an array.
fn read_array16(bytes: &[u8], pos: usize) -> (r: [u8; 16])
    requires
        pos + UUID_LENGTH <= bytes@.len(),
    ensures
        r@ == bytes@.subrange(pos as int, pos + UUID_LENGTH),
{
    let mut a = [0u8; 16];
    let n = bytes.len();
    let mut i: usize = 0;
    while i < 16
        invariant
            i <= 16,
            n == bytes@.len(),
            pos + UUID_LENGTH <= bytes@.len(),
            a@.len() == 16,
            forall|j: int| 0 <= j < i ==> a@[j] == bytes@[pos + j],
        decreases 16 - i,
    {
        a[i] = bytes[pos + i];
        i = i + 1;
    }
    assert(a@ =~= bytes@.subrange(pos as int, pos + UUID_LENGTH));
    a
}

/// Reads 32 raw bytes at `pos` into an array.
fn read_array32(bytes: &[u8], pos: usize) -> (r: [u8; 32])
    requires
        pos + AUTH_TOKEN_LENGTH <= bytes@.len(),
    ensures
        r@ == bytes@.subrange(pos as int, pos + AUTH_TOKEN_LENGTH),
{
    let mut a = [0u8; 32];
    let n = bytes.len();
    let mut i: usize = 0;
    while i < 32
        invariant
            i <= 32,
            n == bytes@.len(),
            pos + AUTH_TOKEN_LENGTH <= bytes@.len(),
            a@.len() == 32,
            forall|j: int| 0 <= j < i ==> a@[j] == bytes@[pos + j],
        decreases 32 - i,
    {
        a[i] = bytes[pos + i];
        i = i + 1;
    }
    assert(a@ =~= bytes@.subrange(pos as int, pos + AUTH_TOKEN_LENGTH));
    a
}

/// Reads `len` raw bytes at the start of `s`.
pub open spec fn parse_fixed(s: Seq<u8>, len: nat) -> Option<(Seq<u8>, nat)> {
    if s.len() < len {
        None
    } else {
        Some((s.subrange(0, len as int), len))
    }
}

/// Raw fixed-width bytes read back as themselves, whatever follows them.
pub proof fn lemma_fixed_round_trip(b: Seq<u8>, rest: Seq<u8>)
    ensures
        parse_fixed(b + rest, b.len()) == Some((b, b.len())),
{
    assert((b + rest).subrange(0, b.len() as int) =~= b);
}

/// A 128-bit identifier, written on the wire as its sixteen raw bytes.
#[derive(Debug, Clone, Copy, PartialEq, Eq, Hash)]
pub struct TlsUuid {
    bytes: [u8; 16],
}

impl View for TlsUuid {
    type V = Seq<u8>;

    closed spec fn view(&self) -> Seq<u8> {
        self.bytes@
    }
}

impl TlsUuid {
    /// The identifier with the given bytes.
    pub fn from_bytes(bytes: [u8; 16]) -> (r: Self)
        ensures
            r@ == bytes@,
    {
        TlsUuid { bytes }
    }

    /// The sixteen bytes of the identifier.
    pub fn as_bytes(&self) -> (r: &[u8; 16])
        ensures
            r@ == self@,
    {
        &self.bytes
    }

    /// Number of bytes of the encoding.
    pub fn tls_serialized_len(&self) -> (r: usize)
        ensures
            r == UUID_LENGTH,
    {
        UUID_LENGTH
    }

    /// Appends the encoding: the sixteen raw bytes.
    pub fn encode(&self, out: &mut Vec<u8>)
        ensures
            final(out)@ == old(out)@ + self@,
    {
        write_bytes(out, self.bytes.as_slice());
    }

    /// Reads an identifier at `pos`.
    pub fn decode(bytes: &[u8], pos: usize) -> (r: Result<(Self, usize), CodecError>)
        requires
            pos <= bytes@.len(),
        ensures
            match parse_fixed(rest_from(bytes@, pos as int), UUID_LENGTH as nat) {
                Some((c, k)) => r matches Ok((v, p)) && v@ == c && p == pos + k,
                None => r == Err::<(Self, usize), CodecError>(CodecError::EndOfStream),
            },
    {
        if bytes.len() - pos < UUID_LENGTH {
            return Err(CodecError::EndOfStream);
        }
        let a = read_array16(bytes, pos);
        assert(rest_from(bytes@, pos as int).subrange(0, UUID_LENGTH as int) =~= a@);
        Ok((TlsUuid { bytes: a }, pos + UUID_LENGTH))
    }
}

/// The identifier of a client: a byte string of at most
/// `MAX_CLIENT_ID_LEN` bytes, written on the wire with a length prefix.
#[derive(Debug, PartialEq, Eq, Hash)]
pub struct DsClientId {
    id: Vec<u8>,
}

/// Why bytes do not make a client identifier.
#[derive(Debug, Clone, Copy, PartialEq, Eq, Structural)]
pub enum DsClientIdError {
    /// The credential is not a framed byte string.
    InvalidCredential(CodecError),
    /// The identity is longer than `MAX_CLIENT_ID_LEN` bytes.
    TooManyBytes,
}

impl View for DsClientId {
    type V = Seq<u8>;

    closed spec fn view(&self) -> Seq<u8> {
        self.id@
    }
}

/// Reads a client identifier at the start of `s`, rejecting one longer than
/// its bound.
pub open spec fn parse_client_id(s: Seq<u8>) -> Option<(Seq<u8>, nat)> {
    match parse_vl_bytes(s) {
        Some((c, k)) => if c.len() <= MAX_CLIENT_ID_LEN {
            Some((c, k))
        } else {
            None
        },
        None => None,
    }
}

impl DsClientId {
    #[verifier::type_invariant]
    spec fn bounded(&self) -> bool {
        self.id@.len() <= MAX_CLIENT_ID_LEN
    }

    /// The identifier with the given bytes, if there are at most
    /// `MAX_CLIENT_ID_LEN` of them.
    pub fn new(bytes: &[u8]) -> (r: Result<Self, DsClientIdError>)
        ensures
            bytes@.len() <= MAX_CLIENT_ID_LEN ==> (r matches Ok(id) && id@ == bytes@),
            bytes@.len() > MAX_CLIENT_ID_LEN ==> r == Err::<Self, DsClientIdError>(
                DsClientIdError::TooManyBytes,
            ),
    {
        if bytes.len() > MAX_CLIENT_ID_LEN {
            return Err(DsClientIdError::TooManyBytes);
        }
        let id = vstd::slice::slice_to_vec(bytes);
        Ok(DsClientId { id })
    }

    /// The identifier named by a serialized basic credential, whose content
    /// is the identity framed by its length prefix.
    pub fn from_serialized_credential(serialized_credential: &[u8]) -> (r: Result<
        Self,
        DsClientIdError,
    >)
        ensures
            match parse_vl_bytes(serialized_credential@) {
                Some((c, k)) => if k < serialized_credential@.len() {
                    r == Err::<Self, DsClientIdError>(
                        DsClientIdError::InvalidCredential(CodecError::TrailingData),
                    )
                } else if c.len() <= MAX_CLIENT_ID_LEN {
                    r matches Ok(id) && id@ == c
                } else {
                    r == Err::<Self, DsClientIdError>(DsClientIdError::TooManyBytes)
                },
                None => r == Err::<Self, DsClientIdError>(
                    DsClientIdError::InvalidCredential(vl_bytes_error(serialized_credential@)),
                ),
            },
            credential_error(serialized_credential@) matches Some(e) ==> r == Err::<
                Self,
                DsClientIdError,
            >(e),
            r is Ok <==> credential_client_id(serialized_credential@) is Some,
            r matches Ok(id) ==> credential_client_id(serialized_credential@) == Some(id@),
    {
        assert(rest_from(serialized_credential@, 0) =~= serialized_credential@);
        let (identity, end) = match read_vl_bytes(serialized_credential, 0) {
            Ok(v) => v,
            Err(e) => return Err(DsClientIdError::InvalidCredential(e)),
        };
        if end < serialized_credential.len() {
            return Err(DsClientIdError::InvalidCredential(CodecError::TrailingData));
        }
        Self::new(identity.as_slice())
    }

    /// The bytes of the identifier.
    pub fn as_bytes(&self) -> (r: &[u8])
        ensures
            r@ == self@,
            r@.len() <= MAX_CLIENT_ID_LEN,
    {
        proof {
            use_type_invariant(self);
        }
        self.id.as_slice()
    }

    /// A copy of the identifier.
    pub fn duplicate(&self) -> (r: Self)
        ensures
            r@ == self@,
    {
        proof {
            use_type_invariant(self);
        }
        DsClientId { id: vstd::slice::slice_to_vec(self.id.as_slice()) }
    }

    /// A readable rendering: the bytes as a bracketed decimal list.
    pub fn to_display_string(&self) -> (r: String)
        ensures
            r@ == debug_rendering(self@),
    {
        debug_list(self.id.as_slice())
    }

    /// Appends the encoding: the bytes framed by their length prefix.
    pub fn encode(&self, out: &mut Vec<u8>)
        ensures
            final(out)@ == old(out)@ + vl_bytes(self@),
    {
        proof {
            use_type_invariant(self);
        }
        write_vl_bytes(out, self.id.as_slice());
    }

    /// Reads an identifier at `pos`.
    pub fn decode(bytes: &[u8], pos: usize) -> (r: Result<(Self, usize), CodecError>)
        requires
            pos <= bytes@.len(),
        ensures
            match parse_client_id(rest_from(bytes@, pos as int)) {
                Some((c, k)) => r matches Ok((v, p)) && v@ == c && p == pos + k,
                None => r is Err,
            },
    {
        let (id, p) = read_vl_bytes(bytes, pos)?;
        if id.len() > MAX_CLIENT_ID_LEN {
            return Err(CodecError::IdentifierTooLong);
        }
        Ok((DsClientId { id }, p))
    }
}

/// The `Debug` rendering of a byte slice with the bytes `b`.
pub uninterp spec fn debug_rendering(b: Seq<u8>) -> Seq<char>;

/// Relies on the `Debug` rendering of a byte slice (`{:?}`), which depends
/// on the bytes alone.
#[verifier::external_body]
fn debug_list(b: &[u8]) -> (r: String)
    ensures
        r@ == debug_rendering(b@),
{
    format!("{:?}", b)
}

/// The identifier that a serialized basic credential names: its content, if
/// the credential is exactly one framed byte string of at most
/// `MAX_CLIENT_ID_LEN` bytes.
pub open spec fn credential_client_id(c: Seq<u8>) -> Option<Seq<u8>> {
    match parse_vl_bytes(c) {
        Some((id, k)) => if k == c.len() && id.len() <= MAX_CLIENT_ID_LEN {
            Some(id)
        } else {
            None
        },
        None => None,
    }
}

/// Why a serialized credential names no identifier, if it names none.
pub open spec fn credential_error(c: Seq<u8>) -> Option<DsClientIdError> {
    match parse_vl_bytes(c) {
        Some((id, k)) => if k < c.len() {
            Some(DsClientIdError::InvalidCredential(CodecError::TrailingData))
        } else if id.len() <= MAX_CLIENT_ID_LEN {
            None
        } else {
            Some(DsClientIdError::TooManyBytes)
        },
        None => Some(DsClientIdError::InvalidCredential(vl_bytes_error(c))),
    }
}

/// A client identifier reads back as itself, whatever follows it.
pub proof fn lemma_client_id_round_trip(id: Seq<u8>, rest: Seq<u8>)
    requires
        id.len() <= MAX_CLIENT_ID_LEN,
    ensures
        parse_client_id(vl_bytes(id) + rest) == Some((id, vl_bytes(id).len())),
{
    lemma_vl_bytes_round_trip(id, rest);
}

/// The identifier of a group: a 128-bit value, written on the wire as its
/// sixteen raw bytes.
#[derive(Debug, Clone, Copy, PartialEq, Eq, Hash)]
pub struct DsGroupId {
    id: TlsUuid,
}

/// Why bytes do not make a group identifier.
#[derive(Debug)]
pub enum DsGroupIdError {
    /// The bytes are not sixteen.
    InvalidUuid(uuid::Error),
}

impl View for DsGroupId {
    type V = Seq<u8>;

    closed spec fn view(&self) -> Seq<u8> {
        self.id@
    }
}

impl DsGroupId {
    /// A fresh random (version 4) identifier.
    pub fn new() -> (r: Self)
        ensures
            r@.len() == UUID_LENGTH,
            r@[6] >> 4u8 == 4,
            r@[8] >> 6u8 == 2,
    {
        DsGroupId { id: TlsUuid::from_bytes(random_uuid_bytes()) }
    }

    /// The identifier whose bytes are `b`, which must be sixteen.
    pub fn from_slice(b: &[u8]) -> (r: Result<Self, DsGroupIdError>)
        ensures
            r is Ok <==> b@.len() == UUID_LENGTH,
            r matches Ok(id) ==> id@ == b@,
    {
        match uuid_bytes_from_slice(b) {
            Ok(a) => Ok(DsGroupId { id: TlsUuid::from_bytes(a) }),
            Err(e) => Err(DsGroupIdError::InvalidUuid(e)),
        }
    }

    /// The identifier with the given bytes.
    pub fn from_bytes(bytes: [u8; 16]) -> (r: Self)
        ensures
            r@ == bytes@,
    {
        DsGroupId { id: TlsUuid::from_bytes(bytes) }
    }

    /// The sixteen bytes of the identifier.
    pub fn as_slice(&self) -> (r: &[u8; 16])
        ensures
            r@ == self@,
    {
        self.id.as_bytes()
    }

    /// Appends the encoding: the sixteen raw bytes.
    pub fn encode(&self, out: &mut Vec<u8>)
        ensures
            final(out)@ == old(out)@ + self@,
    {
        self.id.encode(out);
    }

    /// Reads an identifier at `pos`.
    pub fn decode(bytes: &[u8], pos: usize) -> (r: Result<(Self, usize), CodecError>)
        requires
            pos <= bytes@.len(),
        ensures
            match parse_fixed(rest_from(bytes@, pos as int), UUID_LENGTH as nat) {
                Some((c, k)) => r matches Ok((v, p)) && v@ == c && p == pos + k,
                None => r is Err,
            },
    {
        let (id, p) = TlsUuid::decode(bytes, pos)?;
        Ok((DsGroupId { id }, p))
    }
}

/// The secret that the service issues at registration: 32 bytes, written on
/// the wire as they are.
#[derive(Debug, Clone, Copy, PartialEq)]
pub struct AuthToken {
    token: [u8; 32],
}

impl View for AuthToken {
    type V = Seq<u8>;

    closed spec fn view(&self) -> Seq<u8> {
        self.token@
    }
}

impl AuthToken {
    /// The token with the given bytes.
    pub fn new(token: [u8; 32]) -> (r: Self)
        ensures
            r@ == token@,
    {
        AuthToken { token }
    }

    /// The 32 bytes of the token.
    pub fn as_bytes(&self) -> (r: &[u8; 32])
        ensures
            r@ == self@,
    {
        &self.token
    }

    /// Appends the encoding: the 32 raw bytes.
    pub fn encode(&self, out: &mut Vec<u8>)
        ensures
            final(out)@ == old(out)@ + self@,
            self@.len() == AUTH_TOKEN_LENGTH,
    {
        write_bytes(out, self.token.as_slice());
    }

    /// Reads a token at `pos`.
    pub fn decode(bytes: &[u8], pos: usize) -> (r: Result<(Self, usize), CodecError>)
        requires
            pos <= bytes@.len(),
        ensures
            match parse_fixed(rest_from(bytes@, pos as int), AUTH_TOKEN_LENGTH as nat) {
                Some((c, k)) => r matches Ok((v, p)) && v@ == c && p == pos + k,
                None => r == Err::<(Self, usize), CodecError>(CodecError::EndOfStream),
            },
    {
        if bytes.len() - pos < AUTH_TOKEN_LENGTH {
            return Err(CodecError::EndOfStream);
        }
        let a = read_array32(bytes, pos);
        assert(rest_from(bytes@, pos as int).subrange(0, AUTH_TOKEN_LENGTH as int) =~= a@);
        Ok((AuthToken { token: a }, pos + AUTH_TOKEN_LENGTH))
    }
}

/// What an authenticated request carries: the client's identifier and token.
#[derive(Debug)]
pub struct ClientCredentials {
    pub client_id: DsClientId,
    pub token: AuthToken,
}

/// The encoding of credentials: the identifier, then the token.
pub open spec fn credentials_wire(id: Seq<u8>, token: Seq<u8>) -> Seq<u8> {
    vl_bytes(id) + token
}

/// Reads credentials at the start of `s`: identifier and token bytes.
pub open spec fn parse_credentials(s: Seq<u8>) -> Option<((Seq<u8>, Seq<u8>), nat)> {
    match parse_client_id(s) {
        Some((id, k)) => match parse_fixed(s.subrange(k as int, s.len() as int), AUTH_TOKEN_LENGTH as nat) {
            Some((t, j)) => Some(((id, t), k + j)),
            None => None,
        },
        None => None,
    }
}

impl ClientCredentials {
    /// A copy of the client identifier.
    pub fn client_id(&self) -> (r: DsClientId)
        ensures
            r@ == self.client_id@,
    {
        self.client_id.duplicate()
    }

    /// Appends the encoding: the identifier, then the token.
    pub fn encode(&self, out: &mut Vec<u8>)
        ensures
            final(out)@ == old(out)@ + credentials_wire(self.client_id@, self.token@),
    {
        let ghost start = out@;
        self.client_id.encode(out);
        self.token.encode(out);
        assert(out@ =~= start + credentials_wire(self.client_id@, self.token@));
    }

    /// Reads credentials at `pos`.
    pub fn decode(bytes: &[u8], pos: usize) -> (r: Result<(Self, usize), CodecError>)
        requires
            pos <= bytes@.len(),
        ensures
            match parse_credentials(rest_from(bytes@, pos as int)) {
                Some((c, k)) => r matches Ok((v, p)) && v.client_id@ == c.0 && v.token@ == c.1
                    && p == pos + k,
                None => r is Err,
            },
    {
        let (client_id, p) = DsClientId::decode(bytes, pos)?;
        proof {
            lemma_rest_shift(bytes@, pos as int, p as int);
        }
        let (token, q) = AuthToken::decode(bytes, p)?;
        Ok((ClientCredentials { client_id, token }, q))
    }
}

/// Skipping `q - p` bytes of what follows `p` leaves what follows `q`.
pub proof fn lemma_rest_shift(s: Seq<u8>, p: int, q: int)
    requires
        0 <= p <= q <= s.len(),
    ensures
        rest_from(s, p).subrange(q - p, rest_from(s, p).len() as int) == rest_from(s, q),
{
    assert(rest_from(s, p).subrange(q - p, rest_from(s, p).len() as int) =~= rest_from(s, q));
}

/// Credentials read back as themselves, whatever follows them.
pub proof fn lemma_credentials_round_trip(id: Seq<u8>, token: Seq<u8>, rest: Seq<u8>)
    requires
        id.len() <= MAX_CLIENT_ID_LEN,
        token.len() == AUTH_TOKEN_LENGTH,
    ensures
        parse_credentials(credentials_wire(id, token) + rest) == Some(
            ((id, token), credentials_wire(id, token).len()),
        ),
{
    let s = credentials_wire(id, token) + rest;
    assert(s =~= vl_bytes(id) + (token + rest));
    lemma_client_id_round_trip(id, token + rest);
    let k = vl_bytes(id).len();
    assert(s.subrange(k as int, s.len() as int) =~= token + rest);
    lemma_fixed_round_trip(token, rest);
}

/// A message as the service queues it: bytes that the protocol layer
/// produced, written on the wire with a length prefix.
#[derive(Debug)]
pub struct DsQueueMessage {
    message: Vec<u8>,
}

impl View for DsQueueMessage {
    type V = Seq<u8>;

    closed spec fn view(&self) -> Seq<u8> {
        self.message@
    }
}

impl DsQueueMessage {
    /// The bytes of the message.
    pub fn as_slice(&self) -> (r: &[u8])
        ensures
            r@ == self@,
    {
        self.message.as_slice()
    }

    /// The message with the given bytes.
    pub fn from_bytes(bytes: Vec<u8>) -> (r: Self)
        ensures
            r@ == bytes@,
    {
        DsQueueMessage { message: bytes }
    }

    /// Appends the encoding: the bytes framed by their length prefix.
    pub fn encode(&self, out: &mut Vec<u8>)
        requires
            self@.len() <= MAX_VL_LEN,
        ensures
            final(out)@ == old(out)@ + vl_bytes(self@),
    {
        write_vl_bytes(out, self.message.as_slice());
    }

    /// Reads a message at `pos`.
    pub fn decode(bytes: &[u8], pos: usize) -> (r: Result<(Self, usize), CodecError>)
        requires
            pos <= bytes@.len(),
        ensures
            match parse_vl_bytes(rest_from(bytes@, pos as int)) {
                Some((c, k)) => r matches Ok((v, p)) && v@ == c && p == pos + k,
                None => r is Err,
            },
    {
        let (message, p) = read_vl_bytes(bytes, pos)?;
        Ok((DsQueueMessage { message }, p))
    }
}

/// A queued message with the sequence number that the service gave it.
#[derive(Debug)]
pub struct NumberedDsQueueMessage {
    pub message: DsQueueMessage,
    pub sequence_number: u64,
}

impl View for NumberedDsQueueMessage {
    type V = (Seq<u8>, u64);

    open spec fn view(&self) -> (Seq<u8>, u64) {
        (self.message@, self.sequence_number)
    }
}

/// The encoding of a numbered message: the framed message, then the
/// sequence number.
pub open spec fn numbered_wire(m: (Seq<u8>, u64)) -> Seq<u8> {
    vl_bytes(m.0) + u64_bytes(m.1)
}

/// Reads a numbered message at the start of `s`.
pub open spec fn parse_numbered(s: Seq<u8>) -> Option<((Seq<u8>, u64), nat)> {
    match parse_vl_bytes(s) {
        Some((c, k)) => match parse_u64(s.subrange(k as int, s.len() as int)) {
            Some((n, j)) => Some(((c, n), k + j)),
            None => None,
        },
        None => None,
    }
}

impl NumberedDsQueueMessage {
    /// Appends the encoding: the framed message, then the sequence number.
    pub fn encode(&self, out: &mut Vec<u8>)
        requires
            self.message@.len() <= MAX_VL_LEN,
        ensures
            final(out)@ == old(out)@ + numbered_wire(self@),
    {
        let ghost start = out@;
        self.message.encode(out);
        write_u64(out, self.sequence_number);
        assert(out@ =~= start + numbered_wire(self@));
    }

    /// Reads a numbered message at `pos`.
    pub fn decode(bytes: &[u8], pos: usize) -> (r: Result<(Self, usize), CodecError>)
        requires
            pos <= bytes@.len(),
        ensures
            match parse_numbered(rest_from(bytes@, pos as int)) {
                Some((c, k)) => r matches Ok((v, p)) && v@ == c && p == pos + k,
                None => r is Err,
            },
    {
        let (message, p) = DsQueueMessage::decode(bytes, pos)?;
        proof {
            lemma_rest_shift(bytes@, pos as int, p as int);
        }
        let (sequence_number, q) = read_u64(bytes, p)?;
        Ok((NumberedDsQueueMessage { message, sequence_number }, q))
    }
}

/// A numbered message reads back as itself, whatever follows it.
pub proof fn lemma_numbered_round_trip(m: (Seq<u8>, u64), rest: Seq<u8>)
    requires
        m.0.len() <= MAX_VL_LEN,
    ensures
        parse_numbered(numbered_wire(m) + rest) == Some((m, numbered_wire(m).len())),
{
    let s = numbered_wire(m) + rest;
    assert(s =~= vl_bytes(m.0) + (u64_bytes(m.1) + rest));
    lemma_vl_bytes_round_trip(m.0, u64_bytes(m.1) + rest);
    let k = vl_bytes(m.0).len();
    assert(s.subrange(k as int, s.len() as int) =~= u64_bytes(m.1) + rest);
    lemma_u64_round_trip(m.1, rest);
}

} // verus!
