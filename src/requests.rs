//! The bodies of requests that carry only identifiers and numbers, and the
//! body of the reply to a fetch.

use vstd::prelude::*;
use crate::types::{
    credentials_wire, lemma_client_id_round_trip, lemma_credentials_round_trip,
    lemma_fixed_round_trip, lemma_numbered_round_trip, lemma_rest_shift, numbered_wire,
    parse_client_id, parse_credentials, parse_fixed, parse_numbered, ClientCredentials, DsClientId,
    DsGroupId, NumberedDsQueueMessage, AUTH_TOKEN_LENGTH, MAX_CLIENT_ID_LEN, UUID_LENGTH,
};
use crate::wire::{
    lemma_parse_seq_step, lemma_seq_round_trip, lemma_seq_wire_push, lemma_then_round_trip,
    lemma_u32_round_trip, lemma_u64_round_trip, lemma_vl_bytes_round_trip, parse_seq, parse_then,
    parse_u32, parse_u64, parse_vl_seq, prepend_opt, read_u32, read_u64, read_vl_prefix,
    rest_from, seq_wire, u32_bytes,
    u64_bytes, vl_bytes, vl_seq_wire, write_bytes, write_u32, write_u64, write_vl_prefix,
    CodecError, MAX_VL_LEN,
};

verus! {

/// Asks the service to delete a client.
#[derive(Debug)]
pub struct DeleteClientRequest {
    pub credentials: ClientCredentials,
    pub client_id: DsClientId,
}

/// Asks the service to delete a group.
#[derive(Debug)]
pub struct DeleteGroupRequest {
    pub credentials: ClientCredentials,
    pub group_id: DsGroupId,
}

/// Asks the service for one key package of a client.
#[derive(Debug)]
pub struct FetchKeyPackageRequest {
    pub client_id: DsClientId,
}

/// Asks the service for up to `number_of_messages` queued messages whose
/// sequence numbers follow `last_seen_sequence_number`.
#[derive(Debug)]
pub struct FetchMessagesRequest {
    pub credentials: ClientCredentials,
    pub last_seen_sequence_number: u64,
    pub number_of_messages: u32,
}

/// The messages that a fetch returned, in the order the service sent them.
#[derive(Debug)]
pub struct FetchMessagesResponse {
    pub messages: Vec<NumberedDsQueueMessage>,
}

impl DeleteClientRequest {
    /// Appends the encoding: credentials, then the identifier to delete.
    pub fn encode(&self, out: &mut Vec<u8>)
        ensures
            final(out)@ == old(out)@ + credentials_wire(
                self.credentials.client_id@,
                self.credentials.token@,
            ) + vl_bytes(self.client_id@),
    {
        self.credentials.encode(out);
        self.client_id.encode(out);
    }
}

impl DeleteGroupRequest {
    /// Appends the encoding: credentials, then the group identifier.
    pub fn encode(&self, out: &mut Vec<u8>)
        ensures
            final(out)@ == old(out)@ + credentials_wire(
                self.credentials.client_id@,
                self.credentials.token@,
            ) + self.group_id@,
    {
        self.credentials.encode(out);
        self.group_id.encode(out);
    }
}

impl FetchKeyPackageRequest {
    /// Appends the encoding: the identifier of the client asked about.
    pub fn encode(&self, out: &mut Vec<u8>)
        ensures
            final(out)@ == old(out)@ + vl_bytes(self.client_id@),
    {
        self.client_id.encode(out);
    }
}

impl FetchMessagesRequest {
    /// Appends the encoding: credentials, the cursor, then the batch size.
    pub fn encode(&self, out: &mut Vec<u8>)
        ensures
            final(out)@ == old(out)@ + credentials_wire(
                self.credentials.client_id@,
                self.credentials.token@,
            ) + u64_bytes(self.last_seen_sequence_number) + u32_bytes(self.number_of_messages),
    {
        self.credentials.encode(out);
        write_u64(out, self.last_seen_sequence_number);
        write_u32(out, self.number_of_messages);
    }
}

/// Encodes one numbered message.
pub open spec fn numbered_encoder() -> spec_fn((Seq<u8>, u64)) -> Seq<u8> {
    |m: (Seq<u8>, u64)| numbered_wire(m)
}

/// Reads one numbered message.
pub open spec fn numbered_parser() -> spec_fn(Seq<u8>) -> Option<((Seq<u8>, u64), nat)> {
    |s: Seq<u8>| parse_numbered(s)
}

/// The views of a list of numbered messages.
pub open spec fn numbered_views(v: Seq<NumberedDsQueueMessage>) -> Seq<(Seq<u8>, u64)> {
    v.map_values(|m: NumberedDsQueueMessage| m@)
}

/// Whether every message fits under a length prefix and so does the whole
/// list.
pub open spec fn numbered_seq_encodable(ms: Seq<(Seq<u8>, u64)>) -> bool {
    &&& forall|i: int| 0 <= i < ms.len() ==> (#[trigger] ms[i]).0.len() <= MAX_VL_LEN
    &&& seq_wire(ms, numbered_encoder()).len() <= MAX_VL_LEN
}

impl View for FetchMessagesResponse {
    type V = Seq<(Seq<u8>, u64)>;

    open spec fn view(&self) -> Seq<(Seq<u8>, u64)> {
        numbered_views(self.messages@)
    }
}

/// Reads every numbered message in `c`, which holds nothing else.
fn decode_numbered_seq(c: &[u8]) -> (r: Result<Vec<NumberedDsQueueMessage>, CodecError>)
    ensures
        match parse_seq(c@, numbered_parser()) {
            Some(xs) => r matches Ok(v) && numbered_views(v@) == xs,
            None => r is Err,
        },
{
    let mut out: Vec<NumberedDsQueueMessage> = Vec::new();
    let mut cur: usize = 0;
    assert(rest_from(c@, 0) =~= c@);
    while cur < c.len()
        invariant
            cur <= c@.len(),
            parse_seq(c@, numbered_parser()) == prepend_opt(
                numbered_views(out@),
                parse_seq(rest_from(c@, cur as int), numbered_parser()),
            ),
        decreases c@.len() - cur,
    {
        let ghost before = out@;
        let (m, next) = match NumberedDsQueueMessage::decode(c, cur) {
            Ok(v) => v,
            Err(e) => {
                assert(rest_from(c@, cur as int).len() > 0);
                return Err(e);
            },
        };
        proof {
            lemma_parse_seq_step(c@, cur as int, numbered_parser(), m@, next as int);
        }
        out.push(m);
        assert(numbered_views(out@) =~= numbered_views(before) + seq![m@]);
        cur = next;
    }
    assert(rest_from(c@, cur as int) =~= Seq::<u8>::empty());
    assert(numbered_views(out@) + Seq::<(Seq<u8>, u64)>::empty() =~= numbered_views(out@));
    Ok(out)
}

impl FetchMessagesResponse {
    /// Appends the encoding: the messages one after another, framed by the
    /// prefix of their byte length. Fails, leaving `out` as it was, where a
    /// message or the whole list is too long for a prefix.
    pub fn encode(&self, out: &mut Vec<u8>) -> (r: Result<(), CodecError>)
        ensures
            r is Ok <==> numbered_seq_encodable(self@),
            r is Ok ==> final(out)@ == old(out)@ + vl_seq_wire(self@, numbered_encoder()),
            r is Err ==> final(out)@ == old(out)@,
    {
        let mut content: Vec<u8> = Vec::new();
        let mut i: usize = 0;
        while i < self.messages.len()
            invariant
                i <= self.messages@.len(),
                content@ == seq_wire(self@.subrange(0, i as int), numbered_encoder()),
                forall|j: int| 0 <= j < i ==> (#[trigger] self@[j]).0.len() <= MAX_VL_LEN,
            decreases self.messages@.len() - i,
        {
            let m = &self.messages[i];
            if m.message.as_slice().len() > MAX_VL_LEN {
                assert(self@[i as int] == m@);
                return Err(CodecError::InvalidVectorLength);
            }
            m.encode(&mut content);
            proof {
                lemma_seq_wire_push(self@.subrange(0, i as int), m@, numbered_encoder());
                assert(self@.subrange(0, i as int).push(m@) =~= self@.subrange(0, i + 1));
            }
            i = i + 1;
        }
        assert(self@.subrange(0, i as int) =~= self@);
        if content.len() > MAX_VL_LEN {
            return Err(CodecError::InvalidVectorLength);
        }
        write_vl_prefix(out, content.len());
        write_bytes(out, content.as_slice());
        Ok(())
    }

    /// Reads a fetch reply at `pos`.
    pub fn decode(bytes: &[u8], pos: usize) -> (r: Result<(Self, usize), CodecError>)
        requires
            pos <= bytes@.len(),
        ensures
            match parse_vl_seq(rest_from(bytes@, pos as int), numbered_parser()) {
                Some((xs, k)) => r matches Ok((v, p)) && v@ == xs && p == pos + k,
                None => r is Err,
            },
    {
        let (n, p) = read_vl_prefix(bytes, pos)?;
        if n > bytes.len() - p {
            return Err(CodecError::EndOfStream);
        }
        let c = vstd::slice::slice_subrange(bytes, p, p + n);
        proof {
            let s = rest_from(bytes@, pos as int);
            let k = (p - pos) as int;
            assert(s.subrange(k, k + n) =~= c@);
        }
        let messages = decode_numbered_seq(c)?;
        Ok((FetchMessagesResponse { messages }, p + n))
    }
}

/// A fetch reply reads back as itself, whatever follows it.
pub proof fn lemma_fetch_response_round_trip(ms: Seq<(Seq<u8>, u64)>, rest: Seq<u8>)
    requires
        numbered_seq_encodable(ms),
    ensures
        parse_vl_seq(vl_seq_wire(ms, numbered_encoder()) + rest, numbered_parser()) == Some(
            (ms, vl_seq_wire(ms, numbered_encoder()).len()),
        ),
{
    assert forall|i: int, r: Seq<u8>| 0 <= i < ms.len() implies #[trigger] numbered_parser()(
        numbered_encoder()(ms[i]) + r,
    ) == Some((ms[i], numbered_encoder()(ms[i]).len())) by {
        lemma_numbered_round_trip(ms[i], r);
    }
    assert forall|i: int| 0 <= i < ms.len() implies #[trigger] numbered_encoder()(ms[i]).len()
        > 0 by {
    }
    lemma_seq_round_trip(ms, numbered_encoder(), numbered_parser());
    lemma_vl_bytes_round_trip(seq_wire(ms, numbered_encoder()), rest);
}

/// Reads credentials.
pub open spec fn credentials_parser() -> spec_fn(Seq<u8>) -> Option<((Seq<u8>, Seq<u8>), nat)> {
    |s: Seq<u8>| parse_credentials(s)
}

/// Reads a client identifier.
pub open spec fn id_parser() -> spec_fn(Seq<u8>) -> Option<(Seq<u8>, nat)> {
    |s: Seq<u8>| parse_client_id(s)
}

/// Reads a group identifier.
pub open spec fn group_id_parser() -> spec_fn(Seq<u8>) -> Option<(Seq<u8>, nat)> {
    |s: Seq<u8>| parse_fixed(s, UUID_LENGTH as nat)
}

/// Reads a cursor and a batch size.
pub open spec fn window_parser() -> spec_fn(Seq<u8>) -> Option<((u64, u32), nat)> {
    |s: Seq<u8>| parse_then(s, |t: Seq<u8>| parse_u64(t), |t: Seq<u8>| parse_u32(t))
}

impl View for FetchKeyPackageRequest {
    type V = Seq<u8>;

    open spec fn view(&self) -> Seq<u8> {
        self.client_id@
    }
}

impl View for DeleteClientRequest {
    type V = ((Seq<u8>, Seq<u8>), Seq<u8>);

    open spec fn view(&self) -> ((Seq<u8>, Seq<u8>), Seq<u8>) {
        ((self.credentials.client_id@, self.credentials.token@), self.client_id@)
    }
}

impl View for DeleteGroupRequest {
    type V = ((Seq<u8>, Seq<u8>), Seq<u8>);

    open spec fn view(&self) -> ((Seq<u8>, Seq<u8>), Seq<u8>) {
        ((self.credentials.client_id@, self.credentials.token@), self.group_id@)
    }
}

impl View for FetchMessagesRequest {
    type V = ((Seq<u8>, Seq<u8>), (u64, u32));

    open spec fn view(&self) -> ((Seq<u8>, Seq<u8>), (u64, u32)) {
        (
            (self.credentials.client_id@, self.credentials.token@),
            (self.last_seen_sequence_number, self.number_of_messages),
        )
    }
}

impl FetchKeyPackageRequest {
    /// Reads a request at `pos`.
    pub fn decode(bytes: &[u8], pos: usize) -> (r: Result<(Self, usize), CodecError>)
        requires
            pos <= bytes@.len(),
        ensures
            match parse_client_id(rest_from(bytes@, pos as int)) {
                Some((c, k)) => r matches Ok((v, p)) && v@ == c && p == pos + k,
                None => r is Err,
            },
    {
        let (client_id, p) = DsClientId::decode(bytes, pos)?;
        Ok((FetchKeyPackageRequest { client_id }, p))
    }
}

impl DeleteClientRequest {
    /// Reads a request at `pos`.
    pub fn decode(bytes: &[u8], pos: usize) -> (r: Result<(Self, usize), CodecError>)
        requires
            pos <= bytes@.len(),
        ensures
            match parse_then(rest_from(bytes@, pos as int), credentials_parser(), id_parser()) {
                Some((c, k)) => r matches Ok((v, p)) && v@ == c && p == pos + k,
                None => r is Err,
            },
    {
        let (credentials, p) = ClientCredentials::decode(bytes, pos)?;
        proof {
            lemma_rest_shift(bytes@, pos as int, p as int);
        }
        let (client_id, q) = DsClientId::decode(bytes, p)?;
        Ok((DeleteClientRequest { credentials, client_id }, q))
    }
}

impl DeleteGroupRequest {
    /// Reads a request at `pos`.
    pub fn decode(bytes: &[u8], pos: usize) -> (r: Result<(Self, usize), CodecError>)
        requires
            pos <= bytes@.len(),
        ensures
            match parse_then(rest_from(bytes@, pos as int), credentials_parser(), group_id_parser()) {
                Some((c, k)) => r matches Ok((v, p)) && v@ == c && p == pos + k,
                None => r is Err,
            },
    {
        let (credentials, p) = ClientCredentials::decode(bytes, pos)?;
        proof {
            lemma_rest_shift(bytes@, pos as int, p as int);
        }
        let (group_id, q) = DsGroupId::decode(bytes, p)?;
        Ok((DeleteGroupRequest { credentials, group_id }, q))
    }
}

impl FetchMessagesRequest {
    /// Reads a request at `pos`.
    pub fn decode(bytes: &[u8], pos: usize) -> (r: Result<(Self, usize), CodecError>)
        requires
            pos <= bytes@.len(),
        ensures
            match parse_then(rest_from(bytes@, pos as int), credentials_parser(), window_parser()) {
                Some((c, k)) => r matches Ok((v, p)) && v@ == c && p == pos + k,
                None => r is Err,
            },
    {
        let (credentials, p) = ClientCredentials::decode(bytes, pos)?;
        proof {
            lemma_rest_shift(bytes@, pos as int, p as int);
        }
        let (last_seen_sequence_number, q) = read_u64(bytes, p)?;
        proof {
            lemma_rest_shift(bytes@, p as int, q as int);
        }
        let (number_of_messages, e) = read_u32(bytes, q)?;
        Ok((FetchMessagesRequest { credentials, last_seen_sequence_number, number_of_messages }, e))
    }
}

/// Every request body reads back as itself, whatever follows it.
pub proof fn lemma_request_bodies_round_trip(
    id: Seq<u8>,
    token: Seq<u8>,
    target: Seq<u8>,
    group: Seq<u8>,
    cursor: u64,
    count: u32,
    rest: Seq<u8>,
)
    requires
        id.len() <= MAX_CLIENT_ID_LEN,
        target.len() <= MAX_CLIENT_ID_LEN,
        token.len() == AUTH_TOKEN_LENGTH,
        group.len() == UUID_LENGTH,
    ensures
        parse_client_id(vl_bytes(target) + rest) == Some((target, vl_bytes(target).len())),
        parse_then(
            credentials_wire(id, token) + vl_bytes(target) + rest,
            credentials_parser(),
            id_parser(),
        ) == Some((((id, token), target), credentials_wire(id, token).len() + vl_bytes(target).len())),
        parse_then(credentials_wire(id, token) + group + rest, credentials_parser(), group_id_parser())
            == Some((((id, token), group), credentials_wire(id, token).len() + group.len())),
        parse_then(
            credentials_wire(id, token) + (u64_bytes(cursor) + u32_bytes(count)) + rest,
            credentials_parser(),
            window_parser(),
        ) == Some(
            (
                ((id, token), (cursor, count)),
                credentials_wire(id, token).len() + (u64_bytes(cursor) + u32_bytes(count)).len(),
            ),
        ),
{
    let cw = credentials_wire(id, token);
    lemma_client_id_round_trip(target, rest);
    assert forall|r: Seq<u8>| #[trigger] credentials_parser()(cw + r) == Some(((id, token), cw.len())) by {
        lemma_credentials_round_trip(id, token, r);
    }
    assert forall|r: Seq<u8>| #[trigger] id_parser()(vl_bytes(target) + r) == Some(
        (target, vl_bytes(target).len()),
    ) by {
        lemma_client_id_round_trip(target, r);
    }
    assert forall|r: Seq<u8>| #[trigger] group_id_parser()(group + r) == Some((group, group.len())) by {
        lemma_fixed_round_trip(group, r);
    }
    let pu64 = |t: Seq<u8>| parse_u64(t);
    let pu32 = |t: Seq<u8>| parse_u32(t);
    assert forall|r: Seq<u8>| #[trigger] pu64(u64_bytes(cursor) + r) == Some((cursor, u64_bytes(cursor).len())) by {
        lemma_u64_round_trip(cursor, r);
    }
    assert forall|r: Seq<u8>| #[trigger] pu32(u32_bytes(count) + r) == Some((count, u32_bytes(count).len())) by {
        lemma_u32_round_trip(count, r);
    }
    let ww = u64_bytes(cursor) + u32_bytes(count);
    assert forall|r: Seq<u8>| #[trigger] window_parser()(ww + r) == Some(((cursor, count), ww.len())) by {
        lemma_then_round_trip(cursor, count, u64_bytes(cursor), u32_bytes(count), pu64, pu32, r);
        assert(u64_bytes(cursor) + u32_bytes(count) + r == ww + r);
    }
    lemma_then_round_trip((id, token), target, cw, vl_bytes(target), credentials_parser(), id_parser(), rest);
    lemma_then_round_trip((id, token), group, cw, group, credentials_parser(), group_id_parser(), rest);
    lemma_then_round_trip((id, token), (cursor, count), cw, ww, credentials_parser(), window_parser(), rest);
}

} // verus!
