//! The reply envelope: one tag byte naming the kind of reply, then its body.

use vstd::prelude::*;
use crate::requests::{
    lemma_fetch_response_round_trip, numbered_encoder, numbered_parser, numbered_seq_encodable,
    FetchMessagesResponse,
};
use crate::types::{
    lemma_client_id_round_trip, parse_client_id, AuthToken, DsClientId,
    AUTH_TOKEN_LENGTH, MAX_CLIENT_ID_LEN,
};
use crate::wire::{
    lemma_parse_seq_step, lemma_seq_round_trip, lemma_truncated_vl_bytes_rejected, lemma_seq_wire_push, lemma_vl_bytes_round_trip,
    parse_seq, parse_vl_seq, prepend_opt, read_vl_prefix, rest_from, seq_wire, vl_bytes,
    vl_seq_wire, write_bytes, write_vl_prefix, CodecError, MAX_VL_LEN,
};

verus! {

/// Number of kinds of reply; a tag at or above it names none.
pub const RESPONSE_KINDS: u8 = 5;

/// A reply of the service, by kind, in the order of their tags.
#[derive(Debug)]
pub enum MinimalDsResponseIn {
    /// The request was carried out.
    Acknowledged,
    /// The token issued at registration.
    AuthToken(AuthToken),
    /// The serialized key package of a client, if the service had one.
    KeyPackageOption(Option<Vec<u8>>),
    /// Queued messages.
    FetchMessages(FetchMessagesResponse),
    /// The identifiers of all registered clients.
    ListClients(Vec<DsClientId>),
}

/// What a reply holds, as plain values.
pub enum ResponseModel {
    Acknowledged,
    AuthToken(Seq<u8>),
    KeyPackageOption(Option<Seq<u8>>),
    FetchMessages(Seq<(Seq<u8>, u64)>),
    ListClients(Seq<Seq<u8>>),
}

/// Encodes one client identifier.
pub open spec fn client_id_encoder() -> spec_fn(Seq<u8>) -> Seq<u8> {
    |c: Seq<u8>| vl_bytes(c)
}

/// Reads one client identifier.
pub open spec fn client_id_parser() -> spec_fn(Seq<u8>) -> Option<(Seq<u8>, nat)> {
    |s: Seq<u8>| parse_client_id(s)
}

/// The views of a list of client identifiers.
pub open spec fn client_id_views(v: Seq<DsClientId>) -> Seq<Seq<u8>> {
    v.map_values(|c: DsClientId| c@)
}

impl View for MinimalDsResponseIn {
    type V = ResponseModel;

    open spec fn view(&self) -> ResponseModel {
        match self {
            MinimalDsResponseIn::Acknowledged => ResponseModel::Acknowledged,
            MinimalDsResponseIn::AuthToken(t) => ResponseModel::AuthToken(t@),
            MinimalDsResponseIn::KeyPackageOption(o) => ResponseModel::KeyPackageOption(
                match o {
                    Some(k) => Some(k@),
                    None => None,
                },
            ),
            MinimalDsResponseIn::FetchMessages(f) => ResponseModel::FetchMessages(f@),
            MinimalDsResponseIn::ListClients(ids) => ResponseModel::ListClients(
                client_id_views(ids@),
            ),
        }
    }
}

/// Whether a reply can be encoded: every length fits under its prefix.
pub open spec fn response_encodable(m: ResponseModel) -> bool {
    match m {
        ResponseModel::Acknowledged => true,
        ResponseModel::AuthToken(t) => t.len() == AUTH_TOKEN_LENGTH,
        ResponseModel::KeyPackageOption(_) => true,
        ResponseModel::FetchMessages(ms) => numbered_seq_encodable(ms),
        ResponseModel::ListClients(ids) => {
            &&& forall|i: int| 0 <= i < ids.len() ==> (#[trigger] ids[i]).len() <= MAX_CLIENT_ID_LEN
            &&& seq_wire(ids, client_id_encoder()).len() <= MAX_VL_LEN
        },
    }
}

/// The encoding of a reply: its tag, then its body.
pub open spec fn response_wire(m: ResponseModel) -> Seq<u8> {
    match m {
        ResponseModel::Acknowledged => seq![0u8],
        ResponseModel::AuthToken(t) => seq![1u8] + t,
        ResponseModel::KeyPackageOption(o) => match o {
            Some(k) => seq![2u8, 1u8] + k,
            None => seq![2u8, 0u8],
        },
        ResponseModel::FetchMessages(ms) => seq![3u8] + vl_seq_wire(ms, numbered_encoder()),
        ResponseModel::ListClients(ids) => seq![4u8] + vl_seq_wire(ids, client_id_encoder()),
    }
}

/// Reads all of `s` as one reply; `None` where it is empty, its tag names no
/// kind, its body is malformed, or bytes are left over.
pub open spec fn parse_response(s: Seq<u8>) -> Option<ResponseModel> {
    if s.len() == 0 {
        None
    } else {
        let body = s.subrange(1, s.len() as int);
        if s[0] == 0 {
            if body.len() == 0 {
                Some(ResponseModel::Acknowledged)
            } else {
                None
            }
        } else if s[0] == 1 {
            if body.len() == AUTH_TOKEN_LENGTH {
                Some(ResponseModel::AuthToken(body))
            } else {
                None
            }
        } else if s[0] == 2 {
            if body.len() == 1 && body[0] == 0 {
                Some(ResponseModel::KeyPackageOption(None))
            } else if body.len() >= 1 && body[0] == 1 {
                Some(ResponseModel::KeyPackageOption(Some(body.subrange(1, body.len() as int))))
            } else {
                None
            }
        } else if s[0] == 3 {
            match parse_vl_seq(body, numbered_parser()) {
                Some((ms, k)) => if k == body.len() {
                    Some(ResponseModel::FetchMessages(ms))
                } else {
                    None
                },
                None => None,
            }
        } else if s[0] == 4 {
            match parse_vl_seq(body, client_id_parser()) {
                Some((ids, k)) => if k == body.len() {
                    Some(ResponseModel::ListClients(ids))
                } else {
                    None
                },
                None => None,
            }
        } else {
            None
        }
    }
}

/// Reads every client identifier in `c`, which holds nothing else.
fn decode_client_id_seq(c: &[u8]) -> (r: Result<Vec<DsClientId>, CodecError>)
    ensures
        match parse_seq(c@, client_id_parser()) {
            Some(xs) => r matches Ok(v) && client_id_views(v@) == xs,
            None => r is Err,
        },
{
    let mut out: Vec<DsClientId> = Vec::new();
    let mut cur: usize = 0;
    assert(rest_from(c@, 0) =~= c@);
    while cur < c.len()
        invariant
            cur <= c@.len(),
            parse_seq(c@, client_id_parser()) == prepend_opt(
                client_id_views(out@),
                parse_seq(rest_from(c@, cur as int), client_id_parser()),
            ),
        decreases c@.len() - cur,
    {
        let ghost before = out@;
        let (id, next) = match DsClientId::decode(c, cur) {
            Ok(v) => v,
            Err(e) => {
                assert(rest_from(c@, cur as int).len() > 0);
                return Err(e);
            },
        };
        proof {
            lemma_parse_seq_step(c@, cur as int, client_id_parser(), id@, next as int);
        }
        out.push(id);
        assert(client_id_views(out@) =~= client_id_views(before) + seq![id@]);
        cur = next;
    }
    assert(rest_from(c@, cur as int) =~= Seq::<u8>::empty());
    assert(client_id_views(out@) + Seq::<Seq<u8>>::empty() =~= client_id_views(out@));
    Ok(out)
}

/// Appends the framed list of `ids`; fails, leaving `out` as it was, where
/// the list is too long for a prefix.
fn encode_client_ids(ids: &Vec<DsClientId>, out: &mut Vec<u8>) -> (r: Result<(), CodecError>)
    ensures
        r is Ok <==> seq_wire(client_id_views(ids@), client_id_encoder()).len() <= MAX_VL_LEN,
        r is Ok ==> final(out)@ == old(out)@ + vl_seq_wire(
            client_id_views(ids@),
            client_id_encoder(),
        ),
        r is Err ==> final(out)@ == old(out)@,
{
    let ghost views = client_id_views(ids@);
    let mut content: Vec<u8> = Vec::new();
    let mut i: usize = 0;
    while i < ids.len()
        invariant
            i <= ids@.len(),
            views == client_id_views(ids@),
            content@ == seq_wire(views.subrange(0, i as int), client_id_encoder()),
        decreases ids@.len() - i,
    {
        ids[i].encode(&mut content);
        proof {
            lemma_seq_wire_push(views.subrange(0, i as int), ids@[i as int]@, client_id_encoder());
            assert(views.subrange(0, i as int).push(ids@[i as int]@) =~= views.subrange(0, i + 1));
        }
        i = i + 1;
    }
    assert(views.subrange(0, i as int) =~= views);
    if content.len() > MAX_VL_LEN {
        return Err(CodecError::InvalidVectorLength);
    }
    write_vl_prefix(out, content.len());
    write_bytes(out, content.as_slice());
    Ok(())
}

/// Every client identifier of a decoded or constructed list is within its
/// bound.
fn client_ids_bounded(ids: &Vec<DsClientId>)
    ensures
        forall|i: int|
            0 <= i < ids@.len() ==> (#[trigger] client_id_views(ids@)[i]).len()
                <= MAX_CLIENT_ID_LEN,
{
    let mut i: usize = 0;
    while i < ids.len()
        invariant
            i <= ids@.len(),
            forall|j: int| 0 <= j < i ==> (#[trigger] client_id_views(ids@)[j]).len()
                <= MAX_CLIENT_ID_LEN,
        decreases ids@.len() - i,
    {
        let b = ids[i].as_bytes();
        assert(client_id_views(ids@)[i as int] == b@);
        i = i + 1;
    }
}

impl MinimalDsResponseIn {
    /// Reads all of `bytes` as one reply.
    pub fn decode_exact(bytes: &[u8]) -> (r: Result<Self, CodecError>)
        ensures
            match parse_response(bytes@) {
                Some(m) => r matches Ok(v) && v@ == m,
                None => r is Err,
            },
            bytes@.len() == 0 ==> r == Err::<Self, CodecError>(CodecError::EndOfStream),
            bytes@.len() > 0 && bytes@[0] >= RESPONSE_KINDS ==> r == Err::<Self, CodecError>(
                CodecError::UnknownValue(bytes@[0]),
            ),
    {
        let len = bytes.len();
        if len == 0 {
            return Err(CodecError::EndOfStream);
        }
        let tag = bytes[0];
        let ghost body = bytes@.subrange(1, len as int);
        assert(rest_from(bytes@, 1) == body);
        if tag == 0 {
            if len != 1 {
                return Err(CodecError::TrailingData);
            }
            Ok(MinimalDsResponseIn::Acknowledged)
        } else if tag == 1 {
            let (token, p) = AuthToken::decode(bytes, 1)?;
            if p != len {
                return Err(CodecError::TrailingData);
            }
            assert(body.subrange(0, AUTH_TOKEN_LENGTH as int) =~= body);
            Ok(MinimalDsResponseIn::AuthToken(token))
        } else if tag == 2 {
            if len < 2 {
                return Err(CodecError::EndOfStream);
            }
            let flag = bytes[1];
            assert(body[0] == flag);
            if flag == 0 {
                if len != 2 {
                    return Err(CodecError::TrailingData);
                }
                Ok(MinimalDsResponseIn::KeyPackageOption(None))
            } else if flag == 1 {
                let k = vstd::slice::slice_to_vec(vstd::slice::slice_subrange(bytes, 2, len));
                assert(k@ =~= body.subrange(1, body.len() as int));
                Ok(MinimalDsResponseIn::KeyPackageOption(Some(k)))
            } else {
                Err(CodecError::UnknownValue(flag))
            }
        } else if tag == 3 {
            let (f, p) = FetchMessagesResponse::decode(bytes, 1)?;
            if p != len {
                return Err(CodecError::TrailingData);
            }
            Ok(MinimalDsResponseIn::FetchMessages(f))
        } else if tag == 4 {
            let (n, p) = read_vl_prefix(bytes, 1)?;
            if n > len - p {
                return Err(CodecError::EndOfStream);
            }
            if p + n != len {
                return Err(CodecError::TrailingData);
            }
            let c = vstd::slice::slice_subrange(bytes, p, p + n);
            proof {
                let k = (p - 1) as int;
                assert(body.subrange(k, k + n) =~= c@);
            }
            let ids = decode_client_id_seq(c)?;
            Ok(MinimalDsResponseIn::ListClients(ids))
        } else {
            Err(CodecError::UnknownValue(tag))
        }
    }

    /// The encoding of the reply; fails where a length does not fit under
    /// its prefix.
    pub fn encode(&self) -> (r: Result<Vec<u8>, CodecError>)
        ensures
            r is Ok <==> response_encodable(self@),
            r matches Ok(b) ==> b@ == response_wire(self@),
    {
        let mut out: Vec<u8> = Vec::new();
        match self {
            MinimalDsResponseIn::Acknowledged => {
                out.push(0u8);
            },
            MinimalDsResponseIn::AuthToken(t) => {
                out.push(1u8);
                t.encode(&mut out);
            },
            MinimalDsResponseIn::KeyPackageOption(o) => {
                out.push(2u8);
                match o {
                    Some(k) => {
                        out.push(1u8);
                        write_bytes(&mut out, k.as_slice());
                    },
                    None => {
                        out.push(0u8);
                    },
                }
            },
            MinimalDsResponseIn::FetchMessages(f) => {
                out.push(3u8);
                f.encode(&mut out)?;
            },
            MinimalDsResponseIn::ListClients(ids) => {
                out.push(4u8);
                client_ids_bounded(ids);
                encode_client_ids(ids, &mut out)?;
            },
        }
        assert(out@ =~= response_wire(self@));
        Ok(out)
    }
}

/// An encodable reply reads back as itself: decoding what encoding gives
/// yields the same kind and the same contents.
pub proof fn lemma_response_round_trip(m: ResponseModel)
    requires
        response_encodable(m),
    ensures
        parse_response(response_wire(m)) == Some(m),
{
    let s = response_wire(m);
    let body = s.subrange(1, s.len() as int);
    match m {
        ResponseModel::Acknowledged => {},
        ResponseModel::AuthToken(t) => {
            assert(body =~= t);
        },
        ResponseModel::KeyPackageOption(o) => {
            match o {
                Some(k) => {
                    assert(body =~= seq![1u8] + k);
                    assert(body.subrange(1, body.len() as int) =~= k);
                },
                None => {
                    assert(body =~= seq![0u8]);
                },
            }
        },
        ResponseModel::FetchMessages(ms) => {
            assert(body =~= vl_seq_wire(ms, numbered_encoder()));
            lemma_fetch_response_round_trip(ms, Seq::empty());
            assert(vl_seq_wire(ms, numbered_encoder()) + Seq::<u8>::empty() =~= body);
        },
        ResponseModel::ListClients(ids) => {
            assert(body =~= vl_seq_wire(ids, client_id_encoder()));
            assert forall|i: int, r: Seq<u8>| 0 <= i < ids.len() implies #[trigger] client_id_parser()(
                client_id_encoder()(ids[i]) + r,
            ) == Some((ids[i], client_id_encoder()(ids[i]).len())) by {
                lemma_client_id_round_trip(ids[i], r);
            }
            assert forall|i: int| 0 <= i < ids.len() implies #[trigger] client_id_encoder()(
                ids[i],
            ).len() > 0 by {
            }
            lemma_seq_round_trip(ids, client_id_encoder(), client_id_parser());
            lemma_vl_bytes_round_trip(seq_wire(ids, client_id_encoder()), Seq::empty());
            assert(vl_seq_wire(ids, client_id_encoder()) + Seq::<u8>::empty() =~= body);
        },
    }
}

/// A reply cut short anywhere does not read, unless it is a key package,
/// which runs to the end of the reply: where it ends is known only to the
/// protocol layer's decoder, and `accept_key_package` refuses a key package
/// that decoder does not read exactly.
pub proof fn lemma_truncated_response_rejected(m: ResponseModel, k: int)
    requires
        response_encodable(m),
        !(m matches ResponseModel::KeyPackageOption(Some(_))),
        0 <= k < response_wire(m).len(),
    ensures
        parse_response(response_wire(m).subrange(0, k)) is None,
{
    let w = response_wire(m);
    let t = w.subrange(0, k);
    if k > 0 {
        assert(t[0] == w[0]);
        let body = t.subrange(1, k);
        match m {
            ResponseModel::FetchMessages(ms) => {
                let c = seq_wire(ms, numbered_encoder());
                assert(body =~= vl_bytes(c).subrange(0, k - 1));
                lemma_truncated_vl_bytes_rejected(c, k - 1);
            },
            ResponseModel::ListClients(ids) => {
                let c = seq_wire(ids, client_id_encoder());
                assert(body =~= vl_bytes(c).subrange(0, k - 1));
                lemma_truncated_vl_bytes_rejected(c, k - 1);
            },
            ResponseModel::KeyPackageOption(o) => {
                assert(body.len() == k - 1);
            },
            _ => {},
        }
    }
}

/// A client identifier longer than its bound does not read, even when it is
/// framed correctly.
pub proof fn lemma_long_client_id_rejected(c: Seq<u8>, rest: Seq<u8>)
    requires
        MAX_CLIENT_ID_LEN < c.len() <= MAX_VL_LEN,
    ensures
        parse_client_id(vl_bytes(c) + rest) is None,
{
    lemma_vl_bytes_round_trip(c, rest);
}

/// A reply whose tag names no kind does not read.
pub proof fn lemma_unknown_tag_rejected(s: Seq<u8>)
    requires
        s.len() > 0,
        s[0] >= RESPONSE_KINDS,
    ensures
        parse_response(s) is None,
{
}

} // verus!
