use minimal_ds_client::requests::{
    DeleteClientRequest, DeleteGroupRequest, FetchKeyPackageRequest, FetchMessagesRequest,
    FetchMessagesResponse,
};
use minimal_ds_client::response::MinimalDsResponseIn;
use minimal_ds_client::types::{
    AuthToken, ClientCredentials, DsClientId, DsClientIdError, DsGroupId, DsQueueMessage,
    NumberedDsQueueMessage, TlsUuid,
};
use minimal_ds_client::wire::{read_vl_bytes, read_vl_prefix, write_vl_prefix, CodecError};

fn numbered(bytes: &[u8], n: u64) -> NumberedDsQueueMessage {
    NumberedDsQueueMessage {
        message: DsQueueMessage::from_bytes(bytes.to_vec()),
        sequence_number: n,
    }
}

#[test]
fn vl_prefix_shortest_forms() {
    let mut out = Vec::new();
    write_vl_prefix(&mut out, 5);
    assert_eq!(out, vec![5]);
    let mut out = Vec::new();
    write_vl_prefix(&mut out, 64);
    assert_eq!(out, vec![0x40, 0x40]);
    let mut out = Vec::new();
    write_vl_prefix(&mut out, 16384);
    assert_eq!(out, vec![0x80, 0x00, 0x40, 0x00]);
    assert_eq!(read_vl_prefix(&[0x80, 0x00, 0x40, 0x00], 0).unwrap(), (16384, 4));
}

#[test]
fn vl_prefix_rejects_long_form_and_reserved_tag() {
    assert_eq!(read_vl_prefix(&[0x40, 0x05], 0), Err(CodecError::InvalidVectorLength));
    assert_eq!(read_vl_prefix(&[0xc0, 0, 0, 0, 0, 0, 0, 1], 0), Err(CodecError::InvalidVectorLength));
    assert_eq!(read_vl_prefix(&[], 0), Err(CodecError::EndOfStream));
}

#[test]
fn vl_bytes_truncated_fails() {
    assert!(read_vl_bytes(&[3, 1, 2], 0).is_err());
    assert_eq!(read_vl_bytes(&[3, 1, 2, 3, 9], 0).unwrap(), (vec![1, 2, 3], 4));
}

#[test]
fn client_id_round_trip() {
    let id = DsClientId::new(&[7, 8, 9]).unwrap();
    let mut out = Vec::new();
    id.encode(&mut out);
    assert_eq!(out, vec![3, 7, 8, 9]);
    let (back, end) = DsClientId::decode(&out, 0).unwrap();
    assert_eq!(back, id);
    assert_eq!(end, 4);
}

#[test]
fn client_id_bound() {
    assert!(DsClientId::new(&[0u8; 999]).is_ok());
    assert!(matches!(DsClientId::new(&[0u8; 1000]), Err(DsClientIdError::TooManyBytes)));
}

#[test]
fn client_id_decode_rejects_over_length() {
    let mut out = Vec::new();
    write_vl_prefix(&mut out, 1000);
    out.extend_from_slice(&[1u8; 1000]);
    assert_eq!(DsClientId::decode(&out, 0).unwrap_err(), CodecError::IdentifierTooLong);
}

#[test]
fn client_id_from_credential() {
    let id = DsClientId::from_serialized_credential(&[2, 1, 2]).unwrap();
    assert_eq!(id.as_bytes(), &[1, 2]);
    assert!(matches!(
        DsClientId::from_serialized_credential(&[2, 1, 2, 3]),
        Err(DsClientIdError::InvalidCredential(CodecError::TrailingData))
    ));
    assert!(matches!(
        DsClientId::from_serialized_credential(&[2, 1]),
        Err(DsClientIdError::InvalidCredential(CodecError::EndOfStream))
    ));
    assert!(matches!(
        DsClientId::from_serialized_credential(&[0x40, 0x01]),
        Err(DsClientIdError::InvalidCredential(CodecError::InvalidVectorLength))
    ));
}

#[test]
fn client_id_display() {
    let id = DsClientId::new(&[1, 2]).unwrap();
    assert_eq!(id.to_display_string(), "[1, 2]");
}

#[test]
fn group_id_round_trip() {
    let g = DsGroupId::from_bytes([5u8; 16]);
    let mut out = Vec::new();
    g.encode(&mut out);
    assert_eq!(out, vec![5u8; 16]);
    let (back, end) = DsGroupId::decode(&out, 0).unwrap();
    assert_eq!(back, g);
    assert_eq!(end, 16);
    assert!(DsGroupId::decode(&out[..15], 0).is_err());
}

#[test]
fn group_id_random_is_version_four() {
    let g = DsGroupId::new();
    let b = g.as_slice();
    assert_eq!(b[6] >> 4, 4);
    assert_eq!(b[8] >> 6, 2);
    assert_ne!(DsGroupId::new(), g);
}

#[test]
fn group_id_from_slice() {
    let b: Vec<u8> = (0u8..16).collect();
    let g = DsGroupId::from_slice(&b).unwrap();
    assert_eq!(g.as_slice().to_vec(), b);
    assert!(DsGroupId::from_slice(&b[..15]).is_err());
}

#[test]
fn uuid_round_trip() {
    let u = TlsUuid::from_bytes([9u8; 16]);
    assert_eq!(u.tls_serialized_len(), 16);
    let mut out = Vec::new();
    u.encode(&mut out);
    out.push(77);
    let (back, end) = TlsUuid::decode(&out, 0).unwrap();
    assert_eq!(back, u);
    assert_eq!(&out[end..], &[77]);
}

#[test]
fn token_round_trip() {
    let t = AuthToken::new([3u8; 32]);
    let mut out = Vec::new();
    t.encode(&mut out);
    assert_eq!(out.len(), 32);
    let (back, _) = AuthToken::decode(&out, 0).unwrap();
    assert_eq!(back, t);
    assert_eq!(AuthToken::decode(&out[..31], 0), Err(CodecError::EndOfStream));
}

#[test]
fn credentials_round_trip() {
    let c = ClientCredentials {
        client_id: DsClientId::new(&[1, 2]).unwrap(),
        token: AuthToken::new([4u8; 32]),
    };
    let mut out = Vec::new();
    c.encode(&mut out);
    assert_eq!(out.len(), 3 + 32);
    let (back, end) = ClientCredentials::decode(&out, 0).unwrap();
    assert_eq!(back.client_id, c.client_id);
    assert_eq!(back.token, c.token);
    assert_eq!(end, 35);
    assert_eq!(c.client_id().as_bytes(), &[1, 2]);
}

#[test]
fn fetch_request_layout() {
    let r = FetchMessagesRequest {
        credentials: ClientCredentials {
            client_id: DsClientId::new(&[1]).unwrap(),
            token: AuthToken::new([0u8; 32]),
        },
        last_seen_sequence_number: 0x0102,
        number_of_messages: 100,
    };
    let mut out = Vec::new();
    r.encode(&mut out);
    assert_eq!(out.len(), 2 + 32 + 8 + 4);
    assert_eq!(&out[34..], &[0, 0, 0, 0, 0, 0, 1, 2, 0, 0, 0, 100]);
}

#[test]
fn numbered_round_trip() {
    let m = numbered(&[1, 2, 3], 42);
    let mut out = Vec::new();
    m.encode(&mut out);
    assert_eq!(out, vec![3, 1, 2, 3, 0, 0, 0, 0, 0, 0, 0, 42]);
    let (back, end) = NumberedDsQueueMessage::decode(&out, 0).unwrap();
    assert_eq!(back.message.as_slice(), &[1, 2, 3]);
    assert_eq!(back.sequence_number, 42);
    assert_eq!(end, out.len());
}

#[test]
fn fetch_response_round_trip() {
    let f = FetchMessagesResponse { messages: vec![numbered(&[1], 6), numbered(&[2, 2], 7)] };
    let mut out = Vec::new();
    f.encode(&mut out).unwrap();
    assert_eq!(out[0] as usize, out.len() - 1);
    let (back, end) = FetchMessagesResponse::decode(&out, 0).unwrap();
    assert_eq!(end, out.len());
    assert_eq!(back.messages.len(), 2);
    assert_eq!(back.messages[1].sequence_number, 7);
    assert_eq!(back.messages[1].message.as_slice(), &[2, 2]);
    assert!(FetchMessagesResponse::decode(&out[..out.len() - 1], 0).is_err());
}

#[test]
fn response_round_trip_each_kind() {
    let replies = vec![
        MinimalDsResponseIn::Acknowledged,
        MinimalDsResponseIn::AuthToken(AuthToken::new([8u8; 32])),
        MinimalDsResponseIn::KeyPackageOption(None),
        MinimalDsResponseIn::KeyPackageOption(Some(vec![1, 2, 3])),
        MinimalDsResponseIn::FetchMessages(FetchMessagesResponse { messages: vec![numbered(&[5], 9)] }),
        MinimalDsResponseIn::ListClients(vec![
            DsClientId::new(&[1]).unwrap(),
            DsClientId::new(&[2, 3]).unwrap(),
        ]),
    ];
    for r in replies {
        let bytes = r.encode().unwrap();
        let back = MinimalDsResponseIn::decode_exact(&bytes).unwrap();
        assert_eq!(back.encode().unwrap(), bytes);
        assert_eq!(format!("{:?}", back), format!("{:?}", r));
    }
}

#[test]
fn response_list_clients_layout() {
    let r = MinimalDsResponseIn::ListClients(vec![DsClientId::new(&[1]).unwrap()]);
    assert_eq!(r.encode().unwrap(), vec![4, 2, 1, 1]);
}

#[test]
fn response_unknown_tag_rejected() {
    assert_eq!(MinimalDsResponseIn::decode_exact(&[5]).unwrap_err(), CodecError::UnknownValue(5));
    assert_eq!(MinimalDsResponseIn::decode_exact(&[0xff, 1]).unwrap_err(), CodecError::UnknownValue(0xff));
    assert_eq!(MinimalDsResponseIn::decode_exact(&[]).unwrap_err(), CodecError::EndOfStream);
}

#[test]
fn response_truncated_or_trailing_rejected() {
    assert!(MinimalDsResponseIn::decode_exact(&[1, 0, 0]).is_err());
    assert_eq!(MinimalDsResponseIn::decode_exact(&[0, 0]).unwrap_err(), CodecError::TrailingData);
    assert!(MinimalDsResponseIn::decode_exact(&[3, 5, 1]).is_err());
    assert!(MinimalDsResponseIn::decode_exact(&[2, 7]).is_err());
}

fn creds(id: &[u8]) -> ClientCredentials {
    ClientCredentials { client_id: DsClientId::new(id).unwrap(), token: AuthToken::new([6u8; 32]) }
}

#[test]
fn request_bodies_round_trip() {
    let mut out = Vec::new();
    DeleteClientRequest { credentials: creds(&[1]), client_id: DsClientId::new(&[2, 3]).unwrap() }
        .encode(&mut out);
    let (d, end) = DeleteClientRequest::decode(&out, 0).unwrap();
    assert_eq!(end, out.len());
    assert_eq!(d.client_id.as_bytes(), &[2, 3]);
    assert_eq!(d.credentials.client_id.as_bytes(), &[1]);

    let mut out = Vec::new();
    DeleteGroupRequest { credentials: creds(&[1]), group_id: DsGroupId::from_bytes([2u8; 16]) }
        .encode(&mut out);
    let (g, end) = DeleteGroupRequest::decode(&out, 0).unwrap();
    assert_eq!(end, out.len());
    assert_eq!(g.group_id, DsGroupId::from_bytes([2u8; 16]));

    let mut out = Vec::new();
    FetchKeyPackageRequest { client_id: DsClientId::new(&[5]).unwrap() }.encode(&mut out);
    assert_eq!(out, vec![1, 5]);
    let (k, _) = FetchKeyPackageRequest::decode(&out, 0).unwrap();
    assert_eq!(k.client_id.as_bytes(), &[5]);

    let mut out = Vec::new();
    FetchMessagesRequest { credentials: creds(&[1]), last_seen_sequence_number: 77, number_of_messages: 100 }
        .encode(&mut out);
    let (f, end) = FetchMessagesRequest::decode(&out, 0).unwrap();
    assert_eq!(end, out.len());
    assert_eq!(f.last_seen_sequence_number, 77);
    assert_eq!(f.number_of_messages, 100);
    assert!(FetchMessagesRequest::decode(&out[..out.len() - 1], 0).is_err());
}
