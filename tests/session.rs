use minimal_ds_client::client::{
    accept_key_package, ApiClient, DsReply, KeyPackageExtent, UnregisteredApiClient,
};
use minimal_ds_client::errors::{
    CreateGroupError, DistributeGroupMessageError, FetchKeyPackageError, DistributeWelcomeError, FetchMessagesError,
    ListClientsError, RegisterClientError, SendMessageError,
};
use minimal_ds_client::messages::{MlsMessageBody, MlsMessageOut};
use minimal_ds_client::requests::FetchMessagesResponse;
use minimal_ds_client::response::MinimalDsResponseIn;
use minimal_ds_client::types::{AuthToken, DsClientIdError, DsClientId, DsGroupId, DsQueueMessage, NumberedDsQueueMessage};
use minimal_ds_client::wire::CodecError;

fn key_package(identity: &[u8]) -> MlsMessageOut {
    let mut credential = vec![identity.len() as u8];
    credential.extend_from_slice(identity);
    MlsMessageOut {
        body: MlsMessageBody::KeyPackage { serialized_credential: credential },
        serialized: vec![0xaa, 0xbb],
    }
}

fn message(body: MlsMessageBody) -> MlsMessageOut {
    MlsMessageOut { body, serialized: vec![0xcc] }
}

fn ok_reply(r: MinimalDsResponseIn) -> DsReply {
    DsReply::Received { status: 200, body: r.encode().unwrap() }
}

fn batch(seqs: &[u64]) -> FetchMessagesResponse {
    FetchMessagesResponse {
        messages: seqs
            .iter()
            .map(|n| NumberedDsQueueMessage {
                message: DsQueueMessage::from_bytes(vec![*n as u8]),
                sequence_number: *n,
            })
            .collect(),
    }
}

fn registered(token: [u8; 32]) -> ApiClient {
    let handle = UnregisteredApiClient::new();
    let (id, _) = handle.register_request(&[], &key_package(&[1, 2])).unwrap();
    handle.register(id, ok_reply(MinimalDsResponseIn::AuthToken(AuthToken::new(token)))).unwrap()
}

fn at_cursor(n: u64) -> ApiClient {
    let mut c = registered([0u8; 32]);
    c.accept_messages(&batch(&[n]));
    c
}

#[test]
fn register_derives_id_and_starts_at_zero() {
    let handle = UnregisteredApiClient::new();
    let fallback = key_package(&[0x01, 0x02]);
    let (id, request) = handle.register_request(&[], &fallback).unwrap();
    assert_eq!(id.as_bytes(), &[0x01, 0x02]);
    assert_eq!(request, vec![0, 0, 0xaa, 0xbb]);
    let token = [7u8; 32];
    let client = handle
        .register(id, ok_reply(MinimalDsResponseIn::AuthToken(AuthToken::new(token))))
        .unwrap();
    assert_eq!(client.client_id().as_bytes(), &[0x01, 0x02]);
    assert_eq!(client.last_seen_sequence_number(), 0);
    assert_eq!(client.client_credentials().token.as_bytes(), &token);
}

#[test]
fn register_request_frames_key_packages() {
    let handle = UnregisteredApiClient::new();
    let kps = vec![message(MlsMessageBody::Welcome), message(MlsMessageBody::GroupInfo)];
    let (_, request) = handle.register_request(&kps, &key_package(&[9])).unwrap();
    assert_eq!(request, vec![0, 2, 0xcc, 0xcc, 0xaa, 0xbb]);
}

#[test]
fn register_rejects_non_key_package() {
    let handle = UnregisteredApiClient::new();
    let r = handle.register_request(&[], &message(MlsMessageBody::Welcome));
    assert!(matches!(r, Err(RegisterClientError::InvalidInput("MlsMessageOut is not a KeyPackage."))));
}

#[test]
fn register_rejects_long_identity() {
    let handle = UnregisteredApiClient::new();
    let mut credential = vec![0x43, 0xe8];
    credential.extend_from_slice(&[1u8; 1000]);
    let fallback = MlsMessageOut {
        body: MlsMessageBody::KeyPackage { serialized_credential: credential },
        serialized: vec![],
    };
    let r = handle.register_request(&[], &fallback);
    assert!(matches!(r, Err(RegisterClientError::InvalidClientId(DsClientIdError::TooManyBytes))));
}

#[test]
fn register_unexpected_response() {
    let handle = UnregisteredApiClient::new();
    let (id, _) = handle.register_request(&[], &key_package(&[1])).unwrap();
    let r = handle.register(id, ok_reply(MinimalDsResponseIn::Acknowledged));
    assert!(matches!(r, Err(RegisterClientError::UnexpectedResponse)));
}

#[test]
fn register_twice_gives_independent_sessions() {
    let handle = UnregisteredApiClient::new();
    let (id1, _) = handle.register_request(&[], &key_package(&[1])).unwrap();
    let (id2, _) = handle.register_request(&[], &key_package(&[2])).unwrap();
    let mut a = handle.register(id1, ok_reply(MinimalDsResponseIn::AuthToken(AuthToken::new([1u8; 32])))).unwrap();
    let b = handle.register(id2, ok_reply(MinimalDsResponseIn::AuthToken(AuthToken::new([2u8; 32])))).unwrap();
    a.accept_messages(&batch(&[4]));
    assert_eq!(a.last_seen_sequence_number(), 4);
    assert_eq!(b.last_seen_sequence_number(), 0);
    assert_eq!(a.client_id().as_bytes(), &[1]);
    assert_eq!(b.client_id().as_bytes(), &[2]);
}

#[test]
fn fetch_with_no_new_messages_keeps_cursor() {
    let mut c = at_cursor(5);
    assert_eq!(c.last_seen_sequence_number(), 5);
    let got = c.fetch_messages(ok_reply(MinimalDsResponseIn::FetchMessages(batch(&[])))).unwrap();
    assert!(got.messages.is_empty());
    c.accept_messages(&got);
    assert_eq!(c.last_seen_sequence_number(), 5);
}

#[test]
fn fetch_advances_cursor_to_last() {
    let mut c = at_cursor(5);
    let got = c.fetch_messages(ok_reply(MinimalDsResponseIn::FetchMessages(batch(&[6, 7, 9])))).unwrap();
    assert_eq!(got.messages.len(), 3);
    c.accept_messages(&got);
    assert_eq!(c.last_seen_sequence_number(), 9);
}

#[test]
fn fetch_failure_keeps_cursor() {
    let mut c = at_cursor(5);
    let r = c.fetch_messages(DsReply::Received { status: 200, body: vec![3, 9] });
    assert!(matches!(
        r,
        Err(FetchMessagesError::FetchMessagesError(SendMessageError::PayloadSerializationError(_)))
    ));
    assert_eq!(c.last_seen_sequence_number(), 5);
    let got = c.fetch_messages(ok_reply(MinimalDsResponseIn::FetchMessages(batch(&[8])))).unwrap();
    c.accept_messages(&got);
    assert_eq!(c.last_seen_sequence_number(), 8);
}

#[test]
fn fetch_request_carries_cursor_and_batch_size() {
    let c = at_cursor(5);
    let r = c.fetch_messages_request();
    assert_eq!(r[0], 7);
    assert_eq!(r.len(), 1 + 3 + 32 + 8 + 4);
    assert_eq!(&r[r.len() - 12..], &[0, 0, 0, 0, 0, 0, 0, 5, 0, 0, 0, 100]);
}

#[test]
fn fetch_unexpected_response() {
    let c = at_cursor(1);
    let r = c.fetch_messages(ok_reply(MinimalDsResponseIn::Acknowledged));
    assert!(matches!(r, Err(FetchMessagesError::UnexpectedResponse)));
}

#[test]
fn server_failure_carries_text() {
    let c = registered([0u8; 32]);
    let r = c.create_group(DsReply::Received { status: 500, body: b"group not found".to_vec() });
    match r {
        Err(CreateGroupError::CreateGroupError(SendMessageError::MinimalDsError(s))) => {
            assert_eq!(s, "group not found")
        }
        other => panic!("unexpected {:?}", other),
    }
}

#[test]
fn other_status_is_network_error() {
    let c = registered([0u8; 32]);
    let r = c.list_clients(DsReply::Received { status: 404, body: vec![] });
    assert!(matches!(
        r,
        Err(ListClientsError::RegisterClientError(SendMessageError::NetworkError(404)))
    ));
    let r = c.list_clients(DsReply::TransportFailed("refused".to_string()));
    match r {
        Err(ListClientsError::RegisterClientError(SendMessageError::TransportError(s))) => {
            assert_eq!(s, "refused")
        }
        other => panic!("unexpected {:?}", other),
    }
}

#[test]
fn list_clients_in_service_order() {
    let c = registered([0u8; 32]);
    assert_eq!(c.list_clients_request(), vec![2]);
    let ids = c
        .list_clients(ok_reply(MinimalDsResponseIn::ListClients(vec![
            DsClientId::new(&[9]).unwrap(),
            DsClientId::new(&[3]).unwrap(),
        ])))
        .unwrap();
    assert_eq!(ids[0].as_bytes(), &[9]);
    assert_eq!(ids[1].as_bytes(), &[3]);
}

#[test]
fn welcome_of_wrong_kind_fails_locally() {
    let c = registered([0u8; 32]);
    let r = c.distribute_welcome_request(&message(MlsMessageBody::PrivateMessage));
    assert!(matches!(
        r,
        Err(DistributeWelcomeError::InvalidInput("MlsMessageOut is not a Welcome message."))
    ));
    let ok = c.distribute_welcome_request(&message(MlsMessageBody::Welcome)).unwrap();
    assert_eq!(ok, vec![6, 0xcc]);
}

#[test]
fn group_message_checks() {
    let c = registered([0u8; 32]);
    let commit = message(MlsMessageBody::PublicMessage { is_commit: true });
    let info = message(MlsMessageBody::GroupInfo);
    assert!(matches!(
        c.distribute_group_message_request(&commit, None),
        Err(DistributeGroupMessageError::InvalidInput("Missing GroupInfo."))
    ));
    assert!(matches!(
        c.distribute_group_message_request(&message(MlsMessageBody::Welcome), None),
        Err(DistributeGroupMessageError::InvalidInput("Unexpected MlsMessageBody."))
    ));
    let application = message(MlsMessageBody::PublicMessage { is_commit: false });
    assert!(c.distribute_group_message_request(&application, None).is_ok());
    let with_info = c.distribute_group_message_request(&commit, Some(&info)).unwrap();
    assert_eq!(&with_info[with_info.len() - 3..], &[0xcc, 1, 0xcc]);
    let private = c
        .distribute_group_message_request(&message(MlsMessageBody::PrivateMessage), None)
        .unwrap();
    assert_eq!(private[0], 5);
    assert_eq!(&private[private.len() - 2..], &[0xcc, 0]);
}

#[test]
fn acknowledged_requests() {
    let c = registered([0u8; 32]);
    assert!(c.create_group(ok_reply(MinimalDsResponseIn::Acknowledged)).is_ok());
    assert!(c.delete_group(ok_reply(MinimalDsResponseIn::Acknowledged)).is_ok());
    assert!(c.delete_client(ok_reply(MinimalDsResponseIn::Acknowledged)).is_ok());
    assert!(c.upload_key_packages(ok_reply(MinimalDsResponseIn::Acknowledged)).is_ok());
    assert!(c.distribute_welcome(ok_reply(MinimalDsResponseIn::Acknowledged)).is_ok());
    assert!(c.distribute_group_message(ok_reply(MinimalDsResponseIn::Acknowledged)).is_ok());
    assert!(c.delete_group(ok_reply(MinimalDsResponseIn::ListClients(vec![]))).is_err());
}

#[test]
fn request_layouts() {
    let c = registered([0u8; 32]);
    let g = DsGroupId::from_bytes([1u8; 16]);
    let r = c.delete_group_request(g);
    assert_eq!(r[0], 8);
    assert_eq!(r.len(), 1 + 3 + 32 + 16);
    let r = c.delete_client_request(DsClientId::new(&[4]).unwrap());
    assert_eq!(&r[r.len() - 2..], &[1, 4]);
    let r = c.fetch_key_package_request(DsClientId::new(&[4, 5]).unwrap());
    assert_eq!(r, vec![4, 2, 4, 5]);
    let r = c.create_group_request(&message(MlsMessageBody::GroupInfo), &[0xdd]);
    assert_eq!(&r[r.len() - 2..], &[0xcc, 0xdd]);
    let r = c.upload_key_packages_request(&[message(MlsMessageBody::GroupInfo)], &key_package(&[1])).unwrap();
    assert_eq!(r[0], 1);
    assert_eq!(&r[r.len() - 4..], &[1, 0xcc, 0xaa, 0xbb]);
}

#[test]
fn fetch_key_package_optional() {
    let c = registered([0u8; 32]);
    let none = c.fetch_key_package(ok_reply(MinimalDsResponseIn::KeyPackageOption(None))).unwrap();
    assert!(none.is_none());
    let some = c
        .fetch_key_package(ok_reply(MinimalDsResponseIn::KeyPackageOption(Some(vec![1, 2]))))
        .unwrap();
    assert_eq!(some, Some(vec![1, 2]));
}

#[test]
fn malformed_success_is_framing_error() {
    let c = registered([0u8; 32]);
    let r = c.delete_group(DsReply::Received { status: 200, body: vec![9] });
    match r {
        Err(minimal_ds_client::errors::DeleteGroupError::DeleteGroupError(
            SendMessageError::PayloadSerializationError(CodecError::UnknownValue(9)),
        )) => {}
        other => panic!("unexpected {:?}", other),
    }
}

#[test]
fn register_rejects_malformed_credential() {
    let handle = UnregisteredApiClient::new();
    let fallback = MlsMessageOut {
        body: MlsMessageBody::KeyPackage { serialized_credential: vec![3, 1, 2] },
        serialized: vec![],
    };
    let r = handle.register_request(&[], &fallback);
    assert!(matches!(
        r,
        Err(RegisterClientError::InvalidClientId(DsClientIdError::InvalidCredential(
            CodecError::EndOfStream
        )))
    ));
    let fallback = MlsMessageOut {
        body: MlsMessageBody::KeyPackage { serialized_credential: vec![1, 1, 9] },
        serialized: vec![],
    };
    let r = handle.register_request(&[], &fallback);
    assert!(matches!(
        r,
        Err(RegisterClientError::InvalidClientId(DsClientIdError::InvalidCredential(
            CodecError::TrailingData
        )))
    ));
}

#[test]
fn key_package_must_span_the_reply() {
    let exact = accept_key_package(vec![1, 2, 3], KeyPackageExtent::Read(3)).unwrap();
    assert_eq!(exact, vec![1, 2, 3]);
    assert!(matches!(
        accept_key_package(vec![1, 2, 3], KeyPackageExtent::Read(2)),
        Err(FetchKeyPackageError::FetchKeyPackageError(SendMessageError::PayloadSerializationError(
            CodecError::TrailingData
        )))
    ));
    assert!(matches!(
        accept_key_package(vec![1, 2, 3], KeyPackageExtent::Read(4)),
        Err(FetchKeyPackageError::FetchKeyPackageError(SendMessageError::PayloadSerializationError(
            CodecError::EndOfStream
        )))
    ));
    assert!(matches!(
        accept_key_package(vec![1], KeyPackageExtent::Unreadable(CodecError::EndOfStream)),
        Err(FetchKeyPackageError::FetchKeyPackageError(SendMessageError::PayloadSerializationError(
            CodecError::EndOfStream
        )))
    ));
}
