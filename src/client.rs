//! The client session: an unregistered handle that can only register, and a
//! registered session that builds each request and reads each reply.
//!
//! The transport stays outside: for every exchange the session hands out the
//! bytes to send, and takes back what the transport received.

use vstd::prelude::*;
use crate::errors::{
    CreateGroupError, DeleteClientError, DeleteGroupError, DistributeGroupMessageError,
    DistributeWelcomeError, FetchKeyPackageError, FetchMessagesError, ListClientsError,
    RegisterClientError, SendMessageError, UploadKeyPackagesError,
};
use crate::messages::{
    messages_concat, optional_message_wire, MinimalDsMessageOut, MlsMessageBody,
    MlsMessageOut,
};
use crate::requests::{
    DeleteClientRequest, DeleteGroupRequest, FetchKeyPackageRequest, FetchMessagesRequest,
    FetchMessagesResponse,
};
use crate::response::{client_id_views, parse_response, MinimalDsResponseIn, ResponseModel};
use crate::types::{
    credential_client_id, credential_error, AuthToken, ClientCredentials, DsClientId, DsGroupId,
};
use crate::wire::{u32_bytes, u64_bytes, vl_bytes, CodecError, MAX_VL_LEN};

verus! {

/// Why a fallback key package is refused when it is not a key package.
pub const NOT_A_KEY_PACKAGE: &'static str = "MlsMessageOut is not a KeyPackage.";

/// Why a group message is refused when it is a commit without group
/// information.
pub const MISSING_GROUP_INFO: &'static str = "Missing GroupInfo.";

/// Why a group message is refused when it is neither in the clear nor
/// encrypted.
pub const UNEXPECTED_MESSAGE_BODY: &'static str = "Unexpected MlsMessageBody.";

/// Why a welcome is refused when it is not a welcome.
pub const NOT_A_WELCOME: &'static str = "MlsMessageOut is not a Welcome message.";

/// How many messages one fetch asks for at most.
pub const FETCH_BATCH_SIZE: u32 = 100;

/// The transport status of a successful exchange.
pub const STATUS_OK: u16 = 200;

/// The transport status with which the service reports a failure.
pub const STATUS_SERVER_ERROR: u16 = 500;

/// What the transport handed back for one request.
#[derive(Debug)]
pub enum DsReply {
    /// A reply arrived, with its status and body.
    Received { status: u16, body: Vec<u8> },
    /// No reply arrived; the transport's description of why.
    TransportFailed(String),
}

/// The text that lossy UTF-8 decoding makes of `b`.
pub uninterp spec fn utf8_lossy(b: Seq<u8>) -> Seq<char>;

/// Relies on `String::from_utf8_lossy`: the text of the bytes, with each
/// invalid sequence replaced; it depends on the bytes alone.
#[verifier::external_body]
fn text_of(b: &[u8]) -> (r: String)
    ensures
        r@ == utf8_lossy(b@),
{
    String::from_utf8_lossy(b).into_owned()
}

/// The reply of the service that `reply` carries, if it is a success whose
/// body decodes.
pub open spec fn reply_response(reply: DsReply) -> Option<ResponseModel> {
    match reply {
        DsReply::Received { status, body } => if status == STATUS_OK {
            parse_response(body@)
        } else {
            None
        },
        DsReply::TransportFailed(_) => None,
    }
}

/// Whether `e` is the failure that `reply` stands for.
pub open spec fn reply_error(reply: DsReply, e: SendMessageError) -> bool {
    match reply {
        DsReply::Received { status, body } => if status == STATUS_OK {
            e matches SendMessageError::PayloadSerializationError(_)
        } else if status == STATUS_SERVER_ERROR {
            e matches SendMessageError::MinimalDsError(t) && t@ == utf8_lossy(body@)
        } else {
            e matches SendMessageError::NetworkError(s) && s == status
        },
        DsReply::TransportFailed(m) => e matches SendMessageError::TransportError(t) && t@ == m@,
    }
}

/// Classifies what the transport handed back: a success is decoded as a
/// reply of the service, a reported failure carries its text, and anything
/// else is a network failure.
pub fn read_reply(reply: DsReply) -> (r: Result<MinimalDsResponseIn, SendMessageError>)
    ensures
        match reply_response(reply) {
            Some(m) => r matches Ok(v) && v@ == m,
            None => r matches Err(e) && reply_error(reply, e),
        },
{
    match reply {
        DsReply::Received { status, body } => {
            if status == STATUS_OK {
                match MinimalDsResponseIn::decode_exact(body.as_slice()) {
                    Ok(v) => Ok(v),
                    Err(e) => Err(SendMessageError::PayloadSerializationError(e)),
                }
            } else if status == STATUS_SERVER_ERROR {
                Err(SendMessageError::MinimalDsError(text_of(body.as_slice())))
            } else {
                Err(SendMessageError::NetworkError(status))
            }
        },
        DsReply::TransportFailed(m) => Err(SendMessageError::TransportError(m)),
    }
}

/// Whether a reply acknowledges the request.
pub open spec fn is_ack(m: ResponseModel) -> bool {
    m matches ResponseModel::Acknowledged
}

/// The state of a registered session.
pub struct SessionModel {
    pub client_id: Seq<u8>,
    pub token: Seq<u8>,
    pub cursor: u64,
}

/// A client not yet registered with the service: all it can do is register.
pub struct UnregisteredApiClient {}

/// A client registered with the service.
#[derive(Debug)]
pub struct ApiClient {
    client_id: DsClientId,
    auth_token: AuthToken,
    last_seen_message_sequence_number: u64,
}

impl View for ApiClient {
    type V = SessionModel;

    closed spec fn view(&self) -> SessionModel {
        SessionModel {
            client_id: self.client_id@,
            token: self.auth_token@,
            cursor: self.last_seen_message_sequence_number,
        }
    }
}

/// The encoding of a registration request.
pub open spec fn register_wire(key_packages: Seq<MlsMessageOut>, last_resort: MlsMessageOut) -> Seq<
    u8,
> {
    seq![0u8] + vl_bytes(messages_concat(key_packages)) + last_resort.serialized@
}

/// The identifier that a fallback key package names, if it is a key package
/// whose credential names a valid identifier.
pub open spec fn fallback_client_id(m: MlsMessageOut) -> Option<Seq<u8>> {
    match m.body {
        MlsMessageBody::KeyPackage { serialized_credential } => credential_client_id(
            serialized_credential@,
        ),
        _ => None,
    }
}

impl UnregisteredApiClient {
    /// A client that is not registered yet.
    pub fn new() -> Self {
        UnregisteredApiClient {  }
    }

    /// Checks the fallback key package and encodes the registration request:
    /// the identifier that registration will give, and the bytes to send.
    pub fn register_request(
        &self,
        key_packages: &[MlsMessageOut],
        last_resort_key_package: &MlsMessageOut,
    ) -> (r: Result<(DsClientId, Vec<u8>), RegisterClientError>)
        ensures
            !(last_resort_key_package.body is KeyPackage) ==> (r matches Err(
                RegisterClientError::InvalidInput(x),
            ) && x == NOT_A_KEY_PACKAGE),
            last_resort_key_package.body matches MlsMessageBody::KeyPackage {
                serialized_credential,
            } ==> (credential_error(serialized_credential@) matches Some(e) ==> (r matches Err(
                RegisterClientError::InvalidClientId(x),
            ) && x == e)),
            fallback_client_id(*last_resort_key_package) matches Some(id) ==> if messages_concat(
                key_packages@,
            ).len() <= MAX_VL_LEN {
                r matches Ok((c, b)) && c@ == id && b@ == register_wire(
                    key_packages@,
                    *last_resort_key_package,
                )
            } else {
                r matches Err(
                    RegisterClientError::RegisterClientError(
                        SendMessageError::PayloadSerializationError(_),
                    ),
                )
            },
    {
        let client_id = match &last_resort_key_package.body {
            MlsMessageBody::KeyPackage { serialized_credential } => {
                match DsClientId::from_serialized_credential(serialized_credential.as_slice()) {
                    Ok(id) => id,
                    Err(e) => return Err(RegisterClientError::InvalidClientId(e)),
                }
            },
            _ => return Err(RegisterClientError::InvalidInput(NOT_A_KEY_PACKAGE)),
        };
        let message = MinimalDsMessageOut::RegisterClient { key_packages, last_resort_key_package };
        match message.encode() {
            Ok(b) => Ok((client_id, b)),
            Err(e) => Err(
                RegisterClientError::RegisterClientError(
                    SendMessageError::PayloadSerializationError(e),
                ),
            ),
        }
    }

    /// Reads the reply to a registration: a token makes a registered session
    /// for `client_id`, with its cursor at zero.
    pub fn register(&self, client_id: DsClientId, reply: DsReply) -> (r: Result<
        ApiClient,
        RegisterClientError,
    >)
        ensures
            match reply_response(reply) {
                Some(ResponseModel::AuthToken(t)) => r matches Ok(c) && c@ == (SessionModel {
                    client_id: client_id@,
                    token: t,
                    cursor: 0,
                }),
                Some(_) => r matches Err(RegisterClientError::UnexpectedResponse),
                None => r matches Err(RegisterClientError::RegisterClientError(e)) && reply_error(
                    reply,
                    e,
                ),
            },
    {
        match read_reply(reply) {
            Ok(MinimalDsResponseIn::AuthToken(auth_token)) => Ok(
                ApiClient { client_id, auth_token, last_seen_message_sequence_number: 0 },
            ),
            Ok(_) => Err(RegisterClientError::UnexpectedResponse),
            Err(e) => Err(RegisterClientError::RegisterClientError(e)),
        }
    }
}

/// The cursor after accepting `batch`: the sequence number of its last
/// message, or `cursor` itself where the batch is empty.
pub open spec fn next_cursor(cursor: u64, batch: Seq<(Seq<u8>, u64)>) -> u64 {
    if batch.len() == 0 {
        cursor
    } else {
        batch.last().1
    }
}

/// Whether a message may be handed to "distribute group message": a message
/// in the clear or an encrypted one; `None` where it may, else the reason.
/// A commit in the clear needs the group information. The content of an
/// encrypted message is not visible to this layer, so it is never refused as
/// a commit.
pub open spec fn group_message_refusal(m: MlsMessageOut, has_group_info: bool) -> Option<
    GroupMessageRefusal,
> {
    match m.body {
        MlsMessageBody::PublicMessage { is_commit } => if is_commit && !has_group_info {
            Some(GroupMessageRefusal::MissingGroupInfo)
        } else {
            None
        },
        MlsMessageBody::PrivateMessage => None,
        _ => Some(GroupMessageRefusal::InvalidMessage),
    }
}

/// Why a group message is refused before anything is sent.
pub enum GroupMessageRefusal {
    /// It is neither in the clear nor encrypted.
    InvalidMessage,
    /// It is a commit and comes without the group information.
    MissingGroupInfo,
}

impl ApiClient {
    /// The identifier of this client.
    pub fn client_id(&self) -> (r: DsClientId)
        ensures
            r@ == self@.client_id,
    {
        self.client_id.duplicate()
    }

    /// The sequence number of the last message accepted, zero before any.
    pub fn last_seen_sequence_number(&self) -> (r: u64)
        ensures
            r == self@.cursor,
    {
        self.last_seen_message_sequence_number
    }

    /// The credentials that authenticated requests carry.
    pub fn client_credentials(&self) -> (r: ClientCredentials)
        ensures
            r.client_id@ == self@.client_id,
            r.token@ == self@.token,
    {
        ClientCredentials { client_id: self.client_id.duplicate(), token: self.auth_token }
    }

    /// Encodes an upload of further key packages.
    pub fn upload_key_packages_request(
        &self,
        key_packages: &[MlsMessageOut],
        last_resort_key_package: &MlsMessageOut,
    ) -> (r: Result<Vec<u8>, UploadKeyPackagesError>)
        ensures
            messages_concat(key_packages@).len() <= MAX_VL_LEN ==> (r matches Ok(b) && b@ == seq![
                1u8,
            ] + credentials_of(self@) + vl_bytes(messages_concat(key_packages@))
                + last_resort_key_package.serialized@),
            messages_concat(key_packages@).len() > MAX_VL_LEN ==> r matches Err(
                UploadKeyPackagesError::UploadKeyPackageError(
                    SendMessageError::PayloadSerializationError(_),
                ),
            ),
    {
        let credentials = self.client_credentials();
        let message = MinimalDsMessageOut::UploadKeyPackages {
            credentials: &credentials,
            key_packages,
            last_resort_key_package,
        };
        match message.encode() {
            Ok(b) => Ok(b),
            Err(e) => Err(
                UploadKeyPackagesError::UploadKeyPackageError(
                    SendMessageError::PayloadSerializationError(e),
                ),
            ),
        }
    }

    /// Reads the reply to an upload of key packages.
    pub fn upload_key_packages(&self, reply: DsReply) -> (r: Result<(), UploadKeyPackagesError>)
        ensures
            match reply_response(reply) {
                Some(m) => if is_ack(m) {
                    r is Ok
                } else {
                    r matches Err(UploadKeyPackagesError::UnexpectedResponse)
                },
                None => r matches Err(UploadKeyPackagesError::UploadKeyPackageError(e))
                    && reply_error(reply, e),
            },
    {
        match read_reply(reply) {
            Ok(MinimalDsResponseIn::Acknowledged) => Ok(()),
            Ok(_) => Err(UploadKeyPackagesError::UnexpectedResponse),
            Err(e) => Err(UploadKeyPackagesError::UploadKeyPackageError(e)),
        }
    }

    /// Encodes a request for the list of registered clients.
    pub fn list_clients_request(&self) -> (r: Vec<u8>)
        ensures
            r@ == seq![2u8],
    {
        let message = MinimalDsMessageOut::ListClients;
        match message.encode() {
            Ok(b) => b,
            Err(_) => Vec::new(),
        }
    }

    /// Reads the reply to a request for the list of clients: the
    /// identifiers in the order the service sent them.
    pub fn list_clients(&self, reply: DsReply) -> (r: Result<Vec<DsClientId>, ListClientsError>)
        ensures
            match reply_response(reply) {
                Some(ResponseModel::ListClients(ids)) => r matches Ok(v) && client_id_views(v@)
                    == ids,
                Some(_) => r matches Err(ListClientsError::UnexpectedResponse),
                None => r matches Err(ListClientsError::RegisterClientError(e)) && reply_error(
                    reply,
                    e,
                ),
            },
    {
        match read_reply(reply) {
            Ok(MinimalDsResponseIn::ListClients(ids)) => Ok(ids),
            Ok(_) => Err(ListClientsError::UnexpectedResponse),
            Err(e) => Err(ListClientsError::RegisterClientError(e)),
        }
    }

    /// Encodes the creation of a group from its group information and its
    /// serialized ratchet tree.
    pub fn create_group_request(&self, group_info: &MlsMessageOut, ratchet_tree: &[u8]) -> (r:
        Vec<u8>)
        ensures
            r@ == seq![3u8] + credentials_of(self@) + group_info.serialized@ + ratchet_tree@,
    {
        let credentials = self.client_credentials();
        let message = MinimalDsMessageOut::CreateGroup {
            credentials: &credentials,
            group_info,
            ratchet_tree,
        };
        match message.encode() {
            Ok(b) => b,
            Err(_) => Vec::new(),
        }
    }

    /// Reads the reply to the creation of a group.
    pub fn create_group(&self, reply: DsReply) -> (r: Result<(), CreateGroupError>)
        ensures
            match reply_response(reply) {
                Some(m) => if is_ack(m) {
                    r is Ok
                } else {
                    r matches Err(CreateGroupError::UnexpectedResponse)
                },
                None => r matches Err(CreateGroupError::CreateGroupError(e)) && reply_error(
                    reply,
                    e,
                ),
            },
    {
        match read_reply(reply) {
            Ok(MinimalDsResponseIn::Acknowledged) => Ok(()),
            Ok(_) => Err(CreateGroupError::UnexpectedResponse),
            Err(e) => Err(CreateGroupError::CreateGroupError(e)),
        }
    }

    /// Encodes a request for a key package of the client `client_id`.
    pub fn fetch_key_package_request(&self, client_id: DsClientId) -> (r: Vec<u8>)
        ensures
            r@ == seq![4u8] + vl_bytes(client_id@),
    {
        let message = MinimalDsMessageOut::FetchKeyPackage(FetchKeyPackageRequest { client_id });
        match message.encode() {
            Ok(b) => b,
            Err(_) => Vec::new(),
        }
    }

    /// Reads the reply to a request for a key package: the serialized key
    /// package, or `None` where the service had none.
    pub fn fetch_key_package(&self, reply: DsReply) -> (r: Result<
        Option<Vec<u8>>,
        FetchKeyPackageError,
    >)
        ensures
            match reply_response(reply) {
                Some(ResponseModel::KeyPackageOption(o)) => r matches Ok(v) && match v {
                    Some(k) => o == Some(k@),
                    None => o is None,
                },
                Some(_) => r matches Err(FetchKeyPackageError::UnexpectedResponse),
                None => r matches Err(FetchKeyPackageError::FetchKeyPackageError(e))
                    && reply_error(reply, e),
            },
    {
        match read_reply(reply) {
            Ok(MinimalDsResponseIn::KeyPackageOption(o)) => Ok(o),
            Ok(_) => Err(FetchKeyPackageError::UnexpectedResponse),
            Err(e) => Err(FetchKeyPackageError::FetchKeyPackageError(e)),
        }
    }

    /// Checks a group message and encodes its distribution. A message in the
    /// clear whose content is a commit needs the group information; a
    /// message neither in the clear nor encrypted is refused.
    pub fn distribute_group_message_request(
        &self,
        message: &MlsMessageOut,
        group_info_option: Option<&MlsMessageOut>,
    ) -> (r: Result<Vec<u8>, DistributeGroupMessageError>)
        ensures
            match group_message_refusal(*message, group_info_option is Some) {
                Some(GroupMessageRefusal::MissingGroupInfo) => r matches Err(
                    DistributeGroupMessageError::InvalidInput(x),
                ) && x == MISSING_GROUP_INFO,
                Some(GroupMessageRefusal::InvalidMessage) => r matches Err(
                    DistributeGroupMessageError::InvalidInput(x),
                ) && x == UNEXPECTED_MESSAGE_BODY,
                None => r matches Ok(b) && b@ == seq![5u8] + credentials_of(self@)
                    + message.serialized@ + optional_message_wire(group_info_option),
            },
    {
        match &message.body {
            MlsMessageBody::PublicMessage { is_commit } => {
                if *is_commit && group_info_option.is_none() {
                    return Err(DistributeGroupMessageError::InvalidInput(MISSING_GROUP_INFO));
                }
            },
            MlsMessageBody::PrivateMessage => {},
            _ => {
                return Err(DistributeGroupMessageError::InvalidInput(UNEXPECTED_MESSAGE_BODY));
            },
        }
        let credentials = self.client_credentials();
        let request = MinimalDsMessageOut::DistributeGroupMessage {
            credentials: &credentials,
            message,
            group_info_option,
        };
        match request.encode() {
            Ok(b) => Ok(b),
            Err(e) => Err(
                DistributeGroupMessageError::DistributeGroupMessageError(
                    SendMessageError::PayloadSerializationError(e),
                ),
            ),
        }
    }

    /// Reads the reply to the distribution of a group message.
    pub fn distribute_group_message(&self, reply: DsReply) -> (r: Result<
        (),
        DistributeGroupMessageError,
    >)
        ensures
            match reply_response(reply) {
                Some(m) => if is_ack(m) {
                    r is Ok
                } else {
                    r matches Err(DistributeGroupMessageError::UnexpectedResponse)
                },
                None => r matches Err(DistributeGroupMessageError::DistributeGroupMessageError(e))
                    && reply_error(reply, e),
            },
    {
        match read_reply(reply) {
            Ok(MinimalDsResponseIn::Acknowledged) => Ok(()),
            Ok(_) => Err(DistributeGroupMessageError::UnexpectedResponse),
            Err(e) => Err(DistributeGroupMessageError::DistributeGroupMessageError(e)),
        }
    }

    /// Checks that `message` is a welcome and encodes its distribution. A
    /// message of another kind gets no bytes to send, and the session, only
    /// read, is left as it was.
    pub fn distribute_welcome_request(&self, message: &MlsMessageOut) -> (r: Result<
        Vec<u8>,
        DistributeWelcomeError,
    >)
        ensures
            message.body is Welcome ==> (r matches Ok(b) && b@ == seq![6u8] + message.serialized@),
            !(message.body is Welcome) ==> (r matches Err(DistributeWelcomeError::InvalidInput(x))
                && x == NOT_A_WELCOME),
    {
        if !matches!(message.body, MlsMessageBody::Welcome) {
            return Err(DistributeWelcomeError::InvalidInput(NOT_A_WELCOME));
        }
        let request = MinimalDsMessageOut::DistributeWelcome { message };
        match request.encode() {
            Ok(b) => Ok(b),
            Err(e) => Err(
                DistributeWelcomeError::DistributeWelcomeError(
                    SendMessageError::PayloadSerializationError(e),
                ),
            ),
        }
    }

    /// Reads the reply to the distribution of a welcome.
    pub fn distribute_welcome(&self, reply: DsReply) -> (r: Result<(), DistributeWelcomeError>)
        ensures
            match reply_response(reply) {
                Some(m) => if is_ack(m) {
                    r is Ok
                } else {
                    r matches Err(DistributeWelcomeError::UnexpectedResponse)
                },
                None => r matches Err(DistributeWelcomeError::DistributeWelcomeError(e))
                    && reply_error(reply, e),
            },
    {
        match read_reply(reply) {
            Ok(MinimalDsResponseIn::Acknowledged) => Ok(()),
            Ok(_) => Err(DistributeWelcomeError::UnexpectedResponse),
            Err(e) => Err(DistributeWelcomeError::DistributeWelcomeError(e)),
        }
    }

    /// Encodes a fetch of at most `FETCH_BATCH_SIZE` messages after the
    /// cursor.
    pub fn fetch_messages_request(&self) -> (r: Vec<u8>)
        ensures
            r@ == seq![7u8] + credentials_of(self@) + u64_bytes(self@.cursor) + u32_bytes(
                FETCH_BATCH_SIZE,
            ),
    {
        let request = FetchMessagesRequest {
            credentials: self.client_credentials(),
            last_seen_sequence_number: self.last_seen_message_sequence_number,
            number_of_messages: FETCH_BATCH_SIZE,
        };
        let message = MinimalDsMessageOut::FetchMessages(request);
        match message.encode() {
            Ok(b) => b,
            Err(_) => Vec::new(),
        }
    }

    /// Reads the reply to a fetch: the batch, in the order the service sent
    /// it. The cursor moves only once the batch is accepted.
    pub fn fetch_messages(&self, reply: DsReply) -> (r: Result<
        FetchMessagesResponse,
        FetchMessagesError,
    >)
        ensures
            match reply_response(reply) {
                Some(ResponseModel::FetchMessages(ms)) => r matches Ok(v) && v@ == ms,
                Some(_) => r matches Err(FetchMessagesError::UnexpectedResponse),
                None => r matches Err(FetchMessagesError::FetchMessagesError(e)) && reply_error(
                    reply,
                    e,
                ),
            },
    {
        match read_reply(reply) {
            Ok(MinimalDsResponseIn::FetchMessages(f)) => Ok(f),
            Ok(_) => Err(FetchMessagesError::UnexpectedResponse),
            Err(e) => Err(FetchMessagesError::FetchMessagesError(e)),
        }
    }

    /// Accepts a fetched batch once all of it has been read: the cursor moves
    /// to the sequence number of its last message, and stays where the batch
    /// is empty.
    pub fn accept_messages(&mut self, batch: &FetchMessagesResponse)
        ensures
            final(self)@ == (SessionModel {
                cursor: next_cursor(old(self)@.cursor, batch@),
                ..old(self)@
            }),
    {
        let n = batch.messages.len();
        if n > 0 {
            self.last_seen_message_sequence_number = batch.messages[n - 1].sequence_number;
        }
    }

    /// Encodes the deletion of the group `group_id`.
    pub fn delete_group_request(&self, group_id: DsGroupId) -> (r: Vec<u8>)
        ensures
            r@ == seq![8u8] + credentials_of(self@) + group_id@,
    {
        let request = DeleteGroupRequest { credentials: self.client_credentials(), group_id };
        let message = MinimalDsMessageOut::DeleteGroup(request);
        match message.encode() {
            Ok(b) => b,
            Err(_) => Vec::new(),
        }
    }

    /// Reads the reply to the deletion of a group.
    pub fn delete_group(&self, reply: DsReply) -> (r: Result<(), DeleteGroupError>)
        ensures
            match reply_response(reply) {
                Some(m) => if is_ack(m) {
                    r is Ok
                } else {
                    r matches Err(DeleteGroupError::UnexpectedResponse)
                },
                None => r matches Err(DeleteGroupError::DeleteGroupError(e)) && reply_error(
                    reply,
                    e,
                ),
            },
    {
        match read_reply(reply) {
            Ok(MinimalDsResponseIn::Acknowledged) => Ok(()),
            Ok(_) => Err(DeleteGroupError::UnexpectedResponse),
            Err(e) => Err(DeleteGroupError::DeleteGroupError(e)),
        }
    }

    /// Encodes the deletion of the client `client_id`.
    pub fn delete_client_request(&self, client_id: DsClientId) -> (r: Vec<u8>)
        ensures
            r@ == seq![9u8] + credentials_of(self@) + vl_bytes(client_id@),
    {
        let request = DeleteClientRequest { credentials: self.client_credentials(), client_id };
        let message = MinimalDsMessageOut::DeleteClient(request);
        match message.encode() {
            Ok(b) => b,
            Err(_) => Vec::new(),
        }
    }

    /// Reads the reply to the deletion of a client.
    pub fn delete_client(&self, reply: DsReply) -> (r: Result<(), DeleteClientError>)
        ensures
            match reply_response(reply) {
                Some(m) => if is_ack(m) {
                    r is Ok
                } else {
                    r matches Err(DeleteClientError::UnexpectedResponse)
                },
                None => r matches Err(DeleteClientError::DeleteClientError(e)) && reply_error(
                    reply,
                    e,
                ),
            },
    {
        match read_reply(reply) {
            Ok(MinimalDsResponseIn::Acknowledged) => Ok(()),
            Ok(_) => Err(DeleteClientError::UnexpectedResponse),
            Err(e) => Err(DeleteClientError::DeleteClientError(e)),
        }
    }
}

/// The encoding of the credentials of a session.
pub open spec fn credentials_of(s: SessionModel) -> Seq<u8> {
    vl_bytes(s.client_id) + s.token
}

/// The cursor after a run of fetches, each either accepted with its batch
/// (`Some`) or failed (`None`, which leaves the cursor alone).
pub open spec fn cursor_after(cursor: u64, outcomes: Seq<Option<Seq<(Seq<u8>, u64)>>>) -> u64
    decreases outcomes.len(),
{
    if outcomes.len() == 0 {
        cursor
    } else {
        let next = match outcomes[0] {
            Some(batch) => next_cursor(cursor, batch),
            None => cursor,
        };
        cursor_after(next, outcomes.drop_first())
    }
}

/// Whether every message of `batch` comes after `cursor`, as a fetch from
/// `cursor` asks.
pub open spec fn batch_follows(cursor: u64, batch: Seq<(Seq<u8>, u64)>) -> bool {
    forall|i: int| 0 <= i < batch.len() ==> cursor < (#[trigger] batch[i]).1
}

/// Whether each accepted batch of a run comes after the cursor it was
/// fetched from.
pub open spec fn run_follows(cursor: u64, outcomes: Seq<Option<Seq<(Seq<u8>, u64)>>>) -> bool
    decreases outcomes.len(),
{
    if outcomes.len() == 0 {
        true
    } else {
        match outcomes[0] {
            Some(batch) => batch_follows(cursor, batch) && run_follows(
                next_cursor(cursor, batch),
                outcomes.drop_first(),
            ),
            None => run_follows(cursor, outcomes.drop_first()),
        }
    }
}

/// Accepting a non-empty batch that follows the cursor moves the cursor to
/// the batch's last sequence number, which is past the old cursor; an empty
/// batch leaves it alone.
pub proof fn lemma_cursor_step(cursor: u64, batch: Seq<(Seq<u8>, u64)>)
    requires
        batch_follows(cursor, batch),
    ensures
        batch.len() > 0 ==> next_cursor(cursor, batch) == batch.last().1 && next_cursor(
            cursor,
            batch,
        ) > cursor,
        batch.len() == 0 ==> next_cursor(cursor, batch) == cursor,
{
    if batch.len() > 0 {
        assert(cursor < batch[batch.len() - 1].1);
    }
}

/// Over any run of fetches, failed ones included, the cursor never goes
/// back, as long as each accepted batch comes after the cursor it was
/// fetched from.
pub proof fn lemma_cursor_never_decreases(cursor: u64, outcomes: Seq<Option<Seq<(Seq<u8>, u64)>>>)
    requires
        run_follows(cursor, outcomes),
    ensures
        cursor_after(cursor, outcomes) >= cursor,
    decreases outcomes.len(),
{
    if outcomes.len() > 0 {
        match outcomes[0] {
            Some(batch) => {
                lemma_cursor_step(cursor, batch);
                lemma_cursor_never_decreases(next_cursor(cursor, batch), outcomes.drop_first());
            },
            None => {
                lemma_cursor_never_decreases(cursor, outcomes.drop_first());
            },
        }
    }
}

/// How the protocol layer read the bytes of a fetched key package: how many
/// of them its decoder took, or why it could not decode one.
#[derive(Debug)]
pub enum KeyPackageExtent {
    Read(usize),
    Unreadable(CodecError),
}

/// Accepts the bytes of a fetched key package only where the protocol
/// layer's decoder took exactly all of them: a key package that ends early
/// leaves trailing data, one that runs past them is cut short.
pub fn accept_key_package(candidate: Vec<u8>, extent: KeyPackageExtent) -> (r: Result<
    Vec<u8>,
    FetchKeyPackageError,
>)
    ensures
        match extent {
            KeyPackageExtent::Read(n) => if n == candidate@.len() {
                r matches Ok(k) && k@ == candidate@
            } else if n < candidate@.len() {
                r matches Err(
                    FetchKeyPackageError::FetchKeyPackageError(
                        SendMessageError::PayloadSerializationError(e),
                    ),
                ) && e == CodecError::TrailingData
            } else {
                r matches Err(
                    FetchKeyPackageError::FetchKeyPackageError(
                        SendMessageError::PayloadSerializationError(e),
                    ),
                ) && e == CodecError::EndOfStream
            },
            KeyPackageExtent::Unreadable(e) => r matches Err(
                FetchKeyPackageError::FetchKeyPackageError(
                    SendMessageError::PayloadSerializationError(x),
                ),
            ) && x == e,
        },
{
    match extent {
        KeyPackageExtent::Read(n) => {
            if n == candidate.len() {
                Ok(candidate)
            } else if n < candidate.len() {
                Err(
                    FetchKeyPackageError::FetchKeyPackageError(
                        SendMessageError::PayloadSerializationError(CodecError::TrailingData),
                    ),
                )
            } else {
                Err(
                    FetchKeyPackageError::FetchKeyPackageError(
                        SendMessageError::PayloadSerializationError(CodecError::EndOfStream),
                    ),
                )
            }
        },
        KeyPackageExtent::Unreadable(e) => Err(
            FetchKeyPackageError::FetchKeyPackageError(
                SendMessageError::PayloadSerializationError(e),
            ),
        ),
    }
}

} // verus!
