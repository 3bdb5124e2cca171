//! Messages of the group protocol as this library carries them, and the
//! request envelope: one tag byte naming the kind of request, then its body.

use vstd::prelude::*;
use crate::requests::{
    DeleteClientRequest, DeleteGroupRequest, FetchKeyPackageRequest, FetchMessagesRequest,
};
use crate::types::{credentials_wire, ClientCredentials};
use crate::wire::{
    seq_wire, lemma_seq_wire_push, u32_bytes, u64_bytes, vl_bytes, write_bytes, write_vl_prefix,
    CodecError, MAX_VL_LEN,
};

verus! {

/// The kind of a group-protocol message, with what this library reads of it.
#[derive(Debug)]
pub enum MlsMessageBody {
    /// A message in the clear; `is_commit` where its content is a commit.
    PublicMessage { is_commit: bool },
    /// An encrypted message.
    PrivateMessage,
    /// A welcome for new members.
    Welcome,
    /// The public information of a group.
    GroupInfo,
    /// A key package, with the serialized content of its credential.
    KeyPackage { serialized_credential: Vec<u8> },
}

/// A group-protocol message ready to send: its kind, and the bytes that the
/// protocol layer serialized it to.
#[derive(Debug)]
pub struct MlsMessageOut {
    pub body: MlsMessageBody,
    pub serialized: Vec<u8>,
}

/// The serialized bytes of a message.
pub open spec fn serialized_encoder() -> spec_fn(MlsMessageOut) -> Seq<u8> {
    |m: MlsMessageOut| m.serialized@
}

/// The serialized bytes of `ms`, one after another.
pub open spec fn messages_concat(ms: Seq<MlsMessageOut>) -> Seq<u8> {
    seq_wire(ms, serialized_encoder())
}

/// An optional message: a presence byte, then the message if there is one.
pub open spec fn optional_message_wire(o: Option<&MlsMessageOut>) -> Seq<u8> {
    match o {
        Some(m) => seq![1u8] + m.serialized@,
        None => seq![0u8],
    }
}

/// A request to the service, by kind, in the order of their tags.
pub enum MinimalDsMessageOut<'a> {
    RegisterClient {
        key_packages: &'a [MlsMessageOut],
        last_resort_key_package: &'a MlsMessageOut,
    },
    UploadKeyPackages {
        credentials: &'a ClientCredentials,
        key_packages: &'a [MlsMessageOut],
        last_resort_key_package: &'a MlsMessageOut,
    },
    ListClients,
    CreateGroup {
        credentials: &'a ClientCredentials,
        group_info: &'a MlsMessageOut,
        ratchet_tree: &'a [u8],
    },
    FetchKeyPackage(FetchKeyPackageRequest),
    DistributeGroupMessage {
        credentials: &'a ClientCredentials,
        message: &'a MlsMessageOut,
        group_info_option: Option<&'a MlsMessageOut>,
    },
    DistributeWelcome { message: &'a MlsMessageOut },
    FetchMessages(FetchMessagesRequest),
    DeleteGroup(DeleteGroupRequest),
    DeleteClient(DeleteClientRequest),
}

/// The encoding of credentials held by reference.
pub open spec fn cred_wire(c: &ClientCredentials) -> Seq<u8> {
    credentials_wire(c.client_id@, c.token@)
}

impl<'a> MinimalDsMessageOut<'a> {
    /// Whether the request can be encoded: every list of key packages fits
    /// under a length prefix.
    pub open spec fn encodable(&self) -> bool {
        match self {
            MinimalDsMessageOut::RegisterClient { key_packages, .. } => messages_concat(
                key_packages@,
            ).len() <= MAX_VL_LEN,
            MinimalDsMessageOut::UploadKeyPackages { key_packages, .. } => messages_concat(
                key_packages@,
            ).len() <= MAX_VL_LEN,
            _ => true,
        }
    }

    /// The encoding of the request: its tag, then its fields in order.
    pub open spec fn wire(&self) -> Seq<u8> {
        match self {
            MinimalDsMessageOut::RegisterClient { key_packages, last_resort_key_package } =>
                seq![0u8] + vl_bytes(messages_concat(key_packages@))
                + last_resort_key_package.serialized@,
            MinimalDsMessageOut::UploadKeyPackages {
                credentials,
                key_packages,
                last_resort_key_package,
            } => seq![1u8] + cred_wire(credentials) + vl_bytes(messages_concat(key_packages@))
                + last_resort_key_package.serialized@,
            MinimalDsMessageOut::ListClients => seq![2u8],
            MinimalDsMessageOut::CreateGroup { credentials, group_info, ratchet_tree } =>
                seq![3u8] + cred_wire(credentials) + group_info.serialized@ + ratchet_tree@,
            MinimalDsMessageOut::FetchKeyPackage(r) => seq![4u8] + vl_bytes(r.client_id@),
            MinimalDsMessageOut::DistributeGroupMessage {
                credentials,
                message,
                group_info_option,
            } => seq![5u8] + cred_wire(credentials) + message.serialized@ + optional_message_wire(
                *group_info_option,
            ),
            MinimalDsMessageOut::DistributeWelcome { message } => seq![6u8] + message.serialized@,
            MinimalDsMessageOut::FetchMessages(r) => seq![7u8] + cred_wire(&r.credentials)
                + u64_bytes(r.last_seen_sequence_number) + u32_bytes(r.number_of_messages),
            MinimalDsMessageOut::DeleteGroup(r) => seq![8u8] + cred_wire(&r.credentials)
                + r.group_id@,
            MinimalDsMessageOut::DeleteClient(r) => seq![9u8] + cred_wire(&r.credentials)
                + vl_bytes(r.client_id@),
        }
    }

    /// The encoding of the request; fails where a list of key packages is too
    /// long for its length prefix.
    pub fn encode(&self) -> (r: Result<Vec<u8>, CodecError>)
        ensures
            r is Ok <==> self.encodable(),
            r matches Ok(b) ==> b@ == self.wire(),
    {
        let mut out: Vec<u8> = Vec::new();
        match self {
            MinimalDsMessageOut::RegisterClient { key_packages, last_resort_key_package } => {
                out.push(0u8);
                write_framed_messages(key_packages, &mut out)?;
                write_bytes(&mut out, last_resort_key_package.serialized.as_slice());
            },
            MinimalDsMessageOut::UploadKeyPackages {
                credentials,
                key_packages,
                last_resort_key_package,
            } => {
                out.push(1u8);
                credentials.encode(&mut out);
                write_framed_messages(key_packages, &mut out)?;
                write_bytes(&mut out, last_resort_key_package.serialized.as_slice());
            },
            MinimalDsMessageOut::ListClients => {
                out.push(2u8);
            },
            MinimalDsMessageOut::CreateGroup { credentials, group_info, ratchet_tree } => {
                out.push(3u8);
                credentials.encode(&mut out);
                write_bytes(&mut out, group_info.serialized.as_slice());
                write_bytes(&mut out, ratchet_tree);
            },
            MinimalDsMessageOut::FetchKeyPackage(r) => {
                out.push(4u8);
                r.encode(&mut out);
            },
            MinimalDsMessageOut::DistributeGroupMessage {
                credentials,
                message,
                group_info_option,
            } => {
                out.push(5u8);
                credentials.encode(&mut out);
                write_bytes(&mut out, message.serialized.as_slice());
                match group_info_option {
                    Some(g) => {
                        out.push(1u8);
                        write_bytes(&mut out, g.serialized.as_slice());
                    },
                    None => {
                        out.push(0u8);
                    },
                }
            },
            MinimalDsMessageOut::DistributeWelcome { message } => {
                out.push(6u8);
                write_bytes(&mut out, message.serialized.as_slice());
            },
            MinimalDsMessageOut::FetchMessages(r) => {
                out.push(7u8);
                r.encode(&mut out);
            },
            MinimalDsMessageOut::DeleteGroup(r) => {
                out.push(8u8);
                r.encode(&mut out);
            },
            MinimalDsMessageOut::DeleteClient(r) => {
                out.push(9u8);
                r.encode(&mut out);
            },
        }
        assert(out@ =~= self.wire());
        Ok(out)
    }
}

/// Appends the serialized messages one after another, framed by the prefix
/// of their byte length; fails, leaving `out` as it was, where they are too
/// long for a prefix.
fn write_framed_messages(ms: &[MlsMessageOut], out: &mut Vec<u8>) -> (r: Result<(), CodecError>)
    ensures
        r is Ok <==> messages_concat(ms@).len() <= MAX_VL_LEN,
        r is Ok ==> final(out)@ == old(out)@ + vl_bytes(messages_concat(ms@)),
        r is Err ==> final(out)@ == old(out)@,
{
    let mut content: Vec<u8> = Vec::new();
    let mut i: usize = 0;
    while i < ms.len()
        invariant
            i <= ms@.len(),
            content@ == messages_concat(ms@.subrange(0, i as int)),
        decreases ms@.len() - i,
    {
        write_bytes(&mut content, ms[i].serialized.as_slice());
        proof {
            lemma_seq_wire_push(ms@.subrange(0, i as int), ms@[i as int], serialized_encoder());
            assert(ms@.subrange(0, i as int).push(ms@[i as int]) =~= ms@.subrange(0, i + 1));
        }
        i = i + 1;
    }
    assert(ms@.subrange(0, i as int) =~= ms@);
    if content.len() > MAX_VL_LEN {
        return Err(CodecError::InvalidVectorLength);
    }
    write_vl_prefix(out, content.len());
    write_bytes(out, content.as_slice());
    Ok(())
}

} // verus!
