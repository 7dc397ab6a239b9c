//! Who may use the server.
use crate::addr::same_bytes;
use crate::wire::{METHOD_NONE_ACCEPTABLE, METHOD_NO_AUTH, METHOD_USERPASS, USERPASS_VERSION};
use sha2::{Digest, Sha256};
use vstd::prelude::*;

verus! {

/// What a client has to know: nothing, or a username and a password whose
/// concatenation has this SHA-256 digest.
pub type Creds = Option<[u8; 32]>;

/// The SHA-256 digest of a message.
pub uninterp spec fn sha256_digest(message: Seq<u8>) -> Seq<u8>;

/// Calls [`sha2::Digest::digest`] for [`Sha256`], which hashes the whole message
/// at once. The digest depends on the message alone.
#[verifier::external_body]
fn sha256(message: &[u8]) -> (digest: [u8; 32])
    ensures
        digest@ == sha256_digest(message@),
{
    Sha256::digest(message).into()
}

/// Whether a username and a password are those that `expect` stands for.
pub open spec fn authorised(username: Seq<u8>, password: Seq<u8>, expect: [u8; 32]) -> bool {
    sha256_digest(username + password) == expect@
}

/// The authentication method that the server picks among those that the client
/// offers: the one that its credentials call for, or none.
pub open spec fn chosen_method(creds: Creds, methods: Seq<u8>) -> u8 {
    let wanted = if creds is Some {
        METHOD_USERPASS
    } else {
        METHOD_NO_AUTH
    };
    if methods.contains(wanted) {
        wanted
    } else {
        METHOD_NONE_ACCEPTABLE
    }
}

/// The message that tells a client whether its password was right.
pub open spec fn verdict_message(granted: bool) -> Seq<u8> {
    seq![
        USERPASS_VERSION,
        if granted {
            0x00u8
        } else {
            0x01u8
        },
    ]
}

/// Whether a byte occurs among others.
fn contains(bytes: &[u8], wanted: u8) -> (found: bool)
    ensures
        found == bytes@.contains(wanted),
{
    let mut i: usize = 0;
    while i < bytes.len()
        invariant
            i <= bytes@.len(),
            forall|k: int| 0 <= k < i ==> bytes@[k] != wanted,
        decreases bytes@.len() - i,
    {
        if bytes[i] == wanted {
            assert(bytes@[i as int] == wanted);
            return true;
        }
        i = i + 1;
    }
    false
}

/// The authentication method that the server picks among those that the client
/// offers.
pub fn choose_method(creds: &Creds, methods: &[u8]) -> (method: u8)
    ensures
        method == chosen_method(*creds, methods@),
{
    match creds {
        Some(_) => {
            if contains(methods, METHOD_USERPASS) {
                METHOD_USERPASS
            } else {
                METHOD_NONE_ACCEPTABLE
            }
        },
        None => {
            if contains(methods, METHOD_NO_AUTH) {
                METHOD_NO_AUTH
            } else {
                METHOD_NONE_ACCEPTABLE
            }
        },
    }
}

/// The digest of a username followed by a password.
pub fn password_digest(username: &[u8], password: &[u8]) -> (digest: [u8; 32])
    ensures
        digest@ == sha256_digest(username@ + password@),
{
    let mut message: Vec<u8> = Vec::new();
    message.extend_from_slice(username);
    message.extend_from_slice(password);
    assert(message@ =~= username@ + password@);
    sha256(message.as_slice())
}

/// Whether a digest is the expected one.
pub fn digest_matches(digest: &[u8; 32], expect: &[u8; 32]) -> (same: bool)
    ensures
        same == (digest@ == expect@),
{
    same_bytes(digest.as_slice(), expect.as_slice())
}

/// The message that tells a client whether its password was right.
pub fn auth_verdict(granted: bool) -> (msg: Vec<u8>)
    ensures
        msg@ == verdict_message(granted),
{
    let status: u8 = if granted {
        0x00
    } else {
        0x01
    };
    let msg: Vec<u8> = vec![USERPASS_VERSION, status];
    assert(msg@ =~= verdict_message(granted));
    msg
}

/// The server only picks a method that the client offers. With credentials it
/// never waives the password, and without them it never asks for one.
pub proof fn law_chosen_method_is_offered(creds: Creds, methods: Seq<u8>)
    ensures
        chosen_method(creds, methods) != METHOD_NONE_ACCEPTABLE ==> methods.contains(
            chosen_method(creds, methods),
        ),
        creds is Some ==> chosen_method(creds, methods) != METHOD_NO_AUTH,
        creds is None ==> chosen_method(creds, methods) != METHOD_USERPASS,
{
}

/// Only the concatenation of username and password counts: where it is cut makes
/// no difference.
pub proof fn law_only_the_concatenation_counts(
    username1: Seq<u8>,
    password1: Seq<u8>,
    username2: Seq<u8>,
    password2: Seq<u8>,
    expect: [u8; 32],
)
    requires
        username1 + password1 == username2 + password2,
    ensures
        authorised(username1, password1, expect) == authorised(username2, password2, expect),
{
}

/// A server with credentials picks the password method if and only if it is offered,
/// a server without them picks the method without authentication if and only if it
/// is offered, and otherwise the answer is that there is none.
pub proof fn law_the_method_follows_from_the_offer(creds: Creds, methods: Seq<u8>)
    ensures
        chosen_method(creds, methods) == 2 <==> creds is Some && exists|i: int|
            0 <= i < methods.len() && methods[i] == 2,
        chosen_method(creds, methods) == 0 <==> creds is None && exists|i: int|
            0 <= i < methods.len() && methods[i] == 0,
        chosen_method(creds, methods) == 0 || chosen_method(creds, methods) == 2 || chosen_method(
            creds,
            methods,
        ) == 255,
{
}

/// A username and a password are right if and only if the digest of the one followed
/// by the other is the expected one, and the client is told so with status zero.
pub proof fn law_the_digest_decides(
    username: Seq<u8>,
    password: Seq<u8>,
    expect: [u8; 32],
    granted: bool,
)
    ensures
        authorised(username, password, expect) <==> sha256_digest(username + password) == expect@,
        verdict_message(granted).len() == 2,
        verdict_message(granted)[0] == 1,
        verdict_message(granted)[1] == 0 <==> granted,
{
}

} // verus!
