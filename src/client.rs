//! The client's side: a command built, sealed for the agent under a fresh
//! nonce, and framed with the client's identifier.

use crate::crypto::{
    box_sealed, is_small_order_key, new_box, small_order_key, PublicKey, SecretKey, MAC_BYTES,
    NONCE_BYTES,
};
use crate::framing::{encode, frame_of, LENGTH_BYTES};
use crate::messaging::{message_of_fields, serialize, Message};
use vstd::prelude::*;
use vstd::utf8::*;

verus! {

/// The fields of a request: component, action and, where given, application.
pub open spec fn request_fields(
    component: Seq<char>,
    action: Seq<char>,
    application: Option<&str>,
) -> Seq<Seq<char>> {
    match application {
        Some(app) => seq![component, action, app@],
        None => seq![component, action],
    }
}

/// Whether a frame for this requestor and plaintext has a size that fits in
/// memory.
pub open spec fn fits_frame(requestor: Seq<char>, plain: Seq<u8>) -> bool {
    LENGTH_BYTES + encode_utf8(requestor).len() + 1 + NONCE_BYTES + plain.len() + MAC_BYTES
        <= usize::MAX
}

/// Builds the frame that asks the agent to run `action` on `component`
/// (`dbms` or `cache`), for `application` where given. The command is sealed
/// for the agent (`agent_pub`) under the client's `own_priv` with a fresh
/// nonce and framed with `own_user_id` as requestor. There is no frame for an
/// unknown component, nor for an agent key of small order, which libsodium
/// refuses.
pub fn compose(
    component: &str,
    action: &str,
    application: Option<&str>,
    agent_pub: &PublicKey,
    own_priv: &SecretKey,
    own_user_id: &str,
) -> (r: Option<Vec<u8>>)
    ensures
        ({
            let m = message_of_fields(request_fields(component@, action@, application));
            let plain = encode_utf8(serialize(m));
            &&& r is Some <==> !(m is Invalid) && !small_order_key(agent_pub@) && fits_frame(
                own_user_id@,
                plain,
            )
            &&& r matches Some(f) ==> exists|n: Seq<u8>|
                n.len() == NONCE_BYTES && f@ == frame_of(
                    own_user_id@,
                    n,
                    #[trigger] box_sealed(plain, n, agent_pub@, own_priv@),
                )
        }),
{
    let mut parts: Vec<&str> = Vec::new();
    parts.push(component);
    parts.push(action);
    match application {
        Some(app) => parts.push(app),
        None => {},
    }
    assert(parts@.map_values(|p: &str| p@) =~= request_fields(component@, action@, application));
    let message = Message::new(parts);
    if let Message::Invalid = message {
        return None;
    }
    if is_small_order_key(agent_pub) {
        return None;
    }
    let payload = message.to_payload();
    let plain = payload.as_str().as_bytes();
    let id = own_user_id.as_bytes();
    let room = usize::MAX - (LENGTH_BYTES + 1 + NONCE_BYTES + MAC_BYTES);
    if plain.len() > room || id.len() > room - plain.len() {
        return None;
    }
    let (nonce, sealed) = new_box(plain, agent_pub, own_priv);
    let frame = encode(own_user_id, &nonce, sealed.as_slice());
    Some(frame)
}

} // verus!
