use app_therapy::crypto::{new_box, AuthFailure, PublicKey, SecretKey};
use app_therapy::framing::{encode, FrameError};
use app_therapy::keystore::load_keys;
use app_therapy::messaging::{Message, SEPARATOR};
use app_therapy::server::{interpret_plaintext, process_request, DispatchError};
use sodiumoxide::crypto::box_;

fn key_pair() -> (PublicKey, SecretKey) {
    let (pk, sk) = box_::gen_keypair();
    (PublicKey(pk.0), SecretKey(sk.0))
}

fn bob_frame(agent_pub: &PublicKey, bob_priv: &SecretKey, text: &str) -> Vec<u8> {
    let (nonce, sealed) = new_box(text.as_bytes(), agent_pub, bob_priv);
    encode("bob", &nonce, &sealed)
}

#[test]
fn dispatch_with_known_sender_gives_command() {
    let (agent_pub, _) = key_pair();
    let (_, bob_priv) = key_pair();
    let text = format!("dbms{}status{}app1", SEPARATOR, SEPARATOR);
    let frame = bob_frame(&agent_pub, &bob_priv, &text);
    let keys = load_keys(&vec![("bob".to_string(), Some(bob_priv.0.to_vec()))]);
    assert_eq!(
        process_request(&frame, &agent_pub, &keys),
        Ok(Message::Dbms { action: "status".to_string(), application: Some("app1".to_string()) })
    );
}

#[test]
fn dispatch_with_unknown_sender_is_key_lookup_error() {
    let (agent_pub, _) = key_pair();
    let (_, bob_priv) = key_pair();
    let text = format!("dbms{}status{}app1", SEPARATOR, SEPARATOR);
    let frame = bob_frame(&agent_pub, &bob_priv, &text);
    let keys = load_keys(&vec![("alice".to_string(), Some(bob_priv.0.to_vec()))]);
    let result = process_request(&frame, &agent_pub, &keys);
    assert_eq!(result, Err(DispatchError::KeyLookup { requestor: "bob".to_string() }));
    assert_eq!(result.unwrap_err().diagnostic(), "No key for bob");
}

#[test]
fn dispatch_with_wrong_key_is_auth_failure() {
    let (agent_pub, _) = key_pair();
    let (_, bob_priv) = key_pair();
    let (_, other_priv) = key_pair();
    let text = format!("cache{}purge", SEPARATOR);
    let frame = bob_frame(&agent_pub, &bob_priv, &text);
    let keys = load_keys(&vec![("bob".to_string(), Some(other_priv.0.to_vec()))]);
    let result = process_request(&frame, &agent_pub, &keys);
    assert_eq!(result, Err(DispatchError::Auth(AuthFailure)));
    assert_eq!(result.unwrap_err().diagnostic(), "Error: Couldn't decrypt message");
}

#[test]
fn dispatch_of_invalid_command_is_schema_error() {
    let (agent_pub, _) = key_pair();
    let (_, bob_priv) = key_pair();
    let text = format!("shell{}rm", SEPARATOR);
    let frame = bob_frame(&agent_pub, &bob_priv, &text);
    let keys = load_keys(&vec![("bob".to_string(), Some(bob_priv.0.to_vec()))]);
    assert_eq!(process_request(&frame, &agent_pub, &keys), Err(DispatchError::Schema));
}

#[test]
fn dispatch_of_malformed_frame_is_frame_error() {
    let (agent_pub, _) = key_pair();
    let keys = load_keys(&vec![]);
    let short = process_request(&[0, 1], &agent_pub, &keys);
    assert_eq!(short, Err(DispatchError::Frame(FrameError::BadLength)));
    assert_eq!(short.unwrap_err().diagnostic(), "Bad Message Size!");
    let truncated = process_request(&[0, 0, 0, 0, 0, 0, 0, 9, 1], &agent_pub, &keys);
    assert_eq!(truncated, Err(DispatchError::Frame(FrameError::Truncated)));
    assert_eq!(truncated.unwrap_err().diagnostic(), "Failed to process the client message");
}

#[test]
fn interpret_plaintext_reads_commands_only() {
    let text = format!("cache{}purge ^/.*${}atcms", SEPARATOR, SEPARATOR);
    assert_eq!(
        interpret_plaintext(Ok(text.into_bytes())),
        Ok(Message::Cache { action: "purge ^/.*$".to_string(), application: Some("atcms".to_string()) })
    );
    assert_eq!(interpret_plaintext(Ok(b"nonsense".to_vec())), Err(DispatchError::Schema));
    assert_eq!(interpret_plaintext(Ok(vec![0xff, 0x00])), Err(DispatchError::Schema));
    assert_eq!(interpret_plaintext(Err(AuthFailure)), Err(DispatchError::Auth(AuthFailure)));
    assert_eq!(DispatchError::Schema.diagnostic(), "Error: Not a known command");
}
