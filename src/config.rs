//! Settings of the agent and of the client, as their configuration files
//! give them. Reading and decoding those files is left to the program.

use vstd::prelude::*;

verus! {

/// Settings of the agent.
#[derive(Clone, Debug, PartialEq, Eq)]
pub struct AgentConfig {
    /// Address to listen on, such as `0.0.0.0:4200`.
    pub listen: String,
    pub dbms: Option<DbmsConfig>,
    pub cache: Option<CacheConfig>,
    /// Known senders: user identifier and path of that user's key file.
    pub users: Vec<(String, String)>,
    /// Path of the agent's own public key file.
    pub public_key: String,
}

/// Where and how the agent reaches the database.
#[derive(Clone, Debug, PartialEq, Eq)]
pub struct DbmsConfig {
    pub relay: Option<String>,
    pub app: Option<String>,
    pub host: Option<String>,
    pub port: Option<String>,
    pub username: Option<String>,
    pub password: Option<String>,
}

/// Where the agent reaches the cache.
#[derive(Clone, Debug, PartialEq, Eq)]
pub struct CacheConfig {
    pub relay: Option<String>,
    pub app: Option<String>,
}

/// Settings of the client.
#[derive(Clone, Debug, PartialEq, Eq)]
pub struct ClientConfig {
    /// Address of the agent, such as `10.0.0.5:4200`.
    pub agent_address: String,
    pub user: User,
    pub crypto: Crypto,
}

/// The client's user; `login` is the identifier the agent knows it by.
#[derive(Clone, Debug, PartialEq, Eq)]
pub struct User {
    pub login: String,
    pub password: String,
}

/// Paths of the key files the client uses.
#[derive(Clone, Debug, PartialEq, Eq)]
pub struct Crypto {
    /// The agent's public key.
    pub agent_key_file: String,
    /// The client's own public key.
    pub pub_key_file: String,
    /// The client's own secret key.
    pub priv_key_file: String,
}

} // verus!
