//! Types of std and of the crates this library works with, declared so that
//! verified code can carry their values. Verus sees nothing inside them.

use vstd::prelude::*;

verus! {

/// `dashmap::DashMap`, the concurrent hash map that holds the supernode's
/// directory and the relay's address table.
#[verifier::external_type_specification]
#[verifier::external_body]
#[verifier::reject_recursive_types(K)]
#[verifier::reject_recursive_types(V)]
#[verifier::reject_recursive_types(S)]
pub struct ExDashMap<K, V, S>(dashmap::DashMap<K, V, S>);

/// `tokio::sync::mpsc::UnboundedSender`, the handle through which a message
/// reaches another connection's writer.
#[verifier::external_type_specification]
#[verifier::external_body]
#[verifier::reject_recursive_types(T)]
pub struct ExUnboundedSender<T>(tokio::sync::mpsc::UnboundedSender<T>);

/// `serde_json::Value`, the opaque signaling payload relayed between peers.
#[verifier::external_type_specification]
#[verifier::external_body]
pub struct ExJsonValue(serde_json::Value);

/// `sqlx::sqlite::SqliteConnectOptions`, the options a database is opened
/// with.
#[verifier::external_type_specification]
#[verifier::external_body]
pub struct ExSqliteConnectOptions(sqlx::sqlite::SqliteConnectOptions);

/// `std::io::Error`.
#[verifier::external_type_specification]
#[verifier::external_body]
pub struct ExIoError(std::io::Error);

/// `toml::de::Error`.
#[verifier::external_type_specification]
#[verifier::external_body]
pub struct ExTomlError(toml::de::Error);

/// `serde_json::Error`.
#[verifier::external_type_specification]
#[verifier::external_body]
pub struct ExJsonError(serde_json::Error);

/// `sqlx::Error`.
#[verifier::external_type_specification]
#[verifier::external_body]
pub struct ExSqlxError(sqlx::Error);

} // verus!
