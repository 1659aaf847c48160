//! Arcanum keeps Kubernetes secrets and a HashiCorp Vault in step.
pub mod cipher;
pub mod encoding;
pub mod error;
pub mod sealing;
pub mod resource;
pub mod vault;
pub mod reconcile;
pub mod manager;
