//! Verified core of a home-automation hub platform: the A/B updater state
//! machine, signed-bundle verification, a hash-chained audit log, RBAC with
//! role inheritance, a token-bucket rate limiter, the rule engine, radio and
//! commissioning validation, and integer-scaled observability primitives.

pub mod audit;
pub mod bundle;
pub mod checksum;
pub mod clock;
pub mod commissioning;
pub mod crypto;
pub mod gateway;
pub mod health;
pub mod obs;
pub mod platform;
pub mod scene;
pub mod store;
pub mod radio;
pub mod rate_limit;
pub mod rbac;
pub mod rules;
pub mod strutil;
pub mod value;
pub mod updater;
