//! The OmniNova gateway's decision logic, verified: webhook security, card
//! callbacks and panels, commands, rate limits, sessions and their lineage,
//! the session store, the reply outbox and the API log queries.
use vstd::prelude::*;

pub mod assoc;
pub mod clock;
pub mod text;
pub mod order;
pub mod fmt;
pub mod vision;
pub mod rate_limit;
pub mod wecom_card;
pub mod session;
pub mod feishu;
pub mod ids;
pub mod logging;
pub mod crypto;
pub mod message;
pub mod gateway;
pub mod lineage;
pub mod webhook;
pub mod diagnostics;
pub mod card_callback;
pub mod json;
pub mod strmap;
pub mod replay;
pub mod outbox;
pub mod steps;
pub mod session_store;
pub mod runs;
pub mod api;

verus! {

} // verus!
