//! Decision core of a proxy that lets Prometheus scrape exporters through outbound WebSocket
//! connections.
//!
//! Workers register over a connection (`connection`); the state of the server (`state`) knows
//! them, the open requests and how many scrapes are in flight. A scrape (`scrape`) selects a
//! worker, hands it the request and waits for the response; where a worker is lost, it goes on
//! with another. What each operation means is said in `model`, and what can happen to the whole in
//! `system`; what follows is proved in `laws`, `invariants`, `guarantees` and `counters`. The
//! modules `ws`, `ws_clients`, `handler` and `cache` do the same for protocol versions 1 and 2
//! with a shared cache.
//!
//! What the parts promise is proved apart from how they are built: `selection` says which workers
//! a scrape gets, `timing` when things happen, `outcomes` how scrapes go on and end, `operations`
//! what changes in the state, `reactions` what a connection brings about, `exposure` what the
//! metrics read, `notation` what texts mean, and `legacy` what holds of protocol versions 1 and 2.

pub mod assoc;
pub mod cache;
pub mod config;
pub mod connection;
pub mod counters;
pub mod exposure;
pub mod guarantees;
pub mod handler;
pub mod invariants;
pub mod laws;
pub mod legacy;
pub mod limits;
pub mod metrics;
pub mod model;
pub mod notation;
pub mod operations;
pub mod outcomes;
pub mod outside;
pub mod protocol;
pub mod reactions;
pub mod routes;
pub mod scrape;
pub mod selection;
pub mod state;
pub mod system;
pub mod text;
pub mod timing;
pub mod ws;
pub mod ws_clients;
pub mod ws_request;
pub mod ws_response;

pub use routes::build_router;
pub use state::AppState;
