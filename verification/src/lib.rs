//! The request logic of a receive-only radio server: routing, authorisation, control actions,
//! audit, coverage, and the JSON answers built from what the stores hold.

pub mod analyze;
pub mod annotations;
pub mod anomalies;
pub mod attention;
pub mod audit;
pub mod auth;
pub mod authored;
pub mod body;
pub mod bridge;
pub mod captures;
pub mod changes;
pub mod classification;
pub mod clusters;
pub mod collections;
pub mod command;
pub mod control;
pub mod coverage;
pub mod datasets;
pub mod decode;
pub mod dispatch;
pub mod double;
pub mod events;
pub mod evidence;
pub mod frontend;
pub mod gain;
pub mod http;
pub mod inspector;
pub mod json;
pub mod ordered;
pub mod overlay;
pub mod owner;
pub mod params;
pub mod request;
pub mod response;
pub mod routes;
pub mod run;
pub mod store;
pub mod text;
