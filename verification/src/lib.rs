//! The core of dtop, a terminal monitor for the containers of many Docker hosts.
//!
//! Everything here is a function of plain values: what a daemon answered becomes
//! containers and events ([`docker`], [`monitor`]), a lost host is waited for
//! ([`reconnect`]), the containers are filtered and sorted ([`app_state`]), and the
//! list is laid out for the terminal ([`list`], [`links`]). Each function states
//! what it returns or changes; proof functions whose names begin with `law_` state
//! what holds of several of them together. The calls into other crates are in
//! [`outside`], with what is relied upon of each.
pub mod actions;
pub mod app_state;
pub mod assoc;
pub mod clip;
pub mod columns;
pub mod connect;
pub mod containers;
pub mod docker;
pub mod events;
pub mod links;
pub mod list;
pub mod logs;
pub mod monitor;
pub mod order;
pub mod outside;
pub mod reconnect;
pub mod text;
