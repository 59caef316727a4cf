//! Room and peer bookkeeping for a publish/subscribe media relay.

mod change;
pub mod keyed;
pub mod id_map;
pub mod room;
pub mod publishing;
pub mod subscribing;
pub mod ids;
pub mod codecs;
pub mod config;
pub mod pipe;
