pub mod channels;
pub mod images;
pub mod ping;
pub mod statistics;
pub mod tags;
pub mod videos;
pub mod watch_history;
