//! A terminal tracker for the Overwatch League: the text it shows and the
//! decisions it makes about the league's data.
pub mod text;
pub mod date;
pub mod menu;
pub mod rankings;
pub mod team;
pub mod schedule;
pub mod live;
pub mod data;
pub mod league;
