//! The rules of a bot that scouts for group chats and keeps an eye on them.
//!
//! The scout walks a hexagonal lattice of locations (`grid`), leaves out what
//! it has scouted of late (`history`), finds the chats near each location
//! (`session`) and joins them at a polite pace (`scout`), as far as the
//! directory lets it (`remote`). What it finds and does is kept as rows of a
//! store (`models`), so that it resumes where it stopped. In the groups it
//! answers scammers and scam messages (`moderation`) and fetches the photos
//! in their largest size (`media`). Who is a scammer is settled in a
//! terminal, by hand (`review`).
//!
//! The library decides and keeps the books. It sends nothing and stores
//! nothing: its caller does, and reports back. Coordinates are fixed point
//! and distances whole millimetres (`location`); the trigonometry that
//! measures them is the caller's as well.

pub mod args;
mod clock;
pub mod direction;
pub mod grid;
pub mod history;
pub mod location;
pub mod media;
pub mod models;
pub mod moderation;
pub mod remote;
pub mod review;
pub mod scout;
pub mod session;
