pub mod bytes;
pub mod error;
pub mod state;
pub mod catflip;
pub mod direct;
pub mod game;
