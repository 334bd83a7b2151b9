//! Picks one-time codes out of incoming messages and brings them where they are needed.

pub mod clock;
pub mod delivery;
pub mod fill_worker;
pub mod floating_window;
pub mod focus;
pub mod message;
pub mod number;
pub mod palette;
pub mod paths;
pub mod polling;
pub mod quick_fill;
pub mod rows;
pub mod scan;
pub mod series;
pub mod text;
