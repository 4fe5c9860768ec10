//! Small building blocks shared by the other modules.
pub mod walk;
pub mod duplex_chan;
pub mod pool;
pub mod text;
