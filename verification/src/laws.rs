//! What holds of the library as a whole.

pub mod audio;
pub mod both;
pub mod control;
pub mod handles;
pub mod layout;
pub mod names;
pub mod steps;
pub mod values;
