pub mod components;
pub mod input;
pub mod layout;
pub mod views;
