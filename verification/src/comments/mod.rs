pub mod controller;
pub mod view;
