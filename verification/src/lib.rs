pub mod conway;
pub mod input;
