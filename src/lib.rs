pub mod bigrect;
pub mod escape;
pub mod navigation;
pub mod rational;
pub mod render;
