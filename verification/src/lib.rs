pub mod laws;
pub mod life;
