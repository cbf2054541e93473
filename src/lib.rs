pub mod cli;
pub mod dedup;
pub mod driver;
pub mod highlight;
pub mod icon;
pub mod overlay;
pub mod speech;
pub mod text;
pub mod voices;
