//! What holds of the library's operations, in terms of what goes in and what comes out.
pub mod imports;
pub mod platform;
pub mod pushes;
pub mod restoring;
pub mod snapshots;
pub mod surfaces;
pub mod texts;
pub mod views;
