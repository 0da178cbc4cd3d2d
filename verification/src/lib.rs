//! Verified core of the codex-akram terminal front end: version checks for the
//! update path, the geometry and copy of the empty-session welcome screen, and
//! the retained conversation viewport of the application-owned full screen.

pub mod text;
pub mod versions;
pub mod keys;
pub mod viewport;
pub mod geometry;
pub mod welcome;
pub mod owned_screen;
pub mod identity;
