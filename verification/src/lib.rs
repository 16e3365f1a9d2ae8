//! Verified core of the CellSight microscope shell: colour parsing and
//! formatting, the theme model, focus-sweep bookkeeping, camera capture
//! planning and the shell's interaction state.

pub mod text;
pub mod picker;
pub mod theme;
pub mod frame;
pub mod focus;
pub mod camera;
pub mod shell;
pub mod theme_ctl;
pub mod labels;
