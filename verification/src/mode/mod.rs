//! The decisions of the operation modes: ci-check, sync, patch-refresh
//! and validate.  The file system and process work around them is done by
//! their callers.
pub mod ci_check;
pub mod sync;
pub mod patch_refresh;
pub mod validate;
