use vstd::prelude::*;

verus! {

/// Unmounts every WebDAV share the application mounted. Builds without
/// the WebDAV server mount nothing, so there is nothing to undo.
pub fn unmount_all() {
}

/// Opens the file manager of the system on a mounted share's port. Builds
/// without the WebDAV server have no share to show, so this does nothing.
pub fn open_in_explorer(port: u16) {
}

} // verus!
