//! The shared installation state: the destination directory, the variant
//! flags, and the cooperative cancellation flag.
//!
//! One record of this state is shared between the foreground and the
//! worker (the surrounding application guards it with a mutex); the
//! worker reads the scalars it needs at its checkpoints and never holds
//! the record across blocking work.

use vstd::prelude::*;

verus! {

/// The application state one installation attempt runs under.
#[derive(Debug)]
pub struct AppState {
    extraction_dir: String,
    abort_flag: bool,
    deluxe_ver_flag: bool,
    install_spr_flag: bool,
}

impl AppState {
    /// Creates a new AppState.
    pub fn new(
        extraction_dir: String,
        abort_flag: bool,
        deluxe_ver_flag: bool,
        install_spr_flag: bool,
    ) -> (r: AppState)
        ensures
            r.spec_extraction_dir() == extraction_dir,
            r.spec_abort_flag() == abort_flag,
            r.spec_deluxe_ver_flag() == deluxe_ver_flag,
            r.spec_install_spr_flag() == install_spr_flag,
    {
        AppState { extraction_dir, abort_flag, deluxe_ver_flag, install_spr_flag }
    }

    /// The destination directory of the installation.
    pub closed spec fn spec_extraction_dir(&self) -> String {
        self.extraction_dir
    }

    /// The cancellation flag as currently stored.
    pub closed spec fn spec_abort_flag(&self) -> bool {
        self.abort_flag
    }

    /// Whether the enhanced (deluxe) variant is requested.
    pub closed spec fn spec_deluxe_ver_flag(&self) -> bool {
        self.deluxe_ver_flag
    }

    /// Whether the optional addon is requested.
    pub closed spec fn spec_install_spr_flag(&self) -> bool {
        self.install_spr_flag
    }

    /// Returns the abort flag.
    pub fn get_abort_flag(&self) -> (r: bool)
        ensures
            r == self.spec_abort_flag(),
    {
        self.abort_flag
    }

    /// Sets the abort flag; all other state is kept.
    pub fn set_abort_flag(&mut self, value: bool)
        ensures
            final(self).spec_abort_flag() == value,
            final(self).spec_extraction_dir() == old(self).spec_extraction_dir(),
            final(self).spec_deluxe_ver_flag() == old(self).spec_deluxe_ver_flag(),
            final(self).spec_install_spr_flag() == old(self).spec_install_spr_flag(),
    {
        self.abort_flag = value;
    }

    /// Returns the deluxe version flag.
    pub fn get_deluxe_ver_flag(&self) -> (r: bool)
        ensures
            r == self.spec_deluxe_ver_flag(),
    {
        self.deluxe_ver_flag
    }

    /// Sets the deluxe version flag; all other state is kept.
    pub fn set_deluxe_ver_flag(&mut self, value: bool)
        ensures
            final(self).spec_deluxe_ver_flag() == value,
            final(self).spec_extraction_dir() == old(self).spec_extraction_dir(),
            final(self).spec_abort_flag() == old(self).spec_abort_flag(),
            final(self).spec_install_spr_flag() == old(self).spec_install_spr_flag(),
    {
        self.deluxe_ver_flag = value;
    }

    /// Inverts the deluxe version flag; all other state is kept.
    pub fn invert_deluxe_ver_flag(&mut self)
        ensures
            final(self).spec_deluxe_ver_flag() == !old(self).spec_deluxe_ver_flag(),
            final(self).spec_extraction_dir() == old(self).spec_extraction_dir(),
            final(self).spec_abort_flag() == old(self).spec_abort_flag(),
            final(self).spec_install_spr_flag() == old(self).spec_install_spr_flag(),
    {
        self.deluxe_ver_flag = !self.deluxe_ver_flag;
    }

    /// Returns the install-addon flag.
    pub fn get_install_spr_flag(&self) -> (r: bool)
        ensures
            r == self.spec_install_spr_flag(),
    {
        self.install_spr_flag
    }

    /// Sets the install-addon flag; all other state is kept.
    pub fn set_install_spr_flag(&mut self, value: bool)
        ensures
            final(self).spec_install_spr_flag() == value,
            final(self).spec_extraction_dir() == old(self).spec_extraction_dir(),
            final(self).spec_abort_flag() == old(self).spec_abort_flag(),
            final(self).spec_deluxe_ver_flag() == old(self).spec_deluxe_ver_flag(),
    {
        self.install_spr_flag = value;
    }

    /// Inverts the install-addon flag; all other state is kept.
    pub fn invert_install_spr_flag(&mut self)
        ensures
            final(self).spec_install_spr_flag() == !old(self).spec_install_spr_flag(),
            final(self).spec_extraction_dir() == old(self).spec_extraction_dir(),
            final(self).spec_abort_flag() == old(self).spec_abort_flag(),
            final(self).spec_deluxe_ver_flag() == old(self).spec_deluxe_ver_flag(),
    {
        self.install_spr_flag = !self.install_spr_flag;
    }

    /// Returns the extraction directory.
    pub fn get_extraction_dir(&self) -> (r: &String)
        ensures
            r == self.spec_extraction_dir(),
    {
        &self.extraction_dir
    }

    /// Returns the extraction directory as a plain string slice.
    pub fn get_extraction_dir_str(&self) -> (r: &str)
        ensures
            r@ == self.spec_extraction_dir()@,
    {
        self.extraction_dir.as_str()
    }

    /// Sets the extraction directory; all other state is kept.
    pub fn set_extraction_dir(&mut self, new_path: String)
        ensures
            final(self).spec_extraction_dir() == new_path,
            final(self).spec_abort_flag() == old(self).spec_abort_flag(),
            final(self).spec_deluxe_ver_flag() == old(self).spec_deluxe_ver_flag(),
            final(self).spec_install_spr_flag() == old(self).spec_install_spr_flag(),
    {
        self.extraction_dir = new_path;
    }
}

} // verus!
