//! The settings kept between sessions, saved only when they changed.
use vstd::prelude::*;
use crate::util::{hash_of, single_hash};

verus! {

/// File the settings are kept in.
pub const SETTINGS_PATH: &'static str = "retrotex.json";

/// The settings kept between sessions, and the hash they had when last saved.
#[derive(Debug, Clone)]
pub struct Settings {
    pub last_opened_id: u128,
    pub last_saved_hash: u64,
}

/// The hash of what is saved: `single_hash` of the last opened id, whose
/// sixteen little-endian bytes go into a fresh `DefaultHasher`.
pub open spec fn settings_hash(last_opened_id: u128) -> u64 {
    hash_of(&last_opened_id)
}

impl Default for Settings {
    fn default() -> (r: Self)
        ensures
            r.last_opened_id == 0,
            r.last_saved_hash == 0,
    {
        Self { last_opened_id: 0, last_saved_hash: 0 }
    }
}

impl Settings {
    /// The hash of what is saved, the last opened id.
    fn current_hash(&self) -> (r: u64)
        ensures
            r == settings_hash(self.last_opened_id),
    {
        single_hash(&self.last_opened_id)
    }

    /// Settings just read (or defaulted): what they hold counts as saved.
    pub fn from_loaded(settings: Self) -> (r: Self)
        ensures
            r.last_opened_id == settings.last_opened_id,
            r.last_saved_hash == settings_hash(settings.last_opened_id),
    {
        let mut settings = settings;
        settings.last_saved_hash = settings.current_hash();
        settings
    }

    /// Saves the settings with `save` when their hash differs from the one
    /// last saved, and then records the new hash; a failed save is handed
    /// back and leaves the settings unsaved.
    pub fn save_if_changed<F: FnOnce(&Settings) -> Result<(), String>>(&mut self, save: F) -> (r:
        Result<(), String>)
        requires
            forall|s: &Settings| call_requires(save, (s,)),
        ensures
            final(self).last_opened_id == old(self).last_opened_id,
            settings_hash(old(self).last_opened_id) == old(self).last_saved_hash ==> r is Ok
                && final(self).last_saved_hash == old(self).last_saved_hash,
            settings_hash(old(self).last_opened_id) != old(self).last_saved_hash ==> call_ensures(
                save,
                (old(self),),
                r,
            ) && final(self).last_saved_hash == match r {
                Ok(_) => settings_hash(old(self).last_opened_id),
                Err(_) => old(self).last_saved_hash,
            },
    {
        let current_hash = self.current_hash();
        if current_hash == self.last_saved_hash {
            return Ok(());
        }
        let saved = save(&*self);
        if saved.is_ok() {
            self.last_saved_hash = current_hash;
        }
        saved
    }
}

} // verus!
