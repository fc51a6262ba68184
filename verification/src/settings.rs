//! The single process-wide settings record.

use vstd::prelude::*;
use vstd::string::StrSliceExecFns;
use vstd::string::StringSliceAdditionalSpecFns;
use crate::bytes::bytes_eq_ci;
use crate::bytes::clone_bytes;
use crate::bytes::eq_ci;
use crate::bytes::seq_of_bytes_view;

verus! {

/// Mathematical model of the settings record.
#[verifier::ext_equal]
pub ghost struct SettingsModel {
    pub max_history: int,
    pub record_images: bool,
    pub hotkey: Seq<u8>,
    pub blacklist: Seq<Seq<u8>>,
}

/// The settings record: retention cap, image recording flag, hotkey
/// descriptor (opaque to the engine) and source-application blacklist.
pub struct Settings {
    /// Cap on retained non-pinned entries; always positive.
    pub max_history: i64,
    /// Whether images are recorded; the engine forces this to true on
    /// every load and save.
    pub record_images: bool,
    /// Hotkey descriptor (UTF-8 bytes), consumed by the hotkey collaborator
    /// outside the engine.
    pub hotkey: Vec<u8>,
    /// Display names of applications whose copies are never captured,
    /// matched ASCII-case-insensitively.
    pub blacklist: Vec<Vec<u8>>,
}

impl View for Settings {
    type V = SettingsModel;

    open spec fn view(&self) -> SettingsModel {
        SettingsModel {
            max_history: self.max_history as int,
            record_images: self.record_images,
            hotkey: self.hotkey@,
            blacklist: seq_of_bytes_view(self.blacklist),
        }
    }
}

impl SettingsModel {
    /// A settings record the store accepts: a positive retention cap.
    pub open spec fn wf(self) -> bool {
        self.max_history >= 1
    }
}

/// The settings a fresh store starts with.
pub open spec fn default_settings_model() -> SettingsModel {
    SettingsModel {
        max_history: 1000,
        record_images: true,
        hotkey: "Ctrl+Shift+V".spec_bytes(),
        blacklist: Seq::empty(),
    }
}

/// `name` matches one of the blacklist entries, ASCII-case-insensitively.
pub open spec fn blacklisted(blacklist: Seq<Seq<u8>>, name: Seq<u8>) -> bool {
    exists|i: int| 0 <= i < blacklist.len() && eq_ci(blacklist[i], name)
}

impl Settings {
    /// The defaults used when no settings record exists yet.
    pub fn defaults() -> (s: Settings)
        ensures
            s@ == default_settings_model(),
            s@.wf(),
    {
        let s = Settings {
            max_history: 1000,
            record_images: true,
            hotkey: "Ctrl+Shift+V".as_bytes_vec(),
            blacklist: Vec::new(),
        };
        proof {
            assert(s@ =~= default_settings_model());
        }
        s
    }

    /// True iff `name` matches one of the blacklist entries,
    /// ASCII-case-insensitively.
    pub fn is_blacklisted(&self, name: &[u8]) -> (r: bool)
        ensures
            r == blacklisted(self@.blacklist, name@),
    {
        let n = self.blacklist.len();
        let mut i: usize = 0;
        while i < n
            invariant
                n == self.blacklist.len(),
                0 <= i <= n,
                self@.blacklist.len() == n,
                forall|k: int| 0 <= k < i ==> !eq_ci(self@.blacklist[k], name@),
            decreases n - i,
        {
            proof {
                assert(self@.blacklist[i as int] == self.blacklist@[i as int]@);
            }
            if bytes_eq_ci(self.blacklist[i].as_slice(), name) {
                return true;
            }
            i += 1;
        }
        false
    }
}

impl Clone for Settings {
    /// A field-for-field copy.
    fn clone(&self) -> (r: Self)
        ensures
            r@ == self@,
    {
        let mut blacklist: Vec<Vec<u8>> = Vec::new();
        let n = self.blacklist.len();
        let mut i: usize = 0;
        while i < n
            invariant
                n == self.blacklist.len(),
                0 <= i <= n,
                blacklist@.len() == i,
                forall|k: int| 0 <= k < i ==> blacklist@[k]@ == self.blacklist@[k]@,
            decreases n - i,
        {
            blacklist.push(clone_bytes(&self.blacklist[i]));
            i += 1;
        }
        let r = Settings {
            max_history: self.max_history,
            record_images: self.record_images,
            hotkey: clone_bytes(&self.hotkey),
            blacklist,
        };
        proof {
            assert(r@ =~~= self@);
        }
        r
    }
}

} // verus!
