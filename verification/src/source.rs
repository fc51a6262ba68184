//! Source attribution: turning a foreground application's executable path
//! and OS-reported friendly name into the display name stored with an
//! entry. The OS lookups themselves (foreground window, file info, icon)
//! live outside the library; this module holds the naming rules.

use vstd::prelude::*;
use vstd::string::StrSliceExecFns;
use vstd::string::StringSliceAdditionalSpecFns;
use crate::bytes::bytes_eq;
use crate::bytes::bytes_eq_ci;
use crate::bytes::bytes_of;
use crate::bytes::eq_ci;
use crate::bytes::lower_byte;
use crate::bytes::lower_bytes;
use crate::bytes::opt_bytes_view;
use crate::bytes::to_lower_byte;
use crate::bytes::trim_bytes;
use crate::bytes::trimmed;
use crate::codec::fits_base64;

verus! {

/// Mathematical model of a resolved foreground source.
#[verifier::ext_equal]
pub ghost struct ProcessInfoModel {
    pub display: Seq<u8>,
    pub path: Seq<u8>,
    pub icon_png: Option<Seq<u8>>,
}

/// A resolved foreground source: display name, executable path, and an
/// optional PNG icon, captured at the moment of a clipboard change.
pub struct ProcessInfo {
    /// Display name shown with the entry and matched against the blacklist.
    pub display: Vec<u8>,
    /// Executable path of the foreground process.
    pub path: Vec<u8>,
    /// PNG-encoded icon of the executable.
    pub icon_png: Option<Vec<u8>>,
}

impl View for ProcessInfo {
    type V = ProcessInfoModel;

    open spec fn view(&self) -> ProcessInfoModel {
        ProcessInfoModel {
            display: self.display@,
            path: self.path@,
            icon_png: opt_bytes_view(self.icon_png),
        }
    }
}

impl ProcessInfoModel {
    /// The icon payload is small enough to render as a data URI.
    pub open spec fn wf(self) -> bool {
        self.icon_png matches Some(b) ==> fits_base64(b.len() as int)
    }
}

/// Index just past the last path separator (`/` or `\`) among the first
/// `j` bytes.
pub open spec fn after_last_sep(s: Seq<u8>, j: int) -> int
    decreases j,
{
    if j <= 0 || j > s.len() {
        0
    } else if s[j - 1] == 47 || s[j - 1] == 92 {
        j
    } else {
        after_last_sep(s, j - 1)
    }
}

/// End of the stem within `s[lo..]`: the position of the last `.` strictly
/// after `lo` (so a leading dot does not count), or the end when there is
/// none.
pub open spec fn stem_end_from(s: Seq<u8>, lo: int, j: int) -> int
    decreases j - lo,
{
    if j <= lo + 1 || j > s.len() {
        s.len() as int
    } else if s[j - 1] == 46 {
        j - 1
    } else {
        stem_end_from(s, lo, j - 1)
    }
}

/// The file stem of a path: the part after the last separator, without
/// the extension after the last dot (a name that is only a leading dot
/// plus extension keeps itself whole).
pub open spec fn file_stem_of(path: Seq<u8>) -> Seq<u8> {
    let lo = after_last_sep(path, path.len() as int);
    let hi = stem_end_from(path, lo, path.len() as int);
    path.subrange(lo, hi)
}

/// The base name an executable path contributes to the display name: its
/// file stem, or `?` when the stem is empty.
pub open spec fn base_name_of(path: Seq<u8>) -> Seq<u8> {
    if file_stem_of(path).len() == 0 {
        "?".spec_bytes()
    } else {
        file_stem_of(path)
    }
}

/// `t` without the suffix `suf` (compared ASCII-case-insensitively), or
/// `t` itself when it does not end in `suf`.
pub open spec fn strip_suffix_ci(t: Seq<u8>, suf: Seq<u8>) -> Seq<u8> {
    if t.len() >= suf.len() && eq_ci(t.subrange(t.len() - suf.len(), t.len() as int), suf) {
        t.subrange(0, t.len() - suf.len())
    } else {
        t
    }
}

/// `s` with an ASCII-lowercase first byte raised to upper case.
pub open spec fn upper_first(s: Seq<u8>) -> Seq<u8> {
    if s.len() > 0 && 97 <= s[0] && s[0] <= 122 {
        s.update(0, (s[0] - 32) as u8)
    } else {
        s
    }
}

/// What [`normalize_display_name`] returns: the name trimmed, a trailing
/// `.exe` (any case) removed, and the first byte upper-cased when it is an
/// ASCII lowercase letter.
pub open spec fn normalize_display_name_spec(s: Seq<u8>) -> Seq<u8> {
    upper_first(strip_suffix_ci(trim_bytes(s), ".exe".spec_bytes()))
}

/// What [`map_known_app_name`] returns: a handful of well-known executable
/// base names mapped to friendly product names, anything else normalized.
pub open spec fn map_known_app_name_spec(base: Seq<u8>) -> Seq<u8> {
    let lower = lower_bytes(base);
    if lower == "msedge".spec_bytes() || lower == "edge".spec_bytes() {
        "Microsoft Edge".spec_bytes()
    } else if lower == "code".spec_bytes() || lower == "vscode".spec_bytes() || lower
        == "codehelper".spec_bytes() {
        "VS Code".spec_bytes()
    } else if lower == "weixin".spec_bytes() || lower == "wechat".spec_bytes() || lower
        == "wechatweb".spec_bytes() {
        "WeChat".spec_bytes()
    } else if lower == "notepad".spec_bytes() {
        "Notepad".spec_bytes()
    } else if lower == "chrome".spec_bytes() {
        "Google Chrome".spec_bytes()
    } else if lower == "firefox".spec_bytes() {
        "Firefox".spec_bytes()
    } else if lower == "explorer".spec_bytes() {
        "File Explorer".spec_bytes()
    } else {
        normalize_display_name_spec(base)
    }
}

/// The display name built from an executable path and the OS-reported
/// friendly name: the normalized friendly name, unless it is blank or
/// merely repeats the executable's base name, in which case the base name
/// goes through the known-application table.
pub open spec fn display_name_of(path: Seq<u8>, friendly_raw: Seq<u8>) -> Seq<u8> {
    let base = base_name_of(path);
    let friendly = normalize_display_name_spec(friendly_raw);
    if trim_bytes(friendly).len() == 0 {
        map_known_app_name_spec(base)
    } else if eq_ci(friendly, base) {
        map_known_app_name_spec(base)
    } else {
        friendly
    }
}

/// Cleans up an application display name: trims whitespace, drops a
/// trailing `.exe` in any case, and upper-cases an ASCII-lowercase first
/// letter.
pub fn normalize_display_name(name: &[u8]) -> (r: Vec<u8>)
    ensures
        r@ == normalize_display_name_spec(name@),
{
    let mut t = trimmed(name);
    let suf: &[u8] = ".exe".as_bytes();
    let m = suf.len();
    let n = t.len();
    if n >= m {
        let tail: &[u8] = &t.as_slice()[n - m..n];
        if bytes_eq_ci(tail, suf) {
            proof {
                assert(tail@ =~= t@.subrange(n - m, n as int));
            }
            t.truncate(n - m);
        }
    }
    proof {
        assert(t@ == strip_suffix_ci(trim_bytes(name@), ".exe".spec_bytes()));
    }
    if t.len() > 0 {
        let b0 = t[0];
        if 97 <= b0 && b0 <= 122 {
            let mut u = t;
            let raised = b0 - 32;
            u.set(0, raised);
            proof {
                assert(u@ =~= upper_first(t@));
            }
            return u;
        }
    }
    t
}

/// Maps a handful of well-known executable base names to friendly product
/// names; anything else is normalized like a display name.
pub fn map_known_app_name(base: &[u8]) -> (r: Vec<u8>)
    ensures
        r@ == map_known_app_name_spec(base@),
{
    let n = base.len();
    let mut lower: Vec<u8> = Vec::new();
    let mut i: usize = 0;
    while i < n
        invariant
            n == base@.len(),
            0 <= i <= n,
            lower@.len() == i,
            forall|k: int| 0 <= k < i ==> lower@[k] == lower_byte(base@[k]),
        decreases n - i,
    {
        lower.push(to_lower_byte(base[i]));
        i += 1;
    }
    proof {
        assert(lower@ =~= lower_bytes(base@));
    }
    let l = lower.as_slice();
    if bytes_eq(l, "msedge".as_bytes()) || bytes_eq(l, "edge".as_bytes()) {
        "Microsoft Edge".as_bytes_vec()
    } else if bytes_eq(l, "code".as_bytes()) || bytes_eq(l, "vscode".as_bytes()) || bytes_eq(
        l,
        "codehelper".as_bytes(),
    ) {
        "VS Code".as_bytes_vec()
    } else if bytes_eq(l, "weixin".as_bytes()) || bytes_eq(l, "wechat".as_bytes()) || bytes_eq(
        l,
        "wechatweb".as_bytes(),
    ) {
        "WeChat".as_bytes_vec()
    } else if bytes_eq(l, "notepad".as_bytes()) {
        "Notepad".as_bytes_vec()
    } else if bytes_eq(l, "chrome".as_bytes()) {
        "Google Chrome".as_bytes_vec()
    } else if bytes_eq(l, "firefox".as_bytes()) {
        "Firefox".as_bytes_vec()
    } else if bytes_eq(l, "explorer".as_bytes()) {
        "File Explorer".as_bytes_vec()
    } else {
        normalize_display_name(base)
    }
}

/// Path separator test for one byte (`/` or `\\`).
fn is_sep_byte(b: u8) -> (r: bool)
    ensures
        r == (b == 47 || b == 92),
{
    b == 47 || b == 92
}

/// The file stem of an executable path, or `?` when it has none.
fn base_name(path: &[u8]) -> (r: Vec<u8>)
    ensures
        r@ == base_name_of(path@),
{
    let n = path.len();
    let mut lo: usize = n;
    while lo > 0 && !is_sep_byte(path[lo - 1])
        invariant
            n == path@.len(),
            0 <= lo <= n,
            after_last_sep(path@, n as int) == after_last_sep(path@, lo as int),
        decreases lo,
    {
        lo -= 1;
    }
    proof {
        assert(after_last_sep(path@, lo as int) == lo);
        assert(after_last_sep(path@, n as int) == lo);
    }
    let mut hi: usize = n;
    while hi - lo > 1 && path[hi - 1] != 46
        invariant
            n == path@.len(),
            lo <= hi <= n,
            lo == after_last_sep(path@, n as int),
            stem_end_from(path@, lo as int, n as int) == stem_end_from(path@, lo as int, hi as int),
        decreases hi,
    {
        hi -= 1;
    }
    let stem_end: usize = if hi - lo > 1 {
        proof {
            assert(stem_end_from(path@, lo as int, hi as int) == hi - 1);
        }
        hi - 1
    } else {
        proof {
            assert(stem_end_from(path@, lo as int, hi as int) == n);
        }
        n
    };
    proof {
        assert(stem_end_from(path@, lo as int, n as int) == stem_end as int);
        assert(lo <= stem_end <= n);
    }
    let mut stem: Vec<u8> = Vec::new();
    let mut i: usize = lo;
    while i < stem_end
        invariant
            lo <= i <= stem_end <= n,
            n == path@.len(),
            stem@ == path@.subrange(lo as int, i as int),
        decreases stem_end - i,
    {
        stem.push(path[i]);
        proof {
            assert(stem@ =~= path@.subrange(lo as int, i + 1 as int));
        }
        i += 1;
    }
    proof {
        assert(stem@ == file_stem_of(path@));
    }
    if stem.len() == 0 {
        "?".as_bytes_vec()
    } else {
        stem
    }
}

/// Builds the source attribution stored with an entry from the executable
/// path, the OS-reported friendly name, and the extracted icon.
pub fn build_process_info(path: &[u8], friendly_raw: &[u8], icon_png: Option<Vec<u8>>) -> (r:
    ProcessInfo)
    ensures
        r@.display == display_name_of(path@, friendly_raw@),
        r@.path == path@,
        r@.icon_png == opt_bytes_view(icon_png),
{
    let base = base_name(path);
    let friendly = normalize_display_name(friendly_raw);
    let friendly_trimmed = trimmed(friendly.as_slice());
    let display = if friendly_trimmed.len() == 0 {
        map_known_app_name(base.as_slice())
    } else if bytes_eq_ci(friendly.as_slice(), base.as_slice()) {
        map_known_app_name(base.as_slice())
    } else {
        friendly
    };
    ProcessInfo { display, path: bytes_of(path), icon_png }
}

} // verus!
