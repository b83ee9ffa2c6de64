//! Release checks: which release is newer, where each platform's download
//! is, and when to look again.

use crate::text::str_eq;
use vstd::prelude::*;

verus! {

/// Seconds between two automatic update checks: one day.
pub const UPDATE_CHECK_INTERVAL_SECS: u64 = 86400;

/// One downloadable file of a release.
#[derive(Clone, Debug)]
pub struct GitHubAsset {
    pub name: String,
    pub browser_download_url: String,
}

/// A published release.
#[derive(Clone, Debug)]
pub struct UpdateInfo {
    pub version: String,
    pub release_url: String,
    pub release_notes: String,
    pub download_urls: DownloadUrls,
}

/// The download address for each platform; empty where there is none.
#[derive(Clone, Debug)]
pub struct DownloadUrls {
    pub windows: String,
    pub macos: String,
    pub linux_x86_64: String,
    pub linux_aarch64: String,
    pub deb_amd64: String,
    pub deb_arm64: String,
}

/// The steps of installing an update.
#[derive(Clone, Copy, Debug, PartialEq, Eq, Structural)]
pub enum UpdateInstallPhase {
    Starting,
    Downloading,
    Installing,
    Success,
    Error,
}

/// A progress report of an installation.
#[derive(Clone, Debug)]
pub struct UpdateInstallEvent {
    pub phase: UpdateInstallPhase,
    pub message: String,
}

impl UpdateInstallEvent {
    pub fn new(phase: UpdateInstallPhase, message: &str) -> (r: UpdateInstallEvent)
        ensures
            r.phase == phase,
            r.message@ == message@,
    {
        UpdateInstallEvent { phase, message: message.to_owned() }
    }
}

/// Downloads and installs releases.
pub struct UpdateInstaller;

/// A platform that releases are built for.
#[derive(Clone, Copy, Debug, PartialEq, Eq, Structural)]
pub enum UpdatePlatform {
    Windows,
    Macos,
    LinuxX86_64,
    LinuxAarch64,
    DebAmd64,
    DebArm64,
}

/// `s` without its leading `v`s.
pub open spec fn without_v(s: Seq<char>) -> Seq<char>
    decreases s.len(),
{
    if s.len() > 0 && s[0] == 'v' {
        without_v(s.drop_first())
    } else {
        s
    }
}

/// `a` comes after `b` in lexicographic order of characters.
pub open spec fn lex_greater(a: Seq<char>, b: Seq<char>) -> bool
    decreases a.len(),
{
    if a.len() == 0 {
        false
    } else if b.len() == 0 {
        true
    } else if a[0] != b[0] {
        a[0] as u32 > b[0] as u32
    } else {
        lex_greater(a.drop_first(), b.drop_first())
    }
}

/// The asset file name that each platform's download has.
pub open spec fn asset_name(p: UpdatePlatform) -> Seq<char> {
    match p {
        UpdatePlatform::Windows => "Psst.exe"@,
        UpdatePlatform::Macos => "Psst.dmg"@,
        UpdatePlatform::LinuxX86_64 => "psst-linux-x86_64"@,
        UpdatePlatform::LinuxAarch64 => "psst-linux-aarch64"@,
        UpdatePlatform::DebAmd64 => "psst-amd64.deb"@,
        UpdatePlatform::DebArm64 => "psst-arm64.deb"@,
    }
}

/// The address of the last asset named `name`, or empty when none is.
pub open spec fn url_named(assets: Seq<GitHubAsset>, name: Seq<char>) -> Seq<char>
    decreases assets.len(),
{
    if assets.len() == 0 {
        Seq::empty()
    } else if assets.last().name@ == name {
        assets.last().browser_download_url@
    } else {
        url_named(assets.drop_last(), name)
    }
}

/// The address recorded for platform `p`.
pub open spec fn url_for(urls: DownloadUrls, p: UpdatePlatform) -> Seq<char> {
    match p {
        UpdatePlatform::Windows => urls.windows@,
        UpdatePlatform::Macos => urls.macos@,
        UpdatePlatform::LinuxX86_64 => urls.linux_x86_64@,
        UpdatePlatform::LinuxAarch64 => urls.linux_aarch64@,
        UpdatePlatform::DebAmd64 => urls.deb_amd64@,
        UpdatePlatform::DebArm64 => urls.deb_arm64@,
    }
}

fn trim_v(s: &str) -> (r: &str)
    ensures
        r@ == without_v(s@),
{
    let n = s.unicode_len();
    let mut i: usize = 0;
    assert(s@.skip(0) =~= s@);
    while i < n && s.get_char(i) == 'v'
        invariant
            n == s@.len(),
            i <= n,
            without_v(s@) == without_v(s@.skip(i as int)),
        decreases n - i,
    {
        assert(s@.skip(i as int).drop_first() =~= s@.skip(i + 1));
        i = i + 1;
    }
    assert(s@.skip(i as int) =~= s@.subrange(i as int, n as int));
    s.substring_char(i, n)
}

/// No two platforms share a download file name.
proof fn lemma_asset_names_distinct(p: UpdatePlatform, q: UpdatePlatform)
    requires
        p != q,
    ensures
        asset_name(p) != asset_name(q),
{
    reveal_strlit("Psst.exe");
    reveal_strlit("Psst.dmg");
    reveal_strlit("psst-linux-x86_64");
    reveal_strlit("psst-linux-aarch64");
    reveal_strlit("psst-amd64.deb");
    reveal_strlit("psst-arm64.deb");
    assert(asset_name(UpdatePlatform::Windows) =~= seq!['P', 's', 's', 't', '.', 'e', 'x', 'e']);
    assert(asset_name(UpdatePlatform::Macos) =~= seq!['P', 's', 's', 't', '.', 'd', 'm', 'g']);
    assert(asset_name(UpdatePlatform::LinuxX86_64) =~= seq!['p', 's', 's', 't', '-', 'l', 'i', 'n', 'u', 'x', '-', 'x', '8', '6', '_', '6', '4']);
    assert(asset_name(UpdatePlatform::LinuxAarch64) =~= seq!['p', 's', 's', 't', '-', 'l', 'i', 'n', 'u', 'x', '-', 'a', 'a', 'r', 'c', 'h', '6', '4']);
    assert(asset_name(UpdatePlatform::DebAmd64) =~= seq!['p', 's', 's', 't', '-', 'a', 'm', 'd', '6', '4', '.', 'd', 'e', 'b']);
    assert(asset_name(UpdatePlatform::DebArm64) =~= seq!['p', 's', 's', 't', '-', 'a', 'r', 'm', '6', '4', '.', 'd', 'e', 'b']);
    if asset_name(p) == asset_name(q) {
        assert(asset_name(p).len() == asset_name(q).len());
        assert(asset_name(p)[5] == asset_name(q)[5]);
        assert(asset_name(p)[6] == asset_name(q)[6]);
    }
}

/// The platform whose download has the file name `name`.
fn platform_of_asset(name: &str) -> (r: Option<UpdatePlatform>)
    ensures
        r matches Some(p) ==> asset_name(p) == name@,
        r is None ==> forall|p: UpdatePlatform| asset_name(p) != name@,
{
    proof {
        reveal_strlit("Psst.exe");
        reveal_strlit("Psst.dmg");
        reveal_strlit("psst-linux-x86_64");
        reveal_strlit("psst-linux-aarch64");
        reveal_strlit("psst-amd64.deb");
        reveal_strlit("psst-arm64.deb");
    }
    if str_eq(name, "Psst.exe") {
        Some(UpdatePlatform::Windows)
    } else if str_eq(name, "Psst.dmg") {
        Some(UpdatePlatform::Macos)
    } else if str_eq(name, "psst-linux-x86_64") {
        Some(UpdatePlatform::LinuxX86_64)
    } else if str_eq(name, "psst-linux-aarch64") {
        Some(UpdatePlatform::LinuxAarch64)
    } else if str_eq(name, "psst-amd64.deb") {
        Some(UpdatePlatform::DebAmd64)
    } else if str_eq(name, "psst-arm64.deb") {
        Some(UpdatePlatform::DebArm64)
    } else {
        None
    }
}

/// Records `url` as the download address of platform `p`.
fn set_url(urls: &mut DownloadUrls, p: UpdatePlatform, url: String)
    ensures
        forall|q: UpdatePlatform| #[trigger] url_for(*final(urls), q) == if q == p {
            url@
        } else {
            url_for(*old(urls), q)
        },
{
    match p {
        UpdatePlatform::Windows => urls.windows = url,
        UpdatePlatform::Macos => urls.macos = url,
        UpdatePlatform::LinuxX86_64 => urls.linux_x86_64 = url,
        UpdatePlatform::LinuxAarch64 => urls.linux_aarch64 = url,
        UpdatePlatform::DebAmd64 => urls.deb_amd64 = url,
        UpdatePlatform::DebArm64 => urls.deb_arm64 = url,
    }
}

fn empty_to_none(value: &str) -> (r: Option<&str>)
    ensures
        value@.len() == 0 ==> r is None,
        value@.len() > 0 ==> r == Some(value),
{
    if value.unicode_len() == 0 {
        None
    } else {
        Some(value)
    }
}

impl UpdateInfo {
    /// Whether the release `remote` is newer than `current`: after leading
    /// `v`s are dropped, `remote` sorts after `current` (date-based versions
    /// sort in time order).
    pub fn is_newer_version(remote: &str, current: &str) -> (r: bool)
        ensures
            r == lex_greater(without_v(remote@), without_v(current@)),
    {
        let a = trim_v(remote);
        let b = trim_v(current);
        let la = a.unicode_len();
        let lb = b.unicode_len();
        let mut i: usize = 0;
        assert(a@.skip(0) =~= a@);
        assert(b@.skip(0) =~= b@);
        while i < la && i < lb
            invariant
                la == a@.len(),
                lb == b@.len(),
                a@ == without_v(remote@),
                b@ == without_v(current@),
                i <= la,
                i <= lb,
                lex_greater(a@, b@) == lex_greater(a@.skip(i as int), b@.skip(i as int)),
            decreases la - i,
        {
            let ca = a.get_char(i);
            let cb = b.get_char(i);
            assert(a@.skip(i as int)[0] == ca);
            assert(b@.skip(i as int)[0] == cb);
            if ca != cb {
                assert(lex_greater(a@.skip(i as int), b@.skip(i as int)) == ((ca as u32) > (cb as u32)));
                return (ca as u32) > (cb as u32);
            }
            assert(a@.skip(i as int).drop_first() =~= a@.skip(i + 1));
            assert(b@.skip(i as int).drop_first() =~= b@.skip(i + 1));
            i = i + 1;
        }
        i < la
    }

    /// The download address of each platform, taken from the asset with that
    /// platform's file name (the last one, if several have it).
    pub fn extract_download_urls(assets: &[GitHubAsset]) -> (r: DownloadUrls)
        ensures
            forall|p: UpdatePlatform| #[trigger] url_for(r, p) == url_named(assets@, asset_name(p)),
    {
        let mut urls = DownloadUrls {
            windows: String::new(),
            macos: String::new(),
            linux_x86_64: String::new(),
            linux_aarch64: String::new(),
            deb_amd64: String::new(),
            deb_arm64: String::new(),
        };
        let mut i: usize = 0;
        while i < assets.len()
            invariant
                i <= assets@.len(),
                forall|p: UpdatePlatform| #[trigger] url_for(urls, p) == url_named(assets@.take(i as int), asset_name(p)),
            decreases assets@.len() - i,
        {
            let asset = &assets[i];
            let name = asset.name.as_str();
            let url = asset.browser_download_url.clone();
            let ghost before = urls;
            proof {
                assert(assets@.take(i + 1).drop_last() =~= assets@.take(i as int));
            }
            let which = platform_of_asset(name);
            proof {
                assert(assets@.take(i + 1).last() == *asset);
            }
            match which {
                Some(p) => {
                    set_url(&mut urls, p, url);
                    assert forall|q: UpdatePlatform| #[trigger] url_for(urls, q) == url_named(assets@.take(i + 1), asset_name(q)) by {
                        assert(url_for(before, q) == url_named(assets@.take(i as int), asset_name(q)));
                        if q != p {
                            lemma_asset_names_distinct(p, q);
                        }
                    }
                },
                None => {
                    assert forall|q: UpdatePlatform| #[trigger] url_for(urls, q) == url_named(assets@.take(i + 1), asset_name(q)) by {
                        assert(url_for(before, q) == url_named(assets@.take(i as int), asset_name(q)));
                    }
                },
            }
            i = i + 1;
        }
        assert(assets@.take(i as int) =~= assets@);
        urls
    }

    /// The download address for `platform`, if the release has one.
    pub fn get_download_url_for_platform(&self, platform: UpdatePlatform) -> (r: Option<&str>)
        ensures
            url_for(self.download_urls, platform).len() == 0 ==> r is None,
            url_for(self.download_urls, platform).len() > 0 ==> (r matches Some(u) && u@ == url_for(
                self.download_urls,
                platform,
            )),
    {
        match platform {
            UpdatePlatform::Windows => empty_to_none(self.download_urls.windows.as_str()),
            UpdatePlatform::Macos => empty_to_none(self.download_urls.macos.as_str()),
            UpdatePlatform::LinuxX86_64 => empty_to_none(self.download_urls.linux_x86_64.as_str()),
            UpdatePlatform::LinuxAarch64 => empty_to_none(self.download_urls.linux_aarch64.as_str()),
            UpdatePlatform::DebAmd64 => empty_to_none(self.download_urls.deb_amd64.as_str()),
            UpdatePlatform::DebArm64 => empty_to_none(self.download_urls.deb_arm64.as_str()),
        }
    }
}

/// Relies on `SystemTime::now` and `duration_since(UNIX_EPOCH)`: whole
/// seconds since the epoch, or zero for a clock set before it. Nothing is
/// known of the value.
#[verifier::external_body]
fn unix_now_secs() -> u64 {
    match std::time::SystemTime::now().duration_since(std::time::UNIX_EPOCH) {
        Ok(d) => d.as_secs(),
        Err(_) => 0,
    }
}

/// Whether to look for updates, and which release the user set aside.
#[derive(Clone, Debug)]
pub struct UpdatePreferences {
    /// Whether to check for updates on startup.
    pub check_on_startup: bool,
    /// When the last check ran, in seconds since the epoch.
    pub last_check_timestamp: u64,
    /// The release whose notice the user dismissed.
    pub dismissed_version: Option<String>,
}

impl Default for UpdatePreferences {
    fn default() -> (r: UpdatePreferences)
        ensures
            r.check_on_startup,
            r.last_check_timestamp == 0,
            r.dismissed_version is None,
    {
        UpdatePreferences { check_on_startup: true, last_check_timestamp: 0, dismissed_version: None }
    }
}

/// A check is due at `now`: checks are on and a day has passed since the
/// last one (no time has passed if the clock is behind it).
pub open spec fn check_due(check_on_startup: bool, last: u64, now: u64) -> bool {
    check_on_startup && now >= last && now - last >= UPDATE_CHECK_INTERVAL_SECS
}

impl UpdatePreferences {
    /// Whether a check is due at the time `now` (seconds since the epoch).
    pub fn is_check_due_at(&self, now: u64) -> (r: bool)
        ensures
            r == check_due(self.check_on_startup, self.last_check_timestamp, now),
    {
        if !self.check_on_startup {
            return false;
        }
        let elapsed = if now >= self.last_check_timestamp {
            now - self.last_check_timestamp
        } else {
            0
        };
        elapsed >= UPDATE_CHECK_INTERVAL_SECS
    }

    /// Whether a check is due now. Never when checks are off.
    pub fn should_check_for_updates(&self) -> (r: bool)
        ensures
            r ==> self.check_on_startup,
            r ==> exists|now: u64| check_due(self.check_on_startup, self.last_check_timestamp, now),
    {
        let now = unix_now_secs();
        self.is_check_due_at(now)
    }

    /// Records that a check ran at the time `now`.
    pub fn mark_checked_at(&mut self, now: u64)
        ensures
            final(self).last_check_timestamp == now,
            final(self).check_on_startup == old(self).check_on_startup,
            final(self).dismissed_version == old(self).dismissed_version,
    {
        self.last_check_timestamp = now;
    }

    /// Records that a check ran now.
    pub fn mark_checked(&mut self)
        ensures
            final(self).check_on_startup == old(self).check_on_startup,
            final(self).dismissed_version == old(self).dismissed_version,
    {
        let now = unix_now_secs();
        self.mark_checked_at(now);
    }

    /// Whether `version` is the release the user dismissed.
    pub fn is_version_dismissed(&self, version: &str) -> (r: bool)
        ensures
            r == (self.dismissed_version matches Some(v) && v@ == version@),
    {
        match &self.dismissed_version {
            Some(v) => str_eq(v.as_str(), version),
            None => false,
        }
    }

    /// Sets `version` aside: its notice is not shown again.
    pub fn dismiss_version(&mut self, version: String)
        ensures
            final(self).dismissed_version == Some(version),
            final(self).check_on_startup == old(self).check_on_startup,
            final(self).last_check_timestamp == old(self).last_check_timestamp,
    {
        self.dismissed_version = Some(version);
    }
}

} // verus!
