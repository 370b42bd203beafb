//! The launcher's own data: game versions, update results and assets, and
//! the animated text of its windows.

use crate::version::Version;
use vstd::prelude::*;

verus! {

/// The port of the RPC API server.
pub const RPC_DEFAULT_PORT: u16 = 50051;

/// The port of the Quazal authentication server.
pub const QUAZAL_DEFAULT_PORT: u16 = 21126;

/// The local port that the launcher talks to the Quazal server from.
pub const QUAZAL_DEFAULT_LOCAL_PORT: u16 = 3128;

/// The port of the peer-to-peer test.
pub const P2P_DEFAULT_PORT: u16 = 13000;

#[verifier::external_type_specification]
#[verifier::external_body]
pub struct ExPathBuf(std::path::PathBuf);

/// The path that `std::path::Path::join` makes of a directory and a name.
pub uninterp spec fn joined_path(base: std::path::PathBuf, name: Seq<char>) -> std::path::PathBuf;

/// `std::path::PathBuf::join`: the directory joined with a file name, the
/// named `joined_path` of the two.
#[verifier::external_body]
fn join_path(base_dir: &std::path::PathBuf, name: &str) -> (r: std::path::PathBuf)
    ensures
        r == joined_path(*base_dir, name@),
{
    base_dir.join(name)
}

/// The versions of the game.
#[derive(Debug, Clone, Copy, PartialEq, Eq, Structural, Hash, PartialOrd, Ord)]
pub enum GameVersion {
    SplinterCellBlacklistDx9,
    SplinterCellBlacklistDx11,
}

impl GameVersion {
    /// The name of the game's executable.
    pub open spec fn spec_executable(self) -> Seq<char> {
        match self {
            GameVersion::SplinterCellBlacklistDx9 => "Blacklist_game.exe"@,
            GameVersion::SplinterCellBlacklistDx11 => "Blacklist_DX11_game.exe"@,
        }
    }

    /// The name of the game's executable.
    pub fn executable(self) -> (r: &'static str)
        ensures
            r@ == self.spec_executable(),
    {
        match self {
            GameVersion::SplinterCellBlacklistDx9 => "Blacklist_game.exe",
            GameVersion::SplinterCellBlacklistDx11 => "Blacklist_DX11_game.exe",
        }
    }

    /// The path of the executable in `base_dir`.
    pub fn full_path(self, base_dir: &std::path::PathBuf) -> (r: std::path::PathBuf)
        ensures
            r == joined_path(*base_dir, self.spec_executable()),
    {
        join_path(base_dir, self.executable())
    }

    /// The label of the version.
    pub fn label(&self) -> (r: &'static str)
        ensures
            r@ == match *self {
                GameVersion::SplinterCellBlacklistDx9 => "DirectX 9"@,
                GameVersion::SplinterCellBlacklistDx11 => "DirectX 11"@,
            },
    {
        match self {
            GameVersion::SplinterCellBlacklistDx9 => "DirectX 9",
            GameVersion::SplinterCellBlacklistDx11 => "DirectX 11",
        }
    }

    /// The short label of the version.
    pub fn label_short(&self) -> (r: &'static str)
        ensures
            r@ == match *self {
                GameVersion::SplinterCellBlacklistDx9 => "DX9"@,
                GameVersion::SplinterCellBlacklistDx11 => "DX11"@,
            },
    {
        match self {
            GameVersion::SplinterCellBlacklistDx9 => "DX9",
            GameVersion::SplinterCellBlacklistDx11 => "DX11",
        }
    }
}

/// Whether the game can be launched.
#[derive(Debug, Clone, Copy, PartialEq, Eq, Structural, Hash)]
pub enum GameState {
    Ready,
    NotReady,
}

impl From<bool> for GameState {
    fn from(b: bool) -> (r: GameState) {
        if b {
            GameState::Ready
        } else {
            GameState::NotReady
        }
    }
}

impl vstd::std_specs::convert::FromSpecImpl<bool> for GameState {
    open spec fn obeys_from_spec() -> bool {
        true
    }

    open spec fn from_spec(b: bool) -> GameState {
        if b {
            GameState::Ready
        } else {
            GameState::NotReady
        }
    }
}

/// Which user interface the launcher shows.
#[derive(Debug, Clone, Copy, PartialEq, Eq, Structural)]
pub enum UIVersion {
    Old,
    New,
}

/// What came of changing the configuration, with the change's own result.
#[derive(Debug)]
pub enum UpdateResult<T> {
    Saved(T),
    Unchanged(T),
    Error(T),
}

impl<T> UpdateResult<T> {
    /// Whether saving failed.
    pub fn is_err(&self) -> (r: bool)
        ensures
            r == (*self is Error),
    {
        match self {
            UpdateResult::Error(_) => true,
            _ => false,
        }
    }

    /// What an update of the configuration reports, given whether it
    /// changed the configuration and, where it did, whether saving the
    /// changed configuration failed: `Saved` when nothing changed,
    /// `Unchanged` when the change was saved, `Error` when saving failed.
    pub fn after_update(res: T, changed: bool, save_failed: bool) -> (r: UpdateResult<T>)
        ensures
            !changed ==> r == UpdateResult::Saved(res),
            changed && save_failed ==> r == UpdateResult::Error(res),
            changed && !save_failed ==> r == UpdateResult::Unchanged(res),
    {
        if changed {
            if save_failed {
                return UpdateResult::Error(res);
            }
            return UpdateResult::Unchanged(res);
        }
        UpdateResult::Saved(res)
    }
}

/// The roots of the registry.
#[derive(Debug, Clone, Copy, PartialEq, Eq, Structural)]
pub enum Key {
    LocaLMachine,
    CurrentUser,
}

/// A file of a release.
#[derive(Debug, Clone)]
pub struct Asset {
    pub name: String,
    pub version: Version,
    pub url: String,
    pub size: usize,
}

/// The updater client of GitHub releases.
#[derive(Debug, Clone, Copy)]
pub struct GitHubClient;

/// An updater client that serves a fixed release.
#[derive(Debug, Clone, Copy)]
pub struct MockUpdaterClient;

/// The release that the mock client serves: version 1.2.3 of the launcher
/// (1024 bytes) and of the dedicated server (2048 bytes), from localhost.
pub open spec fn mock_assets() -> Seq<(Seq<char>, Version, Seq<char>, usize)> {
    seq![
        ("launcher.exe"@, Version { major: 1, minor: 2, patch: 3 }, "http://localhost/launcher.exe"@, 1024usize),
        (
            "dedicated_server.exe"@,
            Version { major: 1, minor: 2, patch: 3 },
            "http://localhost/dedicated_server.exe"@,
            2048usize,
        ),
    ]
}

/// The name, version, URL and size of an asset.
pub open spec fn asset_view(a: Asset) -> (Seq<char>, Version, Seq<char>, usize) {
    (a.name@, a.version, a.url@, a.size)
}

impl MockUpdaterClient {
    /// The assets of the latest release.
    pub fn latest_assets(&self) -> (r: Vec<Asset>)
        ensures
            r@.map_values(|a: Asset| asset_view(a)) == mock_assets(),
    {
        let v = Version { major: 1, minor: 2, patch: 3 };
        let mut r: Vec<Asset> = Vec::new();
        r.push(
            Asset {
                name: String::from_str("launcher.exe"),
                version: v,
                url: String::from_str("http://localhost/launcher.exe"),
                size: 1024,
            },
        );
        r.push(
            Asset {
                name: String::from_str("dedicated_server.exe"),
                version: v,
                url: String::from_str("http://localhost/dedicated_server.exe"),
                size: 2048,
            },
        );
        assert(r@.map_values(|a: Asset| asset_view(a)) =~= mock_assets());
        r
    }
}

#[verifier::external_type_specification]
#[verifier::external_body]
pub struct ExInstant(std::time::Instant);

/// `std::time::Instant::now`: a reading of the monotonic clock. Nothing is
/// stated of it.
#[verifier::external_body]
fn instant_now() -> (r: std::time::Instant) {
    std::time::Instant::now()
}

/// `std::time::Instant::elapsed`, in whole milliseconds: the time that the
/// monotonic clock has run since `origin`. Nothing is stated of it.
#[verifier::external_body]
fn millis_since(origin: &std::time::Instant) -> (r: u64) {
    origin.elapsed().as_millis() as u64
}

/// The milliseconds from `then` to `now`, or 0 when `now` is earlier.
pub open spec fn elapsed(then: u64, now: u64) -> int {
    if now >= then {
        now - then
    } else {
        0
    }
}

/// Text that cycles through its variants, one step per interval.
#[derive(Debug)]
pub struct AnimatedText<'a> {
    pub variants: &'a [&'a str],
    /// The interval, in milliseconds.
    pub interval: u64,
    pub current_variant: usize,
    /// The instant on the monotonic clock from which times are counted.
    pub origin: std::time::Instant,
    /// When the text last changed, in milliseconds after `origin`.
    pub last_instant: u64,
}

impl<'a> AnimatedText<'a> {
    /// Text that shows the first variant from `now` (milliseconds after
    /// the instant of its creation) on.
    pub fn starting_at(variants: &'a [&'a str], interval: u64, now: u64) -> (r: AnimatedText<'a>)
        ensures
            r.variants == variants,
            r.interval == interval,
            r.current_variant == 0,
            r.last_instant == now,
    {
        AnimatedText { variants, interval, current_variant: 0, origin: instant_now(), last_instant: now }
    }

    /// Text that shows the first variant from now on: times are counted
    /// from this instant.
    pub fn new(variants: &'a [&'a str], interval: u64) -> (r: AnimatedText<'a>)
        ensures
            r.variants == variants,
            r.interval == interval,
            r.current_variant == 0,
            r.last_instant == 0,
    {
        AnimatedText::starting_at(variants, interval, 0)
    }

    /// At `now`, moves to the next variant (after the last, the first) when
    /// a whole interval has passed since the last change; whether it moved.
    pub fn update_at(&mut self, now: u64) -> (r: bool)
        requires
            old(self).variants@.len() > 0,
            old(self).current_variant < usize::MAX,
        ensures
            r == (elapsed(old(self).last_instant, now) >= old(self).interval),
            r ==> final(self).current_variant == (old(self).current_variant + 1) % (old(self).variants@.len() as int)
                && final(self).last_instant == now,
            !r ==> *final(self) == *old(self),
            final(self).variants == old(self).variants,
            final(self).interval == old(self).interval,
            final(self).origin == old(self).origin,
    {
        if now.saturating_sub(self.last_instant) >= self.interval {
            self.last_instant = now;
            let len = self.variants.len();
            let c = self.current_variant % len;
            proof {
                let x = self.current_variant as int;
                let n = len as int;
                assert((x % n + 1) % n == (x + 1) % n) by (nonlinear_arith)
                    requires
                        n > 0,
                        x >= 0,
                ;
            }
            self.current_variant = (c + 1) % len;
            true
        } else {
            false
        }
    }

    /// Moves to the next variant when a whole interval has passed: what
    /// `update_at` does at the milliseconds that the monotonic clock has
    /// run since `origin`, a reading that is not known here.
    pub fn update(&mut self) -> (r: bool)
        requires
            old(self).variants@.len() > 0,
            old(self).current_variant < usize::MAX,
        ensures
            exists|now: u64| Self::stepped_at(*old(self), now, r, *final(self)),
    {
        let now = millis_since(&self.origin);
        let r = self.update_at(now);
        assert(Self::stepped_at(*old(self), now, r, *self));
        r
    }

    /// What `update_at(now)` does: `r` says whether a whole interval had
    /// passed by `now`; if so, the text moved to the next variant and `now`
    /// is its last change, else nothing changed.
    pub open spec fn stepped_at(before: AnimatedText<'a>, now: u64, r: bool, after: AnimatedText<'a>) -> bool {
        &&& r == (elapsed(before.last_instant, now) >= before.interval)
        &&& r ==> after.variants == before.variants
            && after.interval == before.interval
            && after.origin == before.origin
            && after.current_variant == (before.current_variant + 1) % (before.variants@.len() as int)
            && after.last_instant == now
        &&& !r ==> after == before
    }

    /// The variant shown.
    pub fn text(&self) -> (r: &'a str)
        requires
            self.current_variant < self.variants@.len(),
        ensures
            r == self.variants@[self.current_variant as int],
    {
        self.variants[self.current_variant]
    }
}

} // verus!
