//! What this server does, decided from a page rather than a stack.
//!
//! Every value here can be seeded from the environment once. After that the
//! volume decides, and a restart with the old environment changes nothing.

use vstd::prelude::*;

verus! {

/// Everything this server decides for itself.
#[derive(Debug, Clone, Copy, PartialEq, Eq, Structural)]
pub struct Settings {
    /// Whether the public surface exists at all.
    pub public: bool,
    /// May a filer read the spec drafted from their own request? Never set is
    /// not the same as set to no.
    pub show_spec: Option<bool>,
    /// The four ceilings. `None` is the built-in default, not zero.
    pub max_daily_filings: Option<usize>,
    pub max_daily_drafts: Option<usize>,
    pub max_accounts: Option<usize>,
    pub max_outstanding_links: Option<usize>,
    /// Set the first time the environment is applied.
    pub seeded: bool,
}

impl Default for Settings {
    /// A server nobody has configured.
    fn default() -> (r: Self)
        ensures
            r == unconfigured(),
    {
        Settings {
            public: false,
            show_spec: None,
            max_daily_filings: None,
            max_daily_drafts: None,
            max_accounts: None,
            max_outstanding_links: None,
            seeded: false,
        }
    }
}

/// A server nobody has configured.
pub open spec fn unconfigured() -> Settings {
    Settings {
        public: false,
        show_spec: None,
        max_daily_filings: None,
        max_daily_drafts: None,
        max_accounts: None,
        max_outstanding_links: None,
        seeded: false,
    }
}

/// What the environment offered at first boot.
#[derive(Debug, Clone, Copy, PartialEq, Eq, Structural)]
pub struct Seed {
    /// Whether the environment described a public surface at all.
    pub public: bool,
    pub show_spec: Option<bool>,
    pub max_daily_filings: Option<usize>,
    pub max_daily_drafts: Option<usize>,
    pub max_accounts: Option<usize>,
    pub max_outstanding_links: Option<usize>,
}

impl Default for Seed {
    /// An environment that says nothing.
    fn default() -> (r: Self)
        ensures
            r == (Seed {
                public: false,
                show_spec: None,
                max_daily_filings: None,
                max_daily_drafts: None,
                max_accounts: None,
                max_outstanding_links: None,
            }),
    {
        Seed {
            public: false,
            show_spec: None,
            max_daily_filings: None,
            max_daily_drafts: None,
            max_accounts: None,
            max_outstanding_links: None,
        }
    }
}

/// Settings after the environment was offered: taken where it never was before.
pub open spec fn seeded_from(s: Settings, from: Seed) -> Settings {
    if s.seeded {
        s
    } else {
        Settings {
            public: from.public,
            show_spec: from.show_spec,
            max_daily_filings: from.max_daily_filings,
            max_daily_drafts: from.max_daily_drafts,
            max_accounts: from.max_accounts,
            max_outstanding_links: from.max_outstanding_links,
            seeded: true,
        }
    }
}

/// The environment is applied once. Whatever is changed afterwards, and whatever
/// the environment says at a later boot, the change stands.
pub proof fn law_a_seed_is_applied_once(s: Settings, first: Seed, edited: Settings, later: Seed)
    requires
        edited.seeded,
    ensures
        seeded_from(s, first).seeded,
        seeded_from(edited, later) == edited,
        seeded_from(seeded_from(s, first), later) == seeded_from(s, first),
{
}

impl Settings {
    /// Apply the environment once, the first time this volume is used. `true`
    /// where this call was the seeding. A seed that says nothing is one too.
    pub fn seed(&mut self, from: Seed) -> (r: bool)
        ensures
            *final(self) == seeded_from(*old(self), from),
            r == !old(self).seeded,
    {
        if self.seeded {
            return false;
        }
        self.public = from.public;
        self.show_spec = from.show_spec;
        self.max_daily_filings = from.max_daily_filings;
        self.max_daily_drafts = from.max_daily_drafts;
        self.max_accounts = from.max_accounts;
        self.max_outstanding_links = from.max_outstanding_links;
        self.seeded = true;
        true
    }
}

// ---------------------------------------------------------------------------
// The cache
// ---------------------------------------------------------------------------

/// What a look at the settings file found.
#[derive(Debug, Clone, Copy, PartialEq, Eq, Structural)]
pub enum FileRead {
    /// The file could not be read.
    Unreadable,
    /// It was read, and does not hold settings.
    Malformed,
    /// It holds these.
    Read(Settings),
}

/// The settings, and the file state they were read from.
#[derive(Debug, Clone, Copy, PartialEq, Eq, Structural)]
pub struct SettingsCache {
    /// When the file was last modified, as of the last look. `None` where there
    /// was no file, or where the next look must read it whatever its time.
    pub mtime: Option<u128>,
    pub value: Settings,
}

impl Default for SettingsCache {
    /// Nothing was looked at yet.
    fn default() -> (r: Self)
        ensures
            r == (SettingsCache { mtime: None, value: unconfigured() }),
    {
        SettingsCache { mtime: None, value: Settings::default() }
    }
}

/// The cache after a look at a file that had changed.
pub open spec fn refreshed(c: SettingsCache, mtime: Option<u128>, found: FileRead) -> SettingsCache {
    SettingsCache {
        mtime,
        value: match found {
            FileRead::Read(s) => s,
            FileRead::Malformed => c.value,
            FileRead::Unreadable => if mtime is None {
                unconfigured()
            } else {
                c.value
            },
        },
    }
}

impl SettingsCache {
    /// Must the file be read again? Only where its time is not the one last seen.
    pub fn is_stale(&self, mtime: Option<u128>) -> (r: bool)
        ensures
            r == (mtime != self.mtime),
    {
        match (mtime, self.mtime) {
            (Some(a), Some(b)) => a != b,
            (None, None) => false,
            _ => true,
        }
    }

    /// Take what the file held. What cannot be read leaves the last good
    /// settings in place; a file that is gone is an unconfigured server.
    pub fn refresh(&mut self, mtime: Option<u128>, found: FileRead)
        ensures
            *final(self) == refreshed(*old(self), mtime, found),
    {
        match found {
            FileRead::Read(s) => {
                self.value = s;
            },
            FileRead::Malformed => {},
            FileRead::Unreadable => {
                if mtime.is_none() {
                    self.value = Settings::default();
                }
            },
        }
        self.mtime = mtime;
    }

    /// The settings as they are on disk, from the file's time and what a read of
    /// it found. `found` counts only where [`is_stale`](Self::is_stale) asked
    /// for it.
    pub fn current(&mut self, mtime: Option<u128>, found: FileRead) -> (r: Settings)
        ensures
            *final(self) == (if mtime != old(self).mtime {
                refreshed(*old(self), mtime, found)
            } else {
                *old(self)
            }),
            r == final(self).value,
    {
        if self.is_stale(mtime) {
            self.refresh(mtime, found);
        }
        self.value
    }

    /// Forget what was read, so that the next look at a file that is there reads
    /// it. Called after a write, because a coarse timestamp can hide one.
    pub fn invalidate(&mut self)
        ensures
            *final(self) == (SettingsCache { mtime: None, ..*old(self) }),
    {
        self.mtime = None;
    }
}

/// After a write and [`SettingsCache::invalidate`], the next look at the file
/// hands back what it holds, even where its time did not move.
pub proof fn law_a_write_is_seen_on_the_next_look(c: SettingsCache, mtime: u128, written: Settings)
    ensures
        ({
            let forgotten = SettingsCache { mtime: None, ..c };
            &&& Some(mtime) != forgotten.mtime
            &&& refreshed(forgotten, Some(mtime), FileRead::Read(written)).value == written
        }),
{
}

/// A transient error does not un-configure the server: where the file is there,
/// nothing but settings that were read from it replaces the last good ones.
pub proof fn law_a_failed_read_keeps_the_last_good(c: SettingsCache, mtime: u128, found: FileRead)
    requires
        !(found is Read),
    ensures
        refreshed(c, Some(mtime), found).value == c.value,
{
}

} // verus!
