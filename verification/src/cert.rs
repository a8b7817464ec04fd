//! The certificate cache of the TLS server: which certified key serves a handshake, and
//! when the certificate and key files are read again.

use vstd::prelude::*;

verus! {

/// How long a cached key is used without looking at the files, in nanoseconds.
pub const RECHECK_NANOS: u64 = 3_600_000_000_000;

/// When a cached key was made or last confirmed, and the modification times of the files
/// it came from. `checked_at` is on a monotonic clock in nanoseconds; the modification
/// times are nanoseconds since the Unix epoch (the epoch itself when unknown).
#[derive(Clone, Copy, Debug, PartialEq, Eq, Structural)]
pub struct CertStamp {
    pub cert_mtime: i128,
    pub key_mtime: i128,
    pub checked_at: u64,
}

/// What a lookup found.
pub enum Lookup<'a, K> {
    /// The cached key serves.
    Cached(&'a K),
    /// The files must be read.
    Reload,
}

/// What bringing the cache up to date for a handshake did, with the modification times
/// read from the files when they were read.
pub enum Served {
    /// The cached key was fresh; nothing was read.
    Fresh,
    /// The files are unchanged; the cached key was confirmed.
    Confirmed { cert_mtime: i128, key_mtime: i128 },
    /// The files changed (or nothing was cached); a key was loaded and installed.
    Loaded { cert_mtime: i128, key_mtime: i128 },
    /// The files changed (or nothing was cached) and loading failed; the cache is as it was.
    LoadFailed { cert_mtime: i128, key_mtime: i128 },
}

/// A cached certified key of type `K`, with its stamp.
pub struct CertCache<K> {
    cached: Option<(K, CertStamp)>,
}

/// Whether a key confirmed at `checked_at` is still fresh at `now`: less than an hour
/// has passed (a clock reading before `checked_at` counts as no time passed).
pub open spec fn is_fresh(checked_at: u64, now: u64) -> bool {
    now < checked_at || now - checked_at < RECHECK_NANOS
}

impl<K> CertCache<K> {
    /// The cached key, if any.
    pub closed spec fn key(&self) -> Option<K> {
        match self.cached {
            Some((k, _)) => Some(k),
            None => None,
        }
    }

    /// The stamp of the cached key, if any.
    pub closed spec fn stamp(&self) -> Option<CertStamp> {
        match self.cached {
            Some((_, s)) => Some(s),
            None => None,
        }
    }

    /// A key is cached exactly when a stamp is.
    pub proof fn lemma_key_and_stamp(&self)
        ensures
            self.key() is Some <==> self.stamp() is Some,
    {
    }

    /// An empty cache.
    pub fn new() -> (c: Self)
        ensures
            c.key() is None,
            c.stamp() is None,
    {
        CertCache { cached: None }
    }

    /// The fast path: the cached key while it is fresh at `now`.
    pub fn fresh_key(&self, now: u64) -> (r: Option<&K>)
        ensures
            match r {
                Some(k) => self.key() == Some(*k) && is_fresh(self.stamp()->0.checked_at, now),
                None => self.key() is None || !is_fresh(self.stamp()->0.checked_at, now),
            },
    {
        match &self.cached {
            Some((k, s)) => {
                if now < s.checked_at || now - s.checked_at < RECHECK_NANOS {
                    Some(k)
                } else {
                    None
                }
            },
            None => None,
        }
    }

    /// After the files' modification times were read at `now`: when they are those of
    /// the cached key, the key is confirmed (its stamp moves to `now`) and serves;
    /// otherwise the files must be read.
    pub fn confirm(&mut self, now: u64, cert_mtime: i128, key_mtime: i128) -> (r: Lookup<'_, K>)
        ensures
            match old(self).stamp() {
                Some(s) => if s.cert_mtime == cert_mtime && s.key_mtime == key_mtime {
                    &&& final(self).key() == old(self).key()
                    &&& final(self).stamp() == Some(CertStamp { cert_mtime, key_mtime, checked_at: now })
                    &&& r matches Lookup::Cached(k) && final(self).key() == Some(*k)
                } else {
                    &&& r is Reload
                    &&& final(self).key() == old(self).key()
                    &&& final(self).stamp() == old(self).stamp()
                },
                None => r is Reload && final(self).key() is None && final(self).stamp() is None,
            },
    {
        let same = match &self.cached {
            Some((_, s)) => s.cert_mtime == cert_mtime && s.key_mtime == key_mtime,
            None => false,
        };
        if same {
            match &mut self.cached {
                Some((_, s)) => {
                    s.checked_at = now;
                },
                None => {},
            }
            match &self.cached {
                Some((k, _)) => Lookup::Cached(k),
                None => Lookup::Reload,
            }
        } else {
            Lookup::Reload
        }
    }

    /// Installs a freshly loaded key, stamped with the files' modification times and `now`.
    pub fn install(&mut self, key: K, now: u64, cert_mtime: i128, key_mtime: i128)
        ensures
            final(self).key() == Some(key),
            final(self).stamp() == Some(CertStamp { cert_mtime, key_mtime, checked_at: now }),
    {
        self.cached = Some((key, CertStamp { cert_mtime, key_mtime, checked_at: now }));
    }

    /// The cached key, if any: what serves after an install, and what still serves after
    /// loading failed.
    pub fn cached_key(&self) -> (r: Option<&K>)
        ensures
            match r {
                Some(k) => self.key() == Some(*k),
                None => self.key() is None,
            },
    {
        match &self.cached {
            Some((k, _)) => Some(k),
            None => None,
        }
    }

    /// Whether the cache holds a key that is still fresh at `now`.
    pub open spec fn serves_fresh(&self, now: u64) -> bool {
        self.key() is Some && is_fresh(self.stamp()->0.checked_at, now)
    }

    /// Whether the cache holds a key made from files with these modification times.
    pub open spec fn stamped_with(&self, cert_mtime: i128, key_mtime: i128) -> bool {
        self.stamp() matches Some(s) && s.cert_mtime == cert_mtime && s.key_mtime == key_mtime
    }

    /// Brings the cache up to date for a handshake at `now`, in this order: a key that is
    /// still fresh serves as it is; otherwise the files' modification times are read
    /// (`read_mtimes`) and, when they are those of the cached key, the key is confirmed;
    /// otherwise the files are loaded (`load`), and a loaded key is installed, while a
    /// failed load leaves the cache as it was. The key to serve is then
    /// [`CertCache::cached_key`].
    pub fn serve<F, G>(&mut self, now: u64, read_mtimes: F, load: G) -> (r: Served)
        where
            F: FnOnce() -> (i128, i128),
            G: FnOnce() -> Option<K>,
        requires
            call_requires(read_mtimes, ()),
            call_requires(load, ()),
        ensures
            old(self).key() is Some ==> final(self).key() is Some,
            final(self).key() is Some <==> final(self).stamp() is Some,
            match r {
                Served::Fresh => {
                    &&& old(self).serves_fresh(now)
                    &&& final(self).key() == old(self).key()
                    &&& final(self).stamp() == old(self).stamp()
                },
                Served::Confirmed { cert_mtime, key_mtime } => {
                    &&& !old(self).serves_fresh(now)
                    &&& call_ensures(read_mtimes, (), (cert_mtime, key_mtime))
                    &&& old(self).stamped_with(cert_mtime, key_mtime)
                    &&& final(self).key() == old(self).key()
                    &&& final(self).stamp() == Some(CertStamp { cert_mtime, key_mtime, checked_at: now })
                },
                Served::Loaded { cert_mtime, key_mtime } => {
                    &&& !old(self).serves_fresh(now)
                    &&& call_ensures(read_mtimes, (), (cert_mtime, key_mtime))
                    &&& !old(self).stamped_with(cert_mtime, key_mtime)
                    &&& final(self).key() is Some
                    &&& call_ensures(load, (), final(self).key())
                    &&& final(self).stamp() == Some(CertStamp { cert_mtime, key_mtime, checked_at: now })
                },
                Served::LoadFailed { cert_mtime, key_mtime } => {
                    &&& !old(self).serves_fresh(now)
                    &&& call_ensures(read_mtimes, (), (cert_mtime, key_mtime))
                    &&& !old(self).stamped_with(cert_mtime, key_mtime)
                    &&& call_ensures(load, (), None::<K>)
                    &&& final(self).key() == old(self).key()
                    &&& final(self).stamp() == old(self).stamp()
                },
            },
    {
        let fresh = match &self.cached {
            Some((_, s)) => now < s.checked_at || now - s.checked_at < RECHECK_NANOS,
            None => false,
        };
        if fresh {
            return Served::Fresh;
        }
        let (cert_mtime, key_mtime) = read_mtimes();
        let same = match &self.cached {
            Some((_, s)) => s.cert_mtime == cert_mtime && s.key_mtime == key_mtime,
            None => false,
        };
        if same {
            match &mut self.cached {
                Some((_, s)) => {
                    s.checked_at = now;
                },
                None => {},
            }
            return Served::Confirmed { cert_mtime, key_mtime };
        }
        match load() {
            Some(key) => {
                self.cached = Some((key, CertStamp { cert_mtime, key_mtime, checked_at: now }));
                Served::Loaded { cert_mtime, key_mtime }
            },
            None => Served::LoadFailed { cert_mtime, key_mtime },
        }
    }
}

} // verus!
