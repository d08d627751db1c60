//! Owning and non-owning handles to one constructed configuration.
//!
//! A [`Config`] is a cheaply clonable, reference-counted owner of one
//! configuration; two handles to the same construction are interchangeable,
//! and equality of handles is identity of the underlying resource, exposed
//! to contracts as [`Config::id`]. A [`WeakConfig`] never extends the
//! resource's lifetime and can be upgraded back to an owning handle only
//! while some strong holder remains.

use vstd::prelude::*;
use crate::res::SharedRes;
use crate::res::WeakRes;
use crate::res::res_id;
use crate::res::weak_id;
use crate::settings::ConstructionError;
use crate::settings::QuicSettings;
use crate::settings::key_ok;
use crate::settings::opt_path_view;

verus! {

/// An owning, reference-counted handle to one constructed configuration.
/// Dropping the last owning handle destroys the resource.
pub struct Config {
    res: SharedRes,
}

/// A non-owning handle to the resource of some [`Config`].
pub struct WeakConfig {
    weak: WeakRes,
}

impl Config {
    /// The identity of the underlying resource: two handles with the same
    /// identity own the same construction.
    pub closed spec fn id(&self) -> int {
        res_id(self.res)
    }

    /// Wraps a freshly shared resource in an owning handle.
    pub(crate) fn from_res(res: SharedRes) -> (c: Config)
        ensures
            c.id() == res_id(res),
    {
        Config { res }
    }

    /// Construct a configuration from a certificate path. If no path is
    /// provided, peers will not be verified. Succeeds iff the key can be
    /// built at all; no caching happens here, so the handle returned is
    /// the sole owner of a fresh resource.
    pub fn from_cert_path(cert_path: Option<&str>) -> (r: Result<Config, ConstructionError>)
        ensures
            r is Ok <==> key_ok(opt_path_view(cert_path)),
    {
        match QuicSettings::build(cert_path) {
            Ok(settings) => Ok(Config { res: SharedRes::new(settings) }),
            Err(e) => Err(e),
        }
    }

    /// A non-owning handle to the same resource.
    pub fn to_weak(&self) -> (w: WeakConfig)
        ensures
            w.id() == self.id(),
    {
        WeakConfig { weak: self.res.downgrade() }
    }

    /// Upgrades a weak handle, returning an owning handle to the same
    /// resource while it is still alive.
    pub fn from_weak(weak: &WeakConfig) -> (r: Option<Config>)
        ensures
            r matches Some(c) ==> c.id() == weak.id(),
    {
        weak.upgrade()
    }

    /// How many owning handles to this resource exist at the instant of
    /// the call; at least this one.
    pub fn strong_count(&self) -> (n: usize)
        ensures
            n >= 1,
    {
        self.res.strong_count()
    }

    /// Exclusive access to the underlying configuration for the duration
    /// of the call, released on every exit path.
    pub fn take<R, F: FnOnce(&mut QuicSettings) -> R>(&self, f: F) -> R {
        self.res.lock_with(f)
    }
}

impl Clone for Config {
    /// The clone owns the same resource as the original.
    fn clone(&self) -> (r: Self)
        ensures
            r.id() == self.id(),
    {
        Config { res: self.res.share() }
    }
}

impl Clone for WeakConfig {
    /// The clone points at the same resource as the original.
    fn clone(&self) -> (r: Self)
        ensures
            r.id() == self.id(),
    {
        WeakConfig { weak: self.weak.share() }
    }
}

impl WeakConfig {
    /// The identity of the resource this handle points at.
    pub closed spec fn id(&self) -> int {
        weak_id(self.weak)
    }

    /// An owning handle to the same resource, while at least one strong
    /// holder exists at the instant of the call; `None` once the resource
    /// has been destroyed.
    pub fn upgrade(&self) -> (r: Option<Config>)
        ensures
            r matches Some(c) ==> c.id() == self.id(),
    {
        match self.weak.upgrade() {
            Some(res) => Some(Config { res }),
            None => None,
        }
    }

    /// How many owning handles to the resource exist at the instant of
    /// the call; zero once it has been destroyed.
    pub fn strong_count(&self) -> usize {
        self.weak.strong_count()
    }
}

} // verus!
