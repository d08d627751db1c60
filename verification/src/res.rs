//! Shared ownership of one constructed configuration.
//!
//! A constructed configuration lives on the heap behind a thread-safe
//! reference count and a per-resource lock. [`SharedRes`] is a strong,
//! owning reference; [`WeakRes`] is a non-owning one. Verification treats
//! both as opaque and reasons only about which underlying resource a
//! reference points at, through the names [`res_id`] and [`weak_id`]:
//! the reference count and the resource's contents change over time and
//! are claimed of no contract here.

use vstd::prelude::*;
use std::sync::{Arc, Mutex, Weak};
use crate::settings::QuicSettings;

verus! {

/// A strong, owning reference to one heap-resident configuration, shared
/// behind a thread-safe reference count and a per-resource lock.
///
/// Held opaquely: `std::sync::Mutex` and `std::sync::Weak` cannot be
/// declared to the verifier, so the operations the cache needs are exposed
/// one `std` function at a time below.
#[verifier::external_body]
pub struct SharedRes {
    ptr: Arc<Mutex<QuicSettings>>,
}

/// A non-owning reference to the resource a [`SharedRes`] owns; never
/// extends its lifetime.
#[verifier::external_body]
pub struct WeakRes {
    ptr: Weak<Mutex<QuicSettings>>,
}

/// The identity of the heap allocation a strong reference points at.
pub uninterp spec fn res_id(r: SharedRes) -> int;

/// The identity of the heap allocation a weak reference points at.
pub uninterp spec fn weak_id(w: WeakRes) -> int;

impl SharedRes {
    /// Places a freshly constructed configuration on the heap under a new
    /// reference count. Relies on `Arc::new`, around the `Mutex` the
    /// per-resource lock lives in.
    #[verifier::external_body]
    pub fn new(settings: QuicSettings) -> SharedRes {
        SharedRes { ptr: Arc::new(Mutex::new(settings)) }
    }

    /// Relies on `Arc::clone`: the clone points at the same allocation and
    /// increments its strong count.
    #[verifier::external_body]
    pub fn share(&self) -> (r: SharedRes)
        ensures
            res_id(r) == res_id(*self),
    {
        SharedRes { ptr: Arc::clone(&self.ptr) }
    }

    /// Relies on `Arc::downgrade`: the weak reference points at the same
    /// allocation and does not keep it alive.
    #[verifier::external_body]
    pub fn downgrade(&self) -> (w: WeakRes)
        ensures
            weak_id(w) == res_id(*self),
    {
        WeakRes { ptr: Arc::downgrade(&self.ptr) }
    }

    /// Relies on `Arc::strong_count`: the count includes this reference,
    /// so it is at least one. The exact value depends on what other
    /// holders exist at the instant of the call.
    #[verifier::external_body]
    pub fn strong_count(&self) -> (n: usize)
        ensures
            n >= 1,
    {
        Arc::strong_count(&self.ptr)
    }

    /// Scoped exclusive access to the underlying configuration. Relies on
    /// `Mutex::lock`, whose guard is released on every exit path; the lock
    /// is never poisoned because no holder panics while using it.
    #[verifier::external_body]
    pub fn lock_with<R, F: FnOnce(&mut QuicSettings) -> R>(&self, f: F) -> R {
        f(&mut self.ptr.lock().unwrap())
    }
}

impl WeakRes {
    /// Relies on `Weak::clone`: the clone points at the same allocation
    /// and, like the original, does not keep it alive.
    #[verifier::external_body]
    pub fn share(&self) -> (r: WeakRes)
        ensures
            weak_id(r) == weak_id(*self),
    {
        WeakRes { ptr: Weak::clone(&self.ptr) }
    }

    /// Relies on `Weak::upgrade`: it returns a strong reference to the
    /// same allocation while at least one strong reference exists at the
    /// instant of the call, and `None` once the resource is destroyed.
    #[verifier::external_body]
    pub fn upgrade(&self) -> (r: Option<SharedRes>)
        ensures
            r matches Some(s) ==> res_id(s) == weak_id(*self),
    {
        self.ptr.upgrade().map(|ptr| SharedRes { ptr })
    }

    /// Relies on `Weak::strong_count`: how many strong references to the
    /// allocation exist at the instant of the call; zero once the resource
    /// is destroyed.
    #[verifier::external_body]
    pub fn strong_count(&self) -> usize {
        self.ptr.strong_count()
    }
}

} // verus!
