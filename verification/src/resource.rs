//! `Class.getResourceAsStream(String)` — the game's only byte source.
//!
//! The game calls [`Resources`] where the Java calls `getResourceAsStream`;
//! the host decides where the bytes come from. A missing entry returns `None`
//! (Java: a `null` stream) and a present entry returns its complete payload.
use crate::jio::payload;
use crate::strings::strip_prefix_char;
use vstd::prelude::*;

verus! {

/// A provider of jar-resource bytes, standing in for
/// `Class.getResourceAsStream`. Each name stands for one fixed entry, which
/// every request for it returns.
pub trait Resources {
    /// The entry the provider holds under `name`: its bytes, or `None` when
    /// there is no such entry. A provider states its contents by defining
    /// this; the default is the provider that holds nothing. The game sees a
    /// provider only as `&dyn Resources`, where this is opaque: what it is
    /// proved to do is stated over whatever the provider holds. A provider
    /// written outside verified code keeps the default, so for it the
    /// contract below is taken on trust: that it answers each name with one
    /// fixed payload.
    open spec fn entry(&self, name: Seq<char>) -> Option<Seq<u8>> {
        None
    }

    /// The complete bytes of the named entry, or `None` when the entry does
    /// not exist. `name` is passed exactly as the game passes it — with or
    /// without a leading `/`; implementations resolve both against the jar
    /// root via [`normalize_resource_name`].
    fn resource_as_stream(&self, name: &str) -> (r: Option<Vec<u8>>)
        ensures
            payload(r) == self.entry(name@),
    ;
}

/// Resolve a `getResourceAsStream` name to a jar-root-relative path: strip
/// one optional leading `/`.
pub fn normalize_resource_name(name: &str) -> (r: &str)
    ensures
        (name@.len() > 0 && name@[0] == '/') ==> r@ == name@.drop_first(),
        !(name@.len() > 0 && name@[0] == '/') ==> r@ == name@,
{
    match strip_prefix_char(name, '/') {
        Some(rest) => rest,
        None => name,
    }
}

} // verus!
