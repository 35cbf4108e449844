//! Verified core of a cover-art fetcher: given an artist name, the
//! surrounding program resolves a catalog artist id, lists the artist's
//! albums, upgrades each thumbnail artwork URL to its full-resolution
//! form, and downloads every eligible cover into a per-artist/per-album
//! directory tree.
//!
//! This library holds everything that can be stated and proved: the
//! artwork-URL upgrade transform, file-name sanitization, the
//! artist-match filter, the record pipeline, artist-id resolution and
//! request-URL construction.  Network and filesystem access stay in the
//! unverified front end.

pub mod artwork;
pub mod catalog;
pub mod chars;
pub mod download;
pub mod record;
pub mod sanitize;
