//! Catalog records of synced items: the slug rule, new records, and updates.

use vstd::prelude::*;
use crate::text::{lowercase, lower_of, push_char};

verus! {

broadcast use vstd::string::group_string_axioms;

/// A synced item as the local catalog lists it.
#[derive(Clone, Debug)]
pub struct LocalGame {
    pub id: String,
    pub name: String,
    pub slug: String,
    pub cover_url: Option<String>,
    pub platform: String,
    pub local_path: String,
    pub sync_enabled: bool,
    pub status: String,
}

/// The fields an update may change; `None` keeps the current value.
#[derive(Clone, Debug)]
pub struct UpdateGameParams {
    pub name: Option<String>,
    pub local_path: Option<String>,
    pub platform: Option<String>,
    pub sync_enabled: Option<bool>,
    pub cover_url: Option<String>,
}

/// Each space of `s` turned into a hyphen.
pub open spec fn hyphenate(s: Seq<char>) -> Seq<char> {
    s.map_values(|c: char| if c == ' ' { '-' } else { c })
}

/// The slug of a name: lowercased, each space turned into a hyphen.
pub open spec fn slug_of(name: Seq<char>) -> Seq<char> {
    hyphenate(lower_of(name))
}

/// The slug of a name.
pub fn slugify(name: &str) -> (r: String)
    ensures
        r@ == slug_of(name@),
{
    let lower = lowercase(name);
    let mut out = String::new();
    for c in it: lower.as_str().chars()
        invariant
            it.seq() == lower@,
            out@ == hyphenate(it.seq().take(it.index() as int)),
    {
        proof {
            assert(it.seq().take(it.index() + 1) =~= it.seq().take(it.index() as int).push(c));
        }
        push_char(&mut out, if c == ' ' { '-' } else { c });
        assert(out@ =~= hyphenate(it.seq().take(it.index() + 1)));
    }
    assert(lower@.take(lower@.len() as int) =~= lower@);
    out
}

/// The option with the same value.
fn copy_opt(o: &Option<String>) -> (r: Option<String>)
    ensures
        r == *o,
{
    match o {
        Some(s) => Some(s.clone()),
        None => None,
    }
}

/// A new catalog record with the given id: sync enabled, idle, no cover,
/// and the slug of its name.
pub fn new_local_game(id: String, name: String, local_path: String, platform: String) -> (r: LocalGame)
    ensures
        r.id == id,
        r.name == name,
        r.slug@ == slug_of(name@),
        r.cover_url is None,
        r.platform == platform,
        r.local_path == local_path,
        r.sync_enabled,
        r.status@ == "idle"@,
{
    let slug = slugify(name.as_str());
    LocalGame {
        id,
        name,
        slug,
        cover_url: None,
        platform,
        local_path,
        sync_enabled: true,
        status: String::from_str("idle"),
    }
}

/// The record after an update: each given field replaces the current one,
/// the slug follows the (new) name, and the id and status stay.
pub fn apply_update(current: &LocalGame, updates: &UpdateGameParams) -> (r: LocalGame)
    ensures
        r.id == current.id,
        r.name == (match updates.name { Some(n) => n, None => current.name }),
        r.slug@ == slug_of(r.name@),
        r.local_path == (match updates.local_path { Some(p) => p, None => current.local_path }),
        r.platform == (match updates.platform { Some(p) => p, None => current.platform }),
        r.sync_enabled == (match updates.sync_enabled { Some(b) => b, None => current.sync_enabled }),
        r.cover_url == (match updates.cover_url { Some(c) => Some(c), None => current.cover_url }),
        r.status == current.status,
{
    let name = match &updates.name {
        Some(n) => n.clone(),
        None => current.name.clone(),
    };
    let slug = slugify(name.as_str());
    let local_path = match &updates.local_path {
        Some(p) => p.clone(),
        None => current.local_path.clone(),
    };
    let platform = match &updates.platform {
        Some(p) => p.clone(),
        None => current.platform.clone(),
    };
    let sync_enabled = match updates.sync_enabled {
        Some(b) => b,
        None => current.sync_enabled,
    };
    let cover_url = match &updates.cover_url {
        Some(c) => Some(c.clone()),
        None => copy_opt(&current.cover_url),
    };
    LocalGame {
        id: current.id.clone(),
        name,
        slug,
        cover_url,
        platform,
        local_path,
        sync_enabled,
        status: current.status.clone(),
    }
}

} // verus!
