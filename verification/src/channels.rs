//! Backend-A channel lookup: the decisions behind the idempotent
//! container and channel creation, over a plain model of what the
//! backend reports.

use vstd::prelude::*;

use crate::names::{unicode_lower_of, unicode_lowercase};
use crate::strutil::str_eq;

verus! {

/// What kind of channel the backend reports.
#[derive(Clone, Copy, PartialEq, Eq, Structural, Debug)]
pub enum ChannelKind {
    /// A container of channels (folders map to these).
    Category,
    /// An ordinary text channel (files map to these).
    Text,
    /// Anything else the backend may hold.
    Other,
}

/// One channel as the backend reports it.
pub struct ChannelInfo {
    /// The channel's id.
    pub id: u64,
    /// The channel's name.
    pub name: String,
    /// What kind of channel it is.
    pub kind: ChannelKind,
    /// The container it sits in, if any.
    pub parent_id: Option<u64>,
}

/// Whether a channel is the container a sanitized name addresses: its
/// case-folded name equals the sanitized name.
pub open spec fn spec_is_category(c: ChannelInfo, safe: Seq<char>) -> bool {
    c.kind is Category && unicode_lower_of(c.name@) == safe
}

/// Whether a channel is the text channel a sanitized name addresses,
/// optionally inside a given container.
pub open spec fn spec_is_channel(c: ChannelInfo, safe: Seq<char>, category: Option<u64>) -> bool {
    &&& c.kind is Text
    &&& unicode_lower_of(c.name@) == safe
    &&& (category is None || c.parent_id == category)
}

/// Find a container whose lowercased name equals the sanitized name, so
/// that creation is idempotent: an existing container is reused.
pub fn find_category(channels: &Vec<ChannelInfo>, safe: &str) -> (r: Option<usize>)
    ensures
        r is Some ==> r->0 < channels@.len() && spec_is_category(channels@[r->0 as int], safe@),
        r is None ==> forall|i: int|
            0 <= i < channels@.len() ==> !spec_is_category(#[trigger] channels@[i], safe@),
{
    let n = channels.len();
    let mut i: usize = 0;
    while i < n
        invariant
            i <= n,
            n == channels@.len(),
            forall|j: int| 0 <= j < i ==> !spec_is_category(#[trigger] channels@[j], safe@),
        decreases n - i,
    {
        let is_cat = match channels[i].kind {
            ChannelKind::Category => true,
            _ => false,
        };
        if is_cat {
            let lowered = unicode_lowercase(channels[i].name.as_str());
            if str_eq(lowered.as_str(), safe) {
                return Some(i);
            }
        }
        i = i + 1;
    }
    None
}

/// Find a text channel whose lowercased name equals the sanitized name,
/// inside the given container if one is asked for.
pub fn find_channel(channels: &Vec<ChannelInfo>, safe: &str, category: Option<u64>) -> (r: Option<
    usize,
>)
    ensures
        r is Some ==> r->0 < channels@.len() && spec_is_channel(
            channels@[r->0 as int],
            safe@,
            category,
        ),
        r is None ==> forall|i: int|
            0 <= i < channels@.len() ==> !spec_is_channel(#[trigger] channels@[i], safe@, category),
{
    let n = channels.len();
    let mut i: usize = 0;
    while i < n
        invariant
            i <= n,
            n == channels@.len(),
            forall|j: int|
                0 <= j < i ==> !spec_is_channel(#[trigger] channels@[j], safe@, category),
        decreases n - i,
    {
        let is_text = match channels[i].kind {
            ChannelKind::Text => true,
            _ => false,
        };
        let parent_ok = match category {
            None => true,
            Some(cat) => match channels[i].parent_id {
                Some(p) => p == cat,
                None => false,
            },
        };
        if is_text && parent_ok {
            let lowered = unicode_lowercase(channels[i].name.as_str());
            if str_eq(lowered.as_str(), safe) {
                return Some(i);
            }
        }
        i = i + 1;
    }
    None
}

/// Whether the container still holds any channel; an occupied container
/// must not be deleted.
pub fn category_has_children(channels: &Vec<ChannelInfo>, category_id: u64) -> (r: bool)
    ensures
        r == (exists|i: int|
            0 <= i < channels@.len() && (#[trigger] channels@[i]).parent_id == Some(category_id)),
{
    let n = channels.len();
    let mut i: usize = 0;
    while i < n
        invariant
            i <= n,
            n == channels@.len(),
            forall|j: int| 0 <= j < i ==> (#[trigger] channels@[j]).parent_id != Some(category_id),
        decreases n - i,
    {
        let hit = match channels[i].parent_id {
            Some(p) => p == category_id,
            None => false,
        };
        if hit {
            return true;
        }
        i = i + 1;
    }
    false
}


} // verus!
