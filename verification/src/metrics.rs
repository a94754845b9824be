//! The metrics snapshot: the payload pushed to the metrics sink each
//! cycle.
//!
//! The snapshot is derived state, computed fresh every cycle and never
//! stored.  Which optional fields it carries depends on the session
//! status and on what this cycle computed; `build_snapshot` states the
//! presence rules exactly.

use vstd::prelude::*;

use crate::events::RecentDonator;
use crate::ranker::TopChatter;
use crate::status::ScraperStatus;

verus! {

/// One point-in-time metrics payload.
pub struct MetricsSnapshot {
    pub status: ScraperStatus,
    pub created_at: String,
    pub video_title: Option<String>,
    pub channel_name: Option<String>,
    pub skip_langs: Option<Vec<String>>,
    pub messages_in_last_interval: usize,
    pub total_messages: usize,
    pub top_chatters: Option<Vec<TopChatter>>,
    pub recent_donations: Option<Vec<RecentDonator>>,
}

/// Assembles one snapshot, applying the presence rules:
///
/// - `skip_langs` is carried only while `Idle`;
/// - `video_title` and `channel_name` are carried only while `Idle` or
///   `Running`, and only if known;
/// - `top_chatters` is carried only when this cycle recomputed it and it
///   is non-empty;
/// - `recent_donations` is carried only when non-empty;
/// - status, the creation timestamp and the two message counters are
///   always carried.
pub fn build_snapshot(
    status: ScraperStatus,
    created_at: String,
    video_title: Option<String>,
    channel_name: Option<String>,
    skip_langs: Vec<String>,
    messages_in_last_interval: usize,
    total_messages: usize,
    top_chatters: Vec<TopChatter>,
    recent_donations: Vec<RecentDonator>,
) -> (snap: MetricsSnapshot)
    ensures
        snap.status == status,
        snap.created_at == created_at,
        snap.messages_in_last_interval == messages_in_last_interval,
        snap.total_messages == total_messages,
        snap.skip_langs == if status is Idle {
            Some(skip_langs)
        } else {
            None::<Vec<String>>
        },
        snap.video_title == if status is Idle || status is Running {
            video_title
        } else {
            None::<String>
        },
        snap.channel_name == if status is Idle || status is Running {
            channel_name
        } else {
            None::<String>
        },
        snap.top_chatters == if top_chatters@.len() > 0 {
            Some(top_chatters)
        } else {
            None::<Vec<TopChatter>>
        },
        snap.recent_donations == if recent_donations@.len() > 0 {
            Some(recent_donations)
        } else {
            None::<Vec<RecentDonator>>
        },
{
    let in_setup = match status {
        ScraperStatus::Idle => true,
        _ => false,
    };
    let announcing = match status {
        ScraperStatus::Idle => true,
        ScraperStatus::Running => true,
        _ => false,
    };
    MetricsSnapshot {
        status,
        created_at,
        video_title: if announcing {
            video_title
        } else {
            None
        },
        channel_name: if announcing {
            channel_name
        } else {
            None
        },
        skip_langs: if in_setup {
            Some(skip_langs)
        } else {
            None
        },
        messages_in_last_interval,
        total_messages,
        top_chatters: if top_chatters.len() > 0 {
            Some(top_chatters)
        } else {
            None
        },
        recent_donations: if recent_donations.len() > 0 {
            Some(recent_donations)
        } else {
            None
        },
    }
}

} // verus!
