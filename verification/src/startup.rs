//! What is decided once, when the bot starts.

use crate::config::{ConfigFault, ConfigFaultView, InsightConfig, MAX_STALL_AFTER_HOURS};
use crate::i18n::Catalogue;
use crate::moment::{NANOS_PER_HOUR, Span};
use crate::notices::Notices;
use crate::watch::{WatchSettings, Watcher};
use vstd::prelude::*;

verus! {

/// Whether the settings of the watcher are those of a configuration.
pub open spec fn settings_match(settings: WatchSettings, insight: InsightConfig) -> bool {
    &&& settings.stall_after.nanos == insight.stall_after_hours * NANOS_PER_HOUR
    &&& settings.max_searches_per_day == insight.max_reason_searches_per_day
    &&& settings.notices_file == insight.notices_file
    &&& settings.profile_languages == insight.profile_languages
    &&& settings.retry_failed_after is None
    &&& settings.refresh_reason_after is None
}

/// The settings of the watcher. A deadline of more than a year is refused by
/// name.
pub fn watch_settings(insight: InsightConfig) -> (r: Result<WatchSettings, ConfigFault>)
    ensures
        match r {
            Ok(settings) => insight.stall_after_hours <= MAX_STALL_AFTER_HOURS && settings_match(
                settings,
                insight,
            ),
            Err(fault) => insight.stall_after_hours > MAX_STALL_AFTER_HOURS && fault@ == (
            ConfigFaultView::DeadlineOutOfRange { hours: insight.stall_after_hours }),
        },
{
    let hours: u64 = insight.stall_after_hours;
    if hours > MAX_STALL_AFTER_HOURS {
        return Err(ConfigFault::DeadlineOutOfRange { hours });
    }
    Ok(
        WatchSettings {
            stall_after: Span::hours(hours as i64),
            max_searches_per_day: insight.max_reason_searches_per_day,
            notices_file: insight.notices_file,
            profile_languages: insight.profile_languages,
            retry_failed_after: None,
            refresh_reason_after: None,
        },
    )
}

/// What access to Radarr and Sonarr adds: the record of what was told, and the
/// watcher. They are there together or not at all: a record that cannot be
/// read must never be replaced by an empty one, which would tell everybody
/// about every wish all over again.
#[derive(Debug)]
pub struct InsightParts {
    pub notices: Option<Notices>,
    pub watcher: Option<Watcher>,
}

/// Assembles the watcher, given the record if it could be read. It may search
/// only where the operator has switched that on.
pub fn insight_parts(
    insight: InsightConfig,
    notices: Option<Notices>,
    catalogue: Catalogue,
) -> (r: Result<InsightParts, ConfigFault>)
    ensures
        match r {
            Ok(parts) => {
                &&& insight.stall_after_hours <= MAX_STALL_AFTER_HOURS
                &&& parts.notices == notices
                &&& match parts.watcher {
                    Some(watcher) => {
                        &&& notices is Some
                        &&& watcher.catalogue == catalogue
                        &&& watcher.search == insight.reason_search
                        &&& settings_match(watcher.settings, insight)
                    },
                    None => notices is None,
                }
            },
            Err(fault) => insight.stall_after_hours > MAX_STALL_AFTER_HOURS && fault@ == (
            ConfigFaultView::DeadlineOutOfRange { hours: insight.stall_after_hours }),
        },
{
    let search = insight.reason_search;
    match watch_settings(insight) {
        Ok(settings) => {
            let watcher = if notices.is_some() {
                Some(Watcher { catalogue, settings, search })
            } else {
                None
            };
            Ok(InsightParts { notices, watcher })
        },
        Err(fault) => Err(fault),
    }
}

/// What to do about a socket that is waited for.
#[derive(Clone, Copy, Debug, PartialEq, Eq, Structural)]
pub enum SocketStep {
    /// It is there.
    Go,
    /// Look again after this many milliseconds.
    LookAgain { after: u64 },
    /// It did not appear in time.
    GiveUp,
}

/// How long to wait before looking again, in milliseconds.
pub const SOCKET_POLL: u64 = 500;

/// How long to wait for the socket, in milliseconds.
pub const SOCKET_LIMIT: u64 = 20_000;

/// What to do about a socket after waiting for a while: signal-cli creates it
/// and starts alongside the bot, so waiting is right, and waiting for ever is
/// not. Times are in milliseconds.
pub fn socket_step(exists: bool, waited: u64, limit: u64) -> (r: SocketStep)
    ensures
        r == (if exists {
            SocketStep::Go
        } else if waited >= limit {
            SocketStep::GiveUp
        } else {
            SocketStep::LookAgain { after: SOCKET_POLL }
        }),
{
    if exists {
        SocketStep::Go
    } else if waited >= limit {
        SocketStep::GiveUp
    } else {
        SocketStep::LookAgain { after: SOCKET_POLL }
    }
}

} // verus!
