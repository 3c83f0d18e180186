//! What is wrong with a configuration, said of its fields.

use crate::config::{
    Config, ConfigFaultView, InsightConfig, config_fault, fault_said, files_of, plain_http,
};
use crate::startup::settings_match;
use crate::text::decimal;
use crate::watch::WatchSettings;
use vstd::prelude::*;

verus! {

/// Whether an address says how to reach it.
pub open spec fn is_reachable(url: Seq<char>) -> bool {
    "http://"@.is_prefix_of(url) || "https://"@.is_prefix_of(url)
}

/// A configuration is taken exactly where every address that the bot connects
/// to says how to reach it, and Sonarr is configured whole or not at all.
pub proof fn law_a_configuration_is_taken(config: Config)
    ensures
        config_fault(config) is None <==> {
            &&& is_reachable(config.authentik_url@)
            &&& is_reachable(config.seerr_url@)
            &&& config.insight matches Some(insight) ==> {
                &&& is_reachable(insight.radarr_url@)
                &&& insight.sonarr_url is Some <==> insight.sonarr_key_file is Some
                &&& insight.sonarr_url matches Some(url) ==> is_reachable(url@)
            }
        },
{
}

/// The address that is wrong is the one that is named, by its field and as it
/// was written.
pub proof fn law_the_wrong_address_is_named(config: Config, field: Seq<char>, value: Seq<char>)
    requires
        config_fault(config) == Some(ConfigFaultView::NoScheme { field, value }),
    ensures
        !is_reachable(value),
        ({
            ||| field == "authentik_url"@ && value == config.authentik_url@
            ||| field == "seerr_url"@ && value == config.seerr_url@
            ||| config.insight matches Some(insight) && field == "insight.radarr_url"@ && value
                == insight.radarr_url@
            ||| config.insight matches Some(insight) && (insight.sonarr_url matches Some(url)
                && field == "insight.sonarr_url"@ && value == url@)
        }),
{
}

/// Whether one of the endpoints of a configuration has a field and an
/// address.
pub open spec fn has_endpoint(config: Config, field: Seq<char>, url: Seq<char>) -> bool {
    ||| field == "authentik_url"@ && url == config.authentik_url@
    ||| field == "seerr_url"@ && url == config.seerr_url@
    ||| config.insight matches Some(insight) && field == "insight.radarr_url"@ && url
        == insight.radarr_url@
    ||| config.insight matches Some(insight) && (insight.sonarr_url matches Some(sonarr) && field
        == "insight.sonarr_url"@ && url == sonarr@)
}

/// An endpoint is warned about exactly where it is reached in the clear.
pub proof fn law_what_is_in_the_clear_is_warned_about(
    config: Config,
    field: Seq<char>,
    url: Seq<char>,
)
    ensures
        plain_http(config).contains((field, url)) <==> has_endpoint(config, field, url)
            && "http://"@.is_prefix_of(url),
{
    let list = plain_http(config);
    let pair = (field, url);
    let own = crate::config::plain("authentik_url"@, config.authentik_url@)
        + crate::config::plain("seerr_url"@, config.seerr_url@);
    lemma_in_either(
        crate::config::plain("authentik_url"@, config.authentik_url@),
        crate::config::plain("seerr_url"@, config.seerr_url@),
        pair,
    );
    lemma_plain("authentik_url"@, config.authentik_url@, pair);
    lemma_plain("seerr_url"@, config.seerr_url@, pair);
    if let Some(insight) = config.insight {
        let radarr = crate::config::plain("insight.radarr_url"@, insight.radarr_url@);
        lemma_in_either(own, radarr, pair);
        lemma_plain("insight.radarr_url"@, insight.radarr_url@, pair);
        if let Some(sonarr) = insight.sonarr_url {
            lemma_in_either(
                own + radarr,
                crate::config::plain("insight.sonarr_url"@, sonarr@),
                pair,
            );
            lemma_plain("insight.sonarr_url"@, sonarr@, pair);
        }
    }
}

proof fn lemma_plain(field: Seq<char>, url: Seq<char>, pair: (Seq<char>, Seq<char>))
    ensures
        crate::config::plain(field, url).contains(pair) <==> pair == (field, url)
            && "http://"@.is_prefix_of(url),
{
    let list = crate::config::plain(field, url);
    if "http://"@.is_prefix_of(url) {
        assert(list[0] == (field, url));
    }
}

proof fn lemma_in_either<T>(a: Seq<T>, b: Seq<T>, x: T)
    ensures
        (a + b).contains(x) <==> a.contains(x) || b.contains(x),
{
    if a.contains(x) {
        let i = choose|i: int| 0 <= i < a.len() && a[i] == x;
        assert((a + b)[i] == x);
    }
    if b.contains(x) {
        let i = choose|i: int| 0 <= i < b.len() && b[i] == x;
        assert((a + b)[a.len() + i] == x);
    }
    if (a + b).contains(x) {
        let i = choose|i: int| 0 <= i < (a + b).len() && (a + b)[i] == x;
        if i < a.len() {
            assert(a[i] == x);
        } else {
            assert(b[i - a.len()] == x);
        }
    }
}

/// Every credential file is read, those of Radarr and Sonarr first where they
/// are configured, and each in its own place.
pub proof fn law_every_credential_has_its_place(config: Config)
    ensures
        ({
            let files = files_of(config);
            let n = files.len() - 4;
            &&& n == (match config.insight {
                None => 0int,
                Some(insight) => if insight.sonarr_key_file is Some {
                    2
                } else {
                    1
                },
            })
            &&& files[n] == config.signal_account_file@
            &&& files[n + 1] == config.authentik_token_file@
            &&& files[n + 2] == config.seerr_key_file@
            &&& files[n + 3] == config.webhook_token_file@
            &&& config.insight matches Some(insight) ==> files[0] == insight.radarr_key_file@ && (
            insight.sonarr_key_file matches Some(path) ==> files[1] == path@)
        }),
{
}

/// The hours of the configuration are the hours that a wish is given, and the
/// limit of the configuration is that of the day's searches.
pub proof fn law_the_settings_are_those_configured(
    settings: WatchSettings,
    insight: InsightConfig,
)
    requires
        settings_match(settings, insight),
    ensures
        settings.stall_after.nanos == insight.stall_after_hours * 3_600_000_000_000,
        settings.max_searches_per_day == insight.max_reason_searches_per_day,
        settings.profile_languages == insight.profile_languages,
{
}

/// A deadline that is out of range is named with the longest that there can
/// be, a year.
pub proof fn law_the_longest_deadline_is_a_year(hours: u64)
    ensures
        fault_said(ConfigFaultView::DeadlineOutOfRange { hours }) == "stall_after_hours = "@
            + decimal(hours as nat) + " is out of range: it must be at most "@ + decimal(8760)
            + " (a year)"@,
{
}

} // verus!
