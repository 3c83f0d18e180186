//! The configuration, and the credentials it points to.

pub mod laws;

use crate::secret::Secret;
use crate::table::Table;
use crate::text::{decimal, decimal_u64, starts_with, trimmed, views};
use vstd::prelude::*;

verus! {

/// How the bot is set up.
#[derive(Debug)]
pub struct Config {
    pub signal_socket: String,
    pub signal_account_file: String,
    pub authentik_url: String,
    pub authentik_token_file: String,
    pub seerr_url: String,
    pub seerr_key_file: String,
    pub webhook_listen: String,
    pub webhook_token_file: String,
    pub state_file: String,
    pub poll_seconds: u64,
    pub media_group: String,
    pub jellyfin_url: String,
    /// Where a person goes to enter their Signal name.
    pub settings_url: String,
    /// Whom to ask when a group is missing.
    pub operator_name: String,
    /// The quality profiles to offer, by name and in this order. By name and
    /// never by number: Radarr and Sonarr count separately. Empty means
    /// whatever Seerr lists.
    pub quality_profiles: Vec<String>,
    /// Access to Radarr and Sonarr. Without it the bot works from Seerr
    /// alone.
    pub insight: Option<InsightConfig>,
}

/// Read-only access to Radarr and Sonarr, for the status and for unasked
/// messages.
#[derive(Debug)]
pub struct InsightConfig {
    pub radarr_url: String,
    pub radarr_key_file: String,
    /// With `sonarr_key_file` a pair: both or neither.
    pub sonarr_url: Option<String>,
    pub sonarr_key_file: Option<String>,
    pub poll_seconds: u64,
    pub stall_after_hours: u64,
    /// Whether the bot may search at the indexers for a reason.
    pub reason_search: bool,
    pub max_reason_searches_per_day: u32,
    pub notices_file: String,
    /// Profile name to the languages that profile wants.
    pub profile_languages: Table<String, Vec<String>>,
}

/// How often Radarr and Sonarr are asked, in seconds, unless it is set.
pub const TEN_MINUTES: u64 = 600;

/// After how many hours a wish counts as stalled, unless it is set.
pub const ONE_DAY: u64 = 24;

/// How many searches a day may cost, unless it is set.
pub const FIVE: u32 = 5;

/// What is wrong with a configuration.
#[derive(Clone, Debug, PartialEq)]
pub enum ConfigFault {
    /// Sonarr's address without its key, or its key without its address.
    HalfOfSonarr,
    /// An address that does not say how to reach it.
    NoScheme { field: String, value: String },
    /// A credential that cannot be read.
    UnreadableSecret { path: String },
    /// A deadline that no wish could ever reach.
    DeadlineOutOfRange { hours: u64 },
}

/// What a [`ConfigFault`] holds.
pub enum ConfigFaultView {
    HalfOfSonarr,
    NoScheme { field: Seq<char>, value: Seq<char> },
    UnreadableSecret { path: Seq<char> },
    DeadlineOutOfRange { hours: u64 },
}

impl View for ConfigFault {
    type V = ConfigFaultView;

    open spec fn view(&self) -> ConfigFaultView {
        match self {
            ConfigFault::HalfOfSonarr => ConfigFaultView::HalfOfSonarr,
            ConfigFault::NoScheme { field, value } => ConfigFaultView::NoScheme {
                field: field@,
                value: value@,
            },
            ConfigFault::UnreadableSecret { path } => ConfigFaultView::UnreadableSecret {
                path: path@,
            },
            ConfigFault::DeadlineOutOfRange { hours } => ConfigFaultView::DeadlineOutOfRange {
                hours: *hours,
            },
        }
    }
}

/// The longest deadline in hours: a year. Nothing sensible sits above it.
pub const MAX_STALL_AFTER_HOURS: u64 = 8760;

/// How std shows a text for debugging: in quotes, with escapes.
pub uninterp spec fn debug_form(text: Seq<char>) -> Seq<char>;

/// Formats a text with std's `{:?}`. The result is a function of the text
/// alone, named [`debug_form`].
#[verifier::external_body]
fn debug_text(text: &str) -> (r: String)
    ensures
        r@ == debug_form(text@),
{
    format!("{text:?}")
}

/// A fault in words.
pub open spec fn fault_said(fault: ConfigFaultView) -> Seq<char> {
    match fault {
        ConfigFaultView::HalfOfSonarr =>
            "insight.sonarr_url and insight.sonarr_key_file must both be set or both be absent"@,
        ConfigFaultView::NoScheme { field, value } => field
            + " must start with http:// or https://, got "@ + debug_form(value),
        ConfigFaultView::UnreadableSecret { path } => "cannot read secret "@ + path,
        ConfigFaultView::DeadlineOutOfRange { hours } => "stall_after_hours = "@
            + decimal(hours as nat) + " is out of range: it must be at most "@
            + decimal(MAX_STALL_AFTER_HOURS as nat) + " (a year)"@,
    }
}

impl ConfigFault {
    /// The fault in words.
    pub fn message(&self) -> (r: String)
        ensures
            r@ == fault_said(self@),
    {
        match self {
            ConfigFault::HalfOfSonarr =>
                "insight.sonarr_url and insight.sonarr_key_file must both be set or both be absent".to_owned(),
            ConfigFault::NoScheme { field, value } => {
                let mut r = field.clone();
                r.append(" must start with http:// or https://, got ");
                r.append(debug_text(value.as_str()).as_str());
                r
            },
            ConfigFault::UnreadableSecret { path } => {
                let mut r = "cannot read secret ".to_owned();
                r.append(path.as_str());
                r
            },
            ConfigFault::DeadlineOutOfRange { hours } => {
                let mut r = "stall_after_hours = ".to_owned();
                r.append(decimal_u64(*hours).as_str());
                r.append(" is out of range: it must be at most ");
                r.append(decimal_u64(MAX_STALL_AFTER_HOURS).as_str());
                r.append(" (a year)");
                r
            },
        }
    }
}

/// Whether an address says how to reach it.
pub open spec fn has_scheme(url: Seq<char>) -> bool {
    "http://"@.is_prefix_of(url) || "https://"@.is_prefix_of(url)
}

/// The fault of an address that does not say how to reach it.
pub open spec fn scheme_fault(field: Seq<char>, url: Seq<char>) -> Option<ConfigFaultView> {
    if has_scheme(url) {
        None
    } else {
        Some(ConfigFaultView::NoScheme { field, value: url })
    }
}

/// The first fault in the access to Radarr and Sonarr.
pub open spec fn insight_fault(insight: InsightConfig) -> Option<ConfigFaultView> {
    if insight.sonarr_url is Some != insight.sonarr_key_file is Some {
        Some(ConfigFaultView::HalfOfSonarr)
    } else if !has_scheme(insight.radarr_url@) {
        scheme_fault("insight.radarr_url"@, insight.radarr_url@)
    } else {
        match insight.sonarr_url {
            Some(url) => scheme_fault("insight.sonarr_url"@, url@),
            None => None,
        }
    }
}

/// The first fault in a configuration. Only addresses that the bot connects
/// to itself are looked at.
pub open spec fn config_fault(config: Config) -> Option<ConfigFaultView> {
    if !has_scheme(config.authentik_url@) {
        scheme_fault("authentik_url"@, config.authentik_url@)
    } else if !has_scheme(config.seerr_url@) {
        scheme_fault("seerr_url"@, config.seerr_url@)
    } else {
        match config.insight {
            Some(insight) => insight_fault(insight),
            None => None,
        }
    }
}

/// An address without a scheme is a mistake and no choice. Plain HTTP is a
/// choice.
fn reject_missing_scheme(field: &str, value: &str) -> (r: Result<(), ConfigFault>)
    ensures
        match r {
            Ok(()) => has_scheme(value@),
            Err(fault) => scheme_fault(field@, value@) == Some(fault@),
        },
{
    if starts_with(value, "http://") || starts_with(value, "https://") {
        Ok(())
    } else {
        Err(ConfigFault::NoScheme { field: field.to_owned(), value: value.to_owned() })
    }
}

fn validate_insight(insight: &InsightConfig) -> (r: Result<(), ConfigFault>)
    ensures
        match r {
            Ok(()) => insight_fault(*insight) is None,
            Err(fault) => insight_fault(*insight) == Some(fault@),
        },
{
    if insight.sonarr_url.is_some() != insight.sonarr_key_file.is_some() {
        return Err(ConfigFault::HalfOfSonarr);
    }
    match reject_missing_scheme("insight.radarr_url", insight.radarr_url.as_str()) {
        Ok(()) => match &insight.sonarr_url {
            Some(url) => reject_missing_scheme("insight.sonarr_url", url.as_str()),
            None => Ok(()),
        },
        Err(fault) => Err(fault),
    }
}

impl Config {
    /// Takes a configuration as it was written, or says what is wrong with
    /// it.
    pub fn load(written: Config) -> (r: Result<Config, ConfigFault>)
        ensures
            match r {
                Ok(config) => config_fault(written) is None && config == written,
                Err(fault) => config_fault(written) == Some(fault@),
            },
    {
        if let Err(fault) = reject_missing_scheme("authentik_url", written.authentik_url.as_str()) {
            return Err(fault);
        }
        if let Err(fault) = reject_missing_scheme("seerr_url", written.seerr_url.as_str()) {
            return Err(fault);
        }
        if let Some(insight) = &written.insight {
            if let Err(fault) = validate_insight(insight) {
                return Err(fault);
            }
        }
        Ok(written)
    }
}

/// An endpoint, if credentials for it cross the network unencrypted.
pub open spec fn plain(field: Seq<char>, url: Seq<char>) -> Seq<(Seq<char>, Seq<char>)> {
    if "http://"@.is_prefix_of(url) {
        seq![(field, url)]
    } else {
        Seq::empty()
    }
}

/// The endpoints whose credentials cross the network unencrypted.
pub open spec fn plain_http(config: Config) -> Seq<(Seq<char>, Seq<char>)> {
    let own = plain("authentik_url"@, config.authentik_url@) + plain(
        "seerr_url"@,
        config.seerr_url@,
    );
    match config.insight {
        Some(insight) => {
            let with_radarr = own + plain("insight.radarr_url"@, insight.radarr_url@);
            match insight.sonarr_url {
                Some(url) => with_radarr + plain("insight.sonarr_url"@, url@),
                None => with_radarr,
            }
        },
        None => own,
    }
}

/// The fields and addresses in a list.
pub open spec fn field_views(list: Seq<(&str, &str)>) -> Seq<(Seq<char>, Seq<char>)> {
    list.map_values(|pair: (&str, &str)| (pair.0@, pair.1@))
}

fn push_plain<'a>(list: &mut Vec<(&'static str, &'a str)>, field: &'static str, url: &'a str)
    ensures
        field_views(final(list)@) == field_views(old(list)@) + plain(field@, url@),
{
    let ghost before = list@;
    if starts_with(url, "http://") {
        list.push((field, url));
    }
    assert(field_views(list@) =~= field_views(before) + plain(field@, url@));
}

/// The endpoints whose credentials cross the network unencrypted, for a
/// warning at the start.
pub fn plain_http_fields<'a>(config: &'a Config) -> (r: Vec<(&'static str, &'a str)>)
    ensures
        field_views(r@) == plain_http(*config),
{
    let mut list: Vec<(&'static str, &'a str)> = Vec::new();
    assert(field_views(list@) =~= Seq::empty());
    push_plain(&mut list, "authentik_url", config.authentik_url.as_str());
    push_plain(&mut list, "seerr_url", config.seerr_url.as_str());
    assert(field_views(list@) =~= plain("authentik_url"@, config.authentik_url@) + plain(
        "seerr_url"@,
        config.seerr_url@,
    ));
    if let Some(insight) = &config.insight {
        push_plain(&mut list, "insight.radarr_url", insight.radarr_url.as_str());
        if let Some(url) = &insight.sonarr_url {
            push_plain(&mut list, "insight.sonarr_url", url.as_str());
        }
    }
    list
}

/// The credentials.
pub struct Secrets {
    pub signal_account: Secret,
    pub authentik_token: Secret,
    pub seerr_key: Secret,
    pub webhook_token: Secret,
    /// There only with access to Radarr.
    pub radarr_key: Option<Secret>,
    /// There only with access to Sonarr.
    pub sonarr_key: Option<Secret>,
}

/// The credential files of Radarr and Sonarr.
pub open spec fn arr_files(config: Config) -> Seq<Seq<char>> {
    match config.insight {
        Some(insight) => match insight.sonarr_key_file {
            Some(path) => seq![insight.radarr_key_file@, path@],
            None => seq![insight.radarr_key_file@],
        },
        None => Seq::empty(),
    }
}

/// The credential files, in the order in which they are read.
pub open spec fn files_of(config: Config) -> Seq<Seq<char>> {
    arr_files(config) + seq![
        config.signal_account_file@,
        config.authentik_token_file@,
        config.seerr_key_file@,
        config.webhook_token_file@,
    ]
}

/// The credential files, in the order in which they are read.
pub fn secret_files(config: &Config) -> (r: Vec<String>)
    ensures
        views(r@) == files_of(*config),
{
    let mut files: Vec<String> = Vec::new();
    if let Some(insight) = &config.insight {
        files.push(insight.radarr_key_file.clone());
        if let Some(path) = &insight.sonarr_key_file {
            files.push(path.clone());
        }
    }
    assert(views(files@) =~= arr_files(*config));
    let ghost first = files@;
    files.push(config.signal_account_file.clone());
    files.push(config.authentik_token_file.clone());
    files.push(config.seerr_key_file.clone());
    files.push(config.webhook_token_file.clone());
    assert(views(files@) =~= views(first) + seq![
        config.signal_account_file@,
        config.authentik_token_file@,
        config.seerr_key_file@,
        config.webhook_token_file@,
    ]);
    files
}

/// Whether `at` is the first file that could not be read.
pub open spec fn first_unread(texts: Seq<Option<String>>, at: int) -> bool {
    &&& 0 <= at < texts.len()
    &&& texts[at] is None
    &&& forall|j: int| 0 <= j < at ==> (#[trigger] texts[j]) is Some
}

/// Whether credentials are what the files hold.
pub open spec fn secrets_match(
    secrets: Secrets,
    config: Config,
    texts: Seq<Option<String>>,
) -> bool {
    let n = arr_files(config).len() as int;
    &&& forall|j: int| 0 <= j < texts.len() ==> (#[trigger] texts[j]) is Some
    &&& secrets.signal_account@ == trimmed(texts[n]->Some_0@)
    &&& secrets.authentik_token@ == trimmed(texts[n + 1]->Some_0@)
    &&& secrets.seerr_key@ == trimmed(texts[n + 2]->Some_0@)
    &&& secrets.webhook_token@ == trimmed(texts[n + 3]->Some_0@)
    &&& match secrets.radarr_key {
        Some(key) => config.insight is Some && key@ == trimmed(texts[0]->Some_0@),
        None => config.insight is None,
    }
    &&& match secrets.sonarr_key {
        Some(key) => n == 2 && key@ == trimmed(texts[1]->Some_0@),
        None => n < 2,
    }
}

fn secret_at(texts: &Vec<Option<String>>, at: usize) -> (r: Secret)
    requires
        at < texts@.len(),
        texts@[at as int] is Some,
    ensures
        r@ == trimmed(texts@[at as int]->Some_0@),
{
    match &texts[at] {
        Some(text) => Secret::from_file_text(text.as_str()),
        None => Secret::from_file_text(""),
    }
}

impl Secrets {
    /// The credentials out of the texts of their files, in the order of
    /// [`secret_files`], nothing for a file that could not be read. The first
    /// such file is named.
    pub fn read(config: &Config, texts: &Vec<Option<String>>) -> (r: Result<Secrets, ConfigFault>)
        requires
            texts@.len() == files_of(*config).len(),
        ensures
            match r {
                Ok(secrets) => secrets_match(secrets, *config, texts@),
                Err(fault) => exists|at: int|
                    {
                        &&& #[trigger] first_unread(texts@, at)
                        &&& fault@ == (ConfigFaultView::UnreadableSecret {
                            path: files_of(*config)[at],
                        })
                    },
            },
    {
        let files = secret_files(config);
        assert(views(files@).len() == files@.len());
        let mut i: usize = 0;
        while i < texts.len()
            invariant
                i <= texts@.len(),
                files@.len() == texts@.len(),
                views(files@) == files_of(*config),
                forall|j: int| 0 <= j < i ==> (#[trigger] texts@[j]) is Some,
            decreases texts@.len() - i,
        {
            if texts[i].is_none() {
                assert(first_unread(texts@, i as int));
                assert(views(files@)[i as int] == files@[i as int]@);
                return Err(ConfigFault::UnreadableSecret { path: files[i].clone() });
            }
            i += 1;
        }
        let mut n: usize = 0;
        let mut radarr_key: Option<Secret> = None;
        let mut sonarr_key: Option<Secret> = None;
        if let Some(insight) = &config.insight {
            radarr_key = Some(secret_at(texts, 0));
            n = 1;
            if insight.sonarr_key_file.is_some() {
                sonarr_key = Some(secret_at(texts, 1));
                n = 2;
            }
        }
        Ok(
            Secrets {
                signal_account: secret_at(texts, n),
                authentik_token: secret_at(texts, n + 1),
                seerr_key: secret_at(texts, n + 2),
                webhook_token: secret_at(texts, n + 3),
                radarr_key,
                sonarr_key,
            },
        )
    }
}

/// Without access to Radarr no key of Radarr or Sonarr is read.
pub proof fn law_no_keys_without_insight(
    secrets: Secrets,
    config: Config,
    texts: Seq<Option<String>>,
)
    requires
        config.insight is None,
        secrets_match(secrets, config, texts),
    ensures
        secrets.radarr_key is None,
        secrets.sonarr_key is None,
        files_of(config).len() == 4,
{
}

/// Plain HTTP is never a fault: an address that is warned about is one that
/// is accepted.
pub proof fn law_plain_http_is_accepted(field: Seq<char>, url: Seq<char>)
    requires
        plain(field, url).len() > 0,
    ensures
        scheme_fault(field, url) is None,
{
}

} // verus!
