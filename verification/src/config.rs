//! Backend and UI settings, the saved-URL list and the HTTPS migration of
//! stored URLs.
use vstd::prelude::*;
use crate::text::{chars_of, eq_str, push_str, push_string, starts_with, starts_with_str};
use crate::url_validator::{
    error_message, spec_is_localhost, spec_is_valid, spec_suggest_https, spec_validate, views,
    UrlValidator,
};

verus! {

/// Most URLs the saved list keeps.
pub const MAX_SAVED_URLS: usize = 10;

/// Information about a single URL that was migrated.
#[derive(Debug, Clone)]
pub struct MigratedUrl {
    /// The URL before migration.
    pub original: String,
    /// The URL after conversion to HTTPS.
    pub migrated: String,
    /// Where in the configuration the URL was found.
    pub location: String,
}

/// Outcome of the HTTPS migration of a configuration.
#[derive(Debug, Clone)]
pub struct MigrationResult {
    /// Whether any URL was migrated.
    pub migration_performed: bool,
    /// Whether a backup of the configuration file was (to be) made.
    pub backup_created: bool,
    /// The URLs that were migrated, in the order met.
    pub migrated_urls: Vec<MigratedUrl>,
}

impl MigrationResult {
    /// An empty result: nothing migrated, no backup.
    pub fn new() -> (r: Self)
        ensures
            !r.migration_performed,
            !r.backup_created,
            r.migrated_urls@.len() == 0,
    {
        MigrationResult {
            migration_performed: false,
            backup_created: false,
            migrated_urls: Vec::new(),
        }
    }
}

/// Connection settings of the backend.
#[derive(Debug, Clone)]
pub struct BackendSettings {
    pub url: String,
    pub ollama_url: String,
    pub timeout_seconds: u64,
    pub saved_urls: Vec<String>,
}

/// The saved list after `url` is added to `saved`.
pub open spec fn spec_add_saved(saved: Seq<Seq<char>>, url: Seq<char>) -> Seq<Seq<char>> {
    if !spec_is_valid(url) || spec_is_localhost(url) || saved.contains(url) {
        saved
    } else if saved.len() + 1 > MAX_SAVED_URLS {
        seq![url].add(saved).take(MAX_SAVED_URLS as int)
    } else {
        seq![url].add(saved)
    }
}

/// The saved list without any copy of `url`.
pub open spec fn spec_remove_saved(saved: Seq<Seq<char>>, url: Seq<char>) -> Seq<Seq<char>>
    decreases saved.len(),
{
    if saved.len() == 0 {
        saved
    } else if saved.last() == url {
        spec_remove_saved(saved.drop_last(), url)
    } else {
        spec_remove_saved(saved.drop_last(), url).push(saved.last())
    }
}

/// The message with which an invalid URL is refused.
pub open spec fn save_refusal(url: Seq<char>) -> Seq<char> {
    match spec_validate(url) {
        Err(e) => "Cannot save invalid URL: "@ + error_message(e),
        Ok(()) => Seq::empty(),
    }
}

impl BackendSettings {
    /// The local Ollama endpoint.
    pub const LOCAL_OLLAMA_URL: &'static str = "http://localhost:11434";

    /// Removes the saved URLs that fail validation; returns them, in order.
    pub fn validate_and_filter_saved_urls(&mut self) -> (removed: Vec<String>)
        ensures
            views(final(self).saved_urls@) == crate::url_validator::valid_part(
                views(old(self).saved_urls@),
            ),
            views(removed@) == crate::url_validator::invalid_part(views(old(self).saved_urls@)),
            final(self).url == old(self).url,
            final(self).ollama_url == old(self).ollama_url,
            final(self).timeout_seconds == old(self).timeout_seconds,
    {
        let (valid, invalid) = UrlValidator::filter_valid_urls(self.saved_urls.clone());
        self.saved_urls = valid;
        invalid
    }

    /// Saves a URL at the front of the list: refused when invalid, ignored
    /// when local or already saved; the list keeps its first ten entries.
    pub fn add_saved_url(&mut self, url: String) -> (r: Result<(), String>)
        ensures
            r is Ok <==> spec_is_valid(url@),
            r matches Err(m) ==> m@ == save_refusal(url@),
            views(final(self).saved_urls@) == spec_add_saved(views(old(self).saved_urls@), url@),
            final(self).url == old(self).url,
            final(self).ollama_url == old(self).ollama_url,
            final(self).timeout_seconds == old(self).timeout_seconds,
    {
        match UrlValidator::validate_backend_url(url.as_str()) {
            Err(e) => {
                let mut m = String::new();
                push_str(&mut m, "Cannot save invalid URL: ");
                let text = e.to_string();
                push_string(&mut m, &text);
                return Err(m);
            },
            Ok(()) => {},
        }
        if UrlValidator::is_localhost_url(url.as_str()) {
            return Ok(());
        }
        let found = self.position_of(&url);
        if found.is_none() {
            let ghost old_views = views(self.saved_urls@);
            self.saved_urls.insert(0, url);
            proof {
                assert(views(self.saved_urls@) =~= seq![url@].add(old_views));
            }
            if self.saved_urls.len() > MAX_SAVED_URLS {
                self.saved_urls.truncate(MAX_SAVED_URLS);
                proof {
                    assert(views(self.saved_urls@) =~= seq![url@].add(old_views).take(
                        MAX_SAVED_URLS as int,
                    ));
                }
            }
        }
        Ok(())
    }

    /// The first index at which `url` is saved.
    fn position_of(&self, url: &String) -> (r: Option<usize>)
        ensures
            r is None <==> !views(self.saved_urls@).contains(url@),
            r matches Some(i) ==> i < self.saved_urls@.len() && self.saved_urls@[i as int]@
                == url@,
    {
        let mut i: usize = 0;
        while i < self.saved_urls.len()
            invariant
                i <= self.saved_urls@.len(),
                forall|k: int| 0 <= k < i ==> self.saved_urls@[k]@ != url@,
            decreases self.saved_urls.len() - i,
        {
            if self.saved_urls[i] == *url {
                assert(views(self.saved_urls@)[i as int] == url@);
                return Some(i);
            }
            i = i + 1;
        }
        proof {
            if views(self.saved_urls@).contains(url@) {
                let k = choose|k: int|
                    0 <= k < views(self.saved_urls@).len() && views(self.saved_urls@)[k]
                        == url@;
                assert(self.saved_urls@[k]@ == url@);
            }
        }
        None
    }

    /// Removes every saved copy of `url`.
    pub fn remove_saved_url(&mut self, url: &str)
        ensures
            views(final(self).saved_urls@) == spec_remove_saved(views(old(self).saved_urls@), url@),
            final(self).url == old(self).url,
            final(self).ollama_url == old(self).ollama_url,
            final(self).timeout_seconds == old(self).timeout_seconds,
    {
        let mut kept: Vec<String> = Vec::new();
        let mut i: usize = 0;
        while i < self.saved_urls.len()
            invariant
                i <= self.saved_urls@.len(),
                views(kept@) == spec_remove_saved(views(self.saved_urls@).take(i as int), url@),
            decreases self.saved_urls.len() - i,
        {
            let item = self.saved_urls[i].clone();
            proof {
                assert(views(self.saved_urls@).take(i + 1).drop_last() =~= views(
                    self.saved_urls@,
                ).take(i as int));
            }
            if !crate::text::str_eq(item.as_str(), url) {
                kept.push(item);
                assert(views(kept@) =~= spec_remove_saved(
                    views(self.saved_urls@).take(i as int),
                    url@,
                ).push(item@));
            }
            i = i + 1;
        }
        proof {
            assert(views(self.saved_urls@).take(self.saved_urls@.len() as int) =~= views(
                self.saved_urls@,
            ));
        }
        self.saved_urls = kept;
    }
}

/// What a single URL migrates to: a remote `http://` URL whose HTTPS form
/// validates becomes that form.
pub open spec fn spec_migrate_url(url: Seq<char>) -> Option<Seq<char>> {
    if spec_is_localhost(url) {
        None
    } else if starts_with(url, "http://"@) && spec_is_valid(spec_suggest_https(url)) {
        Some(spec_suggest_https(url))
    } else {
        None
    }
}

/// Migrates one URL from HTTP to HTTPS: `Some` with the HTTPS form when a
/// migration is needed and possible, else `None`.
pub fn migrate_url(url: &str) -> (r: Option<String>)
    ensures
        match r {
            Some(m) => spec_migrate_url(url@) == Some(m@),
            None => spec_migrate_url(url@) is None,
        },
{
    if UrlValidator::is_localhost_url(url) {
        return None;
    }
    let v = chars_of(url);
    if starts_with_str(&v, "http://") {
        let https_url = UrlValidator::suggest_https_url(url);
        if UrlValidator::validate_backend_url(https_url.as_str()).is_ok() {
            return Some(https_url);
        }
    }
    None
}

/// Each URL of the list after migration.
pub open spec fn migrated_list(s: Seq<Seq<char>>) -> Seq<Seq<char>> {
    Seq::new(
        s.len(),
        |i: int|
            match spec_migrate_url(s[i]) {
                Some(m) => m,
                None => s[i],
            },
    )
}

/// Whether some URL of the list migrates.
pub open spec fn any_migrates(s: Seq<Seq<char>>) -> bool {
    exists|i: int| 0 <= i < s.len() && (#[trigger] spec_migrate_url(s[i])) is Some
}

/// One record of the migration: original, migrated form and location.
pub struct MigratedUrlView {
    pub original: Seq<char>,
    pub migrated: Seq<char>,
    pub location: Seq<char>,
}

pub open spec fn migrated_view(m: MigratedUrl) -> MigratedUrlView {
    MigratedUrlView { original: m.original@, migrated: m.migrated@, location: m.location@ }
}

/// The records the saved URLs give, in order.
pub open spec fn saved_records(s: Seq<Seq<char>>) -> Seq<MigratedUrlView>
    decreases s.len(),
{
    if s.len() == 0 {
        Seq::empty()
    } else {
        let rest = saved_records(s.drop_last());
        match spec_migrate_url(s.last()) {
            Some(m) => rest.push(
                MigratedUrlView { original: s.last(), migrated: m, location: "backend.saved_urls"@ },
            ),
            None => rest,
        }
    }
}

/// The record for one named setting, if it migrates.
pub open spec fn setting_record(url: Seq<char>, location: Seq<char>) -> Seq<MigratedUrlView> {
    match spec_migrate_url(url) {
        Some(m) => seq![MigratedUrlView { original: url, migrated: m, location }],
        None => Seq::empty(),
    }
}

/// All records of a migration of `b`, in the order the settings are read.
pub open spec fn migration_records(
    url: Seq<char>,
    ollama_url: Seq<char>,
    saved: Seq<Seq<char>>,
) -> Seq<MigratedUrlView> {
    setting_record(url, "backend.url"@) + setting_record(ollama_url, "backend.ollama_url"@)
        + saved_records(saved)
}

/// The URL after migration.
pub open spec fn migrated_or_same(url: Seq<char>) -> Seq<char> {
    match spec_migrate_url(url) {
        Some(m) => m,
        None => url,
    }
}

/// Migrates the backend URLs of a configuration to HTTPS: the backend URL,
/// the Ollama URL and each saved URL. A backup of the configuration file is
/// due whenever anything migrates, before the first change is written.
pub fn migrate_configuration(backend: &mut BackendSettings) -> (r: MigrationResult)
    ensures
        final(backend).url@ == migrated_or_same(old(backend).url@),
        final(backend).ollama_url@ == migrated_or_same(old(backend).ollama_url@),
        views(final(backend).saved_urls@) == migrated_list(views(old(backend).saved_urls@)),
        final(backend).timeout_seconds == old(backend).timeout_seconds,
        r.migration_performed == (spec_migrate_url(old(backend).url@) is Some
            || spec_migrate_url(old(backend).ollama_url@) is Some || any_migrates(
            views(old(backend).saved_urls@),
        )),
        r.backup_created == r.migration_performed,
        r.migrated_urls@.map_values(|m: MigratedUrl| migrated_view(m)) == migration_records(
            old(backend).url@,
            old(backend).ollama_url@,
            views(old(backend).saved_urls@),
        ),
{
    let mut result = MigrationResult::new();
    let ghost old_url = backend.url@;
    let ghost old_ollama = backend.ollama_url@;
    let ghost old_saved = views(backend.saved_urls@);
    let mut location = String::new();
    push_str(&mut location, "backend.url");
    if let Some(m) = migrate_url(backend.url.as_str()) {
        result.backup_created = true;
        let original = backend.url.clone();
        backend.url = m.clone();
        result.migrated_urls.push(MigratedUrl { original, migrated: m, location });
        result.migration_performed = true;
    }
    proof {
        assert(result.migrated_urls@.map_values(|m: MigratedUrl| migrated_view(m))
            =~= setting_record(old_url, "backend.url"@));
    }
    let mut location = String::new();
    push_str(&mut location, "backend.ollama_url");
    if let Some(m) = migrate_url(backend.ollama_url.as_str()) {
        result.backup_created = true;
        let original = backend.ollama_url.clone();
        backend.ollama_url = m.clone();
        result.migrated_urls.push(MigratedUrl { original, migrated: m, location });
        result.migration_performed = true;
    }
    let ghost head = setting_record(old_url, "backend.url"@) + setting_record(
        old_ollama,
        "backend.ollama_url"@,
    );
    proof {
        assert(result.migrated_urls@.map_values(|m: MigratedUrl| migrated_view(m)) =~= head);
    }
    let mut migrated_saved: Vec<String> = Vec::new();
    let mut any = false;
    let mut i: usize = 0;
    let ghost before = result.migrated_urls@.len();
    while i < backend.saved_urls.len()
        invariant
            i <= backend.saved_urls@.len(),
            views(backend.saved_urls@) == old_saved,
            backend.url@ == migrated_or_same(old_url),
            backend.ollama_url@ == migrated_or_same(old_ollama),
            views(migrated_saved@) == migrated_list(old_saved.take(i as int)),
            any == any_migrates(old_saved.take(i as int)),
            result.migrated_urls@.map_values(|m: MigratedUrl| migrated_view(m)) == head
                + saved_records(old_saved.take(i as int)),
            result.backup_created == result.migration_performed,
            result.migration_performed == (spec_migrate_url(old_url) is Some || spec_migrate_url(
                old_ollama,
            ) is Some || any),
        decreases backend.saved_urls.len() - i,
    {
        let url = backend.saved_urls[i].clone();
        let ghost prev = old_saved.take(i as int);
        let ghost before_map = result.migrated_urls@.map_values(|m: MigratedUrl| migrated_view(m));
        proof {
            assert(old_saved.take(i + 1).drop_last() =~= prev);
            assert(old_saved[i as int] == url@);
            assert(old_saved.take(i + 1).last() == url@);
            assert(migrated_list(old_saved.take(i + 1)) =~= migrated_list(prev).push(
                migrated_or_same(url@),
            ));
        }
        match migrate_url(url.as_str()) {
            Some(m) => {
                result.backup_created = true;
                migrated_saved.push(m.clone());
                let mut location = String::new();
                push_str(&mut location, "backend.saved_urls");
                result.migrated_urls.push(MigratedUrl { original: url, migrated: m, location });
                any = true;
                result.migration_performed = true;
                proof {
                    assert(result.migrated_urls@.map_values(|m: MigratedUrl| migrated_view(m))
                        =~= before_map.push(
                        MigratedUrlView {
                            original: url@,
                            migrated: m@,
                            location: "backend.saved_urls"@,
                        },
                    ));
                    assert(views(migrated_saved@) =~= migrated_list(prev).push(m@));
                    assert(saved_records(old_saved.take(i + 1)) == saved_records(prev).push(
                        MigratedUrlView {
                            original: url@,
                            migrated: m@,
                            location: "backend.saved_urls"@,
                        },
                    ));
                    assert(spec_migrate_url(old_saved.take(i + 1)[i as int]) is Some);
                }
            },
            None => {
                migrated_saved.push(url);
                proof {
                    assert(views(migrated_saved@) =~= migrated_list(prev).push(url@));
                    assert(saved_records(old_saved.take(i + 1)) == saved_records(prev));
                    assert forall|k: int|
                        0 <= k < old_saved.take(i + 1).len() && (#[trigger] spec_migrate_url(
                            old_saved.take(i + 1)[k],
                        )) is Some implies 0 <= k < prev.len() && spec_migrate_url(prev[k]) is Some by {
                        assert(old_saved.take(i + 1)[k] == old_saved[k]);
                        assert(k != i);
                        assert(prev[k] == old_saved[k]);
                    }
                    if any_migrates(prev) {
                        let k = choose|k: int|
                            0 <= k < prev.len() && (#[trigger] spec_migrate_url(prev[k])) is Some;
                        assert(old_saved.take(i + 1)[k] == prev[k]);
                    }
                }
            },
        }
        proof {
            assert(views(migrated_saved@) =~= migrated_list(old_saved.take(i + 1)));
            assert(result.migrated_urls@.map_values(|m: MigratedUrl| migrated_view(m)) =~= head
                + saved_records(old_saved.take(i + 1)));
            if any {
                if spec_migrate_url(url@) is None {
                    let k = choose|k: int|
                        0 <= k < prev.len() && (#[trigger] spec_migrate_url(prev[k])) is Some;
                    assert(old_saved.take(i + 1)[k] == prev[k]);
                } else {
                    assert(old_saved.take(i + 1)[i as int] == url@);
                }
            }
        }
        i = i + 1;
    }
    proof {
        assert(old_saved.take(old_saved.len() as int) =~= old_saved);
    }
    if any {
        backend.saved_urls = migrated_saved;
    } else {
        proof {
            assert forall|k: int| 0 <= k < old_saved.len() implies #[trigger] migrated_list(
                old_saved,
            )[k] == old_saved[k] by {
                if spec_migrate_url(old_saved[k]) is Some {
                    assert(any_migrates(old_saved));
                }
            }
            assert(migrated_list(old_saved) =~= old_saved);
        }
    }
    result
}

/// The lines that announce one migrated URL.
pub open spec fn record_lines(m: MigratedUrlView) -> Seq<Seq<char>> {
    seq![
        "  📍 "@ + m.location,
        "     From: "@ + m.original,
        "     To:   "@ + m.migrated,
        Seq::empty(),
    ]
}

pub open spec fn records_lines(v: Seq<MigratedUrlView>) -> Seq<Seq<char>>
    decreases v.len(),
{
    if v.len() == 0 {
        Seq::empty()
    } else {
        records_lines(v.drop_last()) + record_lines(v.last())
    }
}

pub open spec fn migration_header_lines() -> Seq<Seq<char>> {
    seq![
        Seq::empty(),
        "🔒 HTTPS Migration Performed"@,
        "═══════════════════════════"@,
        Seq::empty(),
        "The following URLs have been automatically migrated to use HTTPS:"@,
        Seq::empty(),
    ]
}

pub open spec fn migration_security_lines() -> Seq<Seq<char>> {
    seq![
        "🛡️  Security Enhancement:"@,
        "   Remote connections now use HTTPS to encrypt your prompts and responses."@,
        "   Localhost URLs (localhost, 127.0.0.1) can still use HTTP for development."@,
        Seq::empty(),
    ]
}

pub open spec fn migration_backup_lines() -> Seq<Seq<char>> {
    seq![
        "💾 Backup Information:"@,
        "   Your original configuration has been backed up."@,
        "   If you need to restore it, look for config.toml.backup.* files."@,
        Seq::empty(),
    ]
}

pub open spec fn migration_next_lines() -> Seq<Seq<char>> {
    seq![
        "ℹ️  What's Next:"@,
        "   • Verify that the migrated HTTPS URLs are accessible"@,
        "   • Update any external references to use HTTPS"@,
        "   • Remove backup files once you've confirmed everything works"@,
        Seq::empty(),
    ]
}

/// The warning that reports a migration: every migrated URL with its
/// location, the reason, the backup when one was made, and what to do next.
pub open spec fn spec_migration_warning(records: Seq<MigratedUrlView>, backup: bool) -> Seq<
    Seq<char>,
> {
    migration_header_lines() + records_lines(records) + migration_security_lines() + (if backup {
        migration_backup_lines()
    } else {
        Seq::empty()
    }) + migration_next_lines()
}

fn push_line(out: &mut Vec<String>, a: &str, b: &str)
    ensures
        views(final(out)@) == views(old(out)@).push(a@ + b@),
{
    let mut s = String::new();
    push_str(&mut s, a);
    push_str(&mut s, b);
    out.push(s);
    assert(views(out@) =~= views(old(out)@).push(a@ + b@));
}

fn push_text(out: &mut Vec<String>, a: &str)
    ensures
        views(final(out)@) == views(old(out)@).push(a@),
{
    out.push(a.to_owned());
    assert(views(out@) =~= views(old(out)@).push(a@));
}

fn push_empty(out: &mut Vec<String>)
    ensures
        views(final(out)@) == views(old(out)@).push(Seq::empty()),
{
    out.push(String::new());
    assert(views(out@) =~= views(old(out)@).push(Seq::empty()));
}

impl MigrationResult {
    /// The lines of the warning that reports this migration.
    pub fn warning_lines(&self) -> (r: Vec<String>)
        ensures
            views(r@) == spec_migration_warning(
                Seq::new(self.migrated_urls@.len(), |i: int| migrated_view(self.migrated_urls@[i])),
                self.backup_created,
            ),
    {
        let ghost recs = Seq::new(
            self.migrated_urls@.len(),
            |i: int| migrated_view(self.migrated_urls@[i]),
        );
        let mut out: Vec<String> = Vec::new();
        push_empty(&mut out);
        push_text(&mut out, "🔒 HTTPS Migration Performed");
        push_text(&mut out, "═══════════════════════════");
        push_empty(&mut out);
        push_text(&mut out, "The following URLs have been automatically migrated to use HTTPS:");
        push_empty(&mut out);
        assert(views(out@) =~= migration_header_lines());
        let mut i: usize = 0;
        while i < self.migrated_urls.len()
            invariant
                i <= self.migrated_urls@.len(),
                recs == Seq::new(
                    self.migrated_urls@.len(),
                    |k: int| migrated_view(self.migrated_urls@[k]),
                ),
                views(out@) == migration_header_lines() + records_lines(
                    recs.subrange(0, i as int),
                ),
            decreases self.migrated_urls.len() - i,
        {
            let m = &self.migrated_urls[i];
            let ghost before = views(out@);
            push_line(&mut out, "  📍 ", m.location.as_str());
            let ghost b1 = views(out@);
            push_line(&mut out, "     From: ", m.original.as_str());
            let ghost b2 = views(out@);
            push_line(&mut out, "     To:   ", m.migrated.as_str());
            let ghost b3 = views(out@);
            push_empty(&mut out);
            proof {
                assert(b1 == before.push("  📍 "@ + m.location@));
                assert(b2 == b1.push("     From: "@ + m.original@));
                assert(b3 == b2.push("     To:   "@ + m.migrated@));
                assert(recs.subrange(0, i + 1).drop_last() =~= recs.subrange(0, i as int));
                assert(recs.subrange(0, i + 1).last() == migrated_view(*m));
                assert(views(out@) =~= before + record_lines(migrated_view(*m)));
            }
            i = i + 1;
        }
        assert(recs.subrange(0, i as int) =~= recs);
        let ghost mid = views(out@);
        push_text(&mut out, "🛡️  Security Enhancement:");
        push_text(&mut out, "   Remote connections now use HTTPS to encrypt your prompts and responses.");
        push_text(&mut out, "   Localhost URLs (localhost, 127.0.0.1) can still use HTTP for development.");
        push_empty(&mut out);
        proof {
            assert(views(out@) =~= mid + migration_security_lines());
        }
        let ghost mid2 = views(out@);
        if self.backup_created {
            push_text(&mut out, "💾 Backup Information:");
            push_text(&mut out, "   Your original configuration has been backed up.");
            push_text(&mut out, "   If you need to restore it, look for config.toml.backup.* files.");
            push_empty(&mut out);
            assert(views(out@) =~= mid2 + migration_backup_lines());
        } else {
            assert(views(out@) =~= mid2 + Seq::<Seq<char>>::empty());
        }
        let ghost mid3 = views(out@);
        push_text(&mut out, "ℹ️  What's Next:");
        push_text(&mut out, "   • Verify that the migrated HTTPS URLs are accessible");
        push_text(&mut out, "   • Update any external references to use HTTPS");
        push_text(&mut out, "   • Remove backup files once you've confirmed everything works");
        push_empty(&mut out);
        assert(views(out@) =~= mid3 + migration_next_lines());
        out
    }
}

/// The warning for URLs removed from the saved list while loading: none
/// when nothing was removed.
pub open spec fn spec_removed_warning(removed: Seq<Seq<char>>) -> Seq<Seq<char>> {
    if removed.len() == 0 {
        Seq::empty()
    } else {
        seq![
            "Warning: Removed "@ + crate::text::decimal(removed.len()) + " invalid URL(s) from saved configuration:"@,
        ] + Seq::new(removed.len(), |i: int| "  - "@ + removed[i]) + seq![
            "Note: Only HTTPS URLs are allowed for remote endpoints. Localhost URLs can use HTTP."@,
        ]
    }
}

/// The lines that report URLs removed from the saved list.
pub fn removed_urls_warning(removed: &Vec<String>) -> (r: Vec<String>)
    ensures
        views(r@) == spec_removed_warning(views(removed@)),
{
    let mut out: Vec<String> = Vec::new();
    if removed.len() == 0 {
        assert(views(out@) =~= Seq::<Seq<char>>::empty());
        return out;
    }
    let digits = crate::text::u64_to_string(removed.len() as u64);
    let mut first = String::new();
    push_str(&mut first, "Warning: Removed ");
    push_string(&mut first, &digits);
    push_str(&mut first, " invalid URL(s) from saved configuration:");
    out.push(first);
    let mut i: usize = 0;
    while i < removed.len()
        invariant
            i <= removed@.len(),
            views(out@) == seq![
                "Warning: Removed "@ + crate::text::decimal(removed@.len() as nat)
                    + " invalid URL(s) from saved configuration:"@,
            ] + Seq::new(i as nat, |k: int| "  - "@ + removed@[k]@),
        decreases removed.len() - i,
    {
        let ghost before = views(out@);
        push_line(&mut out, "  - ", removed[i].as_str());
        i = i + 1;
        assert(views(out@) =~= seq![
            "Warning: Removed "@ + crate::text::decimal(removed@.len() as nat)
                + " invalid URL(s) from saved configuration:"@,
        ] + Seq::new(i as nat, |k: int| "  - "@ + removed@[k]@));
    }
    out.push(
        "Note: Only HTTPS URLs are allowed for remote endpoints. Localhost URLs can use HTTP.".to_owned(),
    );
    proof {
        let vr = views(removed@);
        assert(vr.len() == removed@.len());
        assert(Seq::new(vr.len(), |k: int| "  - "@ + vr[k]) =~= Seq::new(
            removed@.len() as nat,
            |k: int| "  - "@ + removed@[k]@,
        ));
        assert(views(out@) =~= spec_removed_warning(vr));
    }
    out
}


/// No URL occurs twice in the list.
pub open spec fn no_duplicates(s: Seq<Seq<char>>) -> bool {
    forall|i: int, j: int| 0 <= i < j < s.len() ==> s[i] != s[j]
}

/// Every saved URL passes validation and is remote.
pub open spec fn all_savable(s: Seq<Seq<char>>) -> bool {
    forall|i: int| 0 <= i < s.len() ==> spec_is_valid(#[trigger] s[i]) && !spec_is_localhost(s[i])
}

/// The saved list holds no duplicate, at most ten entries, and only valid
/// remote URLs.
pub open spec fn saved_list_ok(s: Seq<Seq<char>>) -> bool {
    no_duplicates(s) && s.len() <= MAX_SAVED_URLS && all_savable(s)
}

/// Adding a URL keeps the saved list free of duplicates, at most ten long,
/// and made of valid remote URLs only.
pub proof fn law_add_keeps_saved_list_ok(saved: Seq<Seq<char>>, url: Seq<char>)
    requires
        saved_list_ok(saved),
    ensures
        saved_list_ok(spec_add_saved(saved, url)),
{
    let r = spec_add_saved(saved, url);
    if !(!spec_is_valid(url) || spec_is_localhost(url) || saved.contains(url)) {
        let full = seq![url].add(saved);
        assert forall|i: int, j: int| 0 <= i < j < full.len() implies full[i] != full[j] by {
            if i == 0 {
                assert(full[j] == saved[j - 1]);
                if full[j] == url {
                    assert(saved.contains(url));
                }
            } else {
                assert(full[i] == saved[i - 1] && full[j] == saved[j - 1]);
            }
        }
        assert forall|i: int| 0 <= i < full.len() implies spec_is_valid(#[trigger] full[i])
            && !spec_is_localhost(full[i]) by {
            if i > 0 {
                assert(full[i] == saved[i - 1]);
            }
        }
        if saved.len() + 1 > MAX_SAVED_URLS {
            assert(r == full.take(MAX_SAVED_URLS as int));
            assert forall|i: int, j: int| 0 <= i < j < r.len() implies r[i] != r[j] by {
                assert(r[i] == full[i] && r[j] == full[j]);
            }
            assert forall|i: int| 0 <= i < r.len() implies spec_is_valid(#[trigger] r[i])
                && !spec_is_localhost(r[i]) by {
                assert(r[i] == full[i]);
            }
        }
    }
}

/// A valid remote URL that is added ends up first in the list, exactly once.
pub proof fn law_added_url_is_first_and_unique(saved: Seq<Seq<char>>, url: Seq<char>)
    requires
        saved_list_ok(saved),
        spec_is_valid(url),
        !spec_is_localhost(url),
    ensures
        spec_add_saved(saved, url).contains(url),
        no_duplicates(spec_add_saved(saved, url)),
        !saved.contains(url) ==> spec_add_saved(saved, url)[0] == url,
{
    law_add_keeps_saved_list_ok(saved, url);
    let r = spec_add_saved(saved, url);
    if saved.contains(url) {
        assert(r == saved);
    } else {
        assert(r[0] == url);
    }
}

/// When the list is full, adding a new URL drops the oldest entry: the new
/// URL comes first, followed by the nine most recent of the others.
pub proof fn law_full_list_drops_oldest(saved: Seq<Seq<char>>, url: Seq<char>)
    requires
        saved.len() == MAX_SAVED_URLS,
        spec_is_valid(url),
        !spec_is_localhost(url),
        !saved.contains(url),
    ensures
        spec_add_saved(saved, url) == seq![url] + saved.take(MAX_SAVED_URLS - 1),
        spec_add_saved(saved, url).len() == MAX_SAVED_URLS,
{
    assert(seq![url].add(saved).take(MAX_SAVED_URLS as int) =~= seq![url] + saved.take(
        MAX_SAVED_URLS - 1,
    ));
}

proof fn lemma_remove_saved(saved: Seq<Seq<char>>, url: Seq<char>)
    ensures
        !spec_remove_saved(saved, url).contains(url),
        spec_remove_saved(saved, url).len() <= saved.len(),
        forall|x: Seq<char>| x != url ==> (saved.contains(x) <==> spec_remove_saved(saved, url).contains(x)),
        !saved.contains(url) ==> spec_remove_saved(saved, url) == saved,
        no_duplicates(saved) && saved.contains(url) ==> spec_remove_saved(saved, url).len() + 1
            == saved.len(),
        no_duplicates(saved) ==> no_duplicates(spec_remove_saved(saved, url)),
    decreases saved.len(),
{
    if saved.len() > 0 {
        let init = saved.drop_last();
        lemma_remove_saved(init, url);
        let ri = spec_remove_saved(init, url);
        assert(saved == init.push(saved.last()));
        assert forall|x: Seq<char>| #[trigger] saved.contains(x) <==> (init.contains(x) || x == saved.last()) by {
            if saved.contains(x) {
                let k = choose|k: int| 0 <= k < saved.len() && saved[k] == x;
                if k < init.len() {
                    assert(init[k] == x);
                }
            }
            if init.contains(x) {
                let k = choose|k: int| 0 <= k < init.len() && init[k] == x;
                assert(saved[k] == x);
            }
            if x == saved.last() {
                assert(saved[saved.len() - 1] == x);
            }
        }
        if no_duplicates(saved) {
            assert(no_duplicates(init)) by {
                assert forall|i: int, j: int| 0 <= i < j < init.len() implies init[i] != init[j] by {
                    assert(init[i] == saved[i] && init[j] == saved[j]);
                }
            }
            assert(!init.contains(saved.last())) by {
                if init.contains(saved.last()) {
                    let k = choose|k: int| 0 <= k < init.len() && init[k] == saved.last();
                    assert(saved[k] == saved[saved.len() - 1]);
                }
            }
        }
        if saved.last() != url {
            let r = ri.push(saved.last());
            assert forall|x: Seq<char>| #[trigger] r.contains(x) <==> (ri.contains(x) || x == saved.last()) by {
                if r.contains(x) {
                    let k = choose|k: int| 0 <= k < r.len() && r[k] == x;
                    if k < ri.len() {
                        assert(ri[k] == x);
                    }
                }
                if ri.contains(x) {
                    let k = choose|k: int| 0 <= k < ri.len() && ri[k] == x;
                    assert(r[k] == x);
                }
                if x == saved.last() {
                    assert(r[r.len() - 1] == x);
                }
            }
            if !saved.contains(url) {
                assert(ri == init);
                assert(r =~= saved);
            }
            if no_duplicates(saved) {
                assert forall|i: int, j: int| 0 <= i < j < r.len() implies r[i] != r[j] by {
                    if j == r.len() - 1 {
                        assert(r[i] == ri[i]);
                        assert(ri.contains(ri[i]));
                    } else {
                        assert(r[i] == ri[i] && r[j] == ri[j]);
                    }
                }
            }
        } else {
            if no_duplicates(saved) && saved.contains(url) {
                assert(!init.contains(url));
                assert(ri == init);
            }
        }
    }
}

/// Removing a URL leaves no copy of it, keeps every other saved URL, and,
/// in a list without duplicates, shortens the list by exactly one entry.
pub proof fn law_remove_deletes_url(saved: Seq<Seq<char>>, url: Seq<char>)
    ensures
        !spec_remove_saved(saved, url).contains(url),
        forall|x: Seq<char>| x != url ==> (saved.contains(x) <==> #[trigger] spec_remove_saved(saved, url).contains(x)),
        no_duplicates(saved) && saved.contains(url) ==> spec_remove_saved(saved, url).len() + 1
            == saved.len(),
{
    lemma_remove_saved(saved, url);
}

/// A migrated URL is an `https://` URL that passes validation.
pub proof fn law_migrated_url_is_valid_https(url: Seq<char>)
    requires
        spec_migrate_url(url) is Some,
    ensures
        spec_is_valid(spec_migrate_url(url).unwrap()),
        starts_with(spec_migrate_url(url).unwrap(), "https://"@),
        starts_with(url, "http://"@),
{
    reveal_strlit("https://");
    let m = spec_migrate_url(url).unwrap();
    assert(m.subrange(0, 8) =~= "https://"@);
}

/// Migration is idempotent: a URL that migrated, or did not, does not
/// migrate again.
pub proof fn law_migration_idempotent(url: Seq<char>)
    ensures
        spec_migrate_url(migrated_or_same(url)) is None,
        migrated_or_same(migrated_or_same(url)) == migrated_or_same(url),
{
    reveal_strlit("https://");
    reveal_strlit("http://");
    if let Some(m) = spec_migrate_url(url) {
        assert(m[4] == 's');
        assert("http://"@[4] == ':');
        assert(!starts_with(m, "http://"@)) by {
            if starts_with(m, "http://"@) {
                assert(m.subrange(0, 7)[4] == m[4]);
            }
        }
    }
}

/// Migrating a whole configuration twice changes nothing the second time.
pub proof fn law_migrate_configuration_idempotent(saved: Seq<Seq<char>>)
    ensures
        !any_migrates(migrated_list(saved)),
        migrated_list(migrated_list(saved)) == migrated_list(saved),
{
    assert forall|i: int| 0 <= i < migrated_list(saved).len() implies (#[trigger] spec_migrate_url(
        migrated_list(saved)[i],
    )) is None by {
        law_migration_idempotent(saved[i]);
    }
    assert forall|i: int| 0 <= i < saved.len() implies #[trigger] migrated_list(migrated_list(saved))[i]
        == migrated_list(saved)[i] by {
        law_migration_idempotent(saved[i]);
    }
    assert(migrated_list(migrated_list(saved)) =~= migrated_list(saved));
}

/// Display settings.
#[derive(Debug, Clone)]
pub struct UISettings {
    pub font_size: u16,
    pub max_chat_history: usize,
    pub theme: String,
}

/// The theme used when the configuration names none.
pub fn default_theme() -> (s: String)
    ensures
        s@ == "Hacker Green"@,
{
    let mut s = String::new();
    push_str(&mut s, "Hacker Green");
    s
}

/// The colour themes of the user interface.
#[derive(Debug, Clone, PartialEq, Eq)]
pub enum ColorTheme {
    HackerGreen,
    CyberBlue,
    NeonPurple,
    MatrixRed,
}

/// The display name of a theme.
pub open spec fn theme_name(t: ColorTheme) -> Seq<char> {
    match t {
        ColorTheme::HackerGreen => "Hacker Green"@,
        ColorTheme::CyberBlue => "Cyber Blue"@,
        ColorTheme::NeonPurple => "Neon Purple"@,
        ColorTheme::MatrixRed => "Matrix Red"@,
    }
}

/// The theme a name selects; any unknown name selects Hacker Green.
pub open spec fn theme_from_name(s: Seq<char>) -> ColorTheme {
    if s == "Cyber Blue"@ {
        ColorTheme::CyberBlue
    } else if s == "Neon Purple"@ {
        ColorTheme::NeonPurple
    } else if s == "Matrix Red"@ {
        ColorTheme::MatrixRed
    } else {
        ColorTheme::HackerGreen
    }
}

fn string_of(s: &str) -> (r: String)
    ensures
        r@ == s@,
{
    let mut r = String::new();
    push_str(&mut r, s);
    r
}

impl ColorTheme {
    /// The names of all themes, in menu order.
    pub fn all() -> (v: Vec<String>)
        ensures
            views(v@) == seq![
                theme_name(ColorTheme::HackerGreen),
                theme_name(ColorTheme::CyberBlue),
                theme_name(ColorTheme::NeonPurple),
                theme_name(ColorTheme::MatrixRed),
            ],
    {
        let mut v: Vec<String> = Vec::new();
        v.push(string_of("Hacker Green"));
        v.push(string_of("Cyber Blue"));
        v.push(string_of("Neon Purple"));
        v.push(string_of("Matrix Red"));
        assert(views(v@) =~= seq![
            theme_name(ColorTheme::HackerGreen),
            theme_name(ColorTheme::CyberBlue),
            theme_name(ColorTheme::NeonPurple),
            theme_name(ColorTheme::MatrixRed),
        ]);
        v
    }

    /// The theme with the given name; Hacker Green for any other name.
    pub fn from_string(s: &str) -> (t: ColorTheme)
        ensures
            t == theme_from_name(s@),
    {
        let v = chars_of(s);
        if eq_str(&v, "Cyber Blue") {
            ColorTheme::CyberBlue
        } else if eq_str(&v, "Neon Purple") {
            ColorTheme::NeonPurple
        } else if eq_str(&v, "Matrix Red") {
            ColorTheme::MatrixRed
        } else {
            ColorTheme::HackerGreen
        }
    }

    /// The display name of the theme.
    pub fn to_string(&self) -> (s: String)
        ensures
            s@ == theme_name(*self),
    {
        match self {
            ColorTheme::HackerGreen => string_of("Hacker Green"),
            ColorTheme::CyberBlue => string_of("Cyber Blue"),
            ColorTheme::NeonPurple => string_of("Neon Purple"),
            ColorTheme::MatrixRed => string_of("Matrix Red"),
        }
    }
}

/// A remote URL that starts with `http://` migrates to the same URL with
/// `https://` in front of the rest, path and query kept, whenever that
/// form validates; a local URL, or one that does not start with `http://`,
/// does not migrate.
pub proof fn law_http_urls_migrate_to_https(url: Seq<char>)
    ensures
        !spec_is_localhost(url) && starts_with(url, "http://"@) && spec_is_valid(
            "https://"@ + url.skip(7),
        ) ==> spec_migrate_url(url) == Some("https://"@ + url.skip(7)),
        spec_is_localhost(url) || !starts_with(url, "http://"@) ==> spec_migrate_url(url) is None,
{
}

} // verus!
