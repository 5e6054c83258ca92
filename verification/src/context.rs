use crate::matcher::{
    dedup_firsts, find_matching_app, first_match, resolve_running, resolve_running_apps, views_of,
};
use crate::record::{App, EnumerationError, NoMatchError};
use vstd::prelude::*;

verus! {

/// The application registry context: owner of the cached catalog of
/// discovered applications and of the single-flight refresh flag. Platform
/// enumeration and runtime introspection happen outside; their results are
/// handed in as plain values, and every operation states exactly how it reads
/// or rewrites the state.
pub struct AppInfoContext {
    cached_apps: Vec<App>,
    refreshing: bool,
}

/// How one refresh rewrites the context: the catalog is replaced whole by a
/// successful enumeration and left untouched by a failed one, the error of a
/// failed one is surfaced unchanged, and the refresh flag is clear afterwards
/// on every path.
pub open spec fn refresh_apps_rel(
    pre: AppInfoContext,
    post: AppInfoContext,
    installed: Result<Vec<App>, EnumerationError>,
    outcome: Result<(), EnumerationError>,
) -> bool {
    &&& !post.refreshing_flag()
    &&& match installed {
        Ok(apps) => post.catalog() == apps@ && outcome is Ok,
        Err(e) => post.catalog() == pre.catalog() && (outcome matches Err(e2) && e2 == e),
    }
}

/// How beginning a background refresh rewrites the context: it reports whether
/// it started anything — it does exactly when no refresh was in flight — the
/// flag is up afterwards, and the catalog is untouched.
pub open spec fn begin_refresh_rel(
    pre: AppInfoContext,
    post: AppInfoContext,
    started: bool,
) -> bool {
    &&& started == !pre.refreshing_flag()
    &&& post.refreshing_flag()
    &&& post.catalog() == pre.catalog()
}

impl AppInfoContext {
    /// The cached catalog, in enumeration order.
    pub closed spec fn catalog(&self) -> Seq<App> {
        self.cached_apps@
    }

    /// Whether a refresh is currently marked as in flight.
    pub closed spec fn refreshing_flag(&self) -> bool {
        self.refreshing
    }

    /// A context starts with an empty catalog and no refresh in flight.
    pub fn new() -> (r: Self)
        ensures
            r.catalog() == Seq::<App>::empty(),
            !r.refreshing_flag(),
    {
        AppInfoContext { cached_apps: Vec::new(), refreshing: false }
    }

    /// The lazy-initialization test: a refresh is needed exactly when the
    /// catalog is empty. Before any read, a caller asks this and, only when
    /// told so, enumerates once and hands the outcome to `refresh_apps` — so
    /// the first read after construction or after `empty_cache` costs exactly
    /// one enumeration, and later reads cost none.
    pub fn needs_refresh(&self) -> (r: bool)
        ensures
            r == (self.catalog().len() == 0),
    {
        self.cached_apps.len() == 0
    }

    /// Apply the outcome of one full enumeration: on success the catalog is
    /// replaced whole, atomically from any reader's point of view; on failure
    /// it is left untouched and the error is surfaced. The refresh flag is
    /// clear afterwards on both paths.
    pub fn refresh_apps(&mut self, installed: Result<Vec<App>, EnumerationError>) -> (r: Result<
        (),
        EnumerationError,
    >)
        ensures
            refresh_apps_rel(*old(self), *final(self), installed, r),
    {
        self.refreshing = true;
        match installed {
            Ok(apps) => {
                self.cached_apps = apps;
                self.refreshing = false;
                Ok(())
            },
            Err(e) => {
                self.refreshing = false;
                Err(e)
            },
        }
    }

    /// Begin a background refresh: when one is already in flight this is a
    /// no-op that reports `false` (single-flight); otherwise the refresh is
    /// marked as running and the caller is told to spawn the enumeration,
    /// whose outcome it hands to `refresh_apps`. The catalog is untouched.
    pub fn begin_background_refresh(&mut self) -> (started: bool)
        ensures
            begin_refresh_rel(*old(self), *final(self), started),
    {
        if self.refreshing {
            false
        } else {
            self.refreshing = true;
            true
        }
    }

    /// A snapshot copy of the catalog, element for element; it never mutates
    /// any state, so two snapshots without an intervening refresh or cache
    /// clear are identical.
    pub fn get_all_apps(&self) -> (r: Vec<App>)
        ensures
            r@ == self.catalog(),
    {
        let mut out: Vec<App> = Vec::new();
        let mut i: usize = 0;
        while i < self.cached_apps.len()
            invariant
                i <= self.cached_apps@.len(),
                out@ == self.cached_apps@.take(i as int),
            decreases self.cached_apps@.len() - i,
        {
            out.push(self.cached_apps[i].clone());
            proof {
                assert(self.cached_apps@.take(i as int + 1) =~= self.cached_apps@.take(
                    i as int,
                ).push(self.cached_apps@[i as int]));
            }
            i += 1;
        }
        proof {
            assert(self.cached_apps@.take(self.cached_apps@.len() as int) =~= self.cached_apps@);
        }
        out
    }

    /// Running-set resolution: on a failed introspection the result is empty —
    /// the query degrades, it does not fail. On success every distinct raw
    /// identifier is resolved against the catalog, first match in catalog
    /// order, and the matched entries are returned in identifier order.
    pub fn get_running_apps(&self, raw_ids: Result<Vec<String>, EnumerationError>) -> (r: Vec<App>)
        ensures
            match raw_ids {
                Ok(ids) => r@ == resolve_running(self.catalog(), dedup_firsts(views_of(ids@))),
                Err(_) => r@ == Seq::<App>::empty(),
            },
    {
        match raw_ids {
            Ok(ids) => resolve_running_apps(&self.cached_apps, &ids),
            Err(_) => Vec::new(),
        }
    }

    /// Foreground resolution: the raw foreground identifier either matches a
    /// catalog entry — the first one, in catalog order — or the query fails
    /// with `NoMatchError`; it is never answered with a default record.
    pub fn get_frontmost_application(&self, raw_id: &str) -> (r: Result<App, NoMatchError>)
        ensures
            match first_match(self.catalog(), raw_id@) {
                Some(app) => r matches Ok(a) && a == app,
                None => r is Err,
            },
    {
        match find_matching_app(&self.cached_apps, raw_id) {
            Some(app) => Ok(app),
            None => Err(NoMatchError {}),
        }
    }

    /// Read the refresh flag; this never looks at the catalog.
    pub fn is_refreshing(&self) -> (r: bool)
        ensures
            r == self.refreshing_flag(),
    {
        self.refreshing
    }

    /// Empty the catalog, so that the next read triggers a fresh enumeration;
    /// the refresh flag is untouched.
    pub fn empty_cache(&mut self)
        ensures
            final(self).catalog() == Seq::<App>::empty(),
            final(self).refreshing_flag() == old(self).refreshing_flag(),
    {
        self.cached_apps = Vec::new();
    }

    /// The invocation for opening a file with an application: the record's
    /// executable and the file's path. A record without an executable path
    /// yields nothing, and the launch is then silently skipped.
    pub fn open_file_invocation(&self, file_path: &str, app: &App) -> (r: Option<(String, String)>)
        ensures
            match app.app_path_exe {
                Some(exe) => r matches Some(p) && p.0 == exe && p.1@ == file_path@,
                None => r is None,
            },
    {
        match &app.app_path_exe {
            Some(exe) => Some((exe.clone(), String::from_str(file_path))),
            None => None,
        }
    }
}

/// Two catalog snapshots taken without an intervening refresh or cache clear
/// are element-wise identical.
pub proof fn lemma_get_all_idempotent(ctx: AppInfoContext, first: Seq<App>, second: Seq<App>)
    requires
        first == ctx.catalog(),
        second == ctx.catalog(),
    ensures
        first == second,
        forall|i: int| 0 <= i < first.len() ==> first[i] == second[i],
{
}

/// Single-flight: of two back-to-back attempts to begin a background refresh,
/// at most one starts work. The second attempt starts nothing and leaves the
/// state exactly as the first left it.
pub proof fn lemma_single_flight(
    s0: AppInfoContext,
    s1: AppInfoContext,
    s2: AppInfoContext,
    started1: bool,
    started2: bool,
)
    requires
        begin_refresh_rel(s0, s1, started1),
        begin_refresh_rel(s1, s2, started2),
    ensures
        !started2,
        s2.catalog() == s0.catalog(),
        s2.refreshing_flag(),
{
}

/// Atomic swap: however a refresh ends, the catalog afterwards is exactly the
/// newly enumerated sequence or exactly the previous one — never a mix of the
/// two, and never an intermediate length.
pub proof fn lemma_refresh_atomic(
    pre: AppInfoContext,
    post: AppInfoContext,
    installed: Result<Vec<App>, EnumerationError>,
    outcome: Result<(), EnumerationError>,
)
    requires
        refresh_apps_rel(pre, post, installed, outcome),
    ensures
        post.catalog() == pre.catalog() || (installed matches Ok(apps) && post.catalog() == apps@),
        post.catalog().len() == pre.catalog().len() || (installed matches Ok(apps)
            && post.catalog().len() == apps@.len()),
{
}

/// Lazy refresh: with an empty catalog — a freshly constructed context, or
/// one whose cache was just emptied — exactly the next read asks for one new
/// enumeration, and a successful one hands back the newly enumerated set
/// whole, even where it differs from the old one.
pub proof fn lemma_lazy_refresh(
    empty_ctx: AppInfoContext,
    refreshed: AppInfoContext,
    installed: Result<Vec<App>, EnumerationError>,
    outcome: Result<(), EnumerationError>,
)
    requires
        empty_ctx.catalog() == Seq::<App>::empty(),
        refresh_apps_rel(empty_ctx, refreshed, installed, outcome),
        installed is Ok,
    ensures
        empty_ctx.catalog().len() == 0,
        refreshed.catalog() == installed->Ok_0@,
        installed->Ok_0@.len() > 0 ==> refreshed.catalog().len() != 0,
{
}

} // verus!
