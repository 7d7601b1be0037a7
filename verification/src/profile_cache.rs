//! Echelle calibration profile cache: keeps the last good profile loaded,
//! reloads it when the file's modification time changes, and reports load
//! errors once each. File access is done by the caller, which hands in what
//! it found (modification stamps are nanoseconds relative to the Unix epoch).

use vstd::prelude::*;

verus! {

/// Outcome of a cache operation.
pub enum EchelleProfileCacheEvent {
    Unchanged,
    Loaded(String),
    Error(String),
    Cleared,
}

/// An event with its strings taken by their text.
pub enum CacheEventView {
    Unchanged,
    Loaded(Seq<char>),
    Error(Seq<char>),
    Cleared,
}

impl View for EchelleProfileCacheEvent {
    type V = CacheEventView;

    open spec fn view(&self) -> CacheEventView {
        match self {
            EchelleProfileCacheEvent::Unchanged => CacheEventView::Unchanged,
            EchelleProfileCacheEvent::Loaded(p) => CacheEventView::Loaded(p@),
            EchelleProfileCacheEvent::Error(e) => CacheEventView::Error(e@),
            EchelleProfileCacheEvent::Cleared => CacheEventView::Cleared,
        }
    }
}

/// What a poll asks the caller to do after the file has been examined.
pub enum PollStep {
    /// The poll is over with this event.
    Done(EchelleProfileCacheEvent),
    /// The file changed: load the profile from `path` and report with `modified`.
    Load { path: String, modified: i128 },
}

/// The text of an optional string.
pub open spec fn opt_text(o: Option<String>) -> Option<Seq<char>> {
    match o {
        Some(s) => Some(s@),
        None => None,
    }
}

/// The cache of the active calibration profile.
pub struct EchelleProfileCache<P> {
    pub path: Option<String>,
    pub last_modified: Option<i128>,
    pub profile: Option<P>,
    pub last_error: Option<String>,
}

/// Compares an optional string with a string.
fn opt_string_eq(a: &Option<String>, b: &String) -> (r: bool)
    ensures
        r == (opt_text(*a) == Some(b@)),
{
    match a {
        Some(s) => s.eq(b),
        None => false,
    }
}

/// Abstract state of the cache, strings taken by their text.
pub struct CacheModel<P> {
    pub path: Option<Seq<char>>,
    pub last_modified: Option<i128>,
    pub profile: Option<P>,
    pub last_error: Option<Seq<char>>,
}

/// What a poll asks for, strings taken by their text.
pub enum PollStepView {
    Done(CacheEventView),
    Load { path: Seq<char>, modified: i128 },
}

impl View for PollStep {
    type V = PollStepView;

    open spec fn view(&self) -> PollStepView {
        match self {
            PollStep::Done(e) => PollStepView::Done(e@),
            PollStep::Load { path, modified } => PollStepView::Load { path: path@, modified: *modified },
        }
    }
}

impl<P> View for EchelleProfileCache<P> {
    type V = CacheModel<P>;

    open spec fn view(&self) -> CacheModel<P> {
        CacheModel {
            path: opt_text(self.path),
            last_modified: self.last_modified,
            profile: self.profile,
            last_error: opt_text(self.last_error),
        }
    }
}

/// The empty cache.
pub open spec fn empty_model<P>() -> CacheModel<P> {
    CacheModel { path: None, last_modified: None, profile: None, last_error: None }
}

/// Pointing the cache at `path`: a new path forgets the stamp and the error.
pub open spec fn model_set_path<P>(m: CacheModel<P>, path: Seq<char>) -> CacheModel<P> {
    if m.path == Some(path) {
        m
    } else {
        CacheModel { path: Some(path), last_modified: None, last_error: None, ..m }
    }
}

/// Reporting an error message: new messages are remembered and reported,
/// a repeat of the last one is `Unchanged`.
pub open spec fn model_report_error<P>(m: CacheModel<P>, msg: Seq<char>) -> (CacheModel<P>, CacheEventView) {
    if m.last_error == Some(msg) {
        (m, CacheEventView::Unchanged)
    } else {
        (CacheModel { last_error: Some(msg), ..m }, CacheEventView::Error(msg))
    }
}

/// First half of a poll with the file's stamp, or the message of the
/// failure to examine it.
pub open spec fn model_poll_stat<P>(m: CacheModel<P>, stat: Result<i128, Seq<char>>) -> (CacheModel<P>, PollStepView) {
    match m.path {
        None => (m, PollStepView::Done(CacheEventView::Unchanged)),
        Some(path) => match stat {
            Err(msg) => {
                let (m2, e) = model_report_error(m, msg);
                (m2, PollStepView::Done(e))
            },
            Ok(t) => if m.last_modified == Some(t) {
                (m, PollStepView::Done(CacheEventView::Unchanged))
            } else {
                (m, PollStepView::Load { path, modified: t })
            },
        },
    }
}

/// Second half of a poll with the outcome of loading the profile.
pub open spec fn model_finish_load<P>(
    m: CacheModel<P>,
    path: Seq<char>,
    modified: i128,
    load: Result<P, Seq<char>>,
) -> (CacheModel<P>, CacheEventView) {
    match load {
        Ok(p) => (
            CacheModel { profile: Some(p), last_modified: Some(modified), last_error: None, ..m },
            CacheEventView::Loaded(path),
        ),
        Err(msg) => model_report_error(m, msg),
    }
}

/// A stat result with the message taken by its text.
pub open spec fn stat_view(stat: Result<i128, String>) -> Result<i128, Seq<char>> {
    match stat {
        Ok(t) => Ok(t),
        Err(msg) => Err(msg@),
    }
}

/// A load result with the message taken by its text.
pub open spec fn load_view<P>(load: Result<P, String>) -> Result<P, Seq<char>> {
    match load {
        Ok(p) => Ok(p),
        Err(msg) => Err(msg@),
    }
}

impl<P> EchelleProfileCache<P> {
    /// An empty cache: no path, no profile, no error.
    pub fn new() -> (c: Self)
        ensures
            c@ == empty_model::<P>(),
    {
        EchelleProfileCache { path: None, last_modified: None, profile: None, last_error: None }
    }

    /// Points the cache at `path`. A different path forgets the modification
    /// time (forcing a reload on the next poll) and the last error; the last
    /// good profile stays until a new one loads. The same path changes nothing.
    pub fn set_path(&mut self, path: String)
        ensures
            final(self)@ == model_set_path(old(self)@, path@),
    {
        if !opt_string_eq(&self.path, &path) {
            self.path = Some(path);
            self.last_modified = None;
            self.last_error = None;
        }
    }

    /// Forgets the path, the profile and any error.
    pub fn clear(&mut self) -> (e: EchelleProfileCacheEvent)
        ensures
            final(self)@ == empty_model::<P>(),
            e@ == CacheEventView::Cleared,
    {
        self.path = None;
        self.last_modified = None;
        self.profile = None;
        self.last_error = None;
        EchelleProfileCacheEvent::Cleared
    }

    /// The configured profile path.
    pub fn path(&self) -> (p: Option<&str>)
        ensures
            match p {
                Some(a) => self@.path == Some(a@),
                None => self@.path is None,
            },
    {
        match &self.path {
            Some(s) => Some(s.as_str()),
            None => None,
        }
    }

    /// The last good profile.
    pub fn profile(&self) -> (p: Option<&P>)
        ensures
            match p {
                Some(a) => self@.profile == Some(*a),
                None => self@.profile is None,
            },
    {
        match &self.profile {
            Some(v) => Some(v),
            None => None,
        }
    }

    /// The last load error, if the last attempt failed.
    pub fn last_error(&self) -> (e: Option<&str>)
        ensures
            match e {
                Some(a) => self@.last_error == Some(a@),
                None => self@.last_error is None,
            },
    {
        match &self.last_error {
            Some(s) => Some(s.as_str()),
            None => None,
        }
    }

    fn report_error(&mut self, msg: String) -> (e: EchelleProfileCacheEvent)
        ensures
            (final(self)@, e@) == model_report_error(old(self)@, msg@),
    {
        if opt_string_eq(&self.last_error, &msg) {
            EchelleProfileCacheEvent::Unchanged
        } else {
            let reported = msg.clone();
            self.last_error = Some(msg);
            EchelleProfileCacheEvent::Error(reported)
        }
    }

    /// First half of a poll, after the caller examined the file at the
    /// configured path: `stat` is its modification stamp or the message of
    /// the failure to read it. Without a path nothing is done. An unchanged
    /// stamp needs no reload; a new one asks the caller to load the file.
    pub fn poll_with_stat(&mut self, stat: Result<i128, String>) -> (step: PollStep)
        ensures
            (final(self)@, step@) == model_poll_stat(old(self)@, stat_view(stat)),
    {
        let path = match &self.path {
            None => {
                return PollStep::Done(EchelleProfileCacheEvent::Unchanged);
            },
            Some(p) => p.clone(),
        };
        match stat {
            Err(msg) => PollStep::Done(self.report_error(msg)),
            Ok(modified) => {
                let same = match self.last_modified {
                    Some(m) => m == modified,
                    None => false,
                };
                if same {
                    PollStep::Done(EchelleProfileCacheEvent::Unchanged)
                } else {
                    PollStep::Load { path, modified }
                }
            },
        }
    }

    /// Second half of a poll: the outcome of loading the profile the first
    /// half asked for. A loaded profile replaces the cached one and clears the
    /// error; a failure keeps the last good profile and its stamp (so the
    /// file is tried again) and reports the error once.
    pub fn finish_load(&mut self, path: String, modified: i128, load: Result<P, String>) -> (e:
        EchelleProfileCacheEvent)
        ensures
            (final(self)@, e@) == model_finish_load(old(self)@, path@, modified, load_view(load)),
    {
        match load {
            Ok(profile) => {
                self.profile = Some(profile);
                self.last_modified = Some(modified);
                self.last_error = None;
                EchelleProfileCacheEvent::Loaded(path)
            },
            Err(msg) => self.report_error(msg),
        }
    }
}

/// A profile that loaded with stamp `t` is not reloaded while the file keeps
/// that stamp: the next poll is `Unchanged` and leaves the cache as it is.
pub proof fn law_unchanged_file_not_reloaded<P>(m: CacheModel<P>, path: Seq<char>, t: i128, p: P)
    requires
        m.path is Some,
    ensures
        ({
            let loaded = model_finish_load(m, path, t, Ok(p)).0;
            model_poll_stat(loaded, Ok(t)) == (loaded, PollStepView::Done(CacheEventView::Unchanged))
        }),
{
}

/// A failed reload keeps the last good profile, keeps the old stamp (so the
/// next poll of the changed file tries again), and reports the error.
pub proof fn law_failed_reload_keeps_last_good<P>(m: CacheModel<P>, path: Seq<char>, t: i128, msg: Seq<char>)
    requires
        m.path is Some,
        m.last_modified != Some(t),
        m.last_error != Some(msg),
    ensures
        ({
            let (after, e) = model_finish_load(m, path, t, Err(msg));
            &&& after.profile == m.profile
            &&& e == CacheEventView::Error(msg)
            &&& after.last_error == Some(msg)
            &&& model_poll_stat(after, Ok(t)).1 == (PollStepView::Load { path: m.path->0, modified: t })
        }),
{
}

/// The same error is reported once: repeating it gives `Unchanged`.
pub proof fn law_error_reported_once<P>(m: CacheModel<P>, msg: Seq<char>)
    ensures
        ({
            let after = model_report_error(m, msg).0;
            model_report_error(after, msg) == (after, CacheEventView::Unchanged)
        }),
{
}

/// Setting the path already in use changes nothing; setting a new path
/// makes the next successful examination of the file ask for a load, while
/// the last good profile stays available.
pub proof fn law_set_path<P>(m: CacheModel<P>, path: Seq<char>, t: i128)
    ensures
        m.path == Some(path) ==> model_set_path(m, path) == m,
        m.path != Some(path) ==> ({
            let after = model_set_path(m, path);
            &&& after.profile == m.profile
            &&& model_poll_stat(after, Ok(t)) == (after, PollStepView::Load { path, modified: t })
        }),
{
}

/// Polling never drops or replaces the cached profile, whatever the file
/// examination found (a missing file included): only a completed load
/// replaces it and only `clear` removes it. The path and the stamp of the
/// last good load stay as they were too.
pub proof fn law_poll_keeps_profile<P>(m: CacheModel<P>, stat: Result<i128, Seq<char>>)
    ensures
        model_poll_stat(m, stat).0.profile == m.profile,
        model_poll_stat(m, stat).0.path == m.path,
        model_poll_stat(m, stat).0.last_modified == m.last_modified,
{
}

/// A cleared cache has nothing to poll.
pub proof fn law_cleared_cache_polls_unchanged<P>(stat: Result<i128, Seq<char>>)
    ensures
        model_poll_stat(empty_model::<P>(), stat) == (empty_model::<P>(), PollStepView::Done(
            CacheEventView::Unchanged,
        )),
{
}

} // verus!
