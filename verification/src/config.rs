//! Configuration: the GitHub Apps a user has set up, their validation, the
//! default location of the configuration file, and the choice of an app.

use vstd::prelude::*;

use crate::error::{Error, ErrorView};
use crate::text::{drive_prefix_only, is_drive_prefix, last_char};

verus! {

/// A single GitHub App configuration entry.
#[derive(Debug, Clone, PartialEq, Eq)]
pub struct App {
    pub name: String,
    pub client_id: String,
    /// The GitHub owner the app is bound to; empty when unset.
    pub git_owner: String,
}

/// The mathematical value of an [`App`].
pub struct AppView {
    pub name: Seq<char>,
    pub client_id: Seq<char>,
    pub git_owner: Seq<char>,
}

impl View for App {
    type V = AppView;

    open spec fn view(&self) -> AppView {
        AppView { name: self.name@, client_id: self.client_id@, git_owner: self.git_owner@ }
    }
}

/// Top-level configuration: the list of GitHub Apps.
#[derive(Debug, Clone, PartialEq, Eq)]
pub struct Config {
    pub apps: Vec<App>,
}

impl View for Config {
    type V = Seq<AppView>;

    open spec fn view(&self) -> Seq<AppView> {
        self.apps@.map_values(|a: App| a@)
    }
}

impl App {
    /// A copy of the app with the same field values.
    pub fn copied(&self) -> (r: App)
        ensures
            r@ == self@,
    {
        App {
            name: self.name.clone(),
            client_id: self.client_id.clone(),
            git_owner: self.git_owner.clone(),
        }
    }

    /// Check a single entry: `name`, then `client_id` must be non-empty.
    fn validate(&self) -> (r: Result<(), Error>)
        ensures
            match app_error(self@) {
                Some(m) => r matches Err(e) && e@ == ErrorView::Config(m),
                None => r is Ok,
            },
    {
        if self.name.as_str().is_empty() {
            return Err(Error::Config("name is required".to_owned()));
        }
        if self.client_id.as_str().is_empty() {
            return Err(Error::Config("client_id is required".to_owned()));
        }
        Ok(())
    }
}

/// The problem with a single entry on its own, if any.
pub open spec fn app_error(a: AppView) -> Option<Seq<char>> {
    if a.name.len() == 0 {
        Some("name is required"@)
    } else if a.client_id.len() == 0 {
        Some("client_id is required"@)
    } else {
        None
    }
}

/// An earlier entry than `i` has the same name.
pub open spec fn name_taken(apps: Seq<AppView>, i: int) -> bool {
    exists|j: int| 0 <= j < i && #[trigger] apps[j].name == apps[i].name
}

/// Entry `i` has an owner and an earlier entry has the same owner.
pub open spec fn owner_taken(apps: Seq<AppView>, i: int) -> bool {
    apps[i].git_owner.len() > 0 && exists|j: int| 0 <= j < i && #[trigger] apps[j].git_owner
        == apps[i].git_owner
}

/// The problem with entry `i` given the entries before it, if any.
pub open spec fn entry_error(apps: Seq<AppView>, i: int) -> Option<Seq<char>> {
    match app_error(apps[i]) {
        Some(m) => Some(m),
        None => if name_taken(apps, i) {
            Some("app name must be unique: "@ + apps[i].name)
        } else if owner_taken(apps, i) {
            Some("app git_owner must be unique: "@ + apps[i].git_owner)
        } else {
            None
        },
    }
}

/// The first problem among the first `n` entries, if any.
pub open spec fn first_error(apps: Seq<AppView>, n: nat) -> Option<Seq<char>>
    decreases n,
{
    if n == 0 {
        None
    } else {
        match first_error(apps, (n - 1) as nat) {
            Some(m) => Some(m),
            None => entry_error(apps, n - 1),
        }
    }
}

/// What validating a configuration reports: the message of the first problem, if any.
pub open spec fn validation(apps: Seq<AppView>) -> Result<(), Seq<char>> {
    if apps.len() == 0 {
        Err("apps is required"@)
    } else {
        match first_error(apps, apps.len()) {
            Some(m) => Err(m),
            None => Ok(()),
        }
    }
}

/// A valid configuration: at least one app, every app with a name and a
/// client id, no two apps with the same name, and no two apps with the same
/// non-empty owner.
pub open spec fn is_valid_config(apps: Seq<AppView>) -> bool {
    &&& apps.len() > 0
    &&& forall|i: int| 0 <= i < apps.len() ==> #[trigger] app_error(apps[i]) is None
    &&& forall|i: int, j: int|
        0 <= i < apps.len() && 0 <= j < apps.len() && i != j ==> apps[i].name != apps[j].name
    &&& forall|i: int, j: int|
        0 <= i < apps.len() && 0 <= j < apps.len() && i != j && apps[i].git_owner.len() > 0
            ==> apps[i].git_owner != apps[j].git_owner
}

/// No problem among the first `n` entries exactly when each of them is fine
/// given the entries before it.
proof fn lemma_first_error_none(apps: Seq<AppView>, n: nat)
    requires
        n <= apps.len(),
    ensures
        first_error(apps, n) is None <==> forall|i: int|
            0 <= i < n ==> #[trigger] entry_error(apps, i) is None,
    decreases n,
{
    if n > 0 {
        lemma_first_error_none(apps, (n - 1) as nat);
        if first_error(apps, n) is None {
            assert forall|i: int| 0 <= i < n implies #[trigger] entry_error(apps, i) is None by {
                if i < n - 1 {
                } else {
                }
            }
        }
    }
}

/// Validation succeeds exactly on the valid configurations.
pub proof fn lemma_validation_ok_iff_valid(apps: Seq<AppView>)
    ensures
        validation(apps) is Ok <==> is_valid_config(apps),
{
    if apps.len() > 0 {
        lemma_first_error_none(apps, apps.len());
        if validation(apps) is Ok {
            assert forall|i: int| 0 <= i < apps.len() implies #[trigger] app_error(apps[i]) is None by {
                assert(entry_error(apps, i) is None);
            }
            assert forall|i: int, j: int|
                0 <= i < apps.len() && 0 <= j < apps.len() && i != j implies apps[i].name
                != apps[j].name by {
                if i < j {
                    assert(entry_error(apps, j) is None);
                    if apps[i].name == apps[j].name {
                        assert(name_taken(apps, j));
                    }
                } else {
                    assert(entry_error(apps, i) is None);
                    if apps[i].name == apps[j].name {
                        assert(name_taken(apps, i));
                    }
                }
            }
            assert forall|i: int, j: int|
                0 <= i < apps.len() && 0 <= j < apps.len() && i != j && apps[i].git_owner.len()
                    > 0 implies apps[i].git_owner != apps[j].git_owner by {
                if i < j {
                    assert(entry_error(apps, j) is None);
                    if apps[i].git_owner == apps[j].git_owner {
                        assert(owner_taken(apps, j));
                    }
                } else {
                    assert(entry_error(apps, i) is None);
                    if apps[i].git_owner == apps[j].git_owner {
                        assert(owner_taken(apps, i));
                    }
                }
            }
        }
        if is_valid_config(apps) {
            assert forall|i: int| 0 <= i < apps.len() implies #[trigger] entry_error(apps, i)
                is None by {
                assert(app_error(apps[i]) is None);
                assert(!name_taken(apps, i));
                assert(!owner_taken(apps, i));
            }
        }
    }
}

impl Config {
    /// Whether an entry before `i` has the name of entry `i`.
    fn name_taken_at(&self, i: usize) -> (r: bool)
        requires
            i < self.apps.len(),
        ensures
            r == name_taken(self@, i as int),
    {
        let mut j: usize = 0;
        while j < i
            invariant
                i < self.apps.len(),
                j <= i,
                forall|k: int| 0 <= k < j ==> #[trigger] self@[k].name != self@[i as int].name,
            decreases i - j,
        {
            if self.apps[j].name == self.apps[i].name {
                assert(self@[j as int].name == self@[i as int].name);
                return true;
            }
            j += 1;
        }
        false
    }

    /// Whether entry `i` has an owner that an entry before it has too.
    fn owner_taken_at(&self, i: usize) -> (r: bool)
        requires
            i < self.apps.len(),
        ensures
            r == owner_taken(self@, i as int),
    {
        if self.apps[i].git_owner.as_str().is_empty() {
            return false;
        }
        let mut j: usize = 0;
        while j < i
            invariant
                i < self.apps.len(),
                j <= i,
                self@[i as int].git_owner.len() > 0,
                forall|k: int| 0 <= k < j ==> #[trigger] self@[k].git_owner != self@[i as int].git_owner,
            decreases i - j,
        {
            if self.apps[j].git_owner == self.apps[i].git_owner {
                assert(self@[j as int].git_owner == self@[i as int].git_owner);
                return true;
            }
            j += 1;
        }
        false
    }

    /// Validate the configuration: there must be at least one app, each app
    /// needs a non-empty `name` and `client_id`, app names must be unique, and
    /// non-empty `git_owner` values must be unique.  The first problem found,
    /// in the order of the apps, is reported as a configuration error.
    pub fn validate(&self) -> (r: Result<(), Error>)
        ensures
            match validation(self@) {
                Ok(()) => r is Ok,
                Err(m) => r matches Err(e) && e@ == ErrorView::Config(m),
            },
            r is Ok <==> is_valid_config(self@),
    {
        proof {
            lemma_validation_ok_iff_valid(self@);
        }
        if self.apps.len() == 0 {
            return Err(Error::Config("apps is required".to_owned()));
        }
        let n = self.apps.len();
        let mut i: usize = 0;
        while i < n
            invariant
                n == self.apps.len(),
                n == self@.len(),
                i <= n,
                first_error(self@, i as nat) is None,
            decreases n - i,
        {
            let app = &self.apps[i];
            assert(self@[i as int] == app@);
            match app.validate() {
                Err(e) => {
                    assert(first_error(self@, (i + 1) as nat) == entry_error(self@, i as int));
                    proof {
                        lemma_first_error_stays(self@, (i + 1) as nat, n as nat);
                    }
                    return Err(e);
                },
                Ok(()) => {},
            }
            if self.name_taken_at(i) {
                proof {
                    lemma_first_error_stays(self@, (i + 1) as nat, n as nat);
                }
                return Err(Error::Config("app name must be unique: ".to_owned().concat(app.name.as_str())));
            }
            if self.owner_taken_at(i) {
                proof {
                    lemma_first_error_stays(self@, (i + 1) as nat, n as nat);
                }
                return Err(
                    Error::Config(
                        "app git_owner must be unique: ".to_owned().concat(app.git_owner.as_str()),
                    ),
                );
            }
            i += 1;
        }
        Ok(())
    }
}

/// Once a problem is found among the first `m` entries, it stays the first one.
proof fn lemma_first_error_stays(apps: Seq<AppView>, m: nat, n: nat)
    requires
        m <= n,
        first_error(apps, m) is Some,
    ensures
        first_error(apps, n) == first_error(apps, m),
    decreases n - m,
{
    if m < n {
        lemma_first_error_stays(apps, m, (n - 1) as nat);
    }
}


/// The index of the first app that satisfies `pred`, if any.
pub open spec fn first_index(apps: Seq<AppView>, pred: spec_fn(AppView) -> bool) -> Option<int>
    decreases apps.len(),
{
    if apps.len() == 0 {
        None
    } else if pred(apps[0]) {
        Some(0)
    } else {
        match first_index(apps.drop_first(), pred) {
            Some(i) => Some(i + 1),
            None => None,
        }
    }
}

/// The apps bound to `owner`.
pub open spec fn has_owner(owner: Seq<char>) -> spec_fn(AppView) -> bool {
    |a: AppView| a.git_owner == owner
}

/// The apps named `name`.
pub open spec fn has_name(name: Seq<char>) -> spec_fn(AppView) -> bool {
    |a: AppView| a.name == name
}

/// `first_index` finds the least index that satisfies `pred`, and finds
/// nothing only when no app does.
pub proof fn lemma_first_index(apps: Seq<AppView>, pred: spec_fn(AppView) -> bool)
    ensures
        first_index(apps, pred) matches Some(i) ==> 0 <= i < apps.len() && pred(apps[i])
            && forall|j: int| 0 <= j < i ==> !pred(#[trigger] apps[j]),
        first_index(apps, pred) is None <==> forall|j: int|
            0 <= j < apps.len() ==> !pred(#[trigger] apps[j]),
    decreases apps.len(),
{
    if apps.len() > 0 {
        let rest = apps.drop_first();
        lemma_first_index(rest, pred);
        if !pred(apps[0]) {
            assert forall|j: int| 0 < j < apps.len() implies apps[j] == #[trigger] rest[j - 1] by {}
            if first_index(apps, pred) is None {
                assert forall|j: int| 0 <= j < apps.len() implies !pred(#[trigger] apps[j]) by {
                    if j > 0 {
                        assert(apps[j] == rest[j - 1]);
                    }
                }
            }
            if first_index(apps, pred) is Some {
                let i = first_index(apps, pred)->0;
                assert forall|j: int| 0 <= j < i implies !pred(#[trigger] apps[j]) by {
                    if j > 0 {
                        assert(apps[j] == rest[j - 1]);
                    }
                }
            }
            if forall|j: int| 0 <= j < apps.len() ==> !pred(#[trigger] apps[j]) {
                assert forall|j: int| 0 <= j < rest.len() implies !pred(#[trigger] rest[j]) by {
                    assert(rest[j] == apps[j + 1]);
                }
            }
        }
    }
}

/// The index of the app that [`select_app`] chooses:
/// 1. when `owner` is non-empty, the first app bound to `owner`, if there is one;
/// 2. otherwise, when `key` is empty, the first app;
/// 3. otherwise the first app named `key`, if there is one.
pub open spec fn select_index(apps: Seq<AppView>, key: Seq<char>, owner: Seq<char>) -> Option<int> {
    if apps.len() == 0 {
        None
    } else if owner.len() > 0 && first_index(apps, has_owner(owner)) is Some {
        first_index(apps, has_owner(owner))
    } else if key.len() == 0 {
        Some(0)
    } else {
        first_index(apps, has_name(key))
    }
}

/// The position of the first app bound to `owner`.
fn find_by_owner(cfg: &Config, owner: &String) -> (r: Option<usize>)
    ensures
        r == (match first_index(cfg@, has_owner(owner@)) {
            Some(i) => Some(i as usize),
            None => None::<usize>,
        }),
{
    proof {
        lemma_first_index(cfg@, has_owner(owner@));
    }
    let n = cfg.apps.len();
    let mut i: usize = 0;
    while i < n
        invariant
            n == cfg.apps.len(),
            n == cfg@.len(),
            i <= n,
            forall|j: int| 0 <= j < i ==> !has_owner(owner@)(#[trigger] cfg@[j]),
        decreases n - i,
    {
        if cfg.apps[i].git_owner == *owner {
            assert(has_owner(owner@)(cfg@[i as int]));
            proof {
                lemma_first_index(cfg@, has_owner(owner@));
            }
            return Some(i);
        }
        i += 1;
    }
    proof {
        lemma_first_index(cfg@, has_owner(owner@));
    }
    None
}

/// The position of the first app named `name`.
fn find_by_name(cfg: &Config, name: &String) -> (r: Option<usize>)
    ensures
        r == (match first_index(cfg@, has_name(name@)) {
            Some(i) => Some(i as usize),
            None => None::<usize>,
        }),
{
    proof {
        lemma_first_index(cfg@, has_name(name@));
    }
    let n = cfg.apps.len();
    let mut i: usize = 0;
    while i < n
        invariant
            n == cfg.apps.len(),
            n == cfg@.len(),
            i <= n,
            forall|j: int| 0 <= j < i ==> !has_name(name@)(#[trigger] cfg@[j]),
        decreases n - i,
    {
        if cfg.apps[i].name == *name {
            assert(has_name(name@)(cfg@[i as int]));
            proof {
                lemma_first_index(cfg@, has_name(name@));
            }
            return Some(i);
        }
        i += 1;
    }
    proof {
        lemma_first_index(cfg@, has_name(name@));
    }
    None
}

/// Select an app from the configuration.
///
/// 1. If `owner` is non-empty, the first app whose `git_owner` is `owner`;
///    when there is none, selection falls through to the next rules.
/// 2. If `key` is empty, the first app.
/// 3. Otherwise the first app named `key`, or `None`.
pub fn select_app<'a>(cfg: &'a Config, key: &str, owner: &str) -> (r: Option<&'a App>)
    ensures
        match select_index(cfg@, key@, owner@) {
            Some(i) => 0 <= i < cfg.apps.len() && (r matches Some(a) && *a == cfg.apps@[i]),
            None => r is None,
        },
{
    proof {
        lemma_first_index(cfg@, has_owner(owner@));
        lemma_first_index(cfg@, has_name(key@));
    }
    if cfg.apps.len() == 0 {
        return None;
    }
    if !owner.is_empty() {
        let owner_s = owner.to_owned();
        if let Some(i) = find_by_owner(cfg, &owner_s) {
            return Some(&cfg.apps[i]);
        }
    }
    if key.is_empty() {
        return Some(&cfg.apps[0]);
    }
    let key_s = key.to_owned();
    match find_by_name(cfg, &key_s) {
        Some(i) => Some(&cfg.apps[i]),
        None => None,
    }
}


/// Whether `c` separates path components on a platform whose main separator
/// is `sep` (`/` separates components everywhere).
pub open spec fn is_separator(c: char, sep: char) -> bool {
    c == sep || c == '/'
}

/// `PathBuf::join` of a relative component: a separator goes between `base`
/// and `part` unless `base` is empty, already ends with one, or is, on
/// Windows (`\\` separators), a bare drive prefix such as `C:`.
pub open spec fn path_join(base: Seq<char>, part: Seq<char>, sep: char) -> Seq<char> {
    if base.len() == 0 || is_separator(base.last(), sep) || (sep == '\\' && is_drive_prefix(base)) {
        base + part
    } else {
        base + seq![sep] + part
    }
}

/// `dir/ghtkn/ghtkn.yaml`.
pub open spec fn config_file_in(dir: Seq<char>, sep: char) -> Seq<char> {
    path_join(path_join(dir, "ghtkn"@, sep), "ghtkn.yaml"@, sep)
}

/// The value of an environment variable that can be used: set and non-empty.
pub open spec fn usable(v: Option<String>) -> bool {
    v matches Some(s) && s@.len() > 0
}

/// `r` is `Ok` with the path `p`.
pub open spec fn path_is(r: Result<String, Error>, p: Seq<char>) -> bool {
    r matches Ok(s) && s@ == p
}

/// `r` is the configuration error with message `m`.
pub open spec fn config_error_is<T>(r: Result<T, Error>, m: Seq<char>) -> bool {
    r matches Err(e) && e@ == ErrorView::Config(m)
}

/// What [`get_path`] returns on a Windows `os`, given the value of `APPDATA`.
pub open spec fn windows_path_outcome(r: Result<String, Error>, appdata: Option<String>, sep: char) -> bool {
    if usable(appdata) {
        path_is(r, config_file_in(appdata->0@, sep))
    } else {
        config_error_is(r, "APPDATA is required on Windows"@)
    }
}

/// What [`get_path`] returns on another `os` once `XDG_CONFIG_HOME` was found unusable,
/// given the value of `HOME`.
pub open spec fn home_path_outcome(r: Result<String, Error>, home: Option<String>, sep: char) -> bool {
    if usable(home) {
        path_is(r, config_file_in(path_join(home->0@, ".config"@, sep), sep))
    } else {
        config_error_is(r, "XDG_CONFIG_HOME or HOME is required on Linux and macOS"@)
    }
}

/// The outcome of [`get_path`] for the environment `get_env`, the operating
/// system `os` and the path separator `sep`: on Windows
/// `%APPDATA%/ghtkn/ghtkn.yaml`; elsewhere `$XDG_CONFIG_HOME/ghtkn/ghtkn.yaml`,
/// falling back to `$HOME/.config/ghtkn/ghtkn.yaml`.  A variable counts only
/// when set and non-empty, and `HOME` is read only when `XDG_CONFIG_HOME` does
/// not count.
pub open spec fn path_outcome<F: Fn(&str) -> Option<String>>(
    get_env: F,
    os: Seq<char>,
    sep: char,
    r: Result<String, Error>,
) -> bool {
    if os == "windows"@ {
        exists|a: Option<String>|
            #[trigger] get_env.ensures(("APPDATA",), a) && windows_path_outcome(r, a, sep)
    } else {
        exists|x: Option<String>|
            #[trigger] get_env.ensures(("XDG_CONFIG_HOME",), x) && if usable(x) {
                path_is(r, config_file_in(x->0@, sep))
            } else {
                exists|h: Option<String>|
                    #[trigger] get_env.ensures(("HOME",), h) && home_path_outcome(r, h, sep)
            }
    }
}

/// `base` joined with `part` as by `PathBuf::join`.
fn join_path(base: String, part: &str, sep: char) -> (r: String)
    requires
        sep == '/' || sep == '\\',
    ensures
        r@ == path_join(base@, part@, sep),
{
    proof {
        reveal_strlit("/");
        reveal_strlit("\\");
    }
    let needs_sep = match last_char(base.as_str()) {
        None => false,
        Some(c) => !(c == sep || c == '/') && !(sep == '\\' && drive_prefix_only(base.as_str())),
    };
    if needs_sep {
        let sep_str = if sep == '/' {
            "/"
        } else {
            "\\"
        };
        assert(sep_str@ == seq![sep]);
        base.concat(sep_str).concat(part)
    } else {
        base.concat(part)
    }
}

/// `dir/ghtkn/ghtkn.yaml`.
fn config_file_path(dir: String, sep: char) -> (r: String)
    requires
        sep == '/' || sep == '\\',
    ensures
        r@ == config_file_in(dir@, sep),
{
    join_path(join_path(dir, "ghtkn", sep), "ghtkn.yaml", sep)
}

/// The main separator of path components on this platform,
/// `std::path::MAIN_SEPARATOR`: `/` on Unix and `\\` on Windows.
#[verifier::external_body]
fn main_separator() -> (r: char)
    ensures
        r == '/' || r == '\\',
{
    std::path::MAIN_SEPARATOR
}

/// [`get_path`] with the path separator given: the default location of the
/// configuration file.
pub fn get_path_with_separator<F: Fn(&str) -> Option<String>>(get_env: F, os: &str, sep: char) -> (r: Result<String, Error>)
    requires
        sep == '/' || sep == '\\',
        forall|k: &str| #[trigger] get_env.requires((k,)),
    ensures
        path_outcome(get_env, os@, sep, r),
{
    let is_windows = os.to_owned() == "windows".to_owned();
    if is_windows {
        let app_data = get_env("APPDATA");
        let r = match app_data {
            Some(a) => if a.as_str().is_empty() {
                Err(Error::Config("APPDATA is required on Windows".to_owned()))
            } else {
                Ok(config_file_path(a, sep))
            },
            None => Err(Error::Config("APPDATA is required on Windows".to_owned())),
        };
        assert(windows_path_outcome(r, app_data, sep));
        return r;
    }
    let xdg = get_env("XDG_CONFIG_HOME");
    if let Some(x) = &xdg {
        if !x.as_str().is_empty() {
            let r = Ok(config_file_path(x.clone(), sep));
            return r;
        }
    }
    let home = get_env("HOME");
    let r = match home {
        Some(h) => if h.as_str().is_empty() {
            Err(Error::Config("XDG_CONFIG_HOME or HOME is required on Linux and macOS".to_owned()))
        } else {
            Ok(config_file_path(join_path(h, ".config", sep), sep))
        },
        None => Err(Error::Config("XDG_CONFIG_HOME or HOME is required on Linux and macOS".to_owned())),
    };
    assert(home_path_outcome(r, home, sep));
    r
}

/// Return the default configuration file path for ghtkn:
/// `%APPDATA%\\ghtkn\\ghtkn.yaml` on Windows; elsewhere
/// `$XDG_CONFIG_HOME/ghtkn/ghtkn.yaml`, falling back to
/// `$HOME/.config/ghtkn/ghtkn.yaml`.  `get_env` looks up environment
/// variables, so that callers can inject them.
pub fn get_path<F: Fn(&str) -> Option<String>>(get_env: F, os: &str) -> (r: Result<String, Error>)
    requires
        forall|k: &str| #[trigger] get_env.requires((k,)),
    ensures
        exists|sep: char| (sep == '/' || sep == '\\') && #[trigger] path_outcome(get_env, os@, sep, r),
{
    let sep = main_separator();
    let r = get_path_with_separator(get_env, os, sep);
    assert(path_outcome(get_env, os@, sep, r));
    r
}


/// On a valid configuration, a non-empty owner that app `i` has selects app
/// `i`, whatever the key: owners are unique, and the owner takes precedence.
pub proof fn lemma_owner_selects_its_app(apps: Seq<AppView>, key: Seq<char>, owner: Seq<char>, i: int)
    requires
        is_valid_config(apps),
        0 <= i < apps.len(),
        owner.len() > 0,
        apps[i].git_owner == owner,
    ensures
        select_index(apps, key, owner) == Some(i),
{
    lemma_first_index(apps, has_owner(owner));
    assert(has_owner(owner)(apps[i]));
    let k = first_index(apps, has_owner(owner))->0;
    assert(has_owner(owner)(apps[k]));
    if k != i {
        assert(apps[k].git_owner == apps[i].git_owner);
    }
}

/// On a valid configuration, when no app has the owner (or the owner is
/// empty), a non-empty key that names app `i` selects app `i`.
pub proof fn lemma_name_selects_its_app(apps: Seq<AppView>, key: Seq<char>, owner: Seq<char>, i: int)
    requires
        is_valid_config(apps),
        0 <= i < apps.len(),
        key.len() > 0,
        apps[i].name == key,
        owner.len() == 0 || forall|j: int| 0 <= j < apps.len() ==> #[trigger] apps[j].git_owner != owner,
    ensures
        select_index(apps, key, owner) == Some(i),
{
    lemma_first_index(apps, has_owner(owner));
    lemma_first_index(apps, has_name(key));
    assert(has_name(key)(apps[i]));
    let k = first_index(apps, has_name(key))->0;
    assert(has_name(key)(apps[k]));
    if k != i {
        assert(apps[k].name == apps[i].name);
    }
    if owner.len() > 0 {
        assert forall|j: int| 0 <= j < apps.len() implies !has_owner(owner)(#[trigger] apps[j]) by {}
    }
}

/// With neither an owner nor a key, the first app is selected; on any
/// non-empty configuration the selected app, if any, is one of its apps.
pub proof fn lemma_selection_defaults_to_first(apps: Seq<AppView>, key: Seq<char>, owner: Seq<char>)
    requires
        apps.len() > 0,
    ensures
        key.len() == 0 && owner.len() == 0 ==> select_index(apps, key, owner) == Some(0int),
        select_index(apps, key, owner) matches Some(i) ==> 0 <= i < apps.len(),
        key.len() == 0 ==> select_index(apps, key, owner) is Some,
{
    lemma_first_index(apps, has_owner(owner));
    lemma_first_index(apps, has_name(key));
}

/// No app is bound to `owner` (or no owner is asked for).
pub open spec fn owner_unknown(apps: Seq<AppView>, owner: Seq<char>) -> bool {
    owner.len() == 0 || forall|j: int| 0 <= j < apps.len() ==> #[trigger] apps[j].git_owner != owner
}

/// What selection picks, in terms of the apps themselves: an app bound to a
/// non-empty `owner` comes first (the first such app); when no app is bound
/// to it, the first app is picked for an empty `key`, and otherwise the first
/// app named `key`.  Nothing is picked only from an empty configuration, or
/// when no app is bound to the owner, a name is asked for, and no app has it.
pub proof fn lemma_select_index_meaning(apps: Seq<AppView>, key: Seq<char>, owner: Seq<char>)
    ensures
        select_index(apps, key, owner) matches Some(i) ==> 0 <= i < apps.len() && (
            (owner.len() > 0 && apps[i].git_owner == owner && forall|j: int|
                0 <= j < i ==> #[trigger] apps[j].git_owner != owner)
            || (owner_unknown(apps, owner) && key.len() == 0 && i == 0)
            || (owner_unknown(apps, owner) && key.len() > 0 && apps[i].name == key && forall|j: int|
                0 <= j < i ==> #[trigger] apps[j].name != key)),
        select_index(apps, key, owner) is None <==> (apps.len() == 0 || (owner_unknown(apps, owner)
            && key.len() > 0 && forall|j: int| 0 <= j < apps.len() ==> #[trigger] apps[j].name != key)),
        apps.len() > 0 && key.len() == 0 && owner_unknown(apps, owner) ==> select_index(apps, key, owner)
            == Some(0int),
{
    lemma_first_index(apps, has_owner(owner));
    lemma_first_index(apps, has_name(key));
    if owner.len() > 0 && first_index(apps, has_owner(owner)) is None {
        assert forall|j: int| 0 <= j < apps.len() implies #[trigger] apps[j].git_owner != owner by {
            assert(!has_owner(owner)(apps[j]));
        }
    }
    if owner.len() > 0 && owner_unknown(apps, owner) {
        assert forall|j: int| 0 <= j < apps.len() implies !has_owner(owner)(#[trigger] apps[j]) by {
            assert(apps[j].git_owner != owner);
        }
    }
    if let Some(i) = first_index(apps, has_owner(owner)) {
        assert forall|j: int| 0 <= j < i implies #[trigger] apps[j].git_owner != owner by {
            assert(!has_owner(owner)(apps[j]));
        }
    }
    if let Some(i) = first_index(apps, has_name(key)) {
        assert forall|j: int| 0 <= j < i implies #[trigger] apps[j].name != key by {
            assert(!has_name(key)(apps[j]));
        }
    }
    if first_index(apps, has_name(key)) is None {
        assert forall|j: int| 0 <= j < apps.len() implies #[trigger] apps[j].name != key by {
            assert(!has_name(key)(apps[j]));
        }
    }
    if key.len() > 0 && (forall|j: int| 0 <= j < apps.len() ==> #[trigger] apps[j].name != key) {
        assert forall|j: int| 0 <= j < apps.len() implies !has_name(key)(#[trigger] apps[j]) by {
            assert(apps[j].name != key);
        }
    }
}

/// The default location of the configuration file does not depend on which
/// operating system other than Windows it is asked for.
pub proof fn lemma_path_same_beyond_windows<F: Fn(&str) -> Option<String>>(
    get_env: F,
    os1: Seq<char>,
    os2: Seq<char>,
    sep: char,
    r: Result<String, Error>,
)
    requires
        os1 != "windows"@,
        os2 != "windows"@,
    ensures
        path_outcome(get_env, os1, sep, r) == path_outcome(get_env, os2, sep, r),
{
}

/// Outside Windows, with `XDG_CONFIG_HOME` unset or empty and `HOME` set to a
/// directory `home` (not ending in a separator), the configuration file is
/// `home/.config/ghtkn/ghtkn.yaml`.
pub proof fn lemma_path_home_fallback<F: Fn(&str) -> Option<String>>(
    get_env: F,
    os: Seq<char>,
    sep: char,
    r: Result<String, Error>,
    home: String,
)
    requires
        os != "windows"@,
        sep == '/' || sep == '\\',
        forall|x: Option<String>| #[trigger] get_env.ensures(("XDG_CONFIG_HOME",), x) ==> (x is None || x->0@.len() == 0),
        forall|h: Option<String>| #[trigger] get_env.ensures(("HOME",), h) ==> h == Some(home),
        home@.len() > 0,
        home@.last() != '/' && home@.last() != sep,
        !(sep == '\\' && is_drive_prefix(home@)),
        path_outcome(get_env, os, sep, r),
    ensures
        r matches Ok(p) && p@ == home@ + seq![sep] + ".config"@ + seq![sep] + "ghtkn"@ + seq![sep] + "ghtkn.yaml"@,
{
    reveal_strlit(".config");
    reveal_strlit("ghtkn");
    let x = choose|x: Option<String>| #[trigger] get_env.ensures(("XDG_CONFIG_HOME",), x) && if usable(x) {
        path_is(r, config_file_in(x->0@, sep))
    } else {
        exists|h: Option<String>| #[trigger] get_env.ensures(("HOME",), h) && home_path_outcome(r, h, sep)
    };
    assert(!usable(x));
    let h = choose|h: Option<String>| #[trigger] get_env.ensures(("HOME",), h) && home_path_outcome(r, h, sep);
    assert(h == Some(home));
    let p1 = path_join(home@, ".config"@, sep);
    assert(p1 == home@ + seq![sep] + ".config"@);
    assert(p1.last() == 'g');
    assert(p1.len() > 2);
    let p2 = path_join(p1, "ghtkn"@, sep);
    assert(p2 == p1 + seq![sep] + "ghtkn"@);
    assert(p2.last() == 'n');
    assert(p2.len() > 2);
    let p3 = path_join(p2, "ghtkn.yaml"@, sep);
    assert(p3 == p2 + seq![sep] + "ghtkn.yaml"@);
}

/// Outside Windows, a set and non-empty `XDG_CONFIG_HOME` directory `dir`
/// (not ending in a separator) holds the configuration file `dir/ghtkn/ghtkn.yaml`.
pub proof fn lemma_path_xdg<F: Fn(&str) -> Option<String>>(
    get_env: F,
    os: Seq<char>,
    sep: char,
    r: Result<String, Error>,
    dir: String,
)
    requires
        os != "windows"@,
        sep == '/' || sep == '\\',
        forall|x: Option<String>| #[trigger] get_env.ensures(("XDG_CONFIG_HOME",), x) ==> x == Some(dir),
        dir@.len() > 0,
        dir@.last() != '/' && dir@.last() != sep,
        !(sep == '\\' && is_drive_prefix(dir@)),
        path_outcome(get_env, os, sep, r),
    ensures
        r matches Ok(p) && p@ == dir@ + seq![sep] + "ghtkn"@ + seq![sep] + "ghtkn.yaml"@,
{
    reveal_strlit("ghtkn");
    let x = choose|x: Option<String>| #[trigger] get_env.ensures(("XDG_CONFIG_HOME",), x) && if usable(x) {
        path_is(r, config_file_in(x->0@, sep))
    } else {
        exists|h: Option<String>| #[trigger] get_env.ensures(("HOME",), h) && home_path_outcome(r, h, sep)
    };
    assert(x == Some(dir));
    let p2 = path_join(dir@, "ghtkn"@, sep);
    assert(p2 == dir@ + seq![sep] + "ghtkn"@);
    assert(p2.last() == 'n');
    assert(p2.len() > 2);
}

} // verus!
