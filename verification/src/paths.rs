//! Where the tool keeps its files: the Codex data directory, the profile
//! directory, and the files in them.
use vstd::prelude::*;
use crate::names::{is_name_char, valid_profile_name};
use crate::text::{append_str, str_has_prefix};

verus! {

/// `comp` appended to `base` as `PathBuf::join` does on Unix: an absolute
/// `comp` replaces `base`; otherwise a `/` goes between them unless `base`
/// is empty or already ends with one.
pub open spec fn join(base: Seq<char>, comp: Seq<char>) -> Seq<char> {
    if comp.len() > 0 && comp[0] == '/' {
        comp
    } else if base.len() == 0 || base.last() == '/' {
        base + comp
    } else {
        base + "/"@ + comp
    }
}

/// `PathBuf::join` on paths held as text.
pub fn join_path(base: &str, comp: &str) -> (r: String)
    ensures
        r@ == join(base@, comp@),
{
    proof {
        reveal_strlit("/");
        assert("/"@ =~= seq!['/']);
    }
    if str_has_prefix(comp, "/") {
        proof {
            assert(comp@.take(1)[0] == comp@[0]);
        }
        return comp.to_owned();
    }
    proof {
        if comp@.len() > 0 && comp@[0] == '/' {
            assert(comp@.take(1) =~= "/"@);
        }
    }
    let n = base.unicode_len();
    let mut r = base.to_owned();
    if n > 0 && base.get_char(n - 1) != '/' {
        append_str(&mut r, "/");
    }
    append_str(&mut r, comp);
    r
}

/// The two directories the tool works in.
pub struct Paths {
    pub codex_home: String,
    pub switcher_home: String,
}

/// The two directories as text.
pub struct PathsView {
    pub codex_home: Seq<char>,
    pub switcher_home: Seq<char>,
}

impl View for Paths {
    type V = PathsView;

    open spec fn view(&self) -> PathsView {
        PathsView { codex_home: self.codex_home@, switcher_home: self.switcher_home@ }
    }
}

/// Codex's authentication cache, the file a login writes.
pub open spec fn auth_path(p: PathsView) -> Seq<char> {
    join(p.codex_home, "auth.json"@)
}

/// Codex's configuration file.
pub open spec fn config_path(p: PathsView) -> Seq<char> {
    join(p.codex_home, "config.toml"@)
}

/// The copy of the configuration `init` keeps before changing it.
pub open spec fn backup_path(p: PathsView) -> Seq<char> {
    join(p.codex_home, "config.toml.codex-switcher.bak"@)
}

/// The directory of saved profiles.
pub open spec fn profiles_path(p: PathsView) -> Seq<char> {
    join(p.switcher_home, "profiles"@)
}

/// The saved login of a profile.
pub open spec fn profile_path(p: PathsView, name: Seq<char>) -> Seq<char> {
    join(profiles_path(p), name + ".json"@)
}

/// The file that names the active profile.
pub open spec fn state_path(p: PathsView) -> Seq<char> {
    join(p.switcher_home, "active"@)
}

/// The file whose existence marks an operation in progress.
pub open spec fn lock_path(p: PathsView) -> Seq<char> {
    join(p.switcher_home, "lock"@)
}

impl Paths {
    /// The directories from the environment: `CODEX_HOME` or `$HOME/.codex`,
    /// and `CODEX_SWITCHER_HOME` or `$HOME/.codex-switcher`. `HOME` must be
    /// set.
    pub fn discover(home: Option<String>, codex_home: Option<String>, switcher_home: Option<String>) -> (r:
        Result<Paths, String>)
        ensures
            home is None ==> (r matches Err(e) && e@ == "HOME is not set"@),
            home is Some ==> (r matches Ok(p) && p.codex_home@ == match codex_home {
                Some(c) => c@,
                None => join(home.unwrap()@, ".codex"@),
            } && p.switcher_home@ == match switcher_home {
                Some(s) => s@,
                None => join(home.unwrap()@, ".codex-switcher"@),
            }),
    {
        let home = match home {
            Some(h) => h,
            None => return Err(String::from_str("HOME is not set")),
        };
        let codex_home = match codex_home {
            Some(c) => c,
            None => join_path(home.as_str(), ".codex"),
        };
        let switcher_home = match switcher_home {
            Some(s) => s,
            None => join_path(home.as_str(), ".codex-switcher"),
        };
        Ok(Paths { codex_home, switcher_home })
    }

    /// Codex's authentication cache.
    pub fn auth(&self) -> (r: String)
        ensures
            r@ == auth_path(self@),
    {
        join_path(self.codex_home.as_str(), "auth.json")
    }

    /// Codex's configuration file.
    pub fn config(&self) -> (r: String)
        ensures
            r@ == config_path(self@),
    {
        join_path(self.codex_home.as_str(), "config.toml")
    }

    /// The backup of the configuration.
    pub fn backup(&self) -> (r: String)
        ensures
            r@ == backup_path(self@),
    {
        join_path(self.codex_home.as_str(), "config.toml.codex-switcher.bak")
    }

    /// The directory of saved profiles.
    pub fn profiles(&self) -> (r: String)
        ensures
            r@ == profiles_path(self@),
    {
        join_path(self.switcher_home.as_str(), "profiles")
    }

    /// The saved login of a profile: `<profiles>/<name>.json`.
    pub fn profile(&self, name: &str) -> (r: String)
        ensures
            r@ == profile_path(self@, name@),
    {
        let dir = self.profiles();
        let mut file = name.to_owned();
        append_str(&mut file, ".json");
        join_path(dir.as_str(), file.as_str())
    }

    /// The file naming the active profile.
    pub fn state(&self) -> (r: String)
        ensures
            r@ == state_path(self@),
    {
        join_path(self.switcher_home.as_str(), "active")
    }

    /// The operation lock.
    pub fn lock(&self) -> (r: String)
        ensures
            r@ == lock_path(self@),
    {
        join_path(self.switcher_home.as_str(), "lock")
    }
}


/// The file name of a profile: the name and `.json`.
pub open spec fn profile_file_name(name: Seq<char>) -> Seq<char> {
    name + ".json"@
}

/// A valid profile name keeps the profile inside the profile directory:
/// its file is the profile directory joined with a file name that holds no
/// `/` and is neither `.` nor `..`, so no name reaches a file elsewhere.
pub proof fn law_profile_stays_in_directory(p: PathsView, name: Seq<char>)
    requires
        valid_profile_name(name),
    ensures
        profile_path(p, name) == if profiles_path(p).len() == 0 || profiles_path(p).last() == '/' {
            profiles_path(p) + profile_file_name(name)
        } else {
            profiles_path(p) + "/"@ + profile_file_name(name)
        },
        forall|i: int|
            0 <= i < profile_file_name(name).len() ==> #[trigger] profile_file_name(name)[i] != '/',
        profile_file_name(name) != "."@,
        profile_file_name(name) != ".."@,
{
    reveal_strlit(".json");
    reveal_strlit(".");
    reveal_strlit("..");
    let f = profile_file_name(name);
    assert(f[0] == name[0]);
    assert forall|i: int| 0 <= i < f.len() implies #[trigger] f[i] != '/' by {
        if i < name.len() {
            assert(f[i] == name[i]);
            assert(is_name_char(name[i]));
        } else {
            assert(f[i] == ".json"@[i - name.len()]);
        }
    }
    assert(f.len() >= 6);
}

} // verus!
