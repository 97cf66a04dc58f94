//! Profiles kept as `config.json` (the default) and `config.<name>.json`
//! files: their names, and the rules for validating, cloning, deleting and
//! choosing them. Reading and writing the files is left to the caller.
use vstd::prelude::*;
use crate::error::InspectorError;
use crate::models::profile::{profile_check, ProfileConfig, ProfileInfo};
use crate::order::sorted_by_name;
use crate::text::{chars_of, concat2, concat3, push_str, starts_with_seq, ends_with_seq, str_eq, string_of};

verus! {

/// Profiles of one `.inspector` directory.
pub struct ProfileManager {
    pub inspector_dir: String,
}

/// The file name of a profile: `config.json` for the default (empty) name,
/// `config.<name>.json` otherwise.
pub open spec fn profile_file_name(name: Seq<char>) -> Seq<char> {
    if name.len() == 0 {
        "config.json"@
    } else {
        "config."@ + name + ".json"@
    }
}

/// The profile that a file called `f` holds: the text between `config.` and
/// `.json`, when the file is so named, is not `config.json`, and that text is
/// not empty.
pub open spec fn profile_of_file(f: Seq<char>) -> Option<Seq<char>> {
    if starts_with_seq(f, "config."@) && ends_with_seq(f, ".json"@) && f != "config.json"@ && f.len() > 12 {
        Some(f.subrange(7, f.len() - 5))
    } else {
        None
    }
}

/// Whether `name` is the default profile (empty or `default`).
pub open spec fn is_default_profile(name: Seq<char>) -> bool {
    name.len() == 0 || name == "default"@
}

/// The profile to use.
pub enum ActiveProfile {
    /// The profile named on the command line.
    Named(String),
    /// The profile named by `MCP_PROFILE`.
    FromEnv(String),
    /// The default profile, which exists.
    Default,
    /// The default profile, which must be created first.
    CreateDefault,
}

/// Whether `r` carries the configuration error with message `m`.
pub open spec fn is_config_error<T>(r: Result<T, InspectorError>, m: Seq<char>) -> bool {
    match r {
        Err(InspectorError::Config(x)) => x@ == m,
        _ => false,
    }
}

impl ProfileManager {
    /// Profiles of the directory `inspector_dir`.
    pub fn new(inspector_dir: String) -> (r: ProfileManager)
        ensures
            r.inspector_dir == inspector_dir,
    {
        ProfileManager { inspector_dir }
    }

    /// The file name of the profile `name`.
    pub fn profile_file_name(name: &str) -> (r: String)
        ensures
            r@ == profile_file_name(name@),
    {
        if name.is_empty() {
            String::from_str("config.json")
        } else {
            concat3("config.", name, ".json")
        }
    }

    /// The profile held by the file called `file_name`, if any.
    pub fn profile_of_file(file_name: &str) -> (r: Option<String>)
        ensures
            match r {
                Some(s) => profile_of_file(file_name@) == Some(s@),
                None => profile_of_file(file_name@) is None,
            },
    {
        let cs = chars_of(file_name);
        let n = cs.len();
        proof {
            reveal_strlit("config.");
            reveal_strlit(".json");
            reveal_strlit("config.json");
        }
        if n <= 12 {
            return None;
        }
        let starts = cs[0] == 'c' && cs[1] == 'o' && cs[2] == 'n' && cs[3] == 'f' && cs[4] == 'i' && cs[5] == 'g' && cs[6] == '.';
        let ends = cs[n - 5] == '.' && cs[n - 4] == 'j' && cs[n - 3] == 's' && cs[n - 2] == 'o' && cs[n - 1] == 'n';
        proof {
            assert(starts == (file_name@.take(7) == "config."@)) by {
                if file_name@.take(7) == "config."@ {
                    assert(file_name@.take(7)[0] == 'c');
                    assert(file_name@.take(7)[6] == '.');
                    assert(file_name@.take(7)[1] == 'o');
                    assert(file_name@.take(7)[2] == 'n');
                    assert(file_name@.take(7)[3] == 'f');
                    assert(file_name@.take(7)[4] == 'i');
                    assert(file_name@.take(7)[5] == 'g');
                }
                if starts {
                    assert(file_name@.take(7) =~= "config."@);
                }
            }
            assert(ends == (file_name@.skip(n - 5) == ".json"@)) by {
                if file_name@.skip(n - 5) == ".json"@ {
                    assert(file_name@.skip(n - 5)[0] == '.');
                    assert(file_name@.skip(n - 5)[1] == 'j');
                    assert(file_name@.skip(n - 5)[2] == 's');
                    assert(file_name@.skip(n - 5)[3] == 'o');
                    assert(file_name@.skip(n - 5)[4] == 'n');
                }
                if ends {
                    assert(file_name@.skip(n - 5) =~= ".json"@);
                }
            }
            assert(file_name@ != "config.json"@) by {
                assert("config.json"@.len() == 11);
            }
        }
        if !starts || !ends {
            return None;
        }
        let mut mid: Vec<char> = Vec::new();
        let mut i: usize = 7;
        while i < n - 5
            invariant
                n == cs@.len(),
                n > 12,
                cs@ == file_name@,
                7 <= i <= n - 5,
                mid@ == cs@.subrange(7, i as int),
            decreases n - 5 - i,
        {
            mid.push(cs[i]);
            assert(cs@.subrange(7, i + 1) =~= cs@.subrange(7, i as int).push(cs@[i as int]));
            i = i + 1;
        }
        Some(string_of(mid.as_slice()))
    }

    /// The outcome of validating a loaded profile: the load error as it is, or
    /// the validation error prefixed by the profile's name.
    pub fn validate_profile(&self, profile_name: &str, loaded: Result<ProfileConfig, InspectorError>) -> (r: Result<(), InspectorError>)
        ensures
            loaded is Err ==> r is Err,
            loaded matches Ok(c) ==> match profile_check(c) {
                Ok(()) => r is Ok,
                Err(m) => is_config_error(r, "Profile '"@ + profile_name@ + "' validation failed: "@ + m),
            },
    {
        let config = match loaded {
            Ok(c) => c,
            Err(e) => {
                return Err(e);
            },
        };
        match config.validate() {
            Ok(()) => Ok(()),
            Err(m) => {
                let mut s = concat3("Profile '", profile_name, "' validation failed: ");
                push_str(&mut s, m.as_str());
                Err(InspectorError::Config(s))
            },
        }
    }

    /// The configuration to save as `dest_profile` when cloning the loaded
    /// source profile: the default profile cannot be overwritten, nor an
    /// existing one.
    pub fn clone_profile(&self, dest_profile: &str, dest_exists: bool, source: Result<ProfileConfig, InspectorError>) -> (r: Result<ProfileConfig, InspectorError>)
        ensures
            is_default_profile(dest_profile@) ==> is_config_error(r, "Cannot overwrite default profile"@),
            !is_default_profile(dest_profile@) && dest_exists ==> is_config_error(r, "Profile '"@ + dest_profile@ + "' already exists"@),
            !is_default_profile(dest_profile@) && !dest_exists ==> match source {
                Ok(c) => r == Ok::<ProfileConfig, InspectorError>(c),
                Err(_) => r is Err,
            },
    {
        if dest_profile.is_empty() || str_eq(dest_profile, "default") {
            return Err(InspectorError::Config(String::from_str("Cannot overwrite default profile")));
        }
        if dest_exists {
            return Err(InspectorError::Config(concat3("Profile '", dest_profile, "' already exists")));
        }
        source
    }

    /// Whether the profile `profile_name` may be deleted, given whether its
    /// file exists: the default profile cannot be, nor one that does not exist.
    pub fn check_delete_profile(&self, profile_name: &str, exists: bool) -> (r: Result<(), InspectorError>)
        ensures
            is_default_profile(profile_name@) ==> is_config_error(r, "Cannot delete default profile"@),
            !is_default_profile(profile_name@) && !exists ==> is_config_error(r, "Profile '"@ + profile_name@ + "' does not exist"@),
            r is Ok <==> !is_default_profile(profile_name@) && exists,
    {
        if profile_name.is_empty() || str_eq(profile_name, "default") {
            return Err(InspectorError::Config(String::from_str("Cannot delete default profile")));
        }
        if !exists {
            return Err(InspectorError::Config(concat3("Profile '", profile_name, "' does not exist")));
        }
        Ok(())
    }

    /// Which profile to use: the one named by the caller, else the one named
    /// by `MCP_PROFILE` when it exists, else the default one (created when it
    /// does not exist).
    pub fn choose_active_profile(&self, requested: Option<&str>, env_profile: Option<&str>, env_exists: bool, default_exists: bool) -> (r: ActiveProfile)
        ensures
            match requested {
                Some(n) if n@.len() > 0 => r matches ActiveProfile::Named(s) && s@ == n@,
                _ => match env_profile {
                    Some(e) if e@.len() > 0 && env_exists => r matches ActiveProfile::FromEnv(s) && s@ == e@,
                    _ => if default_exists { r is Default } else { r is CreateDefault },
                },
            },
    {
        if let Some(n) = requested {
            if !n.is_empty() {
                return ActiveProfile::Named(String::from_str(n));
            }
        }
        if let Some(e) = env_profile {
            if !e.is_empty() && env_exists {
                return ActiveProfile::FromEnv(String::from_str(e));
            }
        }
        if default_exists {
            ActiveProfile::Default
        } else {
            ActiveProfile::CreateDefault
        }
    }
}

impl ProfileManager {
    /// Profiles sorted by name (a stable sort), as they are listed.
    pub fn sort_profiles(profiles: Vec<ProfileInfo>) -> (r: Vec<ProfileInfo>)
        ensures
            r@.len() == profiles@.len(),
            r@.to_multiset() == profiles@.to_multiset(),
            sorted_by_name(r@),
    {
        crate::order::sort_by_name(profiles)
    }
}

/// The file name of a profile names it back.
pub proof fn lemma_profile_file_round_trip(name: Seq<char>)
    requires
        name.len() > 0,
    ensures
        profile_of_file(profile_file_name(name)) == Some(name),
{
    reveal_strlit("config.");
    reveal_strlit(".json");
    reveal_strlit("config.json");
    let f = profile_file_name(name);
    assert(f.take(7) =~= "config."@);
    assert(f.skip(f.len() - 5) =~= ".json"@);
    assert(f.subrange(7, f.len() - 5) =~= name);
    assert(f.len() > 12);
    assert(f != "config.json"@) by {
        assert("config.json"@.len() == 11);
    }
}

} // verus!
