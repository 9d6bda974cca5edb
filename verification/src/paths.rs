//! Where the configuration file is.

use vstd::prelude::*;

use crate::text;
use crate::text::characters;

verus! {

/// The file to take for the configuration.
pub enum ConfigLocation {
    /// The one that was asked for.
    Given,
    /// The one under the user's configuration directory.
    UserDirectory,
}

/// A path below another one, in POSIX notation: an absolute path stands for itself, and a
/// relative one is separated from what is before it by exactly the slash that is needed.
pub open spec fn joined(base: Seq<char>, component: Seq<char>) -> Seq<char> {
    if component.len() > 0 && component[0] == '/' {
        component
    } else if base.len() == 0 || base.last() == '/' {
        base + component
    } else {
        base + "/"@ + component
    }
}

/// The user's configuration directory: what `XDG_CONFIG_HOME` says, or else `.config` in the
/// home directory, or else `.config` in the current one.
pub open spec fn config_home(
    xdg_config_home: Option<Seq<char>>,
    home: Option<Seq<char>>,
) -> Seq<char> {
    match xdg_config_home {
        Some(directory) => directory,
        None => match home {
            Some(directory) => joined(directory, ".config"@),
            None => joined("."@, ".config"@),
        },
    }
}

/// The configuration file under the user's configuration directory.
pub open spec fn user_config_path(
    xdg_config_home: Option<Seq<char>>,
    home: Option<Seq<char>>,
) -> Seq<char> {
    joined(joined(config_home(xdg_config_home, home), "oxllm"@), "config.toml"@)
}

/// The file to take for the configuration, by which of the two exist: the one that was asked
/// for, unless only the other one is there.
pub open spec fn config_location(given_exists: bool, user_exists: bool) -> ConfigLocation {
    if !given_exists && user_exists {
        ConfigLocation::UserDirectory
    } else {
        ConfigLocation::Given
    }
}

/// Appends a component to a path.
pub fn join(base: &str, component: &str) -> (path: String)
    ensures
        path@ == joined(base@, component@),
{
    let base_chars: Vec<char> = characters(base);
    let component_chars: Vec<char> = characters(component);
    if component_chars.len() > 0 && component_chars[0] == '/' {
        component.to_string()
    } else {
        let mut path: String = base.to_string();
        if base_chars.len() > 0 && base_chars[base_chars.len() - 1] != '/' {
            path.append("/");
        }
        path.append(component);
        path
    }
}

/// Makes the path of the configuration file under the user's configuration directory from the
/// values of the environment variables `XDG_CONFIG_HOME` and `HOME`.
pub fn user_config_file(xdg_config_home: Option<String>, home: Option<String>) -> (path: String)
    ensures
        path@ == user_config_path(text::option_text(xdg_config_home), text::option_text(home)),
{
    let directory: String = match xdg_config_home {
        Some(directory) => directory,
        None => match home {
            Some(directory) => join(directory.as_str(), ".config"),
            None => join(".", ".config"),
        },
    };
    let own: String = join(directory.as_str(), "oxllm");
    join(own.as_str(), "config.toml")
}

/// Decides which file to take for the configuration, by which of the two exist.
pub fn resolve_config_path(given_exists: bool, user_exists: bool) -> (location: ConfigLocation)
    ensures
        location == config_location(given_exists, user_exists),
{
    if given_exists {
        ConfigLocation::Given
    } else if user_exists {
        ConfigLocation::UserDirectory
    } else {
        ConfigLocation::Given
    }
}

/// A file that exists is taken, unless neither does: then it is the one that was asked for, so
/// that the user is told about that one.
pub proof fn missing_files_are_reported_as_asked_for(given_exists: bool, user_exists: bool)
    ensures
        config_location(given_exists, user_exists) is UserDirectory ==> user_exists
            && !given_exists,
        given_exists ==> config_location(given_exists, user_exists) is Given,
        !given_exists && !user_exists ==> config_location(given_exists, user_exists) is Given,
{
}

/// The configuration file under the user's configuration directory always bears the same name in
/// the same directory.
pub proof fn user_files_have_one_name(xdg_config_home: Option<Seq<char>>, home: Option<Seq<char>>)
    ensures
        exists|start: Seq<char>|
            user_config_path(xdg_config_home, home) == #[trigger] (start + "oxllm/config.toml"@),
{
    reveal_strlit("oxllm");
    reveal_strlit("/");
    reveal_strlit("config.toml");
    reveal_strlit("oxllm/config.toml");
    let directory = config_home(xdg_config_home, home);
    let own = joined(directory, "oxllm"@);
    let path = user_config_path(xdg_config_home, home);
    assert(own.last() == 'm');
    assert(path == own + "/"@ + "config.toml"@);
    let start = if directory.len() == 0 || directory.last() == '/' {
        directory
    } else {
        directory + "/"@
    };
    assert(own == start + "oxllm"@);
    assert(path == start + "oxllm/config.toml"@);
}

/// An absolute component stands for itself. Any other is put behind the path, with a slash between
/// the two exactly where the path needs one.
pub proof fn components_are_put_behind_paths(base: &str, component: &str, path: String)
    requires
        call_ensures(join, (base, component), path),
    ensures
        component@.len() > 0 && component@[0] == '/' ==> path@ == component@,
        !(component@.len() > 0 && component@[0] == '/') ==> {
            let slash = path@.len() - base@.len() - component@.len();
            &&& text::starts_with(path@, base@)
            &&& path@.skip(base@.len() + slash) == component@
            &&& slash == if base@.len() > 0 && base@.last() != '/' {
                1int
            } else {
                0
            }
            &&& slash == 1 ==> path@[base@.len() as int] == '/'
        },
{
    reveal_strlit("/");
    if !(component@.len() > 0 && component@[0] == '/') {
        let slash = path@.len() - base@.len() - component@.len();
        assert(path@.take(base@.len() as int) == base@);
        assert(path@.skip(base@.len() + slash) == component@);
    }
}

/// The directory of the user comes from the first of the two variables, or else it is `.config` in
/// the second, or else `.config` in the current directory; the file is always `config.toml` in
/// `oxllm` in that directory.
pub proof fn user_files_are_where_the_environment_says(
    xdg_config_home: Option<String>,
    home: Option<String>,
    path: String,
)
    requires
        call_ensures(user_config_file, (xdg_config_home, home), path),
    ensures
        match xdg_config_home {
            Some(directory) => is_below(path@, directory@, "oxllm/config.toml"@),
            None => match home {
                Some(directory) => is_below(path@, directory@, ".config/oxllm/config.toml"@),
                None => path@ == "./.config/oxllm/config.toml"@,
            },
        },
{
    reveal_strlit("oxllm");
    reveal_strlit("/");
    reveal_strlit(".");
    reveal_strlit(".config");
    reveal_strlit("config.toml");
    reveal_strlit("oxllm/config.toml");
    reveal_strlit(".config/oxllm/config.toml");
    reveal_strlit("./.config/oxllm/config.toml");
    let directory = config_home(text::option_text(xdg_config_home), text::option_text(home));
    let own = joined(directory, "oxllm"@);
    assert(own.last() == 'm');
    assert(path@ == own + "/"@ + "config.toml"@);
    match xdg_config_home {
        Some(given) => {
            let between = if given@.len() == 0 || given@.last() == '/' {
                Seq::<char>::empty()
            } else {
                seq!['/']
            };
            assert(path@ == given@ + between + "oxllm/config.toml"@);
        },
        None => {
            assert(directory.last() == 'g');
            match home {
                Some(given) => {
                    let between = if given@.len() == 0 || given@.last() == '/' {
                        Seq::<char>::empty()
                    } else {
                        seq!['/']
                    };
                    assert(path@ == given@ + between + ".config/oxllm/config.toml"@);
                },
                None => {
                    assert(path@ == "./.config/oxllm/config.toml"@);
                },
            }
        },
    }
}

/// Whether a path is a relative one below a directory: the directory comes first, a slash follows
/// exactly where it needs one, and then the relative path.
pub open spec fn is_below(path: Seq<char>, directory: Seq<char>, relative: Seq<char>) -> bool {
    path == directory + (if directory.len() == 0 || directory.last() == '/' {
        Seq::<char>::empty()
    } else {
        seq!['/']
    }) + relative
}

/// The file that was asked for is taken, unless it does not exist and the user's one does.
pub proof fn existing_files_are_taken(
    given_exists: bool,
    user_exists: bool,
    location: ConfigLocation,
)
    requires
        call_ensures(resolve_config_path, (given_exists, user_exists), location),
    ensures
        location is UserDirectory <==> user_exists && !given_exists,
        location is Given <==> given_exists || !user_exists,
{
}

} // verus!
