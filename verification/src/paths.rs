//! Where configuration and logs are kept.

use crate::text;
use vstd::prelude::*;

verus! {

pub const CONFIG_FILE_NAME: &'static str = "config.toml";

pub const FRAGMENTS_NAME: &'static str = "conf.d";

/// The directories with configuration files.
#[derive(Debug)]
pub struct ConfigPaths {
    pub system_dir: String,
    pub user_dir: String,
}

/// The user's directory below their configuration directory.
pub open spec fn user_directory(config_dir: Option<Seq<char>>) -> Seq<char> {
    below(
        match config_dir {
            Some(directory) => directory,
            None => ".config"@,
        },
        "blair"@,
    )
}

impl ConfigPaths {
    /// The directories of the system and of a user whose configuration
    /// directory is `config_dir`.
    pub fn new(config_dir: &Option<String>) -> (paths: ConfigPaths)
        ensures
            paths.system_dir@ == "/etc/blair"@,
            paths.user_dir@ == user_directory(text::option(*config_dir)),
    {
        let base = match config_dir {
            Some(directory) => directory.as_str(),
            None => ".config",
        };
        ConfigPaths {
            system_dir: "/etc/blair".to_owned(),
            user_dir: join_path(base, "blair"),
        }
    }

    /// The file that the user's settings are written to.
    pub fn user_config_path(&self) -> (path: String)
        ensures
            path@ == below(self.user_dir@, CONFIG_FILE_NAME@),
    {
        join_path(self.user_dir.as_str(), CONFIG_FILE_NAME)
    }

    /// The files to load, the ones that win last: those of the system before
    /// those of the user, and in both the main file before its fragments,
    /// which are given by name.
    pub fn load_order(&self, system: &Vec<String>, user: &Vec<String>) -> (files: Vec<String>)
        ensures
            text::strings(files@) == directory_files(self.system_dir@, text::strings(system@))
                + directory_files(self.user_dir@, text::strings(user@)),
            text::strings(files@) == ordered_files(
                self.system_dir@,
                text::strings(system@),
                self.user_dir@,
                text::strings(user@),
            ),
    {
        let mut files: Vec<String> = Vec::new();
        push_directory(&mut files, self.system_dir.as_str(), system);
        push_directory(&mut files, self.user_dir.as_str(), user);
        assert(text::strings(files@) =~= directory_files(self.system_dir@, text::strings(system@))
            + directory_files(self.user_dir@, text::strings(user@)));
        files
    }
}

/// The files of the system and of the user, the ones that win last.
pub open spec fn ordered_files(
    system_dir: Seq<char>,
    system: Seq<Seq<char>>,
    user_dir: Seq<char>,
    user: Seq<Seq<char>>,
) -> Seq<Seq<char>> {
    directory_files(system_dir, system) + directory_files(user_dir, user)
}

/// The main file of a directory, and then its fragments.
pub open spec fn directory_files(directory: Seq<char>, fragments: Seq<Seq<char>>) -> Seq<
    Seq<char>,
> {
    seq![below(directory, CONFIG_FILE_NAME@)] + fragments.map_values(
        |name: Seq<char>| below(below(directory, FRAGMENTS_NAME@), name),
    )
}

fn push_directory(files: &mut Vec<String>, directory: &str, fragments: &Vec<String>)
    ensures
        text::strings(final(files)@) == text::strings(old(files)@) + directory_files(
            directory@,
            text::strings(fragments@),
        ),
{
    let ghost start = text::strings(files@);
    let ghost all = directory_files(directory@, text::strings(fragments@));
    files.push(join_path(directory, CONFIG_FILE_NAME));
    let drop_in = join_path(directory, FRAGMENTS_NAME);
    assert(text::strings(files@) =~= start + all.take(1));
    for i in 0..fragments.len()
        invariant
            drop_in@ == below(directory@, FRAGMENTS_NAME@),
            all == directory_files(directory@, text::strings(fragments@)),
            text::strings(files@) == start + all.take(i + 1),
    {
        let ghost before = text::strings(files@);
        let file = join_path(drop_in.as_str(), fragments[i].as_str());
        let ghost name = file@;
        files.push(file);
        assert(text::strings(files@) =~= before.push(name));
        assert(name == all[i + 1]);
        assert(start + all.take(i + 2) =~= (start + all.take(i + 1)).push(all[i + 1]));
    }
    assert(all.take(all.len() as int) =~= all);
}

/// The file that the user's settings are written to.
pub fn user_config_path(config_dir: &Option<String>) -> (path: String)
    ensures
        path@ == below(user_directory(text::option(*config_dir)), CONFIG_FILE_NAME@),
{
    ConfigPaths::new(config_dir).user_config_path()
}

/// The log file below a directory for state.
pub open spec fn log_below(base: Seq<char>) -> Seq<char> {
    below(below(base, "blair"@), "compositor.log"@)
}

/// The file to log to, out of the variables `XDG_STATE_HOME` and `HOME`; none
/// where neither is set.
pub fn state_log_path(state_home: &Option<String>, home: &Option<String>) -> (path: Option<String>)
    ensures
        text::option(path) == (match (text::option(*state_home), text::option(*home)) {
            (Some(base), _) => Some(log_below(base)),
            (None, Some(home)) => Some(log_below(below(home, ".local/state"@))),
            (None, None) => None,
        }),
{
    let base = match state_home {
        Some(base) => base.clone(),
        None => match home {
            Some(home) => join_path(home.as_str(), ".local/state"),
            None => {
                return None;
            },
        },
    };
    let directory = join_path(base.as_str(), "blair");
    Some(join_path(directory.as_str(), "compositor.log"))
}

/// A path component ends here.
pub open spec fn slash() -> spec_fn(char) -> bool {
    |c: char| c == '/'
}

/// The last piece that names anything, which an empty piece and `.` do not.
pub open spec fn last_name(pieces: Seq<Seq<char>>) -> Option<Seq<char>>
    decreases pieces.len(),
{
    if pieces.len() == 0 {
        None
    } else if pieces.last().len() == 0 || pieces.last() == "."@ {
        last_name(pieces.drop_last())
    } else {
        Some(pieces.last())
    }
}

/// The final component of a path; a path that ends in `..` has none.
pub open spec fn file_name(path: Seq<char>) -> Option<Seq<char>> {
    match last_name(text::split(path, slash())) {
        Some(name) => if name == ".."@ {
            None
        } else {
            Some(name)
        },
        None => None,
    }
}

/// The place of the last dot.
pub open spec fn last_dot(name: Seq<char>) -> Option<int>
    decreases name.len(),
{
    if name.len() == 0 {
        None
    } else if name.last() == '.' {
        Some(name.len() - 1)
    } else {
        last_dot(name.drop_last())
    }
}

/// The final component without its extension. A dot at the front does not
/// begin one.
pub open spec fn stem(path: Seq<char>) -> Option<Seq<char>> {
    match file_name(path) {
        Some(name) => match last_dot(name) {
            Some(at) => if at > 0 {
                Some(name.take(at))
            } else {
                Some(name)
            },
            None => Some(name),
        },
        None => None,
    }
}

/// What follows the last dot of the final component.
pub open spec fn extension(path: Seq<char>) -> Option<Seq<char>> {
    match file_name(path) {
        Some(name) => match last_dot(name) {
            Some(at) => if at > 0 {
                Some(name.skip(at + 1))
            } else {
                None
            },
            None => None,
        },
        None => None,
    }
}

/// The final component of a path.
pub fn name_in(path: &str) -> (name: Option<Vec<char>>)
    ensures
        match name {
            Some(name) => file_name(path@) == Some(name@),
            None => file_name(path@) is None,
        },
{
    let chars = text::chars_of(path);
    let pieces = text::split_on(chars.as_slice(), '/', '/');
    let ghost all = text::split(path@, slash());
    proof {
        assert((|c: char| c == '/' || c == '/') =~= slash());
        assert(all.take(all.len() as int) =~= all);
    }
    let mut n: usize = pieces.len();
    while n > 0
        invariant
            n <= pieces@.len(),
            all == text::views(pieces@),
            all == text::split(path@, slash()),
            last_name(all) == last_name(all.take(n as int)),
        decreases n,
    {
        let piece = &pieces[n - 1];
        assert(all.take(n as int).last() == piece@);
        assert(all.take(n as int).drop_last() =~= all.take(n - 1));
        if piece.len() > 0 && !text::chars_are(piece.as_slice(), ".") {
            if text::chars_are(piece.as_slice(), "..") {
                return None;
            }
            let name = text::slice_of(piece.as_slice(), 0, piece.len());
            assert(name@ =~= piece@);
            return Some(name);
        }
        n = n - 1;
    }
    assert(all.take(0).len() == 0);
    None
}

/// The place of the last dot.
pub fn dot_in(name: &Vec<char>) -> (place: Option<usize>)
    ensures
        match place {
            Some(at) => at < name@.len() && last_dot(name@) == Some(at as int),
            None => last_dot(name@) is None,
        },
{
    let mut n: usize = name.len();
    assert(name@.take(n as int) =~= name@);
    while n > 0
        invariant
            n <= name@.len(),
            last_dot(name@) == last_dot(name@.take(n as int)),
        decreases n,
    {
        assert(name@.take(n as int).last() == name@[n - 1]);
        assert(name@.take(n as int).drop_last() =~= name@.take(n - 1));
        if name[n - 1] == '.' {
            return Some(n - 1);
        }
        n = n - 1;
    }
    None
}

/// The final component of a path without its extension.
pub fn file_stem(path: &str) -> (r: Option<String>)
    ensures
        text::option(r) == stem(path@),
{
    match name_in(path) {
        Some(name) => {
            let end: usize = match dot_in(&name) {
                Some(at) => if at > 0 {
                    at
                } else {
                    name.len()
                },
                None => name.len(),
            };
            let part = text::slice_of(name.as_slice(), 0, end);
            assert(part@ =~= name@.take(end as int));
            assert(name@.take(name@.len() as int) =~= name@);
            Some(text::string_of(part.as_slice()))
        },
        None => None,
    }
}

/// A path below a directory. An absolute path stays as it is.
pub open spec fn below(directory: Seq<char>, path: Seq<char>) -> Seq<char> {
    if text::begins(path, "/"@) || directory.len() == 0 {
        path
    } else if directory.last() == '/' {
        directory + path
    } else {
        directory + "/"@ + path
    }
}

/// Appends a path to a directory.
pub fn join_path(directory: &str, path: &str) -> (r: String)
    ensures
        r@ == below(directory@, path@),
{
    let directory_chars = text::chars_of(directory);
    let path_chars = text::chars_of(path);
    let count: usize = directory_chars.len();
    if text::starts_with(path_chars.as_slice(), "/") || count == 0 {
        path.to_owned()
    } else if directory_chars[count - 1] == '/' {
        text::join2(directory, path)
    } else {
        text::join3(directory, "/", path)
    }
}

} // verus!
