//! How files, icons and settings of the session are found.

use vstd::prelude::*;

use crate::icons::IconFormat;
use crate::icons;
use crate::paths;
use crate::session::SeatWarning;
use crate::session;
use crate::text;

verus! {

proof fn lemma_split_behind(directory: Seq<char>, name: Seq<char>)
    requires
        !name.contains('/'),
    ensures
        text::split(directory + "/"@ + name, paths::slash()).len() > 0,
        text::split(directory + "/"@ + name, paths::slash()).last() == name,
    decreases name.len(),
{
    reveal_strlit("/");
    let whole = directory + "/"@ + name;
    text::lemma_split_nonempty(whole.drop_last(), paths::slash());
    if name.len() == 0 {
        assert(whole.last() == '/');
        assert(text::split(whole, paths::slash()).last() =~= name);
    } else {
        let shorter = name.drop_last();
        assert(!shorter.contains('/')) by {
            if shorter.contains('/') {
                let i = choose|i: int| 0 <= i < shorter.len() && shorter[i] == '/';
                assert(name[i] == '/');
            }
        }
        lemma_split_behind(directory, shorter);
        assert(whole.drop_last() =~= directory + "/"@ + shorter);
        assert(whole.last() == name.last());
        assert(name[name.len() - 1] != '/');
        assert(shorter.push(name.last()) =~= name);
    }
}

/// A file is called by what stands behind the last slash of its path.
pub proof fn files_are_called_by_the_last_part(directory: Seq<char>, name: Seq<char>)
    requires
        !name.contains('/'),
        name.len() > 0,
        name != "."@,
        name != ".."@,
    ensures
        paths::file_name(directory + "/"@ + name) == Some(name),
{
    lemma_split_behind(directory, name);
}

proof fn lemma_last_dot(base: Seq<char>, ending: Seq<char>)
    requires
        !ending.contains('.'),
    ensures
        paths::last_dot(base + "."@ + ending) == Some(base.len() as int),
    decreases ending.len(),
{
    reveal_strlit(".");
    let whole = base + "."@ + ending;
    if ending.len() == 0 {
        assert(whole.last() == '.');
    } else {
        let shorter = ending.drop_last();
        assert(!shorter.contains('.')) by {
            if shorter.contains('.') {
                let i = choose|i: int| 0 <= i < shorter.len() && shorter[i] == '.';
                assert(ending[i] == '.');
            }
        }
        lemma_last_dot(base, shorter);
        assert(whole.drop_last() =~= base + "."@ + shorter);
        assert(whole.last() == ending.last());
        assert(ending[ending.len() - 1] != '.');
    }
}

/// What stands before the last dot of the name of a file is its stem, and what
/// stands behind it tells its format.
pub proof fn formats_are_told_by_the_ending(
    directory: Seq<char>,
    base: Seq<char>,
    ending: Seq<char>,
)
    requires
        base.len() > 0,
        !base.contains('/'),
        !ending.contains('/'),
        !ending.contains('.'),
        ending.len() > 0,
    ensures
        paths::stem(directory + "/"@ + (base + "."@ + ending)) == Some(base),
        paths::extension(directory + "/"@ + (base + "."@ + ending)) == Some(ending),
        text::lowercased(ending) == "png"@ ==> icons::format_of(
            directory + "/"@ + (base + "."@ + ending),
        ) == Some(IconFormat::Png),
        text::lowercased(ending) == "jpg"@ ==> icons::format_of(
            directory + "/"@ + (base + "."@ + ending),
        ) == Some(IconFormat::Jpeg),
        text::lowercased(ending) == "jpeg"@ ==> icons::format_of(
            directory + "/"@ + (base + "."@ + ending),
        ) == Some(IconFormat::Jpeg),
        text::lowercased(ending) == "svg"@ ==> icons::format_of(
            directory + "/"@ + (base + "."@ + ending),
        ) is None,
{
    let name = base + "."@ + ending;
    reveal_strlit(".");
    reveal_strlit("..");
    assert(!name.contains('/')) by {
        if name.contains('/') {
            let i = choose|i: int| 0 <= i < name.len() && name[i] == '/';
            if i < base.len() {
                assert(base[i] == '/');
            } else if i > base.len() {
                assert(ending[i - base.len() - 1] == '/');
            }
        }
    }
    assert(name.len() >= 3);
    files_are_called_by_the_last_part(directory, name);
    lemma_last_dot(base, ending);
    assert(name.take(base.len() as int) =~= base);
    assert(name.skip(base.len() as int + 1) =~= ending);
    reveal_strlit("png");
    reveal_strlit("jpg");
    reveal_strlit("jpeg");
    reveal_strlit("svg");
    assert("png"@[0] == 'p' && "jpg"@[0] == 'j' && "svg"@[0] == 's' && "jpeg"@.len() == 4
        && "png"@.len() == 3 && "jpg"@.len() == 3 && "svg"@.len() == 3);
}

/// The file of an application is its name with one ending.
pub proof fn applications_have_desktop_files(app_id: Seq<char>)
    ensures
        text::ends(icons::desktop_file(app_id), ".desktop"@),
        text::begins(icons::desktop_file(app_id), app_id),
        icons::desktop_file(icons::desktop_file(app_id)) == icons::desktop_file(app_id),
        !text::ends(app_id, ".desktop"@) ==> icons::desktop_file(app_id) == app_id
            + ".desktop"@,
{
    let ending = ".desktop"@;
    let file = app_id + ending;
    assert(file.subrange(file.len() - ending.len(), file.len() as int) =~= ending);
    assert(file.subrange(0, app_id.len() as int) =~= app_id);
    assert(app_id.subrange(0, app_id.len() as int) =~= app_id);
}

/// The icon of an application is the first that the main group of its file
/// names; other groups do not count.
pub proof fn icons_are_named_in_the_main_group(
    lines: Seq<Seq<char>>,
    in_entry: bool,
    k: int,
    name: Seq<char>,
)
    requires
        0 <= k < lines.len(),
        forall|j: int|
            0 <= j < k ==> !text::begins(text::trimmed(#[trigger] lines[j]), "["@) && (in_entry
                ==> !text::begins(text::trimmed(lines[j]), "Icon="@)),
    ensures
        in_entry && text::trimmed(lines[k]) == "Icon="@ + name && name.len() > 0
            ==> icons::icon_named(lines, in_entry) == Some(name),
        text::trimmed(lines[k]) == "[Desktop Entry]"@ ==> icons::icon_named(lines, in_entry)
            == icons::icon_named(lines.skip(k + 1), true),
        text::begins(text::trimmed(lines[k]), "["@) && text::trimmed(lines[k])
            != "[Desktop Entry]"@ ==> icons::icon_named(lines, in_entry) == icons::icon_named(
            lines.skip(k + 1),
            false,
        ),
    decreases k,
{
    reveal_strlit("[");
    reveal_strlit("Icon=");
    reveal_strlit("[Desktop Entry]");
    let rest = lines.drop_first();
    if k == 0 {
        assert(rest =~= lines.skip(1));
        let line = text::trimmed(lines[0]);
        if in_entry && line == "Icon="@ + name && name.len() > 0 {
            assert(line[0] == 'I');
            assert(!text::begins(line, "["@)) by {
                if text::begins(line, "["@) {
                    assert(line.subrange(0, 1)[0] == line[0]);
                    assert("["@[0] == '[');
                }
            }
            assert(line.subrange(0, 5) =~= "Icon="@);
            assert(line.subrange(5, line.len() as int) =~= name);
        }
        if line == "[Desktop Entry]"@ {
            assert(line.subrange(0, 1) =~= "["@);
        }
    } else {
        assert forall|j: int| 0 <= j < k - 1 implies !text::begins(
            text::trimmed(#[trigger] rest[j]),
            "["@,
        ) && (in_entry ==> !text::begins(text::trimmed(rest[j]), "Icon="@)) by {
            assert(rest[j] == lines[j + 1]);
        }
        assert(!text::begins(text::trimmed(lines[0]), "["@));
        icons_are_named_in_the_main_group(rest, in_entry, k - 1, name);
        assert(rest[k - 1] == lines[k]);
        assert(rest.skip(k) =~= lines.skip(k + 1));
    }
}

/// An icon that is given as the path of a readable file is that file; another
/// is looked up, without regard to capital letters.
pub proof fn icons_are_looked_up_by_name(
    known: Seq<(Seq<char>, Seq<char>)>,
    icon: Seq<char>,
    k: int,
)
    requires
        0 <= k < known.len(),
    ensures
        text::begins(icon, "/"@) && icons::format_of(icon) is Some ==> icons::resolved(
            known,
            icon,
            true,
        ) == Some(icon),
        (forall|j: int| 0 <= j < k ==> (#[trigger] known[j]).0 != known[k].0) && (match paths::stem(
            icon,
        ) {
            Some(name) => text::lowercased(name),
            None => text::lowercased(icon),
        }) == known[k].0 ==> icons::resolved(known, icon, false) == Some(known[k].1),
{
    if forall|j: int| 0 <= j < k ==> (#[trigger] known[j]).0 != known[k].0 {
        lemma_path_of(known, k);
    }
}

proof fn lemma_path_of(known: Seq<(Seq<char>, Seq<char>)>, k: int)
    requires
        0 <= k < known.len(),
        forall|j: int| 0 <= j < k ==> (#[trigger] known[j]).0 != known[k].0,
    ensures
        icons::path_of(known, known[k].0) == Some(known[k].1),
    decreases k,
{
    if k > 0 {
        let rest = known.drop_first();
        assert(rest[k - 1] == known[k]);
        assert forall|j: int| 0 <= j < k - 1 implies (#[trigger] rest[j]).0 != rest[k - 1].0 by {
            assert(rest[j] == known[j + 1]);
        }
        lemma_path_of(rest, k - 1);
        assert(known[0].0 != known[k].0);
    }
}

/// The directory of the user comes before those of the system.
pub proof fn the_own_directory_comes_first(
    own: Seq<char>,
    home: Option<Seq<char>>,
    shared: Option<Seq<char>>,
)
    ensures
        icons::data_directories(Some(own), home, shared).len() > 1,
        icons::data_directories(Some(own), home, shared)[0] == own,
        icons::data_directories(None, Some(own), shared)[0] == paths::below(
            own,
            ".local/share"@,
        ),
        icons::data_directories(Some(own), home, shared).drop_first()
            == icons::data_directories(None, None, shared),
{
    text::lemma_split_nonempty(
        match shared {
            Some(directories) => directories,
            None => "/usr/local/share:/usr/share"@,
        },
        icons::colon(),
    );
    assert(icons::data_directories(Some(own), home, shared).drop_first()
        =~= icons::data_directories(None, None, shared));
}

/// A session is warned if another terminal is in the foreground than its own,
/// or if it has none.
pub proof fn sessions_belong_in_the_foreground(number: Seq<char>, shown: Seq<char>)
    requires
        text::trimmed(number) == number,
        text::trimmed("tty"@ + shown) == "tty"@ + shown,
        !text::begins(shown, "tty"@),
    ensures
        number == shown ==> session::seat_warning(Some(number), Some("tty"@ + shown))
            == SeatWarning::Fine,
        number != shown ==> session::seat_warning(Some(number), Some("tty"@ + shown))
            == SeatWarning::WrongTerminal,
        session::seat_warning(None, Some(shown)) == SeatWarning::NoSession,
        session::seat_warning(None, None) == SeatWarning::NoSession,
        session::seat_warning(Some(number), None) == SeatWarning::Fine,
{
    reveal_strlit("tty");
    let name = "tty"@ + shown;
    assert(name.subrange(0, 3) =~= "tty"@);
    assert(name.skip(3) =~= shown);
    assert(session::terminal_number(shown) == shown);
}

/// A property is read behind its name, from the last line that has it.
pub proof fn properties_are_read_behind_their_names(
    all: Seq<Seq<char>>,
    key: Seq<char>,
    value: Seq<char>,
    k: int,
)
    requires
        0 <= k < all.len(),
        all[k] == key + value,
        forall|j: int| k < j < all.len() ==> !text::begins(#[trigger] all[j], key),
    ensures
        session::last_value(all, key) == Some(value),
    decreases all.len(),
{
    if k == all.len() - 1 {
        assert(all.last() == key + value);
        assert((key + value).subrange(0, key.len() as int) =~= key);
        assert((key + value).skip(key.len() as int) =~= value);
    } else {
        assert(!text::begins(all[all.len() - 1], key));
        let fewer = all.drop_last();
        assert(fewer[k] == all[k]);
        assert forall|j: int| k < j < fewer.len() implies !text::begins(#[trigger] fewer[j], key) by {
            assert(fewer[j] == all[j]);
        }
        properties_are_read_behind_their_names(fewer, key, value, k);
    }
}

} // verus!
