//! Where the application keeps its store, by the directories of the
//! platform.

use vstd::prelude::*;
use crate::text::{same_text, slice_view, text_view};

verus! {

/// A path with one more component: the component follows the separator,
/// which is left out after an empty path and after a path that ends in it.
pub open spec fn joined(base: Seq<char>, separator: Seq<char>, part: Seq<char>) -> Seq<char> {
    if base.len() == 0 || (base.len() >= separator.len() && base.subrange(base.len() - separator.len(), base.len() as int)
        == separator) {
        base + part
    } else {
        base + separator + part
    }
}

/// A path with one more component.
pub fn join(base: &str, separator: &str, part: &str) -> (path: String)
    ensures
        path@ == joined(base@, separator@, part@),
{
    let length = base.unicode_len();
    let width = separator.unicode_len();
    let mut path = base.to_owned();
    let bare = length == 0 || (length >= width && same_text(base.substring_char(length - width, length), separator));
    if !bare {
        path.append(separator);
    }
    path.append(part);
    path
}

/// The directory in which the application keeps the data of all its
/// users, below the platform's directory for configuration or for data.
pub open spec fn storage_below(base: Seq<char>, separator: Seq<char>) -> Seq<char> {
    joined(joined(joined(base, separator, "Antigravity"@), separator, "User"@), separator, "globalStorage"@)
}

/// The platform's directory below which the application keeps its data:
/// the one for configuration on Windows, and on Linux where there is one;
/// the one for data everywhere else.
pub open spec fn base_directory(os: Seq<char>, config_dir: Option<Seq<char>>, data_dir: Option<Seq<char>>) -> Option<Seq<char>> {
    if os == "windows"@ {
        config_dir
    } else if os == "linux"@ {
        if config_dir is Some {
            config_dir
        } else {
            data_dir
        }
    } else {
        data_dir
    }
}

/// The directory of the application's data, as far as the platform's
/// directories are known.
pub open spec fn data_directory(
    os: Seq<char>,
    config_dir: Option<Seq<char>>,
    data_dir: Option<Seq<char>>,
    separator: Seq<char>,
) -> Option<Seq<char>> {
    match base_directory(os, config_dir, data_dir) {
        Some(base) => Some(storage_below(base, separator)),
        None => None,
    }
}

/// The directory of the application's data on the platform `os`, whose
/// directories for configuration and for data are given as far as they
/// are known.
pub fn get_antigravity_data_dir(os: &str, config_dir: Option<&str>, data_dir: Option<&str>, separator: &str) -> (directory: Option<String>)
    ensures
        text_view(directory) == data_directory(
            os@,
            slice_view(config_dir),
            slice_view(data_dir),
            separator@,
        ),
{
    let base = if same_text(os, "windows") {
        config_dir
    } else if same_text(os, "linux") {
        if config_dir.is_some() {
            config_dir
        } else {
            data_dir
        }
    } else {
        data_dir
    };
    match base {
        Some(base) => {
            let first = join(base, separator, "Antigravity");
            let second = join(first.as_str(), separator, "User");
            Some(join(second.as_str(), separator, "globalStorage"))
        },
        None => None,
    }
}

/// The directory of this application's own files, below one of the
/// platform's directories.
pub open spec fn own_directory(base: Seq<char>, separator: Seq<char>) -> Seq<char> {
    joined(base, separator, ".antigravity-agent"@)
}

/// The directory of this application's log files.
///
/// On Windows it lies below the directory that the environment names for
/// the data of applications; where the environment names none, below
/// `AppData` and `Roaming` in the user's home; where that is not known
/// either, below the platform's directory for configuration; and at last
/// in the working directory. Elsewhere it lies below the platform's
/// directory for configuration, or below the working directory.
pub open spec fn log_directory(
    windows: bool,
    app_data: Option<Seq<char>>,
    home: Option<Seq<char>>,
    config_dir: Option<Seq<char>>,
    separator: Seq<char>,
) -> Seq<char> {
    let own = if windows {
        match app_data {
            Some(base) => own_directory(base, separator),
            None => match home {
                Some(base) => own_directory(joined(joined(base, separator, "AppData"@), separator, "Roaming"@), separator),
                None => match config_dir {
                    Some(base) => own_directory(base, separator),
                    None => ".antigravity-agent"@,
                },
            },
        }
    } else {
        match config_dir {
            Some(base) => own_directory(base, separator),
            None => own_directory("."@, separator),
        }
    };
    joined(own, separator, "logs"@)
}

/// The directory of this application's log files, from the directories
/// of the platform as far as they are known.
pub fn get_log_directory(windows: bool, app_data: Option<&str>, home: Option<&str>, config_dir: Option<&str>, separator: &str) -> (directory: String)
    ensures
        directory@ == log_directory(windows, slice_view(app_data), slice_view(home), slice_view(config_dir), separator@),
{
    let own = if windows {
        match app_data {
            Some(base) => join(base, separator, ".antigravity-agent"),
            None => match home {
                Some(base) => {
                    let first = join(base, separator, "AppData");
                    let second = join(first.as_str(), separator, "Roaming");
                    join(second.as_str(), separator, ".antigravity-agent")
                },
                None => match config_dir {
                    Some(base) => join(base, separator, ".antigravity-agent"),
                    None => ".antigravity-agent".to_owned(),
                },
            },
        }
    } else {
        match config_dir {
            Some(base) => join(base, separator, ".antigravity-agent"),
            None => join(".", separator, ".antigravity-agent"),
        }
    };
    join(own.as_str(), separator, "logs")
}

/// The file of the primary store, in the directory of the application's
/// data.
pub fn get_antigravity_db_path(data_dir: Option<&str>, separator: &str) -> (path: Option<String>)
    ensures
        text_view(path) == match data_dir {
            Some(directory) => Some(joined(directory@, separator@, "state.vscdb"@)),
            None => None,
        },
{
    match data_dir {
        Some(directory) => Some(join(directory, separator, "state.vscdb")),
        None => None,
    }
}

/// Whether the application is installed: the path of its primary store is
/// known, and a file exists there.
pub fn is_antigravity_available(db_path_exists: Option<bool>) -> (available: bool)
    ensures
        available == (db_path_exists == Some(true)),
{
    match db_path_exists {
        Some(exists) => exists,
        None => false,
    }
}

} // verus!
