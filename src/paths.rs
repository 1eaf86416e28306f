use vstd::prelude::*;

verus! {

/// Which per-user directory is meant.
#[derive(Clone, Copy, Debug, PartialEq, Eq, Structural)]
pub enum DirKind {
    Data,
    Config,
}

/// A directory could not be located because the environment lacks a variable.
#[derive(Clone, Copy, Debug, PartialEq, Eq, Structural)]
pub enum PathError {
    /// On Windows, `APPDATA` is unset.
    MissingAppData,
    /// Elsewhere, neither the XDG variable for the kind nor `HOME` is set.
    MissingHome,
}

/// The XDG variable that overrides the root of a kind of directory.
pub open spec fn xdg_var_spec(kind: DirKind) -> Seq<char> {
    match kind {
        DirKind::Data => "XDG_DATA_HOME"@,
        DirKind::Config => "XDG_CONFIG_HOME"@,
    }
}

/// Where a kind of directory lies under the home directory when its XDG
/// variable is unset.
pub open spec fn home_suffix_spec(kind: DirKind) -> Seq<char> {
    match kind {
        DirKind::Data => ".local/share/"@,
        DirKind::Config => ".config"@,
    }
}

pub open spec fn chars_of(parts: Seq<String>) -> Seq<Seq<char>> {
    parts.map_values(|s: String| s@)
}

/// The components of the application's directory, to be joined in order:
/// on Windows `APPDATA`; elsewhere the XDG variable, or else `HOME` with the
/// kind's suffix; in each case followed by the application's name.
pub open spec fn app_dir_spec(
    kind: DirKind,
    windows: bool,
    appdata: Option<String>,
    xdg: Option<String>,
    home: Option<String>,
) -> Result<Seq<Seq<char>>, PathError> {
    if windows {
        match appdata {
            Some(a) => Ok(seq![a@, "fig"@]),
            None => Err(PathError::MissingAppData),
        }
    } else {
        match xdg {
            Some(x) => Ok(seq![x@, "fig"@]),
            None => match home {
                Some(h) => Ok(seq![h@, home_suffix_spec(kind), "fig"@]),
                None => Err(PathError::MissingHome),
            },
        }
    }
}

/// The name of the environment variable that `app_dir` takes as `xdg`.
pub fn xdg_var(kind: DirKind) -> (r: &'static str)
    ensures
        r@ == xdg_var_spec(kind),
{
    match kind {
        DirKind::Data => "XDG_DATA_HOME",
        DirKind::Config => "XDG_CONFIG_HOME",
    }
}

/// Chooses the application's data or config directory from the platform and
/// the values of `APPDATA`, the kind's XDG variable and `HOME`.
pub fn app_dir(
    kind: DirKind,
    windows: bool,
    appdata: Option<String>,
    xdg: Option<String>,
    home: Option<String>,
) -> (r: Result<Vec<String>, PathError>)
    ensures
        match (r, app_dir_spec(kind, windows, appdata, xdg, home)) {
            (Ok(v), Ok(s)) => chars_of(v@) == s,
            (Err(e), Err(f)) => e == f,
            _ => false,
        },
{
    let root: Vec<String> = if windows {
        match appdata {
            Some(a) => vec![a],
            None => {
                return Err(PathError::MissingAppData);
            },
        }
    } else {
        match xdg {
            Some(x) => vec![x],
            None => match home {
                Some(h) => {
                    let suffix = match kind {
                        DirKind::Data => ".local/share/".to_owned(),
                        DirKind::Config => ".config".to_owned(),
                    };
                    vec![h, suffix]
                },
                None => {
                    return Err(PathError::MissingHome);
                },
            },
        }
    };
    let mut parts = root;
    parts.push("fig".to_owned());
    assert(chars_of(parts@) =~= app_dir_spec(kind, windows, appdata, xdg, home)->Ok_0);
    Ok(parts)
}

} // verus!
