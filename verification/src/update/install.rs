//! Where this binary runs from, and so what an update replaces. A build run from its build
//! tree is not replaced; an AppImage is replaced where its runtime says it is; on macOS the
//! bundle the binary is inside is, unless it runs from a mounted disk image; on Windows the
//! executable; on Linux otherwise the bare binary. Paths are read as `std::path::Path` reads
//! them.

use vstd::prelude::*;

verus! {

/// Where this binary runs from, and so what an update replaces.
#[derive(Clone, Debug, PartialEq, Eq)]
pub enum Place {
    /// macOS: the `.app` this binary is inside.
    Bundle(String),
    /// Windows: the executable itself.
    Exe(String),
    /// Linux: the AppImage this process was mounted from, which its runtime names in `APPIMAGE`.
    AppImage(String),
    /// Linux: a bare binary, as the tarball's `install.sh` put it.
    Binary(String),
}

impl Place {
    /// The kind of release file that replaces this place, as `latest.json` names kinds.
    pub open spec fn kind_spec(self) -> Seq<char> {
        match self {
            Place::Bundle(_) => "dmg"@,
            Place::Exe(_) => "zip"@,
            Place::AppImage(_) => "AppImage"@,
            Place::Binary(_) => "tar.gz"@,
        }
    }

    /// The path of the place.
    pub open spec fn path_spec(self) -> Seq<char> {
        match self {
            Place::Bundle(p) => p@,
            Place::Exe(p) => p@,
            Place::AppImage(p) => p@,
            Place::Binary(p) => p@,
        }
    }

    /// The kind of release file that replaces this place, as `latest.json` names kinds.
    pub fn kind(&self) -> (r: &'static str)
        ensures
            r@ == self.kind_spec(),
    {
        match self {
            Place::Bundle(_) => "dmg",
            Place::Exe(_) => "zip",
            Place::AppImage(_) => "AppImage",
            Place::Binary(_) => "tar.gz",
        }
    }
}

/// The components of a path, each as its text, as `Path::components` yields them.
pub uninterp spec fn path_components_of(path: Seq<char>) -> Seq<Seq<char>>;

/// `Path::components`, each component's `as_os_str` as text. Claimed: the result is a function
/// of the path alone, named `path_components_of`.
#[verifier::external_body]
fn path_components(path: &str) -> (r: Vec<String>)
    ensures
        r@.map_values(|c: String| c@) == path_components_of(path@),
{
    std::path::Path::new(path).components().map(
        |c| c.as_os_str().to_string_lossy().into_owned(),
    ).collect()
}

/// The `n`th of a path's ancestors, the path itself being the first, as `Path::ancestors`
/// yields them.
pub uninterp spec fn ancestor_of(path: Seq<char>, n: nat) -> Option<Seq<char>>;

/// `Path::ancestors` and the `n`th of them. Claimed: the result is a function of the path and
/// `n` alone, named `ancestor_of`.
#[verifier::external_body]
fn path_ancestor(path: &str, n: usize) -> (r: Option<String>)
    ensures
        match r {
            Some(a) => ancestor_of(path@, n as nat) == Some(a@),
            None => ancestor_of(path@, n as nat) is None,
        },
{
    std::path::Path::new(path).ancestors().nth(n).map(|a| a.to_string_lossy().into_owned())
}

/// The extension of a path's file name, as `Path::extension` gives it.
pub uninterp spec fn extension_of(path: Seq<char>) -> Option<Seq<char>>;

/// `Path::extension`. Claimed: the result is a function of the path alone, named
/// `extension_of`.
#[verifier::external_body]
fn path_extension(path: &str) -> (r: Option<String>)
    ensures
        match r {
            Some(e) => extension_of(path@) == Some(e@),
            None => extension_of(path@) is None,
        },
{
    std::path::Path::new(path).extension().map(|e| e.to_string_lossy().into_owned())
}

/// Whether the path begins with the components of `base`, as `Path::starts_with` says.
pub uninterp spec fn path_starts_with(path: Seq<char>, base: Seq<char>) -> bool;

/// `Path::starts_with`. Claimed: the answer is a function of the two paths alone, named
/// `path_starts_with`.
#[verifier::external_body]
fn path_begins_with(path: &str, base: &str) -> (r: bool)
    ensures
        r == path_starts_with(path@, base@),
{
    std::path::Path::new(path).starts_with(base)
}

/// The last component of a path, as `Path::file_name` gives it.
pub uninterp spec fn file_name_of(path: Seq<char>) -> Option<Seq<char>>;

/// `Path::file_name`. Claimed: the result is a function of the path alone, named
/// `file_name_of`.
#[verifier::external_body]
fn path_file_name(path: &str) -> (r: Option<String>)
    ensures
        match r {
            Some(n) => file_name_of(path@) == Some(n@),
            None => file_name_of(path@) is None,
        },
{
    std::path::Path::new(path).file_name().map(|n| n.to_string_lossy().into_owned())
}

/// The path with its file name replaced, as `Path::with_file_name` makes it.
pub uninterp spec fn with_file_name_of(path: Seq<char>, name: Seq<char>) -> Seq<char>;

/// `Path::with_file_name`. Claimed: the result is a function of the path and the name alone,
/// named `with_file_name_of`.
#[verifier::external_body]
fn path_with_file_name(path: &str, name: &str) -> (r: String)
    ensures
        r@ == with_file_name_of(path@, name@),
{
    std::path::Path::new(path).with_file_name(name).to_string_lossy().into_owned()
}

/// Why a build in its build tree is not replaced.
pub open spec fn in_build_tree() -> Seq<char> {
    "this build runs from its build tree and is not replaced"@
}

/// Why a macOS binary outside a bundle is not replaced.
pub open spec fn outside_bundle() -> Seq<char> {
    "this binary is not inside an application bundle"@
}

/// Why a bundle on a mounted disk image is not replaced.
pub open spec fn on_installer() -> Seq<char> {
    "drag the application into Applications first; it runs from the installer"@
}

/// What the path says of a bundle three levels above the executable: the ancestor itself, its
/// extension, and whether it lies under `/Volumes`.
pub open spec fn bundle_view(bundle: Option<(String, Option<String>, bool)>) -> Option<
    (Seq<char>, Option<Seq<char>>, bool),
> {
    match bundle {
        Some((b, ext, volumes)) => Some(
            (
                b@,
                match ext {
                    Some(e) => Some(e@),
                    None => None,
                },
                volumes,
            ),
        ),
        None => None,
    }
}

/// Where a process runs from, given what its executable's path says: its components, and the
/// bundle it may be inside. As the kind of file that replaces the place and its path, or why
/// nothing is replaced.
pub open spec fn placed(
    exe: Seq<char>,
    appimage: Option<Seq<char>>,
    os: Seq<char>,
    components: Seq<Seq<char>>,
    bundle: Option<(Seq<char>, Option<Seq<char>>, bool)>,
) -> Result<(Seq<char>, Seq<char>), Seq<char>> {
    if components.contains("target"@) {
        Err(in_build_tree())
    } else if appimage is Some {
        Ok(("AppImage"@, appimage->0))
    } else if os == "macos"@ {
        match bundle {
            Some((b, ext, volumes)) => if ext == Some("app"@) {
                if volumes {
                    Err(on_installer())
                } else {
                    Ok(("dmg"@, b))
                }
            } else {
                Err(outside_bundle())
            },
            None => Err(outside_bundle()),
        }
    } else if os == "windows"@ {
        Ok(("zip"@, exe))
    } else {
        Ok(("tar.gz"@, exe))
    }
}

/// What `locate` decides: `placed`, with what `std::path` reads in the executable's path.
pub open spec fn located(exe: Seq<char>, appimage: Option<Seq<char>>, os: Seq<char>) -> Result<
    (Seq<char>, Seq<char>),
    Seq<char>,
> {
    placed(
        exe,
        appimage,
        os,
        path_components_of(exe),
        match ancestor_of(exe, 3) {
            Some(b) => Some((b, extension_of(b), path_starts_with(b, "/Volumes"@))),
            None => None,
        },
    )
}

/// Where a process runs from, from its executable's path, the `APPIMAGE` its runtime set if
/// any, the system, and what the path says: its components, and the ancestor three levels up
/// with its extension and whether it lies under `/Volumes`. A build run from its build tree --
/// a `target` component -- is not replaced: that is the developer's, and Cargo's to overwrite.
/// On macOS the bundle is that ancestor, `X.app/Contents/MacOS/X`, and one on a mounted disk
/// image is running from the installer rather than installed.
pub fn place_of(
    exe: &str,
    appimage: Option<&str>,
    os: &str,
    components: &[String],
    bundle: Option<(String, Option<String>, bool)>,
) -> (r: Result<Place, String>)
    ensures
        match r {
            Ok(p) => placed(exe@, match appimage {
                Some(a) => Some(a@),
                None => None,
            }, os@, components@.map_values(|c: String| c@), bundle_view(bundle)) == Ok::<
                (Seq<char>, Seq<char>),
                Seq<char>,
            >((p.kind_spec(), p.path_spec())),
            Err(e) => placed(exe@, match appimage {
                Some(a) => Some(a@),
                None => None,
            }, os@, components@.map_values(|c: String| c@), bundle_view(bundle)) == Err::<
                (Seq<char>, Seq<char>),
                Seq<char>,
            >(e@),
        },
{
    let target = String::from_str("target");
    let ghost comps = components@.map_values(|c: String| c@);
    let mut i: usize = 0;
    while i < components.len()
        invariant
            i <= components@.len(),
            target@ == "target"@,
            comps == components@.map_values(|c: String| c@),
            forall|j: int| 0 <= j < i ==> components@[j]@ != "target"@,
        decreases components.len() - i,
    {
        if components[i] == target {
            assert(comps[i as int] == "target"@);
            assert(comps.contains("target"@));
            return Err(String::from_str("this build runs from its build tree and is not replaced"));
        }
        i = i + 1;
    }
    assert(!comps.contains("target"@)) by {
        if comps.contains("target"@) {
            let j = choose|j: int| 0 <= j < comps.len() && comps[j] == "target"@;
            assert(components@[j]@ == comps[j]);
        }
    }
    if let Some(appimage) = appimage {
        return Ok(Place::AppImage(String::from_str(appimage)));
    }
    let macos = String::from_str("macos");
    let windows = String::from_str("windows");
    let system = String::from_str(os);
    if system == macos {
        let (bundle, ext, volumes) = match bundle {
            Some(b) => b,
            None => return Err(String::from_str("this binary is not inside an application bundle")),
        };
        let app = match ext {
            Some(e) => e == String::from_str("app"),
            None => false,
        };
        if !app {
            return Err(String::from_str("this binary is not inside an application bundle"));
        }
        if volumes {
            return Err(
                String::from_str(
                    "drag the application into Applications first; it runs from the installer",
                ),
            );
        }
        Ok(Place::Bundle(bundle))
    } else if system == windows {
        Ok(Place::Exe(String::from_str(exe)))
    } else {
        Ok(Place::Binary(String::from_str(exe)))
    }
}

/// Where a process runs from, from its executable's path, the `APPIMAGE` its runtime set if
/// any, and the system: `place_of`, with what `std::path` reads in the path.
pub fn locate(exe: &str, appimage: Option<&str>, os: &str) -> (r: Result<Place, String>)
    ensures
        match r {
            Ok(p) => located(exe@, match appimage {
                Some(a) => Some(a@),
                None => None,
            }, os@) == Ok::<(Seq<char>, Seq<char>), Seq<char>>((p.kind_spec(), p.path_spec())),
            Err(e) => located(exe@, match appimage {
                Some(a) => Some(a@),
                None => None,
            }, os@) == Err::<(Seq<char>, Seq<char>), Seq<char>>(e@),
        },
{
    let parts = path_components(exe);
    let bundle = match path_ancestor(exe, 3) {
        Some(b) => {
            let ext = path_extension(b.as_str());
            let volumes = path_begins_with(b.as_str(), "/Volumes");
            Some((b, ext, volumes))
        },
        None => None,
    };
    proof {
        reveal_strlit("/Volumes");
    }
    place_of(exe, appimage, os, parts.as_slice(), bundle)
}

/// The name of a hidden sibling: a dot, the file's own name, a dot and the tag.
pub open spec fn sibling_name(path: Seq<char>, tag: Seq<char>) -> Seq<char> {
    "."@ + match file_name_of(path) {
        Some(n) => n,
        None => Seq::<char>::empty(),
    } + "."@ + tag
}

/// A hidden sibling of the path, for a file on its way in or out.
pub fn beside(path: &str, tag: &str) -> (r: String)
    ensures
        r@ == with_file_name_of(path@, sibling_name(path@, tag@)),
{
    let name = match path_file_name(path) {
        Some(n) => n,
        None => String::new(),
    };
    let mut hidden = String::from_str(".");
    hidden.append(name.as_str());
    hidden.append(".");
    hidden.append(tag);
    path_with_file_name(path, hidden.as_str())
}

} // verus!
