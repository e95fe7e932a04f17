//! The application's icon set: each [`Icon`] names one single-tone SVG
//! asset under `icons/`, and [`Assets`] resolves an asset path back to the
//! icon it names.
use vstd::prelude::*;
use vstd::string::*;
use crate::text::{chars_of, eq_str};

verus! {

/// One glyph of the icon set.
#[derive(Debug, Clone, Copy, PartialEq, Eq, Structural)]
pub enum Icon {
    Plus,
    Branch,
    Folder,
    Warning,
    NotFound,
    Chevron,
    Close,
    More,
    Files,
    Diff,
    History,
    Grid,
    Info,
    Window,
    Check,
}

/// The asset path of each icon.
pub open spec fn icon_path(i: Icon) -> Seq<char> {
    match i {
        Icon::Plus => "icons/plus.svg"@,
        Icon::Branch => "icons/branch.svg"@,
        Icon::Folder => "icons/folder.svg"@,
        Icon::Warning => "icons/warning.svg"@,
        Icon::NotFound => "icons/not-found.svg"@,
        Icon::Chevron => "icons/chevron.svg"@,
        Icon::Close => "icons/close.svg"@,
        Icon::More => "icons/more.svg"@,
        Icon::Files => "icons/files.svg"@,
        Icon::Diff => "icons/diff.svg"@,
        Icon::History => "icons/history.svg"@,
        Icon::Grid => "icons/grid.svg"@,
        Icon::Info => "icons/info.svg"@,
        Icon::Window => "icons/window.svg"@,
        Icon::Check => "icons/check.svg"@,
    }
}

/// Every icon, in declaration order.
pub open spec fn all_icons() -> Seq<Icon> {
    seq![
        Icon::Plus,
        Icon::Branch,
        Icon::Folder,
        Icon::Warning,
        Icon::NotFound,
        Icon::Chevron,
        Icon::Close,
        Icon::More,
        Icon::Files,
        Icon::Diff,
        Icon::History,
        Icon::Grid,
        Icon::Info,
        Icon::Window,
        Icon::Check,
    ]
}

impl Icon {
    /// The asset path this icon loads from.
    pub fn asset_path(self) -> (r: &'static str)
        ensures
            r@ == icon_path(self),
    {
        match self {
            Icon::Plus => "icons/plus.svg",
            Icon::Branch => "icons/branch.svg",
            Icon::Folder => "icons/folder.svg",
            Icon::Warning => "icons/warning.svg",
            Icon::NotFound => "icons/not-found.svg",
            Icon::Chevron => "icons/chevron.svg",
            Icon::Close => "icons/close.svg",
            Icon::More => "icons/more.svg",
            Icon::Files => "icons/files.svg",
            Icon::Diff => "icons/diff.svg",
            Icon::History => "icons/history.svg",
            Icon::Grid => "icons/grid.svg",
            Icon::Info => "icons/info.svg",
            Icon::Window => "icons/window.svg",
            Icon::Check => "icons/check.svg",
        }
    }

    /// Every icon, in declaration order.
    pub fn all() -> (r: Vec<Icon>)
        ensures
            r@ == all_icons(),
    {
        let r = vec![
            Icon::Plus,
            Icon::Branch,
            Icon::Folder,
            Icon::Warning,
            Icon::NotFound,
            Icon::Chevron,
            Icon::Close,
            Icon::More,
            Icon::Files,
            Icon::Diff,
            Icon::History,
            Icon::Grid,
            Icon::Info,
            Icon::Window,
            Icon::Check,
        ];
        assert(r@ =~= all_icons());
        r
    }
}

/// The icon whose asset path is `p`, if any.
pub open spec fn icon_at_path(p: Seq<char>) -> Option<Icon> {
    if p == icon_path(Icon::Plus) {
        Some(Icon::Plus)
    } else if p == icon_path(Icon::Branch) {
        Some(Icon::Branch)
    } else if p == icon_path(Icon::Folder) {
        Some(Icon::Folder)
    } else if p == icon_path(Icon::Warning) {
        Some(Icon::Warning)
    } else if p == icon_path(Icon::NotFound) {
        Some(Icon::NotFound)
    } else if p == icon_path(Icon::Chevron) {
        Some(Icon::Chevron)
    } else if p == icon_path(Icon::Close) {
        Some(Icon::Close)
    } else if p == icon_path(Icon::More) {
        Some(Icon::More)
    } else if p == icon_path(Icon::Files) {
        Some(Icon::Files)
    } else if p == icon_path(Icon::Diff) {
        Some(Icon::Diff)
    } else if p == icon_path(Icon::History) {
        Some(Icon::History)
    } else if p == icon_path(Icon::Grid) {
        Some(Icon::Grid)
    } else if p == icon_path(Icon::Info) {
        Some(Icon::Info)
    } else if p == icon_path(Icon::Window) {
        Some(Icon::Window)
    } else if p == icon_path(Icon::Check) {
        Some(Icon::Check)
    } else {
        None
    }
}

/// The asset source of the icon set: serves exactly the paths
/// [`Icon::asset_path`] names.
pub struct Assets;

impl Assets {
    /// The icon an asset path names; any other path is "not found".
    pub fn resolve(&self, path: &str) -> (r: Option<Icon>)
        ensures
            r == icon_at_path(path@),
    {
        let p = chars_of(path);
        let icons = Icon::all();
        let mut i: usize = 0;
        while i < icons.len()
            invariant
                icons@ == all_icons(),
                p@ == path@,
                i <= icons@.len(),
                forall|j: int| 0 <= j < i ==> p@ != icon_path(#[trigger] all_icons()[j]),
            decreases icons@.len() - i,
        {
            let icon = icons[i];
            if eq_str(&p, icon.asset_path()) {
                return Some(icon);
            }
            i += 1;
        }
        None
    }
}

/// Every icon's path lies under `icons/`, and the path resolves back to
/// that icon: the path table and the resolver never disagree, and no two
/// icons share a path.
pub proof fn law_asset_paths_resolve(i: Icon)
    ensures
        icon_at_path(icon_path(i)) == Some(i),
        icon_path(i).subrange(0, 6) == "icons/"@,
{
    reveal_strlit("icons/");
    reveal_strlit("icons/plus.svg");
    reveal_strlit("icons/branch.svg");
    reveal_strlit("icons/folder.svg");
    reveal_strlit("icons/warning.svg");
    reveal_strlit("icons/not-found.svg");
    reveal_strlit("icons/chevron.svg");
    reveal_strlit("icons/close.svg");
    reveal_strlit("icons/more.svg");
    reveal_strlit("icons/files.svg");
    reveal_strlit("icons/diff.svg");
    reveal_strlit("icons/history.svg");
    reveal_strlit("icons/grid.svg");
    reveal_strlit("icons/info.svg");
    reveal_strlit("icons/window.svg");
    reveal_strlit("icons/check.svg");
    assert(icon_path(i).subrange(0, 6) =~= "icons/"@);
    assert("icons/plus.svg"@.len() == 14 && "icons/plus.svg"@[6] == 'p' && "icons/plus.svg"@[7] == 'l');
    assert("icons/branch.svg"@.len() == 16 && "icons/branch.svg"@[6] == 'b' && "icons/branch.svg"@[7] == 'r');
    assert("icons/folder.svg"@.len() == 16 && "icons/folder.svg"@[6] == 'f' && "icons/folder.svg"@[7] == 'o');
    assert("icons/warning.svg"@.len() == 17 && "icons/warning.svg"@[6] == 'w' && "icons/warning.svg"@[7] == 'a');
    assert("icons/not-found.svg"@.len() == 19 && "icons/not-found.svg"@[6] == 'n' && "icons/not-found.svg"@[7] == 'o');
    assert("icons/chevron.svg"@.len() == 17 && "icons/chevron.svg"@[6] == 'c' && "icons/chevron.svg"@[7] == 'h');
    assert("icons/close.svg"@.len() == 15 && "icons/close.svg"@[6] == 'c' && "icons/close.svg"@[7] == 'l');
    assert("icons/more.svg"@.len() == 14 && "icons/more.svg"@[6] == 'm' && "icons/more.svg"@[7] == 'o');
    assert("icons/files.svg"@.len() == 15 && "icons/files.svg"@[6] == 'f' && "icons/files.svg"@[7] == 'i');
    assert("icons/diff.svg"@.len() == 14 && "icons/diff.svg"@[6] == 'd' && "icons/diff.svg"@[7] == 'i');
    assert("icons/history.svg"@.len() == 17 && "icons/history.svg"@[6] == 'h' && "icons/history.svg"@[7] == 'i');
    assert("icons/grid.svg"@.len() == 14 && "icons/grid.svg"@[6] == 'g' && "icons/grid.svg"@[7] == 'r');
    assert("icons/info.svg"@.len() == 14 && "icons/info.svg"@[6] == 'i' && "icons/info.svg"@[7] == 'n');
    assert("icons/window.svg"@.len() == 16 && "icons/window.svg"@[6] == 'w' && "icons/window.svg"@[7] == 'i');
    assert("icons/check.svg"@.len() == 15 && "icons/check.svg"@[6] == 'c' && "icons/check.svg"@[7] == 'h');
}

} // verus!
