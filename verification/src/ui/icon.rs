//! The icons the windows draw, by the file each is drawn from, and the names the category picker
//! and the control socket know them by.

use vstd::prelude::*;
use crate::text::{
    begins_with, chars_of, finishes_with, strip_end, strip_start, string_from_chars,
    trim_end_matches, trim_start_matches,
};

verus! {

/// An icon, as the windows draw it.
#[derive(Clone, Copy, Debug, PartialEq, Eq, Structural)]
pub enum Icon {
    Plus,
    Minimize,
    Maximize,
    Restore,
    Close,
    Pause,
    Play,
    Trash,
    Film,
    Music,
    FileText,
    Archive,
    Package,
    File,
    CircleCheck,
    CircleX,
    CirclePause,
    CircleArrowDown,
    Clock,
    Check,
    ArrowDown,
    Hourglass,
    CircleDashed,
    LayoutList,
    LayoutGrid,
    ChevronUp,
    ChevronDown,
    Settings,
    Pyramid,
    Funnel,
    Loader,
    X,
    Code,
    Image,
    BookOpen,
    Disc,
    Database,
    ChevronRight,
    ArrowLeft,
    GripVertical,
    Pencil,
    CaseSensitive,
    Space,
    Gamepad,
    Globe,
    Presentation,
    FileSpreadsheet,
    Text,
    CircleQuestion,
    Search,
    SlidersHorizontal,
    Download,
    Palette,
    Bell,
    Magnet,
    Box,
    Cpu,
    FolderOpen,
    Table,
    Flag,
    FlagOff,
    Info,
}

/// The window's own frame buttons, drawn where the system draws none.
pub open spec fn window_control(icon: Icon) -> bool {
    icon == Icon::Minimize || icon == Icon::Maximize || icon == Icon::Restore || icon == Icon::Close
}

/// The folder an icon's file is in: the frame's own for the window's buttons, Lucide's for
/// every other icon.
pub open spec fn folder_of(icon: Icon) -> Seq<char> {
    if window_control(icon) {
        seq!['f', 'r', 'a', 'm', 'e', '/']
    } else {
        seq!['l', 'u', 'c', 'i', 'd', 'e', '/']
    }
}

/// The name of an icon's file within its folder.
pub open spec fn file_of(icon: Icon) -> Seq<char> {
    match icon {
        Icon::Plus => seq!['p', 'l', 'u', 's', '.', 's', 'v', 'g'],
        Icon::Minimize => seq!['m', 'i', 'n', 'i', 'm', 'i', 'z', 'e', '.', 's', 'v', 'g'],
        Icon::Maximize => seq!['m', 'a', 'x', 'i', 'm', 'i', 'z', 'e', '.', 's', 'v', 'g'],
        Icon::Restore => seq!['r', 'e', 's', 't', 'o', 'r', 'e', '.', 's', 'v', 'g'],
        Icon::Close => seq!['c', 'l', 'o', 's', 'e', '.', 's', 'v', 'g'],
        Icon::Pause => seq!['p', 'a', 'u', 's', 'e', '.', 's', 'v', 'g'],
        Icon::Play => seq!['p', 'l', 'a', 'y', '.', 's', 'v', 'g'],
        Icon::Trash => seq!['t', 'r', 'a', 's', 'h', '.', 's', 'v', 'g'],
        Icon::Film => seq!['f', 'i', 'l', 'm', '.', 's', 'v', 'g'],
        Icon::Music => seq!['m', 'u', 's', 'i', 'c', '.', 's', 'v', 'g'],
        Icon::FileText => seq!['f', 'i', 'l', 'e', '-', 't', 'e', 'x', 't', '.', 's', 'v', 'g'],
        Icon::Archive => seq!['a', 'r', 'c', 'h', 'i', 'v', 'e', '.', 's', 'v', 'g'],
        Icon::Package => seq!['p', 'a', 'c', 'k', 'a', 'g', 'e', '.', 's', 'v', 'g'],
        Icon::File => seq!['f', 'i', 'l', 'e', '.', 's', 'v', 'g'],
        Icon::CircleCheck => seq!['c', 'i', 'r', 'c', 'l', 'e', '-', 'c', 'h', 'e', 'c', 'k', '.', 's', 'v', 'g'],
        Icon::CircleX => seq!['c', 'i', 'r', 'c', 'l', 'e', '-', 'x', '.', 's', 'v', 'g'],
        Icon::CirclePause => seq!['c', 'i', 'r', 'c', 'l', 'e', '-', 'p', 'a', 'u', 's', 'e', '.', 's', 'v', 'g'],
        Icon::CircleArrowDown => seq!['c', 'i', 'r', 'c', 'l', 'e', '-', 'a', 'r', 'r', 'o', 'w', '-', 'd', 'o', 'w', 'n', '.', 's', 'v', 'g'],
        Icon::Clock => seq!['c', 'l', 'o', 'c', 'k', '.', 's', 'v', 'g'],
        Icon::Check => seq!['c', 'h', 'e', 'c', 'k', '.', 's', 'v', 'g'],
        Icon::ArrowDown => seq!['a', 'r', 'r', 'o', 'w', '-', 'd', 'o', 'w', 'n', '.', 's', 'v', 'g'],
        Icon::Hourglass => seq!['h', 'o', 'u', 'r', 'g', 'l', 'a', 's', 's', '.', 's', 'v', 'g'],
        Icon::CircleDashed => seq!['c', 'i', 'r', 'c', 'l', 'e', '-', 'd', 'a', 's', 'h', 'e', 'd', '.', 's', 'v', 'g'],
        Icon::LayoutList => seq!['l', 'a', 'y', 'o', 'u', 't', '-', 'l', 'i', 's', 't', '.', 's', 'v', 'g'],
        Icon::LayoutGrid => seq!['l', 'a', 'y', 'o', 'u', 't', '-', 'g', 'r', 'i', 'd', '.', 's', 'v', 'g'],
        Icon::ChevronUp => seq!['c', 'h', 'e', 'v', 'r', 'o', 'n', '-', 'u', 'p', '.', 's', 'v', 'g'],
        Icon::ChevronDown => seq!['c', 'h', 'e', 'v', 'r', 'o', 'n', '-', 'd', 'o', 'w', 'n', '.', 's', 'v', 'g'],
        Icon::Settings => seq!['s', 'e', 't', 't', 'i', 'n', 'g', 's', '.', 's', 'v', 'g'],
        Icon::Pyramid => seq!['p', 'y', 'r', 'a', 'm', 'i', 'd', '.', 's', 'v', 'g'],
        Icon::Funnel => seq!['f', 'u', 'n', 'n', 'e', 'l', '.', 's', 'v', 'g'],
        Icon::Loader => seq!['l', 'o', 'a', 'd', 'e', 'r', '-', 'c', 'i', 'r', 'c', 'l', 'e', '.', 's', 'v', 'g'],
        Icon::X => seq!['x', '.', 's', 'v', 'g'],
        Icon::Code => seq!['f', 'i', 'l', 'e', '-', 'b', 'r', 'a', 'c', 'e', 's', '.', 's', 'v', 'g'],
        Icon::Image => seq!['i', 'm', 'a', 'g', 'e', '.', 's', 'v', 'g'],
        Icon::BookOpen => seq!['b', 'o', 'o', 'k', '-', 'o', 'p', 'e', 'n', '.', 's', 'v', 'g'],
        Icon::Disc => seq!['d', 'i', 's', 'c', '.', 's', 'v', 'g'],
        Icon::Database => seq!['d', 'a', 't', 'a', 'b', 'a', 's', 'e', '.', 's', 'v', 'g'],
        Icon::ChevronRight => seq!['c', 'h', 'e', 'v', 'r', 'o', 'n', '-', 'r', 'i', 'g', 'h', 't', '.', 's', 'v', 'g'],
        Icon::ArrowLeft => seq!['a', 'r', 'r', 'o', 'w', '-', 'l', 'e', 'f', 't', '.', 's', 'v', 'g'],
        Icon::GripVertical => seq!['g', 'r', 'i', 'p', '-', 'v', 'e', 'r', 't', 'i', 'c', 'a', 'l', '.', 's', 'v', 'g'],
        Icon::Pencil => seq!['p', 'e', 'n', 'c', 'i', 'l', '.', 's', 'v', 'g'],
        Icon::CaseSensitive => seq!['c', 'a', 's', 'e', '-', 's', 'e', 'n', 's', 'i', 't', 'i', 'v', 'e', '.', 's', 'v', 'g'],
        Icon::Space => seq!['s', 'p', 'a', 'c', 'e', '.', 's', 'v', 'g'],
        Icon::Gamepad => seq!['g', 'a', 'm', 'e', 'p', 'a', 'd', '-', '2', '.', 's', 'v', 'g'],
        Icon::Globe => seq!['g', 'l', 'o', 'b', 'e', '.', 's', 'v', 'g'],
        Icon::Presentation => seq!['p', 'r', 'e', 's', 'e', 'n', 't', 'a', 't', 'i', 'o', 'n', '.', 's', 'v', 'g'],
        Icon::FileSpreadsheet => seq!['f', 'i', 'l', 'e', '-', 's', 'p', 'r', 'e', 'a', 'd', 's', 'h', 'e', 'e', 't', '.', 's', 'v', 'g'],
        Icon::Text => seq!['f', 'i', 'l', 'e', '-', 't', 'y', 'p', 'e', '.', 's', 'v', 'g'],
        Icon::CircleQuestion => seq!['c', 'i', 'r', 'c', 'l', 'e', '-', 'q', 'u', 'e', 's', 't', 'i', 'o', 'n', '-', 'm', 'a', 'r', 'k', '.', 's', 'v', 'g'],
        Icon::Search => seq!['s', 'e', 'a', 'r', 'c', 'h', '.', 's', 'v', 'g'],
        Icon::SlidersHorizontal => seq!['s', 'l', 'i', 'd', 'e', 'r', 's', '-', 'h', 'o', 'r', 'i', 'z', 'o', 'n', 't', 'a', 'l', '.', 's', 'v', 'g'],
        Icon::Download => seq!['d', 'o', 'w', 'n', 'l', 'o', 'a', 'd', '.', 's', 'v', 'g'],
        Icon::Palette => seq!['p', 'a', 'l', 'e', 't', 't', 'e', '.', 's', 'v', 'g'],
        Icon::Bell => seq!['b', 'e', 'l', 'l', '.', 's', 'v', 'g'],
        Icon::Magnet => seq!['m', 'a', 'g', 'n', 'e', 't', '.', 's', 'v', 'g'],
        Icon::Box => seq!['b', 'o', 'x', '.', 's', 'v', 'g'],
        Icon::Cpu => seq!['c', 'p', 'u', '.', 's', 'v', 'g'],
        Icon::FolderOpen => seq!['f', 'o', 'l', 'd', 'e', 'r', '-', 'o', 'p', 'e', 'n', '.', 's', 'v', 'g'],
        Icon::Table => seq!['t', 'a', 'b', 'l', 'e', '.', 's', 'v', 'g'],
        Icon::Flag => seq!['f', 'l', 'a', 'g', '.', 's', 'v', 'g'],
        Icon::FlagOff => seq!['f', 'l', 'a', 'g', '-', 'o', 'f', 'f', '.', 's', 'v', 'g'],
        Icon::Info => seq!['i', 'n', 'f', 'o', '.', 's', 'v', 'g'],
    }
}

/// The file an icon is drawn from.
pub open spec fn path_of(icon: Icon) -> Seq<char> {
    folder_of(icon) + file_of(icon)
}

/// The icons a category may be drawn with: the defaults' icons and a few more file shapes. A short
/// list on purpose; the whole of Lucide would be a picker nobody finishes scrolling.
pub open spec fn choices() -> Seq<Icon> {
    seq![
        Icon::Film,
        Icon::Music,
        Icon::FileText,
        Icon::Text,
        Icon::Presentation,
        Icon::FileSpreadsheet,
        Icon::Archive,
        Icon::Package,
        Icon::File,
        Icon::Code,
        Icon::Image,
        Icon::BookOpen,
        Icon::Disc,
        Icon::Database,
        Icon::Gamepad,
        Icon::Globe,
    ]
}

/// The names written out for the icons a category may be drawn with.
pub open spec fn chosen_name(icon: Icon) -> Option<Seq<char>> {
    match icon {
        Icon::Film => Some(seq!['f', 'i', 'l', 'm']),
        Icon::Music => Some(seq!['m', 'u', 's', 'i', 'c']),
        Icon::FileText => Some(seq!['f', 'i', 'l', 'e', '-', 't', 'e', 'x', 't']),
        Icon::Archive => Some(seq!['a', 'r', 'c', 'h', 'i', 'v', 'e']),
        Icon::Package => Some(seq!['p', 'a', 'c', 'k', 'a', 'g', 'e']),
        Icon::File => Some(seq!['f', 'i', 'l', 'e']),
        Icon::Code => Some(seq!['f', 'i', 'l', 'e', '-', 'b', 'r', 'a', 'c', 'e', 's']),
        Icon::Image => Some(seq!['i', 'm', 'a', 'g', 'e']),
        Icon::BookOpen => Some(seq!['b', 'o', 'o', 'k', '-', 'o', 'p', 'e', 'n']),
        Icon::Disc => Some(seq!['d', 'i', 's', 'c']),
        Icon::Database => Some(seq!['d', 'a', 't', 'a', 'b', 'a', 's', 'e']),
        Icon::Gamepad => Some(seq!['g', 'a', 'm', 'e', 'p', 'a', 'd', '-', '2']),
        Icon::Globe => Some(seq!['g', 'l', 'o', 'b', 'e']),
        Icon::Presentation => Some(seq!['p', 'r', 'e', 's', 'e', 'n', 't', 'a', 't', 'i', 'o', 'n']),
        Icon::FileSpreadsheet => Some(seq!['f', 'i', 'l', 'e', '-', 's', 'p', 'r', 'e', 'a', 'd', 's', 'h', 'e', 'e', 't']),
        Icon::Text => Some(seq!['f', 'i', 'l', 'e', '-', 't', 'y', 'p', 'e']),
        _ => None,
    }
}

/// An icon's name: the one written out for it, or else its file's name without the `lucide/`
/// before it or the `.svg` after it.
pub open spec fn name_of(icon: Icon) -> Seq<char> {
    match chosen_name(icon) {
        Some(n) => n,
        None => strip_end(strip_start(path_of(icon), "lucide/"@), ".svg"@),
    }
}

/// The first of the icons with this name.
pub open spec fn first_named(icons: Seq<Icon>, name: Seq<char>) -> Option<Icon>
    decreases icons.len(),
{
    if icons.len() == 0 {
        None
    } else if name_of(icons[0]) == name {
        Some(icons[0])
    } else {
        first_named(icons.drop_first(), name)
    }
}

/// The category icon a name stands for; `code`, the name the braces had before their glyph
/// changed, still reads as them.
pub open spec fn named(name: Seq<char>) -> Option<Icon> {
    first_named(choices(), if name == seq!['c', 'o', 'd', 'e'] { seq!['f', 'i', 'l', 'e', '-', 'b', 'r', 'a', 'c', 'e', 's'] } else { name })
}

impl Icon {
    /// The file the icon is drawn from.
    pub fn path(self) -> (r: &'static str)
        ensures
            r@ == path_of(self),
    {
        match self {
            Icon::Plus => {
                proof {
                    reveal_strlit("lucide/plus.svg");
                }
                let r = "lucide/plus.svg";
                assert(r@ =~= path_of(Icon::Plus));
                r
            },
            Icon::Minimize => {
                proof {
                    reveal_strlit("frame/minimize.svg");
                }
                let r = "frame/minimize.svg";
                assert(r@ =~= path_of(Icon::Minimize));
                r
            },
            Icon::Maximize => {
                proof {
                    reveal_strlit("frame/maximize.svg");
                }
                let r = "frame/maximize.svg";
                assert(r@ =~= path_of(Icon::Maximize));
                r
            },
            Icon::Restore => {
                proof {
                    reveal_strlit("frame/restore.svg");
                }
                let r = "frame/restore.svg";
                assert(r@ =~= path_of(Icon::Restore));
                r
            },
            Icon::Close => {
                proof {
                    reveal_strlit("frame/close.svg");
                }
                let r = "frame/close.svg";
                assert(r@ =~= path_of(Icon::Close));
                r
            },
            Icon::Pause => {
                proof {
                    reveal_strlit("lucide/pause.svg");
                }
                let r = "lucide/pause.svg";
                assert(r@ =~= path_of(Icon::Pause));
                r
            },
            Icon::Play => {
                proof {
                    reveal_strlit("lucide/play.svg");
                }
                let r = "lucide/play.svg";
                assert(r@ =~= path_of(Icon::Play));
                r
            },
            Icon::Trash => {
                proof {
                    reveal_strlit("lucide/trash.svg");
                }
                let r = "lucide/trash.svg";
                assert(r@ =~= path_of(Icon::Trash));
                r
            },
            Icon::Film => {
                proof {
                    reveal_strlit("lucide/film.svg");
                }
                let r = "lucide/film.svg";
                assert(r@ =~= path_of(Icon::Film));
                r
            },
            Icon::Music => {
                proof {
                    reveal_strlit("lucide/music.svg");
                }
                let r = "lucide/music.svg";
                assert(r@ =~= path_of(Icon::Music));
                r
            },
            Icon::FileText => {
                proof {
                    reveal_strlit("lucide/file-text.svg");
                }
                let r = "lucide/file-text.svg";
                assert(r@ =~= path_of(Icon::FileText));
                r
            },
            Icon::Archive => {
                proof {
                    reveal_strlit("lucide/archive.svg");
                }
                let r = "lucide/archive.svg";
                assert(r@ =~= path_of(Icon::Archive));
                r
            },
            Icon::Package => {
                proof {
                    reveal_strlit("lucide/package.svg");
                }
                let r = "lucide/package.svg";
                assert(r@ =~= path_of(Icon::Package));
                r
            },
            Icon::File => {
                proof {
                    reveal_strlit("lucide/file.svg");
                }
                let r = "lucide/file.svg";
                assert(r@ =~= path_of(Icon::File));
                r
            },
            Icon::CircleCheck => {
                proof {
                    reveal_strlit("lucide/circle-check.svg");
                }
                let r = "lucide/circle-check.svg";
                assert(r@ =~= path_of(Icon::CircleCheck));
                r
            },
            Icon::CircleX => {
                proof {
                    reveal_strlit("lucide/circle-x.svg");
                }
                let r = "lucide/circle-x.svg";
                assert(r@ =~= path_of(Icon::CircleX));
                r
            },
            Icon::CirclePause => {
                proof {
                    reveal_strlit("lucide/circle-pause.svg");
                }
                let r = "lucide/circle-pause.svg";
                assert(r@ =~= path_of(Icon::CirclePause));
                r
            },
            Icon::CircleArrowDown => {
                proof {
                    reveal_strlit("lucide/circle-arrow-down.svg");
                }
                let r = "lucide/circle-arrow-down.svg";
                assert(r@ =~= path_of(Icon::CircleArrowDown));
                r
            },
            Icon::Clock => {
                proof {
                    reveal_strlit("lucide/clock.svg");
                }
                let r = "lucide/clock.svg";
                assert(r@ =~= path_of(Icon::Clock));
                r
            },
            Icon::Check => {
                proof {
                    reveal_strlit("lucide/check.svg");
                }
                let r = "lucide/check.svg";
                assert(r@ =~= path_of(Icon::Check));
                r
            },
            Icon::ArrowDown => {
                proof {
                    reveal_strlit("lucide/arrow-down.svg");
                }
                let r = "lucide/arrow-down.svg";
                assert(r@ =~= path_of(Icon::ArrowDown));
                r
            },
            Icon::Hourglass => {
                proof {
                    reveal_strlit("lucide/hourglass.svg");
                }
                let r = "lucide/hourglass.svg";
                assert(r@ =~= path_of(Icon::Hourglass));
                r
            },
            Icon::CircleDashed => {
                proof {
                    reveal_strlit("lucide/circle-dashed.svg");
                }
                let r = "lucide/circle-dashed.svg";
                assert(r@ =~= path_of(Icon::CircleDashed));
                r
            },
            Icon::LayoutList => {
                proof {
                    reveal_strlit("lucide/layout-list.svg");
                }
                let r = "lucide/layout-list.svg";
                assert(r@ =~= path_of(Icon::LayoutList));
                r
            },
            Icon::LayoutGrid => {
                proof {
                    reveal_strlit("lucide/layout-grid.svg");
                }
                let r = "lucide/layout-grid.svg";
                assert(r@ =~= path_of(Icon::LayoutGrid));
                r
            },
            Icon::ChevronUp => {
                proof {
                    reveal_strlit("lucide/chevron-up.svg");
                }
                let r = "lucide/chevron-up.svg";
                assert(r@ =~= path_of(Icon::ChevronUp));
                r
            },
            Icon::ChevronDown => {
                proof {
                    reveal_strlit("lucide/chevron-down.svg");
                }
                let r = "lucide/chevron-down.svg";
                assert(r@ =~= path_of(Icon::ChevronDown));
                r
            },
            Icon::Settings => {
                proof {
                    reveal_strlit("lucide/settings.svg");
                }
                let r = "lucide/settings.svg";
                assert(r@ =~= path_of(Icon::Settings));
                r
            },
            Icon::Pyramid => {
                proof {
                    reveal_strlit("lucide/pyramid.svg");
                }
                let r = "lucide/pyramid.svg";
                assert(r@ =~= path_of(Icon::Pyramid));
                r
            },
            Icon::Funnel => {
                proof {
                    reveal_strlit("lucide/funnel.svg");
                }
                let r = "lucide/funnel.svg";
                assert(r@ =~= path_of(Icon::Funnel));
                r
            },
            Icon::Loader => {
                proof {
                    reveal_strlit("lucide/loader-circle.svg");
                }
                let r = "lucide/loader-circle.svg";
                assert(r@ =~= path_of(Icon::Loader));
                r
            },
            Icon::X => {
                proof {
                    reveal_strlit("lucide/x.svg");
                }
                let r = "lucide/x.svg";
                assert(r@ =~= path_of(Icon::X));
                r
            },
            Icon::Code => {
                proof {
                    reveal_strlit("lucide/file-braces.svg");
                }
                let r = "lucide/file-braces.svg";
                assert(r@ =~= path_of(Icon::Code));
                r
            },
            Icon::Image => {
                proof {
                    reveal_strlit("lucide/image.svg");
                }
                let r = "lucide/image.svg";
                assert(r@ =~= path_of(Icon::Image));
                r
            },
            Icon::BookOpen => {
                proof {
                    reveal_strlit("lucide/book-open.svg");
                }
                let r = "lucide/book-open.svg";
                assert(r@ =~= path_of(Icon::BookOpen));
                r
            },
            Icon::Disc => {
                proof {
                    reveal_strlit("lucide/disc.svg");
                }
                let r = "lucide/disc.svg";
                assert(r@ =~= path_of(Icon::Disc));
                r
            },
            Icon::Database => {
                proof {
                    reveal_strlit("lucide/database.svg");
                }
                let r = "lucide/database.svg";
                assert(r@ =~= path_of(Icon::Database));
                r
            },
            Icon::ChevronRight => {
                proof {
                    reveal_strlit("lucide/chevron-right.svg");
                }
                let r = "lucide/chevron-right.svg";
                assert(r@ =~= path_of(Icon::ChevronRight));
                r
            },
            Icon::ArrowLeft => {
                proof {
                    reveal_strlit("lucide/arrow-left.svg");
                }
                let r = "lucide/arrow-left.svg";
                assert(r@ =~= path_of(Icon::ArrowLeft));
                r
            },
            Icon::GripVertical => {
                proof {
                    reveal_strlit("lucide/grip-vertical.svg");
                }
                let r = "lucide/grip-vertical.svg";
                assert(r@ =~= path_of(Icon::GripVertical));
                r
            },
            Icon::Pencil => {
                proof {
                    reveal_strlit("lucide/pencil.svg");
                }
                let r = "lucide/pencil.svg";
                assert(r@ =~= path_of(Icon::Pencil));
                r
            },
            Icon::CaseSensitive => {
                proof {
                    reveal_strlit("lucide/case-sensitive.svg");
                }
                let r = "lucide/case-sensitive.svg";
                assert(r@ =~= path_of(Icon::CaseSensitive));
                r
            },
            Icon::Space => {
                proof {
                    reveal_strlit("lucide/space.svg");
                }
                let r = "lucide/space.svg";
                assert(r@ =~= path_of(Icon::Space));
                r
            },
            Icon::Gamepad => {
                proof {
                    reveal_strlit("lucide/gamepad-2.svg");
                }
                let r = "lucide/gamepad-2.svg";
                assert(r@ =~= path_of(Icon::Gamepad));
                r
            },
            Icon::Globe => {
                proof {
                    reveal_strlit("lucide/globe.svg");
                }
                let r = "lucide/globe.svg";
                assert(r@ =~= path_of(Icon::Globe));
                r
            },
            Icon::Presentation => {
                proof {
                    reveal_strlit("lucide/presentation.svg");
                }
                let r = "lucide/presentation.svg";
                assert(r@ =~= path_of(Icon::Presentation));
                r
            },
            Icon::FileSpreadsheet => {
                proof {
                    reveal_strlit("lucide/file-spreadsheet.svg");
                }
                let r = "lucide/file-spreadsheet.svg";
                assert(r@ =~= path_of(Icon::FileSpreadsheet));
                r
            },
            Icon::Text => {
                proof {
                    reveal_strlit("lucide/file-type.svg");
                }
                let r = "lucide/file-type.svg";
                assert(r@ =~= path_of(Icon::Text));
                r
            },
            Icon::CircleQuestion => {
                proof {
                    reveal_strlit("lucide/circle-question-mark.svg");
                }
                let r = "lucide/circle-question-mark.svg";
                assert(r@ =~= path_of(Icon::CircleQuestion));
                r
            },
            Icon::Search => {
                proof {
                    reveal_strlit("lucide/search.svg");
                }
                let r = "lucide/search.svg";
                assert(r@ =~= path_of(Icon::Search));
                r
            },
            Icon::SlidersHorizontal => {
                proof {
                    reveal_strlit("lucide/sliders-horizontal.svg");
                }
                let r = "lucide/sliders-horizontal.svg";
                assert(r@ =~= path_of(Icon::SlidersHorizontal));
                r
            },
            Icon::Download => {
                proof {
                    reveal_strlit("lucide/download.svg");
                }
                let r = "lucide/download.svg";
                assert(r@ =~= path_of(Icon::Download));
                r
            },
            Icon::Palette => {
                proof {
                    reveal_strlit("lucide/palette.svg");
                }
                let r = "lucide/palette.svg";
                assert(r@ =~= path_of(Icon::Palette));
                r
            },
            Icon::Bell => {
                proof {
                    reveal_strlit("lucide/bell.svg");
                }
                let r = "lucide/bell.svg";
                assert(r@ =~= path_of(Icon::Bell));
                r
            },
            Icon::Magnet => {
                proof {
                    reveal_strlit("lucide/magnet.svg");
                }
                let r = "lucide/magnet.svg";
                assert(r@ =~= path_of(Icon::Magnet));
                r
            },
            Icon::Box => {
                proof {
                    reveal_strlit("lucide/box.svg");
                }
                let r = "lucide/box.svg";
                assert(r@ =~= path_of(Icon::Box));
                r
            },
            Icon::Cpu => {
                proof {
                    reveal_strlit("lucide/cpu.svg");
                }
                let r = "lucide/cpu.svg";
                assert(r@ =~= path_of(Icon::Cpu));
                r
            },
            Icon::FolderOpen => {
                proof {
                    reveal_strlit("lucide/folder-open.svg");
                }
                let r = "lucide/folder-open.svg";
                assert(r@ =~= path_of(Icon::FolderOpen));
                r
            },
            Icon::Table => {
                proof {
                    reveal_strlit("lucide/table.svg");
                }
                let r = "lucide/table.svg";
                assert(r@ =~= path_of(Icon::Table));
                r
            },
            Icon::Flag => {
                proof {
                    reveal_strlit("lucide/flag.svg");
                }
                let r = "lucide/flag.svg";
                assert(r@ =~= path_of(Icon::Flag));
                r
            },
            Icon::FlagOff => {
                proof {
                    reveal_strlit("lucide/flag-off.svg");
                }
                let r = "lucide/flag-off.svg";
                assert(r@ =~= path_of(Icon::FlagOff));
                r
            },
            Icon::Info => {
                proof {
                    reveal_strlit("lucide/info.svg");
                }
                let r = "lucide/info.svg";
                assert(r@ =~= path_of(Icon::Info));
                r
            },
        }
    }

    /// The icons a category may be drawn with, in the picker's order.
    pub fn category_choices() -> (a: [Icon; 16])
        ensures
            a@ == choices(),
    {
        let a = [
            Icon::Film,
            Icon::Music,
            Icon::FileText,
            Icon::Text,
            Icon::Presentation,
            Icon::FileSpreadsheet,
            Icon::Archive,
            Icon::Package,
            Icon::File,
            Icon::Code,
            Icon::Image,
            Icon::BookOpen,
            Icon::Disc,
            Icon::Database,
            Icon::Gamepad,
            Icon::Globe,
        ];
        assert(a@ =~= choices());
        a
    }

    /// The icon's name, for the picker's accessibility label and the control socket.
    pub fn name(self) -> (r: String)
        ensures
            r@ == name_of(self),
    {
        match self {
            Icon::Film => {
                proof {
                    reveal_strlit("film");
                }
                let r = String::from_str("film");
                assert(r@ =~= seq!['f', 'i', 'l', 'm']);
                r
            },
            Icon::Music => {
                proof {
                    reveal_strlit("music");
                }
                let r = String::from_str("music");
                assert(r@ =~= seq!['m', 'u', 's', 'i', 'c']);
                r
            },
            Icon::FileText => {
                proof {
                    reveal_strlit("file-text");
                }
                let r = String::from_str("file-text");
                assert(r@ =~= seq!['f', 'i', 'l', 'e', '-', 't', 'e', 'x', 't']);
                r
            },
            Icon::Archive => {
                proof {
                    reveal_strlit("archive");
                }
                let r = String::from_str("archive");
                assert(r@ =~= seq!['a', 'r', 'c', 'h', 'i', 'v', 'e']);
                r
            },
            Icon::Package => {
                proof {
                    reveal_strlit("package");
                }
                let r = String::from_str("package");
                assert(r@ =~= seq!['p', 'a', 'c', 'k', 'a', 'g', 'e']);
                r
            },
            Icon::File => {
                proof {
                    reveal_strlit("file");
                }
                let r = String::from_str("file");
                assert(r@ =~= seq!['f', 'i', 'l', 'e']);
                r
            },
            Icon::Code => {
                proof {
                    reveal_strlit("file-braces");
                }
                let r = String::from_str("file-braces");
                assert(r@ =~= seq!['f', 'i', 'l', 'e', '-', 'b', 'r', 'a', 'c', 'e', 's']);
                r
            },
            Icon::Image => {
                proof {
                    reveal_strlit("image");
                }
                let r = String::from_str("image");
                assert(r@ =~= seq!['i', 'm', 'a', 'g', 'e']);
                r
            },
            Icon::BookOpen => {
                proof {
                    reveal_strlit("book-open");
                }
                let r = String::from_str("book-open");
                assert(r@ =~= seq!['b', 'o', 'o', 'k', '-', 'o', 'p', 'e', 'n']);
                r
            },
            Icon::Disc => {
                proof {
                    reveal_strlit("disc");
                }
                let r = String::from_str("disc");
                assert(r@ =~= seq!['d', 'i', 's', 'c']);
                r
            },
            Icon::Database => {
                proof {
                    reveal_strlit("database");
                }
                let r = String::from_str("database");
                assert(r@ =~= seq!['d', 'a', 't', 'a', 'b', 'a', 's', 'e']);
                r
            },
            Icon::Gamepad => {
                proof {
                    reveal_strlit("gamepad-2");
                }
                let r = String::from_str("gamepad-2");
                assert(r@ =~= seq!['g', 'a', 'm', 'e', 'p', 'a', 'd', '-', '2']);
                r
            },
            Icon::Globe => {
                proof {
                    reveal_strlit("globe");
                }
                let r = String::from_str("globe");
                assert(r@ =~= seq!['g', 'l', 'o', 'b', 'e']);
                r
            },
            Icon::Presentation => {
                proof {
                    reveal_strlit("presentation");
                }
                let r = String::from_str("presentation");
                assert(r@ =~= seq!['p', 'r', 'e', 's', 'e', 'n', 't', 'a', 't', 'i', 'o', 'n']);
                r
            },
            Icon::FileSpreadsheet => {
                proof {
                    reveal_strlit("file-spreadsheet");
                }
                let r = String::from_str("file-spreadsheet");
                assert(r@ =~= seq!['f', 'i', 'l', 'e', '-', 's', 'p', 'r', 'e', 'a', 'd', 's', 'h', 'e', 'e', 't']);
                r
            },
            Icon::Text => {
                proof {
                    reveal_strlit("file-type");
                }
                let r = String::from_str("file-type");
                assert(r@ =~= seq!['f', 'i', 'l', 'e', '-', 't', 'y', 'p', 'e']);
                r
            },
            other => {
                let path = chars_of(other.path());
                let lucide = chars_of("lucide/");
                let svg = chars_of(".svg");
                let bare = trim_start_matches(path.as_slice(), lucide.as_slice());
                let bare = trim_end_matches(bare.as_slice(), svg.as_slice());
                string_from_chars(bare.as_slice())
            },
        }
    }

    /// The category icon a name stands for, as a category's `config.json` names it.
    pub fn by_name(name: &str) -> (r: Option<Icon>)
        ensures
            r == named(name@),
    {
        proof {
            reveal_strlit("code");
            reveal_strlit("file-braces");
        }
        let code = String::from_str("code");
        let given = String::from_str(name);
        let wanted = if given == code {
            String::from_str("file-braces")
        } else {
            given
        };
        assert(code@ =~= seq!['c', 'o', 'd', 'e']);
        assert(wanted@ =~= (if name@ == seq!['c', 'o', 'd', 'e'] { seq!['f', 'i', 'l', 'e', '-', 'b', 'r', 'a', 'c', 'e', 's'] } else { name@ }));
        let picks = Icon::category_choices();
        assert(choices().skip(0) =~= choices());
        let mut i: usize = 0;
        while i < 16
            invariant
                i <= 16,
                picks@ == choices(),
                wanted@ == (if name@ == seq!['c', 'o', 'd', 'e'] { seq!['f', 'i', 'l', 'e', '-', 'b', 'r', 'a', 'c', 'e', 's'] } else { name@ }),
                first_named(choices().skip(i as int), wanted@) == named(name@),
            decreases 16 - i,
        {
            let icon = picks[i];
            assert(choices().skip(i as int)[0] == icon);
            assert(choices().skip(i as int).drop_first() =~= choices().skip(i + 1));
            if icon.name() == wanted {
                return Some(icon);
            }
            i = i + 1;
        }
        assert(choices().skip(16) =~= Seq::<Icon>::empty());
        None
    }
}

/// The first icon with a name is the one at the place where it is first met.
proof fn lemma_found_at(icons: Seq<Icon>, i: int, name: Seq<char>)
    requires
        0 <= i < icons.len(),
        name_of(icons[i]) == name,
        forall|j: int| 0 <= j < i ==> name_of(#[trigger] icons[j]) != name,
    ensures
        first_named(icons, name) == Some(icons[i]),
    decreases i,
{
    if i > 0 {
        let rest = icons.drop_first();
        assert forall|j: int| 0 <= j < i - 1 implies name_of(#[trigger] rest[j]) != name by {
            assert(rest[j] == icons[j + 1]);
        }
        lemma_found_at(rest, i - 1, name);
    }
}

/// Every icon a category may be drawn with -- each has its name written out -- is found again
/// by its name, so a category written to a file with its icon's name reads back with that icon.
pub proof fn law_a_category_icon_is_found_by_its_name(icon: Icon)
    requires
        chosen_name(icon) is Some,
    ensures
        named(name_of(icon)) == Some(icon),
{
    let name = name_of(icon);
    assert(name != seq!['c', 'o', 'd', 'e']) by {
        match icon {
            Icon::Film => assert(seq!['f', 'i', 'l', 'm'] != seq!['c', 'o', 'd', 'e']),
            Icon::Music => assert(seq!['m', 'u', 's', 'i', 'c'] != seq!['c', 'o', 'd', 'e']),
            Icon::FileText => assert(seq!['f', 'i', 'l', 'e', '-', 't', 'e', 'x', 't'] != seq!['c', 'o', 'd', 'e']),
            Icon::Archive => assert(seq!['a', 'r', 'c', 'h', 'i', 'v', 'e'] != seq!['c', 'o', 'd', 'e']),
            Icon::Package => assert(seq!['p', 'a', 'c', 'k', 'a', 'g', 'e'] != seq!['c', 'o', 'd', 'e']),
            Icon::File => assert(seq!['f', 'i', 'l', 'e'] != seq!['c', 'o', 'd', 'e']),
            Icon::Code => assert(seq!['f', 'i', 'l', 'e', '-', 'b', 'r', 'a', 'c', 'e', 's'] != seq!['c', 'o', 'd', 'e']),
            Icon::Image => assert(seq!['i', 'm', 'a', 'g', 'e'] != seq!['c', 'o', 'd', 'e']),
            Icon::BookOpen => assert(seq!['b', 'o', 'o', 'k', '-', 'o', 'p', 'e', 'n'] != seq!['c', 'o', 'd', 'e']),
            Icon::Disc => assert(seq!['d', 'i', 's', 'c'] != seq!['c', 'o', 'd', 'e']),
            Icon::Database => assert(seq!['d', 'a', 't', 'a', 'b', 'a', 's', 'e'] != seq!['c', 'o', 'd', 'e']),
            Icon::Gamepad => assert(seq!['g', 'a', 'm', 'e', 'p', 'a', 'd', '-', '2'] != seq!['c', 'o', 'd', 'e']),
            Icon::Globe => assert(seq!['g', 'l', 'o', 'b', 'e'] != seq!['c', 'o', 'd', 'e']),
            Icon::Presentation => assert(seq!['p', 'r', 'e', 's', 'e', 'n', 't', 'a', 't', 'i', 'o', 'n'] != seq!['c', 'o', 'd', 'e']),
            Icon::FileSpreadsheet => assert(seq!['f', 'i', 'l', 'e', '-', 's', 'p', 'r', 'e', 'a', 'd', 's', 'h', 'e', 'e', 't'] != seq!['c', 'o', 'd', 'e']),
            Icon::Text => assert(seq!['f', 'i', 'l', 'e', '-', 't', 'y', 'p', 'e'] != seq!['c', 'o', 'd', 'e']),
            _ => {},
        }
    }
    match icon {
        Icon::Film => {
            assert(choices()[0] == Icon::Film);
            lemma_found_at(choices(), 0, name);
        },
        Icon::Music => {
            assert forall|j: int| 0 <= j < 1 implies name_of(#[trigger] choices()[j]) != name by {
                if j == 0 {
                    assert(choices()[0] == Icon::Film);
                    assert(name_of(Icon::Film).len() != name_of(Icon::Music).len());
                }
            }
            assert(choices()[1] == Icon::Music);
            lemma_found_at(choices(), 1, name);
        },
        Icon::FileText => {
            assert forall|j: int| 0 <= j < 2 implies name_of(#[trigger] choices()[j]) != name by {
                if j == 0 {
                    assert(choices()[0] == Icon::Film);
                    assert(name_of(Icon::Film).len() != name_of(Icon::FileText).len());
                } else if j == 1 {
                    assert(choices()[1] == Icon::Music);
                    assert(name_of(Icon::Music).len() != name_of(Icon::FileText).len());
                }
            }
            assert(choices()[2] == Icon::FileText);
            lemma_found_at(choices(), 2, name);
        },
        Icon::Text => {
            assert forall|j: int| 0 <= j < 3 implies name_of(#[trigger] choices()[j]) != name by {
                if j == 0 {
                    assert(choices()[0] == Icon::Film);
                    assert(name_of(Icon::Film).len() != name_of(Icon::Text).len());
                } else if j == 1 {
                    assert(choices()[1] == Icon::Music);
                    assert(name_of(Icon::Music).len() != name_of(Icon::Text).len());
                } else if j == 2 {
                    assert(choices()[2] == Icon::FileText);
                    assert(name_of(Icon::FileText)[6] != name_of(Icon::Text)[6]);
                }
            }
            assert(choices()[3] == Icon::Text);
            lemma_found_at(choices(), 3, name);
        },
        Icon::Presentation => {
            assert forall|j: int| 0 <= j < 4 implies name_of(#[trigger] choices()[j]) != name by {
                if j == 0 {
                    assert(choices()[0] == Icon::Film);
                    assert(name_of(Icon::Film).len() != name_of(Icon::Presentation).len());
                } else if j == 1 {
                    assert(choices()[1] == Icon::Music);
                    assert(name_of(Icon::Music).len() != name_of(Icon::Presentation).len());
                } else if j == 2 {
                    assert(choices()[2] == Icon::FileText);
                    assert(name_of(Icon::FileText).len() != name_of(Icon::Presentation).len());
                } else if j == 3 {
                    assert(choices()[3] == Icon::Text);
                    assert(name_of(Icon::Text).len() != name_of(Icon::Presentation).len());
                }
            }
            assert(choices()[4] == Icon::Presentation);
            lemma_found_at(choices(), 4, name);
        },
        Icon::FileSpreadsheet => {
            assert forall|j: int| 0 <= j < 5 implies name_of(#[trigger] choices()[j]) != name by {
                if j == 0 {
                    assert(choices()[0] == Icon::Film);
                    assert(name_of(Icon::Film).len() != name_of(Icon::FileSpreadsheet).len());
                } else if j == 1 {
                    assert(choices()[1] == Icon::Music);
                    assert(name_of(Icon::Music).len() != name_of(Icon::FileSpreadsheet).len());
                } else if j == 2 {
                    assert(choices()[2] == Icon::FileText);
                    assert(name_of(Icon::FileText).len() != name_of(Icon::FileSpreadsheet).len());
                } else if j == 3 {
                    assert(choices()[3] == Icon::Text);
                    assert(name_of(Icon::Text).len() != name_of(Icon::FileSpreadsheet).len());
                } else if j == 4 {
                    assert(choices()[4] == Icon::Presentation);
                    assert(name_of(Icon::Presentation).len() != name_of(Icon::FileSpreadsheet).len());
                }
            }
            assert(choices()[5] == Icon::FileSpreadsheet);
            lemma_found_at(choices(), 5, name);
        },
        Icon::Archive => {
            assert forall|j: int| 0 <= j < 6 implies name_of(#[trigger] choices()[j]) != name by {
                if j == 0 {
                    assert(choices()[0] == Icon::Film);
                    assert(name_of(Icon::Film).len() != name_of(Icon::Archive).len());
                } else if j == 1 {
                    assert(choices()[1] == Icon::Music);
                    assert(name_of(Icon::Music).len() != name_of(Icon::Archive).len());
                } else if j == 2 {
                    assert(choices()[2] == Icon::FileText);
                    assert(name_of(Icon::FileText).len() != name_of(Icon::Archive).len());
                } else if j == 3 {
                    assert(choices()[3] == Icon::Text);
                    assert(name_of(Icon::Text).len() != name_of(Icon::Archive).len());
                } else if j == 4 {
                    assert(choices()[4] == Icon::Presentation);
                    assert(name_of(Icon::Presentation).len() != name_of(Icon::Archive).len());
                } else if j == 5 {
                    assert(choices()[5] == Icon::FileSpreadsheet);
                    assert(name_of(Icon::FileSpreadsheet).len() != name_of(Icon::Archive).len());
                }
            }
            assert(choices()[6] == Icon::Archive);
            lemma_found_at(choices(), 6, name);
        },
        Icon::Package => {
            assert forall|j: int| 0 <= j < 7 implies name_of(#[trigger] choices()[j]) != name by {
                if j == 0 {
                    assert(choices()[0] == Icon::Film);
                    assert(name_of(Icon::Film).len() != name_of(Icon::Package).len());
                } else if j == 1 {
                    assert(choices()[1] == Icon::Music);
                    assert(name_of(Icon::Music).len() != name_of(Icon::Package).len());
                } else if j == 2 {
                    assert(choices()[2] == Icon::FileText);
                    assert(name_of(Icon::FileText).len() != name_of(Icon::Package).len());
                } else if j == 3 {
                    assert(choices()[3] == Icon::Text);
                    assert(name_of(Icon::Text).len() != name_of(Icon::Package).len());
                } else if j == 4 {
                    assert(choices()[4] == Icon::Presentation);
                    assert(name_of(Icon::Presentation).len() != name_of(Icon::Package).len());
                } else if j == 5 {
                    assert(choices()[5] == Icon::FileSpreadsheet);
                    assert(name_of(Icon::FileSpreadsheet).len() != name_of(Icon::Package).len());
                } else if j == 6 {
                    assert(choices()[6] == Icon::Archive);
                    assert(name_of(Icon::Archive)[0] != name_of(Icon::Package)[0]);
                }
            }
            assert(choices()[7] == Icon::Package);
            lemma_found_at(choices(), 7, name);
        },
        Icon::File => {
            assert forall|j: int| 0 <= j < 8 implies name_of(#[trigger] choices()[j]) != name by {
                if j == 0 {
                    assert(choices()[0] == Icon::Film);
                    assert(name_of(Icon::Film)[3] != name_of(Icon::File)[3]);
                } else if j == 1 {
                    assert(choices()[1] == Icon::Music);
                    assert(name_of(Icon::Music).len() != name_of(Icon::File).len());
                } else if j == 2 {
                    assert(choices()[2] == Icon::FileText);
                    assert(name_of(Icon::FileText).len() != name_of(Icon::File).len());
                } else if j == 3 {
                    assert(choices()[3] == Icon::Text);
                    assert(name_of(Icon::Text).len() != name_of(Icon::File).len());
                } else if j == 4 {
                    assert(choices()[4] == Icon::Presentation);
                    assert(name_of(Icon::Presentation).len() != name_of(Icon::File).len());
                } else if j == 5 {
                    assert(choices()[5] == Icon::FileSpreadsheet);
                    assert(name_of(Icon::FileSpreadsheet).len() != name_of(Icon::File).len());
                } else if j == 6 {
                    assert(choices()[6] == Icon::Archive);
                    assert(name_of(Icon::Archive).len() != name_of(Icon::File).len());
                } else if j == 7 {
                    assert(choices()[7] == Icon::Package);
                    assert(name_of(Icon::Package).len() != name_of(Icon::File).len());
                }
            }
            assert(choices()[8] == Icon::File);
            lemma_found_at(choices(), 8, name);
        },
        Icon::Code => {
            assert forall|j: int| 0 <= j < 9 implies name_of(#[trigger] choices()[j]) != name by {
                if j == 0 {
                    assert(choices()[0] == Icon::Film);
                    assert(name_of(Icon::Film).len() != name_of(Icon::Code).len());
                } else if j == 1 {
                    assert(choices()[1] == Icon::Music);
                    assert(name_of(Icon::Music).len() != name_of(Icon::Code).len());
                } else if j == 2 {
                    assert(choices()[2] == Icon::FileText);
                    assert(name_of(Icon::FileText).len() != name_of(Icon::Code).len());
                } else if j == 3 {
                    assert(choices()[3] == Icon::Text);
                    assert(name_of(Icon::Text).len() != name_of(Icon::Code).len());
                } else if j == 4 {
                    assert(choices()[4] == Icon::Presentation);
                    assert(name_of(Icon::Presentation).len() != name_of(Icon::Code).len());
                } else if j == 5 {
                    assert(choices()[5] == Icon::FileSpreadsheet);
                    assert(name_of(Icon::FileSpreadsheet).len() != name_of(Icon::Code).len());
                } else if j == 6 {
                    assert(choices()[6] == Icon::Archive);
                    assert(name_of(Icon::Archive).len() != name_of(Icon::Code).len());
                } else if j == 7 {
                    assert(choices()[7] == Icon::Package);
                    assert(name_of(Icon::Package).len() != name_of(Icon::Code).len());
                } else if j == 8 {
                    assert(choices()[8] == Icon::File);
                    assert(name_of(Icon::File).len() != name_of(Icon::Code).len());
                }
            }
            assert(choices()[9] == Icon::Code);
            lemma_found_at(choices(), 9, name);
        },
        Icon::Image => {
            assert forall|j: int| 0 <= j < 10 implies name_of(#[trigger] choices()[j]) != name by {
                if j == 0 {
                    assert(choices()[0] == Icon::Film);
                    assert(name_of(Icon::Film).len() != name_of(Icon::Image).len());
                } else if j == 1 {
                    assert(choices()[1] == Icon::Music);
                    assert(name_of(Icon::Music)[0] != name_of(Icon::Image)[0]);
                } else if j == 2 {
                    assert(choices()[2] == Icon::FileText);
                    assert(name_of(Icon::FileText).len() != name_of(Icon::Image).len());
                } else if j == 3 {
                    assert(choices()[3] == Icon::Text);
                    assert(name_of(Icon::Text).len() != name_of(Icon::Image).len());
                } else if j == 4 {
                    assert(choices()[4] == Icon::Presentation);
                    assert(name_of(Icon::Presentation).len() != name_of(Icon::Image).len());
                } else if j == 5 {
                    assert(choices()[5] == Icon::FileSpreadsheet);
                    assert(name_of(Icon::FileSpreadsheet).len() != name_of(Icon::Image).len());
                } else if j == 6 {
                    assert(choices()[6] == Icon::Archive);
                    assert(name_of(Icon::Archive).len() != name_of(Icon::Image).len());
                } else if j == 7 {
                    assert(choices()[7] == Icon::Package);
                    assert(name_of(Icon::Package).len() != name_of(Icon::Image).len());
                } else if j == 8 {
                    assert(choices()[8] == Icon::File);
                    assert(name_of(Icon::File).len() != name_of(Icon::Image).len());
                } else if j == 9 {
                    assert(choices()[9] == Icon::Code);
                    assert(name_of(Icon::Code).len() != name_of(Icon::Image).len());
                }
            }
            assert(choices()[10] == Icon::Image);
            lemma_found_at(choices(), 10, name);
        },
        Icon::BookOpen => {
            assert forall|j: int| 0 <= j < 11 implies name_of(#[trigger] choices()[j]) != name by {
                if j == 0 {
                    assert(choices()[0] == Icon::Film);
                    assert(name_of(Icon::Film).len() != name_of(Icon::BookOpen).len());
                } else if j == 1 {
                    assert(choices()[1] == Icon::Music);
                    assert(name_of(Icon::Music).len() != name_of(Icon::BookOpen).len());
                } else if j == 2 {
                    assert(choices()[2] == Icon::FileText);
                    assert(name_of(Icon::FileText)[0] != name_of(Icon::BookOpen)[0]);
                } else if j == 3 {
                    assert(choices()[3] == Icon::Text);
                    assert(name_of(Icon::Text)[0] != name_of(Icon::BookOpen)[0]);
                } else if j == 4 {
                    assert(choices()[4] == Icon::Presentation);
                    assert(name_of(Icon::Presentation).len() != name_of(Icon::BookOpen).len());
                } else if j == 5 {
                    assert(choices()[5] == Icon::FileSpreadsheet);
                    assert(name_of(Icon::FileSpreadsheet).len() != name_of(Icon::BookOpen).len());
                } else if j == 6 {
                    assert(choices()[6] == Icon::Archive);
                    assert(name_of(Icon::Archive).len() != name_of(Icon::BookOpen).len());
                } else if j == 7 {
                    assert(choices()[7] == Icon::Package);
                    assert(name_of(Icon::Package).len() != name_of(Icon::BookOpen).len());
                } else if j == 8 {
                    assert(choices()[8] == Icon::File);
                    assert(name_of(Icon::File).len() != name_of(Icon::BookOpen).len());
                } else if j == 9 {
                    assert(choices()[9] == Icon::Code);
                    assert(name_of(Icon::Code).len() != name_of(Icon::BookOpen).len());
                } else if j == 10 {
                    assert(choices()[10] == Icon::Image);
                    assert(name_of(Icon::Image).len() != name_of(Icon::BookOpen).len());
                }
            }
            assert(choices()[11] == Icon::BookOpen);
            lemma_found_at(choices(), 11, name);
        },
        Icon::Disc => {
            assert forall|j: int| 0 <= j < 12 implies name_of(#[trigger] choices()[j]) != name by {
                if j == 0 {
                    assert(choices()[0] == Icon::Film);
                    assert(name_of(Icon::Film)[0] != name_of(Icon::Disc)[0]);
                } else if j == 1 {
                    assert(choices()[1] == Icon::Music);
                    assert(name_of(Icon::Music).len() != name_of(Icon::Disc).len());
                } else if j == 2 {
                    assert(choices()[2] == Icon::FileText);
                    assert(name_of(Icon::FileText).len() != name_of(Icon::Disc).len());
                } else if j == 3 {
                    assert(choices()[3] == Icon::Text);
                    assert(name_of(Icon::Text).len() != name_of(Icon::Disc).len());
                } else if j == 4 {
                    assert(choices()[4] == Icon::Presentation);
                    assert(name_of(Icon::Presentation).len() != name_of(Icon::Disc).len());
                } else if j == 5 {
                    assert(choices()[5] == Icon::FileSpreadsheet);
                    assert(name_of(Icon::FileSpreadsheet).len() != name_of(Icon::Disc).len());
                } else if j == 6 {
                    assert(choices()[6] == Icon::Archive);
                    assert(name_of(Icon::Archive).len() != name_of(Icon::Disc).len());
                } else if j == 7 {
                    assert(choices()[7] == Icon::Package);
                    assert(name_of(Icon::Package).len() != name_of(Icon::Disc).len());
                } else if j == 8 {
                    assert(choices()[8] == Icon::File);
                    assert(name_of(Icon::File)[0] != name_of(Icon::Disc)[0]);
                } else if j == 9 {
                    assert(choices()[9] == Icon::Code);
                    assert(name_of(Icon::Code).len() != name_of(Icon::Disc).len());
                } else if j == 10 {
                    assert(choices()[10] == Icon::Image);
                    assert(name_of(Icon::Image).len() != name_of(Icon::Disc).len());
                } else if j == 11 {
                    assert(choices()[11] == Icon::BookOpen);
                    assert(name_of(Icon::BookOpen).len() != name_of(Icon::Disc).len());
                }
            }
            assert(choices()[12] == Icon::Disc);
            lemma_found_at(choices(), 12, name);
        },
        Icon::Database => {
            assert forall|j: int| 0 <= j < 13 implies name_of(#[trigger] choices()[j]) != name by {
                if j == 0 {
                    assert(choices()[0] == Icon::Film);
                    assert(name_of(Icon::Film).len() != name_of(Icon::Database).len());
                } else if j == 1 {
                    assert(choices()[1] == Icon::Music);
                    assert(name_of(Icon::Music).len() != name_of(Icon::Database).len());
                } else if j == 2 {
                    assert(choices()[2] == Icon::FileText);
                    assert(name_of(Icon::FileText).len() != name_of(Icon::Database).len());
                } else if j == 3 {
                    assert(choices()[3] == Icon::Text);
                    assert(name_of(Icon::Text).len() != name_of(Icon::Database).len());
                } else if j == 4 {
                    assert(choices()[4] == Icon::Presentation);
                    assert(name_of(Icon::Presentation).len() != name_of(Icon::Database).len());
                } else if j == 5 {
                    assert(choices()[5] == Icon::FileSpreadsheet);
                    assert(name_of(Icon::FileSpreadsheet).len() != name_of(Icon::Database).len());
                } else if j == 6 {
                    assert(choices()[6] == Icon::Archive);
                    assert(name_of(Icon::Archive).len() != name_of(Icon::Database).len());
                } else if j == 7 {
                    assert(choices()[7] == Icon::Package);
                    assert(name_of(Icon::Package).len() != name_of(Icon::Database).len());
                } else if j == 8 {
                    assert(choices()[8] == Icon::File);
                    assert(name_of(Icon::File).len() != name_of(Icon::Database).len());
                } else if j == 9 {
                    assert(choices()[9] == Icon::Code);
                    assert(name_of(Icon::Code).len() != name_of(Icon::Database).len());
                } else if j == 10 {
                    assert(choices()[10] == Icon::Image);
                    assert(name_of(Icon::Image).len() != name_of(Icon::Database).len());
                } else if j == 11 {
                    assert(choices()[11] == Icon::BookOpen);
                    assert(name_of(Icon::BookOpen).len() != name_of(Icon::Database).len());
                } else if j == 12 {
                    assert(choices()[12] == Icon::Disc);
                    assert(name_of(Icon::Disc).len() != name_of(Icon::Database).len());
                }
            }
            assert(choices()[13] == Icon::Database);
            lemma_found_at(choices(), 13, name);
        },
        Icon::Gamepad => {
            assert forall|j: int| 0 <= j < 14 implies name_of(#[trigger] choices()[j]) != name by {
                if j == 0 {
                    assert(choices()[0] == Icon::Film);
                    assert(name_of(Icon::Film).len() != name_of(Icon::Gamepad).len());
                } else if j == 1 {
                    assert(choices()[1] == Icon::Music);
                    assert(name_of(Icon::Music).len() != name_of(Icon::Gamepad).len());
                } else if j == 2 {
                    assert(choices()[2] == Icon::FileText);
                    assert(name_of(Icon::FileText)[0] != name_of(Icon::Gamepad)[0]);
                } else if j == 3 {
                    assert(choices()[3] == Icon::Text);
                    assert(name_of(Icon::Text)[0] != name_of(Icon::Gamepad)[0]);
                } else if j == 4 {
                    assert(choices()[4] == Icon::Presentation);
                    assert(name_of(Icon::Presentation).len() != name_of(Icon::Gamepad).len());
                } else if j == 5 {
                    assert(choices()[5] == Icon::FileSpreadsheet);
                    assert(name_of(Icon::FileSpreadsheet).len() != name_of(Icon::Gamepad).len());
                } else if j == 6 {
                    assert(choices()[6] == Icon::Archive);
                    assert(name_of(Icon::Archive).len() != name_of(Icon::Gamepad).len());
                } else if j == 7 {
                    assert(choices()[7] == Icon::Package);
                    assert(name_of(Icon::Package).len() != name_of(Icon::Gamepad).len());
                } else if j == 8 {
                    assert(choices()[8] == Icon::File);
                    assert(name_of(Icon::File).len() != name_of(Icon::Gamepad).len());
                } else if j == 9 {
                    assert(choices()[9] == Icon::Code);
                    assert(name_of(Icon::Code).len() != name_of(Icon::Gamepad).len());
                } else if j == 10 {
                    assert(choices()[10] == Icon::Image);
                    assert(name_of(Icon::Image).len() != name_of(Icon::Gamepad).len());
                } else if j == 11 {
                    assert(choices()[11] == Icon::BookOpen);
                    assert(name_of(Icon::BookOpen)[0] != name_of(Icon::Gamepad)[0]);
                } else if j == 12 {
                    assert(choices()[12] == Icon::Disc);
                    assert(name_of(Icon::Disc).len() != name_of(Icon::Gamepad).len());
                } else if j == 13 {
                    assert(choices()[13] == Icon::Database);
                    assert(name_of(Icon::Database).len() != name_of(Icon::Gamepad).len());
                }
            }
            assert(choices()[14] == Icon::Gamepad);
            lemma_found_at(choices(), 14, name);
        },
        Icon::Globe => {
            assert forall|j: int| 0 <= j < 15 implies name_of(#[trigger] choices()[j]) != name by {
                if j == 0 {
                    assert(choices()[0] == Icon::Film);
                    assert(name_of(Icon::Film).len() != name_of(Icon::Globe).len());
                } else if j == 1 {
                    assert(choices()[1] == Icon::Music);
                    assert(name_of(Icon::Music)[0] != name_of(Icon::Globe)[0]);
                } else if j == 2 {
                    assert(choices()[2] == Icon::FileText);
                    assert(name_of(Icon::FileText).len() != name_of(Icon::Globe).len());
                } else if j == 3 {
                    assert(choices()[3] == Icon::Text);
                    assert(name_of(Icon::Text).len() != name_of(Icon::Globe).len());
                } else if j == 4 {
                    assert(choices()[4] == Icon::Presentation);
                    assert(name_of(Icon::Presentation).len() != name_of(Icon::Globe).len());
                } else if j == 5 {
                    assert(choices()[5] == Icon::FileSpreadsheet);
                    assert(name_of(Icon::FileSpreadsheet).len() != name_of(Icon::Globe).len());
                } else if j == 6 {
                    assert(choices()[6] == Icon::Archive);
                    assert(name_of(Icon::Archive).len() != name_of(Icon::Globe).len());
                } else if j == 7 {
                    assert(choices()[7] == Icon::Package);
                    assert(name_of(Icon::Package).len() != name_of(Icon::Globe).len());
                } else if j == 8 {
                    assert(choices()[8] == Icon::File);
                    assert(name_of(Icon::File).len() != name_of(Icon::Globe).len());
                } else if j == 9 {
                    assert(choices()[9] == Icon::Code);
                    assert(name_of(Icon::Code).len() != name_of(Icon::Globe).len());
                } else if j == 10 {
                    assert(choices()[10] == Icon::Image);
                    assert(name_of(Icon::Image)[0] != name_of(Icon::Globe)[0]);
                } else if j == 11 {
                    assert(choices()[11] == Icon::BookOpen);
                    assert(name_of(Icon::BookOpen).len() != name_of(Icon::Globe).len());
                } else if j == 12 {
                    assert(choices()[12] == Icon::Disc);
                    assert(name_of(Icon::Disc).len() != name_of(Icon::Globe).len());
                } else if j == 13 {
                    assert(choices()[13] == Icon::Database);
                    assert(name_of(Icon::Database).len() != name_of(Icon::Globe).len());
                } else if j == 14 {
                    assert(choices()[14] == Icon::Gamepad);
                    assert(name_of(Icon::Gamepad).len() != name_of(Icon::Globe).len());
                }
            }
            assert(choices()[15] == Icon::Globe);
            lemma_found_at(choices(), 15, name);
        },
        _ => {},
    }
}


/// Where a download stands.
#[derive(Clone, Copy, Debug, PartialEq, Eq, Structural)]
pub enum Status {
    Queued,
    Downloading,
    Paused,
    Completed,
    Failed,
}

impl Status {
    /// Every status, in the list's order.
    pub fn all() -> (a: [Status; 5])
        ensures
            a@ == seq![
                Status::Queued,
                Status::Downloading,
                Status::Paused,
                Status::Completed,
                Status::Failed,
            ],
    {
        let a = [Status::Queued, Status::Downloading, Status::Paused, Status::Completed, Status::Failed];
        assert(a@ =~= seq![
            Status::Queued,
            Status::Downloading,
            Status::Paused,
            Status::Completed,
            Status::Failed,
        ]);
        a
    }
}

/// What the sidebar filters the list by: everything, what is downloading, what is not
/// finished, what is finished, or a category (by its number).
#[derive(Clone, Copy, Debug, PartialEq, Eq, Structural)]
pub enum Filter {
    All,
    Downloading,
    Unfinished,
    Completed,
    Category(u64),
}

/// The mark a row wears in the Status column: the glyph in a ring, or a clock face.
pub open spec fn status_mark(status: Status) -> Icon {
    match status {
        Status::Queued => Icon::Clock,
        Status::Downloading => Icon::CircleArrowDown,
        Status::Paused => Icon::CirclePause,
        Status::Completed => Icon::CircleCheck,
        Status::Failed => Icon::CircleX,
    }
}

/// The same five where a status is something to filter by: bare.
pub open spec fn status_legend(status: Status) -> Icon {
    match status {
        Status::Queued => Icon::Hourglass,
        Status::Downloading => Icon::ArrowDown,
        Status::Paused => Icon::Pause,
        Status::Completed => Icon::Check,
        Status::Failed => Icon::X,
    }
}

/// A filter's icon, bare: a pyramid for everything, a dashed circle for what is unfinished, a
/// status's legend where the filter is one, and a file for a category (which carries its own).
pub open spec fn filter_icon(filter: Filter) -> Icon {
    match filter {
        Filter::All => Icon::Pyramid,
        Filter::Downloading => Icon::ArrowDown,
        Filter::Unfinished => Icon::CircleDashed,
        Filter::Completed => Icon::Check,
        Filter::Category(_) => Icon::File,
    }
}

impl Icon {
    /// The mark a row wears in the Status column to say where it got to.
    pub fn for_status(status: Status) -> (r: Icon)
        ensures
            r == status_mark(status),
    {
        match status {
            Status::Queued => Icon::Clock,
            Status::Downloading => Icon::CircleArrowDown,
            Status::Paused => Icon::CirclePause,
            Status::Completed => Icon::CircleCheck,
            Status::Failed => Icon::CircleX,
        }
    }

    /// A status where it is something to filter by rather than something a row is in.
    pub fn for_status_filter(status: Status) -> (r: Icon)
        ensures
            r == status_legend(status),
    {
        match status {
            Status::Queued => Icon::Hourglass,
            Status::Downloading => Icon::ArrowDown,
            Status::Paused => Icon::Pause,
            Status::Completed => Icon::Check,
            Status::Failed => Icon::X,
        }
    }

    /// The state filters' icons, bare; a category's row draws the category's own.
    pub fn for_filter(filter: Filter) -> (r: Icon)
        ensures
            r == filter_icon(filter),
    {
        match filter {
            Filter::All => Icon::Pyramid,
            Filter::Downloading => Icon::ArrowDown,
            Filter::Unfinished => Icon::CircleDashed,
            Filter::Completed => Icon::Check,
            Filter::Category(_) => Icon::File,
        }
    }
}

/// A status is drawn two ways and never the same: ringed as a row's mark, bare in a legend;
/// and where the sidebar and the legend name the same thing they draw the same glyph.
pub proof fn law_a_mark_is_never_its_legend(status: Status)
    ensures
        status_mark(status) != status_legend(status),
        filter_icon(Filter::Downloading) == status_legend(Status::Downloading),
        filter_icon(Filter::Completed) == status_legend(Status::Completed),
{
}


/// Every icon, its files in order.
pub open spec fn every_icon() -> Seq<Icon> {
    seq![
        Icon::Archive,
        Icon::ArrowDown,
        Icon::ArrowLeft,
        Icon::Bell,
        Icon::BookOpen,
        Icon::Box,
        Icon::CaseSensitive,
        Icon::Check,
        Icon::ChevronDown,
        Icon::ChevronRight,
        Icon::ChevronUp,
        Icon::CircleArrowDown,
        Icon::CircleCheck,
        Icon::CircleDashed,
        Icon::CirclePause,
        Icon::CircleQuestion,
        Icon::CircleX,
        Icon::Clock,
        Icon::Close,
        Icon::Cpu,
        Icon::Database,
        Icon::Disc,
        Icon::Download,
        Icon::Code,
        Icon::FileSpreadsheet,
        Icon::FileText,
        Icon::Text,
        Icon::File,
        Icon::Film,
        Icon::FlagOff,
        Icon::Flag,
        Icon::FolderOpen,
        Icon::Funnel,
        Icon::Gamepad,
        Icon::Globe,
        Icon::GripVertical,
        Icon::Hourglass,
        Icon::Image,
        Icon::Info,
        Icon::LayoutGrid,
        Icon::LayoutList,
        Icon::Loader,
        Icon::Magnet,
        Icon::Maximize,
        Icon::Minimize,
        Icon::Music,
        Icon::Package,
        Icon::Palette,
        Icon::Pause,
        Icon::Pencil,
        Icon::Play,
        Icon::Plus,
        Icon::Presentation,
        Icon::Pyramid,
        Icon::Restore,
        Icon::Search,
        Icon::Settings,
        Icon::SlidersHorizontal,
        Icon::Space,
        Icon::Table,
        Icon::Trash,
        Icon::X,
    ]
}

/// Where an icon stands among `every_icon`.
pub open spec fn place_of(icon: Icon) -> int {
    match icon {
        Icon::Archive => 0,
        Icon::ArrowDown => 1,
        Icon::ArrowLeft => 2,
        Icon::Bell => 3,
        Icon::BookOpen => 4,
        Icon::Box => 5,
        Icon::CaseSensitive => 6,
        Icon::Check => 7,
        Icon::ChevronDown => 8,
        Icon::ChevronRight => 9,
        Icon::ChevronUp => 10,
        Icon::CircleArrowDown => 11,
        Icon::CircleCheck => 12,
        Icon::CircleDashed => 13,
        Icon::CirclePause => 14,
        Icon::CircleQuestion => 15,
        Icon::CircleX => 16,
        Icon::Clock => 17,
        Icon::Close => 18,
        Icon::Cpu => 19,
        Icon::Database => 20,
        Icon::Disc => 21,
        Icon::Download => 22,
        Icon::Code => 23,
        Icon::FileSpreadsheet => 24,
        Icon::FileText => 25,
        Icon::Text => 26,
        Icon::File => 27,
        Icon::Film => 28,
        Icon::FlagOff => 29,
        Icon::Flag => 30,
        Icon::FolderOpen => 31,
        Icon::Funnel => 32,
        Icon::Gamepad => 33,
        Icon::Globe => 34,
        Icon::GripVertical => 35,
        Icon::Hourglass => 36,
        Icon::Image => 37,
        Icon::Info => 38,
        Icon::LayoutGrid => 39,
        Icon::LayoutList => 40,
        Icon::Loader => 41,
        Icon::Magnet => 42,
        Icon::Maximize => 43,
        Icon::Minimize => 44,
        Icon::Music => 45,
        Icon::Package => 46,
        Icon::Palette => 47,
        Icon::Pause => 48,
        Icon::Pencil => 49,
        Icon::Play => 50,
        Icon::Plus => 51,
        Icon::Presentation => 52,
        Icon::Pyramid => 53,
        Icon::Restore => 54,
        Icon::Search => 55,
        Icon::Settings => 56,
        Icon::SlidersHorizontal => 57,
        Icon::Space => 58,
        Icon::Table => 59,
        Icon::Trash => 60,
        Icon::X => 61,
    }
}

proof fn lemma_every_icon(icon: Icon)
    ensures
        0 <= place_of(icon) < every_icon().len(),
        every_icon()[place_of(icon)] == icon,
{
}

/// `a` comes before `b`, their first difference at `k`.
pub open spec fn before_at(a: Seq<char>, b: Seq<char>, k: int) -> bool {
    &&& 0 <= k < a.len()
    &&& k < b.len()
    &&& a.take(k) == b.take(k)
    &&& (a[k] as u32) < (b[k] as u32)
}

/// `a` comes before `b` in the order of their characters, neither the start of the other.
pub open spec fn ordered(a: Seq<char>, b: Seq<char>) -> bool {
    exists|k: int| before_at(a, b, k)
}

proof fn lemma_ordered_differ(a: Seq<char>, b: Seq<char>)
    requires
        ordered(a, b),
    ensures
        a != b,
{
    let k = choose|k: int| before_at(a, b, k);
}

proof fn lemma_ordered_transitive(a: Seq<char>, b: Seq<char>, c: Seq<char>)
    requires
        ordered(a, b),
        ordered(b, c),
    ensures
        ordered(a, c),
{
    let i = choose|k: int| before_at(a, b, k);
    let j = choose|k: int| before_at(b, c, k);
    let k = if i < j {
        i
    } else {
        j
    };
    assert forall|m: int| 0 <= m < k implies a[m] == c[m] by {
        assert(a.take(i)[m] == b.take(i)[m]);
        assert(b.take(j)[m] == c.take(j)[m]);
    }
    if i < j {
        assert(b.take(j)[i] == c.take(j)[i]);
    } else if j < i {
        assert(a.take(i)[j] == b.take(i)[j]);
    }
    assert(a.take(k) =~= c.take(k));
    assert(before_at(a, c, k));
}

/// Each file comes before the next one in `every_icon`.
proof fn lemma_next_in_order(i: int)
    requires
        0 <= i < every_icon().len() - 1,
    ensures
        ordered(file_of(every_icon()[i]), file_of(every_icon()[i + 1])),
{
    if i == 0 {
        assert(file_of(Icon::Archive).take(2) =~= file_of(Icon::ArrowDown).take(2));
        assert(before_at(file_of(Icon::Archive), file_of(Icon::ArrowDown), 2));
    } else if i == 1 {
        assert(file_of(Icon::ArrowDown).take(6) =~= file_of(Icon::ArrowLeft).take(6));
        assert(before_at(file_of(Icon::ArrowDown), file_of(Icon::ArrowLeft), 6));
    } else if i == 2 {
        assert(file_of(Icon::ArrowLeft).take(0) =~= file_of(Icon::Bell).take(0));
        assert(before_at(file_of(Icon::ArrowLeft), file_of(Icon::Bell), 0));
    } else if i == 3 {
        assert(file_of(Icon::Bell).take(1) =~= file_of(Icon::BookOpen).take(1));
        assert(before_at(file_of(Icon::Bell), file_of(Icon::BookOpen), 1));
    } else if i == 4 {
        assert(file_of(Icon::BookOpen).take(2) =~= file_of(Icon::Box).take(2));
        assert(before_at(file_of(Icon::BookOpen), file_of(Icon::Box), 2));
    } else if i == 5 {
        assert(file_of(Icon::Box).take(0) =~= file_of(Icon::CaseSensitive).take(0));
        assert(before_at(file_of(Icon::Box), file_of(Icon::CaseSensitive), 0));
    } else if i == 6 {
        assert(file_of(Icon::CaseSensitive).take(1) =~= file_of(Icon::Check).take(1));
        assert(before_at(file_of(Icon::CaseSensitive), file_of(Icon::Check), 1));
    } else if i == 7 {
        assert(file_of(Icon::Check).take(3) =~= file_of(Icon::ChevronDown).take(3));
        assert(before_at(file_of(Icon::Check), file_of(Icon::ChevronDown), 3));
    } else if i == 8 {
        assert(file_of(Icon::ChevronDown).take(8) =~= file_of(Icon::ChevronRight).take(8));
        assert(before_at(file_of(Icon::ChevronDown), file_of(Icon::ChevronRight), 8));
    } else if i == 9 {
        assert(file_of(Icon::ChevronRight).take(8) =~= file_of(Icon::ChevronUp).take(8));
        assert(before_at(file_of(Icon::ChevronRight), file_of(Icon::ChevronUp), 8));
    } else if i == 10 {
        assert(file_of(Icon::ChevronUp).take(1) =~= file_of(Icon::CircleArrowDown).take(1));
        assert(before_at(file_of(Icon::ChevronUp), file_of(Icon::CircleArrowDown), 1));
    } else if i == 11 {
        assert(file_of(Icon::CircleArrowDown).take(7) =~= file_of(Icon::CircleCheck).take(7));
        assert(before_at(file_of(Icon::CircleArrowDown), file_of(Icon::CircleCheck), 7));
    } else if i == 12 {
        assert(file_of(Icon::CircleCheck).take(7) =~= file_of(Icon::CircleDashed).take(7));
        assert(before_at(file_of(Icon::CircleCheck), file_of(Icon::CircleDashed), 7));
    } else if i == 13 {
        assert(file_of(Icon::CircleDashed).take(7) =~= file_of(Icon::CirclePause).take(7));
        assert(before_at(file_of(Icon::CircleDashed), file_of(Icon::CirclePause), 7));
    } else if i == 14 {
        assert(file_of(Icon::CirclePause).take(7) =~= file_of(Icon::CircleQuestion).take(7));
        assert(before_at(file_of(Icon::CirclePause), file_of(Icon::CircleQuestion), 7));
    } else if i == 15 {
        assert(file_of(Icon::CircleQuestion).take(7) =~= file_of(Icon::CircleX).take(7));
        assert(before_at(file_of(Icon::CircleQuestion), file_of(Icon::CircleX), 7));
    } else if i == 16 {
        assert(file_of(Icon::CircleX).take(1) =~= file_of(Icon::Clock).take(1));
        assert(before_at(file_of(Icon::CircleX), file_of(Icon::Clock), 1));
    } else if i == 17 {
        assert(file_of(Icon::Clock).take(3) =~= file_of(Icon::Close).take(3));
        assert(before_at(file_of(Icon::Clock), file_of(Icon::Close), 3));
    } else if i == 18 {
        assert(file_of(Icon::Close).take(1) =~= file_of(Icon::Cpu).take(1));
        assert(before_at(file_of(Icon::Close), file_of(Icon::Cpu), 1));
    } else if i == 19 {
        assert(file_of(Icon::Cpu).take(0) =~= file_of(Icon::Database).take(0));
        assert(before_at(file_of(Icon::Cpu), file_of(Icon::Database), 0));
    } else if i == 20 {
        assert(file_of(Icon::Database).take(1) =~= file_of(Icon::Disc).take(1));
        assert(before_at(file_of(Icon::Database), file_of(Icon::Disc), 1));
    } else if i == 21 {
        assert(file_of(Icon::Disc).take(1) =~= file_of(Icon::Download).take(1));
        assert(before_at(file_of(Icon::Disc), file_of(Icon::Download), 1));
    } else if i == 22 {
        assert(file_of(Icon::Download).take(0) =~= file_of(Icon::Code).take(0));
        assert(before_at(file_of(Icon::Download), file_of(Icon::Code), 0));
    } else if i == 23 {
        assert(file_of(Icon::Code).take(5) =~= file_of(Icon::FileSpreadsheet).take(5));
        assert(before_at(file_of(Icon::Code), file_of(Icon::FileSpreadsheet), 5));
    } else if i == 24 {
        assert(file_of(Icon::FileSpreadsheet).take(5) =~= file_of(Icon::FileText).take(5));
        assert(before_at(file_of(Icon::FileSpreadsheet), file_of(Icon::FileText), 5));
    } else if i == 25 {
        assert(file_of(Icon::FileText).take(6) =~= file_of(Icon::Text).take(6));
        assert(before_at(file_of(Icon::FileText), file_of(Icon::Text), 6));
    } else if i == 26 {
        assert(file_of(Icon::Text).take(4) =~= file_of(Icon::File).take(4));
        assert(before_at(file_of(Icon::Text), file_of(Icon::File), 4));
    } else if i == 27 {
        assert(file_of(Icon::File).take(3) =~= file_of(Icon::Film).take(3));
        assert(before_at(file_of(Icon::File), file_of(Icon::Film), 3));
    } else if i == 28 {
        assert(file_of(Icon::Film).take(1) =~= file_of(Icon::FlagOff).take(1));
        assert(before_at(file_of(Icon::Film), file_of(Icon::FlagOff), 1));
    } else if i == 29 {
        assert(file_of(Icon::FlagOff).take(4) =~= file_of(Icon::Flag).take(4));
        assert(before_at(file_of(Icon::FlagOff), file_of(Icon::Flag), 4));
    } else if i == 30 {
        assert(file_of(Icon::Flag).take(1) =~= file_of(Icon::FolderOpen).take(1));
        assert(before_at(file_of(Icon::Flag), file_of(Icon::FolderOpen), 1));
    } else if i == 31 {
        assert(file_of(Icon::FolderOpen).take(1) =~= file_of(Icon::Funnel).take(1));
        assert(before_at(file_of(Icon::FolderOpen), file_of(Icon::Funnel), 1));
    } else if i == 32 {
        assert(file_of(Icon::Funnel).take(0) =~= file_of(Icon::Gamepad).take(0));
        assert(before_at(file_of(Icon::Funnel), file_of(Icon::Gamepad), 0));
    } else if i == 33 {
        assert(file_of(Icon::Gamepad).take(1) =~= file_of(Icon::Globe).take(1));
        assert(before_at(file_of(Icon::Gamepad), file_of(Icon::Globe), 1));
    } else if i == 34 {
        assert(file_of(Icon::Globe).take(1) =~= file_of(Icon::GripVertical).take(1));
        assert(before_at(file_of(Icon::Globe), file_of(Icon::GripVertical), 1));
    } else if i == 35 {
        assert(file_of(Icon::GripVertical).take(0) =~= file_of(Icon::Hourglass).take(0));
        assert(before_at(file_of(Icon::GripVertical), file_of(Icon::Hourglass), 0));
    } else if i == 36 {
        assert(file_of(Icon::Hourglass).take(0) =~= file_of(Icon::Image).take(0));
        assert(before_at(file_of(Icon::Hourglass), file_of(Icon::Image), 0));
    } else if i == 37 {
        assert(file_of(Icon::Image).take(1) =~= file_of(Icon::Info).take(1));
        assert(before_at(file_of(Icon::Image), file_of(Icon::Info), 1));
    } else if i == 38 {
        assert(file_of(Icon::Info).take(0) =~= file_of(Icon::LayoutGrid).take(0));
        assert(before_at(file_of(Icon::Info), file_of(Icon::LayoutGrid), 0));
    } else if i == 39 {
        assert(file_of(Icon::LayoutGrid).take(7) =~= file_of(Icon::LayoutList).take(7));
        assert(before_at(file_of(Icon::LayoutGrid), file_of(Icon::LayoutList), 7));
    } else if i == 40 {
        assert(file_of(Icon::LayoutList).take(1) =~= file_of(Icon::Loader).take(1));
        assert(before_at(file_of(Icon::LayoutList), file_of(Icon::Loader), 1));
    } else if i == 41 {
        assert(file_of(Icon::Loader).take(0) =~= file_of(Icon::Magnet).take(0));
        assert(before_at(file_of(Icon::Loader), file_of(Icon::Magnet), 0));
    } else if i == 42 {
        assert(file_of(Icon::Magnet).take(2) =~= file_of(Icon::Maximize).take(2));
        assert(before_at(file_of(Icon::Magnet), file_of(Icon::Maximize), 2));
    } else if i == 43 {
        assert(file_of(Icon::Maximize).take(1) =~= file_of(Icon::Minimize).take(1));
        assert(before_at(file_of(Icon::Maximize), file_of(Icon::Minimize), 1));
    } else if i == 44 {
        assert(file_of(Icon::Minimize).take(1) =~= file_of(Icon::Music).take(1));
        assert(before_at(file_of(Icon::Minimize), file_of(Icon::Music), 1));
    } else if i == 45 {
        assert(file_of(Icon::Music).take(0) =~= file_of(Icon::Package).take(0));
        assert(before_at(file_of(Icon::Music), file_of(Icon::Package), 0));
    } else if i == 46 {
        assert(file_of(Icon::Package).take(2) =~= file_of(Icon::Palette).take(2));
        assert(before_at(file_of(Icon::Package), file_of(Icon::Palette), 2));
    } else if i == 47 {
        assert(file_of(Icon::Palette).take(2) =~= file_of(Icon::Pause).take(2));
        assert(before_at(file_of(Icon::Palette), file_of(Icon::Pause), 2));
    } else if i == 48 {
        assert(file_of(Icon::Pause).take(1) =~= file_of(Icon::Pencil).take(1));
        assert(before_at(file_of(Icon::Pause), file_of(Icon::Pencil), 1));
    } else if i == 49 {
        assert(file_of(Icon::Pencil).take(1) =~= file_of(Icon::Play).take(1));
        assert(before_at(file_of(Icon::Pencil), file_of(Icon::Play), 1));
    } else if i == 50 {
        assert(file_of(Icon::Play).take(2) =~= file_of(Icon::Plus).take(2));
        assert(before_at(file_of(Icon::Play), file_of(Icon::Plus), 2));
    } else if i == 51 {
        assert(file_of(Icon::Plus).take(1) =~= file_of(Icon::Presentation).take(1));
        assert(before_at(file_of(Icon::Plus), file_of(Icon::Presentation), 1));
    } else if i == 52 {
        assert(file_of(Icon::Presentation).take(1) =~= file_of(Icon::Pyramid).take(1));
        assert(before_at(file_of(Icon::Presentation), file_of(Icon::Pyramid), 1));
    } else if i == 53 {
        assert(file_of(Icon::Pyramid).take(0) =~= file_of(Icon::Restore).take(0));
        assert(before_at(file_of(Icon::Pyramid), file_of(Icon::Restore), 0));
    } else if i == 54 {
        assert(file_of(Icon::Restore).take(0) =~= file_of(Icon::Search).take(0));
        assert(before_at(file_of(Icon::Restore), file_of(Icon::Search), 0));
    } else if i == 55 {
        assert(file_of(Icon::Search).take(2) =~= file_of(Icon::Settings).take(2));
        assert(before_at(file_of(Icon::Search), file_of(Icon::Settings), 2));
    } else if i == 56 {
        assert(file_of(Icon::Settings).take(1) =~= file_of(Icon::SlidersHorizontal).take(1));
        assert(before_at(file_of(Icon::Settings), file_of(Icon::SlidersHorizontal), 1));
    } else if i == 57 {
        assert(file_of(Icon::SlidersHorizontal).take(1) =~= file_of(Icon::Space).take(1));
        assert(before_at(file_of(Icon::SlidersHorizontal), file_of(Icon::Space), 1));
    } else if i == 58 {
        assert(file_of(Icon::Space).take(0) =~= file_of(Icon::Table).take(0));
        assert(before_at(file_of(Icon::Space), file_of(Icon::Table), 0));
    } else if i == 59 {
        assert(file_of(Icon::Table).take(1) =~= file_of(Icon::Trash).take(1));
        assert(before_at(file_of(Icon::Table), file_of(Icon::Trash), 1));
    } else if i == 60 {
        assert(file_of(Icon::Trash).take(0) =~= file_of(Icon::X).take(0));
        assert(before_at(file_of(Icon::Trash), file_of(Icon::X), 0));
    }
}

proof fn lemma_in_order(i: int, j: int)
    requires
        0 <= i < j < every_icon().len(),
    ensures
        ordered(file_of(every_icon()[i]), file_of(every_icon()[j])),
    decreases j - i,
{
    lemma_next_in_order(j - 1);
    if i < j - 1 {
        lemma_in_order(i, j - 1);
        lemma_ordered_transitive(
            file_of(every_icon()[i]),
            file_of(every_icon()[j - 1]),
            file_of(every_icon()[j]),
        );
    }
}

/// Every icon is drawn from a file of its own, an `.svg`; the window's four buttons from the
/// frame's files, every other icon from Lucide's.
pub proof fn law_each_icon_has_a_file_of_its_own(a: Icon, b: Icon)
    ensures
        a != b ==> path_of(a) != path_of(b),
        finishes_with(path_of(a), ".svg"@),
        begins_with(path_of(a), "frame/"@) || begins_with(path_of(a), "lucide/"@),
        begins_with(path_of(a), "frame/"@) <==> window_control(a),
{
    reveal_strlit(".svg");
    reveal_strlit("frame/");
    reveal_strlit("lucide/");
    let (fa, fb) = (file_of(a), file_of(b));
    assert(fa.len() >= 4 && fa.skip(fa.len() - 4) =~= ".svg"@) by {
        match a {
            Icon::Archive => assert(file_of(Icon::Archive).skip(file_of(Icon::Archive).len() - 4) =~= ".svg"@),
            Icon::ArrowDown => assert(file_of(Icon::ArrowDown).skip(file_of(Icon::ArrowDown).len() - 4) =~= ".svg"@),
            Icon::ArrowLeft => assert(file_of(Icon::ArrowLeft).skip(file_of(Icon::ArrowLeft).len() - 4) =~= ".svg"@),
            Icon::Bell => assert(file_of(Icon::Bell).skip(file_of(Icon::Bell).len() - 4) =~= ".svg"@),
            Icon::BookOpen => assert(file_of(Icon::BookOpen).skip(file_of(Icon::BookOpen).len() - 4) =~= ".svg"@),
            Icon::Box => assert(file_of(Icon::Box).skip(file_of(Icon::Box).len() - 4) =~= ".svg"@),
            Icon::CaseSensitive => assert(file_of(Icon::CaseSensitive).skip(file_of(Icon::CaseSensitive).len() - 4) =~= ".svg"@),
            Icon::Check => assert(file_of(Icon::Check).skip(file_of(Icon::Check).len() - 4) =~= ".svg"@),
            Icon::ChevronDown => assert(file_of(Icon::ChevronDown).skip(file_of(Icon::ChevronDown).len() - 4) =~= ".svg"@),
            Icon::ChevronRight => assert(file_of(Icon::ChevronRight).skip(file_of(Icon::ChevronRight).len() - 4) =~= ".svg"@),
            Icon::ChevronUp => assert(file_of(Icon::ChevronUp).skip(file_of(Icon::ChevronUp).len() - 4) =~= ".svg"@),
            Icon::CircleArrowDown => assert(file_of(Icon::CircleArrowDown).skip(file_of(Icon::CircleArrowDown).len() - 4) =~= ".svg"@),
            Icon::CircleCheck => assert(file_of(Icon::CircleCheck).skip(file_of(Icon::CircleCheck).len() - 4) =~= ".svg"@),
            Icon::CircleDashed => assert(file_of(Icon::CircleDashed).skip(file_of(Icon::CircleDashed).len() - 4) =~= ".svg"@),
            Icon::CirclePause => assert(file_of(Icon::CirclePause).skip(file_of(Icon::CirclePause).len() - 4) =~= ".svg"@),
            Icon::CircleQuestion => assert(file_of(Icon::CircleQuestion).skip(file_of(Icon::CircleQuestion).len() - 4) =~= ".svg"@),
            Icon::CircleX => assert(file_of(Icon::CircleX).skip(file_of(Icon::CircleX).len() - 4) =~= ".svg"@),
            Icon::Clock => assert(file_of(Icon::Clock).skip(file_of(Icon::Clock).len() - 4) =~= ".svg"@),
            Icon::Close => assert(file_of(Icon::Close).skip(file_of(Icon::Close).len() - 4) =~= ".svg"@),
            Icon::Cpu => assert(file_of(Icon::Cpu).skip(file_of(Icon::Cpu).len() - 4) =~= ".svg"@),
            Icon::Database => assert(file_of(Icon::Database).skip(file_of(Icon::Database).len() - 4) =~= ".svg"@),
            Icon::Disc => assert(file_of(Icon::Disc).skip(file_of(Icon::Disc).len() - 4) =~= ".svg"@),
            Icon::Download => assert(file_of(Icon::Download).skip(file_of(Icon::Download).len() - 4) =~= ".svg"@),
            Icon::Code => assert(file_of(Icon::Code).skip(file_of(Icon::Code).len() - 4) =~= ".svg"@),
            Icon::FileSpreadsheet => assert(file_of(Icon::FileSpreadsheet).skip(file_of(Icon::FileSpreadsheet).len() - 4) =~= ".svg"@),
            Icon::FileText => assert(file_of(Icon::FileText).skip(file_of(Icon::FileText).len() - 4) =~= ".svg"@),
            Icon::Text => assert(file_of(Icon::Text).skip(file_of(Icon::Text).len() - 4) =~= ".svg"@),
            Icon::File => assert(file_of(Icon::File).skip(file_of(Icon::File).len() - 4) =~= ".svg"@),
            Icon::Film => assert(file_of(Icon::Film).skip(file_of(Icon::Film).len() - 4) =~= ".svg"@),
            Icon::FlagOff => assert(file_of(Icon::FlagOff).skip(file_of(Icon::FlagOff).len() - 4) =~= ".svg"@),
            Icon::Flag => assert(file_of(Icon::Flag).skip(file_of(Icon::Flag).len() - 4) =~= ".svg"@),
            Icon::FolderOpen => assert(file_of(Icon::FolderOpen).skip(file_of(Icon::FolderOpen).len() - 4) =~= ".svg"@),
            Icon::Funnel => assert(file_of(Icon::Funnel).skip(file_of(Icon::Funnel).len() - 4) =~= ".svg"@),
            Icon::Gamepad => assert(file_of(Icon::Gamepad).skip(file_of(Icon::Gamepad).len() - 4) =~= ".svg"@),
            Icon::Globe => assert(file_of(Icon::Globe).skip(file_of(Icon::Globe).len() - 4) =~= ".svg"@),
            Icon::GripVertical => assert(file_of(Icon::GripVertical).skip(file_of(Icon::GripVertical).len() - 4) =~= ".svg"@),
            Icon::Hourglass => assert(file_of(Icon::Hourglass).skip(file_of(Icon::Hourglass).len() - 4) =~= ".svg"@),
            Icon::Image => assert(file_of(Icon::Image).skip(file_of(Icon::Image).len() - 4) =~= ".svg"@),
            Icon::Info => assert(file_of(Icon::Info).skip(file_of(Icon::Info).len() - 4) =~= ".svg"@),
            Icon::LayoutGrid => assert(file_of(Icon::LayoutGrid).skip(file_of(Icon::LayoutGrid).len() - 4) =~= ".svg"@),
            Icon::LayoutList => assert(file_of(Icon::LayoutList).skip(file_of(Icon::LayoutList).len() - 4) =~= ".svg"@),
            Icon::Loader => assert(file_of(Icon::Loader).skip(file_of(Icon::Loader).len() - 4) =~= ".svg"@),
            Icon::Magnet => assert(file_of(Icon::Magnet).skip(file_of(Icon::Magnet).len() - 4) =~= ".svg"@),
            Icon::Maximize => assert(file_of(Icon::Maximize).skip(file_of(Icon::Maximize).len() - 4) =~= ".svg"@),
            Icon::Minimize => assert(file_of(Icon::Minimize).skip(file_of(Icon::Minimize).len() - 4) =~= ".svg"@),
            Icon::Music => assert(file_of(Icon::Music).skip(file_of(Icon::Music).len() - 4) =~= ".svg"@),
            Icon::Package => assert(file_of(Icon::Package).skip(file_of(Icon::Package).len() - 4) =~= ".svg"@),
            Icon::Palette => assert(file_of(Icon::Palette).skip(file_of(Icon::Palette).len() - 4) =~= ".svg"@),
            Icon::Pause => assert(file_of(Icon::Pause).skip(file_of(Icon::Pause).len() - 4) =~= ".svg"@),
            Icon::Pencil => assert(file_of(Icon::Pencil).skip(file_of(Icon::Pencil).len() - 4) =~= ".svg"@),
            Icon::Play => assert(file_of(Icon::Play).skip(file_of(Icon::Play).len() - 4) =~= ".svg"@),
            Icon::Plus => assert(file_of(Icon::Plus).skip(file_of(Icon::Plus).len() - 4) =~= ".svg"@),
            Icon::Presentation => assert(file_of(Icon::Presentation).skip(file_of(Icon::Presentation).len() - 4) =~= ".svg"@),
            Icon::Pyramid => assert(file_of(Icon::Pyramid).skip(file_of(Icon::Pyramid).len() - 4) =~= ".svg"@),
            Icon::Restore => assert(file_of(Icon::Restore).skip(file_of(Icon::Restore).len() - 4) =~= ".svg"@),
            Icon::Search => assert(file_of(Icon::Search).skip(file_of(Icon::Search).len() - 4) =~= ".svg"@),
            Icon::Settings => assert(file_of(Icon::Settings).skip(file_of(Icon::Settings).len() - 4) =~= ".svg"@),
            Icon::SlidersHorizontal => assert(file_of(Icon::SlidersHorizontal).skip(file_of(Icon::SlidersHorizontal).len() - 4) =~= ".svg"@),
            Icon::Space => assert(file_of(Icon::Space).skip(file_of(Icon::Space).len() - 4) =~= ".svg"@),
            Icon::Table => assert(file_of(Icon::Table).skip(file_of(Icon::Table).len() - 4) =~= ".svg"@),
            Icon::Trash => assert(file_of(Icon::Trash).skip(file_of(Icon::Trash).len() - 4) =~= ".svg"@),
            Icon::X => assert(file_of(Icon::X).skip(file_of(Icon::X).len() - 4) =~= ".svg"@),
        }
    }
    assert(path_of(a).skip(path_of(a).len() - 4) =~= fa.skip(fa.len() - 4));
    if window_control(a) {
        assert(path_of(a).take(6) =~= "frame/"@);
    } else {
        assert(path_of(a).take(7) =~= "lucide/"@);
        assert(path_of(a).take(6)[0] != "frame/"@[0]);
    }
    if a != b {
        lemma_every_icon(a);
        lemma_every_icon(b);
        let (i, j) = (place_of(a), place_of(b));
        if i < j {
            lemma_in_order(i, j);
            lemma_ordered_differ(fa, fb);
        } else {
            lemma_in_order(j, i);
            lemma_ordered_differ(fb, fa);
        }
        if path_of(a) == path_of(b) {
            if window_control(a) == window_control(b) {
                assert(fa =~= path_of(a).skip(folder_of(a).len() as int));
                assert(fb =~= path_of(b).skip(folder_of(b).len() as int));
            } else {
                assert(path_of(a)[0] == folder_of(a)[0]);
                assert(path_of(b)[0] == folder_of(b)[0]);
            }
        }
    }
}


/// A row's mark is its legend in a ring: the ringed file is `circle-` before the legend's own,
/// for every status but a queued one, whose mark is a clock face and whose legend an hourglass.
/// A finished download is ticked, a failed one crossed.
pub proof fn law_a_mark_rings_its_legend(status: Status)
    ensures
        status != Status::Queued ==> file_of(status_mark(status)) == seq![
            'c',
            'i',
            'r',
            'c',
            'l',
            'e',
            '-',
        ] + file_of(status_legend(status)),
        status_mark(Status::Queued) == Icon::Clock && status_legend(Status::Queued)
            == Icon::Hourglass,
        status_legend(Status::Completed) == Icon::Check && status_mark(Status::Completed)
            == Icon::CircleCheck,
        status_legend(Status::Failed) == Icon::X && status_mark(Status::Failed) == Icon::CircleX,
{
    assert(file_of(Icon::CircleArrowDown) =~= seq!['c', 'i', 'r', 'c', 'l', 'e', '-'] + file_of(
        Icon::ArrowDown,
    ));
    assert(file_of(Icon::CirclePause) =~= seq!['c', 'i', 'r', 'c', 'l', 'e', '-'] + file_of(
        Icon::Pause,
    ));
    assert(file_of(Icon::CircleCheck) =~= seq!['c', 'i', 'r', 'c', 'l', 'e', '-'] + file_of(
        Icon::Check,
    ));
    assert(file_of(Icon::CircleX) =~= seq!['c', 'i', 'r', 'c', 'l', 'e', '-'] + file_of(Icon::X));
}

} // verus!
