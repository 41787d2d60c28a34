use rdm::ui::icon::{Filter, Icon, Status};

#[test]
fn an_icon_is_drawn_from_its_file() {
    assert_eq!(Icon::Plus.path(), "lucide/plus.svg");
    assert_eq!(Icon::Close.path(), "frame/close.svg");
    assert_eq!(Icon::Loader.path(), "lucide/loader-circle.svg");
    assert_eq!(Icon::Code.path(), "lucide/file-braces.svg");
}

#[test]
fn an_icon_is_named_as_written_or_by_its_file() {
    assert_eq!(Icon::Film.name(), "film");
    assert_eq!(Icon::Code.name(), "file-braces");
    assert_eq!(Icon::Gamepad.name(), "gamepad-2");
    assert_eq!(Icon::Search.name(), "search");
    assert_eq!(Icon::Loader.name(), "loader-circle");
    assert_eq!(Icon::Minimize.name(), "frame/minimize", "only lucide/ is taken off");
}

#[test]
fn a_category_icon_reads_back_by_its_name() {
    let choices = Icon::category_choices();
    assert_eq!(choices.len(), 16);
    assert_eq!(choices[0], Icon::Film);
    for icon in choices {
        assert_eq!(Icon::by_name(&icon.name()), Some(icon));
    }
    assert_eq!(Icon::by_name("code"), Some(Icon::Code), "the old name of the braces");
    assert_eq!(Icon::by_name("search"), None, "not a category's icon");
    assert_eq!(Icon::by_name(""), None);
}

#[test]
fn a_status_is_ringed_as_a_mark_and_bare_as_a_legend() {
    for status in Status::all() {
        let mark = Icon::for_status(status);
        let legend = Icon::for_status_filter(status);
        assert_ne!(mark, legend, "{status:?} is drawn twice, differently, on purpose");
        assert!(!legend.path().contains("circle"), "a legend goes bare: {}", legend.path());
    }
    for status in [Status::Downloading, Status::Paused, Status::Completed, Status::Failed] {
        assert!(Icon::for_status(status).path().contains("circle-"), "{status:?}");
    }
    assert_eq!(Icon::for_status(Status::Queued), Icon::Clock);
}

#[test]
fn the_sidebar_and_the_menu_draw_a_shared_name_the_same_way() {
    assert_eq!(Icon::for_filter(Filter::Downloading), Icon::for_status_filter(Status::Downloading));
    assert_eq!(Icon::for_filter(Filter::Completed), Icon::for_status_filter(Status::Completed));
    assert_eq!(Icon::for_filter(Filter::All), Icon::Pyramid, "a shape, not a mark");
    assert_eq!(
        Icon::for_filter(Filter::Unfinished),
        Icon::CircleDashed,
        "an outline left open, which is why it keeps its circle"
    );
    assert_eq!(Icon::for_filter(Filter::Category(7)), Icon::File);
}

#[test]
fn each_icon_has_an_svg_of_its_own_under_frame_or_lucide() {
    let every = [
        Icon::Plus, Icon::Minimize, Icon::Maximize, Icon::Restore, Icon::Close, Icon::Search,
        Icon::Loader, Icon::Code, Icon::Text, Icon::File, Icon::FileText, Icon::X,
    ];
    for (i, a) in every.iter().enumerate() {
        let path = a.path();
        assert!(path.ends_with(".svg"));
        let framed = matches!(a, Icon::Minimize | Icon::Maximize | Icon::Restore | Icon::Close);
        assert_eq!(path.starts_with("frame/"), framed);
        assert_eq!(path.starts_with("lucide/"), !framed);
        for b in &every[i + 1..] {
            assert_ne!(path, b.path());
        }
    }
}
