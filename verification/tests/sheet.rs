use rdm::ui::add_dialog::sheet::{
    AddSheet, Answer, Choice, Found, Link, MirrorPlan, Resolved, Submit,
};
use rdm::ui::add_dialog::{range_step, round_bytes};
use rdm::ui::first_mouse::FirstMouseGuard;
use rdm::ui::rules_window::{Kind, Tab, bare, host_of, hosts, shows};
use rdm::ui::slider::steps;
use rdm::watch::{Change, Heard, Quiet, Then, debounce_step, matters};

fn found(size: Option<u64>, ranges: bool) -> Found {
    Found {
        url: "https://example.com/a.iso".to_owned(),
        file_name: "a.iso".to_owned(),
        size,
        ranges,
    }
}

#[test]
fn a_drag_lands_on_round_rates_and_round_bytes_level_by_level() {
    let size = 3_888_513_024;
    assert_eq!(range_step(size, 0), Some(200_000_000));
    assert_eq!(range_step(size, 1), Some(20_000_000));
    assert_eq!(range_step(size, 2), Some(2_000_000));
    assert_eq!(range_step(size, 3), None, "exact is the byte");
    assert_eq!(range_step(1_033_297, 0), Some(100_000));
    assert_eq!(range_step(5, 0), Some(1), "a tiny file still has a step");
    assert_eq!(round_bytes(1_234_567_890, size, 200_000_000), 1_200_000_000);
    assert_eq!(round_bytes(3_850_000_000, size, 200_000_000), size, "near the end is the end");
    assert_eq!(round_bytes(0, size, 200_000_000), 0);
    assert_eq!(round_bytes(7, 10, 1), 7, "a step of one byte is exact");
}

#[test]
fn every_level_is_ten_times_the_steps_of_the_one_before() {
    assert_eq!(steps(0), Some(10));
    assert_eq!(steps(1), Some(100));
    assert_eq!(steps(2), Some(1000));
    assert_eq!(steps(3), None);
}

#[test]
fn the_sheet_opens_with_the_clipboard_when_it_is_an_address() {
    assert_eq!(AddSheet::open(Some(" a.example/x.zip ")).input, "https://a.example/x.zip");
    assert_eq!(AddSheet::open(Some("just words")).input, "");
    assert_eq!(AddSheet::open(None).input, "");
    assert!(AddSheet::open(None).is_clean());
    let mut sheet = AddSheet::open(None);
    sheet.input = "  x ".to_owned();
    assert!(!sheet.is_clean(), "typed text is kept until the cross");
}

#[test]
fn continue_looks_at_an_address_and_says_when_it_is_none() {
    let mut sheet = AddSheet::open(None);
    assert!(matches!(sheet.submit(None, true), Submit::Nothing), "an empty field does nothing");
    sheet.input = "hello world".to_owned();
    assert!(matches!(sheet.submit(None, true), Submit::Nothing));
    assert_eq!(sheet.problem.as_ref().unwrap().summary, "That is not a web address.");
    sheet.input = "a.example/x.zip".to_owned();
    match sheet.submit(None, true) {
        Submit::Inspect(url) => assert_eq!(url, "https://a.example/x.zip"),
        _ => panic!("the engine is to look at it"),
    }
    assert!(sheet.problem.is_none());
    assert_eq!(sheet.checking.as_deref(), Some("https://a.example/x.zip"));
}

#[test]
fn a_file_found_fills_the_name_and_the_whole_file_as_the_range() {
    let mut sheet = AddSheet::open(None);
    sheet.checking = Some("https://example.com/a.iso".to_owned());
    sheet.answered(Answer::File(found(Some(4_000_000), true)), true);
    assert!(sheet.checking.is_none());
    assert_eq!(sheet.name, "a.iso");
    assert_eq!((sheet.range_start.as_str(), sheet.range_end.as_str()), ("0", "4000000"));
    let asked = sheet.asked(Some(8), true).ok().unwrap();
    assert_eq!(asked.range, None, "the prefilled range is the whole file");
    assert_eq!(asked.connections, Some(8));
    sheet.range_start = "1000".to_owned();
    let asked = sheet.asked(None, true).ok().unwrap();
    assert_eq!(asked.range.as_deref(), Some("1000-4000000"));
    sheet.checksum = "sha256:ab".to_owned();
    assert_eq!(
        sheet.asked(None, true).err().unwrap(),
        "A checksum is for the whole file; clear it to download a part."
    );
    assert_eq!(
        sheet.asked(None, false).err().unwrap(),
        "A checksum is sha256, sha512 or md5, written in hex."
    );
}

#[test]
fn a_name_typed_before_the_file_was_found_stays() {
    let mut sheet = AddSheet::open(None);
    sheet.name = "mine.iso".to_owned();
    sheet.accept(found(None, false), false);
    assert_eq!(sheet.name, "mine.iso");
    assert_eq!((sheet.range_start.as_str(), sheet.range_end.as_str()), ("", ""), "no size, no range");
}

#[test]
fn a_page_is_asked_about_and_its_links_are_taken_once() {
    let mut sheet = AddSheet::open(None);
    let links = vec![Link { url: "https://example.com/b.zip".to_owned(), name: "b.zip".to_owned() }];
    sheet.answered(
        Answer::Page { found: found(None, false), kind: "page".to_owned(), links },
        true,
    );
    assert!(sheet.confirm.is_some() && sheet.found.is_none());
    let taken = sheet.add_link(0).unwrap();
    assert_eq!(taken.0, "https://example.com/b.zip");
    assert_eq!(taken.2, "https://example.com/a.iso", "the page is the source");
    assert!(sheet.add_link(0).is_none(), "taken once");
    assert!(sheet.add_link(1).is_none(), "no such link");
    sheet.download_anyway(true);
    assert!(sheet.confirm.is_none() && sheet.found.is_some());
}

#[test]
fn a_failure_stays_on_the_first_screen() {
    let mut sheet = AddSheet::open(None);
    sheet.answered(Answer::Failed { summary: "The server said 404".to_owned(), detail: "404".to_owned() }, true);
    let problem = sheet.problem.as_ref().unwrap();
    assert_eq!(problem.summary, "The server said 404");
    assert_eq!(problem.detail.as_deref(), Some("404"));
    assert!(sheet.found.is_none());
}

#[test]
fn a_mirror_without_a_checksum_is_asked_about() {
    let mut sheet = AddSheet::open(None);
    sheet.accept(found(Some(10), true), true);
    assert_eq!(sheet.mirrors_for(false), MirrorPlan::Source, "the rules have not answered");
    sheet.rules_answered(Resolved { choice: None, mirrors: vec!["https://m.example/a.iso".to_owned()], checksum: None });
    assert_eq!(sheet.mirrors_for(false), MirrorPlan::Ask);
    assert!(matches!(sheet.submit(None, true), Submit::Nothing));
    assert!(sheet.asking);
    sheet.stop_asking();
    assert!(!sheet.asking);
    sheet.resolved.as_mut().unwrap().choice = Some(Choice::Auto);
    assert_eq!(sheet.mirrors_for(false), MirrorPlan::Source);
    sheet.resolved.as_mut().unwrap().choice = Some(Choice::Never);
    assert_eq!(sheet.mirrors_for(true), MirrorPlan::Source);
}

#[test]
fn a_checksum_the_rules_found_is_written_in_and_one_typed_over_it_is_the_users() {
    let mut sheet = AddSheet::open(None);
    sheet.accept(found(Some(10), true), true);
    sheet.rules_answered(Resolved {
        choice: None,
        mirrors: vec!["https://m.example/a.iso".to_owned()],
        checksum: Some(("sha256".to_owned(), "ab12".to_owned())),
    });
    assert_eq!(sheet.checksum, "sha256:ab12");
    assert_eq!(sheet.mirrors_for(true), MirrorPlan::Usable { typed: false });
    sheet.checksum = "sha256:cd34".to_owned();
    assert_eq!(sheet.mirrors_for(true), MirrorPlan::Usable { typed: true });
    match sheet.submit(Some(4), true) {
        Submit::Download { asked, plan } => {
            assert_eq!(asked.checksum.as_deref(), Some("sha256:cd34"));
            assert_eq!(plan, MirrorPlan::Usable { typed: true });
        }
        _ => panic!("queued"),
    }
}

#[test]
fn back_to_the_address_forgets_the_file_and_keeps_what_was_typed() {
    let mut sheet = AddSheet::open(None);
    sheet.accept(found(Some(10), true), true);
    sheet.checksum = "md5:00".to_owned();
    sheet.toggle_add_more();
    assert!(sheet.more);
    sheet.back_to_address();
    assert!(sheet.found.is_none() && !sheet.more);
    assert_eq!((sheet.name.as_str(), sheet.range_start.as_str(), sheet.range_end.as_str()), ("", "", ""));
    assert_eq!(sheet.checksum, "md5:00");
    sheet.choose_add_folder("/tmp".to_owned());
    assert_eq!(sheet.folder.as_deref(), Some("/tmp"));
    sheet.clear_add_folder();
    assert!(sheet.folder.is_none());
    sheet.toggle_add_details();
    sheet.toggle_add_details();
    assert!(!sheet.details, "twice is as before");
}

#[test]
fn a_range_handle_stops_a_byte_short_of_the_other_end() {
    let mut sheet = AddSheet::open(None);
    assert_eq!(sheet.slide_range(0, 5), None, "no file, no range");
    sheet.accept(found(Some(1000), true), true);
    sheet.range_start = "100".to_owned();
    sheet.range_end = "200".to_owned();
    assert_eq!(sheet.slide_range(0, 50), Some((0, 50)));
    assert_eq!(sheet.slide_range(0, 500), Some((0, 199)));
    assert_eq!(sheet.slide_range(1, 50), Some((1, 101)));
    assert_eq!(sheet.slide_range(1, 5000), Some((1, 1000)), "never past the file");
    sheet.range_end = "end".to_owned();
    assert_eq!(sheet.slide_range(0, 5000), Some((0, 999)), "no number is the end");
}

#[test]
fn the_range_handles_follow_the_fields_in_order_and_within_the_file() {
    let mut sheet = AddSheet::open(None);
    assert_eq!(sheet.follow_range(), None, "no file, no handles");
    sheet.accept(found(Some(0), true), true);
    assert_eq!(sheet.follow_range(), None, "an empty file has no track");
    sheet.accept(found(Some(1000), true), true);
    sheet.range_start = " 100 ".to_owned();
    sheet.range_end = "200".to_owned();
    assert_eq!(sheet.follow_range(), Some((100, 200)));
    sheet.range_start = "700".to_owned();
    assert_eq!(sheet.follow_range(), Some((200, 700)), "the lower end comes first");
    sheet.range_start = "".to_owned();
    sheet.range_end = "5000".to_owned();
    assert_eq!(sheet.follow_range(), Some((0, 1000)), "no number is the start; past the file is its end");
    sheet.range_end = "end".to_owned();
    assert_eq!(sheet.follow_range(), Some((0, 1000)));
}

#[test]
fn the_download_goes_under_the_name_typed_or_the_servers() {
    let mut sheet = AddSheet::open(None);
    assert!(sheet.download_found().is_none(), "nothing found, nothing to download");
    sheet.accept(found(Some(1000), true), true);
    let (url, name) = sheet.download_found().unwrap();
    assert_eq!((url.as_str(), name.as_str()), ("https://example.com/a.iso", "a.iso"));
    sheet.name = "  mine.iso ".to_owned();
    assert_eq!(sheet.download_found().unwrap().1, "mine.iso");
    sheet.name = "   ".to_owned();
    assert_eq!(sheet.download_found().unwrap().1, "a.iso", "a blank name is the server's");
}

#[test]
fn the_rules_window_shows_a_template_without_its_scheme_and_finds_its_host() {
    assert_eq!(bare("https://example.com/{name}.sha256"), "example.com/{name}.sha256");
    assert_eq!(bare("{url}.sha256"), "{url}.sha256");
    assert_eq!(host_of("https://sums.example/x", "https://a.example/f"), Some("sums.example".to_owned()));
    assert_eq!(host_of("{url}.sha256", "https://a.example/f"), Some("a.example".to_owned()));
    assert_eq!(host_of("https://{host}/x", "https://a.example/f"), None, "a part to fill");
    assert_eq!(host_of("nothing", ""), None);
    assert_eq!(host_of("https://", ""), None, "an empty host");
    assert!(shows(Tab::All, Kind::Entry) && !shows(Tab::All, Kind::Authority) && !shows(Tab::All, Kind::Problem));
    assert!(shows(Tab::Authorities, Kind::Authority) && !shows(Tab::Rules, Kind::Family));
}

#[test]
fn only_changes_count() {
    assert!(matters(Change::Create));
    assert!(matters(Change::Remove));
    assert!(matters(Change::ModifyData));
    assert!(!matters(Change::Access));
    assert!(!matters(Change::ModifyMetadata));
    assert!(!matters(Change::Any));
}

#[test]
fn the_press_that_brings_the_window_back_goes_no_further() {
    let guard = FirstMouseGuard;
    assert!(guard.swallows(true, true));
    assert!(!guard.swallows(false, true), "only in the capture phase");
    assert!(!guard.swallows(true, false), "an ordinary press goes on");
}

#[test]
fn a_burst_of_changes_is_one_signal_after_the_quiet_and_quiet_alone_is_none() {
    let mut state = Quiet::Idle;
    let mut told = 0;
    for heard in [Heard::Change, Heard::Change, Heard::Change, Heard::Quiet, Heard::Quiet] {
        let (next, then) = debounce_step(state, heard);
        if then == Then::Signal {
            told += 1;
        }
        state = next;
    }
    assert_eq!(told, 1, "one burst, one signal");
    assert_eq!(state, Quiet::Idle);
    assert_eq!(debounce_step(Quiet::Idle, Heard::Quiet), (Quiet::Idle, Then::Listen), "nothing has happened");
    assert_eq!(debounce_step(Quiet::Waiting, Heard::Closed).1, Then::Stop);
}

#[test]
fn each_host_is_listed_once_in_the_order_first_met() {
    let names: Vec<String> =
        ["a.example", "b.example", "a.example", "c.example", "b.example"].iter().map(|s| s.to_string()).collect();
    assert_eq!(hosts(&names), vec!["a.example", "b.example", "c.example"]);
    assert!(hosts(&[]).is_empty());
}
