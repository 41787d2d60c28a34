use rdm::ui::settings_sheet::rows::{SettingRow, shown_rows};
use rdm::ui::settings_sheet::sheet::{Section, SettingsSheet};
use rdm::ui::settings_sheet::values::{Field, Preferences};

const LANGUAGE: &str = "settings.label.language";
const THEME: &str = "settings.label.theme";

#[test]
fn the_sheet_opens_on_general_with_nothing_open() {
    let sheet = SettingsSheet::open();
    assert_eq!(sheet.section, Section::General);
    assert!(sheet.complaint.is_none());
    assert!(!sheet.menu_open());
    assert!(sheet.dismissed.is_none());
}

#[test]
fn the_rail_runs_from_general_to_about() {
    let all = Section::all();
    assert_eq!(all.len(), 8);
    assert_eq!(all[0], Section::General);
    assert_eq!(all[4], Section::Network);
    assert_eq!(all[7], Section::About);
}

#[test]
fn a_press_opens_a_menu_and_a_second_press_shuts_it() {
    let mut sheet = SettingsSheet::open();
    sheet.toggle_menu(LANGUAGE.to_owned());
    assert_eq!(sheet.menu.as_deref(), Some(LANGUAGE));
    sheet.toggle_menu(LANGUAGE.to_owned());
    assert!(sheet.menu.is_none());
    assert!(sheet.dismissed.is_none());
}

#[test]
fn the_button_does_not_reopen_the_menu_its_own_press_closed() {
    let mut sheet = SettingsSheet::open();
    sheet.toggle_menu(LANGUAGE.to_owned());
    sheet.dismiss_menu();
    assert!(sheet.menu.is_none());
    assert_eq!(sheet.dismissed.as_deref(), Some(LANGUAGE));
    sheet.toggle_menu(LANGUAGE.to_owned());
    assert!(sheet.menu.is_none());
    assert!(sheet.dismissed.is_none());
    // The next press is a press of its own and opens it.
    sheet.toggle_menu(LANGUAGE.to_owned());
    assert_eq!(sheet.menu.as_deref(), Some(LANGUAGE));
}

#[test]
fn another_button_opens_its_menu_in_place_of_the_open_one() {
    let mut sheet = SettingsSheet::open();
    sheet.toggle_menu(LANGUAGE.to_owned());
    sheet.toggle_menu(THEME.to_owned());
    assert_eq!(sheet.menu.as_deref(), Some(THEME));
}

#[test]
fn another_button_after_an_outside_press_still_opens() {
    let mut sheet = SettingsSheet::open();
    sheet.toggle_menu(LANGUAGE.to_owned());
    sheet.dismiss_menu();
    sheet.toggle_menu(THEME.to_owned());
    assert_eq!(sheet.menu.as_deref(), Some(THEME));
    assert!(sheet.dismissed.is_none());
}

#[test]
fn closing_a_menu_forgets_it() {
    let mut sheet = SettingsSheet::open();
    sheet.toggle_menu(THEME.to_owned());
    sheet.close_menu();
    assert!(!sheet.menu_open());
    assert!(sheet.dismissed.is_none());
    sheet.toggle_menu(THEME.to_owned());
    assert_eq!(sheet.menu.as_deref(), Some(THEME));
}

#[test]
fn closing_with_nothing_open_keeps_what_was_remembered() {
    let mut sheet = SettingsSheet::open();
    sheet.toggle_menu(THEME.to_owned());
    sheet.dismiss_menu();
    sheet.close_menu();
    assert_eq!(sheet.dismissed.as_deref(), Some(THEME));
    sheet.dismiss_menu();
    assert_eq!(sheet.dismissed.as_deref(), Some(THEME));
}

#[test]
fn a_new_section_shuts_every_menu() {
    let mut sheet = SettingsSheet::open();
    sheet.toggle_menu(THEME.to_owned());
    sheet.set_section(Section::Appearance);
    assert_eq!(sheet.section, Section::Appearance);
    assert!(sheet.menu.is_none());
    sheet.toggle_menu(LANGUAGE.to_owned());
    sheet.dismiss_menu();
    sheet.set_section(Section::General);
    assert!(sheet.dismissed.is_none());
    sheet.toggle_menu(LANGUAGE.to_owned());
    assert_eq!(sheet.menu.as_deref(), Some(LANGUAGE));
}

#[test]
fn a_refusal_sits_under_its_field_until_a_value_is_kept() {
    let mut sheet = SettingsSheet::open();
    sheet.answer(
        "settings.label.proxy".to_owned(),
        Err("A proxy starts with http://, https:// or socks5://.".to_owned()),
    );
    let (key, message) = sheet.complaint.clone().unwrap();
    assert_eq!(key, "settings.label.proxy");
    assert_eq!(message, "A proxy starts with http://, https:// or socks5://.");
    sheet.answer("settings.label.proxy".to_owned(), Ok(()));
    assert!(sheet.complaint.is_none());
}

fn row(section: Section, key: &str, group: &str, label: &str, note: &str) -> SettingRow {
    SettingRow {
        section,
        key: key.to_owned(),
        group: group.to_owned(),
        label: label.to_owned(),
        title: None,
        note: note.to_owned(),
        heading: group.to_owned(),
    }
}

fn rows() -> Vec<SettingRow> {
    vec![
        row(Section::General, "a", "", "Language", "The words of the window"),
        row(Section::Updates, "auto", "Checking", "Update on its own", "Fetch new builds"),
        row(Section::Updates, "found", "Checking", "When a build is found", "Install or ask"),
        row(Section::Network, "proxy", "Route", "Proxy", "Where requests go"),
        row(Section::Updates, "channel", "Channel", "Channel", "Stable or nightly"),
        row(Section::Updates, "every", "Checking", "How often", "Hours between checks"),
    ]
}

#[test]
fn a_section_shows_its_rows_gathered_by_heading() {
    assert_eq!(shown_rows(&rows(), Section::Updates, "", true, "found"), vec![1, 2, 5, 4]);
    assert_eq!(shown_rows(&rows(), Section::General, "  ", true, "found"), vec![0]);
}

#[test]
fn the_found_row_shows_only_while_builds_are_fetched_on_their_own() {
    assert_eq!(shown_rows(&rows(), Section::Updates, "", false, "found"), vec![1, 5, 4]);
    assert_eq!(shown_rows(&rows(), Section::Updates, "build", false, "found"), vec![1]);
}

#[test]
fn a_search_reads_every_sections_words_in_lower_case() {
    assert_eq!(shown_rows(&rows(), Section::General, " PROXY ", true, "found"), vec![3]);
    assert_eq!(shown_rows(&rows(), Section::General, "build", true, "found"), vec![1, 2]);
    assert_eq!(shown_rows(&rows(), Section::General, "checking", true, "found"), vec![1, 2, 5], "headings are read too");
    assert!(shown_rows(&rows(), Section::General, "zzz", true, "found").is_empty());
    let mut titled = rows();
    titled[0].title = Some("Tongue".to_owned());
    assert_eq!(shown_rows(&titled, Section::Updates, "tongue", true, "found"), vec![0], "a title is read");
}

fn preferences() -> Preferences {
    Preferences {
        connections: Some(8),
        user_agent: None,
        proxy: None,
        headers: Vec::new(),
        dns_over_https: false,
        dns_servers_written: String::new(),
        dns_custom: false,
        dns_system_domains: String::new(),
    }
}

#[test]
fn a_refused_value_leaves_every_setting_as_it_was() {
    let mut p = preferences();
    assert_eq!(
        p.apply(Field::Connections, "99", &[]),
        Err("Connections must be a number from 1 to 32.".to_owned())
    );
    assert_eq!(p.connections, Some(8));
    assert_eq!(p.apply(Field::Proxy, "ftp://x", &[]), Err("A proxy starts with http://, https:// or socks5://.".to_owned()));
    assert!(p.proxy.is_none());
    assert_eq!(p.apply(Field::Headers, "Referer", &[]), Err("A header is Name: value.".to_owned()));
    assert!(p.headers.is_empty());
    assert_eq!(
        p.apply(Field::NameServers, " 1.1.1.1, dns.example ", &[true, false]),
        Err("On port 53, a server is an address like 1.1.1.1.".to_owned())
    );
    assert!(!p.dns_custom && p.dns_servers_written.is_empty());
    assert_eq!(
        p.apply(Field::SystemDomains, "corp.example 10.0.0.1", &[false, true]),
        Err("A domain, not an address: names are what is matched.".to_owned())
    );
    assert!(p.dns_system_domains.is_empty());
}

#[test]
fn a_kept_value_changes_its_setting_alone() {
    let mut p = preferences();
    assert_eq!(p.apply(Field::Connections, " auto ", &[]), Ok(()));
    assert_eq!(p.connections, None);
    assert_eq!(p.apply(Field::UserAgent, "  curl/8 ", &[]), Ok(()));
    assert_eq!(p.user_agent.as_deref(), Some("curl/8"));
    assert_eq!(p.apply(Field::UserAgent, "   ", &[]), Ok(()));
    assert_eq!(p.user_agent, None);
    assert_eq!(p.apply(Field::Proxy, " socks5h://127.0.0.1:1080", &[]), Ok(()));
    assert_eq!(p.proxy.as_deref(), Some("socks5h://127.0.0.1:1080"));
    assert_eq!(p.apply(Field::Headers, "Referer: https://a.example; X: 1", &[]), Ok(()));
    assert_eq!(p.headers.len(), 2);
    assert_eq!(p.apply(Field::NameServers, "1.1.1.1 8.8.8.8", &[true, true]), Ok(()));
    assert!(p.dns_custom);
    assert_eq!(p.dns_servers_written, "1.1.1.1 8.8.8.8");
    assert_eq!(p.connections, None, "the others stay");
}
