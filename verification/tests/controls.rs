use rdm::ui::settings_sheet::names::{check_domains, check_servers, domain_entries, entries};
use rdm::ui::slider::part_at_step;
use rdm::ui::settings_sheet::{
    concurrent_downloads, headers_text, parse_headers, proxy_setting, segments_fit, slider_ends,
    wide,
};

#[test]
fn controls_a_choice_is_segments_while_its_words_fit_and_a_dropdown_after_that() {
    assert!(segments_fit(&["System", "English", "简体中文", "日本語"]));
    assert!(!segments_fit(&["This application", "Chrome on Windows", "Chrome on Linux", "Something else"]));
    assert!(segments_fit(&["Ignore them", "Show what is inside", "Keep them as folders"]));
}

#[test]
fn settings_sheet_a_choice_is_segments_while_its_words_fit_and_a_dropdown_after_that() {
    assert!(segments_fit(&["System", "English", "简体中文", "日本語"]));
    assert!(!segments_fit(&["This application", "Chrome on Windows", "Chrome on Linux", "Something else"]));
    assert!(segments_fit(&["Ignore them", "Show what is inside", "Keep them as folders"]));
}

#[test]
fn controls_a_cjk_glyph_counts_as_the_two_columns_it_draws_in() {
    assert_eq!("简体中文".chars().count(), 4);
    assert!(wide('简') && wide('日') && wide('ア') && wide('한'));
    assert!(!wide('a') && !wide('/') && !wide('1'));
    let latin = ["aaaaaaaaa", "aaaaaaaaa", "aaaaaaaaa"];
    let cjk = ["简体中文简体中文简", "简体中文简体中文简", "简体中文简体中文简"];
    assert!(segments_fit(&latin));
    assert!(!segments_fit(&cjk));
}

#[test]
fn settings_sheet_a_cjk_glyph_counts_as_the_two_columns_it_draws_in() {
    assert_eq!("简体中文".chars().count(), 4);
    assert!(wide('简') && wide('日') && wide('ア') && wide('한'));
    assert!(!wide('a') && !wide('/') && !wide('1'));
    let latin = ["aaaaaaaaa", "aaaaaaaaa", "aaaaaaaaa"];
    let cjk = ["简体中文简体中文简", "简体中文简体中文简", "简体中文简体中文简"];
    assert!(segments_fit(&latin));
    assert!(!segments_fit(&cjk));
}

#[test]
fn controls_five_options_are_a_dropdown_whatever_they_say() {
    assert!(segments_fit(&["a", "b", "c", "d"]));
    assert!(!segments_fit(&["a", "b", "c", "d", "e"]));
}

#[test]
fn settings_sheet_five_options_are_a_dropdown_whatever_they_say() {
    assert!(segments_fit(&["a", "b", "c", "d"]));
    assert!(!segments_fit(&["a", "b", "c", "d", "e"]));
}

#[test]
fn fifty_two_columns_fit_and_fifty_three_do_not() {
    let a = "a".repeat(26);
    let b = "b".repeat(26);
    assert!(segments_fit(&[a.as_str(), b.as_str()]));
    let c = "c".repeat(27);
    assert!(!segments_fit(&[a.as_str(), c.as_str()]));
    let han = "中".repeat(26);
    assert!(segments_fit(&[han.as_str()]));
    assert!(!segments_fit(&[han.as_str(), "x"]));
    assert!(segments_fit(&[]));
}

#[test]
fn headers_are_name_and_value_between_semicolons() {
    let headers = parse_headers(" Accept: */* ; X-Token:  abc ;; ").unwrap();
    assert_eq!(
        headers,
        vec![("Accept".to_owned(), "*/*".to_owned()), ("X-Token".to_owned(), "abc".to_owned())]
    );
    assert_eq!(parse_headers("").unwrap(), vec![]);
    assert_eq!(parse_headers("Referer: https://a.example/").unwrap()[0].1, "https://a.example/");
    assert_eq!(parse_headers("Accept: x; broken"), Err("A header is Name: value.".to_owned()));
}

#[test]
fn a_proxy_has_a_scheme_and_none_is_empty() {
    assert_eq!(proxy_setting("  "), Ok(None));
    assert_eq!(proxy_setting(" socks5h://127.0.0.1:1080 "), Ok(Some("socks5h://127.0.0.1:1080".to_owned())));
    assert_eq!(proxy_setting("http://p:8080"), Ok(Some("http://p:8080".to_owned())));
    assert_eq!(
        proxy_setting("127.0.0.1:1080"),
        Err("A proxy starts with http://, https:// or socks5://.".to_owned())
    );
}

#[test]
fn downloads_at_once_are_three_unless_said_and_one_to_sixty_four() {
    assert_eq!(concurrent_downloads(None), 3);
    assert_eq!(concurrent_downloads(Some(0)), 1);
    assert_eq!(concurrent_downloads(Some(10)), 10);
    assert_eq!(concurrent_downloads(Some(1000)), 64);
}

#[test]
fn the_limit_slider_starts_below_where_it_ends() {
    assert_eq!(slider_ends(true, Some(5), None, None), Ok((Some(5), None)));
    assert_eq!(slider_ends(false, None, Some(5), Some(50)), Ok((Some(5), None)));
    assert!(slider_ends(true, Some(100), None, None).is_err(), "not below the default end");
    assert_eq!(
        slider_ends(true, Some(0), None, None),
        Err("The slider is counted in whole MB/s, from 1.".to_owned())
    );
    assert_eq!(
        slider_ends(false, Some(1), None, None),
        Err("The slider has to start below where it ends.".to_owned())
    );
}

#[test]
fn kept_headers_are_shown_as_name_and_value_between_semicolons() {
    assert_eq!(headers_text(&[]), "");
    let kept = vec![
        ("Referer".to_owned(), "https://example.com/a:b".to_owned()),
        ("X-Empty".to_owned(), "".to_owned()),
        ("Accept".to_owned(), "*/*".to_owned()),
    ];
    assert_eq!(headers_text(&kept), "Referer: https://example.com/a:b; X-Empty: ; Accept: */*");
}

#[test]
fn shown_headers_read_back_as_kept() {
    let kept = vec![
        ("Referer".to_owned(), "https://example.com/a:b".to_owned()),
        ("Cookie".to_owned(), "id=1".to_owned()),
        ("X-Empty".to_owned(), "".to_owned()),
    ];
    assert_eq!(parse_headers(&headers_text(&kept)).unwrap(), kept);
    let one = vec![("".to_owned(), "".to_owned())];
    assert_eq!(headers_text(&one), ": ");
    assert_eq!(parse_headers(&headers_text(&one)).unwrap(), one);
}

#[test]
fn a_step_of_a_level_is_that_share_of_the_file_to_the_byte() {
    let size = 3_888_513_024;
    assert_eq!(part_at_step(3, 10, size), 1_166_553_907, "three tenths of the file, to the byte");
    assert_eq!(part_at_step(31, 100, size), 1_205_439_037, "thirty-one hundredths");
    assert_eq!(part_at_step(10, 10, size), size, "the end is the end");
    assert_eq!(part_at_step(0, 1000, size), 0);
    assert_eq!(part_at_step(1, 2, 3), 2, "half a byte rounds up");
    assert_eq!(part_at_step(7, 7, u64::MAX), u64::MAX);
}

#[test]
fn a_list_field_is_its_entries_between_commas_spaces_and_lines() {
    assert_eq!(entries("1.1.1.1, 8.8.8.8\n 9.9.9.9,,"), vec!["1.1.1.1", "8.8.8.8", "9.9.9.9"]);
    assert!(entries("  ").is_empty());
    assert_eq!(domain_entries(".corp.example.com ..lan"), vec!["corp.example.com", "lan"]);
}

#[test]
fn name_servers_are_urls_over_https_and_addresses_on_port_53() {
    let urls = vec!["https://dns.example/q".to_owned(), "1.1.1.1".to_owned()];
    assert_eq!(check_servers(&urls[..1], true, &[false]), Ok(()));
    assert_eq!(check_servers(&urls, true, &[false, true]), Err("Over HTTPS, a server is an https:// URL.".to_owned()));
    assert_eq!(check_servers(&urls[1..], false, &[true]), Ok(()));
    assert_eq!(
        check_servers(&urls, false, &[false, true]),
        Err("On port 53, a server is an address like 1.1.1.1.".to_owned())
    );
    assert_eq!(check_servers(&[], false, &[]), Ok(()));
    assert_eq!(check_domains(&[false, false]), Ok(()));
    assert_eq!(check_domains(&[false, true]), Err("A domain, not an address: names are what is matched.".to_owned()));
}
