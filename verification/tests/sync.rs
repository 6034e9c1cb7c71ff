use rah::colors::{paint, BLUE, BOLD, CLEAR, GREEN, GREY, RED, WHITE, YELLOW_L};
use rah::package::AurPackage;
use rah::render::{decimal_text, join, list_or, text_or};
use rah::sync::{
    date_of, found_header, info, info_entry, not_found_message, search, search_entry,
    search_warning, sync, SyncError, DAY, MINUTE,
};

fn names(v: &[&str]) -> Vec<String> {
    v.iter().map(|s| s.to_string()).collect()
}

#[test]
fn numbers_in_decimal() {
    assert_eq!(decimal_text(0), "0");
    assert_eq!(decimal_text(7), "7");
    assert_eq!(decimal_text(10), "10");
    assert_eq!(decimal_text(1234567890), "1234567890");
    assert_eq!(decimal_text(u64::MAX), "18446744073709551615");
}

#[test]
fn joining_and_fallbacks() {
    assert_eq!(join(&names(&["a", "b", "c"]), ", "), "a, b, c");
    assert_eq!(join(&names(&["a"]), ", "), "a");
    assert_eq!(join(&vec![], ", "), "");
    assert_eq!(list_or(&names(&["x", "y"]), "No groups."), "x, y");
    assert_eq!(list_or(&vec![], "No groups."), format!("{GREY}No groups.{CLEAR}"));
    assert_eq!(text_or(&Some("d".to_string()), "No description."), "d");
    assert_eq!(text_or(&None, "No description."), format!("{GREY}No description.{CLEAR}"));
    assert_eq!(paint(RED, "x"), "\x1b[31mx\x1b[0m");
}

#[test]
fn sync_accepts_a_full_answer() {
    let hits = vec![AurPackage::named("a", "1"), AurPackage::named("b", "1")];
    assert!(sync(&names(&["a", "b"]), &hits).is_ok());
    assert!(sync(&vec![], &vec![]).is_ok());
}

#[test]
fn sync_names_what_is_missing() {
    let hits = vec![AurPackage::named("b", "1")];
    match sync(&names(&["a", "b", "c"]), &hits) {
        Err(SyncError::NotFound(m)) => assert_eq!(m, "Package(s) not found : a c "),
        other => panic!("unexpected {:?}", other),
    }
    match sync(&names(&["a"]), &vec![]) {
        Err(SyncError::NotFound(m)) => assert_eq!(m, "Package(s) not found : a "),
        other => panic!("unexpected {:?}", other),
    }
    assert_eq!(not_found_message(&vec![]), "Package(s) not found : ");
}

#[test]
fn dates_are_formatted_in_utc() {
    assert_eq!(date_of(0, DAY), "1970/01/01");
    assert_eq!(date_of(1431648000, DAY), "2015/05/15");
    assert_eq!(date_of(1431648000, MINUTE), "2015-05-15 00: 00 (UTC)");
    assert_eq!(date_of(1700000000, MINUTE), "2023-11-14 22: 13 (UTC)");
    assert_eq!(date_of(-1, DAY), "1969/12/31");
    assert_eq!(date_of(i64::MAX, DAY), "unknown date");
    assert_eq!(date_of(i64::MIN, MINUTE), "unknown date");
}

#[test]
fn headline_counts() {
    assert_eq!(
        found_header("", 0),
        format!("{BOLD}{BLUE}:: {WHITE}Found 0 packages{CLEAR}")
    );
    assert_eq!(
        found_header("", 1),
        format!("{BOLD}{BLUE}:: {WHITE}Found 1 package{CLEAR}")
    );
    assert_eq!(
        found_header("info for ", 12),
        format!("{BOLD}{BLUE}:: {WHITE}Found info for 12 packages{CLEAR}")
    );
}

#[test]
fn search_warns_about_extra_arguments() {
    assert_eq!(search_warning(0), None);
    assert_eq!(search_warning(1), None);
    assert_eq!(
        search_warning(2),
        Some(format!(
            "{BOLD}{YELLOW_L}warning{CLEAR} : search will only account for the first argument passed."
        ))
    );
}

#[test]
fn search_result_lines() {
    let mut p = AurPackage::named("paru", "2.0.1-1");
    p.description = Some("An AUR helper".to_string());
    assert_eq!(
        search_entry(&p, "", ""),
        format!("{BOLD}paru {GREEN}2.0.1-1\n{CLEAR}    An AUR helper")
    );
    let mut q = AurPackage::named("old", "0.1-1");
    q.out_of_date = Some(1431648000);
    q.last_modified = 0;
    let lines = search(&vec![p.duplicate(), q]);
    assert_eq!(lines.len(), 3);
    assert_eq!(lines[0], format!("{BOLD}{BLUE}:: {WHITE}Found 2 packages{CLEAR}"));
    assert_eq!(lines[1], format!("{BOLD}paru {GREEN}2.0.1-1\n{CLEAR}    An AUR helper"));
    assert_eq!(
        lines[2],
        format!(
            "{BOLD}old {GREEN}0.1-1{RED} [out of date since 2015/05/15, last update 1970/01/01]{CLEAR}\n{CLEAR}    {GREY}No description.{CLEAR}"
        )
    );
    assert_eq!(search(&vec![]), vec![format!("{BOLD}{BLUE}:: {WHITE}Found 0 packages{CLEAR}")]);
}

#[test]
fn package_details() {
    let mut p = AurPackage::named("paru", "2.0.1-1");
    p.package_base = "paru".to_string();
    p.num_votes = 1042;
    p.popularity = "31.5".to_string();
    p.description = Some("An AUR helper".to_string());
    p.maintainer = Some("morganamilo".to_string());
    p.first_submitted = 1431648000;
    p.last_modified = 1700000000;
    p.url = Some("https://example.org/paru".to_string());
    p.url_path = "cgit/aur.git/snapshot/paru.tar.gz".to_string();
    p.license = names(&["GPL3"]);
    p.depends = names(&["git", "pacman>6"]);
    p.make_depends = names(&["cargo"]);
    p.keywords = names(&["aur", "helper"]);
    let lines = info(&vec![p]);
    let expected = vec![
        format!("{BOLD}{BLUE}:: {WHITE}Found info for 1 package{CLEAR}"),
        format!("{BOLD}Name \t\t\t: {CLEAR}paru"),
        format!("{BOLD}Version \t\t: {CLEAR}2.0.1-1"),
        format!("{BOLD}Package base \t\t: {CLEAR}paru"),
        format!("{BOLD}Votes \t\t\t: {CLEAR}1042"),
        format!("{BOLD}Popularity \t\t: {CLEAR}31.5"),
        format!("{BOLD}Description \t\t: {CLEAR}An AUR helper"),
        format!("{BOLD}Submitter \t\t: {CLEAR}{GREY}No submitter.{CLEAR}"),
        format!("{BOLD}Maintainer \t\t: {CLEAR}morganamilo"),
        format!("{BOLD}Co-maintainers \t\t: {CLEAR}{GREY}No co-maintainers.{CLEAR}"),
        format!("{BOLD}Out of date \t\t: {CLEAR}{GREY}Not flagged out of date{CLEAR}"),
        format!("{BOLD}First submitted \t: {CLEAR}2015-05-15 00: 00 (UTC)"),
        format!("{BOLD}Last updated \t\t: {CLEAR}2023-11-14 22: 13 (UTC)"),
        format!("{BOLD}Git clone URL \t\t: {CLEAR}https://aur.archlinux.org/paru.git"),
        format!("{BOLD}Upstream URL \t\t: {CLEAR}https://example.org/paru"),
        format!(
            "{BOLD}Tarball URL \t\t: {CLEAR}https://aur.archlinux.org/cgit/aur.git/snapshot/paru.tar.gz"
        ),
        format!("{BOLD}Licenses \t\t: {CLEAR}GPL3"),
        format!("{BOLD}Groups \t\t\t: {CLEAR}{GREY}No groups.{CLEAR}"),
        format!("{BOLD}Provides \t\t: {CLEAR}{GREY}No provides.{CLEAR}"),
        format!("{BOLD}Depends \t\t: {CLEAR}git, pacman>6"),
        format!("{BOLD}Opt. dependencies \t: {CLEAR}{GREY}No optionnal dependencies.{CLEAR}"),
        format!("{BOLD}Make dependencies \t: {CLEAR}cargo"),
        format!("{BOLD}Check dependencies \t: {CLEAR}{GREY}No check dependencies.{CLEAR}"),
        format!("{BOLD}Conflicts \t\t: {CLEAR}{GREY}No conflicts.{CLEAR}"),
        format!("{BOLD}Replaces \t\t: {CLEAR}{GREY}No replaces.{CLEAR}"),
        format!("{BOLD}Keywords\t\t: {CLEAR}aur, helper"),
        String::new(),
    ];
    assert_eq!(lines, expected);
}

#[test]
fn package_details_flagged_and_without_url() {
    let mut p = AurPackage::named("old", "0.1-1");
    p.out_of_date = Some(0);
    let lines = info_entry(&p, &Some("1970-01-01 00: 00 (UTC)".to_string()), "f", "l");
    assert_eq!(lines.len(), 26);
    assert_eq!(
        lines[9],
        format!("{BOLD}Out of date \t\t: {RED}Flagged out of date since 1970-01-01 00: 00 (UTC){CLEAR}")
    );
    assert_eq!(lines[10], format!("{BOLD}First submitted \t: {CLEAR}f"));
    assert_eq!(lines[11], format!("{BOLD}Last updated \t\t: {CLEAR}l"));
    assert_eq!(lines[13], format!("{BOLD}Upstream URL \t\t: {CLEAR}{GREY}No upstream URL."));
    assert_eq!(lines[15], format!("{BOLD}Licenses \t\t: {CLEAR}"));
    let all = info(&vec![p.duplicate(), p]);
    assert_eq!(all.len(), 1 + 26 * 2);
    assert_eq!(
        all[10],
        format!("{BOLD}Out of date \t\t: {RED}Flagged out of date since 1970-01-01 00: 00 (UTC){CLEAR}")
    );
    assert_eq!(info(&vec![]), vec![format!("{BOLD}{BLUE}:: {WHITE}Found info for 0 packages{CLEAR}")]);
}
