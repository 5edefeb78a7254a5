use bios_release::history::Strr;
use bios_release::commands::{bios_to_server_plan, bios_to_production_plan, checksum_file_path, pack_location};

const M: &str = ";-----------------------------------------------------------------------;";

fn history() -> String {
    format!(
        "old notes\n{M}\n Project Name : p/q\n BIOS Version : 2.10\n BIOS Revision : X\n BIOS image filename: ROM/p_2.10.ROM\n\n done\n{M}\n Project Name : older\n"
    )
}

#[test]
fn section_reparses_to_itself() {
    let s = Strr::new(None, Some("\\\\srv\\".to_string()));
    let h = history();
    let c = s.get_latest_content(&h);
    assert_eq!(s.get_latest_content(&c), c);
    assert_eq!(s.get_latest_content_in_html_fmt(&c), s.get_latest_content_in_html_fmt(&h));
    assert_eq!(s.project_name(&c), s.project_name(&h));
    assert_eq!(s.version(&c), s.version(&h));
    assert_eq!(s.mail_body_production(&c), s.mail_body_production(&h));
    let open = format!("{M}\n Project Name : p\n BIOS Version : 1\n");
    let c = s.get_latest_content(&open);
    assert_eq!(s.get_latest_content(&c), c);
}

#[test]
fn section_reparse_needs_no_carriage_return() {
    let s = Strr::new(None, None);
    let h = format!("{M}\nabc\r");
    let c = s.get_latest_content(&h);
    assert_ne!(s.get_latest_content(&c), c);
}

#[test]
fn plain_and_html_empty_together() {
    let s = Strr::new(None, None);
    for h in ["", "a\nb\n", &history()] {
        assert_eq!(s.get_latest_content(h).is_empty(), s.get_latest_content_in_html_fmt(h).is_empty());
    }
    assert!(s.get_latest_content(&history()).starts_with(&format!("{M}\n")));
}

#[test]
fn names_hold_no_separators() {
    let s = Strr::new(Some("C:\\a\\b\\History.txt".to_string()), None);
    let h = history();
    assert!(!s.image_name_with_folder(&h).contains('/'));
    assert!(!s.image_name_without_folder(&h).contains('\\'));
    assert!(!s.hisotry_file_name().contains('\\'));
    assert!("C:\\a\\b\\History.txt".ends_with(&format!("\\{}", s.hisotry_file_name())));
}

#[test]
fn server_path_reads_back_unchanged() {
    let s = Strr::new(None, None);
    for t in ["  \\\\srv\\x \n", "\\\\srv\\y\\", "", " \n", "d:\\a b"] {
        let once = s.read_path(t);
        assert!(once.is_empty() || once.ends_with('\\'));
        assert_eq!(s.read_path(&once), once);
    }
}

#[test]
fn release_files_share_version_folder() {
    let txt = "D:/p/History.txt";
    let server = "\\\\srv\\p\\";
    let h = history();
    let version_folder = "\\\\srv\\p\\Production\\2.10\\";
    assert_eq!(bios_to_production_plan(txt, server, &h).from, bios_to_server_plan(txt, server, &h).to);
    assert!(bios_to_production_plan(txt, server, &h).to.starts_with(version_folder));
    assert!(checksum_file_path(txt, server, &h).starts_with(version_folder));
    assert!(pack_location(txt, server, &h).starts_with(version_folder));
    assert_eq!(pack_location(txt, server, &h), "\\\\srv\\p\\Production\\2.10\\p_q(2.10)ROM.zip");
}

#[test]
fn date_fields_take_two_characters() {
    let s = Strr::new(None, None);
    let h = history();
    assert_eq!(s.mail_subject_general_at(&h, 2025, 1, 2), "2025/01/02 BIOS Release: p/q 2.10.X");
    assert_eq!(s.mail_subject_general_at(&h, -7, 10, 31), "-7/10/31 BIOS Release: p/q 2.10.X");
}

fn render(plain: &str) -> String {
    plain
        .lines()
        .map(|l| if l.trim().is_empty() { "<br>".to_string() } else { l.replace(' ', "&nbsp;") + "<br>" })
        .collect::<String>()
}

#[test]
fn html_is_plain_rendered_line_by_line() {
    let s = Strr::new(None, None);
    let open = format!("{M}\n Project Name : p\n\n  \n BIOS Version : 1\n");
    for h in [history(), open, String::new(), "no marker\n".to_string()] {
        let plain = s.get_latest_content(&h);
        assert_eq!(s.get_latest_content_in_html_fmt(&h), render(&plain));
    }
    let h = history();
    assert_eq!(
        s.get_latest_content_in_html_fmt(&h),
        format!(
            "{M}<br>&nbsp;Project&nbsp;Name&nbsp;:&nbsp;p/q<br>&nbsp;BIOS&nbsp;Version&nbsp;:&nbsp;2.10<br>&nbsp;BIOS&nbsp;Revision&nbsp;:&nbsp;X<br>&nbsp;BIOS&nbsp;image&nbsp;filename:&nbsp;ROM/p_2.10.ROM<br><br>&nbsp;done<br>{M}<br>"
        )
    );
}

#[test]
fn html_rendering_needs_no_carriage_return() {
    let s = Strr::new(None, None);
    let h = format!("{M}\nabc\r");
    let plain = s.get_latest_content(&h);
    assert_ne!(s.get_latest_content_in_html_fmt(&h), render(&plain));
}

#[test]
fn section_laws_hold_for_crlf_histories() {
    let s = Strr::new(None, None);
    let h = history().replace('\n', "\r\n");
    let c = s.get_latest_content(&h);
    assert_eq!(s.get_latest_content(&c), c);
    assert_eq!(s.get_latest_content_in_html_fmt(&c), s.get_latest_content_in_html_fmt(&h));
    assert_eq!(s.get_latest_content_in_html_fmt(&h), render(&c));
    assert_eq!(s.project_name(&c), s.project_name(&h));
    assert_eq!(s.project_name(&h), "p/q");
    assert_eq!(c, s.get_latest_content(&history()));
}
