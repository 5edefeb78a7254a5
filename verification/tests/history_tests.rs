use bios_release::history::{Strr, field_value, address_value, pack_file_name};

const M: &str = ";-----------------------------------------------------------------------;";

fn history() -> String {
    format!(
        "{M}\n Project Name      : aaaBBBproj\n BIOS Version      : 1.01\n BIOS Revision     : HW01\n BIOS image filename: ROM/aaaBBBproj_1.01.HW01.ROM\n \n 1. Fix boot issue\n{M}\n Project Name      : aaaBBBproj\n BIOS Version      : 1.00\n"
    )
}

fn strr() -> Strr {
    Strr::new(
        Some("D:/MyProjects/aaaBBBproj/101/History.txt".to_string()),
        Some("\\\\my-binary-server\\BIOS\\aaaBBBproj\\".to_string()),
    )
}

#[test]
fn latest_content_is_first_section_with_closing_marker() {
    let expected = format!(
        "{M}\n Project Name      : aaaBBBproj\n BIOS Version      : 1.01\n BIOS Revision     : HW01\n BIOS image filename: ROM/aaaBBBproj_1.01.HW01.ROM\n \n 1. Fix boot issue\n{M}"
    );
    assert_eq!(strr().get_latest_content(&history()), expected);
}

#[test]
fn latest_content_without_closing_marker_runs_to_end() {
    let h = format!("intro\n{M}\nline one\r\nline two");
    assert_eq!(strr().get_latest_content(&h), format!("{M}\nline one\nline two\n"));
}

#[test]
fn latest_content_empty_without_marker() {
    assert_eq!(strr().get_latest_content("no marker here\nat all\n"), "");
    assert_eq!(strr().get_latest_content_in_html_fmt("no marker here\nat all\n"), "");
    assert_eq!(strr().get_latest_content(""), "");
}

#[test]
fn latest_content_html_format() {
    let expected = format!(
        "{M}<br>&nbsp;Project&nbsp;Name&nbsp;&nbsp;&nbsp;&nbsp;&nbsp;&nbsp;:&nbsp;aaaBBBproj<br>&nbsp;BIOS&nbsp;Version&nbsp;&nbsp;&nbsp;&nbsp;&nbsp;&nbsp;:&nbsp;1.01<br>&nbsp;BIOS&nbsp;Revision&nbsp;&nbsp;&nbsp;&nbsp;&nbsp;:&nbsp;HW01<br>&nbsp;BIOS&nbsp;image&nbsp;filename:&nbsp;ROM/aaaBBBproj_1.01.HW01.ROM<br><br>&nbsp;1.&nbsp;Fix&nbsp;boot&nbsp;issue<br>{M}<br>"
    );
    assert_eq!(strr().get_latest_content_in_html_fmt(&history()), expected);
}

#[test]
fn fields_of_latest_release() {
    let s = strr();
    let h = history();
    assert_eq!(s.project_name(&h), "aaaBBBproj");
    assert_eq!(s.version(&h), "1.01");
    assert_eq!(s.revision(&h), "HW01");
    assert_eq!(s.image_name_with_folder(&h), "ROM\\aaaBBBproj_1.01.HW01.ROM");
    assert_eq!(s.image_name_without_folder(&h), "aaaBBBproj_1.01.HW01.ROM");
}

#[test]
fn missing_field_is_empty() {
    let h = format!("{M}\n Project Name : p\n{M}\n");
    let s = strr();
    assert_eq!(s.revision(&h), "");
    assert_eq!(s.image_name_with_folder(&h), "");
    assert_eq!(s.image_name_without_folder(&h), "");
}

#[test]
fn field_value_strips_colons_and_spaces() {
    assert_eq!(field_value(Some(": 1.01 ".to_string())), "1.01");
    assert_eq!(field_value(Some(":a:b".to_string())), "ab");
    assert_eq!(field_value(None), "");
}

#[test]
fn address_value_removes_every_label() {
    assert_eq!(address_value("To: a@x.com; To: b@x.com ", "To:"), "a@x.com;  b@x.com");
}

#[test]
fn history_file_name_is_last_piece() {
    let s = Strr::new(Some("D:\\MyProjects\\aaaBBBproj\\101\\History.txt".to_string()), None);
    assert_eq!(s.hisotry_file_name(), "History.txt");
    let s = Strr::new(Some("History.txt".to_string()), None);
    assert_eq!(s.hisotry_file_name(), "History.txt");
    let s = Strr::new(None, None);
    assert_eq!(s.hisotry_file_name(), "");
}

#[test]
fn project_paths() {
    let s = strr();
    let h = history();
    assert_eq!(s.working_dir(), "D:/MyProjects/aaaBBBproj/101");
    assert_eq!(s.project_path(), "D:/MyProjects/aaaBBBproj/101");
    assert_eq!(s.image_full_path(&h), "D:/MyProjects/aaaBBBproj/101\\ROM\\aaaBBBproj_1.01.HW01.ROM");
    assert_eq!(s.email_list(), "D:/MyProjects/aaaBBBproj/101\\email.txt");
    assert_eq!(s.server_folder(), "D:/MyProjects/aaaBBBproj/101\\server.txt");
    let folder = s.image_name_s_folder(&h);
    assert!(folder.is_empty() || folder == "ROM");
    assert_eq!(s.image_folder_path(&h), format!("D:/MyProjects/aaaBBBproj/101\\{}\\", folder));
}

#[test]
fn empty_history_path_has_no_folder() {
    let s = Strr::new(None, None);
    assert_eq!(s.working_dir(), "");
    assert_eq!(s.project_path(), "");
    assert_eq!(s.email_list(), "\\email.txt");
}

#[test]
fn server_list_first_line() {
    let s = strr();
    assert_eq!(s.read_path("  \\\\srv\\share  \nsecond\n"), "\\\\srv\\share\\");
    assert_eq!(s.read_path("\\\\srv\\share\\\n"), "\\\\srv\\share\\");
    assert_eq!(s.read_path(""), "");
    assert_eq!(s.read_path("   \nx\n"), "");
}

#[test]
fn mail_recipients_from_list() {
    let s = strr();
    let list = "Subject line\nXTo: nobody\nTo: a@x.com; b@x.com\ncc: c@x.com \nTo: later@x.com\n";
    assert_eq!(s.get_email_to_list(list), "a@x.com; b@x.com");
    assert_eq!(s.get_email_cc_list(list), "c@x.com");
    assert_eq!(s.get_email_to_list("nothing\n"), "");
    assert_eq!(s.get_email_cc_list("To:x\n"), "");
}

#[test]
fn production_paths() {
    let s = strr();
    let h = history();
    assert_eq!(s.production_path(), "\\\\my-binary-server\\BIOS\\aaaBBBproj\\Production\\");
    assert_eq!(
        s.production_path_with_version(&h),
        "\\\\my-binary-server\\BIOS\\aaaBBBproj\\Production\\1.01\\"
    );
}

#[test]
fn pack_name_replaces_separators() {
    let s = strr();
    assert_eq!(s.pack_name(&history()), "aaaBBBproj(1.01)ROM.zip");
    let h = format!("{M}\n Project Name : aaa/BBB\\proj\n BIOS Version : 2.0\n");
    assert_eq!(s.pack_name(&h), "aaa_BBB_proj(2.0)ROM.zip");
    assert_eq!(pack_file_name("x_y", "3"), "x_y(3)ROM.zip");
}

#[test]
fn subjects() {
    let s = strr();
    let h = history();
    assert_eq!(
        s.mail_subject_general_at(&h, 2024, 3, 7),
        "2024/03/07 BIOS Release: aaaBBBproj 1.01.HW01"
    );
    let no_rev = format!("{M}\n Project Name : p\n BIOS Version : 9\n");
    assert_eq!(s.mail_subject_general_at(&no_rev, 1999, 12, 31), "1999/12/31 BIOS Release: p 9");
    assert_eq!(s.mail_subject_production(&h), "BIOS Verify: aaaBBBproj 1.01");
}

#[test]
fn subject_dated_today_has_date_shape() {
    let s = strr();
    let subject = s.mail_subject_general(&history());
    let (date, rest) = subject.split_at(10);
    assert_eq!(rest, " BIOS Release: aaaBBBproj 1.01.HW01");
    let parts: Vec<&str> = date.split('/').collect();
    assert_eq!(parts.len(), 3);
    let month: u32 = parts[1].parse().unwrap();
    let day: u32 = parts[2].parse().unwrap();
    assert!((1..=12).contains(&month) && (1..=31).contains(&day));
    assert_eq!(parts[1].len(), 2);
    assert_eq!(parts[2].len(), 2);
}

#[test]
fn mail_bodies() {
    let s = strr();
    let h = history();
    let head = "<span lang=ZH-TW style='font-family:\"Microsoft JhengHei\",sans-serif;font-size:15px'><span lang=EN-US style='font-family:Consolas;font-size:15px'>Dear All,<br><br>";
    let html = s.get_latest_content_in_html_fmt(&h);
    let general = format!(
        "{head}<a href=file:///\\\\my-binary-server\\BIOS\\aaaBBBproj\\aaaBBBproj_1.01.HW01.ROM>\\\\my-binary-server\\BIOS\\aaaBBBproj\\aaaBBBproj_1.01.HW01.ROM</a><br><br>{html}</span></span>"
    );
    assert_eq!(s.mail_body_general(&h), general);
    let production = format!(
        "{head}<a href=file:///\\\\my-binary-server\\BIOS\\aaaBBBproj\\Production\\1.01\\>\\\\my-binary-server\\BIOS\\aaaBBBproj\\Production\\1.01\\</a><br><br>{html}</span></span>"
    );
    assert_eq!(s.mail_body_production(&h), production);
}

#[test]
fn mail_body_link_spaces_and_slashes() {
    let s = Strr::new(None, Some("//srv/My Folder/".to_string()));
    let h = format!("{M}\n BIOS image filename: img.ROM\n");
    let body = s.mail_body_general(&h);
    assert!(body.contains("<a href=file:///\\\\srv\\My%20Folder\\img.ROM>\\\\srv\\My Folder\\img.ROM</a>"));
}

#[test]
fn parents_of_plain_relative_paths() {
    let s = Strr::new(Some("ab/cd".to_string()), None);
    assert_eq!(s.working_dir(), "ab");
    assert_eq!(s.project_path(), "ab");
    let s = Strr::new(Some("History.txt".to_string()), None);
    assert_eq!(s.working_dir(), "");
    let s = Strr::new(Some("x/./y/../z/History.txt".to_string()), None);
    assert_eq!(s.working_dir(), "x/./y/../z");
    let h = format!("{M}\n BIOS image filename: img.ROM\n");
    assert_eq!(Strr::new(None, None).image_name_s_folder(&h), "");
}

#[test]
fn parents_of_absolute_slash_paths() {
    let s = Strr::new(Some("/srv/bios/proj/History.txt".to_string()), None);
    assert_eq!(s.working_dir(), "/srv/bios/proj");
    assert_eq!(s.project_path(), "/srv/bios/proj");
    assert_eq!(s.email_list(), "/srv/bios/proj\\email.txt");
    assert_eq!(s.server_folder(), "/srv/bios/proj\\server.txt");
    let s = Strr::new(Some("/History.txt".to_string()), None);
    assert_eq!(s.working_dir(), "/");
    assert_eq!(s.email_list(), "/\\email.txt");
}

#[test]
fn parents_of_back_slash_paths() {
    let s = Strr::new(Some("D:\\MyProjects\\proj\\History.txt".to_string()), None);
    let d = s.working_dir();
    assert!(d.is_empty() || d == "D:\\MyProjects\\proj");
    let e = s.email_list();
    assert!(e == "\\email.txt" || e == "D:\\MyProjects\\proj\\email.txt");
    let h = format!("{M}\n BIOS image filename: ROM/sub/a.ROM\n");
    let f = s.image_name_s_folder(&h);
    assert!(f.is_empty() || f == "ROM\\sub");
}

#[test]
fn colon_value_needs_class_characters_to_the_end() {
    let s = strr();
    let h = format!("{M}\n Project Name : a+b\n BIOS Version : v:1.2\n BIOS Revision :\n");
    assert_eq!(s.project_name(&h), "");
    assert_eq!(s.version(&h), "1.2");
    assert_eq!(s.revision(&h), "");
    let h = format!("{M}\n Project Name : a b/c\\d_e-f.g 9\t\n");
    assert_eq!(s.project_name(&h), "a b/c\\d_e-f.g 9");
}
