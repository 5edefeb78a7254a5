use bios_release::commands::{
    bios_file_check, bios_to_server_plan, history_to_server_plan, bios_to_production_plan,
    copy_outcome, history_copy_outcome, check_folder_answer, folder_ready_answer,
    checksum_file_path, pack_location, clipboard_body, outlook_draft, server_folder_answer,
};

const M: &str = ";-----------------------------------------------------------------------;";
const TXT: &str = "D:/MyProjects/aaaBBBproj/101/History.txt";
const SERVER: &str = "\\\\srv\\BIOS\\aaaBBBproj\\";

fn history() -> String {
    format!("{M}\n Project Name : aaaBBBproj\n BIOS Version : 1.01\n BIOS image filename: ROM/a_1.01.ROM\n{M}\nold\n")
}

#[test]
fn bios_file_answers() {
    assert_eq!(bios_file_check("", true), Err("BIOS filename in history.txt is incorrect".to_string()));
    assert_eq!(bios_file_check("ROM\\a.ROM", false), Err("BIOS file NOT found".to_string()));
    assert_eq!(bios_file_check("ROM\\a.ROM", true), Ok("ROM\\a.ROM".to_string()));
}

#[test]
fn copy_plans_chain() {
    let h = history();
    let to_server = bios_to_server_plan(TXT, SERVER, &h);
    assert_eq!(to_server.from, "D:/MyProjects/aaaBBBproj/101\\ROM\\a_1.01.ROM");
    assert_eq!(to_server.to, "\\\\srv\\BIOS\\aaaBBBproj\\a_1.01.ROM");
    let to_production = bios_to_production_plan(TXT, SERVER, &h);
    assert_eq!(to_production.from, to_server.to);
    assert_eq!(to_production.to, "\\\\srv\\BIOS\\aaaBBBproj\\Production\\1.01\\a_1.01.ROM");
    let hist = history_to_server_plan("D:\\p\\History.txt", SERVER);
    assert_eq!(hist.from, "D:\\p\\History.txt");
    assert_eq!(hist.to, "\\\\srv\\BIOS\\aaaBBBproj\\History.txt");
}

#[test]
fn command_answers() {
    assert_eq!(copy_outcome(Ok(())), Ok("File copied successfully".to_string()));
    assert_eq!(copy_outcome(Err("denied".to_string())), Err("denied".to_string()));
    assert_eq!(history_copy_outcome("D:\\h.txt", false), Err("D:\\h.txt".to_string()));
    assert_eq!(history_copy_outcome("D:\\h.txt", true), Ok("File copied successfully".to_string()));
    assert_eq!(check_folder_answer(true), Ok("true".to_string()));
    assert_eq!(check_folder_answer(false), Ok("false".to_string()));
    assert_eq!(folder_ready_answer(None), Ok("Directory already exists".to_string()));
    assert_eq!(folder_ready_answer(Some(Ok(()))), Ok("Complete creating folder".to_string()));
    assert_eq!(
        folder_ready_answer(Some(Err("no space".to_string()))),
        Err("Failed to create directory: no space".to_string())
    );
}

#[test]
fn release_file_locations() {
    let h = history();
    assert_eq!(checksum_file_path(TXT, SERVER, &h), "\\\\srv\\BIOS\\aaaBBBproj\\Production\\1.01\\Checksum.txt");
    assert_eq!(pack_location(TXT, SERVER, &h), "\\\\srv\\BIOS\\aaaBBBproj\\Production\\1.01\\aaaBBBproj(1.01)ROM.zip");
}

#[test]
fn clipboard_body_by_mode() {
    let h = history();
    assert!(clipboard_body(TXT, SERVER, &h, true).contains("Production\\1.01\\</a>"));
    assert!(clipboard_body(TXT, SERVER, &h, false).contains("aaaBBBproj\\a_1.01.ROM</a>"));
}

#[test]
fn outlook_drafts() {
    let h = history();
    let config = "QT: qt@x.com\nBIOS QT: bqt@x.com\n";
    let list = "To: dev@x.com\ncc: boss@x.com\n";
    let d = outlook_draft(TXT, SERVER, &h, true, config, Some(list));
    assert_eq!(d.to, "qt@x.com; bqt@x.com; dev@x.com");
    assert_eq!(d.cc, "boss@x.com");
    assert_eq!(d.subject, "BIOS Verify: aaaBBBproj 1.01");
    assert!(d.body.contains("Production\\1.01\\</a>"));
    let d = outlook_draft(TXT, SERVER, &h, false, "", None);
    assert_eq!(d.to, "");
    assert_eq!(d.cc, "");
    assert!(d.subject.ends_with(" BIOS Release: aaaBBBproj 1.01"));
}

#[test]
fn server_folder_answers() {
    assert_eq!(server_folder_answer(None), Ok(String::new()));
    assert_eq!(
        server_folder_answer(Some("  \\\\srv\\BIOS\\proj  \nsecond\n")),
        Ok("\\\\srv\\BIOS\\proj\\".to_string())
    );
    assert_eq!(server_folder_answer(Some("\\\\srv\\x\\\n")), Ok("\\\\srv\\x\\".to_string()));
    assert_eq!(server_folder_answer(Some("   \nlater\n")), Ok(String::new()));
    assert_eq!(server_folder_answer(Some("")), Ok(String::new()));
}
