//! What the desktop commands decide and compute, given what was read from
//! disk: which files to copy where, where checksum and zip files go, the
//! answers the user sees, and the contents of the release mail. Each
//! function takes the history path `txt`, the server folder `server` and the
//! history text, as the commands receive them.

use vstd::prelude::*;
use crate::history::{
    Strr, image_with_folder_of, image_without_folder_of, version_of, pack_name_of, mail_body_of,
    subject_general_of, subject_production_of, labelled_line_of, is_parent_text, plain_parent,
    server_path_of,
};
use crate::address::GetAddress;
use crate::text::{after_last, starts_with, to_chars, from_chars, push_str};

verus! {

/// A file copy: from where, to where.
pub struct CopyPlan {
    pub from: String,
    pub to: String,
}

/// A mail to open in Outlook.
pub struct MailDraft {
    pub to: String,
    pub cc: String,
    pub subject: String,
    pub body: String,
}

/// Where the image lies on the server: the server folder followed by the
/// image name.
pub open spec fn server_image_path(server: Seq<char>, history: Seq<char>) -> Seq<char> {
    server + image_without_folder_of(history)
}

/// The folder of the release in production: `Production`, then the version,
/// in the server folder.
pub open spec fn version_folder(server: Seq<char>, history: Seq<char>) -> Seq<char> {
    server + "Production\\"@ + version_of(history) + "\\"@
}

/// The server copy of the image is what goes to production; the production
/// copy, the checksum file and the zip file all lie in the version folder,
/// which lies in the production folder of the server folder.
pub proof fn law_release_layout(server: Seq<char>, history: Seq<char>)
    ensures
        starts_with(version_folder(server, history), server + "Production\\"@),
        starts_with(version_folder(server, history) + image_without_folder_of(history), version_folder(server, history)),
        starts_with(version_folder(server, history) + "Checksum.txt"@, version_folder(server, history)),
        starts_with(version_folder(server, history) + pack_name_of(history), version_folder(server, history)),
{
    let v = version_folder(server, history);
    let p = server + "Production\\"@;
    assert(v.subrange(0, p.len() as int) =~= p);
    assert((v + image_without_folder_of(history)).subrange(0, v.len() as int) =~= v);
    assert((v + "Checksum.txt"@).subrange(0, v.len() as int) =~= v);
    assert((v + pack_name_of(history)).subrange(0, v.len() as int) =~= v);
}

/// `a` followed by `b`, as a `String`.
fn joined(a: &str, b: &str) -> (r: String)
    ensures
        r@ == a@ + b@,
{
    let mut out = to_chars(a);
    push_str(&mut out, b);
    from_chars(out.as_slice())
}

/// The release record of the commands.
fn record(txt: &str, server: &str) -> (s: Strr)
    ensures
        s.file_view() == txt@,
        s.folder_view() == server@,
{
    Strr::new(Some(txt.to_string()), Some(server.to_string()))
}

/// The answer to "is the BIOS file there": an error when the history names
/// no image file, another when the image file was not found, and otherwise
/// the image name with its folder.
pub fn bios_file_check(image_name: &str, found: bool) -> (r: Result<String, String>)
    ensures
        image_name@.len() == 0 ==> (r matches Err(e) && e@ == "BIOS filename in history.txt is incorrect"@),
        image_name@.len() != 0 && !found ==> (r matches Err(e) && e@ == "BIOS file NOT found"@),
        image_name@.len() != 0 && found ==> (r matches Ok(s) && s@ == image_name@),
{
    if image_name.unicode_len() == 0 {
        Err("BIOS filename in history.txt is incorrect".to_string())
    } else if !found {
        Err("BIOS file NOT found".to_string())
    } else {
        Ok(image_name.to_string())
    }
}

/// Copying the image to the server: from the image's full path to the server
/// folder followed by the image name.
pub fn bios_to_server_plan(txt: &str, server: &str, history: &str) -> (p: CopyPlan)
    ensures
        p.to@ == server_image_path(server@, history@),
        exists|d: Seq<char>| is_parent_text(txt@, d) && p.from@ == d + "\\"@ + image_with_folder_of(history@),
        plain_parent(txt@) matches Some(d) ==> p.from@ == d + "\\"@ + image_with_folder_of(history@),
{
    let strr = record(txt, server);
    let name = strr.image_name_without_folder(history);
    let to = joined(server, name.as_str());
    CopyPlan { from: strr.image_full_path(history), to }
}

/// Copying the history file to the server: from its path to the server
/// folder followed by its file name.
pub fn history_to_server_plan(txt: &str, server: &str) -> (p: CopyPlan)
    ensures
        p.from@ == txt@,
        p.to@ == server@ + after_last(txt@, '\\'),
{
    let strr = record(txt, server);
    let to = joined(server, strr.hisotry_file_name().as_str());
    CopyPlan { from: txt.to_string(), to }
}

/// Copying the image from the server to production: from the server folder
/// followed by the image name to the version folder followed by the image
/// name.
pub fn bios_to_production_plan(txt: &str, server: &str, history: &str) -> (p: CopyPlan)
    ensures
        p.from@ == server_image_path(server@, history@),
        p.to@ == version_folder(server@, history@) + image_without_folder_of(history@),
{
    let strr = record(txt, server);
    let name = strr.image_name_without_folder(history);
    let to = joined(strr.production_path_with_version(history).as_str(), name.as_str());
    CopyPlan { from: joined(server, name.as_str()), to }
}

/// The answer to a copy of the image: the copy's error, or a success note.
pub fn copy_outcome(copied: Result<(), String>) -> (r: Result<String, String>)
    ensures
        copied is Ok ==> (r matches Ok(s) && s@ == "File copied successfully"@),
        copied matches Err(e) ==> r == Err::<String, String>(e),
{
    match copied {
        Ok(()) => Ok("File copied successfully".to_string()),
        Err(e) => Err(e),
    }
}

/// The answer to a copy of the history file: on failure, the history path.
pub fn history_copy_outcome(txt: &str, copied: bool) -> (r: Result<String, String>)
    ensures
        copied ==> (r matches Ok(s) && s@ == "File copied successfully"@),
        !copied ==> (r matches Err(e) && e@ == txt@),
{
    if copied {
        Ok("File copied successfully".to_string())
    } else {
        Err(txt.to_string())
    }
}

/// The answer to "which server folder does the project name": `listing` is
/// the text of the project's server list `server.txt`, or `None` when there
/// is no such file. The answer is the folder named on the list's first line,
/// ended by a back slash, or empty text.
pub fn server_folder_answer(listing: Option<&str>) -> (r: Result<String, String>)
    ensures
        r matches Ok(s) && s@ == (match listing {
            Some(t) => server_path_of(t@),
            None => Seq::<char>::empty(),
        }),
{
    match listing {
        Some(t) => {
            let strr = Strr::new(None, None);
            Ok(strr.read_path(t))
        },
        None => Ok(String::new()),
    }
}

/// The answer to "is this a folder": `true` or `false`.
pub fn check_folder_answer(is_dir: bool) -> (r: Result<String, String>)
    ensures
        is_dir ==> (r matches Ok(s) && s@ == "true"@),
        !is_dir ==> (r matches Ok(s) && s@ == "false"@),
{
    if is_dir {
        Ok("true".to_string())
    } else {
        Ok("false".to_string())
    }
}

/// The answer to "make sure the folder exists": `created` is `None` when the
/// folder was already there, else the outcome of creating it.
pub fn folder_ready_answer(created: Option<Result<(), String>>) -> (r: Result<String, String>)
    ensures
        created is None ==> (r matches Ok(s) && s@ == "Directory already exists"@),
        created matches Some(Ok(())) ==> (r matches Ok(s) && s@ == "Complete creating folder"@),
        created matches Some(Err(e)) ==> (r matches Err(m) && m@ == "Failed to create directory: "@
            + e@),
{
    match created {
        None => Ok("Directory already exists".to_string()),
        Some(Ok(())) => Ok("Complete creating folder".to_string()),
        Some(Err(e)) => Err(joined("Failed to create directory: ", e.as_str())),
    }
}

/// Where `Checksum.txt` goes: in the version folder in production.
pub fn checksum_file_path(txt: &str, server: &str, history: &str) -> (r: String)
    ensures
        r@ == version_folder(server@, history@) + "Checksum.txt"@,
{
    let strr = record(txt, server);
    joined(strr.production_path_with_version(history).as_str(), "Checksum.txt")
}

/// Where the zip file goes: in the version folder in production, under the
/// pack name.
pub fn pack_location(txt: &str, server: &str, history: &str) -> (r: String)
    ensures
        r@ == version_folder(server@, history@) + pack_name_of(history@),
{
    let strr = record(txt, server);
    joined(strr.production_path_with_version(history).as_str(), strr.pack_name(history).as_str())
}

/// The HTML put on the clipboard: the body of the verification mail in
/// production, else that of the release mail.
pub fn clipboard_body(txt: &str, server: &str, history: &str, production: bool) -> (r: String)
    ensures
        production ==> r@ == mail_body_of(
            server@ + "Production\\"@ + version_of(history@) + "\\"@,
            history@,
        ),
        !production ==> r@ == mail_body_of(server@ + image_without_folder_of(history@), history@),
{
    let strr = record(txt, server);
    if production {
        strr.mail_body_production(history)
    } else {
        strr.mail_body_general(history)
    }
}

/// The mail opened in Outlook. In production it goes to the two QT leaders
/// named in the configuration text `config`, asks for verification and links
/// to the production folder; otherwise it announces the release, dated today,
/// and links to the image. When there is a mail list (`email`), its `To:`
/// recipients follow and its `cc:` recipients are copied.
pub fn outlook_draft(
    txt: &str,
    server: &str,
    history: &str,
    production: bool,
    config: &str,
    email: Option<&str>,
) -> (m: MailDraft)
    ensures
        ({
            let leaders = if production {
                labelled_line_of("QT:"@, "QT:"@, config@) + "; "@ + labelled_line_of(
                    "BIOS QT:"@,
                    "BIOS QT:"@,
                    config@,
                ) + "; "@
            } else {
                Seq::<char>::empty()
            };
            &&& m.to@ == leaders + (match email {
                Some(e) => labelled_line_of("To: "@, "To:"@, e@),
                None => Seq::<char>::empty(),
            })
            &&& m.cc@ == (match email {
                Some(e) => labelled_line_of("cc: "@, "cc:"@, e@),
                None => Seq::<char>::empty(),
            })
        }),
        production ==> m.subject@ == subject_production_of(history@),
        production ==> m.body@ == mail_body_of(
            server@ + "Production\\"@ + version_of(history@) + "\\"@,
            history@,
        ),
        !production ==> exists|y: i32, mo: u32, d: u32|
            1 <= mo <= 12 && 1 <= d <= 31 && m.subject@ == subject_general_of(
                y as int,
                mo as nat,
                d as nat,
                history@,
            ),
        !production ==> m.body@ == mail_body_of(server@ + image_without_folder_of(history@), history@),
{
    let strr = record(txt, server);
    let mut to = String::new();
    let mut cc = String::new();
    let subject: String;
    let body: String;
    if production {
        let get_address = GetAddress::new(Some(config.to_string()));
        let mut t = to_chars(get_address.qt_leader_email(config).as_str());
        push_str(&mut t, "; ");
        push_str(&mut t, get_address.bios_qt_leader_email(config).as_str());
        push_str(&mut t, "; ");
        to = from_chars(t.as_slice());
        subject = strr.mail_subject_production(history);
        body = strr.mail_body_production(history);
    } else {
        subject = strr.mail_subject_general(history);
        body = strr.mail_body_general(history);
    }
    match email {
        Some(e) => {
            to = joined(to.as_str(), strr.get_email_to_list(e).as_str());
            cc = joined(cc.as_str(), strr.get_email_cc_list(e).as_str());
        },
        None => {},
    }
    MailDraft { to, cc, subject, body }
}

} // verus!
