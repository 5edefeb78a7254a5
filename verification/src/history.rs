//! `Strr`: the names and paths of a BIOS release, derived from the path of
//! its `History.txt`, the server folder it goes to, and the history text.

use vstd::prelude::*;
use crate::text::{
    contains, starts_with, lemma_lines_no_newline, lines, trim, replace, after_last, split_lines, trimmed, replaced, last_piece, to_chars,
    from_chars, push_all, push_str, concat,
};
use crate::section::{latest_content, latest_content_html, latest_section, first_index, lemma_first_index_is};
use crate::pattern::{
    is_plain_literal, is_line_start_literal, colon_pattern, underscored, regex_find, colon_match, is_ascii_text, compile, is_match, find,
    replace_all,
};
use crate::numfmt::{signed_decimal, decimal, pad_left, signed_decimal_of, digits_of, pad_left_exec};
use crate::clock::local_date;

verus! {

// ---------------------------------------------------------------------------
// Fields of a release taken from the history text
// ---------------------------------------------------------------------------

/// The predicate "contains `name`" on lines.
pub open spec fn mentions(name: Seq<char>) -> spec_fn(Seq<char>) -> bool {
    |l: Seq<char>| contains(l, name)
}

/// The value carried by a colon match: the match without its colons, trimmed;
/// empty when there was no match.
pub open spec fn field_text(found: Option<Seq<char>>) -> Seq<char> {
    match found {
        Some(m) => trim(replace(m, ":"@, seq![])),
        None => seq![],
    }
}

/// What the colon pattern finds on a line: spelled out for ASCII lines, the
/// named result of the match otherwise.
pub open spec fn colon_found(line: Seq<char>) -> Option<Seq<char>> {
    if is_ascii_text(line) {
        colon_match(line)
    } else {
        regex_find(colon_pattern(), line)
    }
}

/// The value of the field `name` in the latest section of `text`: on the
/// first line of the section (plain form) that contains `name`, the text
/// after the colon at its end, as the colon pattern finds it. Empty when no
/// line names the field.
pub open spec fn field_of(name: Seq<char>, text: Seq<char>) -> Seq<char> {
    let ls = lines(latest_content(text));
    let i = first_index(ls, mentions(name));
    if i < ls.len() {
        field_text(colon_found(ls[i as int]))
    } else {
        seq![]
    }
}

/// The project name of the latest release.
pub open spec fn project_name_of(text: Seq<char>) -> Seq<char> {
    field_of("Project Name"@, text)
}

/// The BIOS version of the latest release.
pub open spec fn version_of(text: Seq<char>) -> Seq<char> {
    field_of("BIOS Version"@, text)
}

/// The BIOS revision of the latest release.
pub open spec fn revision_of(text: Seq<char>) -> Seq<char> {
    field_of("BIOS Revision"@, text)
}

/// The image file name with its folder, written with back slashes.
pub open spec fn image_with_folder_of(text: Seq<char>) -> Seq<char> {
    replace(field_of("BIOS image filename"@, text), "/"@, "\\"@)
}

/// The image file name without its folder.
pub open spec fn image_without_folder_of(text: Seq<char>) -> Seq<char> {
    after_last(image_with_folder_of(text), '\\')
}

/// A path whose parent is the same on every platform, with only slashes as
/// separators:
/// - a single relative component (no separator, no colon): the parent is the
///   empty path;
/// - `/` and one component `c`: the parent is `/`;
/// - a folder part `d` and a last component `c` joined by `/`: the parent is
///   `d`.
///
/// Throughout, `c` is not empty, not `.` and holds no back slash; `d` holds
/// no back slash, does not end with `/`, is not `.` and does not end with
/// `/.`. A relative `d` is not a drive such as `C:`; an absolute one does not
/// start with `//` (a share on Windows), and then neither part holds a
/// colon. Other paths give `None`.
pub open spec fn plain_parent(p: Seq<char>) -> Option<Seq<char>> {
    let c = after_last(p, '/');
    let c_ok = c.len() > 0 && !c.contains('\\') && c != "."@;
    if c.len() == p.len() {
        if p.len() > 0 && !p.contains('\\') && !p.contains(':') {
            Some(Seq::<char>::empty())
        } else {
            None
        }
    } else {
        let d = p.take(p.len() - c.len() - 1);
        if d.len() == 0 {
            if c_ok && !c.contains(':') {
                Some("/"@)
            } else {
                None
            }
        } else if c_ok && !d.contains('\\') && d.last() != '/' && d != "."@ && !(d.len() >= 2
            && d.last() == '.' && d[d.len() - 2] == '/') && (d[0] == '/' ==> d.len() >= 2 && d[1]
            != '/' && !d.contains(':') && !c.contains(':')) && (d[0] != '/' ==> !(d.len() == 2
            && d[1] == ':')) {
            Some(d)
        } else {
            None
        }
    }
}

/// The parent that Windows gives a path written with back slashes only: a
/// folder part `d` and a last component `c` joined by a back slash, where
/// `c` is not empty and not `.`, and `d` is not empty, does not end with a
/// back slash, is not `.`, does not end with `\.`, does not start with two
/// back slashes (a share or a verbatim prefix) and is not a bare drive such
/// as `C:` — then the parent is `d`. Other paths give `None`. Elsewhere such a
/// path is a single component, whose parent is the empty path.
pub open spec fn windows_parent(p: Seq<char>) -> Option<Seq<char>> {
    let c = after_last(p, '\\');
    if p.contains('/') || c.len() == p.len() {
        None
    } else {
        let d = p.take(p.len() - c.len() - 1);
        if c.len() > 0 && c != "."@ && d.len() > 0 && d.last() != '\\' && d != "."@ && !(d.len() >= 2
            && d.last() == '.' && d[d.len() - 2] == '\\') && !(d.len() >= 2 && d[0] == '\\' && d[1]
            == '\\') && !(d.len() == 2 && d[1] == ':') {
            Some(d)
        } else {
            None
        }
    }
}

/// `d` can be what `Path::parent` of `p` leaves, or the empty text when there
/// is no parent: empty, or a shorter prefix of `p`; `plain_parent` of `p`
/// when that is known; and for a back-slash path with a `windows_parent`,
/// either that (Windows) or the empty text (elsewhere).
pub open spec fn is_parent_text(p: Seq<char>, d: Seq<char>) -> bool {
    &&& d.len() == 0 || (d.len() < p.len() && p.take(d.len() as int) == d)
    &&& plain_parent(p) matches Some(x) ==> d == x
    &&& windows_parent(p) matches Some(x) ==> d.len() == 0 || d == x
}

/// The first line of the server list, trimmed and ended by a back slash;
/// empty when that line is blank or there is no line.
pub open spec fn server_path_of(text: Seq<char>) -> Seq<char> {
    let ls = lines(text);
    if ls.len() == 0 {
        seq![]
    } else {
        let t = trim(ls[0]);
        if t.len() == 0 {
            seq![]
        } else if t.last() == '\\' {
            t
        } else {
            t.push('\\')
        }
    }
}

/// The predicate "non-empty and starting with `label`" on lines.
pub open spec fn begins_with(label: Seq<char>) -> spec_fn(Seq<char>) -> bool {
    |l: Seq<char>| l.len() > 0 && starts_with(l, label)
}

/// On the first line of `text` that starts with `start`, the text without
/// every `label` in it, trimmed; empty when no line starts so.
pub open spec fn labelled_line_of(start: Seq<char>, label: Seq<char>, text: Seq<char>) -> Seq<char> {
    let ls = lines(text);
    let i = first_index(ls, begins_with(start));
    if i < ls.len() {
        trim(replace(ls[i as int], label, seq![]))
    } else {
        seq![]
    }
}

/// The zip file name: the project name with its slashes and back slashes
/// made underscores, then the version in brackets and `ROM.zip`.
pub open spec fn pack_name_of(text: Seq<char>) -> Seq<char> {
    underscored(project_name_of(text)) + "("@ + version_of(text) + ")ROM.zip"@
}

/// The subject of a release mail sent on the given date.
pub open spec fn subject_general_of(year: int, month: nat, day: nat, text: Seq<char>) -> Seq<char> {
    let head = signed_decimal(year) + "/"@ + pad_left(decimal(month), 2, '0') + "/"@ + pad_left(
        decimal(day),
        2,
        '0',
    ) + " BIOS Release: "@ + project_name_of(text) + " "@ + version_of(text);
    if revision_of(text).len() == 0 {
        head
    } else {
        head + "."@ + revision_of(text)
    }
}

/// The subject of a mail that asks for verification of a release.
pub open spec fn subject_production_of(text: Seq<char>) -> Seq<char> {
    "BIOS Verify: "@ + project_name_of(text) + " "@ + version_of(text)
}

/// The opening of the mail body: the two font spans.
pub open spec fn mail_header() -> Seq<char> {
    "<span lang=ZH-TW style='font-family:\"Microsoft JhengHei\",sans-serif;font-size:15px'>"@
        + "<span lang=EN-US style='font-family:Consolas;font-size:15px'>"@
}

/// The body of a release mail that links to `link`: the greeting, the link
/// (back slashes for slashes, and `%20` for spaces in the target), the
/// latest section in HTML, and the closing spans.
pub open spec fn mail_body_of(link: Seq<char>, text: Seq<char>) -> Seq<char> {
    let shown = replace(link, "/"@, "\\"@);
    let target = replace(shown, " "@, "%20"@);
    mail_header() + "Dear All,<br><br>"@ + "<a href=file:///"@ + target + ">"@ + shown
        + "</a><br><br>"@ + latest_content_html(text) + "</span>"@ + "</span>"@
}

// ---------------------------------------------------------------------------
// The release record
// ---------------------------------------------------------------------------

/// A release: the path of its `History.txt`, the server folder (ending in
/// a back slash) that it is published to, and the project folder, the parent
/// of the history path as `Path::parent` gives it (empty when there is
/// none), taken once so that every path of the release shares it.
pub struct Strr {
    file: String,
    folder: String,
    dir: String,
}

/// `Path::parent` of `path`, as text. The parent depends on the platform's
/// path syntax; the contract claims what the documentation gives: the empty
/// path has no parent; a parent is the path without its final component, so
/// a shorter prefix of it; for the paths of `plain_parent`, whose components
/// are split alike on every platform, it is the folder part (`/` for `/c`);
/// for a back-slash path with a `windows_parent`, it is that folder where
/// the back slash separates (Windows) and the empty path where the whole
/// path is one component (elsewhere). What the parent is for other paths
/// (mixed separators, drive or share prefixes, bare roots, trailing `.`) is
/// left unsaid.
#[verifier::external_body]
fn path_parent(path: &str) -> (r: Option<String>)
    ensures
        path@.len() == 0 ==> r is None,
        r matches Some(d) ==> d@.len() < path@.len() && path@.take(d@.len() as int) == d@,
        plain_parent(path@) is Some ==> r is Some && r->0@ == plain_parent(path@)->0,
        windows_parent(path@) is Some ==> r is Some && (r->0@.len() == 0 || r->0@ == windows_parent(
            path@,
        )->0),
{
    match std::path::Path::new(path).parent() {
        Some(d) => Some(d.to_string_lossy().into_owned()),
        None => None,
    }
}

/// The parent folder of `path` as text, or empty text when there is none.
fn parent_text(path: &str) -> (r: String)
    ensures
        is_parent_text(path@, r@),
        plain_parent(path@) matches Some(d) ==> r@ == d,
{
    parent_or_empty(path_parent(path))
}

/// A folder as `Path::parent` gave it: the folder, or empty text when there
/// was none.
pub fn parent_or_empty(parent: Option<String>) -> (r: String)
    ensures
        r@ == (match parent {
            Some(d) => d@,
            None => Seq::<char>::empty(),
        }),
{
    match parent {
        Some(d) => d,
        None => String::new(),
    }
}

/// The path of `name` in the folder `dir`: the folder, a back slash, the
/// name.
pub fn in_folder(dir: &str, name: &str) -> (r: String)
    ensures
        r@ == dir@ + "\\"@ + name@,
{
    let mut out = to_chars(dir);
    push_str(&mut out, "\\");
    push_str(&mut out, name);
    from_chars(out.as_slice())
}

impl Strr {
    /// The path of the history file.
    pub closed spec fn file_view(&self) -> Seq<char> {
        self.file@
    }

    /// The server folder.
    pub closed spec fn folder_view(&self) -> Seq<char> {
        self.folder@
    }

    /// The project folder: the parent of the history path.
    pub closed spec fn dir_view(&self) -> Seq<char> {
        self.dir@
    }

    /// The project folder is a parent of the history path.
    #[verifier::type_invariant]
    closed spec fn dir_is_parent(&self) -> bool {
        is_parent_text(self.file@, self.dir@)
    }

    /// A release record; a missing path or folder is the empty text.
    pub fn new(file: Option<String>, folder: Option<String>) -> (s: Self)
        ensures
            s.file_view() == (match file {
                Some(f) => f@,
                None => Seq::<char>::empty(),
            }),
            s.folder_view() == (match folder {
                Some(f) => f@,
                None => Seq::<char>::empty(),
            }),
            is_parent_text(s.file_view(), s.dir_view()),
    {
        let file = match file {
            Some(f) => f,
            None => String::new(),
        };
        let folder = match folder {
            Some(f) => f,
            None => String::new(),
        };
        let dir = parent_text(file.as_str());
        Strr { file, folder, dir }
    }

    /// The latest section of the history text `history`.
    pub fn get_latest_content(&self, history: &str) -> (r: String)
        ensures
            r@ == latest_content(history@),
    {
        let t = to_chars(history);
        let c = latest_section(t.as_slice(), false);
        from_chars(c.as_slice())
    }

    /// The latest section of the history text `history`, as HTML.
    pub fn get_latest_content_in_html_fmt(&self, history: &str) -> (r: String)
        ensures
            r@ == latest_content_html(history@),
    {
        let t = to_chars(history);
        let c = latest_section(t.as_slice(), true);
        from_chars(c.as_slice())
    }

    /// The folder that holds the history file (empty when it has none).
    pub fn working_dir(&self) -> (r: String)
        ensures
            r@ == self.dir_view(),
            is_parent_text(self.file_view(), r@),
            plain_parent(self.file_view()) matches Some(d) ==> r@ == d,
    {
        proof {
            use_type_invariant(self);
        }
        from_chars(to_chars(self.dir.as_str()).as_slice())
    }

    /// The value of the field `item` in the latest section.
    fn get_version(&self, item: &str, history: &str) -> (r: String)
        requires
            is_plain_literal(item@),
        ensures
            r@ == field_of(item@, history@),
    {
        let re = compile(item);
        let colon = compile(r":[a-zA-Z\d\s\.\-\_\\\/]+$");
        let (re, colon) = match (re, colon) {
            (Some(re), Some(colon)) => (re, colon),
            _ => {
                return String::new();
            },
        };
        let content = latest_section(to_chars(history).as_slice(), false);
        let ls = split_lines(content.as_slice());
        let ghost g = crate::text::views(ls@);
        let ghost p = mentions(item@);
        let mut i: usize = 0;
        while i < ls.len()
            invariant
                i <= ls@.len(),
                g == crate::text::views(ls@),
                g == lines(latest_content(history@)),
                p == mentions(item@),
                re@ == item@,
                is_plain_literal(item@),
                colon@ == colon_pattern(),
                forall|j: int| 0 <= j < i ==> !p(g[j]),
            decreases ls@.len() - i,
        {
            let line = from_chars(ls[i].as_slice());
            assert(line@ == g[i as int]);
            if is_match(&re, line.as_str()) {
                proof {
                    lemma_first_index_is(g, p, i as int);
                }
                let found = find(&colon, line.as_str());
                return field_value(found);
            }
            i = i + 1;
        }
        proof {
            lemma_first_index_is(g, p, i as int);
        }
        String::new()
    }

    /// The project name of the latest release.
    pub fn project_name(&self, history: &str) -> (r: String)
        ensures
            r@ == project_name_of(history@),
    {
        proof {
            reveal_strlit("Project Name");
        }
        self.get_version("Project Name", history)
    }

    /// The BIOS version of the latest release.
    pub fn version(&self, history: &str) -> (r: String)
        ensures
            r@ == version_of(history@),
    {
        proof {
            reveal_strlit("BIOS Version");
        }
        self.get_version("BIOS Version", history)
    }

    /// The BIOS revision of the latest release.
    pub fn revision(&self, history: &str) -> (r: String)
        ensures
            r@ == revision_of(history@),
    {
        proof {
            reveal_strlit("BIOS Revision");
        }
        self.get_version("BIOS Revision", history)
    }

    /// The project folder: the folder of the history file.
    pub fn project_path(&self) -> (r: String)
        ensures
            r@ == self.dir_view(),
            is_parent_text(self.file_view(), r@),
            plain_parent(self.file_view()) matches Some(d) ==> r@ == d,
    {
        let parent_dir = self.working_dir();
        if parent_dir.as_str().unicode_len() == 0 {
            let none = String::new();
            assert(none@ =~= parent_dir@);
            return none;
        }
        parent_dir
    }

    /// The file name of the history file: what follows its last back slash.
    pub fn hisotry_file_name(&self) -> (r: String)
        ensures
            r@ == after_last(self.file_view(), '\\'),
    {
        let f = to_chars(self.file.as_str());
        let name = last_piece(f.as_slice(), '\\');
        from_chars(name.as_slice())
    }

    /// The image file name with its folder, with back slashes for slashes.
    pub fn image_name_with_folder(&self, history: &str) -> (r: String)
        ensures
            r@ == image_with_folder_of(history@),
    {
        proof {
            reveal_strlit("BIOS image filename");
        }
        let v = self.get_version("BIOS image filename", history);
        let slash = to_chars("/");
        let back = to_chars("\\");
        proof {
            reveal_strlit("/");
        }
        let r = replaced(to_chars(v.as_str()).as_slice(), slash.as_slice(), back.as_slice());
        from_chars(r.as_slice())
    }

    /// The folder part of the image file name (empty when it has none).
    pub fn image_name_s_folder(&self, history: &str) -> (r: String)
        ensures
            is_parent_text(image_with_folder_of(history@), r@),
            plain_parent(image_with_folder_of(history@)) matches Some(d) ==> r@ == d,
    {
        let image_w_folder = self.image_name_with_folder(history);
        parent_text(image_w_folder.as_str())
    }

    /// The image file name without its folder.
    pub fn image_name_without_folder(&self, history: &str) -> (r: String)
        ensures
            r@ == image_without_folder_of(history@),
    {
        let image_w_folder = self.image_name_with_folder(history);
        let name = last_piece(to_chars(image_w_folder.as_str()).as_slice(), '\\');
        from_chars(name.as_slice())
    }

    /// The folder of the image: project folder, back slash, image folder,
    /// back slash.
    pub fn image_folder_path(&self, history: &str) -> (r: String)
        ensures
            exists|d: Seq<char>, f: Seq<char>|
                is_parent_text(self.file_view(), d) && is_parent_text(
                    image_with_folder_of(history@),
                    f,
                ) && r@ == d + "\\"@ + f + "\\"@,
            exists|f: Seq<char>|
                is_parent_text(image_with_folder_of(history@), f) && r@ == self.dir_view() + "\\"@ + f
                    + "\\"@,
            plain_parent(self.file_view()) is Some && plain_parent(image_with_folder_of(history@)) is Some
                ==> r@ == plain_parent(self.file_view())->0 + "\\"@ + plain_parent(
                image_with_folder_of(history@),
            )->0 + "\\"@,
    {
        let parent_dir = self.project_path();
        let image_folder = self.image_name_s_folder(history);
        let inner = in_folder(parent_dir.as_str(), image_folder.as_str());
        let mut out = to_chars(inner.as_str());
        push_str(&mut out, "\\");
        let r = from_chars(out.as_slice());
        assert(r@ == parent_dir@ + "\\"@ + image_folder@ + "\\"@);
        r
    }

    /// The full path of the image: project folder, back slash, image name
    /// with its folder.
    pub fn image_full_path(&self, history: &str) -> (r: String)
        ensures
            r@ == self.dir_view() + "\\"@ + image_with_folder_of(history@),
            exists|d: Seq<char>|
                is_parent_text(self.file_view(), d) && r@ == d + "\\"@ + image_with_folder_of(history@),
            plain_parent(self.file_view()) matches Some(d) ==> r@ == d + "\\"@ + image_with_folder_of(
                history@,
            ),
    {
        let parent_dir = self.project_path();
        let binary = self.image_name_with_folder(history);
        in_folder(parent_dir.as_str(), binary.as_str())
    }

    /// The path of the mail list `email.txt` in the project folder.
    pub fn email_list(&self) -> (r: String)
        ensures
            r@ == self.dir_view() + "\\"@ + "email.txt"@,
            exists|d: Seq<char>| is_parent_text(self.file_view(), d) && r@ == d + "\\"@ + "email.txt"@,
            plain_parent(self.file_view()) matches Some(d) ==> r@ == d + "\\"@ + "email.txt"@,
    {
        let parent_dir = self.project_path();
        in_folder(parent_dir.as_str(), "email.txt")
    }

    /// The path of the server list `server.txt` in the project folder.
    pub fn server_folder(&self) -> (r: String)
        ensures
            r@ == self.dir_view() + "\\"@ + "server.txt"@,
            exists|d: Seq<char>| is_parent_text(self.file_view(), d) && r@ == d + "\\"@ + "server.txt"@,
            plain_parent(self.file_view()) matches Some(d) ==> r@ == d + "\\"@ + "server.txt"@,
    {
        let parent_dir = self.project_path();
        in_folder(parent_dir.as_str(), "server.txt")
    }

    /// The server folder named by the first line of the server list
    /// `server_list`, ended by a back slash.
    pub fn read_path(&self, server_list: &str) -> (r: String)
        ensures
            r@ == server_path_of(server_list@),
    {
        let ls = split_lines(to_chars(server_list).as_slice());
        assert(crate::text::views(ls@) == lines(server_list@));
        if ls.len() == 0 {
            return String::new();
        }
        assert(ls@[0]@ == lines(server_list@)[0]);
        let t = trimmed(ls[0].as_slice());
        if t.len() == 0 {
            String::new()
        } else if t[t.len() - 1] == '\\' {
            from_chars(t.as_slice())
        } else {
            let mut out = t;
            out.push('\\');
            from_chars(out.as_slice())
        }
    }

    /// The `To:` recipients in the mail list `email`.
    pub fn get_email_to_list(&self, email: &str) -> (r: String)
        ensures
            r@ == labelled_line_of("To: "@, "To:"@, email@),
    {
        proof {
            reveal_strlit("To:");
            reveal_strlit("To: ");
            reveal_strlit("(?m)^To: ");
            reveal_strlit("(?m)^");
            assert("(?m)^To: "@.skip(5) =~= "To: "@);
            assert("(?m)^To: "@.take(5) =~= "(?m)^"@);
        }
        labelled_line("(?m)^To: ", "To:", email)
    }

    /// The `cc:` recipients in the mail list `email`.
    pub fn get_email_cc_list(&self, email: &str) -> (r: String)
        ensures
            r@ == labelled_line_of("cc: "@, "cc:"@, email@),
    {
        proof {
            reveal_strlit("cc:");
            reveal_strlit("cc: ");
            reveal_strlit("(?m)^cc: ");
            reveal_strlit("(?m)^");
            assert("(?m)^cc: "@.skip(5) =~= "cc: "@);
            assert("(?m)^cc: "@.take(5) =~= "(?m)^"@);
        }
        labelled_line("(?m)^cc: ", "cc:", email)
    }

    /// The production folder on the server.
    pub fn production_path(&self) -> (r: String)
        ensures
            r@ == self.folder_view() + "Production\\"@,
    {
        let mut out = to_chars(self.folder.as_str());
        push_str(&mut out, "Production\\");
        from_chars(out.as_slice())
    }

    /// The folder of the latest version in the production folder.
    pub fn production_path_with_version(&self, history: &str) -> (r: String)
        ensures
            r@ == self.folder_view() + "Production\\"@ + version_of(history@) + "\\"@,
    {
        let p = self.production_path();
        let v = self.version(history);
        let mut out = to_chars(p.as_str());
        push_str(&mut out, v.as_str());
        push_str(&mut out, "\\");
        from_chars(out.as_slice())
    }

    /// The name of the zip file of the latest release.
    pub fn pack_name(&self, history: &str) -> (r: String)
        ensures
            r@ == pack_name_of(history@),
    {
        let re = match compile(r"/|\\") {
            Some(re) => re,
            None => {
                return String::new();
            },
        };
        let project_name = self.project_name(history);
        let modified_name = replace_all(&re, project_name.as_str(), "_");
        pack_file_name(modified_name.as_str(), self.version(history).as_str())
    }

    /// The subject of the release mail, dated today.
    pub fn mail_subject_general(&self, history: &str) -> (r: String)
        ensures
            exists|y: i32, m: u32, d: u32|
                1 <= m <= 12 && 1 <= d <= 31 && r@ == subject_general_of(
                    y as int,
                    m as nat,
                    d as nat,
                    history@,
                ),
    {
        let (y, m, d) = local_date();
        self.mail_subject_general_at(history, y, m, d)
    }

    /// The subject of the release mail, dated on the given day.
    pub fn mail_subject_general_at(&self, history: &str, year: i32, month: u32, day: u32) -> (r: String)
        ensures
            r@ == subject_general_of(year as int, month as nat, day as nat, history@),
    {
        let mut out = signed_decimal_of(year);
        push_str(&mut out, "/");
        let mm = pad_left_exec(digits_of(month as u64, 10).as_slice(), 2, '0');
        push_all(&mut out, mm.as_slice());
        push_str(&mut out, "/");
        let dd = pad_left_exec(digits_of(day as u64, 10).as_slice(), 2, '0');
        push_all(&mut out, dd.as_slice());
        push_str(&mut out, " BIOS Release: ");
        push_str(&mut out, self.project_name(history).as_str());
        push_str(&mut out, " ");
        push_str(&mut out, self.version(history).as_str());
        let revision = self.revision(history);
        if revision.as_str().unicode_len() != 0 {
            push_str(&mut out, ".");
            push_str(&mut out, revision.as_str());
        }
        from_chars(out.as_slice())
    }

    /// The subject of the mail that asks for verification of the release.
    pub fn mail_subject_production(&self, history: &str) -> (r: String)
        ensures
            r@ == subject_production_of(history@),
    {
        let mut out = to_chars("BIOS Verify: ");
        push_str(&mut out, self.project_name(history).as_str());
        push_str(&mut out, " ");
        push_str(&mut out, self.version(history).as_str());
        from_chars(out.as_slice())
    }

    /// The body of a release mail that links to `link`.
    fn mail_body(&self, link: &str, history: &str) -> (r: String)
        ensures
            r@ == mail_body_of(link@, history@),
    {
        let slash = to_chars("/");
        let back = to_chars("\\");
        let space = to_chars(" ");
        let pct = to_chars("%20");
        proof {
            reveal_strlit("/");
            reveal_strlit(" ");
        }
        let shown = replaced(to_chars(link).as_slice(), slash.as_slice(), back.as_slice());
        let target = replaced(shown.as_slice(), space.as_slice(), pct.as_slice());
        let mut out = to_chars(
            "<span lang=ZH-TW style='font-family:\"Microsoft JhengHei\",sans-serif;font-size:15px'>",
        );
        push_str(&mut out, "<span lang=EN-US style='font-family:Consolas;font-size:15px'>");
        push_str(&mut out, "Dear All,<br><br>");
        push_str(&mut out, "<a href=file:///");
        push_all(&mut out, target.as_slice());
        push_str(&mut out, ">");
        push_all(&mut out, shown.as_slice());
        push_str(&mut out, "</a><br><br>");
        push_str(&mut out, self.get_latest_content_in_html_fmt(history).as_str());
        push_str(&mut out, "</span>");
        push_str(&mut out, "</span>");
        from_chars(out.as_slice())
    }

    /// The body of the release mail: it links to the image on the server.
    pub fn mail_body_general(&self, history: &str) -> (r: String)
        ensures
            r@ == mail_body_of(self.folder_view() + image_without_folder_of(history@), history@),
    {
        let bios_file_name = self.image_name_without_folder(history);
        let link = concat(to_chars(self.folder.as_str()).as_slice(), to_chars(bios_file_name.as_str()).as_slice());
        let link = from_chars(link.as_slice());
        self.mail_body(link.as_str(), history)
    }

    /// The body of the verification mail: it links to the version folder in
    /// production.
    pub fn mail_body_production(&self, history: &str) -> (r: String)
        ensures
            r@ == mail_body_of(
                self.folder_view() + "Production\\"@ + version_of(history@) + "\\"@,
                history@,
            ),
    {
        let link = self.production_path_with_version(history);
        self.mail_body(link.as_str(), history)
    }
}

/// On the first line of `text` that the pattern `(?m)^` + `start`
/// matches, the text without `label`, trimmed.
pub(crate) fn labelled_line(pat: &str, label: &str, text: &str) -> (r: String)
    requires
        label@.len() > 0,
        is_line_start_literal(pat@),
    ensures
        r@ == labelled_line_of(pat@.skip(5), label@, text@),
{
    let re = match compile(pat) {
        Some(re) => re,
        None => {
            return String::new();
        },
    };
    let ls = split_lines(to_chars(text).as_slice());
    let ghost g = crate::text::views(ls@);
    let ghost p = begins_with(pat@.skip(5));
    proof {
        lemma_lines_no_newline(text@);
    }
    let mut i: usize = 0;
    while i < ls.len()
        invariant
            i <= ls@.len(),
            g == crate::text::views(ls@),
            g == lines(text@),
            forall|j: int| 0 <= j < g.len() ==> !(#[trigger] g[j]).contains('\n'),
            p == begins_with(pat@.skip(5)),
            label@.len() > 0,
            re@ == pat@,
            is_line_start_literal(pat@),
            forall|j: int| 0 <= j < i ==> !p(g[j]),
        decreases ls@.len() - i,
    {
        let line = from_chars(ls[i].as_slice());
        assert(line@ == g[i as int]);
        assert(!line@.contains('\n'));
        if ls[i].len() > 0 && is_match(&re, line.as_str()) {
            proof {
                lemma_first_index_is(g, p, i as int);
            }
            return address_value(line.as_str(), label);
        }
        i = i + 1;
    }
    proof {
        lemma_first_index_is(g, p, i as int);
    }
    String::new()
}

/// The value carried by a colon match (the result of the colon pattern's
/// `find` on a line): the match without its colons, trimmed.
pub fn field_value(found: Option<String>) -> (r: String)
    ensures
        r@ == field_text(match found {
            Some(s) => Some(s@),
            None => None,
        }),
{
    match found {
        Some(m) => {
            let colon = to_chars(":");
            proof {
                reveal_strlit(":");
            }
            let e: Vec<char> = Vec::new();
            let without = replaced(to_chars(m.as_str()).as_slice(), colon.as_slice(), e.as_slice());
            assert(e@ == Seq::<char>::empty());
            let t = trimmed(without.as_slice());
            from_chars(t.as_slice())
        },
        None => String::new(),
    }
}

/// An address line without its label, trimmed.
pub fn address_value(line: &str, label: &str) -> (r: String)
    requires
        label@.len() > 0,
    ensures
        r@ == trim(replace(line@, label@, seq![])),
{
    let e: Vec<char> = Vec::new();
    let without = replaced(to_chars(line).as_slice(), to_chars(label).as_slice(), e.as_slice());
    assert(e@ == Seq::<char>::empty());
    let t = trimmed(without.as_slice());
    from_chars(t.as_slice())
}

/// The zip file name for a project name whose separators were already
/// replaced, and a version.
pub fn pack_file_name(modified_name: &str, version: &str) -> (r: String)
    ensures
        r@ == modified_name@ + "("@ + version@ + ")ROM.zip"@,
{
    let mut out = to_chars(modified_name);
    push_str(&mut out, "(");
    push_str(&mut out, version);
    push_str(&mut out, ")ROM.zip");
    from_chars(out.as_slice())
}

} // verus!
