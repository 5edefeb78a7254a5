//! `GetAddress`: the supervisors' mail addresses kept in a configuration
//! file.

use vstd::prelude::*;
use crate::history::{labelled_line, labelled_line_of};

verus! {

/// The path of the configuration file that holds the `QT:` and `BIOS QT:`
/// address lines.
pub struct GetAddress {
    config_file: String,
}

impl GetAddress {
    /// The path of the configuration file.
    pub closed spec fn config_view(&self) -> Seq<char> {
        self.config_file@
    }

    /// An address book read from `config_file` (the empty path when none is
    /// given).
    pub fn new(config_file: Option<String>) -> (g: Self)
        ensures
            g.config_view() == (match config_file {
                Some(f) => f@,
                None => Seq::<char>::empty(),
            }),
    {
        let config_file = match config_file {
            Some(f) => f,
            None => String::new(),
        };
        GetAddress { config_file }
    }

    /// On the first line of the configuration text `config` that the
    /// pattern `reg` (`(?m)^` and a literal) matches, the text without
    /// `replace`, trimmed.
    fn search_address_from_config(&self, reg: &str, replace: &str, config: &str) -> (r: String)
        requires
            replace@.len() > 0,
            crate::pattern::is_line_start_literal(reg@),
        ensures
            r@ == labelled_line_of(reg@.skip(5), replace@, config@),
    {
        labelled_line(reg, replace, config)
    }

    /// The QT leader's address: the `QT:` line of the configuration text.
    pub fn qt_leader_email(&self, config: &str) -> (r: String)
        ensures
            r@ == labelled_line_of("QT:"@, "QT:"@, config@),
    {
        proof {
            reveal_strlit("QT:");
            reveal_strlit("(?m)^QT:");
            reveal_strlit("(?m)^");
            assert("(?m)^QT:"@.skip(5) =~= "QT:"@);
            assert("(?m)^QT:"@.take(5) =~= "(?m)^"@);
        }
        self.search_address_from_config("(?m)^QT:", "QT:", config)
    }

    /// The BIOS QT leader's address: the `BIOS QT:` line of the
    /// configuration text.
    pub fn bios_qt_leader_email(&self, config: &str) -> (r: String)
        ensures
            r@ == labelled_line_of("BIOS QT:"@, "BIOS QT:"@, config@),
    {
        proof {
            reveal_strlit("BIOS QT:");
            reveal_strlit("(?m)^BIOS QT:");
            reveal_strlit("(?m)^");
            assert("(?m)^BIOS QT:"@.skip(5) =~= "BIOS QT:"@);
            assert("(?m)^BIOS QT:"@.take(5) =~= "(?m)^"@);
        }
        self.search_address_from_config("(?m)^BIOS QT:", "BIOS QT:", config)
    }
}

} // verus!
