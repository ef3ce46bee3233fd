//! State of the command-line client: its saved defaults and connection flag.

use vstd::prelude::*;
use vstd::string::StringExecFns;
use crate::topic::{
    first_segment, first_segment_of, has_prefix, lemma_first_segment_is_prefix, starts_with,
    str_equal, strings_view,
};

verus! {

/// The client's defaults.
#[derive(Clone, Debug)]
pub struct IndraClientConfig {
    pub uri: String,
    pub version: String,
    pub db_path: String,
    pub output_path: String,
    pub mode: String,
}

/// The client: whether it is connected, and its defaults.
#[derive(Clone, Debug)]
pub struct IndraCli {
    pub connected: bool,
    pub cfg: IndraClientConfig,
}

/// The defaults a client starts from when none are saved.
pub open spec fn is_builtin_config(c: IndraClientConfig) -> bool {
    &&& c.uri@ == ""@
    &&& c.version@ == ""@
    &&& c.db_path@ == ""@
    &&& c.output_path@ == "indra_backup.json"@
    &&& c.mode@ == "offline"@
}

/// The two configurations hold the same values.
pub open spec fn same_config(a: IndraClientConfig, b: IndraClientConfig) -> bool {
    &&& a.uri@ == b.uri@
    &&& a.version@ == b.version@
    &&& a.db_path@ == b.db_path@
    &&& a.output_path@ == b.output_path@
    &&& a.mode@ == b.mode@
}

/// The names of the defaults a user may set.
pub open spec fn is_setting(variable: Seq<char>) -> bool {
    variable == "uri"@ || variable == "version"@ || variable == "db_path"@ || variable
        == "output_path"@ || variable == "mode"@
}

impl IndraCli {
    /// A disconnected client with the saved defaults, or the built-in ones when
    /// none were saved.
    pub fn new(saved: Option<IndraClientConfig>) -> (r: IndraCli)
        ensures
            !r.connected,
            match saved {
                Some(c) => same_config(r.cfg, c),
                None => is_builtin_config(r.cfg),
            },
    {
        let cfg = match saved {
            Some(c) => c,
            None => IndraClientConfig {
                uri: String::from_str(""),
                version: String::from_str(""),
                db_path: String::from_str(""),
                output_path: String::from_str("indra_backup.json"),
                mode: String::from_str("offline"),
            },
        };
        IndraCli { connected: false, cfg }
    }

    /// Sets the default named `variable` to `value`; false, with nothing
    /// changed, when there is no such default.
    pub fn update_default(&mut self, variable: &str, value: &str) -> (r: bool)
        ensures
            r == is_setting(variable@),
            final(self).connected == old(self).connected,
            final(self).cfg.uri@ == (if variable@ == "uri"@ {
                value@
            } else {
                old(self).cfg.uri@
            }),
            final(self).cfg.version@ == (if variable@ == "version"@ {
                value@
            } else {
                old(self).cfg.version@
            }),
            final(self).cfg.db_path@ == (if variable@ == "db_path"@ {
                value@
            } else {
                old(self).cfg.db_path@
            }),
            final(self).cfg.output_path@ == (if variable@ == "output_path"@ {
                value@
            } else {
                old(self).cfg.output_path@
            }),
            final(self).cfg.mode@ == (if variable@ == "mode"@ {
                value@
            } else {
                old(self).cfg.mode@
            }),
    {
        proof {
            reveal_strlit("uri");
            reveal_strlit("version");
            reveal_strlit("db_path");
            reveal_strlit("output_path");
            reveal_strlit("mode");
            let names = seq!["uri"@, "version"@, "db_path"@, "output_path"@, "mode"@];
            assert("version"@[0] != "db_path"@[0]);
            assert forall|i: int, j: int| 0 <= i < j < 5 implies names[i] != names[j] by {
                if names[i].len() == names[j].len() {
                    assert(names[i][0] != names[j][0]);
                }
            }
            assert(names[0] != names[1] && names[0] != names[2] && names[0] != names[3]
                && names[0] != names[4] && names[1] != names[2] && names[1] != names[3]
                && names[1] != names[4] && names[2] != names[3] && names[2] != names[4]
                && names[3] != names[4]);
        }
        if str_equal(variable, "uri") {
            self.cfg.uri = String::from_str(value);
            true
        } else if str_equal(variable, "version") {
            self.cfg.version = String::from_str(value);
            true
        } else if str_equal(variable, "db_path") {
            self.cfg.db_path = String::from_str(value);
            true
        } else if str_equal(variable, "output_path") {
            self.cfg.output_path = String::from_str(value);
            true
        } else if str_equal(variable, "mode") {
            self.cfg.mode = String::from_str(value);
            true
        } else {
            false
        }
    }

    /// Marks the client connected to `uri`, which becomes the default.
    pub fn connect(&mut self, uri: &str)
        ensures
            final(self).connected,
            final(self).cfg.uri@ == uri@,
            final(self).cfg.version@ == old(self).cfg.version@,
            final(self).cfg.db_path@ == old(self).cfg.db_path@,
            final(self).cfg.output_path@ == old(self).cfg.output_path@,
            final(self).cfg.mode@ == old(self).cfg.mode@,
    {
        self.connected = true;
        self.cfg.uri = String::from_str(uri);
    }

    /// Marks the client disconnected.
    pub fn disconnect(&mut self)
        ensures
            !final(self).connected,
            same_config(final(self).cfg, old(self).cfg),
    {
        self.connected = false;
    }
}

/// A command of the client, read from its words.
#[derive(Clone, Debug)]
pub enum CliCommand {
    /// `connect` alone: connect to the default address.
    Connect,
    /// `connect` with arguments, which it does not take.
    ConnectUsage,
    Disconnect,
    /// Back up the database `input` of schema `version` to the file `output`.
    Backup { version: String, input: String, output: String },
    /// Restore the file `input` of schema `version` into the database `output`.
    Restore { version: String, output: String, input: String },
    State,
    Help,
    Exit,
    /// `<variable>=<value>`: set a default.
    SetDefault { variable: String, value: String },
    Invalid,
}

/// The value of the last option word (after the command word) that begins with
/// `prefix`, without the prefix; `default` when there is none.
pub open spec fn option_value(words: Seq<Seq<char>>, prefix: Seq<char>, default: Seq<char>) -> Seq<
    char,
>
    decreases words.len(),
{
    if words.len() <= 1 {
        default
    } else if starts_with(words.last(), prefix) {
        words.last().skip(prefix.len() as int)
    } else {
        option_value(words.drop_last(), prefix, default)
    }
}

/// Whether `w` holds an `=`.
pub open spec fn has_equals(w: Seq<char>) -> bool {
    exists|i: int| 0 <= i < w.len() && w[i] == '='
}

/// What follows the first `=` of `w`.
pub open spec fn after_equals(w: Seq<char>) -> Seq<char> {
    w.skip(first_segment(w, '=').len() + 1int)
}

/// `r` is the command that the words `ws` spell, with `cfg` the defaults.
pub open spec fn is_command_of(ws: Seq<Seq<char>>, cfg: IndraClientConfig, r: CliCommand) -> bool {
    if ws.len() == 0 {
        r is Invalid
    } else {
        let w = ws[0];
        if w == "connect"@ {
            if ws.len() == 1 {
                r is Connect
            } else {
                r is ConnectUsage
            }
        } else if w == "disconnect"@ {
            r is Disconnect
        } else if w == "backup"@ {
            match r {
                CliCommand::Backup { version, input, output } => {
                    &&& version@ == option_value(ws, "version="@, cfg.version@)
                    &&& input@ == option_value(ws, "input="@, cfg.db_path@)
                    &&& output@ == option_value(ws, "output="@, cfg.output_path@)
                },
                _ => false,
            }
        } else if w == "restore"@ {
            match r {
                CliCommand::Restore { version, output, input } => {
                    &&& version@ == option_value(ws, "version="@, cfg.version@)
                    &&& output@ == option_value(ws, "output="@, cfg.db_path@)
                    &&& input@ == option_value(ws, "input="@, cfg.output_path@)
                },
                _ => false,
            }
        } else if w == "state"@ {
            r is State
        } else if w == "help"@ {
            r is Help
        } else if w == "exit"@ {
            r is Exit
        } else if has_equals(w) && first_segment(w, '=').len() > 0 && after_equals(w).len() > 0 {
            match r {
                CliCommand::SetDefault { variable, value } => {
                    &&& variable@ == first_segment(w, '=')
                    &&& value@ == after_equals(w)
                },
                _ => false,
            }
        } else {
            r is Invalid
        }
    }
}

/// The value of the last option word of `words` that begins with `prefix`.
fn find_option(words: &Vec<String>, prefix: &str, default: &String) -> (r: String)
    ensures
        r@ == option_value(strings_view(words@), prefix@, default@),
{
    let ghost ws = strings_view(words@);
    let mut cur = default.clone();
    if words.len() <= 1 {
        return cur;
    }
    let plen = prefix.unicode_len();
    let mut i: usize = 1;
    assert(ws.take(1).len() == 1);
    while i < words.len()
        invariant
            ws == strings_view(words@),
            ws.len() == words.len(),
            1 <= i <= words.len(),
            plen == prefix@.len(),
            cur@ == option_value(ws.take(i as int), prefix@, default@),
        decreases words.len() - i,
    {
        let w = words[i].as_str();
        assert(ws.take(i + 1).drop_last() =~= ws.take(i as int));
        assert(ws.take(i + 1).last() == w@);
        if has_prefix(w, prefix) {
            let n = w.unicode_len();
            cur = String::from_str(w.substring_char(plen, n));
            assert(cur@ =~= w@.skip(plen as int));
        }
        i = i + 1;
    }
    assert(ws.take(i as int) =~= ws);
    cur
}

impl IndraCli {
    /// Reads a command from its words (the input split at white space).
    pub fn parse_command(&self, words: &Vec<String>) -> (r: CliCommand)
        ensures
            is_command_of(strings_view(words@), self.cfg, r),
    {
        let ghost ws = strings_view(words@);
        if words.len() == 0 {
            return CliCommand::Invalid;
        }
        let w = words[0].as_str();
        assert(ws[0] == w@);
        if str_equal(w, "connect") {
            if words.len() == 1 {
                CliCommand::Connect
            } else {
                CliCommand::ConnectUsage
            }
        } else if str_equal(w, "disconnect") {
            CliCommand::Disconnect
        } else if str_equal(w, "backup") {
            CliCommand::Backup {
                version: find_option(words, "version=", &self.cfg.version),
                input: find_option(words, "input=", &self.cfg.db_path),
                output: find_option(words, "output=", &self.cfg.output_path),
            }
        } else if str_equal(w, "restore") {
            CliCommand::Restore {
                version: find_option(words, "version=", &self.cfg.version),
                output: find_option(words, "output=", &self.cfg.db_path),
                input: find_option(words, "input=", &self.cfg.output_path),
            }
        } else if str_equal(w, "state") {
            CliCommand::State
        } else if str_equal(w, "help") {
            CliCommand::Help
        } else if str_equal(w, "exit") {
            CliCommand::Exit
        } else {
            let variable = first_segment_of(w, '=');
            let vlen = variable.unicode_len();
            let n = w.unicode_len();
            proof {
                lemma_first_segment_is_prefix(w@, '=');
            }
            if vlen < n && vlen > 0 && vlen + 1 < n {
                let value = w.substring_char(vlen + 1, n);
                assert(w@[vlen as int] == '=');
                assert(value@ =~= after_equals(w@));
                CliCommand::SetDefault { variable: String::from_str(variable), value: String::from_str(value) }
            } else {
                proof {
                    if has_equals(w@) {
                        let i = choose|i: int| 0 <= i < w@.len() && w@[i] == '=';
                        assert(vlen <= i);
                    }
                }
                CliCommand::Invalid
            }
        }
    }
}

} // verus!
