//! The interpreter's settings, the alias table kept in them, and the
//! decisions of the `config` builtin. Reading and writing the settings file
//! is left to the caller.

use vstd::prelude::*;

use crate::text::same_text;

verus! {

/// Where log records go.
#[derive(PartialEq, Eq, Structural, Clone, Copy, Debug)]
pub struct LogConfig {
    pub write_to_file: bool,
    pub write_to_stdout: bool,
}

/// Command aliases: pairs of a command and its alias, one pair per command.
#[derive(Clone, Debug)]
pub struct TerminalConfig {
    pub alias: Vec<(String, String)>,
}

/// All settings.
#[derive(Clone, Debug)]
pub struct YamlConfiguration {
    pub logs_configurations: LogConfig,
    pub terminal_config: TerminalConfig,
}

impl Default for YamlConfiguration {
    /// The defaults: logs go to a file only, and no alias is set.
    fn default() -> (r: YamlConfiguration)
        ensures
            r.logs_configurations == (LogConfig { write_to_file: true, write_to_stdout: false }),
            r.terminal_config.alias@.len() == 0,
    {
        YamlConfiguration::default_config()
    }
}

/// The character views of alias pairs.
pub open spec fn pair_views(v: Seq<(String, String)>) -> Seq<(Seq<char>, Seq<char>)> {
    v.map_values(|e: (String, String)| (e.0@, e.1@))
}

/// Each command occurs in at most one pair.
pub open spec fn keys_unique(s: Seq<(Seq<char>, Seq<char>)>) -> bool {
    forall|i: int, j: int| 0 <= i < j < s.len() ==> (#[trigger] s[i]).0 != (#[trigger] s[j]).0
}

/// The alias recorded for `cmd`, if any.
pub open spec fn alias_of(s: Seq<(Seq<char>, Seq<char>)>, cmd: Seq<char>) -> Option<Seq<char>> {
    if exists|i: int| 0 <= i < s.len() && (#[trigger] s[i]).0 == cmd {
        let i = choose|i: int| 0 <= i < s.len() && (#[trigger] s[i]).0 == cmd;
        Some(s[i].1)
    } else {
        None
    }
}

impl YamlConfiguration {
    /// The defaults: logs go to a file only, and no alias is set.
    pub fn default_config() -> (r: YamlConfiguration)
        ensures
            r.logs_configurations == (LogConfig { write_to_file: true, write_to_stdout: false }),
            r.terminal_config.alias@.len() == 0,
    {
        YamlConfiguration {
            logs_configurations: LogConfig { write_to_file: true, write_to_stdout: false },
            terminal_config: TerminalConfig { alias: Vec::new() },
        }
    }

    /// The alias pairs as character sequences.
    pub open spec fn aliases(&self) -> Seq<(Seq<char>, Seq<char>)> {
        pair_views(self.terminal_config.alias@)
    }

    /// Whether each command has at most one alias pair.
    pub fn aliases_unique(&self) -> (r: bool)
        ensures
            r == keys_unique(self.aliases()),
    {
        let v = &self.terminal_config.alias;
        let ghost s = self.aliases();
        let mut j: usize = 1;
        while j < v.len()
            invariant
                s == pair_views(v@),
                s == self.aliases(),
                s.len() == v@.len(),
                1 <= j,
                j <= v@.len() || v@.len() == 0,
                forall|a: int, b: int| 0 <= a < b < j && b < s.len() ==> (#[trigger] s[a]).0 != (
                #[trigger] s[b]).0,
            decreases v@.len() - j,
        {
            let mut i: usize = 0;
            while i < j
                invariant
                    s == pair_views(v@),
                    s == self.aliases(),
                    i <= j < v@.len(),
                    forall|a: int| 0 <= a < i ==> (#[trigger] s[a]).0 != s[j as int].0,
                decreases j - i,
            {
                if same_text(v[i].0.as_str(), v[j].0.as_str()) {
                    proof {
                        assert(s[i as int].0 == s[j as int].0);
                        assert(!keys_unique(s));
                    }
                    return false;
                }
                i = i + 1;
            }
            proof {
                assert forall|a: int, b: int| 0 <= a < b < j + 1 && b < s.len() implies (
                #[trigger] s[a]).0 != (#[trigger] s[b]).0 by {
                    if b == j {
                        assert(s[a].0 != s[j as int].0);
                    }
                }
            }
            j = j + 1;
        }
        proof {
            assert forall|a: int, b: int| 0 <= a < b < s.len() implies (#[trigger] s[a]).0 != (
            #[trigger] s[b]).0 by {
                assert(b < j);
            }
        }
        true
    }
}

/// The settings as seen from the scripting extension, which can set aliases.
#[derive(Clone, Debug)]
pub struct Alias {
    pub config: YamlConfiguration,
}

impl Alias {
    /// Wraps the settings loaded by the caller.
    pub fn new(config: YamlConfiguration) -> (r: Alias)
        ensures
            r.config == config,
    {
        Alias { config }
    }

    /// Sets the alias of `cmd` to `alias`, replacing an earlier one; the
    /// aliases of other commands are kept.
    pub fn set_alias(&mut self, cmd: &str, alias: &str)
        requires
            keys_unique(old(self).config.aliases()),
        ensures
            keys_unique(final(self).config.aliases()),
            alias_of(final(self).config.aliases(), cmd@) == Some(alias@),
            forall|c: Seq<char>|
                c != cmd@ ==> alias_of(final(self).config.aliases(), c) == alias_of(
                    old(self).config.aliases(),
                    c,
                ),
            final(self).config.logs_configurations == old(self).config.logs_configurations,
    {
        let ghost s0 = self.config.aliases();
        let n = self.config.terminal_config.alias.len();
        let mut i: usize = 0;
        let mut found = false;
        while i < n && !found
            invariant
                n == self.config.terminal_config.alias@.len(),
                s0 == self.config.aliases(),
                i <= n,
                found ==> i < n && s0[i as int].0 == cmd@,
                !found ==> forall|k: int| 0 <= k < i ==> (#[trigger] s0[k]).0 != cmd@,
            decreases n - i + (if found { 0int } else { 1int }),
        {
            if same_text(self.config.terminal_config.alias[i].0.as_str(), cmd) {
                found = true;
            } else {
                i = i + 1;
            }
        }
        let entry = (cmd.to_owned(), alias.to_owned());
        if found {
            self.config.terminal_config.alias.set(i, entry);
            proof {
                let s1 = self.config.aliases();
                assert(s1 =~= s0.update(i as int, (cmd@, alias@)));
                assert(s0[i as int].0 == cmd@);
                assert(s1[i as int].0 == cmd@);
                assert forall|c: Seq<char>| c != cmd@ implies alias_of(s1, c) == alias_of(s0, c) by {
                    if exists|k: int| 0 <= k < s0.len() && (#[trigger] s0[k]).0 == c {
                        let k = choose|k: int| 0 <= k < s0.len() && (#[trigger] s0[k]).0 == c;
                        assert(s1[k].0 == c);
                    }
                    if exists|k: int| 0 <= k < s1.len() && (#[trigger] s1[k]).0 == c {
                        let k = choose|k: int| 0 <= k < s1.len() && (#[trigger] s1[k]).0 == c;
                        assert(s0[k].0 == c);
                    }
                }
            }
        } else {
            self.config.terminal_config.alias.push(entry);
            proof {
                let s1 = self.config.aliases();
                assert(s1 =~= s0.push((cmd@, alias@)));
                assert(s1[n as int].0 == cmd@);
                assert forall|c: Seq<char>| c != cmd@ implies alias_of(s1, c) == alias_of(s0, c) by {
                    if exists|k: int| 0 <= k < s0.len() && (#[trigger] s0[k]).0 == c {
                        let k = choose|k: int| 0 <= k < s0.len() && (#[trigger] s0[k]).0 == c;
                        assert(s1[k].0 == c);
                    }
                    if exists|k: int| 0 <= k < s1.len() && (#[trigger] s1[k]).0 == c {
                        let k = choose|k: int| 0 <= k < s1.len() && (#[trigger] s1[k]).0 == c;
                        assert(s0[k].0 == c);
                    }
                }
            }
        }
    }
}

/// A setting that the `config` builtin reads and writes.
#[derive(PartialEq, Eq, Structural, Clone, Copy, Debug)]
pub enum LogField {
    WriteToFile,
    WriteToStdout,
}

/// Why a `config` request names no setting or gives no usable value.
#[derive(PartialEq, Eq, Structural, Clone, Copy, Debug)]
pub enum ConfigError {
    NoSuchSection,
    NoSuchField,
    NotAFlag,
}

/// The setting named by `section` and `field`.
pub open spec fn field_spec(section: Seq<char>, field: Seq<char>) -> Result<LogField, ConfigError> {
    if section != "logs_configurations"@ {
        Err(ConfigError::NoSuchSection)
    } else if field == "write_to_file"@ {
        Ok(LogField::WriteToFile)
    } else if field == "write_to_stdout"@ {
        Ok(LogField::WriteToStdout)
    } else {
        Err(ConfigError::NoSuchField)
    }
}

/// The flag that `v` spells: exactly `true` or `false`.
pub open spec fn flag_spec(v: Seq<char>) -> Option<bool> {
    if v == "true"@ {
        Some(true)
    } else if v == "false"@ {
        Some(false)
    } else {
        None
    }
}

impl LogConfig {
    /// The value of the setting `f`.
    pub fn get(&self, f: LogField) -> (r: bool)
        ensures
            f == LogField::WriteToFile ==> r == self.write_to_file,
            f == LogField::WriteToStdout ==> r == self.write_to_stdout,
    {
        match f {
            LogField::WriteToFile => self.write_to_file,
            LogField::WriteToStdout => self.write_to_stdout,
        }
    }

    /// Sets the setting `f` to `v`, keeping the other.
    pub fn set(&mut self, f: LogField, v: bool)
        ensures
            f == LogField::WriteToFile ==> *final(self) == (LogConfig {
                write_to_file: v,
                ..*old(self)
            }),
            f == LogField::WriteToStdout ==> *final(self) == (LogConfig {
                write_to_stdout: v,
                ..*old(self)
            }),
    {
        match f {
            LogField::WriteToFile => self.write_to_file = v,
            LogField::WriteToStdout => self.write_to_stdout = v,
        }
    }
}

/// The builtin commands' decisions.
pub struct Builtin {}

impl Builtin {
    /// The setting that a `config` request names: the section is checked
    /// before the field.
    pub fn config_field(section: &str, field: &str) -> (r: Result<LogField, ConfigError>)
        ensures
            r == field_spec(section@, field@),
    {
        proof {
            reveal_strlit("logs_configurations");
            reveal_strlit("write_to_file");
            reveal_strlit("write_to_stdout");
        }
        if !same_text(section, "logs_configurations") {
            Err(ConfigError::NoSuchSection)
        } else if same_text(field, "write_to_file") {
            Ok(LogField::WriteToFile)
        } else if same_text(field, "write_to_stdout") {
            Ok(LogField::WriteToStdout)
        } else {
            Err(ConfigError::NoSuchField)
        }
    }

    /// Reads a flag value: `true` or `false`, and nothing else.
    pub fn parse_flag(v: &str) -> (r: Result<bool, ConfigError>)
        ensures
            flag_spec(v@) is Some ==> r == Ok::<bool, ConfigError>(flag_spec(v@)->Some_0),
            flag_spec(v@) is None ==> r == Err::<bool, ConfigError>(ConfigError::NotAFlag),
    {
        proof {
            reveal_strlit("true");
            reveal_strlit("false");
        }
        if same_text(v, "true") {
            Ok(true)
        } else if same_text(v, "false") {
            Ok(false)
        } else {
            Err(ConfigError::NotAFlag)
        }
    }

    /// Applies `config --set section field value` to `config`; on an error
    /// the settings are left as they were.
    pub fn config_set(config: &mut LogConfig, section: &str, field: &str, value: &str) -> (r: Result<(), ConfigError>)
        ensures
            field_spec(section@, field@) is Err ==> r == Err::<(), ConfigError>(
                field_spec(section@, field@)->Err_0,
            ) && *final(config) == *old(config),
            field_spec(section@, field@) is Ok && flag_spec(value@) is None ==> r == Err::<
                (),
                ConfigError,
            >(ConfigError::NotAFlag) && *final(config) == *old(config),
            field_spec(section@, field@) == Ok::<LogField, ConfigError>(LogField::WriteToFile)
                && flag_spec(value@) is Some ==> r is Ok && *final(config) == (LogConfig {
                write_to_file: flag_spec(value@)->Some_0,
                ..*old(config)
            }),
            field_spec(section@, field@) == Ok::<LogField, ConfigError>(LogField::WriteToStdout)
                && flag_spec(value@) is Some ==> r is Ok && *final(config) == (LogConfig {
                write_to_stdout: flag_spec(value@)->Some_0,
                ..*old(config)
            }),
    {
        let f = match Builtin::config_field(section, field) {
            Ok(f) => f,
            Err(e) => return Err(e),
        };
        let b = match Builtin::parse_flag(value) {
            Ok(b) => b,
            Err(e) => return Err(e),
        };
        config.set(f, b);
        Ok(())
    }
}

} // verus!
