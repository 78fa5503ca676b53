use vstd::prelude::*;
use crate::error::JanusError;

verus! {

/// Environment variables as written in the configuration, in order.
pub type EnvVars = Vec<(String, String)>;

/// Settings shared by every managed process.
pub struct GlobalConfig {
    pub working_dir: Option<String>,
    pub log_level: Option<String>,
    pub env: Option<EnvVars>,
}

impl Default for GlobalConfig {
    fn default() -> (r: Self)
        ensures
            r.working_dir is None,
            r.log_level matches Some(l) && l@ == "info"@,
            r.env matches Some(e) && e@.len() == 0,
    {
        GlobalConfig {
            working_dir: None,
            log_level: Some(String::from_str("info")),
            env: Some(Vec::new()),
        }
    }
}

/// One `[[process]]` block of the configuration.
pub struct ProcessConfig {
    pub name: String,
    pub command: String,
    pub args: Option<Vec<String>>,
    pub working_dir: Option<String>,
    pub env: Option<EnvVars>,
    pub auto_restart: Option<bool>,
    pub restart_limit: Option<u32>,
    pub restart_delay: Option<u64>,
}

/// A whole configuration file.
pub struct Config {
    pub global: GlobalConfig,
    pub process: Vec<ProcessConfig>,
}

/// Unicode's White_Space property: tab to carriage return, space, next line,
/// no-break space, ogham space mark, the spaces from en quad to hair space, line
/// and paragraph separators, narrow no-break space, medium mathematical space and
/// ideographic space.
pub open spec fn unicode_white_space(c: char) -> bool {
    let u = c as u32;
    (0x09 <= u <= 0x0D) || u == 0x20 || u == 0x85 || u == 0xA0 || u == 0x1680 || (0x2000 <= u
        <= 0x200A) || u == 0x2028 || u == 0x2029 || u == 0x202F || u == 0x205F || u == 0x3000
}

/// Whether `c` is whitespace in Unicode's sense.
pub fn char_is_whitespace(c: char) -> (r: bool)
    ensures
        r == unicode_white_space(c),
{
    let u = c as u32;
    (0x09 <= u && u <= 0x0D) || u == 0x20 || u == 0x85 || u == 0xA0 || u == 0x1680 || (0x2000 <= u
        && u <= 0x200A) || u == 0x2028 || u == 0x2029 || u == 0x202F || u == 0x205F || u == 0x3000
}

/// Nothing but whitespace (the empty string included).
pub open spec fn is_blank(s: Seq<char>) -> bool {
    forall|i: int| 0 <= i < s.len() ==> unicode_white_space(#[trigger] s[i])
}

/// Whether `s` is empty once surrounding whitespace is trimmed.
pub fn blank(s: &str) -> (r: bool)
    ensures
        r == is_blank(s@),
{
    let n = s.unicode_len();
    let mut i: usize = 0;
    while i < n
        invariant
            n == s@.len(),
            i <= n,
            forall|j: int| 0 <= j < i ==> unicode_white_space(#[trigger] s@[j]),
        decreases n - i,
    {
        if !char_is_whitespace(s.get_char(i)) {
            return false;
        }
        i = i + 1;
    }
    true
}

/// Process `i` repeats the name of an earlier one.
pub open spec fn duplicate_at(ps: Seq<ProcessConfig>, i: int) -> bool {
    exists|j: int| 0 <= j < i && (#[trigger] ps[j]).name@ == ps[i].name@
}

/// Process `i` is refused: a repeated name or a blank command.
pub open spec fn invalid_at(ps: Seq<ProcessConfig>, i: int) -> bool {
    duplicate_at(ps, i) || is_blank(ps[i].command@)
}

/// The text of the error for process `i`; a repeated name is reported first.
pub open spec fn invalid_text(ps: Seq<ProcessConfig>, i: int) -> Seq<char> {
    if duplicate_at(ps, i) {
        "Duplicate process name: "@ + ps[i].name@
    } else {
        "Empty command for process: "@ + ps[i].name@
    }
}

/// Every process is acceptable.
pub open spec fn valid_processes(ps: Seq<ProcessConfig>) -> bool {
    forall|i: int| 0 <= i < ps.len() ==> !invalid_at(ps, i)
}

/// `e` is the error for the first refused process of `ps`.
pub open spec fn invalid_error(ps: Seq<ProcessConfig>, e: JanusError) -> bool {
    exists|i: int|
        0 <= i < ps.len() && invalid_at(ps, i) && (forall|j: int| 0 <= j < i ==> !invalid_at(ps, j))
            && (e matches JanusError::Config(m) && m@ == invalid_text(ps, i))
}

/// The verdict on a list of processes: the first refused one decides the error.
pub open spec fn validation_result(ps: Seq<ProcessConfig>, r: Result<(), JanusError>) -> bool {
    match r {
        Ok(_) => valid_processes(ps),
        Err(e) => invalid_error(ps, e),
    }
}

/// Checks that names are unique and that commands are not blank.
pub fn validate_processes(ps: &Vec<ProcessConfig>) -> (r: Result<(), JanusError>)
    ensures
        validation_result(ps@, r),
{
    let mut i: usize = 0;
    while i < ps.len()
        invariant
            i <= ps@.len(),
            forall|j: int| 0 <= j < i ==> !invalid_at(ps@, j),
        decreases ps@.len() - i,
    {
        let mut k: usize = 0;
        while k < i
            invariant
                i < ps@.len(),
                k <= i,
                forall|j: int| 0 <= j < i ==> !invalid_at(ps@, j),
                forall|j: int| 0 <= j < k ==> ps@[j].name@ != ps@[i as int].name@,
            decreases i - k,
        {
            if ps[k].name == ps[i].name {
                proof {
                    assert(duplicate_at(ps@, i as int));
                }
                let m = String::from_str("Duplicate process name: ").concat(ps[i].name.as_str());
                assert(m@ == invalid_text(ps@, i as int));
                assert(invalid_at(ps@, i as int));
                return Err(JanusError::Config(m));
            }
            k = k + 1;
        }
        assert(!duplicate_at(ps@, i as int));
        if blank(ps[i].command.as_str()) {
            let m = String::from_str("Empty command for process: ").concat(ps[i].name.as_str());
            assert(m@ == invalid_text(ps@, i as int));
            assert(invalid_at(ps@, i as int));
            return Err(JanusError::Config(m));
        }
        i = i + 1;
    }
    Ok(())
}

/// Holds a configuration and the path it was read from.
pub struct ConfigManager {
    config_path: String,
    config: Config,
}

impl ConfigManager {
    pub closed spec fn path(&self) -> Seq<char> {
        self.config_path@
    }

    pub closed spec fn spec_config(&self) -> &Config {
        &self.config
    }

    /// A manager for `config`, read from `config_path`; the configuration is
    /// checked first.
    pub fn new(config_path: &str, config: Config) -> (r: Result<ConfigManager, JanusError>)
        ensures
            r is Ok <==> valid_processes(config.process@),
            r matches Err(e) ==> invalid_error(config.process@, e),
            r matches Ok(m) ==> m.path() == config_path@ && *m.spec_config() == config,
    {
        let manager = ConfigManager { config_path: String::from_str(config_path), config };
        match manager.validate() {
            Ok(()) => Ok(manager),
            Err(e) => Err(e),
        }
    }

    /// Checks `config` and, when it passes, puts it in place of the current one;
    /// a refused configuration leaves the current one as it was.
    pub fn reload(&mut self, config: Config) -> (r: Result<(), JanusError>)
        ensures
            final(self).path() == old(self).path(),
            validation_result(config.process@, r),
            r is Ok ==> *final(self).spec_config() == config,
            r is Err ==> *final(self).spec_config() == *old(self).spec_config(),
    {
        match validate_processes(&config.process) {
            Ok(()) => {
                self.config = config;
                Ok(())
            },
            Err(e) => Err(e),
        }
    }

    pub fn validate(&self) -> (r: Result<(), JanusError>)
        ensures
            validation_result(self.spec_config().process@, r),
    {
        validate_processes(&self.config.process)
    }

    pub fn get_process_configs(&self) -> (r: &[ProcessConfig])
        ensures
            r@ == self.spec_config().process@,
    {
        self.config.process.as_slice()
    }

    pub fn get_global_config(&self) -> (r: &GlobalConfig)
        ensures
            *r == self.spec_config().global,
    {
        &self.config.global
    }

    pub fn get_config_path(&self) -> (r: &str)
        ensures
            r@ == self.path(),
    {
        self.config_path.as_str()
    }
}

} // verus!
