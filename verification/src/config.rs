//! The launcher's user configuration (`config.json`): its defaults, how it is
//! read from and written to JSON, and the `"<width>x<height>"` resolution.
use vstd::prelude::*;
use crate::text::{
    chars_of, count_char, first_index, int_decimal, parse_i32_range, parse_i32_s, push_int_decimal,
    push_str, string_push, to_owned_string, trim_bounds, trim_s, concat2, is_digit, is_ws,
    trim_start_s, trim_end_s, nat_decimal, lemma_parse_int_decimal, lemma_nat_decimal_digits, lemma_int_decimal_chars,
    lemma_count_concat, lemma_count_pos, lemma_first_index_props, lemma_split_once, lemma_first_index_at,
};
use crate::json::{
    Json, JsonV, jv_index, jv_as_i32, jv_as_str, jv_as_bool, jv_i32, jv_str, parse_json,
    spec_json_parse, stringify_pretty, spec_json_stringify_pretty, find_entry, jv_entries, spec_json_flat_object,
    lemma_find_entry_at,
};

verus! {

/// A window size, `"<width>x<height>"` in text.
#[derive(Clone, Copy, Debug, PartialEq, Eq)]
pub struct Size {
    pub x: i32,
    pub y: i32,
}

/// Why a resolution text was refused.
#[derive(Clone, Copy, Debug, PartialEq, Eq, Structural)]
pub enum SizeError {
    /// The text does not split around exactly one `x`.
    Format,
    /// The part before the `x` is no `i32`.
    InvalidX,
    /// The part after the `x` is no `i32`.
    InvalidY,
}

impl SizeError {
    /// The message that the launcher shows for the error.
    pub fn message(&self) -> (res: &'static str)
        ensures
            match self {
                SizeError::Format => res@ == "expected 'XxY' format"@,
                SizeError::InvalidX => res@ == "invalid x"@,
                SizeError::InvalidY => res@ == "invalid y"@,
            },
    {
        match self {
            SizeError::Format => "expected 'XxY' format",
            SizeError::InvalidX => "invalid x",
            SizeError::InvalidY => "invalid y",
        }
    }
}

/// The size that `s` denotes: it splits around its single `x`, and each side,
/// trimmed of white space, is an `i32`.
pub open spec fn spec_size_from_str(s: Seq<char>) -> Result<(int, int), SizeError> {
    if count_char(s, 'x') != 1 {
        Err(SizeError::Format)
    } else {
        let p = first_index(s, 'x');
        match parse_i32_s(trim_s(s.take(p))) {
            None => Err(SizeError::InvalidX),
            Some(x) => match parse_i32_s(trim_s(s.skip(p + 1))) {
                None => Err(SizeError::InvalidY),
                Some(y) => Ok((x as int, y as int)),
            },
        }
    }
}

/// The text of a size, `"{x}x{y}"`.
pub open spec fn spec_size_text(x: int, y: int) -> Seq<char> {
    int_decimal(x) + seq!['x'] + int_decimal(y)
}

impl Size {
    /// Reads `"<width>x<height>"`.
    pub fn from_str(s: &str) -> (res: Result<Size, SizeError>)
        ensures
            match res {
                Ok(sz) => spec_size_from_str(s@) == Ok::<(int, int), SizeError>((sz.x as int, sz.y as int)),
                Err(e) => spec_size_from_str(s@) == Err::<(int, int), SizeError>(e),
            },
    {
        let v = chars_of(s);
        let mut count: usize = 0;
        let mut pos: usize = v.len();
        let mut i: usize = 0;
        while i < v.len()
            invariant
                v@ == s@,
                i <= v.len(),
                count == count_char(v@.take(i as int), 'x'),
                count <= i,
                pos <= v.len(),
                pos == v.len() ==> forall|k: int| 0 <= k < i ==> v@[k] != 'x',
                pos < v.len() ==> pos < i && v@[pos as int] == 'x' && forall|k: int|
                    0 <= k < pos ==> v@[k] != 'x',
            decreases v.len() - i,
        {
            proof {
                let t = v@.take(i + 1);
                assert(t.drop_last() == v@.take(i as int));
                assert(t.last() == v@[i as int]);
            }
            if v[i] == 'x' {
                count = count + 1;
                if pos == v.len() {
                    pos = i;
                }
            }
            i = i + 1;
        }
        proof {
            assert(v@.take(v@.len() as int) == v@);
            lemma_first_index_at(v@, 'x', pos as int);
        }
        if count != 1 {
            return Err(SizeError::Format);
        }
        proof {
            lemma_split_once(v@, 'x');
        }
        let (a, b) = trim_bounds(&v, 0, pos);
        assert(v@.subrange(0, pos as int) == v@.take(pos as int));
        let x = match parse_i32_range(&v, a, b) {
            Some(x) => x,
            None => {
                return Err(SizeError::InvalidX);
            },
        };
        let (c, d) = trim_bounds(&v, pos + 1, v.len());
        assert(v@.subrange(pos + 1, v@.len() as int) == v@.skip(pos + 1));
        let y = match parse_i32_range(&v, c, d) {
            Some(y) => y,
            None => {
                return Err(SizeError::InvalidY);
            },
        };
        Ok(Size { x, y })
    }

    /// The text of the size, `"{x}x{y}"`.
    pub fn to_text(&self) -> (res: String)
        ensures
            res@ == spec_size_text(self.x as int, self.y as int),
    {
        let mut out = String::new();
        push_int_decimal(&mut out, self.x as i64);
        string_push(&mut out, 'x');
        push_int_decimal(&mut out, self.y as i64);
        out
    }
}

/// Trimming leaves a decimal representation as it is.
proof fn lemma_trim_decimal(v: int)
    ensures
        trim_s(int_decimal(v)) == int_decimal(v),
{
    lemma_parse_int_decimal(v);
    let s = int_decimal(v);
    if v < 0 {
        lemma_nat_decimal_digits((-v) as nat);
    } else {
        lemma_nat_decimal_digits(v as nat);
    }
    assert(s.len() > 0);
    if v < 0 {
        assert(s[0] == '-');
        assert(s.drop_first() == nat_decimal((-v) as nat));
        assert(is_digit(s.drop_first()[s.len() - 2]));
        assert(s.last() == s.drop_first()[s.len() - 2]);
    } else {
        assert(is_digit(s[0]));
        assert(is_digit(s.last()));
    }
    assert(!is_ws(s[0]));
    assert(trim_start_s(s) == s);
    assert(!is_ws(s.last()));
    assert(trim_end_s(s) == s);
}

/// Reading the text of a size gives the size back.
pub proof fn lemma_size_text_roundtrip(x: i32, y: i32)
    ensures
        spec_size_from_str(spec_size_text(x as int, y as int)) == Ok::<(int, int), SizeError>((x as int, y as int)),
{
    let a = int_decimal(x as int);
    let b = int_decimal(y as int);
    let s = spec_size_text(x as int, y as int);
    lemma_int_decimal_chars(x as int, 'x');
    lemma_int_decimal_chars(y as int, 'x');
    lemma_count_concat(a + seq!['x'], b, 'x');
    lemma_count_concat(a, seq!['x'], 'x');
    assert(seq!['x'].drop_last() == Seq::<char>::empty());
    assert(count_char(Seq::<char>::empty(), 'x') == 0);
    assert(count_char(seq!['x'], 'x') == 1);
    assert(count_char(s, 'x') == 1);
    lemma_first_index_props(a, 'x');
    if first_index(a, 'x') < a.len() {
        lemma_split_once(a, 'x');
    }
    assert forall|k: int| 0 <= k < a.len() implies s[k] != 'x' by {
        assert(s[k] == a[k]);
        if a[k] == 'x' {
            lemma_count_pos(a, 'x', k);
        }
    }
    lemma_first_index_at(s, 'x', a.len() as int);
    assert(s.take(a.len() as int) == a);
    assert(s.skip(a.len() as int + 1) == b);
    lemma_trim_decimal(x as int);
    lemma_trim_decimal(y as int);
    lemma_parse_int_decimal(x as int);
    lemma_parse_int_decimal(y as int);
}

} // verus!

verus! {

/// Why a configuration could not be read.
#[derive(Clone, Copy, Debug, PartialEq, Eq, Structural)]
pub enum ConfigError {
    /// The text is no JSON document.
    Syntax,
    /// A member is missing or of the wrong type ("Wrong json").
    WrongType,
    /// The resolution text is refused.
    Resolution(SizeError),
}

/// The launcher's user configuration.
#[derive(Debug)]
pub struct Config {
    pub ram_allocation_mb: i32,
    pub resolution: Size,
    pub fullscreen: bool,
    pub branch: String,
    pub jvm_args: String,
    pub close_on_launch: bool,
    pub game_dir: String,
    pub cache_dir: String,
    pub jdk_dir: String,
}

/// The mathematical value of a configuration.
pub ghost struct ConfigV {
    pub ram_allocation_mb: int,
    pub width: int,
    pub height: int,
    pub fullscreen: bool,
    pub branch: Seq<char>,
    pub jvm_args: Seq<char>,
    pub close_on_launch: bool,
    pub game_dir: Seq<char>,
    pub cache_dir: Seq<char>,
    pub jdk_dir: Seq<char>,
}

impl View for Config {
    type V = ConfigV;

    open spec fn view(&self) -> ConfigV {
        ConfigV {
            ram_allocation_mb: self.ram_allocation_mb as int,
            width: self.resolution.x as int,
            height: self.resolution.y as int,
            fullscreen: self.fullscreen,
            branch: self.branch@,
            jvm_args: self.jvm_args@,
            close_on_launch: self.close_on_launch,
            game_dir: self.game_dir@,
            cache_dir: self.cache_dir@,
            jdk_dir: self.jdk_dir@,
        }
    }
}

/// The JSON document of a configuration, members in this order.
pub open spec fn spec_config_to_json(c: ConfigV) -> JsonV {
    JsonV::Object(
        seq![
            ("ram_allocation_mb"@, jv_i32(c.ram_allocation_mb)),
            ("resolution"@, jv_str(spec_size_text(c.width, c.height))),
            ("fullscreen"@, JsonV::Bool(c.fullscreen)),
            ("branch"@, jv_str(c.branch)),
            ("jvm_args"@, jv_str(c.jvm_args)),
            ("close_on_launch"@, JsonV::Bool(c.close_on_launch)),
            ("game_dir"@, jv_str(c.game_dir)),
            ("cache_dir"@, jv_str(c.cache_dir)),
            ("jdk_dir"@, jv_str(c.jdk_dir)),
        ],
    )
}

/// The configuration that a JSON document holds: each member read in turn,
/// the first one missing or of the wrong type giving the error.
pub open spec fn spec_config_from_json(j: JsonV) -> Result<ConfigV, ConfigError> {
    match jv_as_i32(jv_index(j, "ram_allocation_mb"@)) {
        None => Err(ConfigError::WrongType),
        Some(ram) => match jv_as_str(jv_index(j, "resolution"@)) {
            None => Err(ConfigError::WrongType),
            Some(rs) => match spec_size_from_str(rs) {
                Err(e) => Err(ConfigError::Resolution(e)),
                Ok((w, h)) => match jv_as_bool(jv_index(j, "fullscreen"@)) {
                    None => Err(ConfigError::WrongType),
                    Some(fullscreen) => match jv_as_str(jv_index(j, "branch"@)) {
                        None => Err(ConfigError::WrongType),
                        Some(branch) => match jv_as_str(jv_index(j, "jvm_args"@)) {
                            None => Err(ConfigError::WrongType),
                            Some(jvm_args) => match jv_as_bool(jv_index(j, "close_on_launch"@)) {
                                None => Err(ConfigError::WrongType),
                                Some(close_on_launch) => match jv_as_str(jv_index(j, "game_dir"@)) {
                                    None => Err(ConfigError::WrongType),
                                    Some(game_dir) => match jv_as_str(jv_index(j, "cache_dir"@)) {
                                        None => Err(ConfigError::WrongType),
                                        Some(cache_dir) => match jv_as_str(jv_index(j, "jdk_dir"@)) {
                                            None => Err(ConfigError::WrongType),
                                            Some(jdk_dir) => Ok(ConfigV {
                                                ram_allocation_mb: ram,
                                                width: w,
                                                height: h,
                                                fullscreen,
                                                branch,
                                                jvm_args,
                                                close_on_launch,
                                                game_dir,
                                                cache_dir,
                                                jdk_dir,
                                            }),
                                        },
                                    },
                                },
                            },
                        },
                    },
                },
            },
        },
    }
}

/// The default configuration for the given data and cache directories.
pub open spec fn spec_default_config(data_dir: Seq<char>, cache_dir: Seq<char>) -> ConfigV {
    ConfigV {
        ram_allocation_mb: 3072,
        width: 854,
        height: 480,
        fullscreen: false,
        branch: "master"@,
        jvm_args: ""@,
        close_on_launch: false,
        game_dir: data_dir + "/dystellar"@,
        cache_dir: cache_dir + "/dyst"@,
        jdk_dir: data_dir + "/jdk"@,
    }
}

/// The text of a string member, or the error.
fn str_member(j: &Json, key: &str) -> (res: Result<String, ConfigError>)
    ensures
        match res {
            Ok(s) => jv_as_str(jv_index(j@, key@)) == Some(s@),
            Err(e) => e == ConfigError::WrongType && jv_as_str(jv_index(j@, key@)) is None,
        },
{
    match j.field(key) {
        Some(v) => match v.as_str() {
            Some(s) => Ok(s),
            None => Err(ConfigError::WrongType),
        },
        None => Err(ConfigError::WrongType),
    }
}

/// The value of a boolean member, or the error.
fn bool_member(j: &Json, key: &str) -> (res: Result<bool, ConfigError>)
    ensures
        match res {
            Ok(b) => jv_as_bool(jv_index(j@, key@)) == Some(b),
            Err(e) => e == ConfigError::WrongType && jv_as_bool(jv_index(j@, key@)) is None,
        },
{
    match j.field(key) {
        Some(v) => match v.as_bool() {
            Some(b) => Ok(b),
            None => Err(ConfigError::WrongType),
        },
        None => Err(ConfigError::WrongType),
    }
}

impl Config {
    /// The default configuration, its directories under `data_dir` and
    /// `cache_dir` (this user's data and cache directories).
    pub fn default(data_dir: &str, cache_dir: &str) -> (res: Config)
        ensures
            res@ == spec_default_config(data_dir@, cache_dir@),
    {
        Config {
            ram_allocation_mb: 3072,
            resolution: Size { x: 854, y: 480 },
            fullscreen: false,
            branch: to_owned_string("master"),
            jvm_args: to_owned_string(""),
            close_on_launch: false,
            game_dir: concat2(data_dir, "/dystellar"),
            cache_dir: concat2(cache_dir, "/dyst"),
            jdk_dir: concat2(data_dir, "/jdk"),
        }
    }

    /// Reads a configuration from its JSON document.
    pub fn from_json(j: &Json) -> (res: Result<Config, ConfigError>)
        ensures
            match res {
                Ok(c) => spec_config_from_json(j@) == Ok::<ConfigV, ConfigError>(c@),
                Err(e) => spec_config_from_json(j@) == Err::<ConfigV, ConfigError>(e),
            },
    {
        let ram = match j.field("ram_allocation_mb") {
            Some(v) => match v.as_i32() {
                Some(r) => r,
                None => {
                    return Err(ConfigError::WrongType);
                },
            },
            None => {
                return Err(ConfigError::WrongType);
            },
        };
        let rs = str_member(j, "resolution")?;
        let resolution = match Size::from_str(rs.as_str()) {
            Ok(s) => s,
            Err(e) => {
                return Err(ConfigError::Resolution(e));
            },
        };
        let fullscreen = bool_member(j, "fullscreen")?;
        let branch = str_member(j, "branch")?;
        let jvm_args = str_member(j, "jvm_args")?;
        let close_on_launch = bool_member(j, "close_on_launch")?;
        let game_dir = str_member(j, "game_dir")?;
        let cache_dir = str_member(j, "cache_dir")?;
        let jdk_dir = str_member(j, "jdk_dir")?;
        Ok(Config {
            ram_allocation_mb: ram,
            resolution,
            fullscreen,
            branch,
            jvm_args,
            close_on_launch,
            game_dir,
            cache_dir,
            jdk_dir,
        })
    }

    /// The JSON document of the configuration, members in the order of
    /// `spec_config_to_json`.
    pub fn to_json(&self) -> (res: Json)
        ensures
            res@ == spec_config_to_json(self@),
    {
        let v0 = Json::from_i32(self.ram_allocation_mb);
        let v1 = Json::Str(self.resolution.to_text());
        let v2 = Json::Bool(self.fullscreen);
        let v3 = Json::from_str_value(self.branch.as_str());
        let v4 = Json::from_str_value(self.jvm_args.as_str());
        let v5 = Json::Bool(self.close_on_launch);
        let v6 = Json::from_str_value(self.game_dir.as_str());
        let v7 = Json::from_str_value(self.cache_dir.as_str());
        let v8 = Json::from_str_value(self.jdk_dir.as_str());
        assert(v1@ == jv_str(spec_size_text(self.resolution.x as int, self.resolution.y as int)));
        assert(v2@ == JsonV::Bool(self.fullscreen));
        assert(v5@ == JsonV::Bool(self.close_on_launch));
        let mut es: Vec<(String, Json)> = Vec::new();
        es.push((to_owned_string("ram_allocation_mb"), v0));
        es.push((to_owned_string("resolution"), v1));
        es.push((to_owned_string("fullscreen"), v2));
        es.push((to_owned_string("branch"), v3));
        es.push((to_owned_string("jvm_args"), v4));
        es.push((to_owned_string("close_on_launch"), v5));
        es.push((to_owned_string("game_dir"), v6));
        es.push((to_owned_string("cache_dir"), v7));
        es.push((to_owned_string("jdk_dir"), v8));
        let res = Json::Object(es);
        assert(jv_entries(res@) =~= jv_entries(spec_config_to_json(self@)));
        res
    }

    /// Reads a configuration from the text of `config.json`.
    pub fn load(text: &str) -> (res: Result<Config, ConfigError>)
        ensures
            match res {
                Ok(c) => spec_config_load(text@) == Ok::<ConfigV, ConfigError>(c@),
                Err(e) => spec_config_load(text@) == Err::<ConfigV, ConfigError>(e),
            },
    {
        match parse_json(text) {
            Ok(j) => Config::from_json(&j),
            Err(_) => Err(ConfigError::Syntax),
        }
    }

    /// The text of `config.json`: the JSON document, pretty-printed with an
    /// indent of two spaces. Loading that text gives this configuration back.
    pub fn to_json_text(&self) -> (res: String)
        ensures
            res@ == spec_json_stringify_pretty(spec_config_to_json(self@), 2),
            spec_config_load(res@) == Ok::<ConfigV, ConfigError>(self@),
    {
        let j = self.to_json();
        proof {
            lemma_config_json_flat(*self);
            lemma_config_json_roundtrip(*self);
        }
        stringify_pretty(&j, 2)
    }
}

/// The configuration that the text of `config.json` holds.
pub open spec fn spec_config_load(text: Seq<char>) -> Result<ConfigV, ConfigError> {
    match spec_json_parse(text) {
        Err(_) => Err(ConfigError::Syntax),
        Ok(j) => spec_config_from_json(j),
    }
}

/// The JSON document of a configuration is a flat object: its keys are
/// distinct and its values plain scalars.
proof fn lemma_config_json_flat(c: Config)
    ensures
        spec_json_flat_object(spec_config_to_json(c@)),
{
    reveal_strlit("ram_allocation_mb");
    reveal_strlit("resolution");
    reveal_strlit("fullscreen");
    reveal_strlit("branch");
    reveal_strlit("jvm_args");
    reveal_strlit("close_on_launch");
    reveal_strlit("game_dir");
    reveal_strlit("cache_dir");
    reveal_strlit("jdk_dir");
    let es = jv_entries(spec_config_to_json(c@));
    assert("ram_allocation_mb"@.len() == 17);
    assert("resolution"@.len() == 10 && "resolution"@[0] == 'r');
    assert("fullscreen"@.len() == 10 && "fullscreen"@[0] == 'f');
    assert("branch"@.len() == 6);
    assert("jvm_args"@.len() == 8 && "jvm_args"@[0] == 'j');
    assert("close_on_launch"@.len() == 15);
    assert("game_dir"@.len() == 8 && "game_dir"@[0] == 'g');
    assert("cache_dir"@.len() == 9);
    assert("jdk_dir"@.len() == 7);
    assert forall|a: int, b: int| 0 <= a < b < es.len() implies #[trigger] es[a].0 != #[trigger] es[b].0 by {
        if es[a].0.len() == es[b].0.len() {
            assert(es[a].0[0] != es[b].0[0]);
        }
    }
}

/// Writing a configuration to JSON and reading it back gives the same
/// configuration.
pub proof fn lemma_config_json_roundtrip(c: Config)
    ensures
        spec_config_from_json(spec_config_to_json(c@)) == Ok::<ConfigV, ConfigError>(c@),
{
    reveal_strlit("ram_allocation_mb");
    reveal_strlit("resolution");
    reveal_strlit("fullscreen");
    reveal_strlit("branch");
    reveal_strlit("jvm_args");
    reveal_strlit("close_on_launch");
    reveal_strlit("game_dir");
    reveal_strlit("cache_dir");
    reveal_strlit("jdk_dir");
    lemma_size_text_roundtrip(c.resolution.x, c.resolution.y);
    let j = spec_config_to_json(c@);
    let es = jv_entries(j);
    assert(es.len() == 9);
    assert("ram_allocation_mb"@.len() == 17);
    assert("resolution"@.len() == 10 && "resolution"@[0] == 'r');
    assert("fullscreen"@.len() == 10 && "fullscreen"@[0] == 'f');
    assert("branch"@.len() == 6);
    assert("jvm_args"@.len() == 8 && "jvm_args"@[0] == 'j');
    assert("close_on_launch"@.len() == 15);
    assert("game_dir"@.len() == 8 && "game_dir"@[0] == 'g');
    assert("cache_dir"@.len() == 9);
    assert("jdk_dir"@.len() == 7);
    lemma_find_entry_at(es, "ram_allocation_mb"@, 0);
    lemma_find_entry_at(es, "resolution"@, 1);
    lemma_find_entry_at(es, "fullscreen"@, 2);
    lemma_find_entry_at(es, "branch"@, 3);
    lemma_find_entry_at(es, "jvm_args"@, 4);
    lemma_find_entry_at(es, "close_on_launch"@, 5);
    lemma_find_entry_at(es, "game_dir"@, 6);
    lemma_find_entry_at(es, "cache_dir"@, 7);
    lemma_find_entry_at(es, "jdk_dir"@, 8);
}

} // verus!
