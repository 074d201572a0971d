//! The connection settings of a module, and where they come from: the config
//! file, the environment and the command line.

use crate::json;
use crate::number;
use crate::text;
use vstd::prelude::*;

verus! {

/// The connection settings of a module.
#[derive(Debug)]
pub struct CockatielConfig {
    /// The address of the engine.
    pub ip: String,
    /// The port of the engine.
    pub port: u16,
    /// The PIN that the engine asks of a new module; zero if there is none.
    pub pin: i32,
    /// The name under which the module is known.
    pub module_name: String,
    /// The position of the module in the engine's process.
    pub position: i32,
    /// The priority of the module among those at its position.
    pub priority: u32,
}

/// The settings, with texts for strings.
#[verifier::ext_equal]
pub struct ConfigModel {
    pub ip: Seq<char>,
    pub port: u16,
    pub pin: i32,
    pub module_name: Seq<char>,
    pub position: i32,
    pub priority: u32,
}

impl View for CockatielConfig {
    type V = ConfigModel;

    open spec fn view(&self) -> ConfigModel {
        ConfigModel {
            ip: self.ip@,
            port: self.port,
            pin: self.pin,
            module_name: self.module_name@,
            position: self.position,
            priority: self.priority,
        }
    }
}

impl Clone for CockatielConfig {
    fn clone(&self) -> (r: CockatielConfig)
        ensures
            r@ == self@,
    {
        CockatielConfig {
            ip: self.ip.clone(),
            port: self.port,
            pin: self.pin,
            module_name: self.module_name.clone(),
            position: self.position,
            priority: self.priority,
        }
    }
}

/// What was found where the config file is looked for.
pub enum ConfigRead {
    /// There is no file, or it cannot be read as text.
    Missing,
    /// A file that holds the settings.
    Parsed(CockatielConfig),
    /// A file with any other text.
    Unparsed(String),
}

/// What was found, with texts for strings.
#[verifier::ext_equal]
pub enum ReadModel {
    Missing,
    Parsed(ConfigModel),
    Unparsed(Seq<char>),
}

impl View for ConfigRead {
    type V = ReadModel;

    open spec fn view(&self) -> ReadModel {
        match *self {
            ConfigRead::Missing => ReadModel::Missing,
            ConfigRead::Parsed(c) => ReadModel::Parsed(c@),
            ConfigRead::Unparsed(s) => ReadModel::Unparsed(s@),
        }
    }
}

/// The settings that were loaded.
pub struct Loaded {
    /// The settings.
    pub config: CockatielConfig,
    /// The text to write to the config file, if it has to be written.
    pub file: Option<String>,
}

/// The settings that were loaded, with texts for strings.
#[verifier::ext_equal]
pub struct LoadedModel {
    pub config: ConfigModel,
    pub file: Option<Seq<char>>,
}

impl View for Loaded {
    type V = LoadedModel;

    open spec fn view(&self) -> LoadedModel {
        LoadedModel { config: self.config@, file: text::option_text(self.file) }
    }
}

/// The settings of a module that has none.
pub open spec fn default_settings() -> ConfigModel {
    ConfigModel {
        ip: "127.0.0.1"@,
        port: 9734,
        pin: 0,
        module_name: "unnamed_module"@,
        position: 1,
        priority: 100,
    }
}

/// The fields with `key` at the given text, unless they have it already.
pub open spec fn with_default(
    fields: Map<Seq<char>, Seq<char>>,
    key: Seq<char>,
    value: Seq<char>,
) -> Map<Seq<char>, Seq<char>> {
    if fields.contains_key(key) {
        fields
    } else {
        fields.insert(key, value)
    }
}

/// The fields with the connection settings they lack at their defaults; the
/// PIN is not among them.
pub open spec fn filled(fields: Map<Seq<char>, Seq<char>>) -> Map<Seq<char>, Seq<char>> {
    let d = default_settings();
    let a = with_default(fields, "ip"@, json::string_text(d.ip));
    let b = with_default(a, "port"@, number::integer_text(d.port as int));
    let c = with_default(b, "module_name"@, json::string_text(d.module_name));
    let e = with_default(c, "position"@, number::integer_text(d.position as int));
    with_default(e, "priority"@, number::integer_text(d.priority as int))
}

/// The fields that hold the settings in a file of their own, in order. A PIN of
/// zero is left out.
pub open spec fn setting_fields(c: ConfigModel) -> Seq<(Seq<char>, Seq<char>)> {
    let address = seq![
        ("ip"@, json::string_text(c.ip)),
        ("port"@, number::integer_text(c.port as int)),
    ];
    let pin = if c.pin == 0 {
        seq![]
    } else {
        seq![("pin"@, number::integer_text(c.pin as int))]
    };
    let module = seq![
        ("module_name"@, json::string_text(c.module_name)),
        ("position"@, number::integer_text(c.position as int)),
        ("priority"@, number::integer_text(c.priority as int)),
    ];
    address + pin + module
}

/// The text of the field `name`, the fallback if there is no such field;
/// nothing if the field is no string or there is no fallback.
pub open spec fn text_field(
    fields: Map<Seq<char>, Seq<char>>,
    name: Seq<char>,
    fallback: Option<Seq<char>>,
) -> Option<Seq<char>> {
    if fields.contains_key(name) {
        json::string_of(fields[name])
    } else {
        fallback
    }
}

/// The number in the field `name`, the fallback if there is no such field;
/// nothing if the field is no integer from `low` to `high`.
pub open spec fn number_field(
    fields: Map<Seq<char>, Seq<char>>,
    name: Seq<char>,
    fallback: int,
    low: int,
    high: int,
) -> Option<int> {
    if fields.contains_key(name) {
        match number::integer_of(fields[name], i64::MIN as int, i64::MAX as int) {
            Some(n) => if low <= n <= high {
                Some(n)
            } else {
                None
            },
            None => None,
        }
    } else {
        Some(fallback)
    }
}

/// The settings that the fields of an object hold. All but the name of the
/// module have a default; one of the wrong type spoils them all.
pub open spec fn settings_in(fields: Map<Seq<char>, Seq<char>>) -> Option<ConfigModel> {
    let d = default_settings();
    let ip = text_field(fields, "ip"@, Some(d.ip));
    let port = number_field(fields, "port"@, d.port as int, 0, u16::MAX as int);
    let pin = number_field(fields, "pin"@, d.pin as int, i32::MIN as int, i32::MAX as int);
    let name = text_field(fields, "module_name"@, None);
    let position = number_field(
        fields,
        "position"@,
        d.position as int,
        i32::MIN as int,
        i32::MAX as int,
    );
    let priority = number_field(fields, "priority"@, d.priority as int, 0, u32::MAX as int);
    if ip is Some && port is Some && pin is Some && name is Some && position is Some
        && priority is Some {
        Some(
            ConfigModel {
                ip: ip->0,
                port: port->0 as u16,
                pin: pin->0 as i32,
                module_name: name->0,
                position: position->0 as i32,
                priority: priority->0 as u32,
            },
        )
    } else {
        None
    }
}

/// What a config file with the text `s` is found as, where `s` was written for
/// an object with these fields, so that each name occurs in it once.
pub open spec fn found(s: Seq<char>, fields: Map<Seq<char>, Seq<char>>) -> ReadModel {
    match settings_in(fields) {
        Some(c) => ReadModel::Parsed(c),
        None => ReadModel::Unparsed(s),
    }
}

/// The default settings, in a file of their own.
pub open spec fn created() -> LoadedModel {
    LoadedModel {
        config: default_settings(),
        file: Some(json::listing_text(setting_fields(default_settings()))),
    }
}

/// The settings of an object whose missing settings are filled in; the defaults
/// if one of them has the wrong type.
pub open spec fn settings_or_default(fields: Map<Seq<char>, Seq<char>>) -> ConfigModel {
    match settings_in(fields) {
        Some(c) => c,
        None => default_settings(),
    }
}

/// What comes of a file that does not hold the settings, given the JSON
/// document that it writes, if it does. An object is kept, and what is missing
/// is filled in; anything else gives way to the defaults.
pub open spec fn loaded_document(d: Option<json::DocumentModel>) -> LoadedModel {
    match d {
        Some(json::DocumentModel::Object(fields)) => LoadedModel {
            config: settings_or_default(filled(fields)),
            file: Some(json::pretty_text(json::DocumentModel::Object(filled(fields)))),
        },
        _ => created(),
    }
}

/// What comes of what was found.
pub open spec fn loaded(read: ReadModel) -> LoadedModel {
    match read {
        ReadModel::Missing => created(),
        ReadModel::Parsed(c) => LoadedModel { config: c, file: None },
        ReadModel::Unparsed(s) => loaded_document(json::json_document(s)),
    }
}

/// The fields of the object that is written to a config file that does not hold
/// the settings, given the JSON document that it writes, if it does.
pub open spec fn written_fields(d: Option<json::DocumentModel>) -> Map<Seq<char>, Seq<char>> {
    match d {
        Some(json::DocumentModel::Object(fields)) => filled(fields),
        _ => json::listed(setting_fields(default_settings())),
    }
}

/// The JSON document in what was found, unless the settings were found in it.
pub open spec fn read_document(read: ReadModel) -> Option<json::DocumentModel> {
    match read {
        ReadModel::Unparsed(s) => json::json_document(s),
        _ => None,
    }
}

/// Whether the text that is written to the config file, if any, is read back as
/// the object that it was written for, where the fields that the file had, if
/// it did, are plain.
pub open spec fn is_read_back(first: LoadedModel, d: Option<json::DocumentModel>) -> bool {
    let plain = d matches Some(json::DocumentModel::Object(fields)) ==> json::plain(fields);
    first.file matches Some(s) ==> plain ==> json::json_document(s) == Some(
        json::DocumentModel::Object(written_fields(d)),
    )
}

/// Whether loading once more, where an object with these fields was written to
/// the config file, gives the same settings and leaves the file as it is. The
/// file is not written again if it holds the settings; if it does not, it gets
/// the same text if that is read back as what it was written for.
pub open spec fn is_stable(first: LoadedModel, fields: Map<Seq<char>, Seq<char>>) -> bool {
    match first.file {
        Some(s) => {
            let again = loaded(found(s, fields));
            &&& again.config == first.config
            &&& settings_in(fields) is Some ==> again.file is None
            &&& json::json_document(s) == Some(json::DocumentModel::Object(fields)) ==> again.file
                is None || again.file == Some(s)
        },
        None => true,
    }
}

/// The model of optional settings.
pub open spec fn option_config(c: Option<CockatielConfig>) -> Option<ConfigModel> {
    match c {
        Some(c) => Some(c@),
        None => None,
    }
}

/// The default address of the engine.
pub fn default_ip() -> (r: String)
    ensures
        r@ == default_settings().ip,
{
    "127.0.0.1".to_owned()
}

/// The default port of the engine.
pub fn default_port() -> (r: u16)
    ensures
        r == default_settings().port,
{
    9734
}

/// The default position of a module.
pub fn default_position() -> (r: i32)
    ensures
        r == default_settings().position,
{
    1
}

/// The default priority of a module.
pub fn default_priority() -> (r: u32)
    ensures
        r == default_settings().priority,
{
    100
}

/// Whether there is no PIN, so that it is left out of a config file.
pub fn is_zero_pin(pin: &i32) -> (r: bool)
    ensures
        r == (*pin == 0),
{
    *pin == 0
}

/// The names of fields are all different.
pub proof fn lemma_names()
    ensures
        "ip"@.len() == 2,
        "pin"@.len() == 3,
        "port"@.len() == 4,
        "position"@.len() == 8,
        "priority"@.len() == 8,
        "position"@ != "priority"@,
        "module_name"@.len() == 11,
        "module_specific"@.len() == 15,
{
    reveal_strlit("ip");
    reveal_strlit("pin");
    reveal_strlit("port");
    reveal_strlit("position");
    reveal_strlit("priority");
    reveal_strlit("module_name");
    reveal_strlit("module_specific");
    assert("position"@[1] != "priority"@[1]);
}

/// Filling in a second time changes nothing.
pub proof fn lemma_filled_twice(fields: Map<Seq<char>, Seq<char>>)
    ensures
        filled(filled(fields)) == filled(fields),
{
    lemma_names();
}

/// Strings and integers are plain.
pub proof fn lemma_filled_plain(fields: Map<Seq<char>, Seq<char>>)
    requires
        json::plain(fields),
    ensures
        json::plain(filled(fields)),
{
    let d = default_settings();
    json::lemma_string_plain(d.ip);
    json::lemma_string_plain(d.module_name);
    json::lemma_integer_plain(d.port as int);
    json::lemma_integer_plain(d.position as int);
    json::lemma_integer_plain(d.priority as int);
}

proof fn lemma_settings_plain(c: ConfigModel)
    ensures
        json::plain_list(setting_fields(c)),
{
    json::lemma_string_plain(c.ip);
    json::lemma_string_plain(c.module_name);
    json::lemma_integer_plain(c.port as int);
    json::lemma_integer_plain(c.pin as int);
    json::lemma_integer_plain(c.position as int);
    json::lemma_integer_plain(c.priority as int);
}

/// The fields of the object that the settings make.
pub proof fn lemma_settings_fields(c: ConfigModel)
    ensures
        json::listed(setting_fields(c)) == (if c.pin == 0 {
            with_settings(json::no_fields(), c)
        } else {
            with_settings(json::no_fields(), c).insert(
                "pin"@,
                number::integer_text(c.pin as int),
            )
        }),
{
    lemma_names();
    let all = setting_fields(c);
    let address = seq![all[0], all[1]];
    let n = all.len() as int;
    json::lemma_listed_push(seq![], all[0]);
    json::lemma_listed_push(seq![all[0]], all[1]);
    if c.pin != 0 {
        json::lemma_listed_push(address, all[2]);
        assert(all.take(3) =~= address.push(all[2]));
    } else {
        assert(all.take(2) =~= address);
    }
    json::lemma_listed_push(all.take(n - 3), all[n - 3]);
    json::lemma_listed_push(all.take(n - 2), all[n - 2]);
    json::lemma_listed_push(all.take(n - 1), all[n - 1]);
    assert(address =~= seq![].push(all[0]).push(all[1]));
    assert(seq![all[0]] =~= seq![].push(all[0]));
    assert(all.take(n - 2) =~= all.take(n - 3).push(all[n - 3]));
    assert(all.take(n - 1) =~= all.take(n - 2).push(all[n - 2]));
    assert(all =~= all.take(n - 1).push(all[n - 1]));
    assert(json::listed(all) =~= if c.pin == 0 {
        with_settings(json::no_fields(), c)
    } else {
        with_settings(json::no_fields(), c).insert("pin"@, number::integer_text(c.pin as int))
    });
}

/// The object that the settings make: they are read back from it, and there is
/// a PIN in it exactly if it is not zero.
pub proof fn lemma_settings_listed(c: ConfigModel)
    ensures
        settings_in(json::listed(setting_fields(c))) == Some(c),
        json::listed(setting_fields(c)).contains_key("pin"@) <==> c.pin != 0,
{
    let low = i64::MIN as int;
    let high = i64::MAX as int;
    lemma_names();
    json::lemma_string_of(c.ip);
    json::lemma_string_of(c.module_name);
    number::lemma_integer_of(c.port as int, low, high);
    number::lemma_integer_of(c.pin as int, low, high);
    number::lemma_integer_of(c.position as int, low, high);
    number::lemma_integer_of(c.priority as int, low, high);
    lemma_settings_fields(c);
}

/// Objects that are alike hold the same settings, and where the settings of one
/// are filled in, so are those of the other.
proof fn lemma_alike_settings(a: Map<Seq<char>, Seq<char>>, b: Map<Seq<char>, Seq<char>>)
    requires
        json::alike(a, b),
    ensures
        settings_in(a) == settings_in(b),
        filled(a) == a ==> filled(b) == b,
{
    let low = i64::MIN as int;
    let high = i64::MAX as int;
    assert forall|k: Seq<char>| #[trigger] a.contains_key(k) implies {
        &&& json::string_of(a[k]) == json::string_of(b[k])
        &&& number::integer_of(a[k], low, high) == number::integer_of(b[k], low, high)
    } by {
        if !json::plain_text(a[k]) {
            lemma_not_plain(a[k]);
            lemma_not_plain(b[k]);
        }
    }
    if filled(a) == a {
        lemma_filled_names(a);
    }
}

/// A text that is not plain is neither a string nor an integer.
proof fn lemma_not_plain(t: Seq<char>)
    requires
        !json::plain_text(t),
    ensures
        json::string_of(t) is None,
        number::integer_of(t, i64::MIN as int, i64::MAX as int) is None,
{
    if json::string_of(t) is Some {
        let s = choose|s: Seq<char>| t == #[trigger] json::string_text(s);
        json::lemma_string_plain(s);
    }
    if number::integer_of(t, i64::MIN as int, i64::MAX as int) is Some {
        json::lemma_integer_of_plain(t, i64::MIN as int, i64::MAX as int);
    }
}

/// Every setting but the PIN is there once they are filled in.
proof fn lemma_filled_names(fields: Map<Seq<char>, Seq<char>>)
    ensures
        filled(fields).contains_key("ip"@),
        filled(fields).contains_key("port"@),
        filled(fields).contains_key("module_name"@),
        filled(fields).contains_key("position"@),
        filled(fields).contains_key("priority"@),
{
}

fn default_field(
    m: &mut serde_json::Map<String, serde_json::Value>,
    key: &str,
    v: serde_json::Value,
)
    ensures
        json::object_fields(*final(m)) == with_default(
            json::object_fields(*old(m)),
            key@,
            json::value_text(v),
        ),
{
    if !json::has_field(m, key) {
        json::set_field(m, key, v);
    }
}

/// Fills in the connection settings that an object lacks.
pub fn fill_object(m: &mut serde_json::Map<String, serde_json::Value>)
    ensures
        json::object_fields(*final(m)) == filled(json::object_fields(*old(m))),
{
    default_field(m, "ip", json::string_value(default_ip().as_str()));
    default_field(m, "port", json::integer_value(default_port() as i64));
    default_field(m, "module_name", json::string_value("unnamed_module"));
    default_field(m, "position", json::integer_value(default_position() as i64));
    default_field(m, "priority", json::integer_value(default_priority() as i64));
}

fn read_text(
    m: &serde_json::Map<String, serde_json::Value>,
    name: &str,
    fallback: Option<String>,
) -> (r: Option<String>)
    ensures
        text::option_text(r) == text_field(
            json::object_fields(*m),
            name@,
            text::option_text(fallback),
        ),
{
    match json::field(m, name) {
        Some(v) => json::value_string(&v),
        None => fallback,
    }
}

fn read_number(
    m: &serde_json::Map<String, serde_json::Value>,
    name: &str,
    fallback: i64,
    low: i64,
    high: i64,
) -> (r: Option<i64>)
    requires
        low <= fallback <= high,
    ensures
        json::option_integer(r) == number_field(
            json::object_fields(*m),
            name@,
            fallback as int,
            low as int,
            high as int,
        ),
        r matches Some(n) ==> low <= n <= high,
{
    match json::field(m, name) {
        Some(v) => match json::value_integer(&v) {
            Some(n) => if low <= n && n <= high {
                Some(n)
            } else {
                None
            },
            None => None,
        },
        None => Some(fallback),
    }
}

impl CockatielConfig {
    /// The settings of a module that has none.
    pub fn unnamed() -> (r: CockatielConfig)
        ensures
            r@ == default_settings(),
    {
        CockatielConfig {
            ip: default_ip(),
            port: default_port(),
            pin: 0,
            module_name: "unnamed_module".to_owned(),
            position: default_position(),
            priority: default_priority(),
        }
    }

    /// The settings that an object holds, if it does.
    pub fn from_object(m: &serde_json::Map<String, serde_json::Value>) -> (r: Option<
        CockatielConfig,
    >)
        ensures
            option_config(r) == settings_in(json::object_fields(*m)),
    {
        let ip = read_text(m, "ip", Some(default_ip()));
        let port = read_number(m, "port", default_port() as i64, 0, u16::MAX as i64);
        let pin = read_number(m, "pin", 0, i32::MIN as i64, i32::MAX as i64);
        let name = read_text(m, "module_name", None);
        let position = read_number(
            m,
            "position",
            default_position() as i64,
            i32::MIN as i64,
            i32::MAX as i64,
        );
        let priority = read_number(m, "priority", default_priority() as i64, 0, u32::MAX as i64);
        match (ip, port, pin, name, position, priority) {
            (Some(ip), Some(port), Some(pin), Some(name), Some(position), Some(priority)) => Some(
                CockatielConfig {
                    ip,
                    port: port as u16,
                    pin: pin as i32,
                    module_name: name,
                    position: position as i32,
                    priority: priority as u32,
                },
            ),
            _ => None,
        }
    }

    /// The text of a config file that holds the settings and nothing else. The
    /// settings are found in it as they are.
    pub fn file_text(&self) -> (r: String)
        ensures
            r@ == json::listing_text(setting_fields(self@)),
            json::json_document(r@) == Some(
                json::DocumentModel::Object(json::listed(setting_fields(self@))),
            ),
            found(r@, json::listed(setting_fields(self@))) == ReadModel::Parsed(self@),
    {
        let mut fields: Vec<(String, serde_json::Value)> = Vec::new();
        fields.push(("ip".to_owned(), json::string_value(self.ip.as_str())));
        fields.push(("port".to_owned(), json::integer_value(self.port as i64)));
        if !is_zero_pin(&self.pin) {
            fields.push(("pin".to_owned(), json::integer_value(self.pin as i64)));
        }
        fields.push(("module_name".to_owned(), json::string_value(self.module_name.as_str())));
        fields.push(("position".to_owned(), json::integer_value(self.position as i64)));
        fields.push(("priority".to_owned(), json::integer_value(self.priority as i64)));
        proof {
            assert(json::field_texts(fields@) =~= setting_fields(self@));
            lemma_settings_plain(self@);
            lemma_settings_listed(self@);
        }
        json::pretty_listing(fields)
    }

    /// The default settings, in a file of their own.
    fn create() -> (r: Loaded)
        ensures
            r@ == created(),
            is_read_back(r@, None),
            is_stable(r@, json::listed(setting_fields(default_settings()))),
    {
        let config = CockatielConfig::unnamed();
        let file = Some(config.file_text());
        Loaded { config, file }
    }

    /// What comes of a file that does not hold the settings, given the JSON
    /// document that it writes, if it does.
    pub fn load_document(d: Option<json::Document>) -> (r: Loaded)
        ensures
            r@ == loaded_document(json::option_document(d)),
            is_read_back(r@, json::option_document(d)),
            is_stable(r@, written_fields(json::option_document(d))),
    {
        match d {
            Some(json::Document::Object(object)) => {
                let mut m = object;
                fill_object(&mut m);
                let config = match CockatielConfig::from_object(&m) {
                    Some(c) => c,
                    None => CockatielConfig::unnamed(),
                };
                let file = json::pretty(&json::Document::Object(m));
                proof {
                    let fields = filled(json::object_fields(object));
                    lemma_filled_twice(json::object_fields(object));
                    if json::plain(json::object_fields(object)) {
                        lemma_filled_plain(json::object_fields(object));
                    }
                    if let Some(json::DocumentModel::Object(back)) = json::json_document(file@) {
                        lemma_alike_settings(fields, back);
                    }
                }
                Loaded { config, file: Some(file) }
            },
            _ => CockatielConfig::create(),
        }
    }

    /// What comes of what was found where the config file is looked for. A
    /// file with an object in it is not thrown away: what is missing is filled
    /// in, and that is all that is written to it. What was written is read back
    /// where it is plain, and loading once more changes nothing.
    pub fn load_or_create(read: ConfigRead) -> (r: Loaded)
        ensures
            r@ == loaded(read@),
            is_read_back(r@, read_document(read@)),
            is_stable(r@, written_fields(read_document(read@))),
    {
        match read {
            ConfigRead::Missing => CockatielConfig::create(),
            ConfigRead::Parsed(config) => Loaded { config, file: None },
            ConfigRead::Unparsed(s) => CockatielConfig::load_document(
                json::parse_document(s.as_str()),
            ),
        }
    }
}

/// The settings with the PIN of the environment, if there is one that is a
/// number.
pub open spec fn with_pin_variable(c: ConfigModel, variable: Option<Seq<char>>) -> ConfigModel {
    match variable {
        Some(s) => match number::integer_of(s, i32::MIN as int, i32::MAX as int) {
            Some(pin) => ConfigModel { pin: pin as i32, ..c },
            None => c,
        },
        None => c,
    }
}

/// What an option of the command line does to the settings, and whether it
/// sets any of them: `--ip` or `-i`, `--port` or `-p`, `--pin`, `--name` or
/// `-n`. A port or a PIN that is no number and a name that is blank set
/// nothing.
pub open spec fn option_effect(
    c: ConfigModel,
    flag: Seq<char>,
    value: Seq<char>,
) -> Option<(ConfigModel, bool)> {
    if flag == "--ip"@ || flag == "-i"@ {
        Some((ConfigModel { ip: value, ..c }, true))
    } else if flag == "--port"@ || flag == "-p"@ {
        match number::integer_of(value, 0, u16::MAX as int) {
            Some(port) => Some((ConfigModel { port: port as u16, ..c }, true)),
            None => Some((c, false)),
        }
    } else if flag == "--pin"@ {
        match number::integer_of(value, i32::MIN as int, i32::MAX as int) {
            Some(pin) => Some((ConfigModel { pin: pin as i32, ..c }, true)),
            None => Some((c, false)),
        }
    } else if flag == "--name"@ || flag == "-n"@ {
        let name = text::trimmed(value);
        if name.len() > 0 {
            Some((ConfigModel { module_name: name, ..c }, true))
        } else {
            Some((c, false))
        }
    } else {
        None
    }
}

/// The settings after the options among `args` have taken effect in turn, and
/// whether any did. An argument that is no option, or that has no value behind
/// it, is passed over.
pub open spec fn overridden(c: ConfigModel, changed: bool, args: Seq<Seq<char>>) -> (
    ConfigModel,
    bool,
)
    decreases args.len(),
{
    if args.len() == 0 {
        (c, changed)
    } else if args.len() >= 2 && option_effect(c, args[0], args[1]) is Some {
        let effect = option_effect(c, args[0], args[1])->0;
        overridden(effect.0, changed || effect.1, args.skip(2))
    } else {
        overridden(c, changed, args.skip(1))
    }
}

/// The arguments behind the name of the program.
pub open spec fn arguments(args: Seq<Seq<char>>) -> Seq<Seq<char>> {
    if args.len() == 0 {
        args
    } else {
        args.skip(1)
    }
}

fn is_flag(arg: &str, long: &str, short: &str) -> (r: bool)
    ensures
        r == (arg@ == long@ || arg@ == short@),
{
    text::same(arg, long) || text::same(arg, short)
}

impl CockatielConfig {
    /// Takes the PIN from the environment, where it wins over the config file.
    pub fn apply_pin_variable(&mut self, variable: &Option<String>)
        ensures
            final(self)@ == with_pin_variable(old(self)@, text::option_text(*variable)),
    {
        if let Some(s) = variable {
            if let Some(pin) = number::parse_i32(s.as_str()) {
                self.pin = pin;
            }
        }
    }

    /// Applies one option of the command line. Tells whether `flag` is an
    /// option at all, and if so whether it set anything.
    fn apply_option(&mut self, flag: &str, value: &str) -> (r: Option<bool>)
        ensures
            match option_effect(old(self)@, flag@, value@) {
                Some((after, changed)) => final(self)@ == after && r == Some(changed),
                None => final(self)@ == old(self)@ && r is None,
            },
    {
        if is_flag(flag, "--ip", "-i") {
            self.ip = value.to_owned();
            Some(true)
        } else if is_flag(flag, "--port", "-p") {
            match number::parse_u16(value) {
                Some(port) => {
                    self.port = port;
                    Some(true)
                },
                None => Some(false),
            }
        } else if text::same(flag, "--pin") {
            match number::parse_i32(value) {
                Some(pin) => {
                    self.pin = pin;
                    Some(true)
                },
                None => Some(false),
            }
        } else if is_flag(flag, "--name", "-n") {
            let name = text::trim(value);
            if name.is_empty() {
                Some(false)
            } else {
                self.module_name = name.to_owned();
                Some(true)
            }
        } else {
            None
        }
    }

    /// Applies the command line, whose first argument is the name of the
    /// program. Tells whether any setting was given.
    pub fn apply_arguments(&mut self, args: &Vec<String>) -> (changed: bool)
        ensures
            (final(self)@, changed) == overridden(
                old(self)@,
                false,
                arguments(text::texts(args@)),
            ),
    {
        let ghost all = text::texts(args@);
        let ghost result = overridden(self@, false, arguments(all));
        let mut changed = false;
        let mut i: usize = 1;
        while i < args.len()
            invariant
                1 <= i,
                all == text::texts(args@),
                args.len() > 0 ==> i <= args.len() && result == overridden(
                    self@,
                    changed,
                    all.skip(i as int),
                ),
                args.len() == 0 ==> result == (self@, changed),
            decreases args.len() - i,
        {
            let ghost rest = all.skip(i as int);
            assert(rest[0] == args@[i as int]@);
            assert(rest.skip(1) =~= all.skip(i + 1));
            let mut step: usize = 1;
            if i + 1 < args.len() {
                assert(rest[1] == args@[i + 1]@);
                assert(rest.skip(2) =~= all.skip(i + 2));
                if let Some(set) = self.apply_option(args[i].as_str(), args[i + 1].as_str()) {
                    changed = changed || set;
                    step = 2;
                }
            }
            i += step;
        }
        assert(args.len() > 0 ==> all.skip(i as int) =~= seq![]);
        changed
    }
}

/// The settings of the config file brought up to date, and whether the command
/// line gave any: the PIN of the environment first, then the command line, whose
/// first argument is the name of the program.
pub open spec fn configured(
    c: ConfigModel,
    variable: Option<Seq<char>>,
    args: Seq<Seq<char>>,
) -> (ConfigModel, bool) {
    overridden(with_pin_variable(c, variable), false, arguments(args))
}

impl CockatielConfig {
    /// Brings the settings of the config file up to date: the PIN of the
    /// environment first, then the command line. Tells whether the command line
    /// gave a setting, so that the config file has to be written.
    pub fn configure(&mut self, pin_variable: &Option<String>, args: &Vec<String>) -> (changed:
        bool)
        ensures
            (final(self)@, changed) == configured(
                old(self)@,
                text::option_text(*pin_variable),
                text::texts(args@),
            ),
    {
        self.apply_pin_variable(pin_variable);
        self.apply_arguments(args)
    }
}

/// The fields with the settings in them. The PIN is not put there.
pub open spec fn with_settings(fields: Map<Seq<char>, Seq<char>>, c: ConfigModel) -> Map<
    Seq<char>,
    Seq<char>,
> {
    fields.insert("ip"@, json::string_text(c.ip)).insert(
        "port"@,
        number::integer_text(c.port as int),
    ).insert("module_name"@, json::string_text(c.module_name)).insert(
        "position"@,
        number::integer_text(c.position as int),
    ).insert("priority"@, number::integer_text(c.priority as int))
}

/// The document that a config file holds, the empty object if it holds none.
pub open spec fn root_of(d: Option<json::DocumentModel>) -> json::DocumentModel {
    match d {
        Some(d) => d,
        None => json::DocumentModel::Object(json::no_fields()),
    }
}

/// The module's own settings in a document.
pub open spec fn module_settings(d: Option<json::DocumentModel>) -> Option<Seq<char>> {
    match d {
        Some(json::DocumentModel::Object(fields)) => if fields.contains_key("module_specific"@) {
            Some(fields["module_specific"@])
        } else {
            None
        },
        _ => None,
    }
}

/// Whether the module's own settings have to be looked for once more before
/// the document is written.
pub open spec fn lacks_module_settings(root: json::DocumentModel) -> bool {
    root is Object && module_settings(Some(root)) is None
}

/// The document with the settings in it, and with the module's own settings
/// from a second look at the file where it lacks them; nothing if it is no
/// object.
pub open spec fn persisted(
    root: json::DocumentModel,
    again: Option<json::DocumentModel>,
    c: ConfigModel,
) -> Option<json::DocumentModel> {
    match root {
        json::DocumentModel::Object(fields) => {
            let set = with_settings(fields, c);
            match module_settings(again) {
                Some(own) if lacks_module_settings(root) => Some(
                    json::DocumentModel::Object(set.insert("module_specific"@, own)),
                ),
                _ => Some(json::DocumentModel::Object(set)),
            }
        },
        json::DocumentModel::Other(_) => None,
    }
}

/// The document that an optional text writes.
pub open spec fn document_of(s: Option<Seq<char>>) -> Option<json::DocumentModel> {
    match s {
        Some(s) => json::json_document(s),
        None => None,
    }
}

fn parse_read(read: &Option<String>) -> (r: Option<json::Document>)
    ensures
        json::option_document(r) == document_of(text::option_text(*read)),
{
    match read {
        Some(s) => json::parse_document(s.as_str()),
        None => None,
    }
}

/// The document that a config file holds, the empty object if it holds none.
pub fn root_document(d: Option<json::Document>) -> (r: json::Document)
    ensures
        r@ == root_of(json::option_document(d)),
{
    match d {
        Some(d) => d,
        None => json::Document::Object(json::empty_object()),
    }
}

/// The module's own settings in a document.
fn own_settings(d: &Option<json::Document>) -> (r: Option<serde_json::Value>)
    ensures
        match r {
            Some(v) => module_settings(json::option_document(*d)) == Some(json::value_text(v)),
            None => module_settings(json::option_document(*d)) is None,
        },
{
    match d {
        Some(json::Document::Object(m)) => json::field(m, "module_specific"),
        _ => None,
    }
}

/// Whether the config file has to be read once more before the settings are
/// written to it: it was read as `read`, and the module's own settings were
/// not there.
pub fn must_reread(read: &Option<String>) -> (r: bool)
    ensures
        r == lacks_module_settings(root_of(document_of(text::option_text(*read)))),
{
    match root_document(parse_read(read)) {
        json::Document::Object(m) => !json::has_field(&m, "module_specific"),
        json::Document::Other(_) => false,
    }
}

impl CockatielConfig {
    /// Puts the settings into the document of the config file; `again` is what
    /// a second look at the file found.
    pub fn persist_document(
        &self,
        root: json::Document,
        again: &Option<json::Document>,
    ) -> (r: Option<json::Document>)
        ensures
            json::option_document(r) == persisted(root@, json::option_document(*again), self@),
    {
        match root {
            json::Document::Object(object) => {
                let own = if json::has_field(&object, "module_specific") {
                    None
                } else {
                    own_settings(again)
                };
                let mut m = object;
                json::set_field(&mut m, "ip", json::string_value(self.ip.as_str()));
                json::set_field(&mut m, "port", json::integer_value(self.port as i64));
                json::set_field(
                    &mut m,
                    "module_name",
                    json::string_value(self.module_name.as_str()),
                );
                json::set_field(&mut m, "position", json::integer_value(self.position as i64));
                json::set_field(&mut m, "priority", json::integer_value(self.priority as i64));
                if let Some(v) = own {
                    json::set_field(&mut m, "module_specific", v);
                }
                Some(json::Document::Object(m))
            },
            json::Document::Other(_) => None,
        }
    }

    /// The text to write to the config file so that it holds the settings:
    /// `read` is what is in the file, and `again` is what a second look at it
    /// found. There is nothing to write if the file holds JSON that is no
    /// object. An object of plain fields is read back from the text as it was
    /// put there, any other, if it is read back, as one that is alike.
    pub fn persist(&self, read: &Option<String>, again: &Option<String>) -> (r: Option<String>)
        ensures
            ({
                let root = root_of(document_of(text::option_text(*read)));
                let d = persisted(root, document_of(text::option_text(*again)), self@);
                &&& text::option_text(r) == match d {
                    Some(d) => Some(json::pretty_text(d)),
                    None => None,
                }
                &&& d is Some && json::is_plain(d->0) ==> json::json_document(r->0@) == d
                &&& d matches Some(json::DocumentModel::Object(fields)) ==> json::may_be_read_as(
                    fields,
                    json::json_document(r->0@),
                )
            }),
    {
        let root = root_document(parse_read(read));
        let other = parse_read(again);
        match self.persist_document(root, &other) {
            Some(d) => Some(json::pretty(&d)),
            None => None,
        }
    }

    /// The text to write to the config file, which is left alone unless the
    /// command line has `changed` the settings.
    pub fn persist_if(
        &self,
        changed: bool,
        read: &Option<String>,
        again: &Option<String>,
    ) -> (r: Option<String>)
        ensures
            !changed ==> r is None,
            changed ==> ({
                let root = root_of(document_of(text::option_text(*read)));
                let d = persisted(root, document_of(text::option_text(*again)), self@);
                &&& text::option_text(r) == match d {
                    Some(d) => Some(json::pretty_text(d)),
                    None => None,
                }
                &&& d is Some && json::is_plain(d->0) ==> json::json_document(r->0@) == d
                &&& d matches Some(json::DocumentModel::Object(fields)) ==> json::may_be_read_as(
                    fields,
                    json::json_document(r->0@),
                )
            }),
    {
        if changed {
            self.persist(read, again)
        } else {
            None
        }
    }

    /// The address of the engine's socket.
    pub fn socket_url(&self) -> (r: String)
        ensures
            r@ == "ws://"@ + self.ip@ + ":"@ + number::natural_text(self.port as nat),
    {
        let mut r = text::concat2("ws://", self.ip.as_str());
        r.append(":");
        r.append(number::natural(self.port as u64).as_str());
        r
    }
}

} // verus!
