//! What holds of the settings: a config file keeps what else is in it, the PIN
//! never goes there, and the command line has the last word.

use crate::config;
use crate::json;
use crate::number;
use crate::text;
use crate::text_laws;
use vstd::prelude::*;

verus! {

/// The names of the fields that hold the settings in a config file.
pub open spec fn setting_name(k: Seq<char>) -> bool {
    k == "ip"@ || k == "port"@ || k == "module_name"@ || k == "position"@ || k == "priority"@
}

/// Whether the fields hold the settings.
pub open spec fn holds_settings(
    fields: Map<Seq<char>, Seq<char>>,
    c: config::ConfigModel,
) -> bool {
    &&& fields.contains_key("ip"@) && fields["ip"@] == json::string_text(c.ip)
    &&& fields.contains_key("port"@) && fields["port"@] == number::integer_text(c.port as int)
    &&& fields.contains_key("module_name"@) && fields["module_name"@] == json::string_text(
        c.module_name,
    )
    &&& fields.contains_key("position"@) && fields["position"@] == number::integer_text(
        c.position as int,
    )
    &&& fields.contains_key("priority"@) && fields["priority"@] == number::integer_text(
        c.priority as int,
    )
}

/// Filling in a config file clobbers nothing: every field that is there stays,
/// every setting that was missing is at its default, and nothing else is
/// added.
pub proof fn filling_clobbers_nothing(fields: Map<Seq<char>, Seq<char>>, k: Seq<char>)
    ensures
        config::filled(fields).contains_key(k) <==> fields.contains_key(k) || setting_name(k),
        fields.contains_key(k) ==> config::filled(fields)[k] == fields[k],
        !fields.contains_key(k) && setting_name(k) ==> config::filled(fields)[k]
            == config::with_settings(json::no_fields(), config::default_settings())[k],
        !fields.contains_key("ip"@) ==> config::filled(fields)["ip"@] == json::string_text(
            "127.0.0.1"@,
        ),
        !fields.contains_key("port"@) ==> config::filled(fields)["port"@] == number::integer_text(
            9734,
        ),
        !fields.contains_key("module_name"@) ==> config::filled(fields)["module_name"@]
            == json::string_text("unnamed_module"@),
        !fields.contains_key("position"@) ==> config::filled(fields)["position"@]
            == number::integer_text(1),
        !fields.contains_key("priority"@) ==> config::filled(fields)["priority"@]
            == number::integer_text(100),
{
    config::lemma_names();
}

/// Filling in a config file a second time changes nothing.
pub proof fn filling_twice_changes_nothing(fields: Map<Seq<char>, Seq<char>>)
    ensures
        config::filled(config::filled(fields)) == config::filled(fields),
{
    config::lemma_filled_twice(fields);
}

/// Writing the settings to a config file keeps everything else that is in it,
/// and afterwards the file holds the settings. Nothing but the settings is
/// added, unless a second look found the module's own.
pub proof fn persisting_keeps_the_rest(
    fields: Map<Seq<char>, Seq<char>>,
    again: Option<json::DocumentModel>,
    c: config::ConfigModel,
    k: Seq<char>,
)
    ensures
        config::persisted(json::DocumentModel::Object(fields), again, c) matches Some(
            json::DocumentModel::Object(after),
        ) && holds_settings(after, c) && (fields.contains_key(k) && !setting_name(k)
            ==> after.contains_key(k) && after[k] == fields[k]) && (after.contains_key(k)
            ==> fields.contains_key(k) || setting_name(k) || (k == "module_specific"@
            && config::module_settings(again) is Some)),
{
    config::lemma_names();
}

/// The module's own settings are never dropped: those in the config file stay,
/// and where they were not found at first, those of the second look are put
/// there.
pub proof fn module_settings_are_never_dropped(
    fields: Map<Seq<char>, Seq<char>>,
    again: Option<json::DocumentModel>,
    c: config::ConfigModel,
)
    ensures
        config::module_settings(
            config::persisted(json::DocumentModel::Object(fields), again, c),
        ) == match config::module_settings(Some(json::DocumentModel::Object(fields))) {
            Some(own) => Some(own),
            None => config::module_settings(again),
        },
{
    config::lemma_names();
}

/// The PIN never goes into the config file: what is written does not depend on
/// it, and a file that had no PIN field gets none.
pub proof fn pin_is_never_persisted(
    fields: Map<Seq<char>, Seq<char>>,
    again: Option<json::DocumentModel>,
    c: config::ConfigModel,
    pin: i32,
)
    ensures
        config::persisted(
            json::DocumentModel::Object(fields),
            again,
            config::ConfigModel { pin, ..c },
        ) == config::persisted(json::DocumentModel::Object(fields), again, c),
        config::persisted(json::DocumentModel::Object(fields), again, c) matches Some(
            json::DocumentModel::Object(after),
        ) && (after.contains_key("pin"@) <==> fields.contains_key("pin"@)),
        config::filled(fields).contains_key("pin"@) <==> fields.contains_key("pin"@),
{
    config::lemma_names();
}

/// A config file of plain fields stays one when the settings are written to it
/// or filled in, so that it is read back as it was written.
pub proof fn plain_files_stay_plain(
    fields: Map<Seq<char>, Seq<char>>,
    again: Option<json::DocumentModel>,
    c: config::ConfigModel,
)
    requires
        json::plain(fields),
        again matches Some(d) ==> json::is_plain(d),
    ensures
        config::persisted(json::DocumentModel::Object(fields), again, c) matches Some(d)
            && json::is_plain(d),
        json::plain(config::filled(fields)),
{
    config::lemma_filled_plain(fields);
    json::lemma_string_plain(c.ip);
    json::lemma_string_plain(c.module_name);
    json::lemma_integer_plain(c.port as int);
    json::lemma_integer_plain(c.position as int);
    json::lemma_integer_plain(c.priority as int);
}

/// Settings in a file of their own are read back as they were, and the PIN is
/// left out exactly if it is zero.
pub proof fn settings_are_read_back(c: config::ConfigModel)
    ensures
        config::settings_in(json::listed(config::setting_fields(c))) == Some(c),
        json::listed(config::setting_fields(c)).contains_key("pin"@) <==> c.pin != 0,
{
    config::lemma_settings_listed(c);
}

/// Settings that are written to a config file are read back from it as they
/// were, but for the PIN, which is the one that the file has.
pub proof fn persisted_settings_are_read_back(
    fields: Map<Seq<char>, Seq<char>>,
    again: Option<json::DocumentModel>,
    c: config::ConfigModel,
)
    ensures
        config::persisted(json::DocumentModel::Object(fields), again, c) matches Some(
            json::DocumentModel::Object(after),
        ) && config::settings_in(after) == match config::number_field(
            fields,
            "pin"@,
            0,
            i32::MIN as int,
            i32::MAX as int,
        ) {
            Some(pin) => Some(config::ConfigModel { pin: pin as i32, ..c }),
            None => None,
        },
{
    let low = i64::MIN as int;
    let high = i64::MAX as int;
    config::lemma_names();
    json::lemma_string_of(c.ip);
    json::lemma_string_of(c.module_name);
    number::lemma_integer_of(c.port as int, low, high);
    number::lemma_integer_of(c.position as int, low, high);
    number::lemma_integer_of(c.priority as int, low, high);
}

/// Whether a field holds a text, or is missing and the text is its default.
pub open spec fn holds_text(
    fields: Map<Seq<char>, Seq<char>>,
    name: Seq<char>,
    value: Seq<char>,
    missing: bool,
) -> bool {
    if fields.contains_key(name) {
        fields[name] == json::string_text(value)
    } else {
        missing
    }
}

/// Whether a field holds a number, or is missing and the number is its default.
pub open spec fn holds_number(
    fields: Map<Seq<char>, Seq<char>>,
    name: Seq<char>,
    value: int,
    missing: bool,
) -> bool {
    if fields.contains_key(name) {
        number::integer_of(
            fields[name],
            -0x8000_0000_0000_0000,
            0x7fff_ffff_ffff_ffff,
        ) == Some(value)
    } else {
        missing
    }
}

/// The settings in an object are those of its fields, each by its own name. All
/// but the name of the module may be missing and are then at their defaults; if
/// a field is not of the right type, there are no settings.
pub proof fn settings_are_what_the_fields_hold(
    fields: Map<Seq<char>, Seq<char>>,
    c: config::ConfigModel,
)
    ensures
        config::settings_in(fields) == Some(c) <==> {
            &&& holds_text(fields, "ip"@, c.ip, c.ip == "127.0.0.1"@)
            &&& holds_number(fields, "port"@, c.port as int, c.port == 9734)
            &&& holds_number(fields, "pin"@, c.pin as int, c.pin == 0)
            &&& holds_text(fields, "module_name"@, c.module_name, false)
            &&& holds_number(fields, "position"@, c.position as int, c.position == 1)
            &&& holds_number(fields, "priority"@, c.priority as int, c.priority == 100)
        },
{
    json::lemma_string_of(c.ip);
    json::lemma_string_of(c.module_name);
}

/// Loading gives the settings that the config file holds, every one of them: a
/// file that holds them is taken as it is, and an object that holds them once
/// what is missing is filled in gives those. The defaults are for when there is
/// no file, no object in it, or a setting of the wrong type.
pub proof fn loading_gives_what_the_file_holds(
    c: config::ConfigModel,
    s: Seq<char>,
    fields: Map<Seq<char>, Seq<char>>,
)
    ensures
        config::loaded(config::ReadModel::Parsed(c)) == (config::LoadedModel {
            config: c,
            file: None,
        }),
        json::json_document(s) == Some(json::DocumentModel::Object(fields)) ==> {
            &&& config::settings_in(config::filled(fields)) == Some(c) ==> config::loaded(
                config::ReadModel::Unparsed(s),
            ).config == c
            &&& config::settings_in(config::filled(fields)) is None ==> config::loaded(
                config::ReadModel::Unparsed(s),
            ).config == config::default_settings()
        },
        !(json::json_document(s) matches Some(json::DocumentModel::Object(_))) ==> config::loaded(
            config::ReadModel::Unparsed(s),
        ) == config::loaded(config::ReadModel::Missing),
        ({
            let created = config::loaded(config::ReadModel::Missing);
            &&& created.config == config::default_settings()
            &&& created.file == Some(
                json::listing_text(config::setting_fields(config::default_settings())),
            )
        }),
        ({
            let d = config::default_settings();
            &&& d.ip == "127.0.0.1"@
            &&& d.port == 9734
            &&& d.pin == 0
            &&& d.module_name == "unnamed_module"@
            &&& d.position == 1
            &&& d.priority == 100
        }),
{
}

/// An object of settings that are all of the right type is loaded with each of
/// them: what the fields say is what the module gets.
pub proof fn loading_gives_every_field(
    s: Seq<char>,
    fields: Map<Seq<char>, Seq<char>>,
    c: config::ConfigModel,
)
    requires
        json::json_document(s) == Some(json::DocumentModel::Object(fields)),
        holds_text(fields, "ip"@, c.ip, c.ip == "127.0.0.1"@),
        holds_number(fields, "port"@, c.port as int, c.port == 9734),
        holds_number(fields, "pin"@, c.pin as int, c.pin == 0),
        holds_text(fields, "module_name"@, c.module_name, c.module_name == "unnamed_module"@),
        holds_number(fields, "position"@, c.position as int, c.position == 1),
        holds_number(fields, "priority"@, c.priority as int, c.priority == 100),
    ensures
        config::loaded(config::ReadModel::Unparsed(s)).config == c,
{
    let low = -0x8000_0000_0000_0000;
    let high = 0x7fff_ffff_ffff_ffff;
    config::lemma_names();
    filling_clobbers_nothing(fields, "ip"@);
    filling_clobbers_nothing(fields, "port"@);
    filling_clobbers_nothing(fields, "pin"@);
    filling_clobbers_nothing(fields, "module_name"@);
    filling_clobbers_nothing(fields, "position"@);
    filling_clobbers_nothing(fields, "priority"@);
    number::lemma_integer_of(9734, low, high);
    number::lemma_integer_of(1, low, high);
    number::lemma_integer_of(100, low, high);
    settings_are_what_the_fields_hold(config::filled(fields), c);
    loading_gives_what_the_file_holds(c, s, fields);
}

/// A file of the settings alone has a field for each of them, under its name,
/// and no other; the PIN has one exactly if it is not zero.
pub proof fn a_file_of_settings_holds_each_of_them(c: config::ConfigModel, k: Seq<char>)
    ensures
        ({
            let fields = json::listed(config::setting_fields(c));
            &&& holds_settings(fields, c)
            &&& fields.contains_key(k) <==> setting_name(k) || (k == "pin"@ && c.pin != 0)
            &&& c.pin != 0 ==> fields["pin"@] == number::integer_text(c.pin as int)
        }),
{
    config::lemma_settings_fields(c);
    config::lemma_names();
}

/// Writing the settings back starts from what is in the config file: every field
/// of the object that was read is in the object that is written, with its value
/// unchanged unless it is one of the settings, and those are the new ones.
pub proof fn persisting_keeps_what_was_read(
    text: Seq<char>,
    fields: Map<Seq<char>, Seq<char>>,
    again: Option<Seq<char>>,
    c: config::ConfigModel,
    k: Seq<char>,
)
    requires
        json::json_document(text) == Some(json::DocumentModel::Object(fields)),
    ensures
        config::persisted(
            config::root_of(config::document_of(Some(text))),
            config::document_of(again),
            c,
        ) matches Some(json::DocumentModel::Object(after)) && {
            &&& holds_settings(after, c)
            &&& fields.contains_key(k) && !setting_name(k) ==> after.contains_key(k) && after[k]
                == fields[k]
            &&& after.contains_key(k) ==> fields.contains_key(k) || setting_name(k) || k
                == "module_specific"@
        },
{
    config::lemma_names();
}

/// Where the config file cannot be read or is not JSON, the settings are written
/// to a new object, with the module's own settings if a second look finds them;
/// where it is JSON but no object, nothing is written.
pub proof fn persisting_without_an_object(
    read: Option<Seq<char>>,
    again: Option<Seq<char>>,
    own: Map<Seq<char>, Seq<char>>,
    c: config::ConfigModel,
    k: Seq<char>,
)
    ensures
        ({
            let written = config::persisted(
                config::root_of(config::document_of(read)),
                config::document_of(again),
                c,
            );
            let nothing = read is None || json::json_document(read->0) is None;
            let found = again matches Some(s) && json::json_document(s) == Some(
                json::DocumentModel::Object(own),
            ) && own.contains_key("module_specific"@);
            &&& nothing ==> (written matches Some(json::DocumentModel::Object(after)) && {
                &&& holds_settings(after, c)
                &&& after.contains_key(k) ==> setting_name(k) || k == "module_specific"@
                &&& found ==> after.contains_key("module_specific"@) && after["module_specific"@]
                    == own["module_specific"@]
                &&& again is None ==> !after.contains_key("module_specific"@)
                &&& (again matches Some(s) && !(json::json_document(s) matches Some(
                    json::DocumentModel::Object(o),
                ) && o.contains_key("module_specific"@))) ==> !after.contains_key(
                    "module_specific"@,
                )
            })
            &&& (read matches Some(s) && json::json_document(s) matches Some(
                json::DocumentModel::Other(_),
            )) ==> written is None
        }),
{
    config::lemma_names();
}

/// The config file is read a second time exactly if it was not found to hold
/// JSON that is no object, nor the module's own settings.
pub proof fn a_second_look_is_for_the_module_settings(
    read: Option<Seq<char>>,
    fields: Map<Seq<char>, Seq<char>>,
)
    ensures
        ({
            let again = config::lacks_module_settings(config::root_of(config::document_of(read)));
            &&& read is None ==> again
            &&& (read matches Some(s) && json::json_document(s) is None) ==> again
            &&& (read matches Some(s) && json::json_document(s) == Some(
                json::DocumentModel::Object(fields),
            )) ==> again == !fields.contains_key("module_specific"@)
            &&& (read matches Some(s) && json::json_document(s) matches Some(
                json::DocumentModel::Other(_),
            )) ==> !again
        }),
        config::module_settings(Some(json::DocumentModel::Object(fields))) == (
        if fields.contains_key("module_specific"@) {
            Some(fields["module_specific"@])
        } else {
            None
        }),
{
}

/// The PIN of the environment takes the place of the one that there was if it is
/// a number, and is passed over if it is none.
pub proof fn the_pin_variable_is_the_pin(c: config::ConfigModel, s: Seq<char>, pin: i32)
    ensures
        number::integer_of(s, -0x8000_0000, 0x7fff_ffff) == Some(pin as int)
            ==> config::with_pin_variable(c, Some(s)) == (config::ConfigModel { pin, ..c }),
        number::integer_of(s, -0x8000_0000, 0x7fff_ffff) is None ==> config::with_pin_variable(
            c,
            Some(s),
        ) == c,
        config::with_pin_variable(c, None) == c,
{
}

/// The options of the command line take effect one after the other: each sets
/// its own setting to the argument behind it and no other. A port or a PIN that
/// is no number and a blank name set nothing, but their argument is used up.
pub proof fn an_option_sets_its_setting(
    c: config::ConfigModel,
    changed: bool,
    value: Seq<char>,
    rest: Seq<Seq<char>>,
    port: u16,
    pin: i32,
)
    ensures
        config::overridden(c, changed, seq!["--ip"@, value] + rest) == config::overridden(
            config::ConfigModel { ip: value, ..c },
            true,
            rest,
        ),
        config::overridden(c, changed, seq!["-i"@, value] + rest) == config::overridden(
            config::ConfigModel { ip: value, ..c },
            true,
            rest,
        ),
        number::integer_of(value, 0, 65535) == Some(port as int) ==> config::overridden(
            c,
            changed,
            seq!["--port"@, value] + rest,
        ) == config::overridden(config::ConfigModel { port, ..c }, true, rest),
        number::integer_of(value, 0, 65535) == Some(port as int) ==> config::overridden(
            c,
            changed,
            seq!["-p"@, value] + rest,
        ) == config::overridden(config::ConfigModel { port, ..c }, true, rest),
        number::integer_of(value, 0, 65535) is None ==> config::overridden(
            c,
            changed,
            seq!["--port"@, value] + rest,
        ) == config::overridden(c, changed, rest),
        number::integer_of(value, 0, 65535) is None ==> config::overridden(
            c,
            changed,
            seq!["-p"@, value] + rest,
        ) == config::overridden(c, changed, rest),
        number::integer_of(value, -0x8000_0000, 0x7fff_ffff) == Some(pin as int)
            ==> config::overridden(c, changed, seq!["--pin"@, value] + rest)
            == config::overridden(config::ConfigModel { pin, ..c }, true, rest),
        number::integer_of(value, -0x8000_0000, 0x7fff_ffff) is None ==> config::overridden(
            c,
            changed,
            seq!["--pin"@, value] + rest,
        ) == config::overridden(c, changed, rest),
{
    lemma_flags();
    lemma_option(c, changed, "--ip"@, value, rest);
    lemma_option(c, changed, "-i"@, value, rest);
    lemma_option(c, changed, "--port"@, value, rest);
    lemma_option(c, changed, "-p"@, value, rest);
    lemma_option(c, changed, "--pin"@, value, rest);
}

/// The name option sets the module's name to its argument without the white
/// space around it, and a blank argument sets nothing.
pub proof fn the_name_option_sets_the_name(
    c: config::ConfigModel,
    changed: bool,
    a: Seq<char>,
    name: Seq<char>,
    b: Seq<char>,
    rest: Seq<Seq<char>>,
)
    requires
        text_laws::all_white(a),
        text_laws::all_white(b),
        name.len() > 0 ==> !text::white_space(name[0]) && !text::white_space(name.last()),
    ensures
        ({
            let want = if name.len() > 0 {
                config::overridden(config::ConfigModel { module_name: name, ..c }, true, rest)
            } else {
                config::overridden(c, changed, rest)
            };
            &&& config::overridden(c, changed, seq!["--name"@, a + name + b] + rest) == want
            &&& config::overridden(c, changed, seq!["-n"@, a + name + b] + rest) == want
        }),
{
    lemma_flags();
    text_laws::trimming_takes_the_white_space_alone(a, name, b);
    lemma_option(c, changed, "--name"@, a + name + b, rest);
    lemma_option(c, changed, "-n"@, a + name + b, rest);
}

/// What is no option is passed over, and so is an option without an argument. A
/// command line without options changes nothing, and the name of the program is
/// no part of it.
pub proof fn what_is_no_option_is_passed_over(
    c: config::ConfigModel,
    changed: bool,
    argument: Seq<char>,
    rest: Seq<Seq<char>>,
)
    ensures
        !is_option(argument) ==> config::overridden(c, changed, seq![argument] + rest)
            == config::overridden(c, changed, rest),
        config::overridden(c, changed, seq![argument]) == (c, changed),
        config::overridden(c, changed, Seq::<Seq<char>>::empty()) == (c, changed),
        config::arguments(seq![argument] + rest) == rest,
        config::arguments(Seq::<Seq<char>>::empty()) == Seq::<Seq<char>>::empty(),
{
    let args = seq![argument] + rest;
    let one = seq![argument];
    assert(args.skip(1) =~= rest);
    assert(args[0] == argument);
    assert(one.skip(1) =~= seq![]);
    assert(config::overridden(c, changed, seq![]) == (c, changed));
}

proof fn lemma_option(
    c: config::ConfigModel,
    changed: bool,
    flag: Seq<char>,
    value: Seq<char>,
    rest: Seq<Seq<char>>,
)
    requires
        config::option_effect(c, flag, value) is Some,
    ensures
        ({
            let effect = config::option_effect(c, flag, value)->0;
            config::overridden(c, changed, seq![flag, value] + rest) == config::overridden(
                effect.0,
                changed || effect.1,
                rest,
            )
        }),
{
    let args = seq![flag, value] + rest;
    assert(args[0] == flag && args[1] == value);
    assert(args.skip(2) =~= rest);
}

/// Loading drops no field of a config file with an object in it: a file that
/// holds the settings is not written, and to any other the object is written
/// with every field that it had.
pub proof fn loading_drops_no_field(
    s: Seq<char>,
    fields: Map<Seq<char>, Seq<char>>,
    c: config::ConfigModel,
    k: Seq<char>,
)
    requires
        json::json_document(s) == Some(json::DocumentModel::Object(fields)),
        fields.contains_key(k),
    ensures
        config::loaded(config::ReadModel::Parsed(c)).file is None,
        config::loaded(config::ReadModel::Unparsed(s)).file == Some(
            json::pretty_text(json::DocumentModel::Object(config::filled(fields))),
        ),
        config::filled(fields).contains_key(k) && config::filled(fields)[k] == fields[k],
{
    filling_clobbers_nothing(fields, k);
}

/// Writing the same settings to the config file a second time changes nothing.
pub proof fn persisting_twice_changes_nothing(
    fields: Map<Seq<char>, Seq<char>>,
    again: Option<json::DocumentModel>,
    c: config::ConfigModel,
)
    ensures
        config::persisted(json::DocumentModel::Object(fields), again, c) matches Some(after)
            && config::persisted(after, again, c) == Some(after),
{
    config::lemma_names();
    let set = config::with_settings(fields, c);
    assert(config::with_settings(set, c) =~= set);
    if let Some(own) = config::module_settings(again) {
        let full = set.insert("module_specific"@, own);
        assert(config::with_settings(full, c) =~= full);
    }
}

proof fn lemma_overridden_unchanged(c: config::ConfigModel, changed: bool, args: Seq<Seq<char>>)
    ensures
        changed ==> config::overridden(c, changed, args).1,
        !config::overridden(c, changed, args).1 ==> config::overridden(c, changed, args).0 == c,
    decreases args.len(),
{
    if args.len() > 0 {
        if args.len() >= 2 && config::option_effect(c, args[0], args[1]) is Some {
            let effect = config::option_effect(c, args[0], args[1])->0;
            lemma_overridden_unchanged(effect.0, changed || effect.1, args.skip(2));
        } else {
            lemma_overridden_unchanged(c, changed, args.skip(1));
        }
    }
}

/// A command line that is said to set nothing leaves the settings as they are,
/// so that nothing is lost when they are not written to the config file.
pub proof fn silent_command_line_changes_nothing(c: config::ConfigModel, args: Seq<Seq<char>>)
    ensures
        !config::overridden(c, false, args).1 ==> config::overridden(c, false, args).0 == c,
{
    lemma_overridden_unchanged(c, false, args);
}

/// The PIN variable changes the PIN and nothing else, so it is no reason to
/// write the config file.
pub proof fn pin_variable_sets_the_pin_alone(
    c: config::ConfigModel,
    variable: Option<Seq<char>>,
)
    ensures
        config::with_pin_variable(c, variable) == (config::ConfigModel {
            pin: config::with_pin_variable(c, variable).pin,
            ..c
        }),
{
}

/// Whether an argument is an option of the command line.
pub open spec fn is_option(flag: Seq<char>) -> bool {
    ||| flag == "--ip"@
    ||| flag == "-i"@
    ||| flag == "--port"@
    ||| flag == "-p"@
    ||| flag == "--pin"@
    ||| flag == "--name"@
    ||| flag == "-n"@
}

/// The last PIN that a command line gives.
pub open spec fn given_pin(args: Seq<Seq<char>>) -> Option<int>
    decreases args.len(),
{
    if args.len() == 0 {
        None
    } else if args.len() >= 2 && is_option(args[0]) {
        match given_pin(args.skip(2)) {
            Some(pin) => Some(pin),
            None => if args[0] == "--pin"@ {
                number::integer_of(args[1], i32::MIN as int, i32::MAX as int)
            } else {
                None
            },
        }
    } else {
        given_pin(args.skip(1))
    }
}

/// The command line has the last word on the PIN: the last PIN that it gives
/// counts, and the PIN from before only if it gives none.
pub proof fn command_line_pin_wins(c: config::ConfigModel, changed: bool, args: Seq<Seq<char>>)
    ensures
        config::overridden(c, changed, args).0.pin == match given_pin(args) {
            Some(pin) => pin,
            None => c.pin as int,
        },
    decreases args.len(),
{
    lemma_flags();
    if args.len() > 0 {
        if args.len() >= 2 && is_option(args[0]) {
            let effect = config::option_effect(c, args[0], args[1])->0;
            command_line_pin_wins(effect.0, changed || effect.1, args.skip(2));
        } else {
            command_line_pin_wins(c, changed, args.skip(1));
        }
    }
}

/// The PIN is the last one on the command line; if that gives none, the one of
/// the environment; and only if that is none either, the one of the config file.
/// The environment changes no other setting, and the config file is written for
/// the command line's sake alone.
pub proof fn the_closest_pin_wins(
    c: config::ConfigModel,
    variable: Option<Seq<char>>,
    program: Seq<char>,
    args: Seq<Seq<char>>,
)
    ensures
        ({
            let all = seq![program] + args;
            let with = config::configured(c, variable, all);
            let without = config::configured(c, None, all);
            &&& with.0.pin == match given_pin(args) {
                Some(pin) => pin,
                None => match variable {
                    Some(s) => match number::integer_of(s, -0x8000_0000, 0x7fff_ffff) {
                        Some(pin) => pin,
                        None => c.pin as int,
                    },
                    None => c.pin as int,
                },
            }
            &&& with.0 == (config::ConfigModel { pin: with.0.pin, ..without.0 })
            &&& with.1 == without.1
            &&& without == config::overridden(c, false, args)
        }),
{
    let all = seq![program] + args;
    let d = config::with_pin_variable(c, variable);
    what_is_no_option_is_passed_over(c, false, program, args);
    command_line_pin_wins(d, false, args);
    if let Some(s) = variable {
        if let Some(pin) = number::integer_of(s, -0x8000_0000, 0x7fff_ffff) {
            the_pin_variable_is_the_pin(c, s, pin as i32);
        } else {
            the_pin_variable_is_the_pin(c, s, 0);
        }
    }
    lemma_overridden_apart(c, d, false, args);
}

/// Settings that differ in the PIN alone still do behind the same command line.
proof fn lemma_overridden_apart(
    a: config::ConfigModel,
    b: config::ConfigModel,
    changed: bool,
    args: Seq<Seq<char>>,
)
    requires
        b == (config::ConfigModel { pin: b.pin, ..a }),
    ensures
        ({
            let x = config::overridden(a, changed, args);
            let y = config::overridden(b, changed, args);
            y.0 == (config::ConfigModel { pin: y.0.pin, ..x.0 }) && x.1 == y.1
        }),
    decreases args.len(),
{
    if args.len() > 0 {
        if args.len() >= 2 && config::option_effect(a, args[0], args[1]) is Some {
            let x = config::option_effect(a, args[0], args[1])->0;
            let y = config::option_effect(b, args[0], args[1])->0;
            lemma_overridden_apart(x.0, y.0, changed || x.1, args.skip(2));
        } else {
            lemma_overridden_apart(a, b, changed, args.skip(1));
        }
    }
}

/// The options are all different.
proof fn lemma_flags()
    ensures
        "--pin"@ != "--ip"@,
        "--pin"@ != "-i"@,
        "--pin"@ != "--port"@,
        "--pin"@ != "-p"@,
        "--port"@ != "--ip"@,
        "--port"@ != "-i"@,
        "-p"@ != "--ip"@,
        "-p"@ != "-i"@,
        "--name"@ != "--ip"@,
        "--name"@ != "-i"@,
        "--name"@ != "--port"@,
        "--name"@ != "-p"@,
        "--name"@ != "--pin"@,
        "-n"@ != "--ip"@,
        "-n"@ != "-i"@,
        "-n"@ != "--port"@,
        "-n"@ != "-p"@,
        "-n"@ != "--pin"@,
{
    reveal_strlit("--pin");
    reveal_strlit("--ip");
    reveal_strlit("-i");
    reveal_strlit("--port");
    reveal_strlit("-p");
    reveal_strlit("--name");
    reveal_strlit("-n");
    assert("--pin"@.len() == 5 && "--ip"@.len() == 4 && "--port"@.len() == 6);
    assert("-i"@.len() == 2 && "-p"@.len() == 2 && "-n"@.len() == 2 && "--name"@.len() == 6);
    assert("-p"@[1] != "-i"@[1]);
    assert("-n"@[1] != "-i"@[1]);
    assert("-n"@[1] != "-p"@[1]);
    assert("--name"@[2] != "--port"@[2]);
}

} // verus!
