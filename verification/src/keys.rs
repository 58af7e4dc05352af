//! Keys of the virtual keyboard and the names that a configuration gives them.

use crate::text;
use crate::text::{same_str, trim};
use vstd::prelude::*;
use vstd::string::*;

verus! {

/// A key of the Linux input layer, by its code.
#[derive(Clone, Copy, PartialEq, Eq, Structural, Debug)]
pub struct Key {
    pub code: u16,
}

pub const KEY_ESC: u16 = 1;

pub const KEY_LEFT_CTRL: u16 = 29;

pub const KEY_LEFT_SHIFT: u16 = 42;

pub const KEY_RIGHT_SHIFT: u16 = 54;

pub const KEY_LEFT_ALT: u16 = 56;

pub const KEY_RIGHT_CTRL: u16 = 97;

pub const KEY_RIGHT_ALT: u16 = 100;

pub const KEY_LEFT_META: u16 = 125;

pub const KEY_RIGHT_META: u16 = 126;

pub const KEY_BRIGHTNESS_DOWN: u16 = 224;

pub const KEY_BRIGHTNESS_UP: u16 = 225;

pub const KEY_ILLUM_DOWN: u16 = 229;

pub const KEY_ILLUM_UP: u16 = 230;

/// The code of a button without an action.
pub const KEY_UNKNOWN: u16 = 240;

/// The code of a button that shows the clock.
pub const KEY_TIME: u16 = 0x167;

pub const KEY_FN: u16 = 0x1d0;

pub const KEY_MACRO1: u16 = 0x290;

pub const KEY_MACRO2: u16 = 0x291;

pub const KEY_MACRO3: u16 = 0x292;

pub const KEY_MACRO4: u16 = 0x293;

/// The key name that a punctuation mark abbreviates; any other name stands
/// for itself.
pub open spec fn canonical_name(name: Seq<char>) -> Seq<char> {
    if name == "."@ {
        "Dot"@
    } else if name == ","@ || name == "<"@ {
        "Comma"@
    } else if name == "/"@ {
        "Slash"@
    } else if name == "\\"@ {
        "Backslash"@
    } else if name == "-"@ {
        "Minus"@
    } else if name == "="@ {
        "Equal"@
    } else if name == ";"@ {
        "Semicolon"@
    } else if name == "'"@ {
        "Apostrophe"@
    } else if name == "["@ {
        "Leftbrace"@
    } else if name == "]"@ {
        "Rightbrace"@
    } else if name == "`"@ {
        "Grave"@
    } else {
        name
    }
}

/// Spells out a punctuation mark as a key name.
pub fn canonical_key_name<'a>(name: &'a str) -> (r: &'a str)
    ensures
        r@ == canonical_name(name@),
{
    if same_str(name, ".") {
        "Dot"
    } else if same_str(name, ",") || same_str(name, "<") {
        "Comma"
    } else if same_str(name, "/") {
        "Slash"
    } else if same_str(name, "\\") {
        "Backslash"
    } else if same_str(name, "-") {
        "Minus"
    } else if same_str(name, "=") {
        "Equal"
    } else if same_str(name, ";") {
        "Semicolon"
    } else if same_str(name, "'") {
        "Apostrophe"
    } else if same_str(name, "[") {
        "Leftbrace"
    } else if same_str(name, "]") {
        "Rightbrace"
    } else if same_str(name, "`") {
        "Grave"
    } else {
        name
    }
}

/// The TOML document in which a key is named as the value of `action`.
pub open spec fn key_document(name: Seq<char>) -> Seq<char> {
    "action = \""@ + name + "\""@
}

/// The document that is parsed for `name`; blank names are not looked up.
pub open spec fn lookup_document(name: Seq<char>) -> Option<Seq<char>> {
    if text::trimmed(name).len() == 0 {
        None
    } else {
        Some(key_document(canonical_name(text::trimmed(name))))
    }
}

/// The code of the `input_linux::Key` that a TOML document holds under
/// `action`, whatever else it holds, as the `toml_edit` crate parses it, or
/// nothing where the document does not parse, lacks the entry or names no key
/// there.
pub uninterp spec fn toml_key_code(document: Seq<char>) -> Option<u16>;

/// Calls `toml_edit::ImDocument::parse`, the parser of the `toml` crate, on the
/// document, and `serde::Deserialize::deserialize` of `input_linux::Key` on its
/// `action` entry. The result depends on the text of the document alone; which
/// names are keys is left to the name.
#[verifier::external_body]
fn key_code_in_toml(document: &str) -> (r: Option<u16>)
    ensures
        r == toml_key_code(document@),
{
    let parsed = toml_edit::ImDocument::parse(document).ok()?;
    let value = parsed.get("action")?.as_value()?.clone();
    let source = serde::de::IntoDeserializer::into_deserializer(value);
    let key = <input_linux::Key as serde::Deserialize>::deserialize(source).ok()?;
    Some(key as u16)
}

/// The key that a name of the configuration stands for.
pub open spec fn key_named(name: Seq<char>) -> Option<Key> {
    match lookup_document(name) {
        None => None,
        Some(document) => match toml_key_code(document) {
            Some(code) => Some(Key { code }),
            None => None,
        },
    }
}

/// The document to parse for `name`: nothing where the name is blank.
pub fn key_lookup(name: &str) -> (r: Option<String>)
    ensures
        (r is Some) == (lookup_document(name@) is Some),
        r matches Some(document) ==> lookup_document(name@) == Some(document@),
{
    let inner = trim(name);
    if inner.is_empty() {
        return None;
    }
    let mut document = "action = \"".to_owned();
    document.append(canonical_key_name(inner));
    document.append("\"");
    Some(document)
}

/// Map key names of the configuration and of the editor to keys.
pub fn parse_key_name(name: &str) -> (r: Option<Key>)
    ensures
        r == key_named(name@),
{
    match key_lookup(name) {
        None => None,
        Some(document) => match key_code_in_toml(document.as_str()) {
            Some(code) => Some(Key { code }),
            None => None,
        },
    }
}

/// The name is given, but no key has it.
pub open spec fn names_no_key(name: Seq<char>) -> bool {
    text::trimmed(name).len() > 0 && key_named(name) is None
}

/// Tells whether a name is given that no key has, so that it is ignored.
pub fn is_unknown_key_name(name: &str) -> (r: bool)
    ensures
        r == names_no_key(name@),
{
    match key_lookup(name) {
        None => false,
        Some(_) => parse_key_name(name).is_none(),
    }
}

/// The marks that stand for key names.
pub proof fn marks_stand_for_keys()
    ensures
        canonical_name("."@) == "Dot"@,
        canonical_name(","@) == "Comma"@,
        canonical_name("<"@) == "Comma"@,
        canonical_name("/"@) == "Slash"@,
        canonical_name("\\"@) == "Backslash"@,
        canonical_name("-"@) == "Minus"@,
        canonical_name("="@) == "Equal"@,
        canonical_name(";"@) == "Semicolon"@,
        canonical_name("'"@) == "Apostrophe"@,
        canonical_name("["@) == "Leftbrace"@,
        canonical_name("]"@) == "Rightbrace"@,
        canonical_name("`"@) == "Grave"@,
{
    reveal_strlit(".");
    reveal_strlit(",");
    reveal_strlit("<");
    reveal_strlit("/");
    reveal_strlit("\\");
    reveal_strlit("-");
    reveal_strlit("=");
    reveal_strlit(";");
    reveal_strlit("'");
    reveal_strlit("[");
    reveal_strlit("]");
    reveal_strlit("`");
    assert("."@[0] == '.' && ","@[0] == ',' && "<"@[0] == '<' && "/"@[0] == '/');
    assert("\\"@[0] == '\\' && "-"@[0] == '-' && "="@[0] == '=' && ";"@[0] == ';');
    assert("'"@[0] == '\'' && "["@[0] == '[' && "]"@[0] == ']' && "`"@[0] == '`');
}

/// A name of more than one character, and any single one that is a letter or a
/// digit, stands for itself.
pub proof fn names_stand_for_themselves(name: Seq<char>)
    requires
        name.len() != 1 || 'a' <= name[0] <= 'z' || 'A' <= name[0] <= 'Z' || '0' <= name[0] <= '9',
    ensures
        canonical_name(name) == name,
{
    reveal_strlit(".");
    reveal_strlit(",");
    reveal_strlit("<");
    reveal_strlit("/");
    reveal_strlit("\\");
    reveal_strlit("-");
    reveal_strlit("=");
    reveal_strlit(";");
    reveal_strlit("'");
    reveal_strlit("[");
    reveal_strlit("]");
    reveal_strlit("`");
    assert("."@[0] == '.' && ","@[0] == ',' && "<"@[0] == '<' && "/"@[0] == '/');
    assert("\\"@[0] == '\\' && "-"@[0] == '-' && "="@[0] == '=' && ";"@[0] == ';');
    assert("'"@[0] == '\'' && "["@[0] == '[' && "]"@[0] == ']' && "`"@[0] == '`');
    assert("."@.len() == 1 && ","@.len() == 1 && "<"@.len() == 1 && "/"@.len() == 1);
    assert("\\"@.len() == 1 && "-"@.len() == 1 && "="@.len() == 1 && ";"@.len() == 1);
    assert("'"@.len() == 1 && "["@.len() == 1 && "]"@.len() == 1 && "`"@.len() == 1);
}

/// A name is looked up as the value of `action`, without the white space around
/// it and with a mark spelled out; a blank one is not looked up and names no key.
/// The key has the code that is found.
pub proof fn names_are_looked_up(name: Seq<char>)
    ensures
        text::trimmed(name).len() == 0 ==> lookup_document(name) is None && key_named(name) is None
            && !names_no_key(name),
        text::trimmed(name).len() > 0 ==> {
            let document = "action = \""@ + canonical_name(text::trimmed(name)) + "\""@;
            &&& lookup_document(name) == Some(document)
            &&& toml_key_code(document) is None ==> key_named(name) is None && names_no_key(name)
            &&& toml_key_code(document) matches Some(code) ==> key_named(name) == Some(
                Key { code },
            ) && !names_no_key(name)
        },
        lookup_document(text::trimmed(name)) == lookup_document(name),
{
    text::trimming_again(name);
}

} // verus!
