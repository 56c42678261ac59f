//! INI files, as the `rust-ini` crate loads and reads them.

use ini::Ini;
use ini::Properties;
use vstd::prelude::*;

verus! {

/// `ini::Ini`, a loaded INI file. Nothing is known of one but what the
/// functions below say.
#[verifier::external_type_specification]
#[verifier::external_body]
pub struct ExIni(Ini);

/// `ini::Properties`, the keys and values of one section.
#[verifier::external_type_specification]
#[verifier::external_body]
pub struct ExProperties(Properties);

/// What `Ini::load_from_str` makes of a text: the loaded file, or `None`
/// where the text is not an INI file.
pub uninterp spec fn ini_loaded(text: Seq<char>) -> Option<Ini>;

/// What `Ini::section` gives for a section name: the section's properties,
/// or `None` where the file has no section of that name.
pub uninterp spec fn ini_section(config: Ini, name: Seq<char>) -> Option<Properties>;

/// What `Properties::get` gives for a key: the value under it, or `None`
/// where the section has no such key.
pub uninterp spec fn ini_value(section: Properties, key: Seq<char>) -> Option<Seq<char>>;

/// Calls `Ini::load_from_str` and drops the parse error. The outcome depends
/// on the text alone.
#[verifier::external_body]
pub(crate) fn load_from_str(text: &str) -> (config: Option<Ini>)
    ensures
        config == ini_loaded(text@),
{
    Ini::load_from_str(text).ok()
}

/// Calls `Ini::section` with a section name. The outcome depends on the
/// file and the name alone.
#[verifier::external_body]
pub(crate) fn section<'a>(config: &'a Ini, name: &str) -> (properties: Option<&'a Properties>)
    ensures
        match properties {
            Some(p) => ini_section(*config, name@) == Some(*p),
            None => ini_section(*config, name@) is None,
        },
{
    config.section(Some(name))
}

/// Calls `Properties::get`. The outcome depends on the section and the key
/// alone.
#[verifier::external_body]
pub(crate) fn get<'a>(section: &'a Properties, key: &str) -> (value: Option<&'a str>)
    ensures
        match value {
            Some(v) => ini_value(*section, key@) == Some(v@),
            None => ini_value(*section, key@) is None,
        },
{
    section.get(key)
}

} // verus!
