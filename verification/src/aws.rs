//! The current cloud profile and region: taken from the environment, the
//! region else from the profile's section of the configuration file.

use crate::ini_config::get;
use crate::ini_config::ini_loaded;
use crate::ini_config::ini_section;
use crate::ini_config::ini_value;
use crate::ini_config::load_from_str;
use crate::ini_config::section;
use crate::text::opt_str;
use crate::text::opt_text;
use crate::text::or_empty;
use crate::text::strip_mark;
use crate::text::texts;
use crate::text::without_mark;
use ini::Ini;
use ini::Properties;
use vstd::prelude::*;

verus! {

/// The environment variable that names another configuration file.
pub const CONFIG_FILE_VAR: &'static str = "AWS_CONFIG_FILE";

/// Where the configuration file lies below the home directory.
pub const CONFIG_FILE_IN_HOME: &'static str = ".aws/config";

/// The current profile and region. A field that could not be resolved is
/// the empty string.
#[derive(Debug, PartialEq, Eq)]
pub struct AwsInfo {
    pub aws_profile: String,
    pub aws_region: String,
}

/// The mathematical value of an `AwsInfo`.
pub struct AwsInfoView {
    pub aws_profile: Seq<char>,
    pub aws_region: Seq<char>,
}

impl View for AwsInfo {
    type V = AwsInfoView;

    open spec fn view(&self) -> AwsInfoView {
        AwsInfoView { aws_profile: self.aws_profile@, aws_region: self.aws_region@ }
    }
}

impl Clone for AwsInfo {
    fn clone(&self) -> (info: AwsInfo)
        ensures
            info@ == self@,
    {
        AwsInfo { aws_profile: self.aws_profile.clone(), aws_region: self.aws_region.clone() }
    }
}

/// The environment variables that name the profile, the one that counts
/// most first.
pub fn profile_env_vars() -> (names: Vec<&'static str>)
    ensures
        names@.len() == 4,
        names@[0]@ == "AWSU_PROFILE"@,
        names@[1]@ == "AWS_VAULT"@,
        names@[2]@ == "AWSUME_PROFILE"@,
        names@[3]@ == "AWS_PROFILE"@,
{
    let mut names: Vec<&'static str> = Vec::new();
    names.push("AWSU_PROFILE");
    names.push("AWS_VAULT");
    names.push("AWSUME_PROFILE");
    names.push("AWS_PROFILE");
    names
}

/// The environment variables that name the region, the one that counts
/// most first.
pub fn region_env_vars() -> (names: Vec<&'static str>)
    ensures
        names@.len() == 2,
        names@[0]@ == "AWS_REGION"@,
        names@[1]@ == "AWS_DEFAULT_REGION"@,
{
    let mut names: Vec<&'static str> = Vec::new();
    names.push("AWS_REGION");
    names.push("AWS_DEFAULT_REGION");
    names
}

/// The first value at or after `from` that is set.
pub open spec fn first_set_from(values: Seq<Option<Seq<char>>>, from: int) -> Option<Seq<char>>
    decreases values.len() - from,
{
    if from < 0 || from >= values.len() {
        None
    } else if values[from] is Some {
        values[from]
    } else {
        first_set_from(values, from + 1)
    }
}

/// The first value that is set. A variable that is set to the empty string
/// is set.
pub open spec fn first_set(values: Seq<Option<Seq<char>>>) -> Option<Seq<char>> {
    first_set_from(values, 0)
}

/// The name of the section that holds a profile's settings.
pub open spec fn section_name(profile: Option<Seq<char>>) -> Seq<char> {
    match profile {
        Some(p) => "profile "@ + p,
        None => "default"@,
    }
}

/// The configuration that a file's text holds; a byte order mark at its
/// start does not count.
pub open spec fn config_of(text: Option<Seq<char>>) -> Option<Ini> {
    match text {
        Some(t) => ini_loaded(without_mark(t)),
        None => None,
    }
}

/// The region that a configuration gives for a profile: the value of
/// `region` in the profile's section.
pub open spec fn region_in(config: Option<Ini>, profile: Option<Seq<char>>) -> Option<Seq<char>> {
    match config {
        Some(c) => match ini_section(c, section_name(profile)) {
            Some(s) => ini_value(s, "region"@),
            None => None,
        },
        None => None,
    }
}

/// The profile and the region for the values of the profile variables and of
/// the region variables, each list in the order of its variables, and the
/// text of the configuration file. The profile is the first profile variable
/// that is set. The region is the first region variable that is set; where
/// none is, it is what the configuration file gives for the profile.
pub open spec fn aws_info_of(
    profiles: Seq<Option<Seq<char>>>,
    regions: Seq<Option<Seq<char>>>,
    config_text: Option<Seq<char>>,
) -> AwsInfoView {
    AwsInfoView {
        aws_profile: or_empty(first_set(profiles)),
        aws_region: match first_set(regions) {
            Some(r) => r,
            None => or_empty(region_in(config_of(config_text), first_set(profiles))),
        },
    }
}

/// The string, or the empty string where there is none.
pub fn opt_string(s: Option<String>) -> (text: String)
    ensures
        text@ == or_empty(opt_text(s)),
{
    match s {
        Some(s) => s,
        None => String::new(),
    }
}

/// The first of the values that is set.
pub fn first_set_in(values: &Vec<Option<String>>) -> (value: Option<String>)
    ensures
        opt_text(value) == first_set(texts(values@)),
{
    let mut i: usize = 0;
    while i < values.len()
        invariant
            i <= values@.len(),
            first_set(texts(values@)) == first_set_from(texts(values@), i as int),
        decreases values@.len() - i,
    {
        match &values[i] {
            Some(v) => {
                return Some(v.clone());
            },
            None => {},
        }
        i += 1;
    }
    None
}

/// Whether the configuration file has to be read: it is asked for the
/// region only, and only where no region variable is set.
pub fn needs_config(region_values: &Vec<Option<String>>) -> (needed: bool)
    ensures
        needed == (first_set(texts(region_values@)) is None),
{
    first_set_in(region_values).is_none()
}

/// Loads the configuration from the file's text; `None` stands for a file
/// that could not be read.
pub fn get_config(config_text: Option<&str>) -> (config: Option<Ini>)
    ensures
        config == config_of(opt_str(config_text)),
{
    match config_text {
        Some(text) => load_from_str(strip_mark(text)),
        None => None,
    }
}

/// The section of the configuration that holds the profile's settings:
/// `profile` and the profile's name, or `default` where no profile is named.
pub fn get_profile_config<'a>(
    config: &'a Ini,
    profile: &Option<String>,
) -> (properties: Option<&'a Properties>)
    ensures
        match properties {
            Some(p) => ini_section(*config, section_name(opt_text(*profile))) == Some(*p),
            None => ini_section(*config, section_name(opt_text(*profile))) is None,
        },
{
    match profile {
        Some(profile) => {
            let name = String::from_str("profile ").concat(profile.as_str());
            section(config, name.as_str())
        },
        None => section(config, "default"),
    }
}

/// The region that the configuration file gives for the profile.
pub fn get_aws_region_from_config(
    aws_profile: &Option<String>,
    config_text: Option<&str>,
) -> (region: Option<String>)
    ensures
        opt_text(region) == region_in(config_of(opt_str(config_text)), opt_text(*aws_profile)),
{
    let config = match get_config(config_text) {
        Some(config) => config,
        None => {
            return None;
        },
    };
    let section = match get_profile_config(&config, aws_profile) {
        Some(section) => section,
        None => {
            return None;
        },
    };
    match get(section, "region") {
        Some(region) => Some(region.to_owned()),
        None => None,
    }
}

/// The current profile and region. `profile_values` and `region_values`
/// hold the values of the variables that `profile_env_vars` and
/// `region_env_vars` name, in that order, `None` for one that is not set.
/// `config_text` is the text of the configuration file, `None` where it
/// could not be read; it is looked at only where no region variable is set.
pub fn aws_info(
    profile_values: &Vec<Option<String>>,
    region_values: &Vec<Option<String>>,
    config_text: Option<&str>,
) -> (info: AwsInfo)
    ensures
        info@ == aws_info_of(texts(profile_values@), texts(region_values@), opt_str(config_text)),
{
    let profile = first_set_in(profile_values);
    let region = first_set_in(region_values);
    match (profile, region) {
        (Some(p), Some(r)) => AwsInfo { aws_profile: p, aws_region: r },
        (None, Some(r)) => AwsInfo { aws_profile: String::new(), aws_region: r },
        (Some(p), None) => AwsInfo {
            aws_profile: p.clone(),
            aws_region: opt_string(get_aws_region_from_config(&Some(p), config_text)),
        },
        (None, None) => AwsInfo {
            aws_profile: String::new(),
            aws_region: opt_string(get_aws_region_from_config(&None, config_text)),
        },
    }
}

/// With no variable set and no configuration file, both fields are empty.
pub proof fn lemma_nothing_set(profiles: Seq<Option<Seq<char>>>, regions: Seq<Option<Seq<char>>>)
    requires
        forall|i: int| 0 <= i < profiles.len() ==> profiles[i] is None,
        forall|i: int| 0 <= i < regions.len() ==> regions[i] is None,
    ensures
        aws_info_of(profiles, regions, None).aws_profile == Seq::<char>::empty(),
        aws_info_of(profiles, regions, None).aws_region == Seq::<char>::empty(),
{
    lemma_none_set_from(profiles, 0);
    lemma_none_set_from(regions, 0);
}

proof fn lemma_none_set_from(values: Seq<Option<Seq<char>>>, from: int)
    requires
        0 <= from,
        forall|i: int| 0 <= i < values.len() ==> values[i] is None,
    ensures
        first_set_from(values, from) is None,
    decreases values.len() - from,
{
    if from < values.len() {
        lemma_none_set_from(values, from + 1);
    }
}

/// Where a region variable is set, the configuration file has no say: the
/// result is the same whatever its text, so it need not be read.
pub proof fn lemma_config_unused(
    profiles: Seq<Option<Seq<char>>>,
    regions: Seq<Option<Seq<char>>>,
    config_text: Option<Seq<char>>,
    other_text: Option<Seq<char>>,
)
    requires
        first_set(regions) is Some,
    ensures
        aws_info_of(profiles, regions, config_text) == aws_info_of(profiles, regions, other_text),
{
}

/// The profile is the value of the first profile variable that is set: a
/// variable counts only where every one before it is unset.
pub proof fn lemma_first_set_wins(values: Seq<Option<Seq<char>>>, i: int)
    requires
        0 <= i < values.len(),
        values[i] is Some,
        forall|j: int| 0 <= j < i ==> values[j] is None,
    ensures
        first_set(values) == values[i],
{
    lemma_first_set_from(values, i, 0);
}

proof fn lemma_first_set_from(values: Seq<Option<Seq<char>>>, i: int, from: int)
    requires
        0 <= from <= i < values.len(),
        values[i] is Some,
        forall|j: int| 0 <= j < i ==> values[j] is None,
    ensures
        first_set_from(values, from) == values[i],
    decreases i - from,
{
    if from < i {
        lemma_first_set_from(values, i, from + 1);
    }
}

} // verus!
