use context_info::aws::aws_info;
use context_info::aws::first_set_in;
use context_info::aws::get_aws_region_from_config;
use context_info::aws::get_config;
use context_info::aws::get_profile_config;
use context_info::aws::needs_config;
use context_info::aws::opt_string;
use context_info::aws::profile_env_vars;
use context_info::aws::region_env_vars;
use context_info::aws::AwsInfo;
use context_info::aws::CONFIG_FILE_IN_HOME;
use context_info::aws::CONFIG_FILE_VAR;

fn values(v: &[Option<&str>]) -> Vec<Option<String>> {
    v.iter().map(|o| o.map(|s| s.to_string())).collect()
}

fn info(profile: &str, region: &str) -> AwsInfo {
    AwsInfo { aws_profile: profile.to_string(), aws_region: region.to_string() }
}

const CONFIG: &str = "[default]\nregion = eu-central-1\noutput = json\n\n[profile foo]\nregion = us-west-2\n\n[profile bare]\noutput = text\n";

#[test]
fn opt_string_some_and_none() {
    assert_eq!(opt_string(Some("abc".to_string())), "abc");
    assert_eq!(opt_string(Some(String::new())), "");
    assert_eq!(opt_string(None), "");
}

#[test]
fn env_var_names_in_priority_order() {
    assert_eq!(profile_env_vars(), vec!["AWSU_PROFILE", "AWS_VAULT", "AWSUME_PROFILE", "AWS_PROFILE"]);
    assert_eq!(region_env_vars(), vec!["AWS_REGION", "AWS_DEFAULT_REGION"]);
    assert_eq!(CONFIG_FILE_VAR, "AWS_CONFIG_FILE");
    assert_eq!(CONFIG_FILE_IN_HOME, ".aws/config");
}

#[test]
fn first_set_in_takes_the_first() {
    assert_eq!(first_set_in(&values(&[None, Some("b"), Some("c")])), Some("b".to_string()));
    assert_eq!(first_set_in(&values(&[Some("a"), Some("b")])), Some("a".to_string()));
    assert_eq!(first_set_in(&values(&[None, None])), None);
    assert_eq!(first_set_in(&values(&[])), None);
}

#[test]
fn first_set_in_counts_an_empty_value_as_set() {
    assert_eq!(first_set_in(&values(&[None, Some(""), Some("c")])), Some(String::new()));
}

#[test]
fn aws_info_nothing_set_is_empty() {
    let none4 = values(&[None, None, None, None]);
    let none2 = values(&[None, None]);
    assert_eq!(aws_info(&none4, &none2, None), info("", ""));
}

#[test]
fn aws_info_vault_wins_over_profile() {
    let profiles = values(&[None, Some("from-vault"), None, Some("from-profile")]);
    let regions = values(&[Some("us-east-1"), None]);
    assert_eq!(aws_info(&profiles, &regions, None), info("from-vault", "us-east-1"));
}

#[test]
fn aws_info_profile_priority_order() {
    let regions = values(&[None, None]);
    let all = values(&[Some("awsu"), Some("vault"), Some("awsume"), Some("profile")]);
    assert_eq!(aws_info(&all, &regions, None).aws_profile, "awsu");
    let three = values(&[None, Some("vault"), Some("awsume"), Some("profile")]);
    assert_eq!(aws_info(&three, &regions, None).aws_profile, "vault");
    let two = values(&[None, None, Some("awsume"), Some("profile")]);
    assert_eq!(aws_info(&two, &regions, None).aws_profile, "awsume");
    let one = values(&[None, None, None, Some("profile")]);
    assert_eq!(aws_info(&one, &regions, None).aws_profile, "profile");
}

#[test]
fn aws_info_region_priority_order() {
    let profiles = values(&[None, None, None, None]);
    let both = values(&[Some("specific"), Some("default")]);
    assert_eq!(aws_info(&profiles, &both, Some(CONFIG)), info("", "specific"));
    let second = values(&[None, Some("default")]);
    assert_eq!(aws_info(&profiles, &second, Some(CONFIG)), info("", "default"));
}

#[test]
fn aws_info_region_from_profile_section() {
    let profiles = values(&[None, None, None, Some("foo")]);
    let regions = values(&[None, None]);
    let config = "[profile foo]\nregion = us-west-2\n";
    assert_eq!(aws_info(&profiles, &regions, Some(config)), info("foo", "us-west-2"));
}

#[test]
fn aws_info_region_from_default_section() {
    let profiles = values(&[None, None, None, None]);
    let regions = values(&[None, None]);
    assert_eq!(aws_info(&profiles, &regions, Some(CONFIG)), info("", "eu-central-1"));
}

#[test]
fn aws_info_env_region_wins_over_config() {
    let profiles = values(&[None, None, None, Some("foo")]);
    let regions = values(&[None, Some("ap-south-1")]);
    assert_eq!(aws_info(&profiles, &regions, Some(CONFIG)), info("foo", "ap-south-1"));
}

#[test]
fn aws_info_profile_without_section_has_no_region() {
    let profiles = values(&[None, None, None, Some("missing")]);
    let regions = values(&[None, None]);
    assert_eq!(aws_info(&profiles, &regions, Some(CONFIG)), info("missing", ""));
}

#[test]
fn aws_info_section_without_region_has_no_region() {
    let profiles = values(&[None, None, None, Some("bare")]);
    let regions = values(&[None, None]);
    assert_eq!(aws_info(&profiles, &regions, Some(CONFIG)), info("bare", ""));
}

#[test]
fn aws_info_unreadable_config_has_no_region() {
    let profiles = values(&[None, None, None, Some("foo")]);
    let regions = values(&[None, None]);
    assert_eq!(aws_info(&profiles, &regions, None), info("foo", ""));
}

#[test]
fn aws_info_unparsable_config_has_no_region() {
    let profiles = values(&[None, None, None, Some("foo")]);
    let regions = values(&[None, None]);
    assert_eq!(aws_info(&profiles, &regions, Some("[profile foo\nregion = us-west-2\n")), info("foo", ""));
}

#[test]
fn aws_info_empty_profile_value_is_a_profile() {
    let profiles = values(&[Some(""), None, None, Some("foo")]);
    let regions = values(&[None, None]);
    assert_eq!(aws_info(&profiles, &regions, Some(CONFIG)), info("", ""));
}

#[test]
fn needs_config_only_without_region() {
    assert!(needs_config(&values(&[None, None])));
    assert!(!needs_config(&values(&[Some("r"), None])));
    assert!(!needs_config(&values(&[None, Some("r")])));
    assert!(!needs_config(&values(&[None, Some("")])));
}

#[test]
fn get_config_loads_text() {
    assert!(get_config(Some(CONFIG)).is_some());
    assert!(get_config(None).is_none());
    assert!(get_config(Some("[broken\n")).is_none());
    let config = get_config(Some(CONFIG)).unwrap();
    assert_eq!(config.get_from(Some("profile foo"), "region"), Some("us-west-2"));
}

#[test]
fn get_config_skips_a_byte_order_mark() {
    let config = get_config(Some("\u{feff}[default]\nregion = eu-north-1\n")).unwrap();
    assert_eq!(config.get_from(Some("default"), "region"), Some("eu-north-1"));
    assert_eq!(
        get_aws_region_from_config(&None, Some("\u{feff}[default]\nregion = eu-north-1\n")),
        Some("eu-north-1".to_string())
    );
}

#[test]
fn get_profile_config_picks_the_section() {
    let config = get_config(Some(CONFIG)).unwrap();
    let foo = get_profile_config(&config, &Some("foo".to_string())).unwrap();
    assert_eq!(foo.get("region"), Some("us-west-2"));
    let default = get_profile_config(&config, &None).unwrap();
    assert_eq!(default.get("region"), Some("eu-central-1"));
    assert_eq!(default.get("output"), Some("json"));
    assert!(get_profile_config(&config, &Some("other".to_string())).is_none());
    assert!(get_profile_config(&config, &Some("default".to_string())).is_none());
}

#[test]
fn get_aws_region_from_config_cases() {
    assert_eq!(get_aws_region_from_config(&Some("foo".to_string()), Some(CONFIG)), Some("us-west-2".to_string()));
    assert_eq!(get_aws_region_from_config(&None, Some(CONFIG)), Some("eu-central-1".to_string()));
    assert_eq!(get_aws_region_from_config(&Some("bare".to_string()), Some(CONFIG)), None);
    assert_eq!(get_aws_region_from_config(&Some("nope".to_string()), Some(CONFIG)), None);
    assert_eq!(get_aws_region_from_config(&Some("foo".to_string()), None), None);
    assert_eq!(get_aws_region_from_config(&None, Some("")), None);
}

#[test]
fn aws_info_clone_keeps_the_fields() {
    let i = info("p", "r");
    assert_eq!(i.clone(), i);
}
