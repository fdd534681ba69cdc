//! What a user asks for when packages are updated.

use vstd::prelude::*;

use crate::text::{clone_opt, is_text, opt_text};

verus! {

/// A calendar date, from `chrono`. Nothing is said of what is inside.
#[verifier::external_type_specification]
#[verifier::external_body]
pub struct ExNaiveDate(chrono::NaiveDate);

/// How changelogs are written, from `git_cliff_core`. Nothing is said of what is inside.
#[verifier::external_type_specification]
#[verifier::external_body]
pub struct ExConfig(git_cliff_core::config::Config);

/// What a user asks for when changelogs are written.
#[derive(Debug, Clone)]
pub struct ChangelogRequest {
    /// When the new release is published. If unspecified, current date is used.
    pub release_date: Option<chrono::NaiveDate>,
    pub changelog_config: Option<git_cliff_core::config::Config>,
}

impl Default for ChangelogRequest {
    /// Neither a date nor a configuration.
    fn default() -> (r: Self)
        ensures
            r.release_date is None,
            r.changelog_config is None,
    {
        ChangelogRequest { release_date: None, changelog_config: None }
    }
}

/// Templates for a release.
#[derive(Debug, PartialEq, Eq)]
pub struct ReleaseMetadata {
    /// Template for the git tag of the release.
    pub tag_name_template: Option<String>,
    /// Template for the name of the release.
    pub release_name_template: Option<String>,
}

/// What the templates for a release stand for.
pub ghost struct ReleaseMetadataView {
    pub tag_name_template: Option<Seq<char>>,
    pub release_name_template: Option<Seq<char>>,
}

impl View for ReleaseMetadata {
    type V = ReleaseMetadataView;

    open spec fn view(&self) -> ReleaseMetadataView {
        ReleaseMetadataView {
            tag_name_template: opt_text(self.tag_name_template),
            release_name_template: opt_text(self.release_name_template),
        }
    }
}

impl Clone for ReleaseMetadata {
    fn clone(&self) -> (r: Self)
        ensures
            r@ == self@,
    {
        ReleaseMetadata {
            tag_name_template: clone_opt(&self.tag_name_template),
            release_name_template: clone_opt(&self.release_name_template),
        }
    }
}

/// What knows the templates for the releases of packages.
pub trait ReleaseMetadataBuilder {
    /// The templates for a release of the package; `None` if the package is not released.
    fn get_release_metadata(&self, package_name: &str) -> Option<ReleaseMetadata>;
}

/// How a package is updated.
#[derive(Debug, PartialEq, Eq)]
pub struct PackageConfig {
    /// Whether the package is released.
    pub release: bool,
    /// Template for the git tag of a release.
    pub tag_name_template: Option<String>,
    /// Whether the last release is found by its git tag, and not in a registry.
    pub git_only: bool,
}

/// What the configuration of a package stands for.
pub ghost struct PackageConfigView {
    pub release: bool,
    pub tag_name_template: Option<Seq<char>>,
    pub git_only: bool,
}

impl View for PackageConfig {
    type V = PackageConfigView;

    open spec fn view(&self) -> PackageConfigView {
        PackageConfigView {
            release: self.release,
            tag_name_template: opt_text(self.tag_name_template),
            git_only: self.git_only,
        }
    }
}

/// What a user asks for.
#[derive(Debug, PartialEq, Eq)]
pub struct UpdateRequest {
    /// How packages are updated that have no configuration of their own.
    pub default_config: PackageConfig,
    /// The configurations of packages, each with the name of its package.
    pub package_configs: Vec<(String, PackageConfig)>,
    /// Whether changes that are not committed are accepted.
    pub allow_dirty: bool,
}

/// What the request of a user stands for.
pub ghost struct UpdateRequestView {
    pub default_config: PackageConfigView,
    pub package_configs: Seq<(Seq<char>, PackageConfigView)>,
    pub allow_dirty: bool,
}

/// What the configurations of packages stand for.
pub open spec fn configs_view(v: Seq<(String, PackageConfig)>) -> Seq<
    (Seq<char>, PackageConfigView),
> {
    v.map_values(|c: (String, PackageConfig)| (c.0@, c.1@))
}

impl View for UpdateRequest {
    type V = UpdateRequestView;

    open spec fn view(&self) -> UpdateRequestView {
        UpdateRequestView {
            default_config: self.default_config@,
            package_configs: configs_view(self.package_configs@),
            allow_dirty: self.allow_dirty,
        }
    }
}

/// The first configuration with the given name, and the default where there is none.
pub open spec fn config_named(
    configs: Seq<(Seq<char>, PackageConfigView)>,
    default: PackageConfigView,
    name: Seq<char>,
) -> PackageConfigView
    decreases configs.len(),
{
    if configs.len() == 0 {
        default
    } else if configs[0].0 == name {
        configs[0].1
    } else {
        config_named(configs.drop_first(), default, name)
    }
}

impl UpdateRequestView {
    /// How the package is updated.
    pub open spec fn config(self, name: Seq<char>) -> PackageConfigView {
        config_named(self.package_configs, self.default_config, name)
    }

    /// The templates for a release of the package.
    pub open spec fn release_metadata(self, name: Seq<char>) -> Option<ReleaseMetadataView> {
        if self.config(name).release {
            Some(
                ReleaseMetadataView {
                    tag_name_template: self.config(name).tag_name_template,
                    release_name_template: None,
                },
            )
        } else {
            None
        }
    }
}

impl UpdateRequest {
    /// How the package is updated.
    pub fn get_package_config(&self, package_name: &str) -> (r: &PackageConfig)
        ensures
            r@ == self@.config(package_name@),
    {
        let ghost all = self@.package_configs;
        let mut i: usize = 0;
        assert(all.skip(0) =~= all);
        while i < self.package_configs.len()
            invariant
                i <= self.package_configs@.len(),
                all == self@.package_configs,
                self@.config(package_name@) == config_named(
                    all.skip(i as int),
                    self.default_config@,
                    package_name@,
                ),
            decreases self.package_configs@.len() - i,
        {
            let (name, config) = &self.package_configs[i];
            proof {
                assert(all.skip(i as int)[0] == (name@, config@));
                assert(all.skip(i as int).drop_first() =~= all.skip(i + 1));
            }
            if is_text(name.as_str(), package_name) {
                return config;
            }
            i += 1;
        }
        &self.default_config
    }

    /// The template for the git tags of the package.
    pub fn get_package_tag_name(&self, package_name: &str) -> (r: Option<String>)
        ensures
            opt_text(r) == self@.config(package_name@).tag_name_template,
    {
        clone_opt(&self.get_package_config(package_name).tag_name_template)
    }

    /// Whether the last release of the package is found by its git tag.
    pub fn should_use_git_only(&self, package_name: &str) -> (r: bool)
        ensures
            r == self@.config(package_name@).git_only,
    {
        self.get_package_config(package_name).git_only
    }
}

impl ReleaseMetadataBuilder for UpdateRequest {
    fn get_release_metadata(&self, package_name: &str) -> (r: Option<ReleaseMetadata>)
        ensures
            match r {
                Some(m) => self@.release_metadata(package_name@) == Some(m@),
                None => self@.release_metadata(package_name@) is None,
            },
    {
        let config = self.get_package_config(package_name);
        if config.release {
            Some(
                ReleaseMetadata {
                    tag_name_template: clone_opt(&config.tag_name_template),
                    release_name_template: None,
                },
            )
        } else {
            None
        }
    }
}

/// A package is updated by the first configuration with its name, and by the default one where
/// there is none.
pub proof fn law_config(input: UpdateRequestView, name: Seq<char>, i: int)
    ensures
        0 <= i < input.package_configs.len() && input.package_configs[i].0 == name && (forall|k: int|
            0 <= k < i ==> (#[trigger] input.package_configs[k]).0 != name) ==> input.config(name)
            == input.package_configs[i].1,
        (forall|k: int|
            0 <= k < input.package_configs.len() ==> (#[trigger] input.package_configs[k]).0
                != name) ==> input.config(name) == input.default_config,
{
    lemma_config(input.package_configs, input.default_config, name, i);
}

proof fn lemma_config(
    configs: Seq<(Seq<char>, PackageConfigView)>,
    default: PackageConfigView,
    name: Seq<char>,
    i: int,
)
    ensures
        0 <= i < configs.len() && configs[i].0 == name && (forall|k: int|
            0 <= k < i ==> (#[trigger] configs[k]).0 != name) ==> config_named(
            configs,
            default,
            name,
        ) == configs[i].1,
        (forall|k: int| 0 <= k < configs.len() ==> (#[trigger] configs[k]).0 != name)
            ==> config_named(configs, default, name) == default,
    decreases configs.len(),
{
    if configs.len() > 0 {
        let rest = configs.drop_first();
        lemma_config(rest, default, name, i - 1);
        assert forall|k: int| 0 <= k < rest.len() implies #[trigger] rest[k] == configs[k + 1] by {}
        if configs[0].0 != name && 0 <= i < configs.len() && configs[i].0 == name && (forall|
            k: int,
        |
            0 <= k < i ==> (#[trigger] configs[k]).0 != name) {
            assert(i > 0);
            assert(rest[i - 1] == configs[i]);
            assert forall|k: int| 0 <= k < i - 1 implies (#[trigger] rest[k]).0 != name by {
                assert(configs[k + 1].0 != name);
            }
        }
        if forall|k: int| 0 <= k < configs.len() ==> (#[trigger] configs[k]).0 != name {
            assert(configs[0].0 != name);
            assert forall|k: int| 0 <= k < rest.len() implies (#[trigger] rest[k]).0 != name by {
                assert(configs[k + 1].0 != name);
            }
        }
    }
}

/// A package has templates for its release exactly where it is released: the configured one for the
/// git tag, and none for the name.
pub proof fn law_release_metadata(input: UpdateRequestView, name: Seq<char>)
    ensures
        input.release_metadata(name) is Some <==> input.config(name).release,
        input.release_metadata(name) matches Some(metadata) ==> metadata.tag_name_template
            == input.config(name).tag_name_template && metadata.release_name_template is None,
{
}

/// What a request, a configuration and the templates for a release stand for has each part of them.
pub proof fn law_request_view(
    input: UpdateRequest,
    config: PackageConfig,
    metadata: ReleaseMetadata,
)
    ensures
        input@.allow_dirty == input.allow_dirty,
        input@.default_config == input.default_config@,
        input@.package_configs.len() == input.package_configs@.len(),
        forall|i: int|
            0 <= i < input.package_configs@.len() ==> #[trigger] input@.package_configs[i] == (
                input.package_configs@[i].0@,
                input.package_configs@[i].1@,
            ),
        config@.release == config.release,
        config@.git_only == config.git_only,
        config.tag_name_template matches Some(template) ==> config@.tag_name_template == Some(
            template@,
        ),
        config.tag_name_template is None ==> config@.tag_name_template is None,
        metadata.tag_name_template matches Some(template) ==> metadata@.tag_name_template == Some(
            template@,
        ),
        metadata.tag_name_template is None ==> metadata@.tag_name_template is None,
        metadata.release_name_template matches Some(template) ==> metadata@.release_name_template
            == Some(template@),
        metadata.release_name_template is None ==> metadata@.release_name_template is None,
{
}

} // verus!
