//! Building a configuration step by step, and the configuration's checks on itself.

use vstd::prelude::*;
use crate::config::defaults::default_config;
use crate::config::{
    config_is_valid, names_are_distinct, entry_views, CategoryEntry, CategoryView, ConfigView, GuardianConfig,
    PatternCategory, supported_version, tells_why_invalid,
};
use crate::domain::violations::{ErrorView, GuardianError};
use crate::text::same_text;
use crate::textlines::string_texts;

verus! {

/// The categories after `category` was put under `name`: in place of the first
/// category of that name, or else behind all others.
pub open spec fn with_category(
    categories: Seq<(Seq<char>, CategoryView)>,
    name: Seq<char>,
    category: CategoryView,
) -> Seq<(Seq<char>, CategoryView)> {
    if exists|k: int| 0 <= k < categories.len() && (#[trigger] categories[k]).0 == name {
        let k = choose|k: int|
            0 <= k < categories.len() && (#[trigger] categories[k]).0 == name && forall|j: int|
                0 <= j < k ==> (#[trigger] categories[j]).0 != name;
        categories.update(k, (name, category))
    } else {
        categories.push((name, category))
    }
}

/// Putting a category under a name leaves each name with one category.
pub proof fn lemma_with_category_distinct(
    categories: Seq<(Seq<char>, CategoryView)>,
    name: Seq<char>,
    category: CategoryView,
)
    requires
        names_are_distinct(categories),
    ensures
        names_are_distinct(with_category(categories, name, category)),
{
    let after = with_category(categories, name, category);
    assert forall|i: int, j: int| 0 <= i < j < after.len() implies (#[trigger] after[i]).0 != (
    #[trigger] after[j]).0 by {
        if exists|k: int| 0 <= k < categories.len() && (#[trigger] categories[k]).0 == name {
            assert(after[i].0 == categories[i].0);
            assert(after[j].0 == categories[j].0);
        } else {
            assert(after[i] == categories[i]);
            if j < categories.len() {
                assert(after[j] == categories[j]);
            }
        }
    }
}

/// Whether some category has the given name.
pub open spec fn has_category(c: ConfigView, name: Seq<char>) -> bool {
    exists|k: int| 0 <= k < c.categories.len() && (#[trigger] c.categories[k]).0 == name
}

/// Builds a configuration, starting from the built-in one.
pub struct ConfigBuilder {
    pub config: GuardianConfig,
}

impl ConfigBuilder {
    /// A builder that holds the built-in configuration.
    pub fn new() -> (b: ConfigBuilder)
        ensures
            b.config@ == default_config(),
            b.config.wf(),
    {
        ConfigBuilder { config: GuardianConfig::with_defaults() }
    }

    /// Adds a path pattern behind those already there.
    pub fn add_path_pattern(self, pattern: &str) -> (b: ConfigBuilder)
        ensures
            b.config@ == (ConfigView {
                path_patterns: self.config@.path_patterns.push(pattern@),
                ..self.config@
            }),
    {
        let mut b = self;
        let ghost before = b.config.paths.patterns@;
        b.config.paths.patterns.push(pattern.to_owned());
        assert(string_texts(b.config.paths.patterns@) =~= string_texts(before).push(pattern@));
        b
    }

    /// Sets the name of the ignore files.
    pub fn ignore_file(self, filename: &str) -> (b: ConfigBuilder)
        ensures
            b.config@ == (ConfigView { ignore_file: Some(filename@), ..self.config@ }),
    {
        let mut b = self;
        b.config.paths.ignore_file = Some(filename.to_owned());
        b
    }

    /// Puts a category under a name, in place of the category that had the name
    /// before, if there was one.
    pub fn add_category(self, name: &str, category: PatternCategory) -> (b: ConfigBuilder)
        ensures
            b.config@ == (ConfigView {
                categories: with_category(self.config@.categories, name@, category@),
                ..self.config@
            }),
            self.config.wf() ==> b.config.wf(),
    {
        proof {
            if self.config.wf() {
                lemma_with_category_distinct(self.config@.categories, name@, category@);
            }
        }
        let mut b = self;
        let ghost before = b.config.patterns@;
        let ghost cats = entry_views(before);
        let found = b.config.find_category(name);
        match found {
            Some(k) => {
                assert(cats[k as int].0 == name@);
                assert forall|j: int| 0 <= j < k implies (#[trigger] cats[j]).0 != name@ by {}
                let ghost chosen = choose|x: int|
                    0 <= x < cats.len() && (#[trigger] cats[x]).0 == name@ && forall|j: int|
                        0 <= j < x ==> (#[trigger] cats[j]).0 != name@;
                assert(chosen == k) by {
                    if chosen < k {
                        assert(cats[chosen].0 != name@);
                    } else if k < chosen {
                        assert(cats[k as int].0 != name@);
                    }
                }
                let entry = CategoryEntry { name: name.to_owned(), category };
                b.config.patterns.set(k, entry);
                assert(entry_views(b.config.patterns@) =~= cats.update(
                    k as int,
                    (name@, category@),
                ));
            },
            None => {
                assert forall|j: int| 0 <= j < cats.len() implies (#[trigger] cats[j]).0
                    != name@ by {}
                let entry = CategoryEntry { name: name.to_owned(), category };
                b.config.patterns.push(entry);
                assert(entry_views(b.config.patterns@) =~= cats.push((name@, category@)));
            },
        }
        b
    }

    /// Hands out the configuration if it is valid. If it is not, the message
    /// of the error names the unsupported version, or the first rule that is
    /// not valid: a repeated identifier with its category, or a regular
    /// expression that does not compile.
    pub fn build(self) -> (r: Result<GuardianConfig, GuardianError>)
        ensures
            r is Ok <==> config_is_valid(self.config@),
            r matches Ok(c) ==> c == self.config,
            r matches Err(e) ==> e is Configuration,
            r matches Err(GuardianError::Configuration { message }) ==> tells_why_invalid(
                self.config@,
                message@,
            ),
    {
        match self.config.validate() {
            Ok(()) => Ok(self.config),
            Err(e) => Err(e),
        }
    }
}

impl Default for ConfigBuilder {
    fn default() -> (b: ConfigBuilder)
        ensures
            b.config@ == default_config(),
            b.config.wf(),
    {
        ConfigBuilder::new()
    }
}

/// The configuration that [`GuardianConfig::verify_evolution_capability`] builds.
pub open spec fn evolved_config() -> ConfigView {
    ConfigView {
        path_patterns: default_config().path_patterns.push("guardian/evolution/**"@),
        ignore_file: Some(".guardian_ignore"@),
        ..default_config()
    }
}

impl GuardianConfig {
    /// Checks that the configuration has the supported version and the core
    /// category `placeholders`.
    pub fn verify_config_integrity(&self) -> (r: Result<(), GuardianError>)
        ensures
            r is Ok <==> self@.version == supported_version() && has_category(
                self@,
                "placeholders"@,
            ),
            r matches Err(e) ==> e@ == (if self@.version != supported_version() {
                ErrorView::Configuration { message: "Configuration system requires version 1.0"@ }
            } else {
                ErrorView::Configuration {
                    message: "Core pattern category 'placeholders' missing from guardian"@,
                }
            }),
    {
        if !same_text(self.version.as_str(), "1.0") {
            return Err(GuardianError::config("Configuration system requires version 1.0"));
        }
        let found = self.find_category("placeholders");
        if found.is_none() {
            assert forall|k: int| 0 <= k < self@.categories.len() implies (
            #[trigger] self@.categories[k]).0 != "placeholders"@ by {
                assert(self@.categories[k].0 == self.patterns@[k].name@);
            }
            return Err(
                GuardianError::config("Core pattern category 'placeholders' missing from guardian"),
            );
        }
        assert(self@.categories[found.unwrap() as int].0 == "placeholders"@);
        let first = self.fingerprint();
        let second = self.fingerprint();
        if !same_text(first.as_str(), second.as_str()) {
            return Err(GuardianError::config("Configuration system fingerprint inconsistent"));
        }
        Ok(())
    }

    /// Checks that a configuration can be grown with the builder: one more path
    /// pattern and another ignore file name on top of the built-in configuration.
    pub fn verify_evolution_capability() -> (r: Result<(), GuardianError>)
        ensures
            r is Ok <==> config_is_valid(evolved_config()),
            r matches Err(e) ==> e is Configuration,
            r matches Err(GuardianError::Configuration { message }) ==> tells_why_invalid(
                evolved_config(),
                message@,
            ),
    {
        let builder = ConfigBuilder::new().add_path_pattern("guardian/evolution/**").ignore_file(
            ".guardian_ignore",
        );
        assert(builder.config@ == evolved_config());
        let evolved = match builder.build() {
            Ok(c) => c,
            Err(e) => {
                return Err(e);
            },
        };
        let mut i: usize = 0;
        let mut found = false;
        while i < evolved.paths.patterns.len()
            invariant
                i <= evolved.paths.patterns.len(),
                found == exists|j: int|
                    0 <= j < i && (#[trigger] evolved.paths.patterns@[j])@
                        == "guardian/evolution/**"@,
            decreases evolved.paths.patterns.len() - i,
        {
            if same_text(evolved.paths.patterns[i].as_str(), "guardian/evolution/**") {
                found = true;
            }
            i += 1;
        }
        if !found {
            proof {
                assert(evolved@ == evolved_config());
                let base = default_config().path_patterns;
                assert(base.len() == 4);
                assert(evolved@.path_patterns == base.push("guardian/evolution/**"@));
                assert(evolved@.path_patterns.len() == evolved.paths.patterns@.len());
                let last = evolved.paths.patterns@.len() - 1;
                assert(evolved@.path_patterns[last] == "guardian/evolution/**"@);
                assert(evolved.paths.patterns@[last]@ == "guardian/evolution/**"@);
            }
            return Err(
                GuardianError::config("Configuration evolution failed to integrate new patterns"),
            );
        }
        Ok(())
    }
}

} // verus!
