//! Runtime configuration built from command-line values.

use vstd::prelude::*;

use crate::error::DeployError;
use crate::theme::{is_locale, Area, LocaleCode};

verus! {

/// The command-line values of a run.
#[derive(Debug)]
pub struct Cli {
    /// Root directory of the installation.
    pub magento_root: String,
    /// Areas to deploy.
    pub area: Vec<String>,
    /// Themes to deploy, in `Vendor/name` form; all themes when absent.
    pub theme: Option<Vec<String>>,
    /// Locales to deploy.
    pub locale: Vec<String>,
    /// Number of parallel workers.
    pub jobs: usize,
    /// Whether to report progress.
    pub verbose: bool,
    /// Whether to copy development files too.
    pub include_dev: bool,
}

/// The configuration of a run.
#[derive(Debug, Clone)]
pub struct Config {
    /// Root directory of the installation.
    pub magento_root: String,
    /// Areas to deploy.
    pub areas: Vec<Area>,
    /// Themes to deploy; all discovered themes when absent.
    pub themes: Option<Vec<String>>,
    /// Locales to deploy, each in `xx_YY` form.
    pub locales: Vec<LocaleCode>,
    /// Number of parallel workers, at least one.
    pub jobs: usize,
    /// Whether to report progress.
    pub verbose: bool,
    /// Whether to copy development files too.
    pub include_dev: bool,
}

/// The areas named in `names`, in order; names of no area are left out.
pub open spec fn parsed_areas(names: Seq<String>) -> Seq<Area>
    decreases names.len(),
{
    if names.len() == 0 {
        seq![]
    } else {
        let rest = parsed_areas(names.drop_last());
        match Area::from_name(names.last()@) {
            Some(a) => rest.push(a),
            None => rest,
        }
    }
}

/// `i` is the position of the first locale of `ls` that is not in `xx_YY` form.
pub open spec fn first_invalid_locale(ls: Seq<String>, i: int) -> bool {
    0 <= i < ls.len() && !is_locale(ls[i]@) && forall|j: int| 0 <= j < i ==> is_locale(#[trigger] ls[j]@)
}

impl Config {
    /// The configuration for the command-line values `cli`: areas that name no area are
    /// left out, every locale must be in `xx_YY` form (the first that is not is
    /// reported), and at least one worker is used.
    pub fn from_cli(cli: Cli) -> (r: Result<Config, DeployError>)
        ensures
            r is Ok <==> forall|i: int| 0 <= i < cli.locale@.len() ==> is_locale(#[trigger] cli.locale@[i]@),
            r matches Ok(c) ==> {
                &&& c.magento_root == cli.magento_root
                &&& c.areas@ == parsed_areas(cli.area@)
                &&& c.themes == cli.theme
                &&& c.locales@.len() == cli.locale@.len()
                &&& forall|i: int| 0 <= i < c.locales@.len() ==> (#[trigger] c.locales@[i])@ == cli.locale@[i]@
                &&& c.jobs == if cli.jobs == 0 {
                    1
                } else {
                    cli.jobs
                }
                &&& c.verbose == cli.verbose
                &&& c.include_dev == cli.include_dev
            },
            r matches Err(e) ==> exists|i: int|
                first_invalid_locale(cli.locale@, i) && e == (DeployError::InvalidLocale {
                    locale: #[trigger] cli.locale@[i],
                }),
    {
        let mut areas: Vec<Area> = Vec::new();
        let mut i: usize = 0;
        while i < cli.area.len()
            invariant
                i <= cli.area@.len(),
                areas@ == parsed_areas(cli.area@.subrange(0, i as int)),
            decreases cli.area@.len() - i,
        {
            assert(cli.area@.subrange(0, i + 1).drop_last() =~= cli.area@.subrange(0, i as int));
            match Area::parse(cli.area[i].as_str()) {
                Some(a) => {
                    areas.push(a);
                },
                None => {},
            }
            i = i + 1;
        }
        assert(cli.area@.subrange(0, i as int) =~= cli.area@);
        let mut locales: Vec<LocaleCode> = Vec::new();
        let mut k: usize = 0;
        while k < cli.locale.len()
            invariant
                k <= cli.locale@.len(),
                locales@.len() == k,
                forall|j: int| 0 <= j < k ==> is_locale(#[trigger] cli.locale@[j]@),
                forall|j: int| 0 <= j < k ==> (#[trigger] locales@[j])@ == cli.locale@[j]@,
            decreases cli.locale@.len() - k,
        {
            match LocaleCode::validated(cli.locale[k].as_str()) {
                Ok(l) => {
                    locales.push(l);
                },
                Err(_) => {
                    let bad = cli.locale[k].clone();
                    assert(first_invalid_locale(cli.locale@, k as int));
                    return Err(DeployError::InvalidLocale { locale: bad });
                },
            }
            k = k + 1;
        }
        let jobs = if cli.jobs == 0 {
            1
        } else {
            cli.jobs
        };
        Ok(
            Config {
                magento_root: cli.magento_root,
                areas,
                themes: cli.theme,
                locales,
                jobs,
                verbose: cli.verbose,
                include_dev: cli.include_dev,
            },
        )
    }
}

} // verus!
