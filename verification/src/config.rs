//! Project and process configuration.
//!
//! `Config` names the folders a project keeps its data in. `ProcessConfig`
//! holds the declared process: classification dimensions, parameter types,
//! link types, and the root step definition, which definitions for any FQID
//! are resolved against.

use vstd::prelude::*;
use vstd::string::StrSliceExecFns;
use vstd::string::StringExecFns;

use crate::fqid::{find_char, first_index_of, is_root_fqid, lemma_first_index_props, ROOT_FQID};
use crate::link::{LinkType, LinkTypeView};
use crate::parameter::{ParameterRef, ParameterRefView, ParameterType, ParameterTypeView};
use crate::step::{clone_param_refs, spec_find_sub, DefView, StepDefinition};
use crate::strutil::{clone_opt_string, opt_view, str_eq};

verus! {

/// Default configuration file name.
pub const CONFIG_FILE: &'static str = "config.yaml";

/// Default process configuration file name.
pub const PROCESS_CONFIG_FILE: &'static str = "process_config.yaml";

/// Folder name for step templates under the configuration folder.
pub const TEMPLATES_FOLDER: &'static str = "templates";

/// Folder name for schemas under the configuration folder.
pub const SCHEMAS_FOLDER: &'static str = "schemas";

/// Default template file name.
pub const DEFAULT_TEMPLATE: &'static str = "any-step.md";

/// The default configuration folder under a project root.
pub fn default_config_dir(project_root: &str) -> (r: String)
    ensures
        r@ == project_root@ + "/"@ + crate::DEFAULT_CONFIG_DIR@,
{
    let mut s = String::from_str(project_root);
    s.append("/");
    s.append(crate::DEFAULT_CONFIG_DIR);
    s
}

/// The schemas folder under a configuration folder.
pub fn schemas_dir(config_dir: &str) -> (r: String)
    ensures
        r@ == config_dir@ + "/"@ + SCHEMAS_FOLDER@,
{
    let mut s = String::from_str(config_dir);
    s.append("/");
    s.append(SCHEMAS_FOLDER);
    s
}

/// The templates folder under a configuration folder.
pub fn templates_dir(config_dir: &str) -> (r: String)
    ensures
        r@ == config_dir@ + "/"@ + TEMPLATES_FOLDER@,
{
    let mut s = String::from_str(config_dir);
    s.append("/");
    s.append(TEMPLATES_FOLDER);
    s
}

/// Project configuration: folder and file names.
#[derive(Debug)]
pub struct Config {
    /// Schema version for migration support.
    pub version: String,
    /// Human-readable project name.
    pub project_name: Option<String>,
    /// Folder name for process data storage.
    pub data_folder: String,
    /// Process configuration file name.
    pub process_config: String,
    /// Folder name for step templates.
    pub templates_folder: String,
    /// Default template file name for steps.
    pub default_template: String,
}

/// The mathematical model of a project configuration.
pub struct ConfigView {
    pub version: Seq<char>,
    pub project_name: Option<Seq<char>>,
    pub data_folder: Seq<char>,
    pub process_config: Seq<char>,
    pub templates_folder: Seq<char>,
    pub default_template: Seq<char>,
}

impl View for Config {
    type V = ConfigView;

    open spec fn view(&self) -> ConfigView {
        ConfigView {
            version: self.version@,
            project_name: opt_view(self.project_name),
            data_folder: self.data_folder@,
            process_config: self.process_config@,
            templates_folder: self.templates_folder@,
            default_template: self.default_template@,
        }
    }
}

impl Clone for Config {
    fn clone(&self) -> (r: Self)
        ensures
            r@ == self@,
    {
        Config {
            version: self.version.clone(),
            project_name: clone_opt_string(&self.project_name),
            data_folder: self.data_folder.clone(),
            process_config: self.process_config.clone(),
            templates_folder: self.templates_folder.clone(),
            default_template: self.default_template.clone(),
        }
    }
}

impl Default for Config {
    /// The configuration of a fresh project.
    fn default() -> (r: Self)
        ensures
            r@.version == "0.1.0"@,
            r@.project_name is None,
            r@.data_folder == crate::DEFAULT_DATA_DIR@,
            r@.process_config == "process_config.yaml"@,
            r@.templates_folder == "templates/"@,
            r@.default_template == "any-step.md"@,
    {
        Config {
            version: String::from_str("0.1.0"),
            project_name: None,
            data_folder: String::from_str(crate::DEFAULT_DATA_DIR),
            process_config: String::from_str("process_config.yaml"),
            templates_folder: String::from_str("templates/"),
            default_template: String::from_str("any-step.md"),
        }
    }
}

impl Config {
    /// Create a new config with a project name.
    pub fn new(project_name: &str) -> (r: Self)
        ensures
            r@.version == "0.1.0"@,
            r@.project_name == Some(project_name@),
            r@.data_folder == crate::DEFAULT_DATA_DIR@,
            r@.process_config == "process_config.yaml"@,
            r@.templates_folder == "templates/"@,
            r@.default_template == "any-step.md"@,
    {
        Config { project_name: Some(String::from_str(project_name)), ..Config::default() }
    }

    /// The data folder path under the given project root.
    pub fn data_dir(&self, project_root: &str) -> (r: String)
        ensures
            r@ == project_root@ + "/"@ + self@.data_folder,
    {
        let mut s = String::from_str(project_root);
        s.append("/");
        s.append(self.data_folder.as_str());
        s
    }
}

/// A single classification value with optional defaults.
#[derive(Debug)]
pub struct ClassificationValue {
    /// Classification key used in expressions.
    pub key: String,
    /// Human-readable name.
    pub name: Option<String>,
    /// Template file name to use for this classification.
    pub template: Option<String>,
    /// Default attribute values for steps with this classification.
    pub default_attributes: Option<serde_json::Value>,
    /// Default input parameters for this classification.
    pub default_inputs: Vec<ParameterRef>,
    /// Default output parameters for this classification.
    pub default_outputs: Vec<ParameterRef>,
    /// Default scope parameters for this classification.
    pub default_scope: Vec<ParameterRef>,
}

/// The mathematical model of a classification value.
pub struct ClassificationValueView {
    pub key: Seq<char>,
    pub name: Option<Seq<char>>,
    pub template: Option<Seq<char>>,
    pub default_attributes: Option<serde_json::Value>,
    pub default_inputs: Seq<ParameterRefView>,
    pub default_outputs: Seq<ParameterRefView>,
    pub default_scope: Seq<ParameterRefView>,
}

impl View for ClassificationValue {
    type V = ClassificationValueView;

    open spec fn view(&self) -> ClassificationValueView {
        ClassificationValueView {
            key: self.key@,
            name: opt_view(self.name),
            template: opt_view(self.template),
            default_attributes: self.default_attributes,
            default_inputs: self.default_inputs@.map_values(|p: ParameterRef| p@),
            default_outputs: self.default_outputs@.map_values(|p: ParameterRef| p@),
            default_scope: self.default_scope@.map_values(|p: ParameterRef| p@),
        }
    }
}

impl Clone for ClassificationValue {
    fn clone(&self) -> (r: Self)
        ensures
            r@ == self@,
    {
        let r = ClassificationValue {
            key: self.key.clone(),
            name: clone_opt_string(&self.name),
            template: clone_opt_string(&self.template),
            default_attributes: crate::jsonval::clone_opt_value(&self.default_attributes),
            default_inputs: clone_param_refs(&self.default_inputs),
            default_outputs: clone_param_refs(&self.default_outputs),
            default_scope: clone_param_refs(&self.default_scope),
        };
        proof {
            assert(r@.default_inputs =~= self@.default_inputs);
            assert(r@.default_outputs =~= self@.default_outputs);
            assert(r@.default_scope =~= self@.default_scope);
        }
        r
    }
}

/// Classification dimension for multi-dimensional grouping.
#[derive(Debug)]
pub struct ClassificationDictionary {
    /// Unique identifier for this classification dimension.
    pub id: String,
    /// Human-readable name.
    pub name: Option<String>,
    /// Available classification values in this dimension.
    pub values: Vec<ClassificationValue>,
}

/// The mathematical model of a classification dimension.
pub struct ClassificationDictionaryView {
    pub id: Seq<char>,
    pub name: Option<Seq<char>>,
    pub values: Seq<ClassificationValueView>,
}

impl View for ClassificationDictionary {
    type V = ClassificationDictionaryView;

    open spec fn view(&self) -> ClassificationDictionaryView {
        ClassificationDictionaryView {
            id: self.id@,
            name: opt_view(self.name),
            values: self.values@.map_values(|v: ClassificationValue| v@),
        }
    }
}

/// Process configuration: the declared shape of the whole process.
#[derive(Debug)]
pub struct ProcessConfig {
    /// Schema version for migration support.
    pub version: String,
    /// Classification dimensions.
    pub classifications: Vec<ClassificationDictionary>,
    /// Parameter type definitions.
    pub parameter_types: Vec<ParameterType>,
    /// Custom link type definitions.
    pub link_types: Vec<LinkType>,
    /// Root process step definition.
    pub root_process: StepDefinition,
}

/// The mathematical model of a process configuration.
pub struct ProcessConfigView {
    pub version: Seq<char>,
    pub classifications: Seq<ClassificationDictionaryView>,
    pub parameter_types: Seq<ParameterTypeView>,
    pub link_types: Seq<LinkTypeView>,
    pub root_process: DefView,
}

impl View for ProcessConfig {
    type V = ProcessConfigView;

    open spec fn view(&self) -> ProcessConfigView {
        ProcessConfigView {
            version: self.version@,
            classifications: self.classifications@.map_values(
                |c: ClassificationDictionary| c@,
            ),
            parameter_types: self.parameter_types@.map_values(|p: ParameterType| p@),
            link_types: self.link_types@.map_values(|l: LinkType| l@),
            root_process: self.root_process@,
        }
    }
}

impl Default for ProcessConfig {
    /// An empty process: just the root definition.
    fn default() -> (r: Self)
        ensures
            r@.version == "0.1.0"@,
            r@.classifications.len() == 0,
            r@.parameter_types.len() == 0,
            r@.link_types.len() == 0,
            r@.root_process.id == ROOT_FQID@,
            r@.root_process.steps.len() == 0,
    {
        let r = ProcessConfig {
            version: String::from_str("0.1.0"),
            classifications: Vec::new(),
            parameter_types: Vec::new(),
            link_types: Vec::new(),
            root_process: StepDefinition::new_root(),
        };
        proof {
            assert(r@.classifications =~= Seq::<ClassificationDictionaryView>::empty());
            assert(r@.parameter_types =~= Seq::<ParameterTypeView>::empty());
            assert(r@.link_types =~= Seq::<LinkTypeView>::empty());
        }
        r
    }
}

/// The first classification dimension with the given id, if any.
pub open spec fn spec_find_classification(
    cs: Seq<ClassificationDictionaryView>,
    id: Seq<char>,
) -> Option<ClassificationDictionaryView>
    decreases cs.len(),
{
    if cs.len() == 0 {
        None
    } else if cs[0].id == id {
        Some(cs[0])
    } else {
        spec_find_classification(cs.drop_first(), id)
    }
}

/// The first parameter type with the given id, if any.
pub open spec fn spec_find_parameter_type(
    ps: Seq<ParameterTypeView>,
    id: Seq<char>,
) -> Option<ParameterTypeView>
    decreases ps.len(),
{
    if ps.len() == 0 {
        None
    } else if ps[0].id == id {
        Some(ps[0])
    } else {
        spec_find_parameter_type(ps.drop_first(), id)
    }
}

/// The first link type with the given id, if any.
pub open spec fn spec_find_link_type(ls: Seq<LinkTypeView>, id: Seq<char>) -> Option<LinkTypeView>
    decreases ls.len(),
{
    if ls.len() == 0 {
        None
    } else if ls[0].id == id {
        Some(ls[0])
    } else {
        spec_find_link_type(ls.drop_first(), id)
    }
}

/// The definition a dot-separated path selects, walking sub-steps from the
/// given definition.
pub open spec fn spec_find_def_from(cur: DefView, path: Seq<char>) -> Option<DefView>
    decreases path.len(),
{
    let dot = first_index_of(path, '.');
    if !(0 <= dot < path.len()) {
        spec_find_sub(cur.steps, path)
    } else {
        match spec_find_sub(cur.steps, path.subrange(0, dot)) {
            None => None,
            Some(d) => spec_find_def_from(d, path.subrange(dot + 1, path.len() as int)),
        }
    }
}

/// The definition an FQID selects: the root definition for the root FQID,
/// otherwise a walk down the root's sub-steps.
pub open spec fn spec_find_def(pc: ProcessConfigView, fqid: Seq<char>) -> Option<DefView> {
    if fqid == ROOT_FQID@ {
        Some(pc.root_process)
    } else {
        spec_find_def_from(pc.root_process, fqid)
    }
}

impl ProcessConfig {
    /// Find a classification dictionary by id.
    pub fn find_classification(&self, id: &str) -> (r: Option<&ClassificationDictionary>)
        ensures
            match r {
                Some(c) => spec_find_classification(self@.classifications, id@) == Some(c@),
                None => spec_find_classification(self@.classifications, id@) is None,
            },
    {
        let ghost cs = self@.classifications;
        proof {
            assert(cs.skip(0) =~= cs);
        }
        let n = self.classifications.len();
        let mut i: usize = 0;
        while i < n
            invariant
                0 <= i <= n,
                n == cs.len(),
                cs == self@.classifications,
                spec_find_classification(cs.skip(i as int), id@) == spec_find_classification(
                    cs,
                    id@,
                ),
            decreases n - i,
        {
            proof {
                assert(cs.skip(i as int)[0] == cs[i as int]);
                assert(cs.skip(i as int).drop_first() =~= cs.skip(i as int + 1));
            }
            if str_eq(self.classifications[i].id.as_str(), id) {
                return Some(&self.classifications[i]);
            }
            i = i + 1;
        }
        proof {
            assert(cs.skip(n as int) =~= Seq::<ClassificationDictionaryView>::empty());
        }
        None
    }

    /// Find a parameter type by id.
    pub fn find_parameter_type(&self, id: &str) -> (r: Option<&ParameterType>)
        ensures
            match r {
                Some(p) => spec_find_parameter_type(self@.parameter_types, id@) == Some(p@),
                None => spec_find_parameter_type(self@.parameter_types, id@) is None,
            },
    {
        let ghost ps = self@.parameter_types;
        proof {
            assert(ps.skip(0) =~= ps);
        }
        let n = self.parameter_types.len();
        let mut i: usize = 0;
        while i < n
            invariant
                0 <= i <= n,
                n == ps.len(),
                ps == self@.parameter_types,
                spec_find_parameter_type(ps.skip(i as int), id@) == spec_find_parameter_type(
                    ps,
                    id@,
                ),
            decreases n - i,
        {
            proof {
                assert(ps.skip(i as int)[0] == ps[i as int]);
                assert(ps.skip(i as int).drop_first() =~= ps.skip(i as int + 1));
            }
            if str_eq(self.parameter_types[i].id.as_str(), id) {
                return Some(&self.parameter_types[i]);
            }
            i = i + 1;
        }
        proof {
            assert(ps.skip(n as int) =~= Seq::<ParameterTypeView>::empty());
        }
        None
    }

    /// Find a link type by id.
    pub fn find_link_type(&self, id: &str) -> (r: Option<&LinkType>)
        ensures
            match r {
                Some(l) => spec_find_link_type(self@.link_types, id@) == Some(l@),
                None => spec_find_link_type(self@.link_types, id@) is None,
            },
    {
        let ghost ls = self@.link_types;
        proof {
            assert(ls.skip(0) =~= ls);
        }
        let n = self.link_types.len();
        let mut i: usize = 0;
        while i < n
            invariant
                0 <= i <= n,
                n == ls.len(),
                ls == self@.link_types,
                spec_find_link_type(ls.skip(i as int), id@) == spec_find_link_type(ls, id@),
            decreases n - i,
        {
            proof {
                assert(ls.skip(i as int)[0] == ls[i as int]);
                assert(ls.skip(i as int).drop_first() =~= ls.skip(i as int + 1));
            }
            if str_eq(self.link_types[i].id.as_str(), id) {
                return Some(&self.link_types[i]);
            }
            i = i + 1;
        }
        proof {
            assert(ls.skip(n as int) =~= Seq::<LinkTypeView>::empty());
        }
        None
    }

    /// Find a step definition by FQID.
    pub fn find_step_definition(&self, fqid: &str) -> (r: Option<&StepDefinition>)
        ensures
            match r {
                Some(d) => spec_find_def(self@, fqid@) == Some(d@),
                None => spec_find_def(self@, fqid@) is None,
            },
    {
        if is_root_fqid(fqid) {
            return Some(&self.root_process);
        }
        find_def_in(&self.root_process, fqid)
    }
}

/// Walk a dot-separated path down a definition's sub-steps.
fn find_def_in<'a>(cur: &'a StepDefinition, path: &str) -> (r: Option<&'a StepDefinition>)
    ensures
        match r {
            Some(d) => spec_find_def_from(cur@, path@) == Some(d@),
            None => spec_find_def_from(cur@, path@) is None,
        },
    decreases path@.len(),
{
    proof {
        lemma_first_index_props(path@, '.');
    }
    match find_char(path, '.') {
        None => cur.find_step(path),
        Some(dot) => {
            let head = path.substring_char(0, dot);
            let n = path.unicode_len();
            let rest = path.substring_char(dot + 1, n);
            match cur.find_step(head) {
                None => None,
                Some(d) => find_def_in(d, rest),
            }
        },
    }
}

} // verus!
