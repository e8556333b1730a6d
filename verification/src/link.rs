//! Links between sibling steps.
//!
//! A link is a directed edge between two step ids declared under one parent
//! step. The built-in link types `dependency` and `predecessor` are blocking:
//! the source step may not leave `Wait` until the target step is `Done`.

use vstd::prelude::*;

use vstd::string::StringExecFns;

use crate::strutil::{clone_opt_string, opt_view, str_eq};

verus! {

/// Identifier of the built-in dependency link type.
pub const LINK_TYPE_DEPENDENCY: &'static str = "dependency";

/// Identifier of the built-in predecessor link type.
pub const LINK_TYPE_PREDECESSOR: &'static str = "predecessor";

/// Link type definition.
#[derive(Debug)]
pub struct LinkType {
    /// Unique link type identifier.
    pub id: String,
    /// Human-readable name.
    pub name: Option<String>,
    /// Description of this link type.
    pub description: Option<String>,
    /// Whether this link blocks step execution.
    pub is_blocking: bool,
}

/// The mathematical model of a link type.
pub struct LinkTypeView {
    pub id: Seq<char>,
    pub name: Option<Seq<char>>,
    pub description: Option<Seq<char>>,
    pub is_blocking: bool,
}

impl View for LinkType {
    type V = LinkTypeView;

    open spec fn view(&self) -> LinkTypeView {
        LinkTypeView {
            id: self.id@,
            name: opt_view(self.name),
            description: opt_view(self.description),
            is_blocking: self.is_blocking,
        }
    }
}

impl Clone for LinkType {
    fn clone(&self) -> (r: Self)
        ensures
            r@ == self@,
    {
        LinkType {
            id: self.id.clone(),
            name: clone_opt_string(&self.name),
            description: clone_opt_string(&self.description),
            is_blocking: self.is_blocking,
        }
    }
}

impl LinkType {
    /// Create the built-in dependency link type.
    pub fn dependency() -> (r: Self)
        ensures
            r@.id == LINK_TYPE_DEPENDENCY@,
            r@.is_blocking,
    {
        LinkType {
            id: String::from_str(LINK_TYPE_DEPENDENCY),
            name: Some(String::from_str("Dependency")),
            description: Some(String::from_str("Source step depends on target step completion")),
            is_blocking: true,
        }
    }

    /// Create the built-in predecessor link type.
    pub fn predecessor() -> (r: Self)
        ensures
            r@.id == LINK_TYPE_PREDECESSOR@,
            r@.is_blocking,
    {
        LinkType {
            id: String::from_str(LINK_TYPE_PREDECESSOR),
            name: Some(String::from_str("Predecessor")),
            description: Some(String::from_str("Target step should be done before source step")),
            is_blocking: true,
        }
    }
}

/// Link definition in process configuration: a directed edge from one
/// sibling step id to another, with a type.
#[derive(Debug)]
pub struct LinkDefinition {
    /// Link type (dependency, predecessor, or custom).
    pub link_type: String,
    /// Source step id.
    pub from: String,
    /// Target step id.
    pub to: String,
}

/// The mathematical model of a link definition.
pub struct LinkDefView {
    pub link_type: Seq<char>,
    pub from: Seq<char>,
    pub to: Seq<char>,
}

impl View for LinkDefinition {
    type V = LinkDefView;

    open spec fn view(&self) -> LinkDefView {
        LinkDefView { link_type: self.link_type@, from: self.from@, to: self.to@ }
    }
}

impl Clone for LinkDefinition {
    fn clone(&self) -> (r: Self)
        ensures
            r@ == self@,
    {
        LinkDefinition {
            link_type: self.link_type.clone(),
            from: self.from.clone(),
            to: self.to.clone(),
        }
    }
}

/// Whether a link of the given type blocks its source step.
pub open spec fn spec_is_blocking_type(ty: Seq<char>) -> bool {
    ty == LINK_TYPE_DEPENDENCY@ || ty == LINK_TYPE_PREDECESSOR@
}

impl LinkDefinition {
    /// Create a new dependency link.
    pub fn dependency(from: &str, to: &str) -> (r: Self)
        ensures
            r@.link_type == LINK_TYPE_DEPENDENCY@,
            r@.from == from@,
            r@.to == to@,
    {
        LinkDefinition {
            link_type: String::from_str(LINK_TYPE_DEPENDENCY),
            from: String::from_str(from),
            to: String::from_str(to),
        }
    }

    /// Create a new predecessor link.
    pub fn predecessor(from: &str, to: &str) -> (r: Self)
        ensures
            r@.link_type == LINK_TYPE_PREDECESSOR@,
            r@.from == from@,
            r@.to == to@,
    {
        LinkDefinition {
            link_type: String::from_str(LINK_TYPE_PREDECESSOR),
            from: String::from_str(from),
            to: String::from_str(to),
        }
    }

    /// Check if this is a blocking link type.
    pub fn is_blocking(&self) -> (r: bool)
        ensures
            r == spec_is_blocking_type(self@.link_type),
    {
        str_eq(self.link_type.as_str(), LINK_TYPE_DEPENDENCY) || str_eq(
            self.link_type.as_str(),
            LINK_TYPE_PREDECESSOR,
        )
    }
}

/// The link type that resolves for the given type id: the first declared
/// type with that id, the built-in types under their ids, or a custom,
/// non-blocking type.
pub open spec fn spec_resolve_link_type(types: Seq<LinkTypeView>, ty: Seq<char>) -> LinkTypeView
    decreases types.len(),
{
    if types.len() > 0 && types[0].id == ty {
        types[0]
    } else if types.len() > 0 {
        spec_resolve_link_type(types.drop_first(), ty)
    } else if ty == LINK_TYPE_DEPENDENCY@ {
        LinkTypeView {
            id: ty,
            name: Some("Dependency"@),
            description: Some("Source step depends on target step completion"@),
            is_blocking: true,
        }
    } else if ty == LINK_TYPE_PREDECESSOR@ {
        LinkTypeView {
            id: ty,
            name: Some("Predecessor"@),
            description: Some("Target step should be done before source step"@),
            is_blocking: true,
        }
    } else {
        LinkTypeView { id: ty, name: None, description: None, is_blocking: false }
    }
}

/// Runtime link instance between steps.
#[derive(Debug)]
pub struct Link {
    /// Link definition.
    pub definition: LinkDefinition,
    /// Link type metadata.
    pub link_type: LinkType,
    /// Whether the target step is complete.
    pub is_satisfied: bool,
}

/// The mathematical model of a runtime link.
pub struct LinkView {
    pub definition: LinkDefView,
    pub link_type: LinkTypeView,
    pub is_satisfied: bool,
}

impl View for Link {
    type V = LinkView;

    open spec fn view(&self) -> LinkView {
        LinkView {
            definition: self.definition@,
            link_type: self.link_type@,
            is_satisfied: self.is_satisfied,
        }
    }
}

impl Link {
    /// Create a new link from a definition, resolving its type against the
    /// declared link types.
    pub fn from_definition(def: LinkDefinition, link_types: &Vec<LinkType>) -> (r: Self)
        ensures
            r@.definition == def@,
            r@.link_type == spec_resolve_link_type(
                link_types@.map_values(|t: LinkType| t@),
                def@.link_type,
            ),
            !r@.is_satisfied,
    {
        let ghost tviews = link_types@.map_values(|t: LinkType| t@);
        let n = link_types.len();
        let mut i: usize = 0;
        let mut found: Option<LinkType> = None;
        while i < n
            invariant
                0 <= i <= n,
                n == link_types@.len(),
                tviews == link_types@.map_values(|t: LinkType| t@),
                match found {
                    Some(t) => t@ == spec_resolve_link_type(tviews, def@.link_type),
                    None => forall|j: int| 0 <= j < i ==> tviews[j].id != def@.link_type,
                },
                found is Some ==> i == n,
            decreases n - i,
        {
            if str_eq(link_types[i].id.as_str(), def.link_type.as_str()) {
                proof {
                    lemma_resolve_first_match(tviews, def@.link_type, i as int);
                }
                found = Some(link_types[i].clone());
                i = n;
            } else {
                i = i + 1;
            }
        }
        let link_type = match found {
            Some(t) => t,
            None => {
                proof {
                    lemma_resolve_no_match(tviews, def@.link_type);
                }
                if str_eq(def.link_type.as_str(), LINK_TYPE_DEPENDENCY) {
                    LinkType::dependency_full()
                } else if str_eq(def.link_type.as_str(), LINK_TYPE_PREDECESSOR) {
                    LinkType::predecessor_full()
                } else {
                    LinkType {
                        id: def.link_type.clone(),
                        name: None,
                        description: None,
                        is_blocking: false,
                    }
                }
            },
        };
        Link { definition: def, link_type, is_satisfied: false }
    }

    /// Check if this link is blocking and unsatisfied.
    pub fn is_blocking(&self) -> (r: bool)
        ensures
            r == (self@.link_type.is_blocking && !self@.is_satisfied),
    {
        self.link_type.is_blocking && !self.is_satisfied
    }

    /// Get the source step id.
    pub fn from_step(&self) -> (r: &str)
        ensures
            r@ == self@.definition.from,
    {
        self.definition.from.as_str()
    }

    /// Get the target step id.
    pub fn to_step(&self) -> (r: &str)
        ensures
            r@ == self@.definition.to,
    {
        self.definition.to.as_str()
    }
}

impl LinkType {
    /// The built-in dependency type with all of its fields pinned down.
    fn dependency_full() -> (r: Self)
        ensures
            r@ == (LinkTypeView {
                id: LINK_TYPE_DEPENDENCY@,
                name: Some("Dependency"@),
                description: Some("Source step depends on target step completion"@),
                is_blocking: true,
            }),
    {
        LinkType {
            id: String::from_str(LINK_TYPE_DEPENDENCY),
            name: Some(String::from_str("Dependency")),
            description: Some(String::from_str("Source step depends on target step completion")),
            is_blocking: true,
        }
    }

    /// The built-in predecessor type with all of its fields pinned down.
    fn predecessor_full() -> (r: Self)
        ensures
            r@ == (LinkTypeView {
                id: LINK_TYPE_PREDECESSOR@,
                name: Some("Predecessor"@),
                description: Some("Target step should be done before source step"@),
                is_blocking: true,
            }),
    {
        LinkType {
            id: String::from_str(LINK_TYPE_PREDECESSOR),
            name: Some(String::from_str("Predecessor")),
            description: Some(String::from_str("Target step should be done before source step")),
            is_blocking: true,
        }
    }
}

/// If entry `i` is the first whose id matches, resolution returns it.
proof fn lemma_resolve_first_match(types: Seq<LinkTypeView>, ty: Seq<char>, i: int)
    requires
        0 <= i < types.len(),
        types[i].id == ty,
        forall|j: int| 0 <= j < i ==> types[j].id != ty,
    ensures
        spec_resolve_link_type(types, ty) == types[i],
    decreases i,
{
    if i == 0 {
    } else {
        lemma_resolve_first_match(types.drop_first(), ty, i - 1);
    }
}

/// If no entry matches, resolution falls back to the built-in or custom type.
proof fn lemma_resolve_no_match(types: Seq<LinkTypeView>, ty: Seq<char>)
    requires
        forall|j: int| 0 <= j < types.len() ==> types[j].id != ty,
    ensures
        spec_resolve_link_type(types, ty) == spec_resolve_link_type(Seq::<LinkTypeView>::empty(), ty),
    decreases types.len(),
{
    if types.len() > 0 {
        lemma_resolve_no_match(types.drop_first(), ty);
    }
}

} // verus!
