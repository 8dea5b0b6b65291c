//! Skills: instructions that are put in front of a model on demand.

use vstd::prelude::*;

verus! {

/// A skill, with its instructions where they are loaded.
#[derive(Debug, Clone)]
pub struct SkillRef {
    pub name: String,
    pub description: String,
    pub path: Option<String>,
    pub base_dir: Option<String>,
    pub body: Option<String>,
    pub scope: Option<String>,
    pub compatibility: Option<String>,
    pub license: Option<String>,
    pub metadata: Option<Vec<(String, String)>>,
    pub allowed_tools: Option<Vec<String>>,
}

} // verus!
