//! The pet's body settings and the defaults of a newly created ghost.
use vstd::prelude::*;

verus! {

/// How the pet is drawn and moves.
#[derive(Clone, Debug)]
pub struct BodyConfig {
    pub body_type: String,
    pub asset_path: String,
    pub default_expression: String,
    pub movement_style: String,
}

impl Default for BodyConfig {
    /// The default sprite sheet body, idle, walking.
    fn default() -> (b: Self)
        ensures
            b.body_type@ == "spritesheet"@,
            b.asset_path@ == "./bodies/default/"@,
            b.default_expression@ == "idle"@,
            b.movement_style@ == "walk"@,
    {
        BodyConfig {
            body_type: "spritesheet".to_owned(),
            asset_path: "./bodies/default/".to_owned(),
            default_expression: "idle".to_owned(),
            movement_style: "walk".to_owned(),
        }
    }
}

impl BodyConfig {
    /// The default body moving in the given style.
    pub fn with_movement_style(movement_style: String) -> (b: Self)
        ensures
            b.body_type@ == "spritesheet"@,
            b.asset_path@ == "./bodies/default/"@,
            b.default_expression@ == "idle"@,
            b.movement_style@ == movement_style@,
    {
        BodyConfig {
            body_type: "spritesheet".to_owned(),
            asset_path: "./bodies/default/".to_owned(),
            default_expression: "idle".to_owned(),
            movement_style,
        }
    }
}

/// The name of a new ghost: the one given, else `未命名`.
pub fn ghost_name_or_default(name: Option<String>) -> (n: String)
    ensures
        n@ == match name {
            Some(x) => x@,
            None => "未命名"@,
        },
{
    match name {
        Some(x) => x,
        None => "未命名".to_owned(),
    }
}

/// The format version written into ghost files.
pub fn ghost_version() -> (v: &'static str)
    ensures
        v@ == "2.0"@,
{
    "2.0"
}

} // verus!
