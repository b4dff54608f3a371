use vstd::prelude::*;

verus! {

/// The Lua dialect that emitted code is written for.
#[derive(Clone, Copy, Debug, PartialEq, Eq, Structural)]
pub enum TargetVersion {
    Lua53,
    Lua54,
    Luau,
}

/// The identifier under which each dialect is written in a manifest file.
pub open spec fn version_name(v: TargetVersion) -> Seq<char> {
    match v {
        TargetVersion::Lua53 => "lua53"@,
        TargetVersion::Lua54 => "lua54"@,
        TargetVersion::Luau => "luau"@,
    }
}

/// The dialect whose identifier is `s`, if any.
pub open spec fn version_named(s: Seq<char>) -> Option<TargetVersion> {
    if s == "lua53"@ {
        Some(TargetVersion::Lua53)
    } else if s == "lua54"@ {
        Some(TargetVersion::Lua54)
    } else if s == "luau"@ {
        Some(TargetVersion::Luau)
    } else {
        None
    }
}

/// Each dialect is found again under the identifier it is written as.
pub proof fn lemma_version_name_round_trip(v: TargetVersion)
    ensures
        version_named(version_name(v)) == Some(v),
{
    reveal_strlit("lua53");
    reveal_strlit("lua54");
    reveal_strlit("luau");
    assert("lua53"@[4] != "lua54"@[4]);
    assert("lua53"@.len() != "luau"@.len());
    assert("lua54"@.len() != "luau"@.len());
}

impl TargetVersion {
    /// The most compatible dialect: the one a manifest selects when it names none.
    pub open spec fn spec_default() -> TargetVersion {
        TargetVersion::Lua53
    }

    /// The identifier of this dialect in a manifest file.
    pub fn name(&self) -> (r: String)
        ensures
            r@ == version_name(*self),
    {
        match self {
            TargetVersion::Lua53 => "lua53".to_owned(),
            TargetVersion::Lua54 => "lua54".to_owned(),
            TargetVersion::Luau => "luau".to_owned(),
        }
    }
}

impl Default for TargetVersion {
    fn default() -> (r: TargetVersion)
        ensures
            r == TargetVersion::spec_default(),
    {
        TargetVersion::Lua53
    }
}

/// Reads a dialect identifier; `None` when `s` names no known dialect.
pub fn parse_target_version(s: &String) -> (r: Option<TargetVersion>)
    ensures
        r == version_named(s@),
{
    proof {
        reveal_strlit("lua53");
        reveal_strlit("lua54");
        reveal_strlit("luau");
    }
    if *s == "lua53".to_owned() {
        Some(TargetVersion::Lua53)
    } else if *s == "lua54".to_owned() {
        Some(TargetVersion::Lua54)
    } else if *s == "luau".to_owned() {
        Some(TargetVersion::Luau)
    } else {
        None
    }
}

} // verus!
