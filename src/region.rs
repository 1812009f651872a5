use vstd::prelude::*;
use vstd::string::StringExecFns;

verus! {

/// Which upstream list a region comes from.
#[derive(Clone, Copy, Debug, PartialEq, Eq, Structural)]
pub enum RegionType {
    City,
    Gun,
    Ku,
}

/// The literal a region type is written as.
pub open spec fn region_type_label(t: RegionType) -> Seq<char> {
    match t {
        RegionType::City => "City"@,
        RegionType::Gun => "Gun"@,
        RegionType::Ku => "Ku"@,
    }
}

impl RegionType {
    /// The literal this region type is written as: `City`, `Gun` or `Ku`.
    pub fn to_string(&self) -> (r: String)
        ensures
            r@ == region_type_label(*self),
    {
        match self {
            RegionType::City => String::from_str("City"),
            RegionType::Gun => String::from_str("Gun"),
            RegionType::Ku => String::from_str("Ku"),
        }
    }
}

/// One administrative area entry.
#[derive(Clone, Debug)]
pub struct Region {
    pub code: String,
    pub name: String,
    pub deleted: bool,
    pub valid_until: String,
    pub region_type: RegionType,
}

/// The mathematical value of a `Region`.
pub struct RegionSpec {
    pub code: Seq<char>,
    pub name: Seq<char>,
    pub deleted: bool,
    pub valid_until: Seq<char>,
    pub region_type: RegionType,
}

impl View for Region {
    type V = RegionSpec;

    open spec fn view(&self) -> RegionSpec {
        RegionSpec {
            code: self.code@,
            name: self.name@,
            deleted: self.deleted,
            valid_until: self.valid_until@,
            region_type: self.region_type,
        }
    }
}

} // verus!
