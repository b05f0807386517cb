//! Subject categories that a search can be restricted to.

use vstd::prelude::*;

verus! {

/// A subject classification of the computer science archive.
pub enum Category {
    CsAi,
    CsCl,
    CsLg,
    CsGt,
    CsCv,
    CsCr,
    CsCc,
    CsCe,
    CsCy,
    CsDs,
    CsDm,
    CsDc,
    CsEt,
    CsFl,
    CsGl,
    CsGr,
    CsAr,
    CsHc,
    CsIr,
}

impl Category {
    /// The code under which the API knows the category.
    pub open spec fn code(self) -> Seq<char> {
        match self {
            Category::CsAi => "cs.AI"@,
            Category::CsCl => "cs.CL"@,
            Category::CsLg => "cs.LG"@,
            Category::CsGt => "cs.GT"@,
            Category::CsCv => "cs.CV"@,
            Category::CsCr => "cs.CR"@,
            Category::CsCc => "cs.CC"@,
            Category::CsCe => "cs.CE"@,
            Category::CsCy => "cs.CY"@,
            Category::CsDs => "cs.DS"@,
            Category::CsDm => "cs.DM"@,
            Category::CsDc => "cs.DC"@,
            Category::CsEt => "cs.ET"@,
            Category::CsFl => "cs.FL"@,
            Category::CsGl => "cs.GL"@,
            Category::CsGr => "cs.GR"@,
            Category::CsAr => "cs.AR"@,
            Category::CsHc => "cs.HC"@,
            Category::CsIr => "cs.IR"@,
        }
    }

    /// Writes the code of the category.
    pub fn to_string(&self) -> (code: String)
        ensures
            code@ == self.code(),
    {
        match self {
            Category::CsAi => "cs.AI".to_owned(),
            Category::CsCl => "cs.CL".to_owned(),
            Category::CsLg => "cs.LG".to_owned(),
            Category::CsGt => "cs.GT".to_owned(),
            Category::CsCv => "cs.CV".to_owned(),
            Category::CsCr => "cs.CR".to_owned(),
            Category::CsCc => "cs.CC".to_owned(),
            Category::CsCe => "cs.CE".to_owned(),
            Category::CsCy => "cs.CY".to_owned(),
            Category::CsDs => "cs.DS".to_owned(),
            Category::CsDm => "cs.DM".to_owned(),
            Category::CsDc => "cs.DC".to_owned(),
            Category::CsEt => "cs.ET".to_owned(),
            Category::CsFl => "cs.FL".to_owned(),
            Category::CsGl => "cs.GL".to_owned(),
            Category::CsGr => "cs.GR".to_owned(),
            Category::CsAr => "cs.AR".to_owned(),
            Category::CsHc => "cs.HC".to_owned(),
            Category::CsIr => "cs.IR".to_owned(),
        }
    }
}

} // verus!
