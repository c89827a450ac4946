//! The helper modules that transformed code may import.
use vstd::prelude::*;
use crate::str_set::StrSet;

verus! {

/// The set of helper modules in use.
pub struct SwcHelpers {
    pub helpers: StrSet,
}

impl SwcHelpers {
    /// The given helpers, or none.
    pub fn new(helpers: Option<StrSet>) -> (r: SwcHelpers)
        ensures
            r.helpers@ == match helpers {
                Some(h) => h@,
                None => Set::<Seq<char>>::empty(),
            },
    {
        let helpers = match helpers {
            Some(h) => h,
            None => StrSet::new(),
        };
        SwcHelpers { helpers }
    }

    /// Every helper module.
    pub fn full_helpers() -> (r: StrSet)
        ensures
            r@ == set![
                "@swc/helpers/_/_interop_require_default"@,
                "@swc/helpers/_/_interop_require_wildcard"@,
                "@swc/helpers/_/_export_star"@,
            ],
    {
        let mut helpers = StrSet::new();
        helpers.insert("@swc/helpers/_/_interop_require_default");
        helpers.insert("@swc/helpers/_/_interop_require_wildcard");
        helpers.insert("@swc/helpers/_/_export_star");
        assert(helpers@ =~= set![
            "@swc/helpers/_/_interop_require_default"@,
            "@swc/helpers/_/_interop_require_wildcard"@,
            "@swc/helpers/_/_export_star"@,
        ]);
        helpers
    }

    /// No helper.
    pub fn default() -> (r: SwcHelpers)
        ensures
            r.helpers@ == Set::<Seq<char>>::empty(),
    {
        Self::new(None)
    }
}

} // verus!
