//! The foreign linter's configuration schema: only the fields the
//! translation in the parent module reads.

use vstd::prelude::*;

verus! {

#[derive(Debug, Clone)]
pub struct GolangciConfiguration {
    pub run: Option<Run>,
    pub linters_settings: Option<LintersSettings>,
}

#[derive(Debug, Clone)]
pub struct Run {
    pub skip_dirs: Option<Vec<String>>,
}

#[derive(Debug, Clone)]
pub struct LintersSettings {
    pub gci: Option<Gci>,
}

#[derive(Debug, Clone)]
pub struct Gci {
    pub sections: Option<Vec<String>>,
}

} // verus!
