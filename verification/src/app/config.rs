//! Configuration for the application shell.

use vstd::prelude::*;

verus! {

//		LoadingBehavior

/// The possible options for loading local, non-baked-in resources.
#[derive(Clone, Copy, Debug, PartialEq, Eq, Structural)]
pub enum LoadingBehavior {
    /// Deny loading of local resources.
    Deny,
    /// Load local resources if the baked-in resources are not present.
    Supplement,
    /// Load local resources if they exist, otherwise load baked-in
    /// resources.
    Override,
}

//		HtmlTemplates

/// Loading configuration for HTML templates.
pub struct HtmlTemplates {
    /// The loading behaviour for local, non-baked-in HTML templates.
    /// This allows local HTML templates to be used to complement the
    /// baked-in templates.
    pub behavior: LoadingBehavior,

    /// The path to the local, non-baked-in HTML templates.
    pub local_path: String,
}

impl Default for HtmlTemplates {
    /// Local loading denied, with templates under `html`.
    fn default() -> (r: HtmlTemplates)
        ensures
            r.behavior == LoadingBehavior::Deny,
            r.local_path@ == "html"@,
    {
        HtmlTemplates { behavior: LoadingBehavior::Deny, local_path: "html".to_owned() }
    }
}

} // verus!
