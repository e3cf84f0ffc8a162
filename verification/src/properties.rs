use vstd::prelude::*;

verus! {

/// The facts that decide whether a mapped window may be tiled.
#[derive(Clone, Copy, Debug, PartialEq, Eq, Structural)]
pub struct LayoutWindowProperties {
    pub alive: bool,
    pub transient: bool,
    pub auxiliary: bool,
    pub override_redirect: bool,
    pub minimized: bool,
}

impl LayoutWindowProperties {
    /// Only live, regular toplevels are tiled: no dialogs with a transient
    /// parent, no auxiliary or override-redirect surfaces, nothing minimized.
    pub open spec fn spec_is_tiling_candidate(self) -> bool {
        self.alive && !self.transient && !self.auxiliary && !self.override_redirect
            && !self.minimized
    }

    pub fn is_tiling_candidate(self) -> (r: bool)
        ensures
            r == self.spec_is_tiling_candidate(),
    {
        self.alive && !self.transient && !self.auxiliary && !self.override_redirect
            && !self.minimized
    }
}

} // verus!
