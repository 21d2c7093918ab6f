//! The slicer applications that can be launched, and the package that holds each one.
use vstd::prelude::*;
use vstd::string::*;

verus! {

/// A known slicer application, or `Custom` for the command that the user configured.
#[derive(Clone, Copy, Debug, PartialEq, Eq, Structural)]
pub enum Slicer {
    PrusaSlicer,
    OrcaSlicer,
    Cura,
    BambuStudio,
    Custom,
}

/// The Flatpak application identifier of each built-in slicer; empty for `Custom`.
pub open spec fn package_of(slicer: Slicer) -> Seq<char> {
    match slicer {
        Slicer::PrusaSlicer => "com.prusa3d.PrusaSlicer"@,
        Slicer::OrcaSlicer => "io.github.softfever.OrcaSlicer"@,
        Slicer::Cura => "com.ultimaker.cura"@,
        Slicer::BambuStudio => "com.bambulab.BambuStudio"@,
        Slicer::Custom => Seq::empty(),
    }
}

impl Slicer {
    pub open spec fn is_custom(&self) -> bool {
        *self == Slicer::Custom
    }
}

/// The Flatpak application identifier of `slicer`; empty for `Custom`.
pub fn get_flatpak_slicer_package(slicer: &Slicer) -> (r: String)
    ensures
        r@ == package_of(*slicer),
{
    match slicer {
        Slicer::PrusaSlicer => String::from_str("com.prusa3d.PrusaSlicer"),
        Slicer::OrcaSlicer => String::from_str("io.github.softfever.OrcaSlicer"),
        Slicer::Cura => String::from_str("com.ultimaker.cura"),
        Slicer::BambuStudio => String::from_str("com.bambulab.BambuStudio"),
        Slicer::Custom => String::new(),
    }
}

/// Only `Custom` has no package.
pub proof fn lemma_builtin_has_package(slicer: Slicer)
    ensures
        package_of(slicer).len() == 0 <==> slicer.is_custom(),
{
    reveal_strlit("com.prusa3d.PrusaSlicer");
    reveal_strlit("io.github.softfever.OrcaSlicer");
    reveal_strlit("com.ultimaker.cura");
    reveal_strlit("com.bambulab.BambuStudio");
}

} // verus!
