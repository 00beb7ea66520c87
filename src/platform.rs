use vstd::prelude::*;

verus! {

/// The operating system and architecture a program runs on, as display strings.
#[derive(Debug)]
pub struct PlatformInfo {
    pub os: String,
    pub arch: String,
    pub family: String,
}

impl PlatformInfo {
    pub fn new(os: &str, arch: &str, family: &str) -> (r: PlatformInfo)
        ensures
            r.os@ == os@,
            r.arch@ == arch@,
            r.family@ == family@,
    {
        PlatformInfo {
            os: String::from_str(os),
            arch: String::from_str(arch),
            family: String::from_str(family),
        }
    }

    /// The platform written as `os-arch`.
    pub fn display(&self) -> (r: String)
        ensures
            r@ == self.os@ + "-"@ + self.arch@,
    {
        let mut r = self.os.clone();
        r.append("-");
        r.append(self.arch.as_str());
        r
    }
}

} // verus!
