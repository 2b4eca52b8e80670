//! Version information of the monitor.

use vstd::prelude::*;
use vstd::string::{StrSliceExecFns, StringExecFns};

verus! {

/// The version of this crate.
pub const CRATE_VERSION: &'static str = "0.1.0";

/// The tag of the build; empty where it is not known.
pub const BUILD_TAG: &'static str = "";

/// The commit of the build; empty where it is not known.
pub const BUILD_COMMIT: &'static str = "";

/// The date of the build; empty where it is not known.
pub const BUILD_TIME: &'static str = "";

/// The target triple of the build; empty where it is not known.
pub const BUILD_TARGET: &'static str = "";

/// The Rust compiler of the build; empty where it is not known.
pub const BUILD_RUST_VERSION: &'static str = "";

/// The Cargo of the build; empty where it is not known.
pub const BUILD_CARGO_VERSION: &'static str = "";

/// The dependency tree of the build; empty where it is not known.
pub const BUILD_CARGO_TREE: &'static str = "";

/// The version structure.
#[derive(Clone, Copy, Debug)]
pub struct Version {
    verbose: bool,
    version: &'static str,
    tag: &'static str,
    commit: &'static str,
    build_date: &'static str,
    target: &'static str,
    rust_version: &'static str,
    cargo_version: &'static str,
    cargo_tree: &'static str,
}

impl Version {
    /// Whether the output is verbose.
    pub closed spec fn spec_verbose(&self) -> bool {
        self.verbose
    }

    /// The fields of the version, in order: version, tag, commit, build date,
    /// target, Rust version, Cargo version and dependency tree.
    pub closed spec fn fields(&self) -> Seq<Seq<char>> {
        seq![
            self.version@,
            self.tag@,
            self.commit@,
            self.build_date@,
            self.target@,
            self.rust_version@,
            self.cargo_version@,
            self.cargo_tree@,
        ]
    }

    /// Create a new Version instance; the dependency tree is only filled in
    /// for verbose output.
    pub fn new(verbose: bool) -> (v: Self)
        ensures
            v.spec_verbose() == verbose,
            v.fields() == seq![
                CRATE_VERSION@,
                BUILD_TAG@,
                BUILD_COMMIT@,
                BUILD_TIME@,
                BUILD_TARGET@,
                BUILD_RUST_VERSION@,
                BUILD_CARGO_VERSION@,
                if verbose { BUILD_CARGO_TREE@ } else { ""@ },
            ],
    {
        Version {
            verbose,
            version: CRATE_VERSION,
            tag: BUILD_TAG,
            commit: BUILD_COMMIT,
            build_date: BUILD_TIME,
            target: BUILD_TARGET,
            rust_version: BUILD_RUST_VERSION,
            cargo_version: BUILD_CARGO_VERSION,
            cargo_tree: if verbose { BUILD_CARGO_TREE } else { "" },
        }
    }

    /// Whether verbose output is enabled.
    pub fn verbose(&self) -> (b: bool)
        ensures
            b == self.spec_verbose(),
    {
        self.verbose
    }

    /// The current crate version.
    pub fn version(&self) -> (s: &'static str)
        ensures
            s@ == self.fields()[0],
    {
        self.version
    }

    /// The tag of the build.
    pub fn tag(&self) -> (s: &'static str)
        ensures
            s@ == self.fields()[1],
    {
        self.tag
    }

    /// The git commit SHA.
    pub fn commit(&self) -> (s: &'static str)
        ensures
            s@ == self.fields()[2],
    {
        self.commit
    }

    /// The build date string.
    pub fn build_date(&self) -> (s: &'static str)
        ensures
            s@ == self.fields()[3],
    {
        self.build_date
    }

    /// The target triple.
    pub fn target(&self) -> (s: &'static str)
        ensures
            s@ == self.fields()[4],
    {
        self.target
    }

    /// The Rust version used.
    pub fn rust_version(&self) -> (s: &'static str)
        ensures
            s@ == self.fields()[5],
    {
        self.rust_version
    }

    /// The Cargo version used.
    pub fn cargo_version(&self) -> (s: &'static str)
        ensures
            s@ == self.fields()[6],
    {
        self.cargo_version
    }

    /// The cargo dependency tree.
    pub fn cargo_tree(&self) -> (s: &'static str)
        ensures
            s@ == self.fields()[7],
    {
        self.cargo_tree
    }

    /// The text that the version information is printed as: one line per
    /// field, the tag `none` where it is empty, and the dependency tree after
    /// an empty line for verbose output.
    pub open spec fn spec_text(&self) -> Seq<char> {
        let f = self.fields();
        let tag = if f[1].len() == 0 { "none"@ } else { f[1] };
        let text = "version: "@ + f[0] + "\ntag: "@ + tag + "\ncommit: "@ + f[2] + "\nbuild: "@ + f[3]
            + "\ntarget: "@ + f[4] + "\n"@ + f[5] + "\n"@ + f[6] + "\n"@;
        if self.spec_verbose() {
            text + "\ncargo tree: "@ + f[7] + "\n"@
        } else {
            text
        }
    }

    /// The text that the version information is printed as.
    pub fn text(&self) -> (s: String)
        ensures
            s@ == self.spec_text(),
    {
        let mut s = String::from_str("version: ");
        s.append(self.version);
        s.append("\ntag: ");
        if self.tag.unicode_len() == 0 {
            s.append("none");
        } else {
            s.append(self.tag);
        }
        s.append("\ncommit: ");
        s.append(self.commit);
        s.append("\nbuild: ");
        s.append(self.build_date);
        s.append("\ntarget: ");
        s.append(self.target);
        s.append("\n");
        s.append(self.rust_version);
        s.append("\n");
        s.append(self.cargo_version);
        s.append("\n");
        if self.verbose {
            s.append("\ncargo tree: ");
            s.append(self.cargo_tree);
            s.append("\n");
        }
        s
    }
}

} // verus!
