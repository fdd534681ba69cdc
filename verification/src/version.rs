//! Versions of packages.

use vstd::prelude::*;
use vstd::std_specs::cmp::PartialEqSpec;
use vstd::string::*;

use crate::text::{decimal, digits_value, law_decimal, push_decimal};

verus! {

/// A version as semantic versioning defines it.
#[derive(Debug)]
pub struct Version {
    pub major: u64,
    pub minor: u64,
    pub patch: u64,
    /// The pre-release identifier; empty where there is none.
    pub pre: String,
    /// The build metadata; empty where there is none.
    pub build: String,
}

/// What a version stands for.
pub ghost struct VersionView {
    pub major: u64,
    pub minor: u64,
    pub patch: u64,
    pub pre: Seq<char>,
    pub build: Seq<char>,
}

impl View for Version {
    type V = VersionView;

    open spec fn view(&self) -> VersionView {
        VersionView {
            major: self.major,
            minor: self.minor,
            patch: self.patch,
            pre: self.pre@,
            build: self.build@,
        }
    }
}

/// A version as it is written: `1.2.3`, then `-` and the pre-release identifier, then `+` and the
/// build metadata, where there are any.
pub open spec fn version_text(v: VersionView) -> Seq<char> {
    let numbers = decimal(v.major as nat) + seq!['.'] + decimal(v.minor as nat) + seq!['.']
        + decimal(v.patch as nat);
    let with_pre = if v.pre.len() == 0 {
        numbers
    } else {
        numbers + seq!['-'] + v.pre
    };
    if v.build.len() == 0 {
        with_pre
    } else {
        with_pre + seq!['+'] + v.build
    }
}

impl PartialEq for Version {
    fn eq(&self, other: &Self) -> (r: bool) {
        self.major == other.major && self.minor == other.minor && self.patch == other.patch
            && self.pre == other.pre && self.build == other.build
    }
}

impl vstd::std_specs::cmp::PartialEqSpecImpl for Version {
    open spec fn obeys_eq_spec() -> bool {
        true
    }

    open spec fn eq_spec(&self, other: &Self) -> bool {
        self@ == other@
    }
}

impl Clone for Version {
    fn clone(&self) -> (r: Self)
        ensures
            r@ == self@,
    {
        Version {
            major: self.major,
            minor: self.minor,
            patch: self.patch,
            pre: self.pre.clone(),
            build: self.build.clone(),
        }
    }
}

impl Version {
    /// A version without a pre-release identifier and without build metadata.
    pub fn new(major: u64, minor: u64, patch: u64) -> (r: Self)
        ensures
            r@ == (VersionView { major, minor, patch, pre: Seq::empty(), build: Seq::empty() }),
    {
        Version { major, minor, patch, pre: String::new(), build: String::new() }
    }

    /// The version as it is written.
    pub fn to_string(&self) -> (r: String)
        ensures
            r@ == version_text(self@),
    {
        let mut out = String::new();
        push_decimal(&mut out, self.major);
        out.push('.');
        push_decimal(&mut out, self.minor);
        out.push('.');
        push_decimal(&mut out, self.patch);
        assert(out@ =~= decimal(self.major as nat) + seq!['.'] + decimal(self.minor as nat)
            + seq!['.'] + decimal(self.patch as nat));
        if !self.pre.as_str().is_empty() {
            out.push('-');
            out.append(self.pre.as_str());
        }
        if !self.build.as_str().is_empty() {
            out.push('+');
            out.append(self.build.as_str());
        }
        assert(out@ =~= version_text(self@));
        out
    }
}

/// A version is written as its three numbers with dots between them. A pre-release identifier
/// follows behind a hyphen, and build metadata behind a plus sign; where there is none of these,
/// nothing stands for it.
pub proof fn law_version_text(v: VersionView)
    ensures
        ({
            let without_build = VersionView { build: Seq::empty(), ..v };
            let numbers = VersionView { pre: Seq::empty(), ..without_build };
            &&& v.build.len() == 0 ==> version_text(v) == version_text(without_build)
            &&& v.build.len() > 0 ==> version_text(v) == version_text(without_build) + seq!['+']
                + v.build
            &&& v.pre.len() == 0 ==> version_text(without_build) == version_text(numbers)
            &&& v.pre.len() > 0 ==> version_text(without_build) == version_text(numbers) + seq!['-']
                + v.pre
            &&& exists|x: Seq<char>, y: Seq<char>, z: Seq<char>|
                {
                    &&& version_text(numbers) == #[trigger] (x + seq!['.'] + y + seq!['.'] + z)
                    &&& is_number(x, v.major as nat)
                    &&& is_number(y, v.minor as nat)
                    &&& is_number(z, v.patch as nat)
                }
        }),
{
    let without_build = VersionView { build: Seq::empty(), ..v };
    let numbers = VersionView { pre: Seq::empty(), ..without_build };
    law_decimal(v.major as nat);
    law_decimal(v.minor as nat);
    law_decimal(v.patch as nat);
    let x = decimal(v.major as nat);
    let y = decimal(v.minor as nat);
    let z = decimal(v.patch as nat);
    assert(version_text(numbers) == x + seq!['.'] + y + seq!['.'] + z);
}

/// The digits stand for the number, without a zero in front.
pub open spec fn is_number(digits: Seq<char>, n: nat) -> bool {
    &&& digits.len() > 0
    &&& forall|i: int| 0 <= i < digits.len() ==> '0' <= #[trigger] digits[i] <= '9'
    &&& digits_value(digits) == n
    &&& digits[0] == '0' ==> digits.len() == 1
}

/// What a version stands for has each part of it, and two versions are equal exactly where each part
/// is.
pub proof fn law_version_view(v: Version, w: Version)
    ensures
        v@.major == v.major,
        v@.minor == v.minor,
        v@.patch == v.patch,
        v@.pre == v.pre@,
        v@.build == v.build@,
        v.eq_spec(&w) <==> v.major == w.major && v.minor == w.minor && v.patch == w.patch && v.pre@
            == w.pre@ && v.build@ == w.build@,
{
}

} // verus!
