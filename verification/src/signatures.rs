//! Rule bundles: what a signature update delivers.

use vstd::prelude::*;
use crate::quarantine::Timestamp;

verus! {

/// `semver::Version`, carried through a bundle untouched.
#[verifier::external_type_specification]
#[verifier::external_body]
pub struct ExVersion(semver::Version);

/// `Clone` for `semver::Version`: the copy is a `Version` again; nothing more is claimed.
pub assume_specification[ <semver::Version as Clone>::clone ](version: &semver::Version) -> (copy:
    semver::Version);

/// What is known about one rule of a bundle.
#[derive(Debug, Clone)]
pub struct RuleMetadata {
    pub id: String,
    pub description: String,
    pub provenance: String,
    pub ab_bucket: Option<String>,
    pub created_at: Timestamp,
    pub expires_at: Option<Timestamp>,
    pub tags: Vec<String>,
}

/// A versioned set of rules with the checksum it was published under.
#[derive(Debug, Clone)]
pub struct RuleBundle {
    pub version: semver::Version,
    /// The rules, each under the identifier it is keyed by. In a bundle
    /// that is keyed no identifier occurs twice: see `is_keyed`.
    pub rules: Vec<(String, RuleMetadata)>,
    pub checksum: String,
}

/// A bundle does not carry the checksum it was announced with.
#[derive(Debug, Clone, Copy, PartialEq, Eq, Structural)]
pub struct ChecksumMismatch;

impl RuleBundle {
    /// The rules are keyed by their identifiers: no identifier occurs twice.
    pub open spec fn is_keyed(&self) -> bool {
        forall|i: int, j: int|
            0 <= i < j < self.rules@.len() ==> (#[trigger] self.rules@[i]).0@
                != (#[trigger] self.rules@[j]).0@
    }

    /// Whether the rules are keyed by their identifiers.
    pub fn has_unique_ids(&self) -> (unique: bool)
        ensures
            unique == self.is_keyed(),
    {
        let n = self.rules.len();
        let mut j: usize = 0;
        while j < n
            invariant
                n == self.rules@.len(),
                j <= n,
                forall|a: int, b: int|
                    0 <= a < b < j ==> (#[trigger] self.rules@[a]).0@ != (
                    #[trigger] self.rules@[b]).0@,
            decreases n - j,
        {
            let mut i: usize = 0;
            while i < j
                invariant
                    n == self.rules@.len(),
                    i <= j < n,
                    forall|a: int| 0 <= a < i ==> (#[trigger] self.rules@[a]).0@ != self.rules@[j as int].0@,
                decreases j - i,
            {
                if self.rules[i].0 == self.rules[j].0 {
                    return false;
                }
                i += 1;
            }
            j += 1;
        }
        true
    }

    /// The rule that is keyed by `id`.
    pub fn rule(&self, id: &str) -> (found: Option<&RuleMetadata>)
        ensures
            match found {
                Some(rule) => exists|i: int|
                    0 <= i < self.rules@.len() && (#[trigger] self.rules@[i]).0@ == id@ && *rule
                        == self.rules@[i].1 && forall|j: int|
                        0 <= j < i ==> (#[trigger] self.rules@[j]).0@ != id@,
                None => forall|i: int|
                    0 <= i < self.rules@.len() ==> (#[trigger] self.rules@[i]).0@ != id@,
            },
    {
        let wanted = id.to_owned();
        let n = self.rules.len();
        let mut i: usize = 0;
        while i < n
            invariant
                n == self.rules@.len(),
                i <= n,
                wanted@ == id@,
                forall|j: int| 0 <= j < i ==> (#[trigger] self.rules@[j]).0@ != id@,
            decreases n - i,
        {
            if self.rules[i].0 == wanted {
                return Some(&self.rules[i].1);
            }
            i += 1;
        }
        None
    }

    /// Check the bundle's checksum against the one it was announced with.
    pub fn verify(&self, expected_checksum: &str) -> (r: Result<(), ChecksumMismatch>)
        ensures
            r is Ok <==> self.checksum@ == expected_checksum@,
    {
        if self.checksum == expected_checksum.to_owned() {
            Ok(())
        } else {
            Err(ChecksumMismatch)
        }
    }
}

} // verus!
