//! The declared configuration: the interfaces and the names they are to
//! go by.
pub mod interfaceconfig;

use crate::config::interfaceconfig::InterfaceConfig;
use crate::text::same_text;
use vstd::prelude::*;

verus! {

/// The kind of a declared interface.
#[derive(Clone, Copy, Debug, PartialEq, Eq)]
pub enum InterfaceType {
    Ethernet,
    Bridge,
}

/// The whole declaration. Each of its two maps is kept as a list of pairs,
/// key first, in the order in which it was declared: the passes work
/// through them in that order, and the renames are taken back in the
/// reverse of it, which only an ordered list lets a contract say. That no
/// key stands twice is `well_formed`, which `is_well_formed` tests.
#[derive(Debug, PartialEq, Eq)]
pub struct Config {
    /// Pairs of the name that the operating system gave and the name that
    /// the interface is to have.
    pub renames: Vec<(String, String)>,
    /// The interfaces, each under its name.
    pub interfaces: Vec<(String, InterfaceConfig)>,
}

/// The renames as pairs of texts.
pub open spec fn rename_pairs(renames: Seq<(String, String)>) -> Seq<(Seq<char>, Seq<char>)> {
    Seq::new(renames.len(), |i: int| (renames[i].0@, renames[i].1@))
}

/// The names under which the interfaces are declared.
pub open spec fn declared_names(interfaces: Seq<(String, InterfaceConfig)>) -> Seq<Seq<char>> {
    Seq::new(interfaces.len(), |i: int| interfaces[i].0@)
}

/// The names that are to be replaced.
pub open spec fn renamed_names(renames: Seq<(String, String)>) -> Seq<Seq<char>> {
    Seq::new(renames.len(), |i: int| renames[i].0@)
}

/// Whether no two of `names` are the same.
pub open spec fn distinct(names: Seq<Seq<char>>) -> bool {
    forall|i: int, j: int| 0 <= i < j < names.len() ==> names[i] != names[j]
}

/// Whether `name` is among the first `count` of `names`.
fn occurs_before(names: &Vec<String>, count: usize, name: &str) -> (r: bool)
    requires
        count <= names.len(),
    ensures
        r == exists|i: int| 0 <= i < count && (#[trigger] names[i])@ == name@,
{
    let mut i: usize = 0;
    while i < count
        invariant
            i <= count <= names.len(),
            forall|k: int| 0 <= k < i ==> (#[trigger] names[k])@ != name@,
        decreases count - i,
    {
        if same_text(names[i].as_str(), name) {
            return true;
        }
        i += 1;
    }
    false
}

impl Config {
    /// Whether the declaration names nothing twice: no interface is
    /// declared twice, and no name is renamed twice.
    pub open spec fn well_formed(self) -> bool {
        distinct(renamed_names(self.renames@)) && distinct(declared_names(self.interfaces@))
    }

    /// Whether the declaration names nothing twice.
    pub fn is_well_formed(&self) -> (r: bool)
        ensures
            r == self.well_formed(),
    {
        let mut sources: Vec<String> = Vec::new();
        let mut i: usize = 0;
        while i < self.renames.len()
            invariant
                i <= self.renames.len(),
                sources.len() == i,
                forall|k: int| 0 <= k < i ==> (#[trigger] sources[k])@ == self.renames[k].0@,
                distinct(renamed_names(self.renames@).take(i as int)),
            decreases self.renames.len() - i,
        {
            if occurs_before(&sources, i, self.renames[i].0.as_str()) {
                proof {
                    let at = i as int;
                    let k = choose|k: int|
                        0 <= k < i && (#[trigger] sources[k])@ == self.renames[at].0@;
                    let all = renamed_names(self.renames@);
                    assert(all[k] == all[at]);
                }
                return false;
            }
            proof {
                let all = renamed_names(self.renames@);
                let now = all.take(i as int);
                let next = all.take(i + 1);
                assert forall|a: int, b: int| 0 <= a < b < next.len() implies next[a]
                    != next[b] by {
                    if b < i {
                        assert(now[a] != now[b]);
                    } else {
                        assert(sources[a]@ == self.renames[a].0@);
                    }
                }
            }
            sources.push(self.renames[i].0.clone());
            i += 1;
        }
        assert(renamed_names(self.renames@).take(i as int) =~= renamed_names(self.renames@));
        let mut names: Vec<String> = Vec::new();
        let mut j: usize = 0;
        while j < self.interfaces.len()
            invariant
                j <= self.interfaces.len(),
                names.len() == j,
                forall|k: int| 0 <= k < j ==> (#[trigger] names[k])@ == self.interfaces[k].0@,
                distinct(declared_names(self.interfaces@).take(j as int)),
                distinct(renamed_names(self.renames@)),
            decreases self.interfaces.len() - j,
        {
            if occurs_before(&names, j, self.interfaces[j].0.as_str()) {
                proof {
                    let at = j as int;
                    let k = choose|k: int|
                        0 <= k < j && (#[trigger] names[k])@ == self.interfaces[at].0@;
                    assert(declared_names(self.interfaces@)[k] == declared_names(
                        self.interfaces@,
                    )[j as int]);
                }
                return false;
            }
            proof {
                let all = declared_names(self.interfaces@);
                let now = all.take(j as int);
                let next = all.take(j + 1);
                assert forall|a: int, b: int| 0 <= a < b < next.len() implies next[a]
                    != next[b] by {
                    if b < j {
                        assert(now[a] != now[b]);
                    } else {
                        assert(names[a]@ == self.interfaces[a].0@);
                    }
                }
            }
            names.push(self.interfaces[j].0.clone());
            j += 1;
        }
        assert(declared_names(self.interfaces@).take(j as int) =~= declared_names(
            self.interfaces@,
        ));
        true
    }
}

} // verus!
