//! The catalog of registered states.
//!
//! Collaborators contribute `(family, state)` registrations; the catalog
//! indexes them by family and keeps the names of each family in strictly
//! ascending lexicographic order, ignoring duplicate registrations.  The
//! factories that build the actual state values are the runtime's business;
//! the catalog answers which names exist and produces the core's record of a
//! freshly torn-up instance.

use vstd::prelude::*;

use crate::order::{lemma_lex_lt_connected, lemma_lex_lt_transitive, lex_lt, str_eq, str_lt};
use crate::state::StateBox;

verus! {

/// One registration contributed at program start: a state name in a family.
pub struct StateRegistration {
    /// The family the state belongs to.
    pub state_family: String,
    /// The state name.
    pub state: String,
}

/// A sequence of names in strictly ascending lexicographic order.
pub open spec fn strictly_sorted(names: Seq<Seq<char>>) -> bool {
    forall|i: int, j: int| 0 <= i < j < names.len() ==> lex_lt(names[i], names[j])
}

/// Whether some entry of `regs` registers `name` under `family`.
pub open spec fn spec_registered(
    regs: Seq<StateRegistration>,
    family: Seq<char>,
    name: Seq<char>,
) -> bool {
    exists|k: int|
        0 <= k < regs.len() && regs[k].state_family@ == family && regs[k].state@ == name
}

struct FamilyEntry {
    family: String,
    names: Vec<String>,
}

spec fn families_contain(fams: Seq<FamilyEntry>, family: Seq<char>, name: Seq<char>) -> bool {
    exists|i: int|
        0 <= i < fams.len() && fams[i].family@ == family && fams[i].names.deep_view().contains(
            name,
        )
}

/// The immutable map from family name to the sorted state names of the
/// family, built once from the collected registrations.
pub struct Catalog {
    families: Vec<FamilyEntry>,
}

impl Catalog {
    /// Whether `name` is registered under `family`.
    pub closed spec fn spec_contains(self, family: Seq<char>, name: Seq<char>) -> bool {
        families_contain(self.families@, family, name)
    }

    /// Well-formedness: families are keyed uniquely and each family's names
    /// are strictly sorted (hence duplicate-free).
    pub closed spec fn wf(self) -> bool {
        &&& forall|i: int, j: int|
            0 <= i < j < self.families@.len() ==> self.families@[i].family@
                != self.families@[j].family@
        &&& forall|i: int|
            0 <= i < self.families@.len() ==> strictly_sorted(
                #[trigger] self.families@[i].names.deep_view(),
            )
    }

    /// Build the catalog from the collected registrations.  Duplicate
    /// `(family, state)` pairs are ignored; families are independent.
    pub fn new(regs: Vec<StateRegistration>) -> (r: Catalog)
        ensures
            r.wf(),
            forall|fam: Seq<char>, n: Seq<char>|
                #[trigger] r.spec_contains(fam, n) <==> spec_registered(regs@, fam, n),
    {
        let mut catalog = Catalog { families: Vec::new() };
        let mut k: usize = 0;
        while k < regs.len()
            invariant
                k <= regs@.len(),
                catalog.wf(),
                forall|fam: Seq<char>, n: Seq<char>|
                    #[trigger] catalog.spec_contains(fam, n) <==> spec_registered(
                        regs@.take(k as int),
                        fam,
                        n,
                    ),
            decreases regs@.len() - k,
        {
            let ghost pre = regs@.take(k as int);
            catalog.add(&regs[k]);
            proof {
                let post = regs@.take(k + 1);
                assert forall|fam: Seq<char>, n: Seq<char>|
                    spec_registered(post, fam, n) <==> (spec_registered(pre, fam, n) || (fam
                        == regs@[k as int].state_family@ && n == regs@[k as int].state@)) by {
                    if spec_registered(post, fam, n) {
                        let w = choose|w: int|
                            0 <= w < post.len() && post[w].state_family@ == fam && post[w].state@
                                == n;
                        if w < k {
                            assert(pre[w] == post[w]);
                        }
                    }
                    if spec_registered(pre, fam, n) {
                        let w = choose|w: int|
                            0 <= w < pre.len() && pre[w].state_family@ == fam && pre[w].state@
                                == n;
                        assert(post[w] == pre[w]);
                    }
                    if fam == regs@[k as int].state_family@ && n == regs@[k as int].state@ {
                        assert(post[k as int] == regs@[k as int]);
                    }
                }
            }
            k = k + 1;
        }
        proof {
            assert(regs@.take(regs@.len() as int) =~= regs@);
        }
        catalog
    }

    /// Add one registration: find or create the family entry, then insert
    /// the name in sorted position unless it is already present.
    fn add(&mut self, reg: &StateRegistration)
        requires
            old(self).wf(),
        ensures
            final (self).wf(),
            forall|fam: Seq<char>, n: Seq<char>|
                #[trigger] final (self).spec_contains(fam, n) <==> (old(self).spec_contains(
                    fam,
                    n,
                ) || (fam == reg.state_family@ && n == reg.state@)),
    {
        let count = self.families.len();
        let mut i: usize = 0;
        while i < count
            invariant
                *self == *old(self),
                count == self.families@.len(),
                i <= count,
                old(self).wf(),
                forall|j: int| 0 <= j < i ==> self.families@[j].family@ != reg.state_family@,
            decreases count - i,
        {
            if str_eq(self.families[i].family.as_str(), reg.state_family.as_str()) {
                let entry = vstd::std_specs::vec::vec_index_mut(&mut self.families, i);
                insert_sorted(&mut entry.names, reg.state.as_str());
                proof {
                    let fams = self.families@;
                    let at = i as int;
                    assert(fams == old(self).families@.update(at, fams[at]));
                    assert forall|fam: Seq<char>, n: Seq<char>|
                        #[trigger] self.spec_contains(fam, n) <==> (old(self).spec_contains(
                            fam,
                            n,
                        ) || (fam == reg.state_family@ && n == reg.state@)) by {
                        if self.spec_contains(fam, n) {
                            let w = choose|w: int|
                                0 <= w < fams.len() && fams[w].family@ == fam
                                    && fams[w].names.deep_view().contains(n);
                            if w != at {
                                assert(old(self).families@[w] == fams[w]);
                            }
                        }
                        if old(self).spec_contains(fam, n) {
                            let w = choose|w: int|
                                0 <= w < old(self).families@.len() && old(self).families@[w].family@ == fam
                                    && old(self).families@[w].names.deep_view().contains(n);
                            if w != at {
                                assert(fams[w] == old(self).families@[w]);
                            } else {
                                assert(fams[at].names.deep_view().contains(n));
                            }
                        }
                        if fam == reg.state_family@ && n == reg.state@ {
                            assert(fams[at].names.deep_view().contains(n));
                        }
                    }
                }
                return ;
            }
            i = i + 1;
        }
        let mut names: Vec<String> = Vec::new();
        names.push(reg.state.clone());
        self.families.push(FamilyEntry { family: reg.state_family.clone(), names });
        proof {
            let fams = self.families@;
            let at = fams.len() - 1;
            assert(fams[at].names.deep_view() =~= seq![reg.state@]);
            assert(fams[at].family@ == reg.state_family@);
            assert forall|fam: Seq<char>, n: Seq<char>|
                #[trigger] self.spec_contains(fam, n) <==> (old(self).spec_contains(fam, n) || (fam
                    == reg.state_family@ && n == reg.state@)) by {
                if self.spec_contains(fam, n) {
                    let w = choose|w: int|
                        0 <= w < fams.len() && fams[w].family@ == fam
                            && fams[w].names.deep_view().contains(n);
                    if w < at {
                        assert(old(self).families@[w] == fams[w]);
                    } else {
                        assert(fams[at].names.deep_view()[0] == reg.state@);
                    }
                }
                if old(self).spec_contains(fam, n) {
                    let w = choose|w: int|
                        0 <= w < old(self).families@.len() && old(self).families@[w].family@ == fam
                            && old(self).families@[w].names.deep_view().contains(n);
                    assert(fams[w] == old(self).families@[w]);
                }
                if fam == reg.state_family@ && n == reg.state@ {
                    assert(fams[at].names.deep_view()[0] == n);
                }
            }
        }
    }
}

/// The index of the entry for `state_family`, if one exists.
fn find_family(catalog: &Catalog, state_family: &str) -> (r: Option<usize>)
    ensures
        match r {
            Some(i) => i < catalog.families@.len() && catalog.families@[i as int].family@
                == state_family@,
            None => forall|i: int|
                0 <= i < catalog.families@.len() ==> catalog.families@[i].family@
                    != state_family@,
        },
{
    let count = catalog.families.len();
    let mut i: usize = 0;
    while i < count
        invariant
            count == catalog.families@.len(),
            i <= count,
            forall|j: int| 0 <= j < i ==> catalog.families@[j].family@ != state_family@,
        decreases count - i,
    {
        if str_eq(catalog.families[i].family.as_str(), state_family) {
            return Some(i);
        }
        i = i + 1;
    }
    None
}

/// Whether `name` occurs in `names`.
pub(crate) fn contains_name(names: &Vec<String>, name: &str) -> (r: bool)
    ensures
        r == names.deep_view().contains(name@),
{
    let count = names.len();
    let mut i: usize = 0;
    while i < count
        invariant
            count == names@.len(),
            i <= count,
            forall|j: int| 0 <= j < i ==> names.deep_view()[j] != name@,
        decreases count - i,
    {
        if str_eq(names[i].as_str(), name) {
            assert(names.deep_view()[i as int] == name@);
            return true;
        }
        i = i + 1;
    }
    proof {
        if names.deep_view().contains(name@) {
            let w = choose|w: int|
                0 <= w < names.deep_view().len() && names.deep_view()[w] == name@;
            assert(names.deep_view()[w] != name@);
        }
    }
    false
}

/// The registered state names of `state_family`, in strictly ascending
/// lexicographic order; empty if the family has no registrations.
pub fn state_names(catalog: &Catalog, state_family: &str) -> (r: Vec<String>)
    requires
        catalog.wf(),
    ensures
        strictly_sorted(r.deep_view()),
        forall|n: Seq<char>|
            #[trigger] r.deep_view().contains(n) <==> catalog.spec_contains(state_family@, n),
{
    match find_family(catalog, state_family) {
        None => {
            let r: Vec<String> = Vec::new();
            proof {
                assert forall|n: Seq<char>| #[trigger]
                    r.deep_view().contains(n) <==> catalog.spec_contains(state_family@, n) by {
                    assert(r.deep_view().len() == 0);
                    if catalog.spec_contains(state_family@, n) {
                        let w = choose|w: int|
                            0 <= w < catalog.families@.len() && catalog.families@[w].family@
                                == state_family@
                                && catalog.families@[w].names.deep_view().contains(n);
                        assert(catalog.families@[w].family@ != state_family@);
                    }
                }
            }
            r
        },
        Some(i) => {
            let names = &catalog.families[i].names;
            let count = names.len();
            let mut r: Vec<String> = Vec::new();
            let mut j: usize = 0;
            while j < count
                invariant
                    count == names@.len(),
                    j <= count,
                    r@.len() == j,
                    forall|p: int| 0 <= p < j ==> r@[p] == names@[p],
                decreases count - j,
            {
                r.push(names[j].clone());
                j = j + 1;
            }
            proof {
                assert(r@ =~= names@);
                assert(r.deep_view() =~= names.deep_view());
                let at = i as int;
                assert forall|n: Seq<char>| #[trigger]
                    r.deep_view().contains(n) <==> catalog.spec_contains(state_family@, n) by {
                    if r.deep_view().contains(n) {
                        assert(catalog.families@[at].names.deep_view().contains(n));
                    }
                    if catalog.spec_contains(state_family@, n) {
                        let w = choose|w: int|
                            0 <= w < catalog.families@.len() && catalog.families@[w].family@
                                == state_family@
                                && catalog.families@[w].names.deep_view().contains(n);
                        assert(w == at);
                    }
                }
            }
            r
        },
    }
}

/// Tear up the record of a registered state: `Some` exactly when `name` is
/// registered under `state_family`, and then a fresh box carrying that name
/// and family.  The user value behind it is built by the runtime's factory.
pub fn tear_up_registered_state(catalog: &Catalog, state_family: &str, name: &str) -> (r: Option<
    StateBox,
>)
    requires
        catalog.wf(),
    ensures
        r is Some <==> catalog.spec_contains(state_family@, name@),
        r matches Some(b) ==> b@ == (crate::state::BoxView {
            name: name@,
            family: state_family@,
            torn_down: false,
        }),
{
    match find_family(catalog, state_family) {
        None => {
            proof {
                if catalog.spec_contains(state_family@, name@) {
                    let w = choose|w: int|
                        0 <= w < catalog.families@.len() && catalog.families@[w].family@
                            == state_family@ && catalog.families@[w].names.deep_view().contains(
                            name@,
                        );
                    assert(catalog.families@[w].family@ != state_family@);
                }
            }
            None
        },
        Some(i) => {
            if contains_name(&catalog.families[i].names, name) {
                Some(StateBox::new(name.to_owned(), state_family.to_owned()))
            } else {
                proof {
                    let at = i as int;
                    if catalog.spec_contains(state_family@, name@) {
                        let w = choose|w: int|
                            0 <= w < catalog.families@.len() && catalog.families@[w].family@
                                == state_family@
                                && catalog.families@[w].names.deep_view().contains(name@);
                        assert(w == at);
                    }
                }
                None
            }
        },
    }
}

/// The first position whose name is not lexicographically below `name`;
/// `names.len()` if every name is below it.
fn lower_bound(names: &Vec<String>, name: &str) -> (i: usize)
    ensures
        i <= names@.len(),
        forall|j: int| 0 <= j < i ==> lex_lt(names.deep_view()[j], name@),
        i < names@.len() ==> !lex_lt(names.deep_view()[i as int], name@),
{
    let mut i: usize = 0;
    let count = names.len();
    while i < count
        invariant
            count == names@.len(),
            i <= count,
            forall|j: int| 0 <= j < i ==> lex_lt(names.deep_view()[j], name@),
        decreases count - i,
    {
        if !str_lt(names[i].as_str(), name) {
            return i;
        }
        i = i + 1;
    }
    i
}

/// Insert `name` into the strictly sorted `names` unless it is already
/// there, keeping the order strict.
fn insert_sorted(names: &mut Vec<String>, name: &str)
    requires
        strictly_sorted(old(names).deep_view()),
    ensures
        strictly_sorted(final (names).deep_view()),
        forall|n: Seq<char>|
            #[trigger] final (names).deep_view().contains(n) <==> (old(
                names,
            ).deep_view().contains(n) || n == name@),
{
    let ghost dv0 = names.deep_view();
    let i = lower_bound(names, name);
    if i < names.len() && str_eq(names[i].as_str(), name) {
        proof {
            assert(dv0[i as int] == name@);
            assert(dv0.contains(name@));
        }
        return ;
    }
    proof {
        if i < names@.len() {
            lemma_lex_lt_connected(name@, dv0[i as int]);
        }
    }
    names.insert(i, name.to_owned());
    proof {
        let at = i as int;
        let dv1 = names.deep_view();
        assert(names@ == old(names)@.insert(at, names@[at]));
        old(names)@.insert_ensures(at, names@[at]);
        assert(dv1.len() == dv0.len() + 1);
        assert(dv1[at] == name@);
        assert(forall|k: int| 0 <= k < at ==> dv1[k] == dv0[k]);
        assert forall|k: int| at < k < dv1.len() implies dv1[k] == dv0[k - 1] by {
            assert(names@[k] == old(names)@[k - 1]);
        }
        assert forall|p: int, q: int| 0 <= p < q < dv1.len() implies lex_lt(dv1[p], dv1[q]) by {
            if q < at {
            } else if q == at {
                assert(lex_lt(dv0[p], name@));
            } else if p < at {
                if q - 1 == at {
                    if p < at {
                        assert(lex_lt(dv0[p], name@));
                        // dv1[q] == dv0[at] and lex_lt(name@, dv0[at])
                        lemma_lex_lt_transitive(dv0[p], name@, dv0[at]);
                    }
                } else {
                    assert(lex_lt(dv0[p], dv0[q - 1]));
                }
            } else if p == at {
                if q - 1 == at {
                    assert(lex_lt(name@, dv0[at]));
                } else {
                    assert(lex_lt(dv0[at], dv0[q - 1]));
                    lemma_lex_lt_transitive(name@, dv0[at], dv0[q - 1]);
                }
            } else {
                assert(lex_lt(dv0[p - 1], dv0[q - 1]));
            }
        }
        assert forall|n: Seq<char>|
            #[trigger] dv1.contains(n) <==> (dv0.contains(n) || n == name@) by {
            if dv1.contains(n) {
                let w = choose|w: int| 0 <= w < dv1.len() && dv1[w] == n;
                if w < at {
                    assert(dv0[w] == n);
                } else if w > at {
                    assert(dv0[w - 1] == n);
                }
            }
            if dv0.contains(n) {
                let w = choose|w: int| 0 <= w < dv0.len() && dv0[w] == n;
                if w < at {
                    assert(dv1[w] == n);
                } else {
                    assert(dv1[w + 1] == n);
                }
            }
            if n == name@ {
                assert(dv1[at] == n);
            }
        }
    }
}

} // verus!
