//! Linear relations over the group: typed variables, linear combinations of
//! them, the assignment of elements to group variables, and the relation that
//! ties a list of image variables to a list of linear combinations.

use vstd::prelude::*;
use vstd::slice::slice_to_vec;
use vstd::std_specs::convert::FromSpecImpl;

use crate::element::{encodings, g1_product, g1_sum, identity_encoding, Element, ELEMENT_LEN};
use crate::errors::Error;
use crate::field::Scalar;

pub mod ops;

verus! {

/// The index of a scalar variable of a relation.
#[derive(Copy, Clone, Debug, Hash, PartialEq, Eq, Structural)]
pub struct ScalarVar(pub usize);

impl ScalarVar {
    /// The index, as specifications read it.
    pub open spec fn spec_index(&self) -> usize {
        self.0
    }

    /// The position of this variable among the relation's scalars.
    #[verifier::when_used_as_spec(spec_index)]
    pub fn index(&self) -> (i: usize)
        ensures
            i == self.0,
    {
        self.0
    }
}

/// The index of a group element variable of a relation.
#[derive(Copy, Clone, Debug, Hash, PartialEq, Eq, Structural)]
pub struct GroupVar(pub usize);

impl GroupVar {
    /// The index, as specifications read it.
    pub open spec fn spec_index(&self) -> usize {
        self.0
    }

    /// The position of this variable among the relation's elements.
    #[verifier::when_used_as_spec(spec_index)]
    pub fn index(&self) -> (i: usize)
        ensures
            i == self.0,
    {
        self.0
    }
}

/// The formal product `scalar * elem` of two variables. It has no
/// coefficient.
#[derive(Copy, Clone, Debug, PartialEq, Eq, Structural)]
pub struct Term {
    /// The scalar variable.
    pub scalar: ScalarVar,
    /// The group variable.
    pub elem: GroupVar,
}

impl Term {
    /// The scalar variable, as specifications read it.
    pub open spec fn spec_scalar(&self) -> ScalarVar {
        self.scalar
    }

    /// The scalar variable of the product.
    #[verifier::when_used_as_spec(spec_scalar)]
    pub fn scalar(&self) -> (s: ScalarVar)
        ensures
            s == self.scalar,
    {
        self.scalar
    }

    /// The group variable, as specifications read it.
    pub open spec fn spec_elem(&self) -> GroupVar {
        self.elem
    }

    /// The group variable of the product.
    #[verifier::when_used_as_spec(spec_elem)]
    pub fn elem(&self) -> (p: GroupVar)
        ensures
            p == self.elem,
    {
        self.elem
    }
}

impl From<(ScalarVar, GroupVar)> for Term {
    fn from(pair: (ScalarVar, GroupVar)) -> (t: Term) {
        Term { scalar: pair.0, elem: pair.1 }
    }
}

impl FromSpecImpl<(ScalarVar, GroupVar)> for Term {
    open spec fn obeys_from_spec() -> bool {
        true
    }

    open spec fn from_spec(pair: (ScalarVar, GroupVar)) -> Term {
        Term { scalar: pair.0, elem: pair.1 }
    }
}

/// An ordered sum of terms. The order is kept as given: it shows in the
/// statement's label.
#[derive(Debug)]
pub struct LinearCombination(pub Vec<Term>);

impl Clone for LinearCombination {
    fn clone(&self) -> (lc: LinearCombination)
        ensures
            lc@ == self@,
    {
        LinearCombination(slice_to_vec(self.0.as_slice()))
    }
}

impl View for LinearCombination {
    type V = Seq<Term>;

    /// The terms, in order.
    open spec fn view(&self) -> Seq<Term> {
        self.0@
    }
}

impl LinearCombination {
    /// The terms, in order.
    pub fn terms(&self) -> (ts: &[Term])
        ensures
            ts@ == self@,
    {
        self.0.as_slice()
    }
}

impl From<Term> for LinearCombination {
    fn from(term: Term) -> (lc: LinearCombination)
        ensures
            lc@ == seq![term],
    {
        let mut terms: Vec<Term> = Vec::new();
        terms.push(term);
        let lc = LinearCombination(terms);
        assert(lc@ =~= seq![term]);
        lc
    }
}

impl FromSpecImpl<Term> for LinearCombination {
    open spec fn obeys_from_spec() -> bool {
        false
    }

    open spec fn from_spec(term: Term) -> LinearCombination {
        arbitrary()
    }
}

impl From<Vec<Term>> for LinearCombination {
    fn from(terms: Vec<Term>) -> (lc: LinearCombination)
        ensures
            lc@ == terms@,
    {
        LinearCombination(terms)
    }
}

impl FromSpecImpl<Vec<Term>> for LinearCombination {
    open spec fn obeys_from_spec() -> bool {
        true
    }

    open spec fn from_spec(terms: Vec<Term>) -> LinearCombination {
        LinearCombination(terms)
    }
}

impl From<(ScalarVar, GroupVar)> for LinearCombination {
    fn from(pair: (ScalarVar, GroupVar)) -> (lc: LinearCombination)
        ensures
            lc@ == seq![Term { scalar: pair.0, elem: pair.1 }],
    {
        let mut terms: Vec<Term> = Vec::new();
        terms.push(Term { scalar: pair.0, elem: pair.1 });
        let lc = LinearCombination(terms);
        assert(lc@ =~= seq![Term { scalar: pair.0, elem: pair.1 }]);
        lc
    }
}

impl FromSpecImpl<(ScalarVar, GroupVar)> for LinearCombination {
    open spec fn obeys_from_spec() -> bool {
        false
    }

    open spec fn from_spec(pair: (ScalarVar, GroupVar)) -> LinearCombination {
        arbitrary()
    }
}

impl<const N: usize> From<[Term; N]> for LinearCombination {
    fn from(terms: [Term; N]) -> (lc: LinearCombination)
        ensures
            lc@ == terms@,
    {
        let mut out: Vec<Term> = Vec::new();
        let mut k: usize = 0;
        while k < N
            invariant
                k <= N,
                out@ == terms@.take(k as int),
            decreases N - k,
        {
            out.push(terms[k]);
            assert(out@ =~= terms@.take(k as int + 1));
            k += 1;
        }
        assert(terms@.take(N as int) =~= terms@);
        LinearCombination(out)
    }
}

impl<const N: usize> FromSpecImpl<[Term; N]> for LinearCombination {
    open spec fn obeys_from_spec() -> bool {
        false
    }

    open spec fn from_spec(terms: [Term; N]) -> LinearCombination {
        arbitrary()
    }
}

/// An ordered sum of items of one kind, as the operators of the term algebra
/// build it.
#[derive(Debug)]
pub struct Sum<T>(pub Vec<T>);

impl<T: Copy> Clone for Sum<T> {
    fn clone(&self) -> (sum: Sum<T>)
        ensures
            sum@ == self@,
    {
        Sum(slice_to_vec(self.0.as_slice()))
    }
}

impl<T> View for Sum<T> {
    type V = Seq<T>;

    /// The items, in order.
    open spec fn view(&self) -> Seq<T> {
        self.0@
    }
}

/// An item with a coefficient from the field.
#[derive(Copy, Clone, Debug)]
pub struct Weighted<T> {
    /// The item.
    pub term: T,
    /// Its coefficient.
    pub weight: Scalar,
}

/// The partial assignment of elements to group variables: slot `i` holds what
/// was assigned to the variable of index `i`.
#[derive(Debug)]
pub struct GroupMap(Vec<Option<Element>>);

impl Clone for GroupMap {
    fn clone(&self) -> (m: GroupMap)
        ensures
            m@ == self@,
    {
        GroupMap(slice_to_vec(self.0.as_slice()))
    }
}

impl View for GroupMap {
    type V = Seq<Option<Element>>;

    /// The slots, by index: slot `i` is what is assigned to variable `i`.
    closed spec fn view(&self) -> Seq<Option<Element>> {
        self.0@
    }
}

/// The slots after `element` has been assigned to slot `i`: the sequence grows
/// with empty slots as far as needed.
pub open spec fn assigned(slots: Seq<Option<Element>>, i: int, element: Element) -> Seq<
    Option<Element>,
> {
    if i < slots.len() {
        slots.update(i, Some(element))
    } else {
        slots + Seq::new((i - slots.len()) as nat, |k: int| None::<Element>) + seq![Some(element)]
    }
}

/// What a slot sequence assigns to index `i`.
pub open spec fn slot(slots: Seq<Option<Element>>, i: int) -> Option<Element> {
    if 0 <= i < slots.len() {
        slots[i]
    } else {
        None
    }
}

/// Whether `element` may be assigned to slot `i`: the slot is empty or holds
/// that very element.
pub open spec fn assignable(slots: Seq<Option<Element>>, i: int, element: Element) -> bool {
    slot(slots, i) is None || slot(slots, i) == Some(element)
}

/// Whether every assigned element is a group element.
pub open spec fn slots_valid(slots: Seq<Option<Element>>) -> bool {
    forall|i: int|
        0 <= i < slots.len() && (#[trigger] slots[i]) is Some ==> slots[i]->Some_0.wf()
}

/// Whether every scalar is a field element.
pub open spec fn scalars_valid(scalars: Seq<Scalar>) -> bool {
    forall|i: int| 0 <= i < scalars.len() ==> (#[trigger] scalars[i]).wf()
}

/// Whether every element is a group element.
pub open spec fn elements_valid(elements: Seq<Element>) -> bool {
    forall|i: int| 0 <= i < elements.len() ==> (#[trigger] elements[i]).wf()
}

/// The slots after a list of assignments, made in order.
pub open spec fn assigned_all(
    slots: Seq<Option<Element>>,
    assignments: Seq<(GroupVar, Element)>,
) -> Seq<Option<Element>>
    decreases assignments.len(),
{
    if assignments.len() == 0 {
        slots
    } else {
        let last = assignments.last();
        assigned(assigned_all(slots, assignments.drop_last()), last.0.index() as int, last.1)
    }
}

/// Whether a list of assignments can be made in order without overwriting a
/// slot with another element.
pub open spec fn assignable_all(
    slots: Seq<Option<Element>>,
    assignments: Seq<(GroupVar, Element)>,
) -> bool
    decreases assignments.len(),
{
    if assignments.len() == 0 {
        true
    } else {
        let last = assignments.last();
        &&& assignable_all(slots, assignments.drop_last())
        &&& last.0.index() < usize::MAX
        &&& assignable(
            assigned_all(slots, assignments.drop_last()),
            last.0.index() as int,
            last.1,
        )
    }
}

/// The assigned variables with their elements, by increasing index.
pub open spec fn assigned_pairs(slots: Seq<Option<Element>>) -> Seq<(GroupVar, Element)>
    decreases slots.len(),
{
    if slots.len() == 0 {
        Seq::empty()
    } else {
        let before = assigned_pairs(slots.drop_last());
        match slots.last() {
            Some(element) => before.push((GroupVar((slots.len() - 1) as usize), element)),
            None => before,
        }
    }
}

impl GroupMap {
    /// What is assigned to `var`, if anything.
    pub open spec fn lookup(&self, var: GroupVar) -> Option<Element> {
        slot(self@, var.index() as int)
    }

    /// The empty assignment.
    pub fn new() -> (m: GroupMap)
        ensures
            m@ == Seq::<Option<Element>>::empty(),
    {
        GroupMap(Vec::new())
    }

    /// Whether `element` may be assigned to `var`: the variable is free or
    /// holds that very element, and its index leaves room for one more slot.
    pub fn can_assign(&self, var: GroupVar, element: Element) -> (ok: bool)
        ensures
            ok == (var.index() < usize::MAX && assignable(self@, var.index() as int, element)),
    {
        if var.0 == usize::MAX {
            return false;
        }
        if var.0 < self.0.len() {
            match self.0[var.0] {
                Some(present) => present == element,
                None => true,
            }
        } else {
            true
        }
    }

    /// Assigns `element` to `var`. Assigning the element that is already there
    /// changes nothing; the caller must not assign another one.
    pub fn assign_element(&mut self, var: GroupVar, element: Element)
        requires
            var.index() < usize::MAX,
            assignable(old(self)@, var.index() as int, element),
        ensures
            final(self)@ == assigned(old(self)@, var.index() as int, element),
            final(self).lookup(var) == Some(element),
            forall|other: GroupVar|
                other != var ==> final(self).lookup(other) == old(self).lookup(other),
    {
        let ghost before = self.0@;
        if self.0.len() <= var.0 {
            while self.0.len() < var.0
                invariant
                    before.len() <= self.0@.len() <= var.0,
                    self.0@ == before + Seq::new(
                        (self.0@.len() - before.len()) as nat,
                        |k: int| None::<Element>,
                    ),
                decreases var.0 - self.0@.len(),
            {
                self.0.push(None);
                assert(self.0@ =~= before + Seq::new(
                    (self.0@.len() - before.len()) as nat,
                    |k: int| None::<Element>,
                ));
            }
            self.0.push(Some(element));
        } else {
            self.0[var.0] = Some(element);
        }
        assert(self.0@ =~= assigned(before, var.0 as int, element));
    }

    /// Makes the assignments in order.
    pub fn assign_elements(&mut self, assignments: &[(GroupVar, Element)])
        requires
            assignable_all(old(self)@, assignments@),
        ensures
            final(self)@ == assigned_all(old(self)@, assignments@),
    {
        let ghost before = self@;
        let mut i: usize = 0;
        while i < assignments.len()
            invariant
                i <= assignments.len(),
                assignable_all(before, assignments@),
                self@ == assigned_all(before, assignments@.take(i as int)),
            decreases assignments.len() - i,
        {
            let (var, element) = assignments[i];
            proof {
                lemma_assignable_prefix(before, assignments@, i as int + 1);
                assert(assignments@.take(i as int + 1).drop_last() =~= assignments@.take(i as int));
            }
            self.assign_element(var, element);
            i += 1;
        }
        assert(assignments@.take(i as int) =~= assignments@);
    }

    /// The element assigned to `var`.
    pub fn get(&self, var: GroupVar) -> (r: Result<Element, Error>)
        ensures
            match self.lookup(var) {
                Some(element) => r == Ok::<Element, Error>(element),
                None => r == Err::<Element, Error>(Error::UnassignedGroupVar { var }),
            },
    {
        if var.0 < self.0.len() {
            match self.0[var.0] {
                Some(element) => Ok(element),
                None => Err(Error::UnassignedGroupVar { var }),
            }
        } else {
            Err(Error::UnassignedGroupVar { var })
        }
    }

    /// The assigned variables with their elements, by increasing index.
    pub fn iter(&self) -> (pairs: Vec<(GroupVar, Element)>)
        ensures
            pairs@ == assigned_pairs(self@),
    {
        let mut pairs: Vec<(GroupVar, Element)> = Vec::new();
        let mut i: usize = 0;
        while i < self.0.len()
            invariant
                i <= self.0@.len(),
                pairs@ == assigned_pairs(self.0@.take(i as int)),
            decreases self.0@.len() - i,
        {
            proof {
                assert(self.0@.take(i as int + 1).drop_last() =~= self.0@.take(i as int));
            }
            match self.0[i] {
                Some(element) => {
                    pairs.push((GroupVar(i), element));
                },
                None => {},
            }
            i += 1;
        }
        assert(self.0@.take(i as int) =~= self.0@);
        pairs
    }

    /// The assigned variables with their elements, by increasing index; the
    /// map is used up.
    pub fn into_iter(self) -> (pairs: Vec<(GroupVar, Element)>)
        ensures
            pairs@ == assigned_pairs(self@),
    {
        self.iter()
    }

    /// The map that a list of assignments, made in order, builds from nothing.
    pub fn from_iter(assignments: &[(GroupVar, Element)]) -> (m: GroupMap)
        requires
            assignable_all(Seq::empty(), assignments@),
        ensures
            m@ == assigned_all(Seq::empty(), assignments@),
    {
        let mut m = GroupMap::new();
        m.assign_elements(assignments);
        m
    }
}

impl Default for GroupMap {
    fn default() -> (m: GroupMap)
        ensures
            m@ == Seq::<Option<Element>>::empty(),
    {
        GroupMap::new()
    }
}

/// A prefix of an admissible list of assignments is admissible.
pub proof fn lemma_assignable_prefix(
    slots: Seq<Option<Element>>,
    assignments: Seq<(GroupVar, Element)>,
    n: int,
)
    requires
        assignable_all(slots, assignments),
        0 <= n <= assignments.len(),
    ensures
        assignable_all(slots, assignments.take(n)),
    decreases assignments.len(),
{
    if n == assignments.len() {
        assert(assignments.take(n) =~= assignments);
    } else {
        lemma_assignable_prefix(slots, assignments.drop_last(), n);
        assert(assignments.drop_last().take(n) =~= assignments.take(n));
    }
}

/// The multi-scalar product of the first `n` scalars and bases: starting from
/// the neutral element, each base times its scalar is added in turn.
pub open spec fn msm_prefix(scalars: Seq<Scalar>, bases: Seq<Element>, n: nat) -> Seq<u8>
    decreases n,
{
    if n == 0 {
        identity_encoding()
    } else {
        g1_sum(
            msm_prefix(scalars, bases, (n - 1) as nat),
            g1_product(bases[n - 1]@, scalars[n - 1]@),
        )
    }
}

/// The multi-scalar product of two sequences, over the positions both have.
pub open spec fn msm(scalars: Seq<Scalar>, bases: Seq<Element>) -> Seq<u8> {
    msm_prefix(
        scalars,
        bases,
        if scalars.len() <= bases.len() {
            scalars.len()
        } else {
            bases.len()
        },
    )
}

/// The scalars that the terms name, in the terms' order.
pub open spec fn coefficients(terms: Seq<Term>, scalars: Seq<Scalar>) -> Seq<Scalar> {
    Seq::new(terms.len(), |k: int| scalars[terms[k].scalar.index() as int])
}

/// The group variables that the terms name, in the terms' order.
pub open spec fn elems_of(terms: Seq<Term>) -> Seq<GroupVar> {
    Seq::new(terms.len(), |k: int| terms[k].elem)
}

/// The elements assigned to a list of group variables.
pub open spec fn elements_of(vars: Seq<GroupVar>, slots: Seq<Option<Element>>) -> Seq<Element> {
    Seq::new(vars.len(), |k: int| slot(slots, vars[k].index() as int).unwrap())
}

/// The first variable at or after position `k` of the list that is not
/// assigned.
pub open spec fn missing_from(vars: Seq<GroupVar>, slots: Seq<Option<Element>>, k: int) -> Option<
    GroupVar,
>
    decreases vars.len() - k,
{
    if k < 0 || k >= vars.len() {
        None
    } else if slot(slots, vars[k].index() as int) is None {
        Some(vars[k])
    } else {
        missing_from(vars, slots, k + 1)
    }
}

/// The first variable of the list that is not assigned.
pub open spec fn first_missing(vars: Seq<GroupVar>, slots: Seq<Option<Element>>) -> Option<
    GroupVar,
> {
    missing_from(vars, slots, 0)
}

/// The value of a linear combination: the sum over its terms of the named
/// scalar times the named element.
pub open spec fn combination_value(
    terms: Seq<Term>,
    scalars: Seq<Scalar>,
    slots: Seq<Option<Element>>,
) -> Seq<u8> {
    msm(coefficients(terms, scalars), elements_of(elems_of(terms), slots))
}

/// The first unassigned group variable among the combinations at or after
/// position `j`, reading each combination's terms in order.
pub open spec fn unassigned_in(
    constraints: Seq<LinearCombination>,
    slots: Seq<Option<Element>>,
    j: int,
) -> Option<GroupVar>
    decreases constraints.len() - j,
{
    if j < 0 || j >= constraints.len() {
        None
    } else {
        match first_missing(elems_of(constraints[j]@), slots) {
            Some(var) => Some(var),
            None => unassigned_in(constraints, slots, j + 1),
        }
    }
}

/// Whether every term names a scalar below `n`.
pub open spec fn scalars_below(terms: Seq<Term>, n: int) -> bool {
    forall|k: int| 0 <= k < terms.len() ==> (#[trigger] terms[k]).scalar.index() < n
}

/// Whether every term names a group variable below `n`.
pub open spec fn elems_below(terms: Seq<Term>, n: int) -> bool {
    forall|k: int| 0 <= k < terms.len() ==> (#[trigger] terms[k]).elem.index() < n
}

/// Multi-scalar multiplication: the sum of each base multiplied by its
/// scalar, over the positions that both slices have.
pub fn msm_pr(scalars: &[Scalar], bases: &[Element]) -> (acc: Element)
    ensures
        acc@ == msm(scalars@, bases@),
{
    let n = if scalars.len() <= bases.len() {
        scalars.len()
    } else {
        bases.len()
    };
    let mut acc = Element::identity();
    let mut i: usize = 0;
    while i < n
        invariant
            i <= n,
            n <= scalars@.len(),
            n <= bases@.len(),
            acc@ == msm_prefix(scalars@, bases@, i as nat),
        decreases n - i,
    {
        acc = acc.plus(&bases[i].scale(&scalars[i]));
        i += 1;
    }
    acc
}

/// The value of one linear combination under the given scalars and
/// assignment, or the first of its group variables that is not assigned.
pub fn evaluate_combination(
    lc: &LinearCombination,
    scalars: &[Scalar],
    group_elements: &GroupMap,
) -> (r: Result<Element, Error>)
    requires
        scalars_below(lc@, scalars@.len() as int),
    ensures
        match first_missing(elems_of(lc@), group_elements@) {
            Some(var) => r == Err::<Element, Error>(Error::UnassignedGroupVar { var }),
            None => r is Ok && r->Ok_0@ == combination_value(lc@, scalars@, group_elements@),
        },
{
    let terms = lc.terms();
    let mut coeffs: Vec<Scalar> = Vec::new();
    let mut k: usize = 0;
    while k < terms.len()
        invariant
            k <= terms@.len(),
            terms@ == lc@,
            scalars_below(lc@, scalars@.len() as int),
            coeffs@ == coefficients(terms@, scalars@).take(k as int),
        decreases terms@.len() - k,
    {
        let term = terms[k];
        coeffs.push(scalars[term.scalar.index()]);
        assert(coeffs@ =~= coefficients(terms@, scalars@).take(k as int + 1));
        k += 1;
    }
    assert(coeffs@ =~= coefficients(terms@, scalars@));
    let mut elements: Vec<Element> = Vec::new();
    let mut k: usize = 0;
    while k < terms.len()
        invariant
            k <= terms@.len(),
            terms@ == lc@,
            elements@ == elements_of(elems_of(terms@), group_elements@).take(k as int),
            first_missing(elems_of(terms@), group_elements@) == missing_from(
                elems_of(terms@),
                group_elements@,
                k as int,
            ),
        decreases terms@.len() - k,
    {
        let term = terms[k];
        match group_elements.get(term.elem) {
            Ok(element) => {
                elements.push(element);
            },
            Err(e) => {
                return Err(e);
            },
        }
        assert(elements@ =~= elements_of(elems_of(terms@), group_elements@).take(k as int + 1));
        k += 1;
    }
    assert(elements@ =~= elements_of(elems_of(terms@), group_elements@));
    Ok(msm_pr(coeffs.as_slice(), elements.as_slice()))
}

/// Whether two lists hold combinations of the same terms in the same order.
pub open spec fn same_combinations(a: Seq<LinearCombination>, b: Seq<LinearCombination>) -> bool {
    &&& a.len() == b.len()
    &&& forall|j: int| 0 <= j < a.len() ==> (#[trigger] a[j])@ == b[j]@
}

/// A list of linear combinations over one pool of scalar variables and one
/// pool of group variables.
#[derive(Debug)]
pub struct LinearMap {
    /// The linear combinations, one per equation.
    pub constraints: Vec<LinearCombination>,
    /// The elements assigned to the group variables so far.
    pub group_elements: GroupMap,
    /// How many scalar variables have been allocated.
    pub num_scalars: usize,
    /// How many group variables have been allocated.
    pub num_elements: usize,
}

impl LinearMap {
    /// Whether the two maps hold the same combinations, the same assignment
    /// and the same numbers of variables.
    pub open spec fn same_as(&self, other: &LinearMap) -> bool {
        &&& same_combinations(self.constraints@, other.constraints@)
        &&& self.group_elements@ == other.group_elements@
        &&& self.num_scalars == other.num_scalars
        &&& self.num_elements == other.num_elements
    }

    /// Whether every term of every combination names a scalar below `n`.
    pub open spec fn scalars_in_range(&self, n: int) -> bool {
        forall|j: int|
            0 <= j < self.constraints@.len() ==> scalars_below(
                (#[trigger] self.constraints@[j])@,
                n,
            )
    }

    /// Whether every term of every combination names a group variable below
    /// `n`.
    pub open spec fn elems_in_range(&self, n: int) -> bool {
        forall|j: int|
            0 <= j < self.constraints@.len() ==> elems_below(
                (#[trigger] self.constraints@[j])@,
                n,
            )
    }

    /// The combinations name allocated variables only.
    pub open spec fn wf(&self) -> bool {
        &&& self.scalars_in_range(self.num_scalars as int)
        &&& self.elems_in_range(self.num_elements as int)
    }

    /// The first group variable, in the order of the combinations and of their
    /// terms, that is not assigned.
    pub open spec fn first_unassigned(&self) -> Option<GroupVar> {
        unassigned_in(self.constraints@, self.group_elements@, 0)
    }

    /// The value of each combination under the given scalars.
    pub open spec fn values(&self, scalars: Seq<Scalar>) -> Seq<Seq<u8>> {
        Seq::new(
            self.constraints@.len(),
            |j: int| combination_value(self.constraints@[j]@, scalars, self.group_elements@),
        )
    }

    /// Whether every term of every combination names a scalar below `n`.
    pub fn scalars_fit(&self, n: usize) -> (ok: bool)
        ensures
            ok == self.scalars_in_range(n as int),
    {
        let mut j: usize = 0;
        while j < self.constraints.len()
            invariant
                j <= self.constraints@.len(),
                forall|i: int|
                    0 <= i < j ==> scalars_below((#[trigger] self.constraints@[i])@, n as int),
            decreases self.constraints@.len() - j,
        {
            let terms = self.constraints[j].terms();
            let mut k: usize = 0;
            while k < terms.len()
                invariant
                    k <= terms@.len(),
                    j < self.constraints@.len(),
                    terms@ == self.constraints@[j as int]@,
                    forall|i: int| 0 <= i < k ==> (#[trigger] terms@[i]).scalar.index() < n,
                decreases terms@.len() - k,
            {
                if terms[k].scalar().index() >= n {
                    assert(!scalars_below(self.constraints@[j as int]@, n as int));
                    return false;
                }
                k += 1;
            }
            j += 1;
        }
        true
    }

    /// Whether every term of every combination names a group variable below
    /// `n`.
    pub fn elems_fit(&self, n: usize) -> (ok: bool)
        ensures
            ok == self.elems_in_range(n as int),
    {
        let mut j: usize = 0;
        while j < self.constraints.len()
            invariant
                j <= self.constraints@.len(),
                forall|i: int|
                    0 <= i < j ==> elems_below((#[trigger] self.constraints@[i])@, n as int),
            decreases self.constraints@.len() - j,
        {
            let terms = self.constraints[j].terms();
            let mut k: usize = 0;
            while k < terms.len()
                invariant
                    k <= terms@.len(),
                    j < self.constraints@.len(),
                    terms@ == self.constraints@[j as int]@,
                    forall|i: int| 0 <= i < k ==> (#[trigger] terms@[i]).elem.index() < n,
                decreases terms@.len() - k,
            {
                if terms[k].elem().index() >= n {
                    assert(!elems_below(self.constraints@[j as int]@, n as int));
                    return false;
                }
                k += 1;
            }
            j += 1;
        }
        true
    }

    /// The map without combinations or variables.
    pub fn new() -> (m: LinearMap)
        ensures
            m.constraints@.len() == 0,
            m.group_elements@ == Seq::<Option<Element>>::empty(),
            m.num_scalars == 0,
            m.num_elements == 0,
            m.wf(),
    {
        LinearMap {
            constraints: Vec::new(),
            group_elements: GroupMap::new(),
            num_scalars: 0,
            num_elements: 0,
        }
    }

    /// The number of combinations.
    pub fn num_constraints(&self) -> (n: usize)
        ensures
            n == self.constraints@.len(),
    {
        self.constraints.len()
    }

    /// Adds a combination at the end.
    pub fn append(&mut self, lc: LinearCombination)
        ensures
            final(self).constraints@ == old(self).constraints@.push(lc),
            final(self).group_elements == old(self).group_elements,
            final(self).num_scalars == old(self).num_scalars,
            final(self).num_elements == old(self).num_elements,
    {
        self.constraints.push(lc);
    }

    /// Evaluates every combination with the given scalars.
    pub fn evaluate(&self, scalars: &[Scalar]) -> (r: Result<Vec<Element>, Error>)
        requires
            self.scalars_in_range(scalars@.len() as int),
        ensures
            match self.first_unassigned() {
                Some(var) => r matches Err(e) && e == (Error::UnassignedGroupVar { var }),
                None => r matches Ok(out) && encodings(out@) == self.values(scalars@),
            },
    {
        let mut out: Vec<Element> = Vec::new();
        let mut j: usize = 0;
        while j < self.constraints.len()
            invariant
                j <= self.constraints@.len(),
                self.scalars_in_range(scalars@.len() as int),
                out@.len() == j,
                encodings(out@) == self.values(scalars@).take(j as int),
                self.first_unassigned() == unassigned_in(
                    self.constraints@,
                    self.group_elements@,
                    j as int,
                ),
            decreases self.constraints@.len() - j,
        {
            match evaluate_combination(&self.constraints[j], scalars, &self.group_elements) {
                Ok(value) => {
                    out.push(value);
                },
                Err(e) => {
                    return Err(e);
                },
            }
            assert(encodings(out@) =~= self.values(scalars@).take(j as int + 1));
            j += 1;
        }
        assert(encodings(out@) =~= self.values(scalars@));
        Ok(out)
    }
}

impl Clone for LinearMap {
    fn clone(&self) -> (m: LinearMap)
        ensures
            m.same_as(self),
    {
        let mut constraints: Vec<LinearCombination> = Vec::new();
        let mut j: usize = 0;
        while j < self.constraints.len()
            invariant
                j <= self.constraints@.len(),
                same_combinations(constraints@, self.constraints@.take(j as int)),
            decreases self.constraints@.len() - j,
        {
            constraints.push(self.constraints[j].clone());
            j += 1;
        }
        assert(self.constraints@.take(j as int) =~= self.constraints@);
        LinearMap {
            constraints,
            group_elements: self.group_elements.clone(),
            num_scalars: self.num_scalars,
            num_elements: self.num_elements,
        }
    }
}

impl Default for LinearMap {
    fn default() -> (m: LinearMap)
        ensures
            m.constraints@.len() == 0,
            m.group_elements@ == Seq::<Option<Element>>::empty(),
            m.num_scalars == 0,
            m.num_elements == 0,
    {
        LinearMap::new()
    }
}

/// The four bytes of `x` modulo 2^32, least significant first.
pub open spec fn le32(x: int) -> Seq<u8> {
    seq![
        (x % 256) as u8,
        (x / 0x100 % 256) as u8,
        (x / 0x1_0000 % 256) as u8,
        (x / 0x100_0000 % 256) as u8,
    ]
}

/// The label of one term: its scalar index, then its element index.
pub open spec fn term_label(term: Term) -> Seq<u8> {
    le32(term.scalar.index() as int) + le32(term.elem.index() as int)
}

/// The labels of the first `n` terms, in order.
pub open spec fn terms_label(terms: Seq<Term>, n: nat) -> Seq<u8>
    decreases n,
{
    if n == 0 {
        Seq::empty()
    } else {
        terms_label(terms, (n - 1) as nat) + term_label(terms[n - 1])
    }
}

/// The label of one equation: the index of its image variable, the number of
/// its terms, then the terms.
pub open spec fn equation_label(lhs: GroupVar, terms: Seq<Term>) -> Seq<u8> {
    le32(lhs.index() as int) + le32(terms.len() as int) + terms_label(terms, terms.len())
}

/// The labels of the first `n` equations, in order.
pub open spec fn equations_label(
    image: Seq<GroupVar>,
    constraints: Seq<LinearCombination>,
    n: nat,
) -> Seq<u8>
    decreases n,
{
    if n == 0 {
        Seq::empty()
    } else {
        equations_label(image, constraints, (n - 1) as nat) + equation_label(
            image[n - 1],
            constraints[n - 1]@,
        )
    }
}

/// The label of a statement: the number of equations, then each equation.
/// Every number is written as four bytes, least significant first.
pub open spec fn statement_label(image: Seq<GroupVar>, constraints: Seq<LinearCombination>) -> Seq<
    u8,
> {
    le32(image.len() as int) + equations_label(image, constraints, image.len())
}

/// The assignment and the outcome of computing the images of the equations
/// at or after position `j`, in order: each image is the value of its
/// combination under the assignment made so far, and is assigned to its
/// image variable before the next is computed. The walk ends at the first
/// combination that names an unassigned variable, which is then the outcome.
pub open spec fn images_from(
    constraints: Seq<LinearCombination>,
    image: Seq<GroupVar>,
    scalars: Seq<Scalar>,
    slots: Seq<Option<Element>>,
    j: int,
) -> (Seq<Option<Element>>, Option<GroupVar>)
    decreases constraints.len() - j,
{
    if j < 0 || j >= constraints.len() {
        (slots, None)
    } else {
        match first_missing(elems_of(constraints[j]@), slots) {
            Some(var) => (slots, Some(var)),
            None => images_from(
                constraints,
                image,
                scalars,
                assigned(
                    slots,
                    image[j].index() as int,
                    Element::with_encoding(combination_value(constraints[j]@, scalars, slots)),
                ),
                j + 1,
            ),
        }
    }
}

/// Whether the walk of `images_from` never assigns to a variable that holds
/// another element.
pub open spec fn images_assignable_from(
    constraints: Seq<LinearCombination>,
    image: Seq<GroupVar>,
    scalars: Seq<Scalar>,
    slots: Seq<Option<Element>>,
    j: int,
) -> bool
    decreases constraints.len() - j,
{
    if j < 0 || j >= constraints.len() {
        true
    } else {
        match first_missing(elems_of(constraints[j]@), slots) {
            Some(var) => true,
            None => {
                let value = Element::with_encoding(
                    combination_value(constraints[j]@, scalars, slots),
                );
                &&& image[j].index() < usize::MAX
                &&& assignable(slots, image[j].index() as int, value)
                &&& images_assignable_from(
                    constraints,
                    image,
                    scalars,
                    assigned(slots, image[j].index() as int, value),
                    j + 1,
                )
            },
        }
    }
}

/// Appends the four bytes of `x` modulo 2^32, least significant first.
fn push_le32(out: &mut Vec<u8>, x: usize)
    ensures
        final(out)@ == old(out)@ + le32(x as int),
{
    let y: u64 = x as u64;
    let b0: u8 = (y & 0xff) as u8;
    let b1: u8 = ((y >> 8) & 0xff) as u8;
    let b2: u8 = ((y >> 16) & 0xff) as u8;
    let b3: u8 = ((y >> 24) & 0xff) as u8;
    assert(y & 0xff == y % 256) by (bit_vector);
    assert((y >> 8) & 0xff == y / 0x100 % 256) by (bit_vector);
    assert((y >> 16) & 0xff == y / 0x1_0000 % 256) by (bit_vector);
    assert((y >> 24) & 0xff == y / 0x100_0000 % 256) by (bit_vector);
    out.push(b0);
    out.push(b1);
    out.push(b2);
    out.push(b3);
    assert(out@ =~= old(out)@ + le32(x as int));
}

/// A linear map together with the group variables that its combinations are
/// claimed to equal: equation `j` states that the element of `image[j]` is
/// the value of `linear_map.constraints[j]`.
#[derive(Debug)]
pub struct LinearRelation {
    /// The right-hand sides and the variables.
    pub linear_map: LinearMap,
    /// The left-hand sides, one per combination.
    pub image: Vec<GroupVar>,
}

impl LinearRelation {
    /// Whether the two relations state the same: the same equations over
    /// the same variables, with the same elements assigned.
    pub open spec fn same_as(&self, other: &LinearRelation) -> bool {
        &&& self.linear_map.same_as(&other.linear_map)
        &&& self.image@ == other.image@
    }

    /// Every equation has both sides.
    pub open spec fn balanced(&self) -> bool {
        self.image@.len() == self.linear_map.constraints@.len()
    }

    /// Whether every image variable is below `n`.
    pub open spec fn image_in_range(&self, n: int) -> bool {
        forall|j: int| 0 <= j < self.image@.len() ==> (#[trigger] self.image@[j]).index() < n
    }

    /// The relation's invariant: one image variable per combination, and
    /// allocated variables only.
    pub open spec fn wf(&self) -> bool {
        &&& self.balanced()
        &&& self.linear_map.wf()
        &&& self.image_in_range(self.linear_map.num_elements as int)
    }

    /// The statement's label.
    pub open spec fn spec_label(&self) -> Seq<u8> {
        statement_label(self.image@, self.linear_map.constraints@)
    }

    /// The first image variable that is not assigned.
    pub open spec fn image_missing(&self) -> Option<GroupVar> {
        first_missing(self.image@, self.linear_map.group_elements@)
    }

    /// The elements assigned to the image variables.
    pub open spec fn image_elements(&self) -> Seq<Element> {
        elements_of(self.image@, self.linear_map.group_elements@)
    }

    /// Whether `witness` satisfies the relation: each image element is the
    /// value of its combination.
    pub open spec fn satisfied_by(&self, witness: Seq<Scalar>) -> bool {
        encodings(self.image_elements()) == self.linear_map.values(witness)
    }

    /// Whether `compute_image` can assign every image that it computes.
    pub open spec fn image_computable(&self, scalars: Seq<Scalar>) -> bool {
        images_assignable_from(
            self.linear_map.constraints@,
            self.image@,
            scalars,
            self.linear_map.group_elements@,
            0,
        )
    }

    /// The assignment that `compute_image` leaves, and the variable that
    /// stopped it, if any.
    pub open spec fn computed_image(&self, scalars: Seq<Scalar>) -> (
        Seq<Option<Element>>,
        Option<GroupVar>,
    ) {
        images_from(
            self.linear_map.constraints@,
            self.image@,
            scalars,
            self.linear_map.group_elements@,
            0,
        )
    }

    /// Whether the relation's invariant holds.
    pub fn is_well_formed(&self) -> (ok: bool)
        ensures
            ok == self.wf(),
    {
        if self.image.len() != self.linear_map.constraints.len() {
            return false;
        }
        if !self.linear_map.scalars_fit(self.linear_map.num_scalars) {
            return false;
        }
        if !self.linear_map.elems_fit(self.linear_map.num_elements) {
            return false;
        }
        let mut j: usize = 0;
        while j < self.image.len()
            invariant
                j <= self.image@.len(),
                forall|i: int|
                    0 <= i < j ==> (#[trigger] self.image@[i]).index()
                        < self.linear_map.num_elements,
            decreases self.image@.len() - j,
        {
            if self.image[j].index() >= self.linear_map.num_elements {
                return false;
            }
            j += 1;
        }
        true
    }

    /// The relation without equations or variables.
    pub fn new() -> (r: LinearRelation)
        ensures
            r.image@.len() == 0,
            r.linear_map.constraints@.len() == 0,
            r.linear_map.group_elements@ == Seq::<Option<Element>>::empty(),
            r.linear_map.num_scalars == 0,
            r.linear_map.num_elements == 0,
            r.wf(),
    {
        LinearRelation { linear_map: LinearMap::new(), image: Vec::new() }
    }

    /// The number of bytes of a serialized commitment: one element per
    /// equation.
    pub fn commit_bytes_len(&self) -> (n: usize)
        requires
            self.linear_map.constraints@.len() * ELEMENT_LEN <= usize::MAX,
        ensures
            n == self.linear_map.constraints@.len() * ELEMENT_LEN,
    {
        self.linear_map.num_constraints() * ELEMENT_LEN
    }

    /// Adds the equation `lhs = rhs`.
    pub fn append_equation(&mut self, lhs: GroupVar, rhs: LinearCombination)
        ensures
            final(self).linear_map.constraints@ == old(self).linear_map.constraints@.push(rhs),
            final(self).image@ == old(self).image@.push(lhs),
            final(self).linear_map.group_elements == old(self).linear_map.group_elements,
            final(self).linear_map.num_scalars == old(self).linear_map.num_scalars,
            final(self).linear_map.num_elements == old(self).linear_map.num_elements,
            final(self).balanced() == old(self).balanced(),
            final(self).wf() == (old(self).wf() && lhs.index() < old(self).linear_map.num_elements
                && scalars_below(rhs@, old(self).linear_map.num_scalars as int) && elems_below(
                rhs@,
                old(self).linear_map.num_elements as int,
            )),
    {
        let ghost before = *self;
        self.linear_map.append(rhs);
        self.image.push(lhs);
        proof {
            let n = before.linear_map.constraints@.len() as int;
            if self.wf() {
                assert(self.image@[self.image@.len() - 1] == lhs);
                assert(self.linear_map.constraints@[n] == rhs);
                assert forall|j: int| 0 <= j < n implies scalars_below(
                    (#[trigger] before.linear_map.constraints@[j])@,
                    before.linear_map.num_scalars as int,
                ) && elems_below(
                    before.linear_map.constraints@[j]@,
                    before.linear_map.num_elements as int,
                ) by {
                    assert(self.linear_map.constraints@[j] == before.linear_map.constraints@[j]);
                }
                assert forall|j: int| 0 <= j < before.image@.len() implies (
                #[trigger] before.image@[j]).index() < before.linear_map.num_elements by {
                    assert(self.image@[j] == before.image@[j]);
                }
            }
        }
    }

    /// Allocates a group variable and adds the equation that it equals `rhs`.
    pub fn allocate_eq(&mut self, rhs: LinearCombination) -> (var: GroupVar)
        requires
            old(self).linear_map.num_elements < usize::MAX,
        ensures
            var == GroupVar(old(self).linear_map.num_elements),
            final(self).linear_map.num_elements == old(self).linear_map.num_elements + 1,
            final(self).linear_map.constraints@ == old(self).linear_map.constraints@.push(rhs),
            final(self).image@ == old(self).image@.push(var),
            final(self).linear_map.group_elements == old(self).linear_map.group_elements,
            final(self).linear_map.num_scalars == old(self).linear_map.num_scalars,
            final(self).balanced() == old(self).balanced(),
            old(self).wf() && scalars_below(rhs@, old(self).linear_map.num_scalars as int)
                && elems_below(rhs@, old(self).linear_map.num_elements as int)
                ==> final(self).wf(),
    {
        let var = self.allocate_element();
        self.append_equation(var, rhs);
        var
    }

    /// Allocates a scalar variable: the next index.
    pub fn allocate_scalar(&mut self) -> (var: ScalarVar)
        requires
            old(self).linear_map.num_scalars < usize::MAX,
        ensures
            var == ScalarVar(old(self).linear_map.num_scalars),
            final(self).linear_map.num_scalars == old(self).linear_map.num_scalars + 1,
            final(self).linear_map.num_elements == old(self).linear_map.num_elements,
            final(self).linear_map.constraints == old(self).linear_map.constraints,
            final(self).linear_map.group_elements == old(self).linear_map.group_elements,
            final(self).image == old(self).image,
            old(self).wf() ==> final(self).wf(),
    {
        self.linear_map.num_scalars += 1;
        ScalarVar(self.linear_map.num_scalars - 1)
    }

    /// Allocates `N` scalar variables: the next `N` indices, in order.
    pub fn allocate_scalars<const N: usize>(&mut self) -> (vars: [ScalarVar; N])
        requires
            old(self).linear_map.num_scalars + N <= usize::MAX,
        ensures
            forall|i: int|
                0 <= i < N ==> vars@[i] == ScalarVar(
                    (old(self).linear_map.num_scalars + i) as usize,
                ),
            final(self).linear_map.num_scalars == old(self).linear_map.num_scalars + N,
            final(self).linear_map.num_elements == old(self).linear_map.num_elements,
            final(self).linear_map.constraints == old(self).linear_map.constraints,
            final(self).linear_map.group_elements == old(self).linear_map.group_elements,
            final(self).image == old(self).image,
            old(self).wf() ==> final(self).wf(),
    {
        let ghost start = self.linear_map.num_scalars;
        let mut vars = [ScalarVar(usize::MAX);N];
        let mut i: usize = 0;
        while i < N
            invariant
                i <= N,
                start + N <= usize::MAX,
                self.linear_map.num_scalars == start + i,
                forall|k: int| 0 <= k < i ==> vars@[k] == ScalarVar((start + k) as usize),
                self.linear_map.num_elements == old(self).linear_map.num_elements,
                self.linear_map.constraints == old(self).linear_map.constraints,
                self.linear_map.group_elements == old(self).linear_map.group_elements,
                self.image == old(self).image,
                old(self).wf() ==> self.wf(),
            decreases N - i,
        {
            vars[i] = self.allocate_scalar();
            i += 1;
        }
        vars
    }

    /// Allocates a group variable: the next index.
    pub fn allocate_element(&mut self) -> (var: GroupVar)
        requires
            old(self).linear_map.num_elements < usize::MAX,
        ensures
            var == GroupVar(old(self).linear_map.num_elements),
            final(self).linear_map.num_elements == old(self).linear_map.num_elements + 1,
            final(self).linear_map.num_scalars == old(self).linear_map.num_scalars,
            final(self).linear_map.constraints == old(self).linear_map.constraints,
            final(self).linear_map.group_elements == old(self).linear_map.group_elements,
            final(self).image == old(self).image,
            old(self).wf() ==> final(self).wf(),
    {
        self.linear_map.num_elements += 1;
        GroupVar(self.linear_map.num_elements - 1)
    }

    /// Allocates `N` group variables: the next `N` indices, in order.
    pub fn allocate_elements<const N: usize>(&mut self) -> (vars: [GroupVar; N])
        requires
            old(self).linear_map.num_elements + N <= usize::MAX,
        ensures
            forall|i: int|
                0 <= i < N ==> vars@[i] == GroupVar(
                    (old(self).linear_map.num_elements + i) as usize,
                ),
            final(self).linear_map.num_elements == old(self).linear_map.num_elements + N,
            final(self).linear_map.num_scalars == old(self).linear_map.num_scalars,
            final(self).linear_map.constraints == old(self).linear_map.constraints,
            final(self).linear_map.group_elements == old(self).linear_map.group_elements,
            final(self).image == old(self).image,
            old(self).wf() ==> final(self).wf(),
    {
        let ghost start = self.linear_map.num_elements;
        let mut vars = [GroupVar(usize::MAX);N];
        let mut i: usize = 0;
        while i < N
            invariant
                i <= N,
                start + N <= usize::MAX,
                self.linear_map.num_elements == start + i,
                forall|k: int| 0 <= k < i ==> vars@[k] == GroupVar((start + k) as usize),
                self.linear_map.num_scalars == old(self).linear_map.num_scalars,
                self.linear_map.constraints == old(self).linear_map.constraints,
                self.linear_map.group_elements == old(self).linear_map.group_elements,
                self.image == old(self).image,
                old(self).wf() ==> self.wf(),
            decreases N - i,
        {
            vars[i] = self.allocate_element();
            i += 1;
        }
        vars
    }

    /// Assigns `element` to `var`. Assigning the element that is already there
    /// changes nothing; the caller must not assign another one.
    pub fn set_element(&mut self, var: GroupVar, element: Element)
        requires
            var.index() < usize::MAX,
            assignable(old(self).linear_map.group_elements@, var.index() as int, element),
        ensures
            final(self).linear_map.group_elements@ == assigned(
                old(self).linear_map.group_elements@,
                var.index() as int,
                element,
            ),
            final(self).linear_map.num_elements == old(self).linear_map.num_elements,
            final(self).linear_map.num_scalars == old(self).linear_map.num_scalars,
            final(self).linear_map.constraints == old(self).linear_map.constraints,
            final(self).image == old(self).image,
            final(self).wf() == old(self).wf(),
    {
        self.linear_map.group_elements.assign_element(var, element)
    }

    /// Makes the assignments in order.
    pub fn set_elements(&mut self, assignments: &[(GroupVar, Element)])
        requires
            assignable_all(old(self).linear_map.group_elements@, assignments@),
        ensures
            final(self).linear_map.group_elements@ == assigned_all(
                old(self).linear_map.group_elements@,
                assignments@,
            ),
            final(self).linear_map.num_elements == old(self).linear_map.num_elements,
            final(self).linear_map.num_scalars == old(self).linear_map.num_scalars,
            final(self).linear_map.constraints == old(self).linear_map.constraints,
            final(self).image == old(self).image,
            final(self).wf() == old(self).wf(),
    {
        self.linear_map.group_elements.assign_elements(assignments)
    }

    /// Computes the value of each combination under `scalars` and assigns it
    /// to the equation's image variable, in order; a later combination sees
    /// the images assigned before it. Stops at the first combination that
    /// names an unassigned variable and reports that variable; the images
    /// assigned until then stay.
    pub fn compute_image(&mut self, scalars: &[Scalar]) -> (r: Result<(), Error>)
        requires
            old(self).balanced(),
            old(self).linear_map.scalars_in_range(scalars@.len() as int),
            old(self).image_computable(scalars@),
        ensures
            final(self).linear_map.group_elements@ == old(self).computed_image(scalars@).0,
            match old(self).computed_image(scalars@).1 {
                Some(var) => r matches Err(e) && e == (Error::UnassignedGroupVar { var }),
                None => r is Ok,
            },
            final(self).linear_map.num_elements == old(self).linear_map.num_elements,
            final(self).linear_map.num_scalars == old(self).linear_map.num_scalars,
            final(self).linear_map.constraints == old(self).linear_map.constraints,
            final(self).image == old(self).image,
            final(self).wf() == old(self).wf(),
    {
        let mut j: usize = 0;
        while j < self.image.len()
            invariant
                j <= self.image@.len(),
                self.balanced(),
                self.linear_map.scalars_in_range(scalars@.len() as int),
                self.linear_map.num_elements == old(self).linear_map.num_elements,
                self.linear_map.num_scalars == old(self).linear_map.num_scalars,
                self.linear_map.constraints == old(self).linear_map.constraints,
                self.image == old(self).image,
                images_assignable_from(
                    self.linear_map.constraints@,
                    self.image@,
                    scalars@,
                    self.linear_map.group_elements@,
                    j as int,
                ),
                old(self).computed_image(scalars@) == images_from(
                    self.linear_map.constraints@,
                    self.image@,
                    scalars@,
                    self.linear_map.group_elements@,
                    j as int,
                ),
            decreases self.image@.len() - j,
        {
            let lhs = self.image[j];
            match evaluate_combination(
                &self.linear_map.constraints[j],
                scalars,
                &self.linear_map.group_elements,
            ) {
                Ok(value) => {
                    proof {
                        value.lemma_with_encoding();
                    }
                    self.linear_map.group_elements.assign_element(lhs, value);
                },
                Err(e) => {
                    return Err(e);
                },
            }
            j += 1;
        }
        Ok(())
    }

    /// Whether `compute_image` can run on these scalars without assigning to a
    /// variable that holds another element.
    pub fn can_compute_image(&self, scalars: &[Scalar]) -> (ok: bool)
        requires
            self.balanced(),
            self.linear_map.scalars_in_range(scalars@.len() as int),
        ensures
            ok == self.image_computable(scalars@),
    {
        let mut scratch = self.linear_map.group_elements.clone();
        let mut j: usize = 0;
        while j < self.image.len()
            invariant
                j <= self.image@.len(),
                self.balanced(),
                self.linear_map.scalars_in_range(scalars@.len() as int),
                self.image_computable(scalars@) == images_assignable_from(
                    self.linear_map.constraints@,
                    self.image@,
                    scalars@,
                    scratch@,
                    j as int,
                ),
            decreases self.image@.len() - j,
        {
            let lhs = self.image[j];
            match evaluate_combination(&self.linear_map.constraints[j], scalars, &scratch) {
                Ok(value) => {
                    proof {
                        value.lemma_with_encoding();
                    }
                    if lhs.index() == usize::MAX {
                        return false;
                    }
                    match scratch.get(lhs) {
                        Ok(present) => {
                            if present != value {
                                return false;
                            }
                        },
                        Err(_) => {},
                    }
                    scratch.assign_element(lhs, value);
                },
                Err(_) => {
                    return true;
                },
            }
            j += 1;
        }
        true
    }

    /// Runs `compute_image` where it can run, and otherwise leaves the
    /// relation as it is and returns `None`.
    pub fn try_compute_image(&mut self, scalars: &[Scalar]) -> (r: Option<Result<(), Error>>)
        requires
            old(self).balanced(),
            old(self).linear_map.scalars_in_range(scalars@.len() as int),
        ensures
            r is Some == old(self).image_computable(scalars@),
            r is None ==> *final(self) == *old(self),
            r is Some ==> {
                &&& final(self).linear_map.group_elements@ == old(self).computed_image(scalars@).0
                &&& match old(self).computed_image(scalars@).1 {
                    Some(var) => r->Some_0 matches Err(e) && e == (Error::UnassignedGroupVar {
                        var,
                    }),
                    None => r->Some_0 is Ok,
                }
                &&& final(self).linear_map.num_elements == old(self).linear_map.num_elements
                &&& final(self).linear_map.num_scalars == old(self).linear_map.num_scalars
                &&& final(self).linear_map.constraints == old(self).linear_map.constraints
                &&& final(self).image == old(self).image
            },
    {
        if self.can_compute_image(scalars) {
            Some(self.compute_image(scalars))
        } else {
            None
        }
    }

    /// The elements assigned to the image variables, in order, or the first
    /// image variable that has none.
    pub fn image(&self) -> (r: Result<Vec<Element>, Error>)
        ensures
            match self.image_missing() {
                Some(var) => r matches Err(e) && e == (Error::UnassignedGroupVar { var }),
                None => r matches Ok(out) && out@ == self.image_elements(),
            },
    {
        let mut out: Vec<Element> = Vec::new();
        let mut j: usize = 0;
        while j < self.image.len()
            invariant
                j <= self.image@.len(),
                out@ == self.image_elements().take(j as int),
                self.image_missing() == missing_from(
                    self.image@,
                    self.linear_map.group_elements@,
                    j as int,
                ),
            decreases self.image@.len() - j,
        {
            match self.linear_map.group_elements.get(self.image[j]) {
                Ok(element) => {
                    out.push(element);
                },
                Err(e) => {
                    return Err(e);
                },
            }
            assert(out@ =~= self.image_elements().take(j as int + 1));
            j += 1;
        }
        assert(out@ =~= self.image_elements());
        Ok(out)
    }

    /// The statement's label: the shape of the relation, without any value.
    pub fn label(&self) -> (out: Vec<u8>)
        requires
            self.balanced(),
        ensures
            out@ == self.spec_label(),
    {
        let mut out: Vec<u8> = Vec::new();
        let ne = self.image.len();
        push_le32(&mut out, ne);
        let ghost head = out@;
        let mut j: usize = 0;
        while j < ne
            invariant
                j <= ne,
                ne == self.image@.len(),
                self.balanced(),
                out@ == head + equations_label(
                    self.image@,
                    self.linear_map.constraints@,
                    j as nat,
                ),
            decreases ne - j,
        {
            let terms = self.linear_map.constraints[j].terms();
            push_le32(&mut out, self.image[j].index());
            push_le32(&mut out, terms.len());
            let ghost prefix = out@;
            let mut k: usize = 0;
            while k < terms.len()
                invariant
                    k <= terms@.len(),
                    out@ == prefix + terms_label(terms@, k as nat),
                decreases terms@.len() - k,
            {
                let term = terms[k];
                push_le32(&mut out, term.scalar().index());
                push_le32(&mut out, term.elem().index());
                assert(out@ =~= prefix + terms_label(terms@, (k + 1) as nat));
                k += 1;
            }
            assert(out@ =~= head + equations_label(
                self.image@,
                self.linear_map.constraints@,
                (j + 1) as nat,
            ));
            j += 1;
        }
        out
    }
}

impl Clone for LinearRelation {
    fn clone(&self) -> (r: LinearRelation)
        ensures
            r.same_as(self),
    {
        LinearRelation {
            linear_map: self.linear_map.clone(),
            image: slice_to_vec(self.image.as_slice()),
        }
    }
}

impl Default for LinearRelation {
    fn default() -> (r: LinearRelation)
        ensures
            r.image@.len() == 0,
            r.linear_map.constraints@.len() == 0,
            r.linear_map.group_elements@ == Seq::<Option<Element>>::empty(),
            r.linear_map.num_scalars == 0,
            r.linear_map.num_elements == 0,
    {
        LinearRelation::new()
    }
}

} // verus!
