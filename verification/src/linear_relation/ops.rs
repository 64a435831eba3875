//! The term algebra: operators that build terms, sums and weighted terms from
//! variables, and the reduction of what they build to a linear combination.
//!
//! A sum holds a vector and a weight holds a scalar, so the result of an
//! operator that makes one is stated by its view in the operator's `ensures`.

use core::ops::{Add, Mul, Neg, Sub};
use vstd::prelude::*;
use vstd::std_specs::convert::FromSpecImpl;
use vstd::std_specs::ops::{AddSpecImpl, MulSpecImpl, NegSpecImpl, SubSpecImpl};

use super::{GroupVar, LinearCombination, ScalarVar, Sum, Term, Weighted};
use crate::field::{field_mul, field_neg, Scalar};

verus! {

/// A sum of two items.
fn pair<T>(first: T, second: T) -> (sum: Sum<T>)
    ensures
        sum@ == seq![first, second],
{
    let mut items: Vec<T> = Vec::new();
    items.push(first);
    items.push(second);
    let sum = Sum(items);
    assert(sum@ =~= seq![first, second]);
    sum
}

/// The item with the weight one.
fn unit<T>(term: T) -> (weighted: Weighted<T>)
    ensures
        weighted.term == term,
        weighted.weight@ == 1,
{
    Weighted { term, weight: Scalar::one() }
}

/// The item with its weight negated.
fn negated<T>(item: Weighted<T>) -> (r: Weighted<T>)
    ensures
        r.term == item.term,
        r.weight@ == field_neg(item.weight@),
{
    Weighted { term: item.term, weight: item.weight.negate() }
}

/// The item with its weight multiplied by `k`.
fn scaled<T>(item: Weighted<T>, k: &Scalar) -> (r: Weighted<T>)
    ensures
        r.term == item.term,
        r.weight@ == field_mul(item.weight@, k@),
{
    Weighted { term: item.term, weight: item.weight.times(k) }
}

/// Whether `b` is `a` with every weight negated.
pub open spec fn all_negated<T>(a: Seq<Weighted<T>>, b: Seq<Weighted<T>>) -> bool {
    &&& b.len() == a.len()
    &&& forall|i: int|
        0 <= i < a.len() ==> (#[trigger] b[i]).term == a[i].term && b[i].weight@ == field_neg(
            a[i].weight@,
        )
}

/// Whether `b` is `a` with every weight multiplied by `k`.
pub open spec fn all_scaled<T>(a: Seq<Weighted<T>>, b: Seq<Weighted<T>>, k: nat) -> bool {
    &&& b.len() == a.len()
    &&& forall|i: int|
        0 <= i < a.len() ==> (#[trigger] b[i]).term == a[i].term && b[i].weight@ == field_mul(
            a[i].weight@,
            k,
        )
}

/// Whether `b` is `a` with every item given the weight `k`.
pub open spec fn all_weighted<T>(a: Seq<T>, b: Seq<Weighted<T>>, k: nat) -> bool {
    &&& b.len() == a.len()
    &&& forall|i: int| 0 <= i < a.len() ==> (#[trigger] b[i]).term == a[i] && b[i].weight@ == k
}

impl Mul<ScalarVar> for GroupVar {
    type Output = Term;

    /// The formal product of a scalar variable and a group variable.
    fn mul(self, rhs: ScalarVar) -> (r: Term) {
        Term { elem: self, scalar: rhs }
    }
}

impl MulSpecImpl<ScalarVar> for GroupVar {
    open spec fn obeys_mul_spec() -> bool {
        true
    }

    open spec fn mul_req(self, rhs: ScalarVar) -> bool {
        true
    }

    open spec fn mul_spec(self, rhs: ScalarVar) -> Term {
        Term { elem: self, scalar: rhs }
    }
}

impl Mul<GroupVar> for ScalarVar {
    type Output = Term;

    /// The formal product of a scalar variable and a group variable.
    fn mul(self, rhs: GroupVar) -> (r: Term) {
        Term { elem: rhs, scalar: self }
    }
}

impl MulSpecImpl<GroupVar> for ScalarVar {
    open spec fn obeys_mul_spec() -> bool {
        true
    }

    open spec fn mul_req(self, rhs: GroupVar) -> bool {
        true
    }

    open spec fn mul_spec(self, rhs: GroupVar) -> Term {
        Term { elem: rhs, scalar: self }
    }
}

impl Add<ScalarVar> for ScalarVar {
    type Output = Sum<ScalarVar>;

    /// The sum of two items.
    fn add(self, rhs: ScalarVar) -> (r: Sum<ScalarVar>)
        ensures
            r@ == seq![self, rhs],
    {
        pair(self, rhs)
    }
}

impl AddSpecImpl<ScalarVar> for ScalarVar {
    open spec fn obeys_add_spec() -> bool {
        false
    }

    open spec fn add_req(self, rhs: ScalarVar) -> bool {
        true
    }

    open spec fn add_spec(self, rhs: ScalarVar) -> Sum<ScalarVar> {
        arbitrary()
    }
}

impl Add<GroupVar> for GroupVar {
    type Output = Sum<GroupVar>;

    /// The sum of two items.
    fn add(self, rhs: GroupVar) -> (r: Sum<GroupVar>)
        ensures
            r@ == seq![self, rhs],
    {
        pair(self, rhs)
    }
}

impl AddSpecImpl<GroupVar> for GroupVar {
    open spec fn obeys_add_spec() -> bool {
        false
    }

    open spec fn add_req(self, rhs: GroupVar) -> bool {
        true
    }

    open spec fn add_spec(self, rhs: GroupVar) -> Sum<GroupVar> {
        arbitrary()
    }
}

impl Add<Term> for Term {
    type Output = Sum<Term>;

    /// The sum of two items.
    fn add(self, rhs: Term) -> (r: Sum<Term>)
        ensures
            r@ == seq![self, rhs],
    {
        pair(self, rhs)
    }
}

impl AddSpecImpl<Term> for Term {
    open spec fn obeys_add_spec() -> bool {
        false
    }

    open spec fn add_req(self, rhs: Term) -> bool {
        true
    }

    open spec fn add_spec(self, rhs: Term) -> Sum<Term> {
        arbitrary()
    }
}

impl<T> Add<T> for Sum<T> {
    type Output = Sum<T>;

    /// The sum with one more item at its end.
    fn add(self, rhs: T) -> (r: Sum<T>)
        ensures
            r@ == self@.push(rhs),
    {
        let mut items = self.0;
        items.push(rhs);
        Sum(items)
    }
}

impl<T> AddSpecImpl<T> for Sum<T> {
    open spec fn obeys_add_spec() -> bool {
        false
    }

    open spec fn add_req(self, rhs: T) -> bool {
        true
    }

    open spec fn add_spec(self, rhs: T) -> Sum<T> {
        arbitrary()
    }
}

impl Add<Sum<ScalarVar>> for ScalarVar {
    type Output = Sum<ScalarVar>;

    /// The sum with one more item at its end.
    fn add(self, rhs: Sum<ScalarVar>) -> (r: Sum<ScalarVar>)
        ensures
            r@ == rhs@.push(self),
    {
        let mut items = rhs.0;
        items.push(self);
        Sum(items)
    }
}

impl AddSpecImpl<Sum<ScalarVar>> for ScalarVar {
    open spec fn obeys_add_spec() -> bool {
        false
    }

    open spec fn add_req(self, rhs: Sum<ScalarVar>) -> bool {
        true
    }

    open spec fn add_spec(self, rhs: Sum<ScalarVar>) -> Sum<ScalarVar> {
        arbitrary()
    }
}

impl Add<Sum<GroupVar>> for GroupVar {
    type Output = Sum<GroupVar>;

    /// The sum with one more item at its end.
    fn add(self, rhs: Sum<GroupVar>) -> (r: Sum<GroupVar>)
        ensures
            r@ == rhs@.push(self),
    {
        let mut items = rhs.0;
        items.push(self);
        Sum(items)
    }
}

impl AddSpecImpl<Sum<GroupVar>> for GroupVar {
    open spec fn obeys_add_spec() -> bool {
        false
    }

    open spec fn add_req(self, rhs: Sum<GroupVar>) -> bool {
        true
    }

    open spec fn add_spec(self, rhs: Sum<GroupVar>) -> Sum<GroupVar> {
        arbitrary()
    }
}

impl Add<Sum<Term>> for Term {
    type Output = Sum<Term>;

    /// The sum with one more item at its end.
    fn add(self, rhs: Sum<Term>) -> (r: Sum<Term>)
        ensures
            r@ == rhs@.push(self),
    {
        let mut items = rhs.0;
        items.push(self);
        Sum(items)
    }
}

impl AddSpecImpl<Sum<Term>> for Term {
    open spec fn obeys_add_spec() -> bool {
        false
    }

    open spec fn add_req(self, rhs: Sum<Term>) -> bool {
        true
    }

    open spec fn add_spec(self, rhs: Sum<Term>) -> Sum<Term> {
        arbitrary()
    }
}

impl<T> Add<Sum<T>> for Sum<T> {
    type Output = Sum<T>;

    /// The items of the first sum, then the items of the second.
    fn add(self, rhs: Sum<T>) -> (r: Sum<T>)
        ensures
            r@ == self@ + rhs@,
    {
        let mut items = self.0;
        let mut tail = rhs.0;
        items.append(&mut tail);
        Sum(items)
    }
}

impl<T> AddSpecImpl<Sum<T>> for Sum<T> {
    open spec fn obeys_add_spec() -> bool {
        false
    }

    open spec fn add_req(self, rhs: Sum<T>) -> bool {
        true
    }

    open spec fn add_spec(self, rhs: Sum<T>) -> Sum<T> {
        arbitrary()
    }
}

impl<T> Add<Weighted<T>> for Weighted<T> {
    type Output = Sum<Weighted<T>>;

    /// The sum of two weighted items.
    fn add(self, rhs: Weighted<T>) -> (r: Sum<Weighted<T>>)
        ensures
            r@ == seq![self, rhs],
    {
        pair(self, rhs)
    }
}

impl<T> AddSpecImpl<Weighted<T>> for Weighted<T> {
    open spec fn obeys_add_spec() -> bool {
        false
    }

    open spec fn add_req(self, rhs: Weighted<T>) -> bool {
        true
    }

    open spec fn add_spec(self, rhs: Weighted<T>) -> Sum<Weighted<T>> {
        arbitrary()
    }
}

impl Add<ScalarVar> for Weighted<ScalarVar> {
    type Output = Sum<Weighted<ScalarVar>>;

    /// The sum of a weighted item and an item, which gets the weight one.
    fn add(self, rhs: ScalarVar) -> (r: Sum<Weighted<ScalarVar>>)
        ensures
            r@.len() == 2,
            r@[0] == self,
            r@[1].term == rhs,
            r@[1].weight@ == 1,
    {
        pair(self, unit(rhs))
    }
}

impl AddSpecImpl<ScalarVar> for Weighted<ScalarVar> {
    open spec fn obeys_add_spec() -> bool {
        false
    }

    open spec fn add_req(self, rhs: ScalarVar) -> bool {
        true
    }

    open spec fn add_spec(self, rhs: ScalarVar) -> Sum<Weighted<ScalarVar>> {
        arbitrary()
    }
}

impl Add<Weighted<ScalarVar>> for ScalarVar {
    type Output = Sum<Weighted<ScalarVar>>;

    /// The sum of a weighted item and an item, which gets the weight one.
    fn add(self, rhs: Weighted<ScalarVar>) -> (r: Sum<Weighted<ScalarVar>>)
        ensures
            r@.len() == 2,
            r@[0] == rhs,
            r@[1].term == self,
            r@[1].weight@ == 1,
    {
        pair(rhs, unit(self))
    }
}

impl AddSpecImpl<Weighted<ScalarVar>> for ScalarVar {
    open spec fn obeys_add_spec() -> bool {
        false
    }

    open spec fn add_req(self, rhs: Weighted<ScalarVar>) -> bool {
        true
    }

    open spec fn add_spec(self, rhs: Weighted<ScalarVar>) -> Sum<Weighted<ScalarVar>> {
        arbitrary()
    }
}

impl Add<ScalarVar> for Sum<Weighted<ScalarVar>> {
    type Output = Sum<Weighted<ScalarVar>>;

    /// The sum with one more item at its end, which gets the weight one.
    fn add(self, rhs: ScalarVar) -> (r: Sum<Weighted<ScalarVar>>)
        ensures
            r@.len() == self@.len() + 1,
            r@.drop_last() == self@,
            r@.last().term == rhs,
            r@.last().weight@ == 1,
    {
        let mut items = self.0;
        let ghost before = items@;
        items.push(unit(rhs));
        assert(items@.drop_last() =~= before);
        Sum(items)
    }
}

impl AddSpecImpl<ScalarVar> for Sum<Weighted<ScalarVar>> {
    open spec fn obeys_add_spec() -> bool {
        false
    }

    open spec fn add_req(self, rhs: ScalarVar) -> bool {
        true
    }

    open spec fn add_spec(self, rhs: ScalarVar) -> Sum<Weighted<ScalarVar>> {
        arbitrary()
    }
}

impl Add<Sum<Weighted<ScalarVar>>> for ScalarVar {
    type Output = Sum<Weighted<ScalarVar>>;

    /// The sum with one more item at its end, which gets the weight one.
    fn add(self, rhs: Sum<Weighted<ScalarVar>>) -> (r: Sum<Weighted<ScalarVar>>)
        ensures
            r@.len() == rhs@.len() + 1,
            r@.drop_last() == rhs@,
            r@.last().term == self,
            r@.last().weight@ == 1,
    {
        let mut items = rhs.0;
        let ghost before = items@;
        items.push(unit(self));
        assert(items@.drop_last() =~= before);
        Sum(items)
    }
}

impl AddSpecImpl<Sum<Weighted<ScalarVar>>> for ScalarVar {
    open spec fn obeys_add_spec() -> bool {
        false
    }

    open spec fn add_req(self, rhs: Sum<Weighted<ScalarVar>>) -> bool {
        true
    }

    open spec fn add_spec(self, rhs: Sum<Weighted<ScalarVar>>) -> Sum<Weighted<ScalarVar>> {
        arbitrary()
    }
}

impl Add<GroupVar> for Weighted<GroupVar> {
    type Output = Sum<Weighted<GroupVar>>;

    /// The sum of a weighted item and an item, which gets the weight one.
    fn add(self, rhs: GroupVar) -> (r: Sum<Weighted<GroupVar>>)
        ensures
            r@.len() == 2,
            r@[0] == self,
            r@[1].term == rhs,
            r@[1].weight@ == 1,
    {
        pair(self, unit(rhs))
    }
}

impl AddSpecImpl<GroupVar> for Weighted<GroupVar> {
    open spec fn obeys_add_spec() -> bool {
        false
    }

    open spec fn add_req(self, rhs: GroupVar) -> bool {
        true
    }

    open spec fn add_spec(self, rhs: GroupVar) -> Sum<Weighted<GroupVar>> {
        arbitrary()
    }
}

impl Add<Weighted<GroupVar>> for GroupVar {
    type Output = Sum<Weighted<GroupVar>>;

    /// The sum of a weighted item and an item, which gets the weight one.
    fn add(self, rhs: Weighted<GroupVar>) -> (r: Sum<Weighted<GroupVar>>)
        ensures
            r@.len() == 2,
            r@[0] == rhs,
            r@[1].term == self,
            r@[1].weight@ == 1,
    {
        pair(rhs, unit(self))
    }
}

impl AddSpecImpl<Weighted<GroupVar>> for GroupVar {
    open spec fn obeys_add_spec() -> bool {
        false
    }

    open spec fn add_req(self, rhs: Weighted<GroupVar>) -> bool {
        true
    }

    open spec fn add_spec(self, rhs: Weighted<GroupVar>) -> Sum<Weighted<GroupVar>> {
        arbitrary()
    }
}

impl Add<GroupVar> for Sum<Weighted<GroupVar>> {
    type Output = Sum<Weighted<GroupVar>>;

    /// The sum with one more item at its end, which gets the weight one.
    fn add(self, rhs: GroupVar) -> (r: Sum<Weighted<GroupVar>>)
        ensures
            r@.len() == self@.len() + 1,
            r@.drop_last() == self@,
            r@.last().term == rhs,
            r@.last().weight@ == 1,
    {
        let mut items = self.0;
        let ghost before = items@;
        items.push(unit(rhs));
        assert(items@.drop_last() =~= before);
        Sum(items)
    }
}

impl AddSpecImpl<GroupVar> for Sum<Weighted<GroupVar>> {
    open spec fn obeys_add_spec() -> bool {
        false
    }

    open spec fn add_req(self, rhs: GroupVar) -> bool {
        true
    }

    open spec fn add_spec(self, rhs: GroupVar) -> Sum<Weighted<GroupVar>> {
        arbitrary()
    }
}

impl Add<Sum<Weighted<GroupVar>>> for GroupVar {
    type Output = Sum<Weighted<GroupVar>>;

    /// The sum with one more item at its end, which gets the weight one.
    fn add(self, rhs: Sum<Weighted<GroupVar>>) -> (r: Sum<Weighted<GroupVar>>)
        ensures
            r@.len() == rhs@.len() + 1,
            r@.drop_last() == rhs@,
            r@.last().term == self,
            r@.last().weight@ == 1,
    {
        let mut items = rhs.0;
        let ghost before = items@;
        items.push(unit(self));
        assert(items@.drop_last() =~= before);
        Sum(items)
    }
}

impl AddSpecImpl<Sum<Weighted<GroupVar>>> for GroupVar {
    open spec fn obeys_add_spec() -> bool {
        false
    }

    open spec fn add_req(self, rhs: Sum<Weighted<GroupVar>>) -> bool {
        true
    }

    open spec fn add_spec(self, rhs: Sum<Weighted<GroupVar>>) -> Sum<Weighted<GroupVar>> {
        arbitrary()
    }
}

impl Add<Term> for Weighted<Term> {
    type Output = Sum<Weighted<Term>>;

    /// The sum of a weighted item and an item, which gets the weight one.
    fn add(self, rhs: Term) -> (r: Sum<Weighted<Term>>)
        ensures
            r@.len() == 2,
            r@[0] == self,
            r@[1].term == rhs,
            r@[1].weight@ == 1,
    {
        pair(self, unit(rhs))
    }
}

impl AddSpecImpl<Term> for Weighted<Term> {
    open spec fn obeys_add_spec() -> bool {
        false
    }

    open spec fn add_req(self, rhs: Term) -> bool {
        true
    }

    open spec fn add_spec(self, rhs: Term) -> Sum<Weighted<Term>> {
        arbitrary()
    }
}

impl Add<Weighted<Term>> for Term {
    type Output = Sum<Weighted<Term>>;

    /// The sum of a weighted item and an item, which gets the weight one.
    fn add(self, rhs: Weighted<Term>) -> (r: Sum<Weighted<Term>>)
        ensures
            r@.len() == 2,
            r@[0] == rhs,
            r@[1].term == self,
            r@[1].weight@ == 1,
    {
        pair(rhs, unit(self))
    }
}

impl AddSpecImpl<Weighted<Term>> for Term {
    open spec fn obeys_add_spec() -> bool {
        false
    }

    open spec fn add_req(self, rhs: Weighted<Term>) -> bool {
        true
    }

    open spec fn add_spec(self, rhs: Weighted<Term>) -> Sum<Weighted<Term>> {
        arbitrary()
    }
}

impl Add<Term> for Sum<Weighted<Term>> {
    type Output = Sum<Weighted<Term>>;

    /// The sum with one more item at its end, which gets the weight one.
    fn add(self, rhs: Term) -> (r: Sum<Weighted<Term>>)
        ensures
            r@.len() == self@.len() + 1,
            r@.drop_last() == self@,
            r@.last().term == rhs,
            r@.last().weight@ == 1,
    {
        let mut items = self.0;
        let ghost before = items@;
        items.push(unit(rhs));
        assert(items@.drop_last() =~= before);
        Sum(items)
    }
}

impl AddSpecImpl<Term> for Sum<Weighted<Term>> {
    open spec fn obeys_add_spec() -> bool {
        false
    }

    open spec fn add_req(self, rhs: Term) -> bool {
        true
    }

    open spec fn add_spec(self, rhs: Term) -> Sum<Weighted<Term>> {
        arbitrary()
    }
}

impl Add<Sum<Weighted<Term>>> for Term {
    type Output = Sum<Weighted<Term>>;

    /// The sum with one more item at its end, which gets the weight one.
    fn add(self, rhs: Sum<Weighted<Term>>) -> (r: Sum<Weighted<Term>>)
        ensures
            r@.len() == rhs@.len() + 1,
            r@.drop_last() == rhs@,
            r@.last().term == self,
            r@.last().weight@ == 1,
    {
        let mut items = rhs.0;
        let ghost before = items@;
        items.push(unit(self));
        assert(items@.drop_last() =~= before);
        Sum(items)
    }
}

impl AddSpecImpl<Sum<Weighted<Term>>> for Term {
    open spec fn obeys_add_spec() -> bool {
        false
    }

    open spec fn add_req(self, rhs: Sum<Weighted<Term>>) -> bool {
        true
    }

    open spec fn add_spec(self, rhs: Sum<Weighted<Term>>) -> Sum<Weighted<Term>> {
        arbitrary()
    }
}

impl Mul<Scalar> for ScalarVar {
    type Output = Weighted<ScalarVar>;

    /// The item with the weight `rhs`.
    fn mul(self, rhs: Scalar) -> (r: Weighted<ScalarVar>) {
        Weighted { term: self, weight: rhs }
    }
}

impl MulSpecImpl<Scalar> for ScalarVar {
    open spec fn obeys_mul_spec() -> bool {
        true
    }

    open spec fn mul_req(self, rhs: Scalar) -> bool {
        true
    }

    open spec fn mul_spec(self, rhs: Scalar) -> Weighted<ScalarVar> {
        Weighted { term: self, weight: rhs }
    }
}

impl Mul<Scalar> for GroupVar {
    type Output = Weighted<GroupVar>;

    /// The item with the weight `rhs`.
    fn mul(self, rhs: Scalar) -> (r: Weighted<GroupVar>) {
        Weighted { term: self, weight: rhs }
    }
}

impl MulSpecImpl<Scalar> for GroupVar {
    open spec fn obeys_mul_spec() -> bool {
        true
    }

    open spec fn mul_req(self, rhs: Scalar) -> bool {
        true
    }

    open spec fn mul_spec(self, rhs: Scalar) -> Weighted<GroupVar> {
        Weighted { term: self, weight: rhs }
    }
}

impl Mul<Scalar> for Term {
    type Output = Weighted<Term>;

    /// The item with the weight `rhs`.
    fn mul(self, rhs: Scalar) -> (r: Weighted<Term>) {
        Weighted { term: self, weight: rhs }
    }
}

impl MulSpecImpl<Scalar> for Term {
    open spec fn obeys_mul_spec() -> bool {
        true
    }

    open spec fn mul_req(self, rhs: Scalar) -> bool {
        true
    }

    open spec fn mul_spec(self, rhs: Scalar) -> Weighted<Term> {
        Weighted { term: self, weight: rhs }
    }
}

impl<T> Mul<Scalar> for Weighted<T> {
    type Output = Weighted<T>;

    /// The item with its weight multiplied by `rhs`.
    fn mul(self, rhs: Scalar) -> (r: Weighted<T>)
        ensures
            r.term == self.term,
            r.weight@ == field_mul(self.weight@, rhs@),
    {
        scaled(self, &rhs)
    }
}

impl<T> MulSpecImpl<Scalar> for Weighted<T> {
    open spec fn obeys_mul_spec() -> bool {
        false
    }

    open spec fn mul_req(self, rhs: Scalar) -> bool {
        true
    }

    open spec fn mul_spec(self, rhs: Scalar) -> Weighted<T> {
        arbitrary()
    }
}

impl Mul<ScalarVar> for Weighted<GroupVar> {
    type Output = Weighted<Term>;

    /// The weighted product of the two variables.
    fn mul(self, rhs: ScalarVar) -> (r: Weighted<Term>) {
        Weighted { term: Term { elem: self.term, scalar: rhs }, weight: self.weight }
    }
}

impl MulSpecImpl<ScalarVar> for Weighted<GroupVar> {
    open spec fn obeys_mul_spec() -> bool {
        true
    }

    open spec fn mul_req(self, rhs: ScalarVar) -> bool {
        true
    }

    open spec fn mul_spec(self, rhs: ScalarVar) -> Weighted<Term> {
        Weighted { term: Term { elem: self.term, scalar: rhs }, weight: self.weight }
    }
}

impl Mul<Weighted<GroupVar>> for ScalarVar {
    type Output = Weighted<Term>;

    /// The weighted product of the two variables.
    fn mul(self, rhs: Weighted<GroupVar>) -> (r: Weighted<Term>) {
        Weighted { term: Term { elem: rhs.term, scalar: self }, weight: rhs.weight }
    }
}

impl MulSpecImpl<Weighted<GroupVar>> for ScalarVar {
    open spec fn obeys_mul_spec() -> bool {
        true
    }

    open spec fn mul_req(self, rhs: Weighted<GroupVar>) -> bool {
        true
    }

    open spec fn mul_spec(self, rhs: Weighted<GroupVar>) -> Weighted<Term> {
        Weighted { term: Term { elem: rhs.term, scalar: self }, weight: rhs.weight }
    }
}

impl Mul<GroupVar> for Weighted<ScalarVar> {
    type Output = Weighted<Term>;

    /// The weighted product of the two variables.
    fn mul(self, rhs: GroupVar) -> (r: Weighted<Term>) {
        Weighted { term: Term { elem: rhs, scalar: self.term }, weight: self.weight }
    }
}

impl MulSpecImpl<GroupVar> for Weighted<ScalarVar> {
    open spec fn obeys_mul_spec() -> bool {
        true
    }

    open spec fn mul_req(self, rhs: GroupVar) -> bool {
        true
    }

    open spec fn mul_spec(self, rhs: GroupVar) -> Weighted<Term> {
        Weighted { term: Term { elem: rhs, scalar: self.term }, weight: self.weight }
    }
}

impl Mul<Weighted<ScalarVar>> for GroupVar {
    type Output = Weighted<Term>;

    /// The weighted product of the two variables.
    fn mul(self, rhs: Weighted<ScalarVar>) -> (r: Weighted<Term>) {
        Weighted { term: Term { elem: self, scalar: rhs.term }, weight: rhs.weight }
    }
}

impl MulSpecImpl<Weighted<ScalarVar>> for GroupVar {
    open spec fn obeys_mul_spec() -> bool {
        true
    }

    open spec fn mul_req(self, rhs: Weighted<ScalarVar>) -> bool {
        true
    }

    open spec fn mul_spec(self, rhs: Weighted<ScalarVar>) -> Weighted<Term> {
        Weighted { term: Term { elem: self, scalar: rhs.term }, weight: rhs.weight }
    }
}

impl Mul<GroupVar> for Sum<ScalarVar> {
    type Output = Sum<Term>;

    /// The product of each scalar variable of the sum with the group variable.
    fn mul(self, rhs: GroupVar) -> (r: Sum<Term>)
        ensures
            r@.len() == self@.len(),
            forall|i: int| 0 <= i < self@.len() ==> #[trigger] r@[i] == (Term { scalar: self@[i], elem: rhs }),
    {
        let mut items: Vec<Term> = Vec::new();
        let mut i: usize = 0;
        while i < self.0.len()
            invariant
                i <= self@.len(),
                items@.len() == i,
                forall|k: int|
                    0 <= k < i ==> #[trigger] items@[k] == (Term { scalar: self@[k], elem: rhs }),
            decreases self@.len() - i,
        {
            items.push(Term { scalar: self.0[i], elem: rhs });
            i += 1;
        }
        Sum(items)
    }
}

impl MulSpecImpl<GroupVar> for Sum<ScalarVar> {
    open spec fn obeys_mul_spec() -> bool {
        false
    }

    open spec fn mul_req(self, rhs: GroupVar) -> bool {
        true
    }

    open spec fn mul_spec(self, rhs: GroupVar) -> Sum<Term> {
        arbitrary()
    }
}

impl Mul<ScalarVar> for Sum<GroupVar> {
    type Output = Sum<Term>;

    /// The product of the scalar variable with each group variable of the sum.
    fn mul(self, rhs: ScalarVar) -> (r: Sum<Term>)
        ensures
            r@.len() == self@.len(),
            forall|i: int| 0 <= i < self@.len() ==> #[trigger] r@[i] == (Term { scalar: rhs, elem: self@[i] }),
    {
        let mut items: Vec<Term> = Vec::new();
        let mut i: usize = 0;
        while i < self.0.len()
            invariant
                i <= self@.len(),
                items@.len() == i,
                forall|k: int|
                    0 <= k < i ==> #[trigger] items@[k] == (Term { scalar: rhs, elem: self@[k] }),
            decreases self@.len() - i,
        {
            items.push(Term { scalar: rhs, elem: self.0[i] });
            i += 1;
        }
        Sum(items)
    }
}

impl MulSpecImpl<ScalarVar> for Sum<GroupVar> {
    open spec fn obeys_mul_spec() -> bool {
        false
    }

    open spec fn mul_req(self, rhs: ScalarVar) -> bool {
        true
    }

    open spec fn mul_spec(self, rhs: ScalarVar) -> Sum<Term> {
        arbitrary()
    }
}

impl<T: Copy> Mul<Scalar> for Sum<Weighted<T>> {
    type Output = Sum<Weighted<T>>;

    /// The sum with every weight multiplied by `rhs`.
    fn mul(self, rhs: Scalar) -> (r: Sum<Weighted<T>>)
        ensures
            all_scaled(self@, r@, rhs@),
    {
        let mut items: Vec<Weighted<T>> = Vec::new();
        let mut i: usize = 0;
        while i < self.0.len()
            invariant
                i <= self@.len(),
                all_scaled(self@.take(i as int), items@, rhs@),
            decreases self@.len() - i,
        {
            items.push(scaled(self.0[i], &rhs));
            i += 1;
        }
        assert(self@.take(i as int) =~= self@);
        Sum(items)
    }
}

impl<T: Copy> MulSpecImpl<Scalar> for Sum<Weighted<T>> {
    open spec fn obeys_mul_spec() -> bool {
        false
    }

    open spec fn mul_req(self, rhs: Scalar) -> bool {
        true
    }

    open spec fn mul_spec(self, rhs: Scalar) -> Sum<Weighted<T>> {
        arbitrary()
    }
}

impl Mul<Scalar> for Sum<ScalarVar> {
    type Output = Sum<Weighted<ScalarVar>>;

    /// The sum with every item given the weight `rhs`.
    fn mul(self, rhs: Scalar) -> (r: Sum<Weighted<ScalarVar>>)
        ensures
            all_weighted(self@, r@, rhs@),
    {
        let mut items: Vec<Weighted<ScalarVar>> = Vec::new();
        let mut i: usize = 0;
        while i < self.0.len()
            invariant
                i <= self@.len(),
                all_weighted(self@.take(i as int), items@, rhs@),
            decreases self@.len() - i,
        {
            items.push(Weighted { term: self.0[i], weight: rhs });
            i += 1;
        }
        assert(self@.take(i as int) =~= self@);
        Sum(items)
    }
}

impl MulSpecImpl<Scalar> for Sum<ScalarVar> {
    open spec fn obeys_mul_spec() -> bool {
        false
    }

    open spec fn mul_req(self, rhs: Scalar) -> bool {
        true
    }

    open spec fn mul_spec(self, rhs: Scalar) -> Sum<Weighted<ScalarVar>> {
        arbitrary()
    }
}

impl Mul<Scalar> for Sum<GroupVar> {
    type Output = Sum<Weighted<GroupVar>>;

    /// The sum with every item given the weight `rhs`.
    fn mul(self, rhs: Scalar) -> (r: Sum<Weighted<GroupVar>>)
        ensures
            all_weighted(self@, r@, rhs@),
    {
        let mut items: Vec<Weighted<GroupVar>> = Vec::new();
        let mut i: usize = 0;
        while i < self.0.len()
            invariant
                i <= self@.len(),
                all_weighted(self@.take(i as int), items@, rhs@),
            decreases self@.len() - i,
        {
            items.push(Weighted { term: self.0[i], weight: rhs });
            i += 1;
        }
        assert(self@.take(i as int) =~= self@);
        Sum(items)
    }
}

impl MulSpecImpl<Scalar> for Sum<GroupVar> {
    open spec fn obeys_mul_spec() -> bool {
        false
    }

    open spec fn mul_req(self, rhs: Scalar) -> bool {
        true
    }

    open spec fn mul_spec(self, rhs: Scalar) -> Sum<Weighted<GroupVar>> {
        arbitrary()
    }
}

impl Mul<Scalar> for Sum<Term> {
    type Output = Sum<Weighted<Term>>;

    /// The sum with every item given the weight `rhs`.
    fn mul(self, rhs: Scalar) -> (r: Sum<Weighted<Term>>)
        ensures
            all_weighted(self@, r@, rhs@),
    {
        let mut items: Vec<Weighted<Term>> = Vec::new();
        let mut i: usize = 0;
        while i < self.0.len()
            invariant
                i <= self@.len(),
                all_weighted(self@.take(i as int), items@, rhs@),
            decreases self@.len() - i,
        {
            items.push(Weighted { term: self.0[i], weight: rhs });
            i += 1;
        }
        assert(self@.take(i as int) =~= self@);
        Sum(items)
    }
}

impl MulSpecImpl<Scalar> for Sum<Term> {
    open spec fn obeys_mul_spec() -> bool {
        false
    }

    open spec fn mul_req(self, rhs: Scalar) -> bool {
        true
    }

    open spec fn mul_spec(self, rhs: Scalar) -> Sum<Weighted<Term>> {
        arbitrary()
    }
}

impl<T> Neg for Weighted<T> {
    type Output = Weighted<T>;

    /// The item with its weight negated.
    fn neg(self) -> (r: Weighted<T>)
        ensures
            r.term == self.term,
            r.weight@ == field_neg(self.weight@),
    {
        negated(self)
    }
}

impl<T> NegSpecImpl for Weighted<T> {
    open spec fn obeys_neg_spec() -> bool {
        false
    }

    open spec fn neg_req(self) -> bool {
        true
    }

    open spec fn neg_spec(self) -> Weighted<T> {
        arbitrary()
    }
}

impl<T: Copy> Neg for Sum<Weighted<T>> {
    type Output = Sum<Weighted<T>>;

    /// The sum with every weight negated.
    fn neg(self) -> (r: Sum<Weighted<T>>)
        ensures
            all_negated(self@, r@),
    {
        let mut items: Vec<Weighted<T>> = Vec::new();
        let mut i: usize = 0;
        while i < self.0.len()
            invariant
                i <= self@.len(),
                all_negated(self@.take(i as int), items@),
            decreases self@.len() - i,
        {
            items.push(negated(self.0[i]));
            i += 1;
        }
        assert(self@.take(i as int) =~= self@);
        Sum(items)
    }
}

impl<T: Copy> NegSpecImpl for Sum<Weighted<T>> {
    open spec fn obeys_neg_spec() -> bool {
        false
    }

    open spec fn neg_req(self) -> bool {
        true
    }

    open spec fn neg_spec(self) -> Sum<Weighted<T>> {
        arbitrary()
    }
}

impl<T> Sub<Weighted<T>> for Weighted<T> {
    type Output = Sum<Weighted<T>>;

    /// The sum of the first item and the negated second.
    fn sub(self, rhs: Weighted<T>) -> (r: Sum<Weighted<T>>)
        ensures
            r@.len() == 2,
            r@[0] == self,
            r@[1].term == rhs.term,
            r@[1].weight@ == field_neg(rhs.weight@),
    {
        pair(self, negated(rhs))
    }
}

impl<T> SubSpecImpl<Weighted<T>> for Weighted<T> {
    open spec fn obeys_sub_spec() -> bool {
        false
    }

    open spec fn sub_req(self, rhs: Weighted<T>) -> bool {
        true
    }

    open spec fn sub_spec(self, rhs: Weighted<T>) -> Sum<Weighted<T>> {
        arbitrary()
    }
}

impl<T> Sub<Weighted<T>> for Sum<Weighted<T>> {
    type Output = Sum<Weighted<T>>;

    /// The sum with the negated item at its end.
    fn sub(self, rhs: Weighted<T>) -> (r: Sum<Weighted<T>>)
        ensures
            r@.len() == self@.len() + 1,
            r@.drop_last() == self@,
            r@.last().term == rhs.term,
            r@.last().weight@ == field_neg(rhs.weight@),
    {
        let mut items = self.0;
        let ghost before = items@;
        items.push(negated(rhs));
        assert(items@.drop_last() =~= before);
        Sum(items)
    }
}

impl<T> SubSpecImpl<Weighted<T>> for Sum<Weighted<T>> {
    open spec fn obeys_sub_spec() -> bool {
        false
    }

    open spec fn sub_req(self, rhs: Weighted<T>) -> bool {
        true
    }

    open spec fn sub_spec(self, rhs: Weighted<T>) -> Sum<Weighted<T>> {
        arbitrary()
    }
}

impl<T: Copy> Sub<Sum<Weighted<T>>> for Sum<Weighted<T>> {
    type Output = Sum<Weighted<T>>;

    /// The items of the first sum, then the negated items of the second.
    fn sub(self, rhs: Sum<Weighted<T>>) -> (r: Sum<Weighted<T>>)
        ensures
            r@.len() == self@.len() + rhs@.len(),
            r@.take(self@.len() as int) == self@,
            all_negated(rhs@, r@.skip(self@.len() as int)),
    {
        let mut items = self.0;
        let ghost head = items@;
        let mut i: usize = 0;
        while i < rhs.0.len()
            invariant
                i <= rhs@.len(),
                items@.len() == head.len() + i,
                items@.take(head.len() as int) == head,
                all_negated(rhs@.take(i as int), items@.skip(head.len() as int)),
            decreases rhs@.len() - i,
        {
            let ghost before = items@;
            items.push(negated(rhs.0[i]));
            assert(items@.take(head.len() as int) =~= before.take(head.len() as int));
            assert(items@.skip(head.len() as int) =~= before.skip(head.len() as int).push(
                items@.last(),
            ));
            i += 1;
        }
        assert(rhs@.take(i as int) =~= rhs@);
        Sum(items)
    }
}

impl<T: Copy> SubSpecImpl<Sum<Weighted<T>>> for Sum<Weighted<T>> {
    open spec fn obeys_sub_spec() -> bool {
        false
    }

    open spec fn sub_req(self, rhs: Sum<Weighted<T>>) -> bool {
        true
    }

    open spec fn sub_spec(self, rhs: Sum<Weighted<T>>) -> Sum<Weighted<T>> {
        arbitrary()
    }
}

/// The terms of a weighted sum that a linear combination keeps: those whose
/// weight is not zero, among the first `n`.
pub open spec fn kept_terms(items: Seq<Weighted<Term>>, n: nat) -> Seq<Term>
    decreases n,
{
    if n == 0 {
        Seq::empty()
    } else if items[n - 1].weight@ == 0 {
        kept_terms(items, (n - 1) as nat)
    } else {
        kept_terms(items, (n - 1) as nat).push(items[n - 1].term)
    }
}

/// Whether every weight is zero or one, so that the sum is a linear
/// combination of its terms.
pub open spec fn plain_weights(items: Seq<Weighted<Term>>) -> bool {
    forall|i: int| 0 <= i < items.len() ==> (#[trigger] items[i]).weight@ <= 1
}

impl From<Sum<Term>> for LinearCombination {
    /// The linear combination of the sum's terms, in order.
    fn from(sum: Sum<Term>) -> (lc: LinearCombination)
        ensures
            lc@ == sum@,
    {
        LinearCombination(sum.0)
    }
}

impl FromSpecImpl<Sum<Term>> for LinearCombination {
    open spec fn obeys_from_spec() -> bool {
        true
    }

    open spec fn from_spec(sum: Sum<Term>) -> LinearCombination {
        LinearCombination(sum.0)
    }
}

impl Sum<Weighted<Term>> {
    /// The linear combination that the weighted sum stands for: a term of
    /// weight zero is dropped and a term of weight one is kept. `None` where
    /// some weight is neither, since a linear combination has no
    /// coefficients.
    pub fn reduce(&self) -> (r: Option<LinearCombination>)
        ensures
            match r {
                Some(lc) => plain_weights(self@) && lc@ == kept_terms(self@, self@.len()),
                None => !plain_weights(self@),
            },
    {
        let zero = Scalar::zero();
        let one = Scalar::one();
        let mut terms: Vec<Term> = Vec::new();
        let mut i: usize = 0;
        while i < self.0.len()
            invariant
                i <= self@.len(),
                zero@ == 0,
                one@ == 1,
                terms@ == kept_terms(self@, i as nat),
                forall|k: int| 0 <= k < i ==> (#[trigger] self@[k]).weight@ <= 1,
            decreases self@.len() - i,
        {
            let item = self.0[i];
            proof {
                if item.weight@ == 0 {
                    item.weight.lemma_value_injective(zero);
                }
                if item.weight@ == 1 {
                    item.weight.lemma_value_injective(one);
                }
            }
            if item.weight == zero {
            } else if item.weight == one {
                terms.push(item.term);
            } else {
                return None;
            }
            i += 1;
        }
        Some(LinearCombination(terms))
    }
}

} // verus!
