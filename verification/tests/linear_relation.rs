use bls12_381::{G1Affine, G1Projective};
use group::Group;
use rand::rngs::OsRng;

use sigma_rs::element::Element;
use sigma_rs::errors::Error;
use sigma_rs::field::Scalar;
use sigma_rs::linear_relation::{
    msm_pr, GroupMap, GroupVar, LinearCombination, LinearMap, LinearRelation, ScalarVar, Term,
};

fn element(p: G1Projective) -> Element {
    Element::from_bytes(&G1Affine::from(p).to_compressed()).unwrap()
}

fn scalar(s: bls12_381::Scalar) -> Scalar {
    Scalar::from_bytes(&s.to_bytes()).unwrap()
}

fn random_element(rng: &mut OsRng) -> Element {
    element(G1Projective::random(rng))
}

fn term(s: usize, p: usize) -> Term {
    Term::from((ScalarVar(s), GroupVar(p)))
}

#[test]
fn variables_are_allocated_densely_and_in_order() {
    let mut relation = LinearRelation::new();
    assert_eq!(relation.allocate_scalar(), ScalarVar(0));
    assert_eq!(relation.allocate_scalar(), ScalarVar(1));
    assert_eq!(relation.allocate_scalars::<3>(), [ScalarVar(2), ScalarVar(3), ScalarVar(4)]);
    assert_eq!(relation.allocate_scalars::<0>(), []);
    assert_eq!(relation.linear_map.num_scalars, 5);

    assert_eq!(relation.allocate_element(), GroupVar(0));
    assert_eq!(relation.allocate_elements::<2>(), [GroupVar(1), GroupVar(2)]);
    assert_eq!(relation.allocate_element(), GroupVar(3));
    assert_eq!(relation.linear_map.num_elements, 4);
    assert_eq!(relation.linear_map.num_scalars, 5);

    assert_eq!(ScalarVar(4).index(), 4);
    assert_eq!(GroupVar(3).index(), 3);
}

#[test]
fn terms_and_combinations_keep_what_they_are_given() {
    let t = term(2, 5);
    assert_eq!(t.scalar(), ScalarVar(2));
    assert_eq!(t.elem(), GroupVar(5));

    let single = LinearCombination::from(t);
    assert_eq!(single.terms(), &[t]);
    let several = LinearCombination::from(vec![term(1, 0), term(0, 1), term(1, 0)]);
    assert_eq!(several.terms(), &[term(1, 0), term(0, 1), term(1, 0)]);
    assert_eq!(LinearCombination::from(Vec::<Term>::new()).terms(), &[]);
    assert_eq!(LinearCombination::from((ScalarVar(2), GroupVar(5))).terms(), &[t]);
    assert_eq!(
        LinearCombination::from([term(1, 0), term(0, 1)]).terms(),
        &[term(1, 0), term(0, 1)]
    );
    let none: [Term; 0] = [];
    assert_eq!(LinearCombination::from(none).terms(), &[]);
}

#[test]
fn equations_are_appended_in_order() {
    let mut relation = LinearRelation::new();
    let [x, y] = relation.allocate_scalars::<2>();
    let [g, h] = relation.allocate_elements::<2>();
    relation.append_equation(h, LinearCombination::from(Term::from((x, g))));
    let image = relation.allocate_eq(LinearCombination::from(vec![
        Term::from((y, h)),
        Term::from((x, g)),
    ]));
    assert_eq!(image, GroupVar(2));
    assert_eq!(relation.linear_map.num_elements, 3);
    assert_eq!(relation.image, vec![h, image]);
    assert_eq!(relation.linear_map.num_constraints(), 2);
    assert_eq!(relation.linear_map.constraints[0].terms(), &[Term::from((x, g))]);
    assert_eq!(
        relation.linear_map.constraints[1].terms(),
        &[Term::from((y, h)), Term::from((x, g))]
    );
    assert_eq!(relation.commit_bytes_len(), 96);
    assert_eq!(LinearRelation::new().commit_bytes_len(), 0);
}

#[test]
fn group_map_grows_and_reads_what_was_assigned() {
    let mut rng = OsRng;
    let a = random_element(&mut rng);
    let b = random_element(&mut rng);

    let mut map = GroupMap::new();
    assert_eq!(map.get(GroupVar(0)), Err(Error::UnassignedGroupVar { var: GroupVar(0) }));
    map.assign_element(GroupVar(3), a);
    assert_eq!(map.get(GroupVar(3)), Ok(a));
    assert_eq!(map.get(GroupVar(2)), Err(Error::UnassignedGroupVar { var: GroupVar(2) }));
    assert_eq!(map.get(GroupVar(4)), Err(Error::UnassignedGroupVar { var: GroupVar(4) }));
    assert_eq!(map.get(GroupVar(1000)), Err(Error::UnassignedGroupVar { var: GroupVar(1000) }));

    // Assigning the same element again changes nothing.
    map.assign_element(GroupVar(3), a);
    map.assign_elements(&[(GroupVar(1), b), (GroupVar(3), a), (GroupVar(1), b)]);
    assert_eq!(map.get(GroupVar(1)), Ok(b));
    assert_eq!(map.get(GroupVar(3)), Ok(a));

    assert_eq!(map.iter(), vec![(GroupVar(1), b), (GroupVar(3), a)]);
    assert_eq!(map.clone().iter(), map.iter());
    assert_eq!(map.into_iter(), vec![(GroupVar(1), b), (GroupVar(3), a)]);

    let built = GroupMap::from_iter(&[(GroupVar(2), a), (GroupVar(0), b)]);
    assert_eq!(built.iter(), vec![(GroupVar(0), b), (GroupVar(2), a)]);
    assert_eq!(GroupMap::default().iter(), vec![]);
}

#[test]
fn msm_is_the_sum_of_the_products() {
    let mut rng = OsRng;
    let p = G1Projective::random(&mut rng);
    let q = G1Projective::random(&mut rng);
    let a = bls12_381::Scalar::from(5u64);
    let b = bls12_381::Scalar::from(11u64);

    assert_eq!(msm_pr(&[], &[]), Element::identity());
    assert_eq!(msm_pr(&[scalar(a)], &[element(p)]), element(p * a));
    assert_eq!(
        msm_pr(&[scalar(a), scalar(b)], &[element(p), element(q)]),
        element(p * a + q * b)
    );
    // The longer slice is cut to the length of the shorter.
    assert_eq!(msm_pr(&[scalar(a), scalar(b)], &[element(p)]), element(p * a));
    assert_eq!(msm_pr(&[scalar(a)], &[element(p), element(q)]), element(p * a));
}

#[test]
fn evaluate_computes_each_combination() {
    let mut rng = OsRng;
    let p = G1Projective::random(&mut rng);
    let q = G1Projective::random(&mut rng);
    let x = bls12_381::Scalar::from(3u64);
    let y = bls12_381::Scalar::from(4u64);

    let mut map = LinearMap::new();
    map.num_scalars = 2;
    map.num_elements = 2;
    map.group_elements.assign_elements(&[(GroupVar(0), element(p)), (GroupVar(1), element(q))]);
    map.append(LinearCombination::from(vec![term(0, 0), term(1, 1)]));
    map.append(LinearCombination::from(vec![term(1, 0)]));
    map.append(LinearCombination::from(vec![term(0, 1), term(0, 1)]));
    map.append(LinearCombination::from(Vec::<Term>::new()));

    assert_eq!(
        map.evaluate(&[scalar(x), scalar(y)]),
        Ok(vec![
            element(p * x + q * y),
            element(p * y),
            element(q * x + q * x),
            Element::identity(),
        ])
    );
    assert_eq!(LinearMap::new().evaluate(&[]), Ok(vec![]));
    assert_eq!(LinearMap::default().num_constraints(), 0);
}

#[test]
fn evaluate_reports_the_first_unassigned_variable() {
    let mut rng = OsRng;
    let mut map = LinearMap::new();
    map.num_scalars = 1;
    map.num_elements = 4;
    map.group_elements.assign_element(GroupVar(0), random_element(&mut rng));
    map.append(LinearCombination::from(vec![term(0, 0)]));
    map.append(LinearCombination::from(vec![term(0, 0), term(0, 3), term(0, 2)]));
    map.append(LinearCombination::from(vec![term(0, 1)]));
    let x = Scalar::random(&mut rng);
    assert_eq!(map.evaluate(&[x]), Err(Error::UnassignedGroupVar { var: GroupVar(3) }));
    map.group_elements.assign_element(GroupVar(3), random_element(&mut rng));
    assert_eq!(map.evaluate(&[x]), Err(Error::UnassignedGroupVar { var: GroupVar(2) }));
    map.group_elements.assign_element(GroupVar(2), random_element(&mut rng));
    assert_eq!(map.evaluate(&[x]), Err(Error::UnassignedGroupVar { var: GroupVar(1) }));
}

#[test]
fn image_reads_the_image_variables_in_order() {
    let mut rng = OsRng;
    let a = random_element(&mut rng);
    let b = random_element(&mut rng);
    let mut relation = LinearRelation::new();
    let [x] = relation.allocate_scalars::<1>();
    let [g, first, second] = relation.allocate_elements::<3>();
    relation.append_equation(second, LinearCombination::from(Term::from((x, g))));
    relation.append_equation(first, LinearCombination::from(Term::from((x, g))));
    relation.append_equation(second, LinearCombination::from(Term::from((x, g))));
    assert_eq!(relation.image(), Err(Error::UnassignedGroupVar { var: second }));
    relation.set_element(second, b);
    assert_eq!(relation.image(), Err(Error::UnassignedGroupVar { var: first }));
    relation.set_element(first, a);
    assert_eq!(relation.image(), Ok(vec![b, a, b]));
    assert_eq!(LinearRelation::default().image(), Ok(vec![]));
}

#[test]
fn compute_image_assigns_the_value_of_each_combination() {
    let mut rng = OsRng;
    let p = G1Projective::random(&mut rng);
    let q = G1Projective::random(&mut rng);
    let x = bls12_381::Scalar::from(6u64);
    let y = bls12_381::Scalar::from(7u64);

    let mut relation = LinearRelation::new();
    let [vx, vy] = relation.allocate_scalars::<2>();
    let [vp, vq] = relation.allocate_elements::<2>();
    relation.set_elements(&[(vp, element(p)), (vq, element(q))]);
    let first = relation.allocate_eq(LinearCombination::from(vec![
        Term::from((vx, vp)),
        Term::from((vy, vq)),
    ]));
    // The second equation reads the image of the first.
    let second = relation.allocate_eq(LinearCombination::from(Term::from((vy, first))));

    let witness = [scalar(x), scalar(y)];
    assert!(relation.can_compute_image(&witness));
    assert_eq!(relation.compute_image(&witness), Ok(()));
    let c = p * x + q * y;
    assert_eq!(relation.linear_map.group_elements.get(first), Ok(element(c)));
    assert_eq!(relation.linear_map.group_elements.get(second), Ok(element(c * y)));
    assert_eq!(relation.image(), Ok(vec![element(c), element(c * y)]));

    // Computing the same image again assigns the same elements.
    assert_eq!(relation.try_compute_image(&witness), Some(Ok(())));
    // Another witness would overwrite them: nothing is done.
    let other = [scalar(y), scalar(x)];
    assert!(!relation.can_compute_image(&other));
    assert_eq!(relation.try_compute_image(&other), None);
    assert_eq!(relation.image(), Ok(vec![element(c), element(c * y)]));
}

#[test]
fn compute_image_stops_at_an_unassigned_variable() {
    let mut rng = OsRng;
    let p = random_element(&mut rng);
    let mut relation = LinearRelation::new();
    let [vx] = relation.allocate_scalars::<1>();
    let [vp, missing] = relation.allocate_elements::<2>();
    relation.set_element(vp, p);
    let first = relation.allocate_eq(LinearCombination::from(Term::from((vx, vp))));
    let second = relation.allocate_eq(LinearCombination::from(Term::from((vx, missing))));
    let third = relation.allocate_eq(LinearCombination::from(Term::from((vx, vp))));

    let x = Scalar::random(&mut rng);
    assert_eq!(
        relation.compute_image(&[x]),
        Err(Error::UnassignedGroupVar { var: missing })
    );
    // The image assigned before the failure stays.
    assert_eq!(relation.linear_map.group_elements.get(first), Ok(p.scale(&x)));
    assert_eq!(
        relation.linear_map.group_elements.get(second),
        Err(Error::UnassignedGroupVar { var: second })
    );
    assert_eq!(
        relation.linear_map.group_elements.get(third),
        Err(Error::UnassignedGroupVar { var: third })
    );
}

#[test]
fn label_has_the_stated_layout() {
    assert_eq!(LinearRelation::new().label(), vec![0, 0, 0, 0]);

    let mut relation = LinearRelation::new();
    let x = relation.allocate_scalar();
    let g = relation.allocate_element();
    let image = relation.allocate_element();
    relation.append_equation(image, LinearCombination::from(Term::from((x, g))));
    assert_eq!(
        relation.label(),
        vec![1, 0, 0, 0, 1, 0, 0, 0, 1, 0, 0, 0, 0, 0, 0, 0, 0, 0, 0, 0]
    );

    let mut relation = LinearRelation::new();
    relation.append_equation(
        GroupVar(0x0102),
        LinearCombination::from(vec![term(3, 0x01020304), term(0x0a0b0c0d, 4)]),
    );
    relation.append_equation(GroupVar(7), LinearCombination::from(Vec::<Term>::new()));
    assert_eq!(
        relation.label(),
        vec![
            2, 0, 0, 0, // two equations
            2, 1, 0, 0, // image variable 0x0102
            2, 0, 0, 0, // two terms
            3, 0, 0, 0, 4, 3, 2, 1, // scalar 3, element 0x01020304
            0x0d, 0x0c, 0x0b, 0x0a, 4, 0, 0, 0, // scalar 0x0a0b0c0d, element 4
            7, 0, 0, 0, // image variable 7
            0, 0, 0, 0, // no terms
        ]
    );
}

#[test]
fn label_writes_indices_modulo_two_to_the_thirty_two() {
    let big = 0xffff_ffffusize.wrapping_add(6);
    let mut relation = LinearRelation::new();
    relation.append_equation(GroupVar(0xffff_ffff), LinearCombination::from(term(big, 9)));
    let label = relation.label();
    assert_eq!(label[4..8], [0xff, 0xff, 0xff, 0xff]);
    assert_eq!(label[12..16], (big as u32).to_le_bytes());
}

#[test]
fn label_depends_on_the_shape_only() {
    let mut rng = OsRng;
    let build = |rng: &mut OsRng, assign: bool| {
        let mut relation = LinearRelation::new();
        let [x, y] = relation.allocate_scalars::<2>();
        let [g, h, c] = relation.allocate_elements::<3>();
        if assign {
            relation.set_elements(&[
                (g, random_element(rng)),
                (h, random_element(rng)),
                (c, random_element(rng)),
            ]);
        }
        relation.append_equation(
            c,
            LinearCombination::from(vec![Term::from((x, g)), Term::from((y, h))]),
        );
        relation
    };
    let first = build(&mut rng, true);
    let second = build(&mut rng, true);
    let bare = build(&mut rng, false);
    assert_ne!(first.image(), second.image());
    assert_eq!(first.label(), second.label());
    assert_eq!(first.label(), bare.label());

    // The order of the terms is part of the shape.
    let mut swapped = LinearRelation::new();
    let [x, y] = swapped.allocate_scalars::<2>();
    let [g, h, c] = swapped.allocate_elements::<3>();
    swapped.append_equation(
        c,
        LinearCombination::from(vec![Term::from((y, h)), Term::from((x, g))]),
    );
    assert_ne!(swapped.label(), first.label());
    assert_eq!(swapped.label().len(), first.label().len());
}

#[test]
fn preconditions_can_be_tested_at_run_time() {
    let mut rng = OsRng;
    let a = random_element(&mut rng);
    let b = random_element(&mut rng);

    let mut map = GroupMap::new();
    assert!(map.can_assign(GroupVar(5), a));
    assert!(!map.can_assign(GroupVar(usize::MAX), a));
    map.assign_element(GroupVar(5), a);
    assert!(map.can_assign(GroupVar(5), a));
    assert!(!map.can_assign(GroupVar(5), b));
    assert!(map.can_assign(GroupVar(4), b));
    assert!(map.can_assign(GroupVar(6), b));

    let mut relation = LinearRelation::new();
    assert!(relation.is_well_formed());
    let [x] = relation.allocate_scalars::<1>();
    let [g, h] = relation.allocate_elements::<2>();
    relation.append_equation(h, LinearCombination::from(Term::from((x, g))));
    assert!(relation.is_well_formed());
    assert!(relation.linear_map.scalars_fit(1));
    assert!(!relation.linear_map.scalars_fit(0));
    assert!(relation.linear_map.elems_fit(1));
    assert!(!relation.linear_map.elems_fit(0));

    // A term that names a scalar that was not allocated.
    let mut bad = relation.clone();
    bad.append_equation(h, LinearCombination::from(term(1, 0)));
    assert!(!bad.is_well_formed());
    // A term that names a group variable that was not allocated.
    let mut bad = relation.clone();
    bad.append_equation(h, LinearCombination::from(term(0, 2)));
    assert!(!bad.is_well_formed());
    // An image variable that was not allocated.
    let mut bad = relation.clone();
    bad.append_equation(GroupVar(2), LinearCombination::from(term(0, 0)));
    assert!(!bad.is_well_formed());
    // An image variable without a combination.
    let mut bad = relation.clone();
    bad.image.push(h);
    assert!(!bad.is_well_formed());
}

#[test]
fn clones_state_the_same() {
    let mut rng = OsRng;
    let mut relation = LinearRelation::new();
    let [x, y] = relation.allocate_scalars::<2>();
    let [g, h, c] = relation.allocate_elements::<3>();
    relation.set_elements(&[(g, random_element(&mut rng)), (h, random_element(&mut rng))]);
    relation.append_equation(
        c,
        LinearCombination::from(vec![Term::from((x, g)), Term::from((y, h))]),
    );
    let witness = [Scalar::random(&mut rng), Scalar::random(&mut rng)];

    let mut copy = relation.clone();
    assert_eq!(copy.label(), relation.label());
    assert_eq!(copy.image, relation.image);
    assert_eq!(copy.linear_map.num_scalars, 2);
    assert_eq!(copy.linear_map.num_elements, 3);
    assert_eq!(copy.linear_map.evaluate(&witness), relation.linear_map.evaluate(&witness));
    assert_eq!(copy.linear_map.group_elements.iter(), relation.linear_map.group_elements.iter());
    assert_eq!(
        copy.linear_map.constraints[0].clone().terms(),
        relation.linear_map.constraints[0].terms()
    );

    // The clone goes its own way.
    copy.compute_image(&witness).unwrap();
    assert!(copy.image().is_ok());
    assert_eq!(relation.image(), Err(Error::UnassignedGroupVar { var: c }));
}
