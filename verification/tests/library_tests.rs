use ic_circuit::commit::ExtractedCommitment;
use ic_circuit::field::fe_from_u64;
use ic_circuit::gates::{
    CellValues, ConstraintRoute, GateStates, Instance, Poly, SynthStep, algo_constraint_poly,
    eval_constraint_value, gate_constraints, parse_merkle_attr, route_constraint,
    synthesize_plan, value_base_name,
};
use ic_circuit::generators::{create_generator_r, generate_r};
use ic_circuit::proofdata::Proof;
use ic_circuit::registry::Registry;
use ic_circuit::schema::{Algo, AlgoItem, CellType, ChainItem, ColType, OperandRef, RowType};
use ic_circuit::string_to_static_str;
use ic_circuit::tree::{DomainMerkleHash, MerklePath};
use ic_circuit::value::{OverflowError, ValueType, net_magnitude_sign};

#[test]
fn magnitude_and_sign_of_positive_net() {
    // old 100, new 60: old < new is false, so the sign is plus one.
    let (magnitude, sign) = net_magnitude_sign(100, 60);
    assert_eq!(magnitude, fe_from_u64(40));
    assert_eq!(sign, fe_from_u64(1));
}

#[test]
fn magnitude_and_sign_of_negative_net() {
    let (magnitude, sign) = net_magnitude_sign(60, 100);
    assert_eq!(magnitude, fe_from_u64(40));
    // The sign is minus one in the field.
    let minus_one = -pasta_curves::Fp::from(1u64);
    assert_eq!(sign.to_bytes().as_slice(), ff::PrimeField::to_repr(&minus_one).as_slice());
}

#[test]
fn value_range_is_enforced() {
    assert!(ValueType::from(0).is_ok());
    assert!(ValueType::from(0xffffffff).is_ok());
    assert_eq!(ValueType::from(-1), Err(OverflowError));
    assert_eq!(ValueType::from(0x100000000), Err(OverflowError));
    assert_eq!(ValueType::from(5).unwrap().value(), 5);
    assert_eq!(ValueType::zero().to_u64(), Some(0));
    assert_eq!(ValueType(-3).to_u64(), None);
    let v = ValueType::from(6).unwrap().checked_mul(ValueType::from(7).unwrap()).unwrap();
    assert_eq!(v.value(), 42);
}

#[test]
fn merkle_root_matches_reference_fold() {
    let mut reg = Registry::new();
    reg.config_domain_name("domain_merklecrh", "TestMerkleCRH");

    let siblings: Vec<ic_circuit::field::Fe> = (0..32).map(|i| fe_from_u64(i as u64)).collect();
    let path = MerklePath::new(5, siblings);
    assert_eq!(path.position(), 5);
    let leaf = ExtractedCommitment(fe_from_u64(3));
    let root = path.root(&reg, leaf);

    // The reference fold, computed directly over the hash primitive.
    let domain = halo2_gadgets::sinsemilla::primitives::HashDomain::new("TestMerkleCRH");
    let mut node = pasta_curves::Fp::from(3u64);
    for level in 0..32u32 {
        let sibling = pasta_curves::Fp::from(level as u64);
        let (l, r) = if (5u32 >> level) & 1 == 0 {
            (node, sibling)
        } else {
            (sibling, node)
        };
        let mut msg: Vec<bool> = Vec::new();
        for i in 0..10 {
            msg.push((level >> i) & 1 == 1);
        }
        for f in [l, r] {
            let repr = ff::PrimeField::to_repr(&f);
            for i in 0..255 {
                msg.push((repr[i / 8] >> (i % 8)) & 1 == 1);
            }
        }
        let h: Option<pasta_curves::Fp> = domain.hash(msg.into_iter()).into();
        node = h.unwrap_or(pasta_curves::Fp::from(0u64));
    }
    assert_eq!(root.value().to_bytes().as_slice(), ff::PrimeField::to_repr(&node).as_slice());

    // An all-zero-sibling path at position zero: the same reference fold,
    // with the running node always on the left.
    let zeros: Vec<ic_circuit::field::Fe> = (0..32).map(|_| fe_from_u64(0)).collect();
    let zero_path = MerklePath::new(0, zeros);
    let zero_root = zero_path.root(&reg, ExtractedCommitment(fe_from_u64(3)));
    let mut node0 = pasta_curves::Fp::from(3u64);
    for level in 0..32u32 {
        let mut msg: Vec<bool> = Vec::new();
        for i in 0..10 {
            msg.push((level >> i) & 1 == 1);
        }
        for f in [node0, pasta_curves::Fp::from(0u64)] {
            let repr = ff::PrimeField::to_repr(&f);
            for i in 0..255 {
                msg.push((repr[i / 8] >> (i % 8)) & 1 == 1);
            }
        }
        let h: Option<pasta_curves::Fp> = domain.hash(msg.into_iter()).into();
        node0 = h.unwrap_or(pasta_curves::Fp::from(0u64));
    }
    assert_eq!(
        zero_root.value().to_bytes().as_slice(),
        ff::PrimeField::to_repr(&node0).as_slice(),
    );
}

#[test]
fn combine_matches_hash_primitive() {
    let reg = Registry::new();
    let l = DomainMerkleHash(fe_from_u64(8));
    let r = DomainMerkleHash(fe_from_u64(9));
    let out = DomainMerkleHash::combine(&reg, 2, &l, &r);

    let domain = halo2_gadgets::sinsemilla::primitives::HashDomain::new("domain_merklecrh");
    let mut msg: Vec<bool> = Vec::new();
    for i in 0..10 {
        msg.push((2u32 >> i) & 1 == 1);
    }
    for f in [pasta_curves::Fp::from(8u64), pasta_curves::Fp::from(9u64)] {
        let repr = ff::PrimeField::to_repr(&f);
        for i in 0..255 {
            msg.push((repr[i / 8] >> (i % 8)) & 1 == 1);
        }
    }
    let h: Option<pasta_curves::Fp> = domain.hash(msg.into_iter()).into();
    assert_eq!(
        out.value().to_bytes().as_slice(),
        ff::PrimeField::to_repr(&h.unwrap()).as_slice(),
    );
}

#[test]
fn registry_configuration_round_trips() {
    let mut reg = Registry::new();
    reg.config_fixedbasefull("NullifierK", "nf_domain", 85);
    reg.config_fixedpointbasefield("AuthG", "auth_domain", 85);
    reg.config_fixedpointshort("ValueCommitV", "value_domain", 22);
    let full = reg.get_fixedbasefull("NullifierK").unwrap();
    assert_eq!(full.domain, "nf_domain".to_string());
    assert_eq!(full.num_windows, 85);
    assert!(reg.get_fixedbasefull("missing").is_none());
    let base = reg.get_fixedpointbasefield("AuthG").unwrap();
    assert_eq!(base.domain, "auth_domain".to_string());
    let short = reg.get_fixedpointshort("ValueCommitV").unwrap();
    assert_eq!(short.num_windows_short, 22);

    assert_eq!(reg.get_domain_name("unaliased"), "unaliased".to_string());
    reg.config_domain_name("alias", "real_name");
    assert_eq!(reg.get_domain_name("alias"), "real_name".to_string());

    assert!(!reg.is_exist_zs_and_us("d"));
    reg.config_zs_and_us("d", None);
    assert!(reg.is_exist_zs_and_us("d"));
    assert!(!reg.is_exist_zs_and_us_short("d"));
}

#[test]
fn commit_domain_queue_pops_oldest_first() {
    let mut reg = Registry::new();
    reg.add_commit_domain("first", 10);
    reg.add_commit_domain("second", 11);
    let a = reg.get_next_commit_domain().unwrap();
    assert_eq!(a.domain, "first".to_string());
    assert_eq!(a.num_windows, 10);
    assert!(!a.is_hash_domain);
    let b = reg.get_next_commit_domain().unwrap();
    assert_eq!(b.domain, "second".to_string());
    assert!(reg.get_next_commit_domain().is_none());
}

#[test]
fn generators_match_primitive_domains() {
    let (x, y) = create_generator_r("GenDomain");
    let p = halo2_gadgets::sinsemilla::primitives::CommitDomain::new("GenDomain").R();
    let affine = group::Curve::to_affine(&p);
    let coords = pasta_curves::arithmetic::CurveAffine::coordinates(&affine).unwrap();
    assert_eq!(x.as_slice(), ff::PrimeField::to_repr(coords.x()).as_slice());
    assert_eq!(y.as_slice(), ff::PrimeField::to_repr(coords.y()).as_slice());
    // The regenerated form equals the created one.
    let (x2, y2) = generate_r("GenDomain");
    assert_eq!(x, x2);
    assert_eq!(y, y2);
}

#[test]
fn schema_names_parse_exactly() {
    assert_eq!(CellType::parse(&"Input".to_string()), Some(CellType::Input));
    assert_eq!(CellType::parse(&"TopSlice".to_string()), Some(CellType::TopSlice));
    assert_eq!(CellType::parse(&"Bogus".to_string()), None);
    assert_eq!(ColType::parse(&"Advice".to_string()), Some(ColType::Advice));
    assert_eq!(ColType::parse(&"bogus".to_string()), None);
    assert_eq!(RowType::parse(&"Next".to_string()), Some(RowType::Next));
    assert_eq!(RowType::parse(&"next".to_string()), None);
    assert_eq!(CellType::from(&"PrimeCheck".to_string()), CellType::PrimeCheck);

    assert!(CellType::is_input_cell(CellType::YInput));
    assert!(!CellType::is_input_cell(CellType::Piece));
    assert!(CellType::is_piece_or_slice_cell(CellType::TopSlice));
    assert!(!CellType::is_piece_or_slice_cell(CellType::PadSlice));
    assert!(CellType::is_z13_cell(CellType::CanonicityCheckZ13));
    assert!(!CellType::is_z13_cell(CellType::CanonicityCheck));
    assert!(CellType::is_canonicity_or_prime_cell(CellType::PrimeCheck));
    assert!(!CellType::is_canonicity_or_prime_cell(CellType::Slice));
}

#[test]
fn constraint_polynomial_evaluates() {
    let mut values = CellValues::new();
    values.set("a", fe_from_u64(3));
    values.set("b", fe_from_u64(4));
    values.set("flag", fe_from_u64(0));

    // (a * b) - boolean_neg(flag): 12 - 1 = 11.
    let prod = AlgoItem {
        name: String::new(),
        desc: String::new(),
        operator: "mul".to_string(),
        operand1: OperandRef { name: "a".to_string(), tag: "Cell".to_string() },
        operand2: Some(OperandRef { name: "b".to_string(), tag: "Cell".to_string() }),
    };
    let neg = AlgoItem {
        name: String::new(),
        desc: String::new(),
        operator: "boolean_neg".to_string(),
        operand1: OperandRef { name: "flag".to_string(), tag: "Cell".to_string() },
        operand2: None,
    };
    let algo = Algo {
        name: "gate poly".to_string(),
        desc: String::new(),
        items: vec![
            ChainItem { chain_op: String::new(), item: prod },
            ChainItem { chain_op: "sub".to_string(), item: neg },
        ],
    };
    let v = eval_constraint_value(&values, &algo).unwrap();
    assert_eq!(v, fe_from_u64(11));
}

#[test]
fn constraint_routing_follows_instance_names() {
    let instances = vec!["net".to_string(), "cm_x".to_string(), "cm_y".to_string()];
    let points = vec!["check_pk".to_string()];

    match route_constraint(&instances, &points, &"net".to_string()) {
        ConstraintRoute::Single(n) => assert_eq!(n, "net".to_string()),
        _ => panic!("expected a single route"),
    }
    match route_constraint(&instances, &points, &"cm".to_string()) {
        ConstraintRoute::Dual(x, y) => {
            assert_eq!(x, "cm_x".to_string());
            assert_eq!(y, "cm_y".to_string());
        },
        _ => panic!("expected a dual route"),
    }
    match route_constraint(&instances, &points, &"check_pk".to_string()) {
        ConstraintRoute::ExpectedPoint(n) => assert_eq!(n, "check_pk".to_string()),
        _ => panic!("expected a point route"),
    }
    match route_constraint(&instances, &points, &"scratch".to_string()) {
        ConstraintRoute::Intermediate => {},
        _ => panic!("expected an intermediate"),
    }
}

#[test]
fn value_names_split_into_halves() {
    assert_eq!(value_base_name(&"old_v".to_string()), Some((true, "v".to_string())));
    assert_eq!(value_base_name(&"new_v".to_string()), Some((false, "v".to_string())));
    assert_eq!(value_base_name(&"anchor_v".to_string()), None);
    assert_eq!(value_base_name(&"old".to_string()), None);
}

#[test]
fn gate_regions_are_claimed_once() {
    let mut states = GateStates::new();
    assert!(!states.is_marked(&"gate b".to_string()));
    assert!(states.try_claim(&"gate b".to_string()));
    assert!(states.is_marked(&"gate b".to_string()));
    assert!(!states.try_claim(&"gate b".to_string()));
    assert!(states.try_claim(&"gate d".to_string()));
}

#[test]
fn proof_bytes_are_kept() {
    let p = Proof::new(vec![1, 2, 3]);
    assert_eq!(p.as_bytes().as_slice(), &[1, 2, 3]);
    let q = p.clone();
    assert_eq!(q.as_bytes().as_slice(), &[1, 2, 3]);
}

#[test]
fn leaked_str_keeps_its_text() {
    let s = string_to_static_str(&"gate name".to_string());
    assert_eq!(s, "gate name");
}

#[test]
fn registry_generator_falls_back_to_the_domain_hash() {
    let reg = Registry::new();
    let p = reg.generator("FallbackDomain").unwrap();
    let expect = halo2_gadgets::sinsemilla::primitives::CommitDomain::new("FallbackDomain").R();
    assert_eq!(
        p.to_bytes().as_slice(),
        group::GroupEncoding::to_bytes(&expect).as_slice(),
    );
}

#[test]
fn public_inputs_follow_the_configured_order() {
    let inst = Instance {
        enables: vec![("enable_spend".to_string(), true), ("enable_output".to_string(), false)],
        fields: vec![("anchor".to_string(), fe_from_u64(42))],
    };
    let order = vec![
        "anchor".to_string(),
        "enable_spend".to_string(),
        "enable_output".to_string(),
        "absent".to_string(),
    ];
    let column = inst.to_halo2_instance(&order);
    assert_eq!(column.len(), 4);
    assert_eq!(column[0], fe_from_u64(42));
    assert_eq!(column[1], fe_from_u64(1));
    assert_eq!(column[2], fe_from_u64(0));
    assert_eq!(column[3], fe_from_u64(0));
}

#[test]
fn merkle_attributes_parse_into_three_parts() {
    let got = parse_merkle_attr(&"MerklePath:path1#domain_merklecrh#cm_leaf".to_string());
    let (name, domain, leaf) = got.unwrap();
    assert_eq!(name, "path1".to_string());
    assert_eq!(domain, "domain_merklecrh".to_string());
    assert_eq!(leaf, "cm_leaf".to_string());

    assert!(parse_merkle_attr(&"Value".to_string()).is_none());
    assert!(parse_merkle_attr(&"MerklePath:only_one#part".to_string()).is_none());
}

#[test]
fn value_bytes_round_trip() {
    let v = ValueType(-5);
    let bytes = v.to_bytes();
    assert_eq!(bytes.as_slice(), (-5i64).to_le_bytes().as_slice());
    let back = ValueType::from_bytes(&bytes);
    assert_eq!(back, v);
    let w = ValueType(123456789);
    assert_eq!(ValueType::from_bytes(&w.to_bytes()), w);
}

#[test]
fn const_arrays_come_from_the_closure() {
    let doubled = ic_circuit::gen_const_array_with_default::<u64, 5>(7, |i| (i as u64) * 2);
    assert_eq!(doubled, vec![0, 2, 4, 6, 8]);
    let seeded = ic_circuit::gen_const_array::<u64, 3>(|i| (i as u64) + 10);
    assert_eq!(seeded, vec![10, 11, 12]);
}

#[test]
fn constraint_poly_shape_and_errors() {
    let prod = AlgoItem {
        name: String::new(),
        desc: String::new(),
        operator: "mul".to_string(),
        operand1: OperandRef { name: "a".to_string(), tag: "Cell".to_string() },
        operand2: Some(OperandRef { name: "b".to_string(), tag: "Cell".to_string() }),
    };
    let algo = Algo {
        name: "gate poly".to_string(),
        desc: String::new(),
        items: vec![ChainItem { chain_op: String::new(), item: prod.clone() }],
    };
    let poly = algo_constraint_poly(&algo).unwrap();
    // whole = Const(0) + (a * b)
    assert!(matches!(&poly, Poly::Add(l, r)
        if matches!(**l, Poly::Const(0)) && matches!(**r, Poly::Mul(..))));
    assert!(gate_constraints(&vec![algo]).is_ok());

    // An unknown chain operator is a configuration error.
    let bad = Algo {
        name: "gate poly".to_string(),
        desc: String::new(),
        items: vec![ChainItem { chain_op: "div".to_string(), item: prod }],
    };
    assert!(algo_constraint_poly(&bad).is_err());
}

#[test]
fn synthesize_plan_follows_the_step_order() {
    let algos = vec![
        Algo { name: "constraint".to_string(), desc: String::new(), items: vec![] },
        Algo { name: "constraint-commit".to_string(), desc: String::new(), items: vec![] },
    ];
    let plan = synthesize_plan(
        &vec!["f".to_string()],
        &vec!["v".to_string()],
        &vec![],
        &vec!["pk".to_string()],
        &vec!["path1".to_string()],
        &algos,
        1,
        2,
    );
    assert_eq!(plan.len(), 9);
    assert!(matches!(&plan[0], SynthStep::WitnessField(n) if n == "f"));
    assert!(matches!(&plan[1], SynthStep::WitnessValuePair(n) if n == "v"));
    assert!(matches!(&plan[2], SynthStep::WitnessNonIdentityPoint(n) if n == "pk"));
    assert!(matches!(&plan[3], SynthStep::MerkleRoot(n) if n == "path1"));
    assert!(matches!(plan[4], SynthStep::EvaluateConstraint(0)));
    assert!(matches!(plan[5], SynthStep::RunCommitment(0)));
    assert!(matches!(plan[6], SynthStep::EvaluateCommitConstraint(1)));
    assert!(matches!(plan[7], SynthStep::DefaultAssignGate(0)));
    assert!(matches!(plan[8], SynthStep::DefaultAssignGate(1)));
}
